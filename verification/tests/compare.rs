use hc_ops::cli::{CompareArgs, CompareCommands};
use hc_ops::compare::diff::{diff, DiffEntry, SliceDiff};
use hc_ops::compare::dump::{parse_dump, parse_line, slice_hash_from_fields};
use hc_ops::compare::print::SliceHashTable;
use hc_ops::compare::{compare_slice_hash_files, handle_compare_command, CompareOutput};
use hc_ops::retrieve::model::SliceHash;
use std::path::PathBuf;

fn record(arc_start: i32, arc_end: i32, slice_index: i64, hash: &[u8]) -> SliceHash {
    SliceHash { arc_start, arc_end, slice_index, hash: hash.to_vec() }
}

fn keys(entries: &[DiffEntry]) -> Vec<(u32, u32, u64)> {
    entries.iter().map(|e| (e.arc_start, e.arc_end, e.slice_index)).collect()
}

#[test]
fn parse_line_reads_a_table_row() {
    let line = "│ Arc(0, 100) │ 5           │ AQID │";
    let parsed = parse_line(line.as_bytes()).unwrap();
    assert_eq!(parsed, record(0, 100, 5, &[1, 2, 3]));
}

#[test]
fn parse_line_accepts_blanks_as_filler() {
    let parsed = parse_line(b" \tArc(7, 9) 12 AAECAw== ").unwrap();
    assert_eq!(parsed, record(7, 9, 12, &[0, 1, 2, 3]));
}

#[test]
fn parse_line_needs_leading_filler() {
    assert!(parse_line(b"Arc(0, 100) 5 AQID ").is_none());
}

#[test]
fn parse_line_needs_a_space_after_the_digest() {
    assert!(parse_line("│ Arc(0, 100) │ 5 │ AQID".as_bytes()).is_none());
    assert!(parse_line("│ Arc(0, 100) │ 5 │ AQID│".as_bytes()).is_none());
}

#[test]
fn parse_line_skips_borders_and_headers() {
    assert!(parse_line("╭─────────────┬─────────────┬──────╮".as_bytes()).is_none());
    assert!(parse_line("│ dht_arc     │ slice_index │ hash │".as_bytes()).is_none());
    assert!(parse_line("├─────────────┼─────────────┼──────┤".as_bytes()).is_none());
    assert!(parse_line(b"").is_none());
}

#[test]
fn parse_line_rejects_a_digest_that_is_not_base64() {
    assert!(parse_line("│ Arc(0, 100) │ 5 │ A?ID │".as_bytes()).is_none());
    assert!(parse_line("│ Arc(0, 100) │ 5 │ AQI │".as_bytes()).is_none());
}

#[test]
fn parse_line_rejects_numbers_that_do_not_fit() {
    assert!(parse_line("│ Arc(4294967296, 1) │ 5 │ AQID │".as_bytes()).is_none());
    assert!(parse_line("│ Arc(1, 4294967296) │ 5 │ AQID │".as_bytes()).is_none());
    assert!(parse_line("│ Arc(1, 2) │ 18446744073709551616 │ AQID │".as_bytes()).is_none());
}

#[test]
fn parse_line_keeps_the_bits_of_large_numbers() {
    let parsed =
        parse_line("│ Arc(4294967295, 2147483648) │ 18446744073709551615 │ AQID │".as_bytes())
            .unwrap();
    assert_eq!(parsed, record(-1, i32::MIN, -1, &[1, 2, 3]));
    let parsed =
        parse_line("│ Arc(2147483647, 007) │ 9223372036854775808 │ AQID │".as_bytes()).unwrap();
    assert_eq!(parsed, record(i32::MAX, 7, i64::MIN, &[1, 2, 3]));
}

#[test]
fn parse_line_wants_the_exact_punctuation() {
    assert!(parse_line("│ Arc(0,100) │ 5 │ AQID │".as_bytes()).is_none());
    assert!(parse_line("│ Arc(0, 100 │ 5 │ AQID │".as_bytes()).is_none());
    assert!(parse_line("│ arc(0, 100) │ 5 │ AQID │".as_bytes()).is_none());
    assert!(parse_line("│ Arc(0, 100)5 │ AQID │".as_bytes()).is_none());
    assert!(parse_line("│ Arc(, 100) │ 5 │ AQID │".as_bytes()).is_none());
}

#[test]
fn slice_hash_from_fields_follows_the_decoded_digest() {
    assert!(slice_hash_from_fields(1, 2, 3, None).is_none());
    assert_eq!(
        slice_hash_from_fields(1, 2, 3, Some(vec![9, 8])).unwrap(),
        record(1, 2, 3, &[9, 8])
    );
    assert_eq!(
        slice_hash_from_fields(0x8000_0000, 0xFFFF_FFFE, 1 << 63, Some(vec![])).unwrap(),
        record(i32::MIN, -2, i64::MIN, &[])
    );
}

#[test]
fn parse_dump_reads_every_data_line() {
    let text = "╭──────────────┬─────────────┬──────╮\n\
                │ dht_arc      │ slice_index │ hash │\n\
                ├──────────────┼─────────────┼──────┤\n\
                │ Arc(0, 100)  │ 5           │ AQID │\r\n\
                │ Arc(100, 200) │ 6          │ BAUG │\n\
                ╰──────────────┴─────────────┴──────╯\n\
                │ Arc(1, 2) │ 7 │ /w== │";
    let records = parse_dump(text.as_bytes());
    assert_eq!(
        records,
        vec![record(0, 100, 5, &[1, 2, 3]), record(100, 200, 6, &[4, 5, 6]), record(1, 2, 7, &[255])]
    );
}

#[test]
fn parse_dump_of_another_format_is_empty() {
    assert!(parse_dump(b"").is_empty());
    assert!(parse_dump(b"\n\n\n").is_empty());
    assert!(parse_dump(b"0,100,5,AQID\n100,200,6,BAUG\n").is_empty());
}

#[test]
fn diff_reports_a_mismatch_with_both_digests() {
    let left = vec![record(0, 100, 5, b"hashX")];
    let right = vec![record(0, 100, 5, b"hashY")];
    let entries = diff(&left, &right);
    assert_eq!(entries.len(), 1);
    assert_eq!(keys(&entries), vec![(0, 100, 5)]);
    match &entries[0].diff {
        SliceDiff::HashMismatch { left, right } => {
            assert_eq!(left.as_slice(), b"hashX");
            assert_eq!(right.as_slice(), b"hashY");
        }
        other => panic!("unexpected difference: {:?}", other),
    }
}

#[test]
fn diff_of_identical_digests_is_empty() {
    let left = vec![record(0, 100, 5, b"hashX")];
    let right = vec![record(0, 100, 5, b"hashX")];
    assert!(diff(&left, &right).is_empty());
    assert!(diff(&Vec::new(), &Vec::new()).is_empty());
}

#[test]
fn diff_groups_left_then_right_then_mismatches() {
    let left = vec![
        record(0, 10, 1, b"a"),
        record(0, 10, 2, b"b"),
        record(10, 20, 1, b"c"),
        record(-1, 20, -1, b"d"),
    ];
    let right = vec![
        record(0, 10, 2, b"B"),
        record(0, 10, 3, b"e"),
        record(10, 20, 1, b"c"),
    ];
    let entries = diff(&left, &right);
    assert_eq!(
        keys(&entries),
        vec![(0, 10, 1), (u32::MAX, 20, u64::MAX), (0, 10, 3), (0, 10, 2)]
    );
    assert!(matches!(entries[0].diff, SliceDiff::OnlyInLeft));
    assert!(matches!(entries[1].diff, SliceDiff::OnlyInLeft));
    assert!(matches!(entries[2].diff, SliceDiff::OnlyInRight));
    assert!(matches!(entries[3].diff, SliceDiff::HashMismatch { .. }));
}

#[test]
fn diff_sides_mirror_when_the_captures_are_exchanged() {
    let a = vec![record(0, 10, 1, b"a"), record(0, 10, 2, b"b"), record(5, 6, 7, b"x")];
    let b = vec![record(0, 10, 2, b"B"), record(0, 10, 3, b"e"), record(9, 9, 9, b"y")];
    let forward = diff(&a, &b);
    let backward = diff(&b, &a);
    let only = |entries: &[DiffEntry], left: bool| -> Vec<(u32, u32, u64)> {
        entries
            .iter()
            .filter(|e| match e.diff {
                SliceDiff::OnlyInLeft => left,
                SliceDiff::OnlyInRight => !left,
                _ => false,
            })
            .map(|e| (e.arc_start, e.arc_end, e.slice_index))
            .collect()
    };
    assert_eq!(only(&forward, true), only(&backward, false));
    assert_eq!(only(&forward, false), only(&backward, true));
    assert_eq!(only(&forward, true), vec![(0, 10, 1), (5, 6, 7)]);
    assert_eq!(only(&forward, false), vec![(0, 10, 3), (9, 9, 9)]);
}

#[test]
fn diff_counts_the_last_record_of_a_repeated_key() {
    let left = vec![record(0, 10, 1, b"old"), record(0, 10, 1, b"new")];
    let right = vec![record(0, 10, 1, b"new")];
    assert!(diff(&left, &right).is_empty());
    let right = vec![record(0, 10, 1, b"old")];
    let entries = diff(&left, &right);
    assert_eq!(entries.len(), 1);
    match &entries[0].diff {
        SliceDiff::HashMismatch { left, right } => {
            assert_eq!(left.as_slice(), b"new");
            assert_eq!(right.as_slice(), b"old");
        }
        other => panic!("unexpected difference: {:?}", other),
    }
    let entries = diff(&left, &Vec::new());
    assert_eq!(keys(&entries), vec![(0, 10, 1)]);
}

#[test]
fn rows_show_ranges_and_digests() {
    let entry = DiffEntry {
        arc_start: 0,
        arc_end: 4294967295,
        slice_index: 5,
        diff: SliceDiff::HashMismatch { left: vec![1, 2, 3], right: vec![4, 5, 6, 7] },
    };
    let row = entry.to_row();
    assert_eq!(row.dht_arc, "0..4294967295");
    assert_eq!(row.slice_index, 5);
    assert_eq!(row.diff, "Different hashes: our hash = AQID, their hash = BAUGBw==");
    assert_eq!(SliceDiff::OnlyInLeft.describe(), "Only in our file");
    assert_eq!(SliceDiff::OnlyInRight.describe(), "Only in their file");
    assert!(entry.diff.is_printable());
}

#[test]
fn compare_files_gives_a_table_or_nothing() {
    let ours = "│ Arc(0, 100) │ 5 │ AQID │\n│ Arc(0, 100) │ 6 │ AQID │\n";
    let theirs = "│ Arc(0, 100) │ 5 │ BAUG │\n│ Arc(0, 100) │ 7 │ AQID │\n";
    match compare_slice_hash_files(ours.as_bytes(), theirs.as_bytes()).unwrap() {
        CompareOutput::Table(rows) => {
            let shown: Vec<(String, u64, String)> =
                rows.into_iter().map(|r| (r.dht_arc, r.slice_index, r.diff)).collect();
            assert_eq!(
                shown,
                vec![
                    ("0..100".to_string(), 6, "Only in our file".to_string()),
                    ("0..100".to_string(), 7, "Only in their file".to_string()),
                    (
                        "0..100".to_string(),
                        5,
                        "Different hashes: our hash = AQID, their hash = BAUG".to_string()
                    ),
                ]
            );
        }
        CompareOutput::NoDifferences => panic!("differences expected"),
    }
    assert!(matches!(
        compare_slice_hash_files(ours.as_bytes(), ours.as_bytes()).unwrap(),
        CompareOutput::NoDifferences
    ));
    assert_eq!(
        hc_ops::compare::NO_DIFFERENCES_MESSAGE,
        "No differences found between the two files."
    );
}

#[test]
fn compare_command_runs_the_comparison() {
    let args = CompareArgs {
        command: CompareCommands::SliceHashes {
            our_file: PathBuf::from("ours.txt"),
            their_file: PathBuf::from("theirs.txt"),
        },
    };
    let ours = "│ Arc(0, 100) │ 5 │ AQID │\n";
    let theirs = "│ Arc(0, 100) │ 5 │ BAUG │\n";
    match handle_compare_command(&args, ours.as_bytes(), theirs.as_bytes()).unwrap() {
        CompareOutput::Table(rows) => assert_eq!(rows.len(), 1),
        CompareOutput::NoDifferences => panic!("differences expected"),
    }
    assert!(matches!(
        handle_compare_command(&args, b"no data", b"here").unwrap(),
        CompareOutput::NoDifferences
    ));
}

#[test]
fn printed_rows_read_back_as_their_records() {
    let records = vec![
        record(0, 100, 5, &[1, 2, 3]),
        record(-1, i32::MIN, -1, &[255; 32]),
        record(7, 8, i64::MAX, &[]),
        record(7, 8, 9, &[0]),
    ];
    let mut dump = String::from("╭─────┬─────┬─────╮\n│ dht_arc │ slice_index │ hash │\n");
    for r in &records {
        let row = SliceHashTable::from(r);
        dump.push_str(&format!("│ {:<30} │ {:<22} │ {:<46} │\n", row.dht_arc, row.slice_index, row.hash));
    }
    let row = SliceHashTable::from(&records[1]);
    assert_eq!(row.dht_arc, "Arc(4294967295, 2147483648)");
    assert_eq!(row.slice_index, u64::MAX);
    assert_eq!(row.hash, "//////////////////////////////////////////8=");
    let read = parse_dump(dump.as_bytes());
    assert_eq!(read.len(), 3);
    assert_eq!(read[0], records[0]);
    assert_eq!(read[1], records[1]);
    assert_eq!(read[2], records[3]);
}

#[test]
fn a_printed_table_reads_back_as_its_records() {
    let records = vec![
        record(0, 100, 5, &[1, 2, 3]),
        record(-1, i32::MIN, -1, &[255; 32]),
        record(100, 4000, 12, &[0; 32]),
        record(7, 8, 9, &[0]),
    ];
    let mut builder = tabled::builder::Builder::default();
    builder.push_record(["dht_arc", "slice_index", "hash"]);
    for r in &records {
        let row = SliceHashTable::from(r);
        builder.push_record([row.dht_arc, row.slice_index.to_string(), row.hash]);
    }
    let mut table = builder.build();
    table.with(tabled::settings::Style::modern_rounded());
    let printed = format!("{}\n", table);
    assert!(printed.contains("│ Arc(0, 100)"));
    assert_eq!(parse_dump(printed.as_bytes()), records);
    let entries = diff(&parse_dump(printed.as_bytes()), &records);
    assert!(entries.is_empty());
}
