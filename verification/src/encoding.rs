//! Text encodings of bytes and numbers: base64 through the `base64` crate,
//! decimal and hexadecimal digits by hand.

use base64::Engine;
use vstd::prelude::*;

verus! {

/// The bytes that a base64 text in the standard alphabet, with padding,
/// stands for; `None` where the text is not such an encoding.
pub uninterp spec fn base64_standard_decoded(text: Seq<u8>) -> Option<Seq<u8>>;

/// The base64 text of the given bytes in the standard alphabet, with padding.
pub uninterp spec fn base64_standard_encoded(bytes: Seq<u8>) -> Seq<char>;

/// The bytes that a base64 text in the URL-safe alphabet, without padding,
/// stands for; `None` where the text is not such an encoding.
pub uninterp spec fn base64_url_no_pad_decoded(text: Seq<char>) -> Option<Seq<u8>>;

/// Whether the base64 encoding of `len` bytes, padding included, has a length
/// that fits in `usize`.
pub open spec fn base64_len_fits(len: nat) -> bool {
    len / 3 * 4 + 4 <= usize::MAX
}

/// Calls `Engine::decode` of the `base64` crate on its `STANDARD` engine.
/// Trusted: the result is the decoding that the crate defines for the text,
/// and `None` exactly where the crate reports a decode error.
#[verifier::external_body]
pub(crate) fn decode_standard(text: &[u8]) -> (bytes: Option<Vec<u8>>)
    ensures
        bytes is Some <==> base64_standard_decoded(text@) is Some,
        bytes is Some ==> bytes.unwrap()@ == base64_standard_decoded(text@).unwrap(),
{
    match base64::engine::general_purpose::STANDARD.decode(text) {
        Ok(bytes) => Some(bytes),
        Err(_) => None,
    }
}

/// Calls `Engine::encode` of the `base64` crate on its `STANDARD` engine.
/// Trusted: the result is the encoding that the crate defines for the bytes.
/// The crate panics where the encoded length overflows `usize`.
#[verifier::external_body]
pub(crate) fn encode_standard(bytes: &[u8]) -> (text: String)
    requires
        base64_len_fits(bytes@.len()),
    ensures
        text@ == base64_standard_encoded(bytes@),
{
    base64::engine::general_purpose::STANDARD.encode(bytes)
}

/// Calls `Engine::decode` of the `base64` crate on its `URL_SAFE_NO_PAD`
/// engine. Trusted: the result is the decoding that the crate defines for
/// the text, and an error, given as the crate words it, exactly where the
/// crate reports a decode error.
#[verifier::external_body]
pub(crate) fn decode_url_no_pad(text: &str) -> (bytes: Result<Vec<u8>, String>)
    ensures
        bytes is Ok <==> base64_url_no_pad_decoded(text@) is Some,
        bytes matches Ok(decoded) ==> decoded@ == base64_url_no_pad_decoded(text@).unwrap(),
{
    match base64::engine::general_purpose::URL_SAFE_NO_PAD.decode(text) {
        Ok(bytes) => Ok(bytes),
        Err(e) => Err(e.to_string()),
    }
}

/// The character of a decimal digit.
pub open spec fn digit_char(digit: nat) -> char {
    if digit == 0 {
        '0'
    } else if digit == 1 {
        '1'
    } else if digit == 2 {
        '2'
    } else if digit == 3 {
        '3'
    } else if digit == 4 {
        '4'
    } else if digit == 5 {
        '5'
    } else if digit == 6 {
        '6'
    } else if digit == 7 {
        '7'
    } else if digit == 8 {
        '8'
    } else {
        '9'
    }
}

/// The decimal numeral of a number, without leading zeros.
pub open spec fn decimal_text(n: nat) -> Seq<char>
    decreases n,
{
    if n < 10 {
        seq![digit_char(n)]
    } else {
        decimal_text(n / 10).push(digit_char(n % 10))
    }
}

/// The one-character text of a decimal digit.
fn digit_str(digit: u64) -> (text: &'static str)
    requires
        digit < 10,
    ensures
        text@ == seq![digit_char(digit as nat)],
{
    proof {
        reveal_strlit("0");
        reveal_strlit("1");
        reveal_strlit("2");
        reveal_strlit("3");
        reveal_strlit("4");
        reveal_strlit("5");
        reveal_strlit("6");
        reveal_strlit("7");
        reveal_strlit("8");
        reveal_strlit("9");
    }
    let text = if digit == 0 {
        "0"
    } else if digit == 1 {
        "1"
    } else if digit == 2 {
        "2"
    } else if digit == 3 {
        "3"
    } else if digit == 4 {
        "4"
    } else if digit == 5 {
        "5"
    } else if digit == 6 {
        "6"
    } else if digit == 7 {
        "7"
    } else if digit == 8 {
        "8"
    } else {
        "9"
    };
    assert(text@ =~= seq![digit_char(digit as nat)]);
    text
}

/// Appends the decimal numeral of `n` to `out`.
pub fn append_decimal(out: &mut String, n: u64)
    ensures
        final(out)@ == old(out)@ + decimal_text(n as nat),
    decreases n,
{
    if n >= 10 {
        append_decimal(out, n / 10);
    }
    out.append(digit_str(n % 10));
    proof {
        if n >= 10 {
            assert(old(out)@ + decimal_text((n / 10) as nat) + seq![digit_char((n % 10) as nat)]
                =~= old(out)@ + decimal_text(n as nat));
        } else {
            assert(old(out)@ + seq![digit_char((n % 10) as nat)] =~= old(out)@ + decimal_text(
                n as nat,
            ));
        }
    }
}

/// The decimal numeral of `n`.
pub fn decimal_string(n: u64) -> (text: String)
    ensures
        text@ == decimal_text(n as nat),
{
    let mut text = String::new();
    append_decimal(&mut text, n);
    assert(Seq::<char>::empty() + decimal_text(n as nat) =~= decimal_text(n as nat));
    text
}

/// The decimal numeral of a whole number: a minus sign before the numeral of
/// its size where it is negative.
pub open spec fn signed_decimal_text(n: int) -> Seq<char> {
    if n < 0 {
        "-"@ + decimal_text((-n) as nat)
    } else {
        decimal_text(n as nat)
    }
}

/// Appends the decimal numeral of `n` to `out`.
pub fn append_signed_decimal(out: &mut String, n: i64)
    ensures
        final(out)@ == old(out)@ + signed_decimal_text(n as int),
{
    if n < 0 {
        out.append("-");
        let size: u64 = if n == i64::MIN {
            0x8000_0000_0000_0000
        } else {
            (-n) as u64
        };
        append_decimal(out, size);
        assert(old(out)@ + "-"@ + decimal_text(size as nat) =~= old(out)@ + signed_decimal_text(
            n as int,
        ));
    } else {
        append_decimal(out, n as u64);
    }
}

/// The numbers of `bytes` in decimal, with a comma and a space between
/// them.
pub open spec fn joined_bytes(bytes: Seq<u8>) -> Seq<char>
    decreases bytes.len(),
{
    if bytes.len() == 0 {
        Seq::empty()
    } else if bytes.len() == 1 {
        decimal_text(bytes[0] as nat)
    } else {
        joined_bytes(bytes.drop_last()) + ", "@ + decimal_text(bytes.last() as nat)
    }
}

/// Appends the numbers of `bytes` to `out`, with a comma and a space
/// between them.
pub fn append_joined_bytes(out: &mut String, bytes: &[u8])
    ensures
        final(out)@ == old(out)@ + joined_bytes(bytes@),
{
    let mut index: usize = 0;
    assert(bytes@.take(0) =~= Seq::empty());
    assert(out@ =~= old(out)@ + joined_bytes(bytes@.take(0)));
    while index < bytes.len()
        invariant
            index <= bytes.len(),
            out@ == old(out)@ + joined_bytes(bytes@.take(index as int)),
        decreases bytes.len() - index,
    {
        if index > 0 {
            out.append(", ");
        }
        append_decimal(out, bytes[index] as u64);
        proof {
            let so_far = bytes@.take(index + 1);
            assert(so_far.drop_last() =~= bytes@.take(index as int));
            assert(so_far.last() == bytes@[index as int]);
            assert(out@ =~= old(out)@ + joined_bytes(so_far));
        }
        index = index + 1;
    }
    assert(bytes@.take(index as int) =~= bytes@);
}

} // verus!
