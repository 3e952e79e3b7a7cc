//! Percent-encoding of header parameter values.

use vstd::prelude::*;

verus! {

/// The value of a hexadecimal digit, of either case.
pub open spec fn hex_value(digit: u8) -> Option<u8> {
    if 0x30 <= digit <= 0x39 {
        Some((digit - 0x30) as u8)
    } else if 0x41 <= digit <= 0x46 {
        Some((digit - 0x41 + 10) as u8)
    } else if 0x61 <= digit <= 0x66 {
        Some((digit - 0x61 + 10) as u8)
    } else {
        None
    }
}

/// Whether the bytes start with a percent sign and two hexadecimal digits.
pub open spec fn starts_escaped(bytes: Seq<u8>) -> bool {
    bytes.len() >= 3 && bytes[0] == 0x25 && hex_value(bytes[1]).is_some() && hex_value(
        bytes[2],
    ).is_some()
}

/// The bytes with every percent sign that is followed by two hexadecimal
/// digits replaced, together with the digits, by the byte that the digits
/// denote. Every other byte stands for itself.
pub open spec fn percent_decoded(bytes: Seq<u8>) -> Seq<u8>
    decreases bytes.len(),
{
    if bytes.len() == 0 {
        Seq::empty()
    } else if starts_escaped(bytes) {
        seq![(hex_value(bytes[1])->0 * 16 + hex_value(bytes[2])->0) as u8] + percent_decoded(
            bytes.skip(3),
        )
    } else {
        seq![bytes[0]] + percent_decoded(bytes.skip(1))
    }
}

/// Whether a byte is written as a percent sign and two digits in the value
/// of a header parameter: every byte but those of the visible ASCII
/// characters that may stand for themselves there.
pub open spec fn is_escaped(byte: u8) -> bool {
    ||| byte < 0x20
    ||| byte >= 0x7F
    ||| byte == 0x20  // space
    ||| byte == 0x22  // "
    ||| byte == 0x25  // %
    ||| byte == 0x27  // '
    ||| byte == 0x28  // (
    ||| byte == 0x29  // )
    ||| byte == 0x2A  // *
    ||| byte == 0x2C  // ,
    ||| byte == 0x2D  // -
    ||| byte == 0x2F  // /
    ||| byte == 0x3A  // :
    ||| byte == 0x3B  // ;
    ||| byte == 0x3C  // <
    ||| byte == 0x3E  // >
    ||| byte == 0x3F  // ?
    ||| byte == 0x5B  // [
    ||| byte == 0x5C  // \
    ||| byte == 0x5D  // ]
    ||| byte == 0x7B  // {
    ||| byte == 0x7D  // }
}

/// The upper-case hexadecimal digit for a value below sixteen.
pub open spec fn hex_digit(value: u8) -> char {
    if value < 10 {
        (0x30 + value) as u8 as char
    } else {
        (0x41 + value - 10) as u8 as char
    }
}

/// How one byte is written in the value of a header parameter.
pub open spec fn percent_encoded_byte(byte: u8) -> Seq<char> {
    if is_escaped(byte) {
        seq!['%', hex_digit(byte / 16), hex_digit(byte % 16)]
    } else {
        seq![byte as char]
    }
}

/// How bytes are written in the value of a header parameter.
pub open spec fn percent_encoded(bytes: Seq<u8>) -> Seq<char>
    decreases bytes.len(),
{
    if bytes.len() == 0 {
        Seq::empty()
    } else {
        percent_encoded_byte(bytes[0]) + percent_encoded(bytes.drop_first())
    }
}

/// The value of a hexadecimal digit, of either case.
pub fn hex(digit: u8) -> (value: Option<u8>)
    ensures
        value == hex_value(digit),
        value matches Some(v) ==> v < 16,
{
    if 0x30 <= digit && digit <= 0x39 {
        Some(digit - 0x30)
    } else if 0x41 <= digit && digit <= 0x46 {
        Some(digit - 0x41 + 10)
    } else if 0x61 <= digit && digit <= 0x66 {
        Some(digit - 0x61 + 10)
    } else {
        None
    }
}

/// Decodes percent-encoded bytes.
pub fn percent_decode(bytes: &[u8]) -> (decoded: Vec<u8>)
    ensures
        decoded@ == percent_decoded(bytes@),
{
    let mut decoded: Vec<u8> = Vec::new();
    let mut at: usize = 0;
    assert(bytes@.skip(0) =~= bytes@);
    assert(decoded@ + percent_decoded(bytes@) =~= percent_decoded(bytes@));
    while at < bytes.len()
        invariant
            at <= bytes.len(),
            decoded@ + percent_decoded(bytes@.skip(at as int)) == percent_decoded(bytes@),
        decreases bytes.len() - at,
    {
        let ghost rest = bytes@.skip(at as int);
        let mut step: usize = 1;
        let mut byte: u8 = bytes[at];
        if byte == 0x25 && bytes.len() - at >= 3 {
            match (hex(bytes[at + 1]), hex(bytes[at + 2])) {
                (Some(high), Some(low)) => {
                    byte = high * 16 + low;
                    step = 3;
                },
                _ => {},
            }
        }
        proof {
            assert(rest[0] == bytes@[at as int]);
            if rest.len() >= 3 {
                assert(rest[1] == bytes@[at + 1]);
                assert(rest[2] == bytes@[at + 2]);
            }
            assert(rest.skip(step as int) =~= bytes@.skip(at + step));
            assert(percent_decoded(rest) == seq![byte] + percent_decoded(rest.skip(step as int)));
            assert(decoded@.push(byte) + percent_decoded(rest.skip(step as int)) =~= decoded@ + (
            seq![byte] + percent_decoded(rest.skip(step as int))));
        }
        decoded.push(byte);
        at += step;
    }
    assert(bytes@.skip(at as int) =~= Seq::<u8>::empty());
    assert(decoded@ + Seq::<u8>::empty() =~= decoded@);
    decoded
}

/// The upper-case hexadecimal digit for a value below sixteen.
fn digit(value: u8) -> (digit: char)
    requires
        value < 16,
    ensures
        digit == hex_digit(value),
{
    if value < 10 {
        (0x30 + value) as char
    } else {
        (0x41 + value - 10) as char
    }
}

/// Whether a byte is written as a percent sign and two digits.
pub fn escapes(byte: u8) -> (escaped: bool)
    ensures
        escaped == is_escaped(byte),
{
    byte < 0x20 || byte >= 0x7F || byte == 0x20 || byte == 0x22 || byte == 0x25 || byte == 0x27
        || byte == 0x28 || byte == 0x29 || byte == 0x2A || byte == 0x2C || byte == 0x2D || byte
        == 0x2F || byte == 0x3A || byte == 0x3B || byte == 0x3C || byte == 0x3E || byte == 0x3F
        || byte == 0x5B || byte == 0x5C || byte == 0x5D || byte == 0x7B || byte == 0x7D
}

/// Writes bytes as the value of a header parameter, after what `out`
/// holds already.
pub fn percent_encode(bytes: &[u8], out: &mut Vec<char>)
    ensures
        final(out)@ == old(out)@ + percent_encoded(bytes@),
{
    let mut at: usize = 0;
    assert(bytes@.skip(0) =~= bytes@);
    while at < bytes.len()
        invariant
            at <= bytes.len(),
            out@ + percent_encoded(bytes@.skip(at as int)) == old(out)@ + percent_encoded(bytes@),
        decreases bytes.len() - at,
    {
        let ghost rest = bytes@.skip(at as int);
        let ghost before = out@;
        let byte = bytes[at];
        if escapes(byte) {
            out.push('%');
            out.push(digit(byte / 16));
            out.push(digit(byte % 16));
        } else {
            out.push(byte as char);
        }
        proof {
            assert(rest[0] == byte);
            assert(rest.drop_first() =~= bytes@.skip(at + 1));
            assert(out@ =~= before + percent_encoded_byte(byte));
            assert(out@ + percent_encoded(bytes@.skip(at + 1)) =~= before + (percent_encoded_byte(
                byte,
            ) + percent_encoded(rest.drop_first())));
        }
        at += 1;
    }
    assert(bytes@.skip(at as int) =~= Seq::<u8>::empty());
    assert(out@ + Seq::<char>::empty() =~= out@);
}

} // verus!
