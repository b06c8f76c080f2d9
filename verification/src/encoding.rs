use base64::engine::general_purpose::STANDARD;
use base64::Engine;
use vstd::prelude::*;

verus! {

/// The symbol of the standard Base64 alphabet (RFC 4648, Table 1) for a
/// six-bit value.
pub open spec fn base64_symbol(value: int) -> char {
    if value < 26 {
        (value + 65) as char
    } else if value < 52 {
        (value + 71) as char
    } else if value < 62 {
        (value - 4) as char
    } else if value == 62 {
        '+'
    } else {
        '/'
    }
}

/// The code point of `base64_symbol(value)`.
pub open spec fn base64_symbol_code(value: int) -> int {
    if value < 26 {
        value + 65
    } else if value < 52 {
        value + 71
    } else if value < 62 {
        value - 4
    } else if value == 62 {
        43
    } else {
        47
    }
}

/// Standard Base64 with `=` padding (RFC 4648, section 4): every group of
/// three bytes becomes four symbols, and a final group of one or two bytes is
/// padded to four symbols with `=`.
pub open spec fn base64_standard_encode(bytes: Seq<u8>) -> Seq<char>
    decreases bytes.len(),
{
    if bytes.len() == 0 {
        Seq::empty()
    } else if bytes.len() == 1 {
        let b0 = bytes[0] as int;
        seq![base64_symbol(b0 / 4), base64_symbol((b0 % 4) * 16), '=', '=']
    } else if bytes.len() == 2 {
        let b0 = bytes[0] as int;
        let b1 = bytes[1] as int;
        seq![
            base64_symbol(b0 / 4),
            base64_symbol((b0 % 4) * 16 + b1 / 16),
            base64_symbol((b1 % 16) * 4),
            '=',
        ]
    } else {
        let b0 = bytes[0] as int;
        let b1 = bytes[1] as int;
        let b2 = bytes[2] as int;
        seq![
            base64_symbol(b0 / 4),
            base64_symbol((b0 % 4) * 16 + b1 / 16),
            base64_symbol((b1 % 16) * 4 + b2 / 64),
            base64_symbol(b2 % 64),
        ] + base64_standard_encode(bytes.skip(3))
    }
}

/// What the `base64` crate's standard engine decodes from a text: the bytes
/// whose padded encoding the text is. The engine requires canonical padding
/// and zero trailing bits, so it refuses every other text (`None`).
pub open spec fn base64_standard_decode(text: Seq<char>) -> Option<Seq<u8>> {
    if exists|bytes: Seq<u8>| base64_standard_encode(bytes) == text {
        Some(choose|bytes: Seq<u8>| base64_standard_encode(bytes) == text)
    } else {
        None
    }
}

/// The length of the padded encoding of `n` bytes, as the `base64` crate
/// computes it before it allocates the output.
pub open spec fn base64_encoded_len(n: nat) -> nat {
    4 * (n / 3) + if n % 3 == 0 { 0nat } else { 4nat }
}

/// A symbol that can stand in a padded standard Base64 text.
pub open spec fn is_base64_text_char(c: char) -> bool {
    ||| 65 <= (c as u32) <= 90
    ||| 97 <= (c as u32) <= 122
    ||| 48 <= (c as u32) <= 57
    ||| c == '+'
    ||| c == '/'
    ||| c == '='
}

pub proof fn lemma_base64_symbol(value: int)
    requires
        0 <= value < 64,
    ensures
        base64_symbol(value) as u32 == base64_symbol_code(value),
        base64_symbol(value) != '=',
        is_base64_text_char(base64_symbol(value)),
{
}

/// The bytes held by an optional vector.
pub open spec fn bytes_view(bytes: Option<Vec<u8>>) -> Option<Seq<u8>> {
    match bytes {
        Some(v) => Some(v@),
        None => None,
    }
}

/// The padded encoding has four symbols for every started group of three bytes.
pub proof fn lemma_encode_len(bytes: Seq<u8>)
    ensures
        base64_standard_encode(bytes).len() == 4 * ((bytes.len() + 2) / 3),
    decreases bytes.len(),
{
    if bytes.len() >= 3 {
        lemma_encode_len(bytes.skip(3));
    }
}

/// Every symbol of an encoding is a Base64 symbol or the padding `=`.
pub proof fn lemma_encode_chars(bytes: Seq<u8>)
    ensures
        forall|i: int|
            0 <= i < base64_standard_encode(bytes).len() ==> is_base64_text_char(
                #[trigger] base64_standard_encode(bytes)[i],
            ),
    decreases bytes.len(),
{
    if bytes.len() > 0 {
        let b0 = bytes[0] as int;
        lemma_base64_symbol(b0 / 4);
        if bytes.len() == 1 {
            lemma_base64_symbol((b0 % 4) * 16);
        } else {
            let b1 = bytes[1] as int;
            lemma_base64_symbol((b0 % 4) * 16 + b1 / 16);
            if bytes.len() == 2 {
                lemma_base64_symbol((b1 % 16) * 4);
            } else {
                let b2 = bytes[2] as int;
                lemma_base64_symbol((b1 % 16) * 4 + b2 / 64);
                lemma_base64_symbol(b2 % 64);
                lemma_encode_chars(bytes.skip(3));
                let head = seq![
                    base64_symbol(b0 / 4),
                    base64_symbol((b0 % 4) * 16 + b1 / 16),
                    base64_symbol((b1 % 16) * 4 + b2 / 64),
                    base64_symbol(b2 % 64),
                ];
                let tail = base64_standard_encode(bytes.skip(3));
                assert forall|i: int|
                    0 <= i < base64_standard_encode(bytes).len() implies is_base64_text_char(
                    #[trigger] base64_standard_encode(bytes)[i],
                ) by {
                    if i >= 4 {
                        assert(base64_standard_encode(bytes)[i] == tail[i - 4]);
                    }
                }
            }
        }
    }
}

/// The first four symbols of a nonempty encoding, case by case.
proof fn lemma_encode_first_group(bytes: Seq<u8>)
    requires
        bytes.len() > 0,
    ensures
        base64_standard_encode(bytes).len() >= 4,
        base64_standard_encode(bytes)[0] == base64_symbol(bytes[0] as int / 4),
        bytes.len() == 1 ==> base64_standard_encode(bytes)[1] == base64_symbol(
            (bytes[0] as int % 4) * 16,
        ) && base64_standard_encode(bytes)[2] == '=' && base64_standard_encode(bytes)[3] == '=',
        bytes.len() >= 2 ==> base64_standard_encode(bytes)[1] == base64_symbol(
            (bytes[0] as int % 4) * 16 + bytes[1] as int / 16,
        ),
        bytes.len() == 2 ==> base64_standard_encode(bytes)[2] == base64_symbol(
            (bytes[1] as int % 16) * 4,
        ) && base64_standard_encode(bytes)[3] == '=',
        bytes.len() >= 3 ==> base64_standard_encode(bytes)[2] == base64_symbol(
            (bytes[1] as int % 16) * 4 + bytes[2] as int / 64,
        ) && base64_standard_encode(bytes)[3] == base64_symbol(bytes[2] as int % 64),
{
    lemma_encode_len(bytes);
}

/// Two six-bit values with the same symbol are equal.
proof fn lemma_symbol_injective(x: int, y: int)
    requires
        0 <= x < 64,
        0 <= y < 64,
        base64_symbol(x) == base64_symbol(y),
    ensures
        x == y,
{
    lemma_base64_symbol(x);
    lemma_base64_symbol(y);
}

/// The four six-bit values of a full group determine its three bytes.
proof fn lemma_group_determines_bytes(a0: u8, a1: u8, a2: u8, b0: u8, b1: u8, b2: u8)
    requires
        a0 / 4 == b0 / 4,
        (a0 % 4) * 16 + a1 / 16 == (b0 % 4) * 16 + b1 / 16,
        (a1 % 16) * 4 + a2 / 64 == (b1 % 16) * 4 + b2 / 64,
        a2 % 64 == b2 % 64,
    ensures
        a0 == b0 && a1 == b1 && a2 == b2,
{
    assert(a0 == b0 && a1 == b1 && a2 == b2) by (bit_vector)
        requires
            a0 / 4 == b0 / 4,
            (a0 % 4) * 16 + a1 / 16 == (b0 % 4) * 16 + b1 / 16,
            (a1 % 16) * 4 + a2 / 64 == (b1 % 16) * 4 + b2 / 64,
            a2 % 64 == b2 % 64,
    ;
}

/// Distinct byte sequences have distinct encodings.
pub proof fn lemma_encode_injective(a: Seq<u8>, b: Seq<u8>)
    requires
        base64_standard_encode(a) == base64_standard_encode(b),
    ensures
        a == b,
    decreases a.len(),
{
    let ea = base64_standard_encode(a);
    lemma_encode_len(a);
    lemma_encode_len(b);
    if a.len() == 0 {
        assert(b.len() == 0);
        assert(a =~= b);
    } else {
        let a0 = a[0] as int;
        let b0 = b[0] as int;
        assert(b.len() > 0);
        lemma_encode_first_group(a);
        lemma_encode_first_group(b);
        lemma_symbol_injective(a0 / 4, b0 / 4);
        if a.len() >= 4 {
            // both encodings go on past their first group
            assert(b.len() >= 4);
            let a1 = a[1] as int;
            let a2 = a[2] as int;
            let b1 = b[1] as int;
            let b2 = b[2] as int;
            lemma_symbol_injective((a0 % 4) * 16 + a1 / 16, (b0 % 4) * 16 + b1 / 16);
            lemma_symbol_injective((a1 % 16) * 4 + a2 / 64, (b1 % 16) * 4 + b2 / 64);
            lemma_symbol_injective(a2 % 64, b2 % 64);
            lemma_group_determines_bytes(a[0], a[1], a[2], b[0], b[1], b[2]);
            assert(base64_standard_encode(a.skip(3)) =~= ea.skip(4));
            assert(base64_standard_encode(b.skip(3)) =~= ea.skip(4));
            lemma_encode_injective(a.skip(3), b.skip(3));
            assert(a.len() == b.len());
            assert forall|i: int| 0 <= i < a.len() implies a[i] == b[i] by {
                if i >= 3 {
                    assert(a[i] == a.skip(3)[i - 3]);
                    assert(b[i] == b.skip(3)[i - 3]);
                }
            }
            assert(a =~= b);
        } else {
            assert(b.len() <= 3);
            lemma_base64_symbol((a0 % 4) * 16);
            lemma_base64_symbol(a0 / 4);
            if a.len() == 1 {
                assert(ea[2] == '=');
                if b.len() >= 2 {
                    let b1 = b[1] as int;
                    lemma_base64_symbol((b0 % 4) * 16 + b1 / 16);
                    if b.len() == 2 {
                        lemma_base64_symbol((b1 % 16) * 4);
                    } else {
                        let b2 = b[2] as int;
                        lemma_base64_symbol((b1 % 16) * 4 + b2 / 64);
                    }
                }
                assert(b.len() == 1);
                lemma_symbol_injective((a0 % 4) * 16, (b0 % 4) * 16);
                assert(a =~= b);
            } else {
                let a1 = a[1] as int;
                lemma_base64_symbol((a0 % 4) * 16 + a1 / 16);
                if a.len() == 2 {
                    lemma_base64_symbol((a1 % 16) * 4);
                    assert(ea[3] == '=');
                    if b.len() == 1 {
                        lemma_base64_symbol((b0 % 4) * 16);
                    } else if b.len() == 3 {
                        let b1 = b[1] as int;
                        let b2 = b[2] as int;
                        lemma_base64_symbol(b2 % 64);
                    }
                    assert(b.len() == 2);
                    let b1 = b[1] as int;
                    lemma_symbol_injective((a0 % 4) * 16 + a1 / 16, (b0 % 4) * 16 + b1 / 16);
                    lemma_symbol_injective((a1 % 16) * 4, (b1 % 16) * 4);
                    assert(a =~= b);
                } else {
                    let a2 = a[2] as int;
                    lemma_base64_symbol(a2 % 64);
                    lemma_base64_symbol((a1 % 16) * 4 + a2 / 64);
                    if b.len() == 1 {
                        lemma_base64_symbol((b0 % 4) * 16);
                    } else if b.len() == 2 {
                        let b1 = b[1] as int;
                        lemma_base64_symbol((b1 % 16) * 4);
                    }
                    assert(b.len() == 3);
                    let b1 = b[1] as int;
                    let b2 = b[2] as int;
                    lemma_symbol_injective((a0 % 4) * 16 + a1 / 16, (b0 % 4) * 16 + b1 / 16);
                    lemma_symbol_injective((a1 % 16) * 4 + a2 / 64, (b1 % 16) * 4 + b2 / 64);
                    lemma_symbol_injective(a2 % 64, b2 % 64);
                    assert(a =~= b);
                }
            }
        }
    }
}

/// Decoding the encoding of some bytes gives those bytes back.
pub proof fn lemma_decode_encode(bytes: Seq<u8>)
    ensures
        base64_standard_decode(base64_standard_encode(bytes)) == Some(bytes),
{
    let text = base64_standard_encode(bytes);
    let other = choose|b: Seq<u8>| base64_standard_encode(b) == text;
    lemma_encode_injective(other, bytes);
}

/// A text that decodes is the encoding of what it decodes to.
pub proof fn lemma_decode_is_encoding(text: Seq<char>)
    ensures
        base64_standard_decode(text) is Some ==> base64_standard_encode(
            base64_standard_decode(text)->0,
        ) == text,
{
}

/// Encodes bytes with the `base64` crate's standard engine
/// (`STANDARD.encode`): the text is the padded RFC 4648 encoding of the
/// bytes. The crate panics when the encoded length overflows `usize`; the
/// precondition rules that out.
#[verifier::external_body]
pub(crate) fn encode_base64(bytes: &[u8]) -> (text: String)
    requires
        base64_encoded_len(bytes@.len()) <= usize::MAX,
    ensures
        text@ == base64_standard_encode(bytes@),
{
    STANDARD.encode(bytes)
}

/// Decodes a text with the `base64` crate's standard engine
/// (`STANDARD.decode`), `None` where the crate reports an error: it accepts
/// exactly the padded encodings of byte sequences, and gives back those bytes.
#[verifier::external_body]
pub(crate) fn decode_base64(text: &str) -> (decoded: Option<Vec<u8>>)
    ensures
        bytes_view(decoded) == base64_standard_decode(text@),
{
    match STANDARD.decode(text) {
        Ok(v) => Some(v),
        Err(_) => None,
    }
}

} // verus!
