//! The text forms that byte strings travel in: Base64 and hexadecimal.

use vstd::prelude::*;
use vstd::utf8::encode_utf8;

verus! {

#[verifier::external_type_specification]
#[verifier::external_body]
pub struct ExDecodeError(base64::DecodeError);

#[verifier::external_type_specification]
#[verifier::external_body]
pub struct ExFromHexError(hex::FromHexError);

/// The Base64 symbol, in the standard alphabet, of a number below sixty-four.
pub open spec fn base64_symbol(n: int) -> char {
    if n < 26 {
        (65 + n) as char
    } else if n < 52 {
        (71 + n) as char
    } else if n < 62 {
        (n - 4) as char
    } else if n == 62 {
        '+'
    } else {
        '/'
    }
}

/// The number that a Base64 symbol stands for.
pub open spec fn base64_value(c: char) -> Option<int> {
    if 'A' <= c <= 'Z' {
        Some(c as int - 65)
    } else if 'a' <= c <= 'z' {
        Some(c as int - 71)
    } else if '0' <= c <= '9' {
        Some(c as int + 4)
    } else if c == '+' {
        Some(62)
    } else if c == '/' {
        Some(63)
    } else {
        None
    }
}

/// The byte at a place, or zero behind the last.
pub open spec fn byte_or_zero(bytes: Seq<u8>, i: int) -> int {
    if i < bytes.len() {
        bytes[i] as int
    } else {
        0
    }
}

/// The padded Base64 text of `bytes`: four characters for each three bytes, and for the one or
/// two that may be left. Each character stands for six bits, and `=` for six that no byte has
/// a part in.
pub open spec fn base64_text(bytes: Seq<u8>) -> Seq<char> {
    Seq::new(
        4 * ((bytes.len() + 2) / 3),
        |i: int|
            {
                let k = 3 * (i / 4);
                let a = byte_or_zero(bytes, k);
                let b = byte_or_zero(bytes, k + 1);
                let c = byte_or_zero(bytes, k + 2);
                if i % 4 == 0 {
                    base64_symbol(a / 4)
                } else if i % 4 == 1 {
                    base64_symbol(a % 4 * 16 + b / 16)
                } else if i % 4 == 2 {
                    if k + 1 < bytes.len() {
                        base64_symbol(b % 16 * 4 + c / 64)
                    } else {
                        '='
                    }
                } else {
                    if k + 2 < bytes.len() {
                        base64_symbol(c % 64)
                    } else {
                        '='
                    }
                }
            },
    )
}

/// The number of `=` that a text ends with, up to two.
pub open spec fn base64_padding(text: Seq<char>) -> int {
    if text.len() == 0 || text.last() != '=' {
        0
    } else if text.len() == 1 || text[text.len() - 2] != '=' {
        1
    } else {
        2
    }
}

/// Whether a text is Base64: symbols, of which the last four may lack one or two, and then as
/// many `=` as are lacking, or fewer. The bits of the last symbol that belong to no byte are
/// zero.
pub open spec fn is_base64_text(text: Seq<char>) -> bool {
    let n = text.len() - base64_padding(text);
    &&& forall|i: int| 0 <= i < n ==> base64_value(#[trigger] text[i]) is Some
    &&& n % 4 != 1
    &&& n % 4 == 0 ==> base64_padding(text) == 0
    &&& n % 4 == 2 ==> base64_value(text[n - 1])->Some_0 % 16 == 0
    &&& n % 4 == 3 ==> base64_padding(text) <= 1 && base64_value(text[n - 1])->Some_0 % 4 == 0
}

/// The bytes that a Base64 text stands for, three for each four symbols, or `None` where it is
/// no Base64.
pub open spec fn base64_bytes(text: Seq<char>) -> Option<Seq<u8>> {
    if is_base64_text(text) {
        Some(
            Seq::new(
                ((text.len() - base64_padding(text)) * 3 / 4) as nat,
                |i: int|
                    {
                        let k = 4 * (i / 3);
                        (if i % 3 == 0 {
                            base64_value(text[k])->Some_0 * 4 + base64_value(text[k + 1])->Some_0
                                / 16
                        } else if i % 3 == 1 {
                            base64_value(text[k + 1])->Some_0 % 16 * 16 + base64_value(
                                text[k + 2],
                            )->Some_0 / 4
                        } else {
                            base64_value(text[k + 2])->Some_0 % 4 * 64 + base64_value(
                                text[k + 3],
                            )->Some_0
                        }) as u8
                    },
            ),
        )
    } else {
        None
    }
}

proof fn lemma_base64_symbol(n: int)
    requires
        0 <= n < 64,
    ensures
        base64_value(base64_symbol(n)) == Some(n),
        base64_symbol(n) != '=',
{
}

/// The characters of the Base64 text of a byte string, four at a time.
pub proof fn lemma_base64_group(bytes: Seq<u8>, g: int)
    requires
        0 <= g,
        3 * g < bytes.len(),
    ensures
        4 * g + 3 < base64_text(bytes).len(),
        ({
            let text = base64_text(bytes);
            let a = bytes[3 * g] as int;
            let b = byte_or_zero(bytes, 3 * g + 1);
            let c = byte_or_zero(bytes, 3 * g + 2);
            &&& base64_value(text[4 * g]) == Some(a / 4)
            &&& base64_value(text[4 * g + 1]) == Some(a % 4 * 16 + b / 16)
            &&& if 3 * g + 1 < bytes.len() {
                base64_value(text[4 * g + 2]) == Some(b % 16 * 4 + c / 64)
            } else {
                text[4 * g + 2] == '='
            }
            &&& if 3 * g + 2 < bytes.len() {
                base64_value(text[4 * g + 3]) == Some(c % 64)
            } else {
                text[4 * g + 3] == '='
            }
        }),
{
    let a = bytes[3 * g] as int;
    let b = byte_or_zero(bytes, 3 * g + 1);
    let c = byte_or_zero(bytes, 3 * g + 2);
    assert((4 * g) / 4 == g && (4 * g) % 4 == 0);
    assert((4 * g + 1) / 4 == g && (4 * g + 1) % 4 == 1);
    assert((4 * g + 2) / 4 == g && (4 * g + 2) % 4 == 2);
    assert((4 * g + 3) / 4 == g && (4 * g + 3) % 4 == 3);
    lemma_base64_symbol(a / 4);
    lemma_base64_symbol(a % 4 * 16 + b / 16);
    lemma_base64_symbol(b % 16 * 4 + c / 64);
    lemma_base64_symbol(c % 64);
}

/// Three bytes come back from the four sextets that they are cut into.
proof fn lemma_sextets(a: int, b: int, c: int)
    requires
        0 <= a < 256,
        0 <= b < 256,
        0 <= c < 256,
    ensures
        a / 4 * 4 + (a % 4 * 16 + b / 16) / 16 == a,
        (a % 4 * 16 + b / 16) % 16 * 16 + (b % 16 * 4 + c / 64) / 4 == b,
        (b % 16 * 4 + c / 64) % 4 * 64 + c % 64 == c,
{
}

/// The Base64 text of a byte string is Base64, of as many bytes.
proof fn lemma_base64_shape(bytes: Seq<u8>)
    ensures
        is_base64_text(base64_text(bytes)),
        (base64_text(bytes).len() - base64_padding(base64_text(bytes))) * 3 / 4 == bytes.len(),
{
    let text = base64_text(bytes);
    let n = text.len() - base64_padding(text);
    if bytes.len() > 0 {
        let g = (bytes.len() - 1) / 3;
        lemma_base64_group(bytes, g);
        assert(text.len() == 4 * g + 4);
        assert(n == 4 * g + 1 + bytes.len() - 3 * g);
    }
    assert forall|i: int| 0 <= i < n implies base64_value(#[trigger] text[i]) is Some by {
        lemma_base64_group(bytes, i / 4);
        assert(i == 4 * (i / 4) + i % 4);
    }
}

proof fn lemma_base64_byte(bytes: Seq<u8>, i: int)
    requires
        0 <= i < bytes.len(),
        is_base64_text(base64_text(bytes)),
        (base64_text(bytes).len() - base64_padding(base64_text(bytes))) * 3 / 4 == bytes.len(),
    ensures
        base64_bytes(base64_text(bytes))->Some_0[i] == bytes[i],
{
    let g = i / 3;
    lemma_base64_group(bytes, g);
    lemma_sextets(
        bytes[3 * g] as int,
        byte_or_zero(bytes, 3 * g + 1),
        byte_or_zero(bytes, 3 * g + 2),
    );
    assert(i == 3 * g + i % 3);
}

/// The Base64 text of a byte string is Base64, and stands for that byte string.
pub proof fn lemma_base64_round_trip(bytes: Seq<u8>)
    ensures
        base64_bytes(base64_text(bytes)) == Some(bytes),
{
    lemma_base64_shape(bytes);
    let back = base64_bytes(base64_text(bytes))->Some_0;
    assert forall|i: int| 0 <= i < bytes.len() implies back[i] == bytes[i] by {
        lemma_base64_byte(bytes, i);
    }
    assert(back =~= bytes);
}

/// Whether a text is short enough to be decoded: the decoder sizes its buffer by
/// multiplying the number of input bytes by four.
pub open spec fn decodable_size(text: Seq<char>) -> bool {
    encode_utf8(text).len() <= usize::MAX / 4
}

/// Calls `base64::encode`: four characters of the standard alphabet for each three bytes,
/// padded. The size of the result cannot overflow, since a slice never has more than
/// `isize::MAX` bytes.
#[verifier::external_body]
pub(crate) fn base64_encode(bytes: &[u8]) -> (r: String)
    ensures
        r@ == base64_text(bytes@),
{
    base64::encode(bytes)
}

/// Calls `base64::decode`: it succeeds on Base64 of the standard alphabet, with all, part or
/// none of the padding, and on nothing else, and returns the bytes that the symbols stand for.
/// Which error it gives is left open.
#[verifier::external_body]
pub(crate) fn base64_decode(text: &str) -> (r: Result<Vec<u8>, base64::DecodeError>)
    requires
        decodable_size(text@),
    ensures
        r is Ok <==> base64_bytes(text@) is Some,
        r matches Ok(v) ==> base64_bytes(text@) == Some(v@),
{
    base64::decode(text)
}

/// Whether a text is short enough to be decoded.
pub fn has_decodable_size(text: &str) -> (r: bool)
    ensures
        r == decodable_size(text@),
{
    text.as_bytes().len() <= usize::MAX / 4
}

/// The Base64 texts of optional bytes.
pub open spec fn optional_base64_text(bytes: Option<Seq<u8>>) -> Option<Seq<char>> {
    match bytes {
        Some(b) => Some(base64_text(b)),
        None => None,
    }
}

/// Whether an optional text can be decoded: it is absent, or Base64.
pub open spec fn optional_is_base64(text: Option<Seq<char>>) -> bool {
    text matches Some(t) ==> base64_bytes(t) is Some
}

/// Whether an optional text is absent or short enough to be decoded.
pub open spec fn optional_decodable_size(text: Option<Seq<char>>) -> bool {
    text matches Some(t) ==> decodable_size(t)
}

/// The bytes that an optional Base64 text stands for.
pub open spec fn optional_base64_bytes(text: Option<Seq<char>>) -> Option<Seq<u8>> {
    match text {
        Some(t) => base64_bytes(t),
        None => None,
    }
}

/// Encodes optional bytes.
pub(crate) fn optional_base64_encode(bytes: &Option<Vec<u8>>) -> (r: Option<String>)
    ensures
        crate::text::optional(r) == optional_base64_text(crate::bytes::optional(*bytes)),
        optional_is_base64(crate::text::optional(r)),
        optional_base64_bytes(crate::text::optional(r)) == crate::bytes::optional(*bytes),
{
    match bytes {
        Some(b) => {
            proof {
                lemma_base64_round_trip(b@);
            }
            Some(base64_encode(b.as_slice()))
        },
        None => None,
    }
}

/// Decodes a text that is known to be Base64.
pub(crate) fn known_base64_decode(text: &str) -> (r: Vec<u8>)
    requires
        decodable_size(text@),
        base64_bytes(text@) is Some,
    ensures
        base64_bytes(text@) == Some(r@),
{
    base64_decode(text).unwrap()
}

/// Decodes an optional text that is known to be absent or Base64.
pub(crate) fn known_optional_base64_decode(text: &Option<String>) -> (r: Option<Vec<u8>>)
    requires
        optional_decodable_size(crate::text::optional(*text)),
        optional_is_base64(crate::text::optional(*text)),
    ensures
        crate::bytes::optional(r) == optional_base64_bytes(crate::text::optional(*text)),
{
    match text {
        Some(t) => Some(known_base64_decode(t.as_str())),
        None => None,
    }
}

/// Whether a text is short enough to be decoded, and Base64.
pub fn is_base64(text: &str) -> (r: bool)
    ensures
        r == (decodable_size(text@) && base64_bytes(text@) is Some),
{
    has_decodable_size(text) && base64_decode(text).is_ok()
}

/// Whether an optional text is absent, or short enough to be decoded and Base64.
pub fn is_optional_base64(text: &Option<String>) -> (r: bool)
    ensures
        r == (optional_decodable_size(crate::text::optional(*text)) && optional_is_base64(
            crate::text::optional(*text),
        )),
{
    match text {
        Some(t) => is_base64(t.as_str()),
        None => true,
    }
}

/// The lower-case hexadecimal digit of a number below sixteen.
pub open spec fn hex_digit(n: int) -> char {
    if n < 10 {
        (48 + n) as char
    } else {
        (87 + n) as char
    }
}

/// The number that a hexadecimal digit of either case stands for.
pub open spec fn hex_value(c: char) -> Option<int> {
    if '0' <= c <= '9' {
        Some(c as int - 48)
    } else if 'a' <= c <= 'f' {
        Some(c as int - 87)
    } else if 'A' <= c <= 'F' {
        Some(c as int - 55)
    } else {
        None
    }
}

/// Two lower-case digits for each byte, the high half first.
pub open spec fn hex_text(bytes: Seq<u8>) -> Seq<char> {
    Seq::new(
        2 * bytes.len(),
        |i: int|
            if i % 2 == 0 {
                hex_digit(bytes[i / 2] as int / 16)
            } else {
                hex_digit(bytes[i / 2] as int % 16)
            },
    )
}

/// Whether a text is an even number of hexadecimal digits.
pub open spec fn is_hex(text: Seq<char>) -> bool {
    &&& text.len() % 2 == 0
    &&& forall|i: int| 0 <= i < text.len() ==> hex_value(#[trigger] text[i]) is Some
}

/// The bytes that the digits of a text stand for, two digits for each.
pub open spec fn hex_bytes(text: Seq<char>) -> Seq<u8> {
    Seq::new(
        text.len() / 2,
        |i: int| (hex_value(text[2 * i])->Some_0 * 16 + hex_value(text[2 * i + 1])->Some_0) as u8,
    )
}

/// A letter of the ASCII alphabet in lower case; any other character as it is.
pub open spec fn lower_case(c: char) -> char {
    if 'A' <= c <= 'Z' {
        (c as int + 32) as char
    } else {
        c
    }
}

/// Whether two texts differ in the case of letters at most.
pub open spec fn same_but_for_case(a: Seq<char>, b: Seq<char>) -> bool {
    &&& a.len() == b.len()
    &&& forall|i: int| 0 <= i < a.len() ==> lower_case(#[trigger] a[i]) == lower_case(b[i])
}

/// Calls `hex::encode`: two lower-case digits for each byte.
#[verifier::external_body]
pub(crate) fn hex_encode(bytes: &[u8]) -> (r: String)
    ensures
        r@ == hex_text(bytes@),
{
    hex::encode(bytes)
}

/// Calls `hex::decode`: it succeeds on an even number of hexadecimal digits of either
/// case and on nothing else, and returns the bytes that they stand for. Which error it
/// gives is left open.
#[verifier::external_body]
pub(crate) fn hex_decode(text: &str) -> (r: Result<Vec<u8>, hex::FromHexError>)
    ensures
        r is Ok <==> is_hex(text@),
        r matches Ok(v) ==> v@ == hex_bytes(text@),
{
    hex::decode(text)
}

/// The hexadecimal text of a byte string is hexadecimal, and stands for that byte string.
pub proof fn lemma_hex_round_trip(bytes: Seq<u8>)
    ensures
        is_hex(hex_text(bytes)),
        hex_bytes(hex_text(bytes)) == bytes,
{
    let text = hex_text(bytes);
    assert forall|i: int| 0 <= i < text.len() implies hex_value(#[trigger] text[i]) is Some by {
        let b = bytes[i / 2];
        assert(0 <= b as int / 16 < 16 && 0 <= b as int % 16 < 16);
    }
    assert forall|i: int| 0 <= i < bytes.len() implies hex_bytes(text)[i] == bytes[i] by {
        let b = bytes[i];
        assert((2 * i) / 2 == i && (2 * i + 1) / 2 == i);
        assert((2 * i) % 2 == 0 && (2 * i + 1) % 2 == 1);
        assert(hex_value(text[2 * i]) == Some(b as int / 16));
        assert(hex_value(text[2 * i + 1]) == Some(b as int % 16));
    }
    assert(hex_bytes(text) =~= bytes);
}

/// Texts that differ in the case of letters at most are both hexadecimal or neither, and stand
/// for the same bytes.
pub proof fn lemma_hex_ignores_case(a: Seq<char>, b: Seq<char>)
    requires
        same_but_for_case(a, b),
    ensures
        is_hex(a) == is_hex(b),
        is_hex(a) ==> hex_bytes(a) == hex_bytes(b),
{
    assert forall|i: int| 0 <= i < a.len() implies hex_value(#[trigger] a[i]) == hex_value(
        b[i],
    ) by {
        assert(lower_case(a[i]) == lower_case(b[i]));
    }
    assert forall|i: int| 0 <= i < b.len() implies hex_value(#[trigger] b[i]) == hex_value(
        a[i],
    ) by {
        assert(hex_value(a[i]) == hex_value(b[i]));
    }
    assert(hex_bytes(a) =~= hex_bytes(b));
}

} // verus!
