//! Laws of texts and byte strings: what is joined, copied, compared, counted and encoded.

use vstd::prelude::*;
use vstd::utf8::encode_utf8;
use crate::bytes;
use crate::codec;
use crate::crypto;
use crate::error::Error;
use crate::laws;
use crate::text;

verus! {

/// The number that a text of decimal digits reads as, the most significant digit first.
pub open spec fn number_of(digits: Seq<char>) -> int
    decreases digits.len(),
{
    if digits.len() == 0 {
        0
    } else {
        10 * number_of(digits.drop_last()) + (digits.last() as int - '0' as int)
    }
}

/// Whether a text is how a number is written: decimal digits that read as the number, at least
/// one, and no zero before the first that counts.
pub open spec fn is_number(digits: Seq<char>, n: int) -> bool {
    &&& digits.len() > 0
    &&& forall|i: int| 0 <= i < digits.len() ==> '0' <= #[trigger] digits[i] <= '9'
    &&& digits.len() > 1 ==> digits[0] != '0'
    &&& number_of(digits) == n
}

pub proof fn lemma_decimal_text(n: nat)
    ensures
        is_number(text::decimal_text(n), n as int),
    decreases n,
{
    let digits = text::decimal_text(n);
    if n < 10 {
        assert(digits.drop_last() =~= Seq::empty());
        assert(number_of(digits.drop_last()) == 0);
    } else {
        let rest = text::decimal_text(n / 10);
        lemma_decimal_text(n / 10);
        assert(digits.drop_last() =~= rest);
        assert(digits.last() as int - '0' as int == n % 10);
        assert forall|i: int| 0 <= i < digits.len() implies '0' <= #[trigger] digits[i] <= '9' by {
            if i < rest.len() {
                assert(digits[i] == rest[i]);
            }
        }
        assert(digits[0] == rest[0]);
        if rest.len() == 1 {
            assert(rest.drop_last() =~= Seq::empty());
            assert(number_of(rest.drop_last()) == 0);
            assert(n / 10 > 0);
        }
    }
}

/// A machine integer is written with at most twenty ASCII characters.
pub proof fn lemma_decimal_size(n: usize)
    ensures
        text::decimal_text(n as nat).len() <= 20,
        encode_utf8(text::decimal_text(n as nat)).len() <= 20,
{
    lemma_decimal_length(n as nat, 20);
    lemma_decimal_text(n as nat);
    assert(vstd::arithmetic::power::pow(10, 20) == 100_000_000_000_000_000_000) by {
        reveal_with_fuel(vstd::arithmetic::power::pow, 21);
    }
    let digits = text::decimal_text(n as nat);
    assert(vstd::utf8::is_ascii_chars(digits));
    vstd::utf8::is_ascii_chars_encode_utf8(digits);
}

proof fn lemma_decimal_length(n: nat, k: nat)
    requires
        1 <= k,
    ensures
        n < vstd::arithmetic::power::pow(10, k) ==> text::decimal_text(n).len() <= k,
    decreases k,
{
    reveal(vstd::arithmetic::power::pow);
    if n >= 10 && n < vstd::arithmetic::power::pow(10, k) {
        assert(vstd::arithmetic::power::pow(10, k) == 10 * vstd::arithmetic::power::pow(
            10,
            (k - 1) as nat,
        ));
        if k == 1 {
            assert(vstd::arithmetic::power::pow(10, 0) == 1);
        }
        lemma_decimal_length(n / 10, (k - 1) as nat);
    }
}

/// A number is written in decimal digits that read as that number.
pub proof fn law_decimal(n: usize, r: String)
    requires
        call_ensures(text::decimal, (n,), r),
    ensures
        is_number(r@, n as int),
{
    lemma_decimal_text(n as nat);
}

/// Joining puts the second behind the first, both whole; copying keeps everything.
pub proof fn law_joining(
    a: &str,
    b: &str,
    joined: String,
    c: &[u8],
    d: &[u8],
    joined_bytes: Vec<u8>,
    copy: Vec<u8>,
    e: &Option<String>,
    optional: Option<String>,
    f: &Option<Vec<u8>>,
    optional_bytes: Option<Vec<u8>>,
)
    requires
        call_ensures(text::joined, (a, b), joined),
        call_ensures(bytes::joined, (c, d), joined_bytes),
        call_ensures(bytes::copy, (c,), copy),
        call_ensures(text::copy_optional, (e,), optional),
        call_ensures(bytes::copy_optional, (f,), optional_bytes),
    ensures
        laws::made_of(joined@, a@, b@),
        laws::made_of(joined_bytes@, c@, d@),
        copy@ == c@,
        optional is Some <==> e is Some,
        e is Some ==> optional->Some_0@ == e->Some_0@,
        optional_bytes is Some <==> f is Some,
        f is Some ==> optional_bytes->Some_0@ == f->Some_0@,
{
    laws::lemma_made_of(joined@, a@, b@);
    laws::lemma_made_of(joined_bytes@, c@, d@);
    assert(text::optional(optional) == text::optional(*e));
    assert(bytes::optional(optional_bytes) == bytes::optional(*f));
}

/// An optional text or byte string is absent exactly where its model is, an empty one is not
/// absent, and what is there is kept whole.
pub proof fn law_optionals(t: Option<String>, s: Option<&str>, b: Option<Vec<u8>>)
    ensures
        text::optional(t) is Some <==> t is Some,
        t is Some ==> text::optional(t)->Some_0 == t->Some_0@,
        text::optional_ref(s) is Some <==> s is Some,
        s is Some ==> text::optional_ref(s)->Some_0 == s->Some_0@,
        bytes::optional(b) is Some <==> b is Some,
        b is Some ==> bytes::optional(b)->Some_0 == b->Some_0@,
{
}

/// Two byte strings, or two tags, are taken for the same exactly where they have the same length
/// and the same byte at each place.
pub proof fn law_comparing(a: &[u8], b: &[u8], equal: bool, checked: Result<(), Error>)
    requires
        call_ensures(bytes::equal, (a, b), equal),
        call_ensures(crypto::check_tag, (a, b), checked),
    ensures
        equal <==> a@.len() == b@.len() && forall|i: int|
            0 <= i < a@.len() ==> #[trigger] a@[i] == b@[i],
        checked is Ok <==> equal,
        !equal ==> checked == (Err::<(), Error>(Error::HmacMismatch)),
{
    if a@.len() == b@.len() && forall|i: int| 0 <= i < a@.len() ==> #[trigger] a@[i] == b@[i] {
        assert(a@ =~= b@);
    }
}

/// A sealed message is split behind its first thirty-two bytes, and nothing of it is lost.
pub proof fn law_unseal(message: &[u8], r: (&[u8], &[u8]))
    requires
        message@.len() >= 32,
        call_ensures(crypto::unseal, (message,), r),
    ensures
        r.0@.len() == 32,
        laws::made_of(message@, r.0@, r.1@),
{
    laws::lemma_made_of(message@, r.0@, r.1@);
    assert(message@ =~= r.0@ + r.1@);
}

/// The digits of hexadecimal text: ten digits, and six letters of either case.
pub proof fn law_hex_digits(c: char)
    ensures
        codec::hex_value(c) is Some <==> '0' <= c <= '9' || 'a' <= c <= 'f' || 'A' <= c <= 'F',
        codec::hex_value(c) matches Some(v) ==> 0 <= v < 16,
        '0' <= c <= '9' ==> codec::hex_value(c) == Some(c as int - '0' as int),
        'a' <= c <= 'f' ==> codec::hex_value(c) == Some(10 + c as int - 'a' as int),
        'A' <= c <= 'F' ==> codec::hex_value(c) == Some(10 + c as int - 'A' as int),
{
}

/// The hexadecimal text of a byte string spells it, and byte strings that differ have texts that
/// differ.
pub proof fn law_hex_text(a: Seq<u8>, b: Seq<u8>)
    ensures
        laws::spells(codec::hex_text(a), a),
        a != b ==> codec::hex_text(a) != codec::hex_text(b),
{
    codec::lemma_hex_round_trip(a);
    codec::lemma_hex_round_trip(b);
    laws::lemma_spells(codec::hex_text(a), a);
}

/// The symbols of Base64, in their order: the capital letters, the small ones, the digits, plus
/// and slash.
pub proof fn law_base64_symbols(c: char)
    ensures
        'A' <= c <= 'Z' ==> codec::base64_value(c) == Some(c as int - 'A' as int),
        'a' <= c <= 'z' ==> codec::base64_value(c) == Some(26 + c as int - 'a' as int),
        '0' <= c <= '9' ==> codec::base64_value(c) == Some(52 + c as int - '0' as int),
        codec::base64_value('+') == Some(62int),
        codec::base64_value('/') == Some(63int),
        codec::base64_value(c) is Some ==> 0 <= codec::base64_value(c)->Some_0 < 64,
        codec::base64_value(c) is Some <==> 'A' <= c <= 'Z' || 'a' <= c <= 'z' || '0' <= c <= '9'
            || c == '+' || c == '/',
{
}

/// Three bytes are the same twenty-four bits as the four characters that they become; of one or
/// two bytes that are left, the missing bits are zero and the characters that have no part in
/// them are equals signs.
pub proof fn law_base64_groups(data: Seq<u8>, g: int)
    requires
        0 <= g,
        3 * g < data.len(),
    ensures
        codec::base64_text(data).len() == 4 * ((data.len() + 2) / 3),
        ({
            let text = codec::base64_text(data);
            let v = |i: int| codec::base64_value(text[4 * g + i])->Some_0;
            if 3 * g + 2 < data.len() {
                v(0) * 262144 + v(1) * 4096 + v(2) * 64 + v(3) == data[3 * g] * 65536 + data[3 * g
                    + 1] * 256 + data[3 * g + 2]
            } else if 3 * g + 1 < data.len() {
                v(0) * 262144 + v(1) * 4096 + v(2) * 64 == data[3 * g] * 65536 + data[3 * g + 1]
                    * 256 && text[4 * g + 3] == '='
            } else {
                v(0) * 262144 + v(1) * 4096 == data[3 * g] * 65536 && text[4 * g + 2] == '='
                    && text[4 * g + 3] == '='
            }
        }),
{
    codec::lemma_base64_group(data, g);
    let a = data[3 * g] as int;
    let b = codec::byte_or_zero(data, 3 * g + 1);
    let c = codec::byte_or_zero(data, 3 * g + 2);
    assert(a / 4 * 262144 + (a % 4 * 16 + b / 16) * 4096 + (b % 16 * 4 + c / 64) * 64 + c % 64 == a
        * 65536 + b * 256 + c);
}

/// Byte strings that differ have Base64 texts that differ.
pub proof fn law_base64_text_is_told_apart(a: Seq<u8>, b: Seq<u8>)
    ensures
        codec::base64_bytes(codec::base64_text(a)) == Some(a),
        a != b ==> codec::base64_text(a) != codec::base64_text(b),
{
    codec::lemma_base64_round_trip(a);
    codec::lemma_base64_round_trip(b);
}

/// A text is taken for Base64 exactly where it stands for bytes and four times its size fits in a
/// machine integer; an absent one always is.
pub proof fn law_is_base64(
    t: &str,
    fits: bool,
    r: bool,
    optional: &Option<String>,
    s: bool,
)
    requires
        call_ensures(codec::has_decodable_size, (t,), fits),
        call_ensures(codec::is_base64, (t,), r),
        call_ensures(codec::is_optional_base64, (optional,), s),
    ensures
        fits <==> 4 * encode_utf8(t@).len() <= usize::MAX,
        r <==> fits && codec::base64_bytes(t@) is Some,
        s <==> (optional matches Some(o) ==> 4 * encode_utf8(o@).len() <= usize::MAX
            && codec::base64_bytes(o@) is Some),
{
    assert(text::optional(*optional) is Some <==> optional is Some);
}

} // verus!
