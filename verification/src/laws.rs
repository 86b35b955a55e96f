//! What the operations of this crate are for, as laws.
//!
//! Each law speaks of calls: its `requires` says that an operation was called with some
//! arguments and gave some result, and its `ensures` what that result has to do with the
//! arguments, with the bytes that a cipher was handed, or with the result of another call.
//! It holds of all arguments.

use vstd::prelude::*;
use vstd::utf8::encode_utf8;
use crate::codec;
use crate::crypto::CryptoManager;

pub mod encoding;
pub mod entry;
pub mod journal;
pub mod query;
pub mod request;
pub mod service;
pub mod user_info;

verus! {

/// Whether a sequence begins with `head`, ends with `tail`, and holds nothing else.
pub open spec fn made_of<A>(whole: Seq<A>, head: Seq<A>, tail: Seq<A>) -> bool {
    &&& whole.len() == head.len() + tail.len()
    &&& whole.take(head.len() as int) == head
    &&& whole.skip(head.len() as int) == tail
}

/// The bytes of an optional text; an absent one has none.
pub open spec fn bytes_of(text: Option<&str>) -> Seq<u8> {
    match text {
        Some(t) => encode_utf8(t@),
        None => Seq::empty(),
    }
}

/// Whether a text spells a byte string in hexadecimal, two digits of either case for each
/// byte, the high half first.
pub open spec fn spells(text: Seq<char>, bytes: Seq<u8>) -> bool {
    &&& text.len() == 2 * bytes.len()
    &&& forall|i: int|
        #![trigger bytes[i]]
        0 <= i < bytes.len() ==> {
            &&& codec::hex_value(text[2 * i]) is Some
            &&& codec::hex_value(text[2 * i + 1]) is Some
            &&& bytes[i] == 16 * codec::hex_value(text[2 * i])->Some_0 + codec::hex_value(
                text[2 * i + 1],
            )->Some_0
        }
}

/// Whether `manager` may give one tag to two byte strings that differ.
pub open spec fn has_collision<C: CryptoManager>(manager: &C) -> bool {
    exists|a: &[u8], b: &[u8], s: Vec<u8>, t: Vec<u8>|
        a@ != b@ && s@ == t@ && #[trigger] call_ensures(C::hmac, (manager, a), Ok(s))
            && #[trigger] call_ensures(C::hmac, (manager, b), Ok(t))
}

/// What is made of a head and a tail is the one with the other behind it.
pub proof fn lemma_made_of<A>(whole: Seq<A>, head: Seq<A>, tail: Seq<A>)
    ensures
        made_of(whole, head, tail) <==> whole == head + tail,
{
    assert((head + tail).take(head.len() as int) =~= head);
    assert((head + tail).skip(head.len() as int) =~= tail);
    if made_of(whole, head, tail) {
        assert(whole =~= whole.take(head.len() as int) + whole.skip(head.len() as int));
    }
}

/// Two parts that differ, in a place of the same length or beside the same other part, make
/// wholes that differ.
pub proof fn lemma_parts_differ<A>(a: Seq<A>, b: Seq<A>, c: Seq<A>, d: Seq<A>)
    requires
        a.len() == c.len() || b == d || a == c,
        a != c || b != d,
    ensures
        a + b != c + d,
{
    if a + b == c + d {
        assert((a + b).len() == (c + d).len());
        assert(a.len() == c.len());
        assert(a =~= (a + b).take(a.len() as int));
        assert(c =~= (c + d).take(a.len() as int));
        assert(b =~= (a + b).skip(a.len() as int));
        assert(d =~= (c + d).skip(a.len() as int));
    }
}

/// A text spells a byte string exactly where it is hexadecimal and stands for it.
pub proof fn lemma_spells(text: Seq<char>, bytes: Seq<u8>)
    ensures
        spells(text, bytes) <==> codec::is_hex(text) && codec::hex_bytes(text) == bytes,
{
    if spells(text, bytes) {
        assert forall|i: int| 0 <= i < text.len() implies codec::hex_value(
            #[trigger] text[i],
        ) is Some by {
            let k = i / 2;
            assert(bytes[k] == 16 * codec::hex_value(text[2 * k])->Some_0 + codec::hex_value(
                text[2 * k + 1],
            )->Some_0);
            assert(i == 2 * k || i == 2 * k + 1);
        }
        assert(codec::hex_bytes(text) =~= bytes);
    }
    if codec::is_hex(text) && codec::hex_bytes(text) == bytes {
        assert forall|i: int| #![trigger bytes[i]] 0 <= i < bytes.len() implies {
            &&& codec::hex_value(text[2 * i]) is Some
            &&& codec::hex_value(text[2 * i + 1]) is Some
            &&& bytes[i] == 16 * codec::hex_value(text[2 * i])->Some_0 + codec::hex_value(
                text[2 * i + 1],
            )->Some_0
        } by {
            assert(codec::hex_value(text[2 * i]) is Some);
            assert(codec::hex_value(text[2 * i + 1]) is Some);
        }
    }
}

} // verus!
