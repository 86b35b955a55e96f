//! URLs, as text.

use vstd::prelude::*;
use vstd::utf8::encode_utf8;
use crate::error::Error;

verus! {

#[verifier::external_type_specification]
#[verifier::external_body]
pub struct ExParseError(url::ParseError);

/// The serialization of the absolute URL that a text stands for, or `None` where it stands
/// for none: what `Url::parse` returns.
pub uninterp spec fn parsed_url(input: Seq<char>) -> Option<Seq<char>>;

/// The serialization of the URL that `input` stands for when it is read relative to the
/// URL `base`, or `None` where `base` is no URL or there is no such URL: what `Url::join`
/// returns.
pub uninterp spec fn joined_url(base: Seq<char>, input: Seq<char>) -> Option<Seq<char>>;

/// The digit, in upper case, that a percent sign is followed by for half a byte.
pub open spec fn percent_digit(n: int) -> char {
    if n < 10 {
        (48 + n) as char
    } else {
        (55 + n) as char
    }
}

/// A byte as it stands in a form: letters, digits and four signs are kept, a space becomes a
/// plus sign, and any other byte a percent sign and two digits.
pub open spec fn form_byte(b: u8) -> Seq<char> {
    let c = b as char;
    if 'a' <= c <= 'z' || 'A' <= c <= 'Z' || '0' <= c <= '9' || c == '*' || c == '-' || c == '.'
        || c == '_' {
        seq![c]
    } else if c == ' ' {
        seq!['+']
    } else {
        seq!['%', percent_digit(b as int / 16), percent_digit(b as int % 16)]
    }
}

/// Bytes as they stand in a form.
pub open spec fn form_bytes(bytes: Seq<u8>) -> Seq<char>
    decreases bytes.len(),
{
    if bytes.len() == 0 {
        Seq::empty()
    } else {
        form_bytes(bytes.drop_last()) + form_byte(bytes.last())
    }
}

/// A name and its value as they stand in a form.
pub open spec fn form_pair(pair: (Seq<char>, Seq<char>)) -> Seq<char> {
    form_bytes(encode_utf8(pair.0)) + seq!['='] + form_bytes(encode_utf8(pair.1))
}

/// The place of the first `c` of a text, or the length of a text that has none.
pub open spec fn first_place(text: Seq<char>, c: char) -> nat
    decreases text.len(),
{
    if text.len() == 0 || text[0] == c {
        0
    } else {
        1 + first_place(text.drop_first(), c)
    }
}

/// A URL that ends in a query, with pairs added to that query. A pair is set off from what
/// the query holds already.
pub open spec fn query_with_pairs(url: Seq<char>, pairs: Seq<(Seq<char>, Seq<char>)>) -> Seq<char>
    decreases pairs.len(),
{
    if pairs.len() == 0 {
        url
    } else {
        let before = query_with_pairs(url, pairs.drop_last());
        let is_empty = first_place(before, '?') + 1 == before.len();
        (if is_empty {
            before
        } else {
            before.push('&')
        }) + form_pair(pairs.last())
    }
}

/// The serialization of a URL with name and value pairs added to the end of its query. The
/// query starts at the first `?`, which is added where there is none, and ends before the
/// fragment, which starts at the first `#`.
pub open spec fn url_with_pairs(url: Seq<char>, pairs: Seq<(Seq<char>, Seq<char>)>) -> Seq<char> {
    let end = first_place(url, '#') as int;
    let head = url.take(end);
    let opened = if first_place(head, '?') < head.len() {
        head
    } else {
        head.push('?')
    };
    query_with_pairs(opened, pairs) + url.skip(end)
}

/// What a list of name and value pairs holds.
pub open spec fn pair_texts(pairs: Seq<(String, String)>) -> Seq<(Seq<char>, Seq<char>)> {
    pairs.map_values(|p: (String, String)| (p.0@, p.1@))
}

/// An upper bound on the bytes that pairs take in a query: three for each byte of a name or
/// a value, and two separators for each pair.
pub open spec fn pairs_room(pairs: Seq<(Seq<char>, Seq<char>)>) -> nat
    decreases pairs.len(),
{
    if pairs.len() == 0 {
        0
    } else {
        let last = pairs.last();
        pairs_room(pairs.drop_last()) + 3 * (encode_utf8(last.0).len()
            + encode_utf8(last.1).len()) + 2
    }
}

/// Whether a URL with pairs added to its query has a length that fits in 32 bits, as the
/// positions inside a URL have to.
pub open spec fn has_room(url: Seq<char>, pairs: Seq<(Seq<char>, Seq<char>)>) -> bool {
    encode_utf8(url).len() + pairs_room(pairs) < u32::MAX
}

/// Calls `Url::parse`. Whether it succeeds, and the serialization of what it returns, is
/// named [`parsed_url`]; which error it gives is left open.
#[verifier::external_body]
pub(crate) fn parse_url(input: &str) -> (r: Result<String, url::ParseError>)
    ensures
        r is Ok <==> parsed_url(input@) is Some,
        r matches Ok(text) ==> parsed_url(input@) == Some(text@),
{
    url::Url::parse(input).map(String::from)
}

/// Calls `Url::join` on the URL that `base` stands for. Whether both succeed, and the
/// serialization of what the call returns, is named [`joined_url`]; which error comes is
/// left open.
#[verifier::external_body]
pub(crate) fn join_url(base: &str, input: &str) -> (r: Result<String, url::ParseError>)
    ensures
        r is Ok <==> joined_url(base@, input@) is Some,
        r matches Ok(text) ==> joined_url(base@, input@) == Some(text@),
{
    url::Url::parse(base)?.join(input).map(String::from)
}

/// Calls `extend_pairs` of the `query_pairs_mut` of the URL that [`join_url`] gives the
/// serialization of: the pairs are encoded as a form and added to the query, before the
/// fragment. That cannot fail, so the whole succeeds where `Url::parse` and `Url::join` do;
/// which error comes otherwise is left open.
#[verifier::external_body]
pub(crate) fn join_url_with_pairs(
    base: &str,
    input: &str,
    pairs: &Vec<(String, String)>,
) -> (r: Result<String, url::ParseError>)
    requires
        joined_url(base@, input@) matches Some(url) ==> has_room(url, pair_texts(pairs@)),
    ensures
        r is Ok <==> joined_url(base@, input@) is Some,
        r matches Ok(text) ==> text@ == url_with_pairs(
            joined_url(base@, input@)->Some_0,
            pair_texts(pairs@),
        ),
{
    let mut url = url::Url::parse(base)?.join(input)?;
    url.query_pairs_mut().extend_pairs(pairs);
    Ok(String::from(url))
}

proof fn lemma_pairs_room_grows(pairs: Seq<(Seq<char>, Seq<char>)>, n: int)
    requires
        0 <= n <= pairs.len(),
    ensures
        pairs_room(pairs.take(n)) <= pairs_room(pairs),
    decreases pairs.len() - n,
{
    if n == pairs.len() {
        assert(pairs.take(n) =~= pairs);
    } else {
        lemma_pairs_room_grows(pairs, n + 1);
        assert(pairs.take(n + 1).drop_last() =~= pairs.take(n));
    }
}

/// Whether a URL with pairs added to its query has a length that fits in 32 bits.
pub fn leaves_room(url: &str, pairs: &Vec<(String, String)>) -> (r: bool)
    ensures
        r == has_room(url@, pair_texts(pairs@)),
{
    let ghost texts = pair_texts(pairs@);
    let mut size: u128 = url.as_bytes().len() as u128;
    let mut i: usize = 0;
    proof {
        assert(texts.take(0) =~= Seq::<(Seq<char>, Seq<char>)>::empty());
    }
    while i < pairs.len() && size < 0xffff_ffff
        invariant
            texts == pair_texts(pairs@),
            0 <= i <= pairs.len(),
            size == encode_utf8(url@).len() + pairs_room(texts.take(i as int)),
        decreases pairs.len() - i,
    {
        let name: u128 = pairs[i].0.as_str().as_bytes().len() as u128;
        let value: u128 = pairs[i].1.as_str().as_bytes().len() as u128;
        proof {
            assert(texts.take(i + 1).drop_last() =~= texts.take(i as int));
        }
        size = size + 3 * (name + value) + 2;
        i = i + 1;
    }
    proof {
        lemma_pairs_room_grows(texts, i as int);
        if i == pairs.len() {
            assert(texts.take(i as int) =~= texts);
        }
    }
    size < 0xffff_ffff
}

/// The URL that `input` stands for when it is read relative to `base`.
pub fn resolve(base: &str, input: &str) -> (r: Result<String, Error>)
    ensures
        match joined_url(base@, input@) {
            Some(text) => r is Ok && r->Ok_0@ == text,
            None => r == (Err::<String, Error>(Error::InvalidUrl)),
        },
{
    match join_url(base, input) {
        Ok(text) => Ok(text),
        Err(_) => Err(Error::InvalidUrl),
    }
}

} // verus!
