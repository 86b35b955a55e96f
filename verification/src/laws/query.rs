//! Laws of queries: what is added to the query of a URL can be read back from it, and the rest
//! of the URL stays.

use vstd::prelude::*;
use vstd::utf8::encode_utf8;
use crate::codec;
use crate::web_address;

verus! {

/// The bytes that the text of a form stands for: a plus sign for a space, a percent sign and two
/// hexadecimal digits for the byte that they spell, and any other character for itself.
pub open spec fn form_value(text: Seq<char>) -> Seq<u8>
    decreases text.len(),
{
    if text.len() == 0 {
        Seq::empty()
    } else if text[0] == '%' && text.len() >= 3 {
        seq![
            (16 * codec::hex_value(text[1])->Some_0 + codec::hex_value(text[2])->Some_0) as u8,
        ] + form_value(text.skip(3))
    } else if text[0] == '+' {
        seq![32u8] + form_value(text.skip(1))
    } else {
        seq![text[0] as u8] + form_value(text.skip(1))
    }
}

/// Whether a character has no meaning of its own in a query or behind it.
pub open spec fn is_plain(c: char) -> bool {
    c != '&' && c != '=' && c != '#' && c != '?' && c != ' ' && c as int <= 126
}

proof fn lemma_form_front(bytes: Seq<u8>)
    requires
        bytes.len() > 0,
    ensures
        web_address::form_bytes(bytes) == web_address::form_byte(bytes[0])
            + web_address::form_bytes(bytes.drop_first()),
    decreases bytes.len(),
{
    let rest = bytes.drop_first();
    if bytes.len() == 1 {
        assert(bytes.drop_last() =~= Seq::empty());
        assert(rest =~= Seq::empty());
        assert(web_address::form_bytes(Seq::<u8>::empty()) =~= Seq::empty());
        assert(web_address::form_bytes(bytes) =~= web_address::form_byte(bytes[0])
            + web_address::form_bytes(rest));
    } else {
        lemma_form_front(bytes.drop_last());
        assert(bytes.drop_last().drop_first() =~= rest.drop_last());
        assert(bytes.last() == rest.last());
        assert(web_address::form_bytes(bytes) =~= web_address::form_byte(bytes[0])
            + web_address::form_bytes(rest));
    }
}

proof fn lemma_form_byte(b: u8, rest: Seq<char>)
    ensures
        form_value(web_address::form_byte(b) + rest) == seq![b] + form_value(rest),
        forall|i: int|
            0 <= i < web_address::form_byte(b).len() ==> is_plain(
                #[trigger] web_address::form_byte(b)[i],
            ),
{
    let text = web_address::form_byte(b) + rest;
    assert(0 <= b as int / 16 < 16 && 0 <= b as int % 16 < 16);
    if web_address::form_byte(b).len() == 3 {
        assert(codec::hex_value(text[1]) == Some(b as int / 16));
        assert(codec::hex_value(text[2]) == Some(b as int % 16));
        assert(text.skip(3) =~= rest);
    } else {
        assert(text.skip(1) =~= rest);
    }
}

/// The text of a form stands for the bytes that it was made of, so bytes that differ have texts
/// that differ; and it holds no sign that would end it, or part it from another.
pub proof fn law_form_bytes(bytes: Seq<u8>)
    ensures
        form_value(web_address::form_bytes(bytes)) == bytes,
        forall|i: int|
            0 <= i < web_address::form_bytes(bytes).len() ==> is_plain(
                #[trigger] web_address::form_bytes(bytes)[i],
            ),
    decreases bytes.len(),
{
    let text = web_address::form_bytes(bytes);
    if bytes.len() == 0 {
        assert(text =~= Seq::empty());
        assert(form_value(text) =~= bytes);
    } else {
        let rest = bytes.drop_first();
        let first = web_address::form_byte(bytes[0]);
        lemma_form_front(bytes);
        law_form_bytes(rest);
        lemma_form_byte(bytes[0], web_address::form_bytes(rest));
        assert(bytes =~= seq![bytes[0]] + rest);
        assert forall|i: int| 0 <= i < text.len() implies is_plain(#[trigger] text[i]) by {
            if i < first.len() {
                assert(text[i] == first[i]);
            } else {
                assert(text[i] == web_address::form_bytes(rest)[i - first.len()]);
            }
        }
    }
}

/// A pair in a form is its name, an equals sign, and its value, each to be read back whole.
pub proof fn law_form_pair(pair: (Seq<char>, Seq<char>))
    ensures
        exists|name: Seq<char>, value: Seq<char>|
            #![trigger form_value(name), form_value(value)]
            web_address::form_pair(pair) == name + seq!['='] + value && form_value(name)
                == encode_utf8(pair.0) && form_value(value) == encode_utf8(pair.1)
                && !name.contains('='),
{
    let name = web_address::form_bytes(encode_utf8(pair.0));
    let value = web_address::form_bytes(encode_utf8(pair.1));
    law_form_bytes(encode_utf8(pair.0));
    law_form_bytes(encode_utf8(pair.1));
    if name.contains('=') {
        let i = choose|i: int| 0 <= i < name.len() && name[i] == '=';
        assert(is_plain(name[i]));
    }
    assert(form_value(name) == encode_utf8(pair.0) && form_value(value) == encode_utf8(pair.1));
}

/// The place of the first of a character is where it stands and has not stood before.
pub proof fn law_first_place(text: Seq<char>, c: char)
    ensures
        web_address::first_place(text, c) <= text.len(),
        web_address::first_place(text, c) < text.len() ==> text[web_address::first_place(
            text,
            c,
        ) as int] == c,
        forall|i: int| 0 <= i < web_address::first_place(text, c) ==> #[trigger] text[i] != c,
    decreases text.len(),
{
    if text.len() > 0 && text[0] != c {
        let rest = text.drop_first();
        law_first_place(rest, c);
        let place = web_address::first_place(text, c);
        assert forall|i: int| 0 <= i < place implies #[trigger] text[i] != c by {
            if i > 0 {
                assert(rest[i - 1] == text[i]);
            }
        }
    }
}

proof fn lemma_query_starts(url: Seq<char>, pairs: Seq<(Seq<char>, Seq<char>)>)
    ensures
        web_address::query_with_pairs(url, pairs).len() >= url.len(),
        web_address::query_with_pairs(url, pairs).take(url.len() as int) == url,
    decreases pairs.len(),
{
    let whole = web_address::query_with_pairs(url, pairs);
    if pairs.len() == 0 {
        assert(whole.take(url.len() as int) =~= url);
    } else {
        lemma_query_starts(url, pairs.drop_last());
        let before = web_address::query_with_pairs(url, pairs.drop_last());
        assert(whole.take(url.len() as int) =~= before.take(url.len() as int));
    }
}

/// Whatever is added to the query of a URL, all that stands before its fragment stays at the
/// start, and the fragment at the end.
pub proof fn law_rest_of_the_url_stays(
    url: Seq<char>,
    pairs: Seq<(Seq<char>, Seq<char>)>,
    end: int,
)
    requires
        0 <= end <= url.len(),
        end < url.len() ==> url[end] == '#',
        forall|i: int| 0 <= i < end ==> #[trigger] url[i] != '#',
    ensures
        ({
            let r = web_address::url_with_pairs(url, pairs);
            &&& r.len() >= url.len()
            &&& r.take(end) == url.take(end)
            &&& r.skip(r.len() - (url.len() - end)) == url.skip(end)
        }),
{
    law_first_place(url, '#');
    let place = web_address::first_place(url, '#') as int;
    assert(place == end) by {
        if place < end {
            assert(url[place] != '#');
        }
        if end < place {
            assert(url[end] != '#');
        }
    }
    let head = url.take(end);
    let opened = if web_address::first_place(head, '?') < head.len() {
        head
    } else {
        head.push('?')
    };
    let query = web_address::query_with_pairs(opened, pairs);
    let r = web_address::url_with_pairs(url, pairs);
    lemma_query_starts(opened, pairs);
    assert(r.take(end) =~= query.take(opened.len() as int).take(end));
    assert(r.take(end) =~= head);
    assert(r.skip(r.len() - (url.len() - end)) =~= url.skip(end));
}

/// A pair that is added to a URL without query and fragment stands behind it and a question mark;
/// one that is added to a query stands behind it and an ampersand.
pub proof fn law_added_pairs(
    url: Seq<char>,
    pair: (Seq<char>, Seq<char>),
    other: (Seq<char>, Seq<char>),
)
    requires
        forall|i: int| 0 <= i < url.len() ==> #[trigger] url[i] != '#' && url[i] != '?',
    ensures
        web_address::url_with_pairs(url, seq![pair]) == url + seq!['?'] + web_address::form_pair(
            pair,
        ),
        web_address::url_with_pairs(url, seq![pair, other]) == url + seq!['?']
            + web_address::form_pair(pair) + seq!['&'] + web_address::form_pair(other),
{
    law_first_place(url, '#');
    law_first_place(url, '?');
    assert(web_address::first_place(url, '#') == url.len());
    assert(web_address::first_place(url, '?') == url.len());
    assert(url.take(url.len() as int) =~= url);
    let opened = url.push('?');
    law_first_place(opened, '?');
    let place = web_address::first_place(opened, '?') as int;
    assert(place == url.len()) by {
        if place < url.len() {
            assert(opened[place] == url[place]);
        }
        assert(opened[url.len() as int] == '?');
    }
    reveal_with_fuel(web_address::query_with_pairs, 3);
    assert(seq![pair].drop_last() =~= Seq::<(Seq<char>, Seq<char>)>::empty());
    assert(seq![pair, other].drop_last() =~= seq![pair]);
    let one = web_address::query_with_pairs(opened, seq![pair]);
    assert(one == opened + web_address::form_pair(pair));
    assert(web_address::url_with_pairs(url, seq![pair]) =~= url + seq!['?']
        + web_address::form_pair(pair));
    law_first_place(one, '?');
    let second = web_address::first_place(one, '?') as int;
    assert(second == url.len()) by {
        if second < url.len() {
            assert(one[second] == url[second]);
        }
        assert(one[url.len() as int] == '?');
    }
    assert(web_address::form_pair(pair).len() > 0);
    assert(web_address::url_with_pairs(url, seq![pair, other]) =~= url + seq!['?']
        + web_address::form_pair(pair) + seq!['&'] + web_address::form_pair(other));
}

} // verus!
