//! Header fields as they cross the proxy: which names and values the HTTP
//! layer accepts, how names are brought to their normal form, and what of a
//! received header block is logged, forwarded and relayed. A field that the
//! HTTP layer refuses is dropped on its own; it never fails the message.

use crate::fields::Fields;
use http::header::{HeaderName, HeaderValue};
use vstd::prelude::*;

verus! {

/// The longest header name the HTTP layer accepts, in bytes.
pub const MAX_NAME_LEN: usize = 65535;

/// A character allowed in a header name: a letter, a digit, or one of
/// ``!#$%&'*+-.^_`|~``.
pub open spec fn is_token_char(c: char) -> bool {
    let n = c as u32;
    ||| 48 <= n <= 57
    ||| 65 <= n <= 90
    ||| 97 <= n <= 122
    ||| c == '!'
    ||| c == '#'
    ||| c == '$'
    ||| c == '%'
    ||| c == '&'
    ||| c == '\''
    ||| c == '*'
    ||| c == '+'
    ||| c == '-'
    ||| c == '.'
    ||| c == '^'
    ||| c == '_'
    ||| c == '`'
    ||| c == '|'
    ||| c == '~'
}

/// `c` with an upper-case ASCII letter turned into its lower-case form.
pub open spec fn lower_char(c: char) -> char {
    if 65 <= c as u32 <= 90 {
        ((c as u32 + 32) as u8) as char
    } else {
        c
    }
}

/// `name` with every upper-case ASCII letter turned into lower case.
pub open spec fn lowercase(name: Seq<char>) -> Seq<char> {
    name.map_values(|c: char| lower_char(c))
}

/// `name` is accepted as a header name: between 1 and 65535 characters, all
/// of them token characters.
pub open spec fn valid_name(name: Seq<char>) -> bool {
    &&& 1 <= name.len() <= MAX_NAME_LEN
    &&& forall|i: int| 0 <= i < name.len() ==> is_token_char(#[trigger] name[i])
}

/// The normal form of `name`, where it is accepted as a header name.
pub open spec fn normal_name(name: Seq<char>) -> Option<Seq<char>> {
    if valid_name(name) {
        Some(lowercase(name))
    } else {
        None
    }
}

/// A character allowed in a header value given as text: anything but the
/// control characters, of which only the tab is allowed.
pub open spec fn is_value_char(c: char) -> bool {
    c == '\t' || (c as u32 >= 32 && c as u32 != 127)
}

/// `value` is accepted as a header value given as text.
pub open spec fn valid_value(value: Seq<char>) -> bool {
    forall|i: int| 0 <= i < value.len() ==> is_value_char(#[trigger] value[i])
}

/// A byte allowed in a header value given as bytes: the tab, and anything
/// from 32 up except 127.
pub open spec fn is_value_octet(b: u8) -> bool {
    b == 9 || (b >= 32 && b != 127)
}

/// `value` is accepted as a header value given as bytes.
pub open spec fn valid_octets(value: Seq<u8>) -> bool {
    forall|i: int| 0 <= i < value.len() ==> is_value_octet(#[trigger] value[i])
}

/// A byte of visible ASCII, or the tab.
pub open spec fn is_visible_octet(b: u8) -> bool {
    b == 9 || 32 <= b < 127
}

/// The text of a header value, where every byte of it is visible ASCII.
pub open spec fn visible_text(value: Seq<u8>) -> Option<Seq<char>> {
    if forall|i: int| 0 <= i < value.len() ==> is_visible_octet(#[trigger] value[i]) {
        Some(value.map_values(|b: u8| b as char))
    } else {
        None
    }
}

/// The text of a header value, or the empty text where it has none.
pub open spec fn text_or_empty(value: Seq<u8>) -> Seq<char> {
    match visible_text(value) {
        Some(text) => text,
        None => Seq::empty(),
    }
}

/// `http::HeaderName::from_bytes` on the UTF-8 bytes of `name`, then
/// `as_str` of the name it made. The call accepts a name of 1 to 65535 bytes
/// that are all token characters, and the name it makes is the input with
/// ASCII upper case turned into lower case.
#[verifier::external_body]
pub(crate) fn parse_name(name: &str) -> (normal: Option<String>)
    ensures
        normal.deep_view() == normal_name(name@),
{
    match HeaderName::from_bytes(name.as_bytes()) {
        Ok(parsed) => Some(parsed.as_str().to_string()),
        Err(_) => None,
    }
}

/// Whether `http::HeaderValue::from_str` accepts `value`. It refuses a value
/// that holds a byte below 32 other than the tab, or the byte 127; every
/// byte of a character beyond ASCII is above 127 and passes.
#[verifier::external_body]
pub(crate) fn accepts_text(value: &str) -> (ok: bool)
    ensures
        ok == valid_value(value@),
{
    HeaderValue::from_str(value).is_ok()
}

/// Whether `http::HeaderValue::from_bytes` accepts `value`: every byte is
/// the tab or at least 32, and none is 127.
#[verifier::external_body]
pub(crate) fn accepts_octets(value: &[u8]) -> (ok: bool)
    ensures
        ok == valid_octets(value@),
{
    HeaderValue::from_bytes(value).is_ok()
}

/// `http::HeaderValue::to_str` of the header value made from `value`: the
/// value as text where every byte is visible ASCII or the tab, and nothing
/// otherwise. Bytes that cannot form a header value are not visible ASCII
/// either.
#[verifier::external_body]
pub(crate) fn read_text(value: &[u8]) -> (text: Option<String>)
    ensures
        text.deep_view() == visible_text(value@),
{
    match HeaderValue::from_bytes(value) {
        Ok(parsed) => match parsed.to_str() {
            Ok(text) => Some(text.to_string()),
            Err(_) => None,
        },
        Err(_) => None,
    }
}

/// The text of a header value as it is logged and forwarded: the value
/// itself where it is visible ASCII, the empty text otherwise.
pub fn value_text(value: &[u8]) -> (text: String)
    ensures
        text@ == text_or_empty(value@),
{
    match read_text(value) {
        Some(text) => text,
        None => String::new(),
    }
}

/// Text made of visible ASCII is always accepted as a header value.
pub proof fn lemma_text_fits(value: Seq<u8>)
    ensures
        valid_value(text_or_empty(value)),
{
    match visible_text(value) {
        Some(text) => {
            assert forall|i: int| 0 <= i < text.len() implies is_value_char(#[trigger] text[i]) by {
                assert(is_visible_octet(value[i]));
            }
        },
        None => {},
    }
}

/// The value of the first field of `headers` whose name has the normal form
/// `name`.
pub open spec fn first_value(headers: Seq<(Seq<char>, Seq<u8>)>, name: Seq<char>) -> Option<
    Seq<u8>,
>
    decreases headers.len(),
{
    if headers.len() == 0 {
        None
    } else if normal_name(headers[0].0) == Some(name) {
        Some(headers[0].1)
    } else {
        first_value(headers.drop_first(), name)
    }
}

/// `headers` holds a field whose name has the normal form `name`.
pub open spec fn carries(headers: Seq<(Seq<char>, Seq<u8>)>, name: Seq<char>) -> bool {
    first_value(headers, name) is Some
}

/// What is logged of a header block: every field under its name as given,
/// with the text of its value; of two fields with one name the later stays.
pub open spec fn logged(headers: Seq<(Seq<char>, Seq<u8>)>) -> Map<Seq<char>, Seq<char>>
    decreases headers.len(),
{
    if headers.len() == 0 {
        Map::empty()
    } else {
        logged(headers.drop_last()).insert(headers.last().0, text_or_empty(headers.last().1))
    }
}

/// What is forwarded of a header block: every field whose name is accepted,
/// under the normal form of its name, with the text of its value; of two
/// fields with one normal form the later stays.
pub open spec fn forwarded(headers: Seq<(Seq<char>, Seq<u8>)>) -> Map<Seq<char>, Seq<char>>
    decreases headers.len(),
{
    if headers.len() == 0 {
        Map::empty()
    } else {
        let rest = forwarded(headers.drop_last());
        match normal_name(headers.last().0) {
            Some(name) => rest.insert(name, text_or_empty(headers.last().1)),
            None => rest,
        }
    }
}

/// What is relayed of a header block to the client: every field whose name
/// and value are accepted, in order, under the normal form of its name and
/// with its value untouched. Fields with one name all stay.
pub open spec fn relayed(headers: Seq<(Seq<char>, Seq<u8>)>) -> Seq<(Seq<char>, Seq<u8>)>
    decreases headers.len(),
{
    if headers.len() == 0 {
        Seq::empty()
    } else {
        let rest = relayed(headers.drop_last());
        match normal_name(headers.last().0) {
            Some(name) => if valid_octets(headers.last().1) {
                rest.push((name, headers.last().1))
            } else {
                rest
            },
            None => rest,
        }
    }
}

/// The model of a received field is its name's text and its value's bytes.
proof fn lemma_field_view(headers: &Vec<(String, Vec<u8>)>, i: int)
    requires
        0 <= i < headers.len(),
    ensures
        headers.deep_view()[i] == (headers[i].0@, headers[i].1@),
{
    assert(headers[i].1.deep_view() =~= headers[i].1@);
}

/// The value of the first field named `name`, compared by normal form.
pub fn find_value<'a>(headers: &'a Vec<(String, Vec<u8>)>, name: &String) -> (value: Option<
    &'a Vec<u8>,
>)
    ensures
        value.deep_view() == first_value(headers.deep_view(), name@),
{
    let ghost all = headers.deep_view();
    let mut i: usize = 0;
    assert(all.skip(0) =~= all);
    while i < headers.len()
        invariant
            i <= headers.len(),
            all == headers.deep_view(),
            first_value(all, name@) == first_value(all.skip(i as int), name@),
        decreases headers.len() - i,
    {
        let ghost rest = all.skip(i as int);
        proof {
            lemma_field_view(headers, i as int);
        }
        assert(rest[0] == all[i as int]);
        assert(rest.drop_first() =~= all.skip(i + 1));
        match parse_name(headers[i].0.as_str()) {
            Some(normal) => {
                if normal == *name {
                    return Some(&headers[i].1);
                }
            },
            None => {},
        }
        i += 1;
    }
    None
}

/// The fields of a header block as they are logged.
pub fn log_fields(headers: &Vec<(String, Vec<u8>)>) -> (fields: Fields)
    ensures
        fields@ == logged(headers.deep_view()),
{
    let ghost all = headers.deep_view();
    let mut fields = Fields::new();
    let mut i: usize = 0;
    assert(all.take(0) =~= Seq::empty());
    while i < headers.len()
        invariant
            i <= headers.len(),
            all == headers.deep_view(),
            fields@ == logged(all.take(i as int)),
        decreases headers.len() - i,
    {
        assert(all.take(i + 1).drop_last() =~= all.take(i as int));
        proof {
            lemma_field_view(headers, i as int);
        }
        fields.insert(headers[i].0.clone(), value_text(headers[i].1.as_slice()));
        i += 1;
    }
    assert(all.take(i as int) =~= all);
    fields
}

/// The fields of a header block as they are forwarded.
pub fn forward_fields(headers: &Vec<(String, Vec<u8>)>) -> (fields: Fields)
    ensures
        fields@ == forwarded(headers.deep_view()),
{
    let ghost all = headers.deep_view();
    let mut fields = Fields::new();
    let mut i: usize = 0;
    assert(all.take(0) =~= Seq::empty());
    while i < headers.len()
        invariant
            i <= headers.len(),
            all == headers.deep_view(),
            fields@ == forwarded(all.take(i as int)),
        decreases headers.len() - i,
    {
        assert(all.take(i + 1).drop_last() =~= all.take(i as int));
        proof {
            lemma_field_view(headers, i as int);
        }
        match parse_name(headers[i].0.as_str()) {
            Some(name) => {
                let text = value_text(headers[i].1.as_slice());
                proof {
                    lemma_text_fits(headers[i as int].1@);
                }
                if accepts_text(text.as_str()) {
                    fields.insert(name, text);
                }
            },
            None => {},
        }
        i += 1;
    }
    assert(all.take(i as int) =~= all);
    fields
}

/// The fields of a header block as they are relayed to the client.
pub fn relay_fields(headers: &Vec<(String, Vec<u8>)>) -> (fields: Vec<(String, Vec<u8>)>)
    ensures
        fields.deep_view() == relayed(headers.deep_view()),
{
    let ghost all = headers.deep_view();
    let mut fields: Vec<(String, Vec<u8>)> = Vec::new();
    let mut i: usize = 0;
    assert(all.take(0) =~= Seq::empty());
    assert(fields.deep_view() =~= relayed(all.take(0)));
    while i < headers.len()
        invariant
            i <= headers.len(),
            all == headers.deep_view(),
            fields.deep_view() == relayed(all.take(i as int)),
        decreases headers.len() - i,
    {
        assert(all.take(i + 1).drop_last() =~= all.take(i as int));
        proof {
            lemma_field_view(headers, i as int);
        }
        match parse_name(headers[i].0.as_str()) {
            Some(name) => {
                if accepts_octets(headers[i].1.as_slice()) {
                    let ghost before = fields.deep_view();
                    let value = headers[i].1.clone();
                    assert(value@ =~= headers[i as int].1@);
                    assert(value.deep_view() =~= value@);
                    fields.push((name, value));
                    assert(fields.deep_view() =~= before.push((name@, headers[i as int].1@)));
                }
            },
            None => {},
        }
        i += 1;
    }
    assert(all.take(i as int) =~= all);
    fields
}

/// A forwarded header block holds a name exactly if the received block
/// carries a field whose name has that normal form.
pub proof fn lemma_forwarded_names(headers: Seq<(Seq<char>, Seq<u8>)>, name: Seq<char>)
    ensures
        forwarded(headers).contains_key(name) <==> carries(headers, name),
    decreases headers.len(),
{
    if headers.len() > 0 {
        lemma_forwarded_names(headers.drop_last(), name);
        lemma_carries_last(headers, name);
    }
}

/// Whether a block carries a name can be told from its last field and the
/// fields before it.
proof fn lemma_carries_last(headers: Seq<(Seq<char>, Seq<u8>)>, name: Seq<char>)
    requires
        headers.len() > 0,
    ensures
        carries(headers, name) <==> carries(headers.drop_last(), name) || normal_name(
            headers.last().0,
        ) == Some(name),
    decreases headers.len(),
{
    let front = headers.drop_last();
    if headers.len() == 1 {
        assert(headers.drop_first().len() == 0);
        assert(front.len() == 0);
        assert(first_value(headers.drop_first(), name) is None);
        assert(first_value(front, name) is None);
        assert(headers.last() == headers[0]);
    } else {
        let tail = headers.drop_first();
        lemma_carries_last(tail, name);
        assert(tail.drop_last() =~= front.drop_first());
        assert(tail.last() == headers.last());
        assert(front[0] == headers[0]);
        if normal_name(headers[0].0) == Some(name) {
            assert(first_value(headers, name) is Some);
            assert(first_value(front, name) is Some);
        } else {
            assert(first_value(headers, name) == first_value(tail, name));
            assert(first_value(front, name) == first_value(front.drop_first(), name));
        }
    }
}

} // verus!
