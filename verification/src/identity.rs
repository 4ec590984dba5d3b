//! Client identities: an opaque token that stands for a simulated client
//! address. A client presents it in the `dev-address` cookie; the login
//! endpoint hands one out, taken verbatim from the caller or minted from 160
//! random bits.

use crate::headers::{
    find_value, first_value, is_value_char, is_visible_octet, read_text, valid_value,
    visible_text,
};
use crate::text::{hex, push_hex};
use cookie::Cookie;
use vstd::prelude::*;

verus! {

/// The pairs that `cookie::Cookie::split_parse` yields for a `Cookie` header,
/// in order: the name and value of each cookie it could parse, and `None`
/// in place of each piece it could not.
pub uninterp spec fn cookie_pairs(header: Seq<char>) -> Seq<Option<(Seq<char>, Seq<char>)>>;

/// `part` is a contiguous run of the characters of `whole`.
pub open spec fn is_slice_of(part: Seq<char>, whole: Seq<char>) -> bool {
    exists|from: int, to: int|
        0 <= from <= to <= whole.len() && part == #[trigger] whole.subrange(from, to)
}

/// Every name and value among `pairs` is a contiguous run of `header`.
pub open spec fn cut_from(pairs: Seq<Option<(Seq<char>, Seq<char>)>>, header: Seq<char>) -> bool {
    forall|i: int|
        0 <= i < pairs.len() ==> match #[trigger] pairs[i] {
            Some(pair) => is_slice_of(pair.0, header) && is_slice_of(pair.1, header),
            None => true,
        }
}

/// `cookie::Cookie::split_parse` on a `Cookie` header, with `name` and
/// `value` of every cookie it yields. The crate cuts the header at each `;`,
/// skips blank pieces, and takes name and value from either side of the
/// first `=` of a piece, trimmed, so each is a slice of the header; which
/// pieces it refuses and how it trims is left to the crate.
#[verifier::external_body]
pub(crate) fn split_cookies(header: &str) -> (pairs: Vec<Option<(String, String)>>)
    ensures
        pairs.deep_view() == cookie_pairs(header@),
        cut_from(pairs.deep_view(), header@),
{
    Cookie::split_parse(header).map(
        |piece| match piece {
            Ok(cookie) => Some((cookie.name().to_string(), cookie.value().to_string())),
            Err(_) => None,
        },
    ).collect()
}

/// `Display` of `cookie::Cookie::new(name, value)`: the text of a cookie
/// without attributes, which is the name, `=`, and the value.
#[verifier::external_body]
pub(crate) fn cookie_text(name: &str, value: &str) -> (text: String)
    ensures
        text@ == name@ + seq!['='] + value@,
{
    Cookie::new(name, value).to_string()
}

/// Twenty bytes from `rand::random`. Nothing is promised of them.
#[verifier::external_body]
pub(crate) fn random_bytes() -> (bytes: [u8; 20]) {
    rand::random::<[u8; 20]>()
}

/// The name of the cookie that carries the identity.
pub open spec fn identity_cookie() -> Seq<char> {
    "dev-address"@
}

/// The value of the first pair of `pairs` named `name`.
pub open spec fn first_named(pairs: Seq<Option<(Seq<char>, Seq<char>)>>, name: Seq<char>) -> Option<
    Seq<char>,
>
    decreases pairs.len(),
{
    if pairs.len() == 0 {
        None
    } else {
        match pairs[0] {
            Some(pair) => if pair.0 == name {
                Some(pair.1)
            } else {
                first_named(pairs.drop_first(), name)
            },
            None => first_named(pairs.drop_first(), name),
        }
    }
}

/// The identity that a `Cookie` header presents: the value of its first
/// `dev-address` cookie.
pub open spec fn cookie_identity(header: Seq<char>) -> Option<Seq<char>> {
    first_named(cookie_pairs(header), identity_cookie())
}

/// The identity that a request presents: that of its first `Cookie` header
/// field, where the field's value is visible ASCII.
pub open spec fn request_identity(headers: Seq<(Seq<char>, Seq<u8>)>) -> Option<Seq<char>> {
    match first_value(headers, "cookie"@) {
        Some(value) => match visible_text(value) {
            Some(header) => cookie_identity(header),
            None => None,
        },
        None => None,
    }
}

/// The text of a minted identity: `0x` and two lower-case hexadecimal digits
/// for each byte.
pub open spec fn identity_text(bytes: Seq<u8>) -> Seq<char> {
    "0x"@ + hex(bytes)
}

/// `text` is a minted identity: `0x` followed by 40 hexadecimal digits that
/// spell out 160 bits.
pub open spec fn is_minted(text: Seq<char>) -> bool {
    exists|bytes: Seq<u8>| bytes.len() == 20 && text == #[trigger] identity_text(bytes)
}

/// The identity that login settles on: the explicit one where given, else
/// the one the client already presents, else a newly minted one.
pub open spec fn resolved(
    explicit: Option<Seq<char>>,
    presented: Option<Seq<char>>,
    minted: Seq<char>,
) -> Seq<char> {
    match explicit {
        Some(identity) => identity,
        None => match presented {
            Some(identity) => identity,
            None => minted,
        },
    }
}

/// Whether login tells the client to store the identity: always, except
/// where the client presented it itself.
pub open spec fn issues_cookie(explicit: Option<Seq<char>>, presented: Option<Seq<char>>) -> bool {
    explicit is Some || presented is None
}

/// The value of the first cookie named `dev-address` among parsed pairs.
pub fn identity_in(pairs: &Vec<Option<(String, String)>>) -> (identity: Option<String>)
    ensures
        identity.deep_view() == first_named(pairs.deep_view(), identity_cookie()),
{
    let ghost all = pairs.deep_view();
    let wanted = String::from_str("dev-address");
    let mut i: usize = 0;
    assert(all.skip(0) =~= all);
    while i < pairs.len()
        invariant
            i <= pairs.len(),
            all == pairs.deep_view(),
            wanted@ == identity_cookie(),
            first_named(all, identity_cookie()) == first_named(
                all.skip(i as int),
                identity_cookie(),
            ),
        decreases pairs.len() - i,
    {
        let ghost rest = all.skip(i as int);
        assert(rest[0] == all[i as int]);
        assert(rest.drop_first() =~= all.skip(i + 1));
        match &pairs[i] {
            Some(pair) => {
                if pair.0 == wanted {
                    return Some(pair.1.clone());
                }
            },
            None => {},
        }
        i += 1;
    }
    None
}

/// Recovers the identity from the text of a `Cookie` header, if it holds
/// one.
pub fn extract_from_request_cookie(cookie_header: &str) -> (identity: Option<String>)
    ensures
        identity.deep_view() == cookie_identity(cookie_header@),
        identity matches Some(id) ==> is_slice_of(id@, cookie_header@),
{
    let pairs = split_cookies(cookie_header);
    let identity = identity_in(&pairs);
    proof {
        lemma_first_named_is_cut(pairs.deep_view(), identity_cookie(), cookie_header@);
    }
    identity
}

/// Recovers the identity that a request presents in its header fields.
/// Whatever is recovered is accepted as a header value.
pub fn identity_of_request(headers: &Vec<(String, Vec<u8>)>) -> (identity: Option<String>)
    ensures
        identity.deep_view() == request_identity(headers.deep_view()),
        identity matches Some(id) ==> valid_value(id@),
{
    let name = String::from_str("cookie");
    match find_value(headers, &name) {
        Some(value) => {
            assert(value.deep_view() =~= value@);
            match read_text(value.as_slice()) {
                Some(header) => {
                    let identity = extract_from_request_cookie(header.as_str());
                    proof {
                        if identity is Some {
                            lemma_slice_of_visible(identity.unwrap()@, value@);
                        }
                    }
                    identity
                },
                None => None,
            }
        },
        None => None,
    }
}

/// Spells out 160 bits as an identity.
pub fn format_identity(bytes: &[u8; 20]) -> (identity: String)
    ensures
        identity@ == identity_text(bytes@),
        is_minted(identity@),
{
    let mut identity = String::from_str("0x");
    push_hex(&mut identity, bytes);
    assert(bytes@.len() == 20);
    assert(identity@ == identity_text(bytes@));
    identity
}

/// Mints a new identity from 160 random bits.
pub fn mint_identity() -> (identity: String)
    ensures
        is_minted(identity@),
{
    let bytes = random_bytes();
    format_identity(&bytes)
}

/// What login settled on.
#[derive(Debug)]
pub struct Resolution {
    /// The client's identity from now on.
    pub identity: String,
    /// Whether the client must be told to store it in its cookie.
    pub set_cookie: bool,
}

/// Settles the identity of a client that logs in, given the explicit
/// identity it asks for and the identity it presents. An explicit identity
/// is used verbatim and overrides the presented one. Without it the
/// presented identity is kept and no cookie is issued. Without either an
/// identity is minted.
pub fn resolve(explicit: Option<String>, presented: Option<String>) -> (outcome: Resolution)
    ensures
        outcome.set_cookie == issues_cookie(explicit.deep_view(), presented.deep_view()),
        if explicit is None && presented is None {
            is_minted(outcome.identity@)
        } else {
            outcome.identity@ == resolved(
                explicit.deep_view(),
                presented.deep_view(),
                Seq::empty(),
            )
        },
{
    match explicit {
        Some(identity) => Resolution { identity, set_cookie: true },
        None => match presented {
            Some(identity) => Resolution { identity, set_cookie: false },
            None => Resolution { identity: mint_identity(), set_cookie: true },
        },
    }
}

/// Settles the identity of a client that logs in, given the text of its
/// `Cookie` header, if it sent one, and the explicit identity it asks for,
/// if it does.
pub fn resolve_or_mint(cookie_header: Option<&str>, query_param: Option<String>) -> (outcome:
    Resolution)
    ensures
        ({
            let presented = match cookie_header {
                Some(header) => cookie_identity(header@),
                None => None,
            };
            &&& outcome.set_cookie == issues_cookie(query_param.deep_view(), presented)
            &&& if query_param is None && presented is None {
                is_minted(outcome.identity@)
            } else {
                outcome.identity@ == resolved(query_param.deep_view(), presented, Seq::empty())
            }
        }),
{
    let presented = match cookie_header {
        Some(header) => extract_from_request_cookie(header),
        None => None,
    };
    resolve(query_param, presented)
}

/// The value found under a name among pairs cut from a header is itself a
/// slice of that header.
proof fn lemma_first_named_is_cut(
    pairs: Seq<Option<(Seq<char>, Seq<char>)>>,
    name: Seq<char>,
    header: Seq<char>,
)
    requires
        cut_from(pairs, header),
    ensures
        first_named(pairs, name) matches Some(value) ==> is_slice_of(value, header),
    decreases pairs.len(),
{
    if pairs.len() > 0 {
        let rest = pairs.drop_first();
        assert forall|i: int| 0 <= i < rest.len() implies match #[trigger] rest[i] {
            Some(pair) => is_slice_of(pair.0, header) && is_slice_of(pair.1, header),
            None => true,
        } by {
            assert(rest[i] == pairs[i + 1]);
        }
        lemma_first_named_is_cut(rest, name, header);
        assert(pairs[0] matches Some(pair) ==> is_slice_of(pair.1, header));
    }
}

/// A slice of the text of a visible header value is accepted as a header
/// value.
proof fn lemma_slice_of_visible(part: Seq<char>, value: Seq<u8>)
    requires
        visible_text(value) matches Some(text) && is_slice_of(part, text),
    ensures
        valid_value(part),
{
    let text = visible_text(value)->0;
    let (from, to) = choose|from: int, to: int|
        0 <= from <= to <= text.len() && part == #[trigger] text.subrange(from, to);
    assert forall|i: int| 0 <= i < part.len() implies is_value_char(#[trigger] part[i]) by {
        assert(part[i] == text[from + i]);
        assert(is_visible_octet(value[from + i]));
    }
}

/// Login with an explicit identity returns it verbatim, whatever the client
/// presents. Login without one gives a client that presents what an earlier
/// login without one gave it the same identity again, whatever would have
/// been minted, and issues no new cookie for it.
pub proof fn law_login_is_stable(
    explicit: Seq<char>,
    presented: Option<Seq<char>>,
    first_mint: Seq<char>,
    later_mint: Seq<char>,
)
    ensures
        resolved(Some(explicit), presented, later_mint) == explicit,
        issues_cookie(Some(explicit), presented),
        ({
            let first = resolved(None, presented, first_mint);
            &&& issues_cookie(None, presented) <==> presented is None
            &&& resolved(None, Some(first), later_mint) == first
            &&& !issues_cookie(None, Some(first))
        }),
{
}

} // verus!
