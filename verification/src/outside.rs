//! The calls into the `url` crate, which parses and rewrites URLs, into
//! tree-sitter, which parses JavaScript, and into std where vstd says
//! nothing of a function.
//!
//! A URL is held as its serialization, a text. Each function here takes that
//! text, lets the `url` crate parse it and do its work, and hands back text.
//! Only `Url::parse`, `Url::join` and the rewriting of the query are taken to
//! hand back text that parses to itself; the setters are not.
//! Verus does not read the bodies: it believes what the contracts say. What
//! the crate computes has a name here, a spec function without a body, and
//! the contracts of the library speak of those names.
use crate::limits::{blob_marks, byte_len, fits, pairs_weight, BLOB_LIMIT, TEXT_LIMIT};
use crate::pairs::{view_pairs, Pair};
use tree_sitter::{Parser, Query, QueryCursor};
use url::{form_urlencoded, quirks, Url};
use vstd::prelude::*;
use vstd::string::StringSliceAdditionalSpecFns;
use vstd::utf8::valid_utf8;

verus! {

/// The serialization of the URL that `Url::parse` makes of `input`, or
/// `None` where it rejects `input`.
pub uninterp spec fn url_parse(input: Seq<char>) -> Option<Seq<char>>;

/// The serialization of the URL that `Url::join` makes of `input` against
/// the URL written `base`, or `None` where it rejects `input`.
pub uninterp spec fn url_join(base: Seq<char>, input: Seq<char>) -> Option<Seq<char>>;

/// The query of the URL written `href`, as `Url::query` gives it: the text
/// between the question mark and the fragment, or `None`.
pub uninterp spec fn url_query(href: Seq<char>) -> Option<Seq<char>>;

/// The serialization of the URL written `href` once its query has been
/// replaced by the serialization of `pairs`.
pub uninterp spec fn url_with_pairs(href: Seq<char>, pairs: Seq<Pair>) -> Seq<char>;

/// The pairs that `form_urlencoded::parse` reads from `input`.
pub uninterp spec fn form_pairs(input: Seq<u8>) -> Seq<Pair>;

/// Whether the form serializer writes the byte `b` as it is: a letter or
/// digit of ASCII, or one of `*`, `-`, `.`, `_`.
pub open spec fn form_unchanged(b: u8) -> bool {
    ||| b == 0x2a
    ||| b == 0x2d
    ||| b == 0x2e
    ||| b == 0x5f
    ||| 0x30 <= b <= 0x39
    ||| 0x41 <= b <= 0x5a
    ||| 0x61 <= b <= 0x7a
}

/// The hexadecimal digit for `n` below 16, in upper case.
pub open spec fn hex_digit(n: u8) -> char {
    if n < 10 {
        (0x30 + n) as u8 as char
    } else {
        (0x37 + n) as u8 as char
    }
}

/// What the form serializer writes for the byte `b`: the byte itself, a
/// plus sign for a space, or a percent sign and two hexadecimal digits.
pub open spec fn form_byte(b: u8) -> Seq<char> {
    if form_unchanged(b) {
        seq![b as char]
    } else if b == 0x20 {
        seq!['+']
    } else {
        seq!['%', hex_digit(b / 16), hex_digit(b % 16)]
    }
}

/// What the form serializer writes for `bytes`.
pub open spec fn form_bytes(bytes: Seq<u8>) -> Seq<char>
    decreases bytes.len(),
{
    if bytes.len() == 0 {
        Seq::empty()
    } else {
        form_bytes(bytes.drop_last()) + form_byte(bytes.last())
    }
}

/// What the form serializer writes for one pair: the name, an equals sign,
/// the value, both from their UTF-8 bytes.
pub open spec fn form_pair(pair: Pair) -> Seq<char> {
    form_bytes(vstd::utf8::encode_utf8(pair.0)) + seq!['='] + form_bytes(
        vstd::utf8::encode_utf8(pair.1),
    )
}

/// The `application/x-www-form-urlencoded` text that
/// `form_urlencoded::Serializer` writes for `pairs`: the pairs in order, with
/// an ampersand between one and the next.
pub open spec fn form_text(pairs: Seq<Pair>) -> Seq<char>
    decreases pairs.len(),
{
    if pairs.len() == 0 {
        Seq::empty()
    } else if pairs.len() == 1 {
        form_pair(pairs[0])
    } else {
        form_text(pairs.drop_last()) + seq!['&'] + form_pair(pairs.last())
    }
}

/// The bytes of the query of the URL written `href`; none where it has no
/// query.
pub open spec fn query_bytes(href: Seq<char>) -> Seq<u8> {
    match url_query(href) {
        Some(q) => vstd::utf8::encode_utf8(q),
        None => Seq::empty(),
    }
}

/// The query of the URL written `href`; the empty text where it has none.
pub open spec fn query_text(href: Seq<char>) -> Seq<char> {
    match url_query(href) {
        Some(q) => q,
        None => Seq::empty(),
    }
}

/// The place of the first `c` in `s`; the length of `s` where there is none.
pub open spec fn first_at(s: Seq<char>, c: char) -> int
    decreases s.len(),
{
    if s.len() == 0 {
        0
    } else if s[0] == c {
        0
    } else {
        1 + first_at(s.drop_first(), c)
    }
}

/// The text that stands for a URL after a setter has made `candidate` of
/// `old`: what `candidate` parses to, or `old` where it does not parse.
pub open spec fn settled(old: Seq<char>, candidate: Seq<char>) -> Seq<char> {
    match url_parse(candidate) {
        Some(h) => h,
        None => old,
    }
}

/// Whether `href` is the serialization of a URL: text that parses to itself.
pub open spec fn is_url_text(href: Seq<char>) -> bool {
    url_parse(href) == Some(href)
}

/// Calls `Url::parse` and hands back the serialization of the URL, `None`
/// where the crate reports an error. The contract names the result, and
/// claims that the serialization of a URL parses to that same URL again, which
/// is the invariant that the crate's own `check_invariants` tests.
#[verifier::external_body]
pub(crate) fn parse_url(input: &str) -> (r: Option<String>)
    ensures
        r is Some == url_parse(input@) is Some,
        r matches Some(h) ==> url_parse(input@) == Some(h@) && is_url_text(h@),
{
    match Url::parse(input) {
        Ok(u) => Some(u.into()),
        Err(_) => None,
    }
}

/// Calls `Url::join` on the URL written `base` and hands back the
/// serialization of the new URL, `None` where the crate reports an error
/// (also where `base` is no URL). The contract names the result, and claims
/// that the new serialization parses to itself.
#[verifier::external_body]
pub(crate) fn join_url(base: &str, input: &str) -> (r: Option<String>)
    ensures
        r is Some == url_join(base@, input@) is Some,
        r matches Some(h) ==> url_join(base@, input@) == Some(h@) && is_url_text(h@),
{
    match Url::parse(base) {
        Ok(b) => match b.join(input) {
            Ok(u) => Some(u.into()),
            Err(_) => None,
        },
        Err(_) => None,
    }
}

/// Calls `Url::query` on the URL written `href` and copies the query out,
/// `None` where the URL has none (or `href` is no URL). The contract names
/// the result.
#[verifier::external_body]
pub(crate) fn query_of(href: &str) -> (r: Option<String>)
    ensures
        r is Some == url_query(href@) is Some,
        r matches Some(q) ==> url_query(href@) == Some(q@),
{
    match Url::parse(href) {
        Ok(u) => u.query().map(String::from),
        Err(_) => None,
    }
}

/// Calls `Url::query_pairs` on the URL written `href` and collects the
/// pairs. As the crate's source has it, these are the pairs that
/// `form_urlencoded::parse` reads from the bytes of the query, or from no
/// bytes where the URL has no query.
#[verifier::external_body]
pub(crate) fn query_pairs_of(href: &str) -> (r: Vec<(String, String)>)
    requires
        is_url_text(href@),
    ensures
        view_pairs(r@) == form_pairs(query_bytes(href@)),
{
    match Url::parse(href) {
        Ok(u) => u.query_pairs().into_owned().collect(),
        Err(_) => Vec::new(),
    }
}

/// Whether the URLs written `a` and `b` read the same in every field but the
/// query.
pub open spec fn same_but_query(a: Seq<char>, b: Seq<char>) -> bool {
    &&& url_origin(a) == url_origin(b)
    &&& url_protocol(a) == url_protocol(b)
    &&& url_username(a) == url_username(b)
    &&& url_password(a) == url_password(b)
    &&& url_host(a) == url_host(b)
    &&& url_hostname(a) == url_hostname(b)
    &&& url_port(a) == url_port(b)
    &&& url_pathname(a) == url_pathname(b)
    &&& url_hash(a) == url_hash(b)
}

/// Calls `Url::query_pairs_mut`, then `clear` and `extend_pairs` on what it
/// returns: the query of the URL written `href` becomes the serialization of
/// `pairs`, never `None`. The contract names the new serialization of the
/// URL, and claims that it parses to itself and that its query is the text
/// that the serializer writes for `pairs` on its own. It also claims that
/// every other field reads as before: as the crate's source has it, the call
/// takes the fragment off, writes behind the question mark, and puts the
/// fragment back. The URL and the list are within the limit: the serializer
/// writes at most three bytes for a byte of a name or value, so that the
/// crate can count the bytes of the new URL.
#[verifier::external_body]
pub(crate) fn set_query_pairs(href: &str, pairs: &Vec<(String, String)>) -> (r: String)
    requires
        is_url_text(href@),
        byte_len(href@) <= TEXT_LIMIT,
        pairs_weight(view_pairs(pairs@)) <= TEXT_LIMIT,
    ensures
        r@ == url_with_pairs(href@, view_pairs(pairs@)),
        is_url_text(r@),
        url_query(r@) == Some(form_text(view_pairs(pairs@))),
        same_but_query(href@, r@),
{
    match Url::parse(href) {
        Ok(mut u) => {
            u.query_pairs_mut().clear().extend_pairs(pairs.iter());
            u.into()
        },
        Err(_) => href.to_owned(),
    }
}

/// Calls `form_urlencoded::parse` on `input` and collects the pairs, names
/// and values percent-decoded. The contract names the result, and says that
/// no bytes give no pairs.
#[verifier::external_body]
pub(crate) fn parse_pairs(input: &[u8]) -> (r: Vec<(String, String)>)
    ensures
        view_pairs(r@) == form_pairs(input@),
        input@.len() == 0 ==> r@.len() == 0,
{
    form_urlencoded::parse(input).into_owned().collect()
}

/// Calls `form_urlencoded::Serializer` on an empty text: `extend_pairs`, then
/// `finish`. The contract states the text: as the crate's source has it, an
/// ampersand goes before every pair but the first, an equals sign between
/// name and value, and each byte of a name or value is kept, turned into a
/// plus sign, or percent-encoded in upper case.
#[verifier::external_body]
pub(crate) fn serialize_pairs(pairs: &Vec<(String, String)>) -> (r: String)
    ensures
        r@ == form_text(view_pairs(pairs@)),
{
    form_urlencoded::Serializer::new(String::new()).extend_pairs(pairs.iter()).finish()
}

/// The matches of the tree-sitter query `query` in the JavaScript text
/// `text`, in the order of the walk: for each match the byte ranges, start
/// and end, of the nodes that it captures, in the order of the captures.
pub uninterp spec fn javascript_captures(text: Seq<char>, query: Seq<char>) -> Seq<
    Seq<(usize, usize)>,
>;

/// The ranges that a vector of matches holds.
pub open spec fn view_ranges(matches: Seq<Vec<(usize, usize)>>) -> Seq<Seq<(usize, usize)>> {
    Seq::new(matches.len(), |i: int| matches[i]@)
}

/// Parses `text` with tree-sitter's JavaScript grammar, runs `query` on the
/// tree with `QueryCursor::matches`, and copies out the byte range of each
/// captured node. There are no matches where the grammar does not load, the
/// parser gives no tree or the query does not compile. The contract names the
/// result.
#[verifier::external_body]
pub(crate) fn captures_in_javascript(text: &str, query: &str) -> (r: Vec<Vec<(usize, usize)>>)
    ensures
        view_ranges(r@) == javascript_captures(text@, query@),
{
    let mut parser = Parser::new();
    if parser.set_language(tree_sitter_javascript::language()).is_err() {
        return Vec::new();
    }
    match (parser.parse(text, None), Query::new(tree_sitter_javascript::language(), query)) {
        (Some(tree), Ok(q)) => QueryCursor::new()
            .matches(&q, tree.root_node(), text.as_bytes())
            .map(|m| m.captures.iter().map(|c| (c.node.start_byte(), c.node.end_byte())).collect())
            .collect(),
        _ => Vec::new(),
    }
}

/// Calls `std::str::from_utf8`: the text that `bytes` encode, `None` where
/// they are not valid UTF-8.
#[verifier::external_body]
pub(crate) fn text_of_bytes(bytes: &[u8]) -> (r: Option<&str>)
    ensures
        r is Some == valid_utf8(bytes@),
        r matches Some(s) ==> s.spec_bytes() == bytes@,
{
    match std::str::from_utf8(bytes) {
        Ok(s) => Some(s),
        Err(_) => None,
    }
}

/// What `quirks::origin` gives for the URL written `href`: the origin of the
/// URL, in its ASCII form.
pub uninterp spec fn url_origin(href: Seq<char>) -> Seq<char>;

/// Calls `quirks::origin` on the URL written `href` and copies the result
/// out. The contract names the result. The crate nests one call for every
/// `blob:` that the URL begins with, so the places at which `blob:` stands
/// in the text are within the limit.
#[verifier::external_body]
pub(crate) fn quirks_origin(href: &str) -> (r: String)
    requires
        is_url_text(href@),
        blob_marks(href@) <= BLOB_LIMIT,
    ensures
        r@ == url_origin(href@),
{
    match Url::parse(href) {
        Ok(u) => quirks::origin(&u).to_string(),
        Err(_) => String::new(),
    }
}

/// What `quirks::protocol` gives for the URL written `href`: the text up to
/// the first colon, and that colon.
pub open spec fn url_protocol(href: Seq<char>) -> Seq<char> {
    if first_at(href, ':') < href.len() {
        href.take(first_at(href, ':') + 1)
    } else {
        Seq::empty()
    }
}

/// Calls `quirks::protocol` on the URL written `href` and copies the result
/// out. As the crate's source has it, that is the scheme and the colon after
/// it, and no colon stands in a scheme.
#[verifier::external_body]
pub(crate) fn quirks_protocol(href: &str) -> (r: String)
    requires
        is_url_text(href@),
    ensures
        r@ == url_protocol(href@),
{
    match Url::parse(href) {
        Ok(u) => quirks::protocol(&u).to_string(),
        Err(_) => String::new(),
    }
}

/// What `quirks::username` gives for the URL written `href`: the user name of
/// the URL.
pub uninterp spec fn url_username(href: Seq<char>) -> Seq<char>;

/// Calls `quirks::username` on the URL written `href` and copies the result
/// out. The contract names the result.
#[verifier::external_body]
pub(crate) fn quirks_username(href: &str) -> (r: String)
    requires
        is_url_text(href@),
    ensures
        r@ == url_username(href@),
{
    match Url::parse(href) {
        Ok(u) => quirks::username(&u).to_string(),
        Err(_) => String::new(),
    }
}

/// What `quirks::password` gives for the URL written `href`: the password of
/// the URL, or the empty text.
pub uninterp spec fn url_password(href: Seq<char>) -> Seq<char>;

/// Calls `quirks::password` on the URL written `href` and copies the result
/// out. The contract names the result.
#[verifier::external_body]
pub(crate) fn quirks_password(href: &str) -> (r: String)
    requires
        is_url_text(href@),
    ensures
        r@ == url_password(href@),
{
    match Url::parse(href) {
        Ok(u) => quirks::password(&u).to_string(),
        Err(_) => String::new(),
    }
}

/// What `quirks::host` gives for the URL written `href`: the host of the URL,
/// with its port where it has one.
pub uninterp spec fn url_host(href: Seq<char>) -> Seq<char>;

/// Calls `quirks::host` on the URL written `href` and copies the result
/// out. The contract names the result.
#[verifier::external_body]
pub(crate) fn quirks_host(href: &str) -> (r: String)
    requires
        is_url_text(href@),
    ensures
        r@ == url_host(href@),
{
    match Url::parse(href) {
        Ok(u) => quirks::host(&u).to_string(),
        Err(_) => String::new(),
    }
}

/// What `quirks::hostname` gives for the URL written `href`: the host of the
/// URL, without a port.
pub uninterp spec fn url_hostname(href: Seq<char>) -> Seq<char>;

/// Calls `quirks::hostname` on the URL written `href` and copies the result
/// out. The contract names the result.
#[verifier::external_body]
pub(crate) fn quirks_hostname(href: &str) -> (r: String)
    requires
        is_url_text(href@),
    ensures
        r@ == url_hostname(href@),
{
    match Url::parse(href) {
        Ok(u) => quirks::hostname(&u).to_string(),
        Err(_) => String::new(),
    }
}

/// What `quirks::port` gives for the URL written `href`: the port of the URL
/// in decimal, or the empty text.
pub uninterp spec fn url_port(href: Seq<char>) -> Seq<char>;

/// Calls `quirks::port` on the URL written `href` and copies the result
/// out. The contract names the result.
#[verifier::external_body]
pub(crate) fn quirks_port(href: &str) -> (r: String)
    requires
        is_url_text(href@),
    ensures
        r@ == url_port(href@),
{
    match Url::parse(href) {
        Ok(u) => quirks::port(&u).to_string(),
        Err(_) => String::new(),
    }
}

/// What `quirks::pathname` gives for the URL written `href`: the path of the
/// URL.
pub uninterp spec fn url_pathname(href: Seq<char>) -> Seq<char>;

/// Calls `quirks::pathname` on the URL written `href` and copies the result
/// out. The contract names the result.
#[verifier::external_body]
pub(crate) fn quirks_pathname(href: &str) -> (r: String)
    requires
        is_url_text(href@),
    ensures
        r@ == url_pathname(href@),
{
    match Url::parse(href) {
        Ok(u) => quirks::pathname(&u).to_string(),
        Err(_) => String::new(),
    }
}

/// What `quirks::search` gives for the URL written `href`: a question mark
/// and the query, or the empty text where the query is missing or empty.
pub open spec fn url_search(href: Seq<char>) -> Seq<char> {
    match url_query(href) {
        Some(q) => if q.len() > 0 {
            seq!['?'] + q
        } else {
            Seq::empty()
        },
        None => Seq::empty(),
    }
}

/// Calls `quirks::search` on the URL written `href` and copies the result
/// out. As the crate's source has it, that is the text from the question
/// mark to the end of the query, cut to nothing where it is the question
/// mark alone.
#[verifier::external_body]
pub(crate) fn quirks_search(href: &str) -> (r: String)
    requires
        is_url_text(href@),
    ensures
        r@ == url_search(href@),
{
    match Url::parse(href) {
        Ok(u) => quirks::search(&u).to_string(),
        Err(_) => String::new(),
    }
}

/// What `quirks::hash` gives for the URL written `href`: the text from the
/// first number sign on, or the empty text where there is no number sign or
/// nothing follows it.
pub open spec fn url_hash(href: Seq<char>) -> Seq<char> {
    if first_at(href, '#') + 1 < href.len() {
        href.skip(first_at(href, '#'))
    } else {
        Seq::empty()
    }
}

/// Calls `quirks::hash` on the URL written `href` and copies the result out.
/// As the crate's source has it, that is the text from the start of the
/// fragment on, cut to nothing where it is the number sign alone; and in a
/// serialization no number sign stands before the fragment.
#[verifier::external_body]
pub(crate) fn quirks_hash(href: &str) -> (r: String)
    requires
        is_url_text(href@),
    ensures
        r@ == url_hash(href@),
{
    match Url::parse(href) {
        Ok(u) => quirks::hash(&u).to_string(),
        Err(_) => String::new(),
    }
}

/// What `quirks::set_href` with `value` makes of the URL written `href`: the
/// serialization afterwards, and whether the setter reported success.
pub uninterp spec fn url_set_href(href: Seq<char>, value: Seq<char>) -> (Seq<char>, bool);

/// The serialization of the URL written `href` after `quirks::set_href` with
/// `value`.
pub open spec fn url_with_href(href: Seq<char>, value: Seq<char>) -> Seq<char> {
    url_set_href(href, value).0
}

/// Calls `quirks::set_href` on the URL written `href` and hands back the new
/// serialization, and whether the setter reported success. The contract
/// names the result, and says that a setter that reports an error has left
/// the text as it was: in the crate's source every error is returned before
/// anything is written. Nothing is said of whether the new text parses to
/// itself.
#[verifier::external_body]
pub(crate) fn quirks_set_href(href: &str, value: &str) -> (r: (String, bool))
    requires
        is_url_text(href@),
    ensures
        (r.0@, r.1) == url_set_href(href@, value@),
        !r.1 ==> r.0@ == href@,
{
    match Url::parse(href) {
        Ok(mut u) => {
            let taken = quirks::set_href(&mut u, value).is_ok();
            (u.into(), taken)
        },
        Err(_) => (href.to_owned(), false),
    }
}

/// What `quirks::set_protocol` with `value` makes of the URL written `href`: the
/// serialization afterwards, and whether the setter reported success.
pub uninterp spec fn url_set_protocol(href: Seq<char>, value: Seq<char>) -> (Seq<char>, bool);

/// The serialization of the URL written `href` after `quirks::set_protocol` with
/// `value`.
pub open spec fn url_with_protocol(href: Seq<char>, value: Seq<char>) -> Seq<char> {
    url_set_protocol(href, value).0
}

/// Calls `quirks::set_protocol` on the URL written `href` and hands back the new
/// serialization, and whether the setter reported success. The contract
/// names the result, and says that a setter that reports an error has left
/// the text as it was: in the crate's source every error is returned before
/// anything is written. Nothing is said of whether the new text parses to
/// itself. The URL and the value are within the limit, so that the crate
/// can count the bytes of what it writes.
#[verifier::external_body]
pub(crate) fn quirks_set_protocol(href: &str, value: &str) -> (r: (String, bool))
    requires
        is_url_text(href@),
        fits(href@, value@),
    ensures
        (r.0@, r.1) == url_set_protocol(href@, value@),
        !r.1 ==> r.0@ == href@,
{
    match Url::parse(href) {
        Ok(mut u) => {
            let taken = quirks::set_protocol(&mut u, value).is_ok();
            (u.into(), taken)
        },
        Err(_) => (href.to_owned(), false),
    }
}

/// What `quirks::set_username` with `value` makes of the URL written `href`: the
/// serialization afterwards, and whether the setter reported success.
pub uninterp spec fn url_set_username(href: Seq<char>, value: Seq<char>) -> (Seq<char>, bool);

/// The serialization of the URL written `href` after `quirks::set_username` with
/// `value`.
pub open spec fn url_with_username(href: Seq<char>, value: Seq<char>) -> Seq<char> {
    url_set_username(href, value).0
}

/// Calls `quirks::set_username` on the URL written `href` and hands back the new
/// serialization, and whether the setter reported success. The contract
/// names the result, and says that a setter that reports an error has left
/// the text as it was: in the crate's source every error is returned before
/// anything is written. Nothing is said of whether the new text parses to
/// itself. The URL and the value are within the limit, so that the crate
/// can count the bytes of what it writes.
#[verifier::external_body]
pub(crate) fn quirks_set_username(href: &str, value: &str) -> (r: (String, bool))
    requires
        is_url_text(href@),
        fits(href@, value@),
    ensures
        (r.0@, r.1) == url_set_username(href@, value@),
        !r.1 ==> r.0@ == href@,
{
    match Url::parse(href) {
        Ok(mut u) => {
            let taken = quirks::set_username(&mut u, value).is_ok();
            (u.into(), taken)
        },
        Err(_) => (href.to_owned(), false),
    }
}

/// What `quirks::set_password` with `value` makes of the URL written `href`: the
/// serialization afterwards, and whether the setter reported success.
pub uninterp spec fn url_set_password(href: Seq<char>, value: Seq<char>) -> (Seq<char>, bool);

/// The serialization of the URL written `href` after `quirks::set_password` with
/// `value`.
pub open spec fn url_with_password(href: Seq<char>, value: Seq<char>) -> Seq<char> {
    url_set_password(href, value).0
}

/// Calls `quirks::set_password` on the URL written `href` and hands back the new
/// serialization, and whether the setter reported success. The contract
/// names the result, and says that a setter that reports an error has left
/// the text as it was: in the crate's source every error is returned before
/// anything is written. Nothing is said of whether the new text parses to
/// itself. The URL and the value are within the limit, so that the crate
/// can count the bytes of what it writes.
#[verifier::external_body]
pub(crate) fn quirks_set_password(href: &str, value: &str) -> (r: (String, bool))
    requires
        is_url_text(href@),
        fits(href@, value@),
    ensures
        (r.0@, r.1) == url_set_password(href@, value@),
        !r.1 ==> r.0@ == href@,
{
    match Url::parse(href) {
        Ok(mut u) => {
            let taken = quirks::set_password(&mut u, value).is_ok();
            (u.into(), taken)
        },
        Err(_) => (href.to_owned(), false),
    }
}

/// What `quirks::set_host` with `value` makes of the URL written `href`: the
/// serialization afterwards, and whether the setter reported success.
pub uninterp spec fn url_set_host(href: Seq<char>, value: Seq<char>) -> (Seq<char>, bool);

/// The serialization of the URL written `href` after `quirks::set_host` with
/// `value`.
pub open spec fn url_with_host(href: Seq<char>, value: Seq<char>) -> Seq<char> {
    url_set_host(href, value).0
}

/// Calls `quirks::set_host` on the URL written `href` and hands back the new
/// serialization, and whether the setter reported success. The contract
/// names the result, and says that a setter that reports an error has left
/// the text as it was: in the crate's source every error is returned before
/// anything is written. Nothing is said of whether the new text parses to
/// itself. The URL and the value are within the limit, so that the crate
/// can count the bytes of what it writes.
#[verifier::external_body]
pub(crate) fn quirks_set_host(href: &str, value: &str) -> (r: (String, bool))
    requires
        is_url_text(href@),
        fits(href@, value@),
    ensures
        (r.0@, r.1) == url_set_host(href@, value@),
        !r.1 ==> r.0@ == href@,
{
    match Url::parse(href) {
        Ok(mut u) => {
            let taken = quirks::set_host(&mut u, value).is_ok();
            (u.into(), taken)
        },
        Err(_) => (href.to_owned(), false),
    }
}

/// What `quirks::set_hostname` with `value` makes of the URL written `href`: the
/// serialization afterwards, and whether the setter reported success.
pub uninterp spec fn url_set_hostname(href: Seq<char>, value: Seq<char>) -> (Seq<char>, bool);

/// The serialization of the URL written `href` after `quirks::set_hostname` with
/// `value`.
pub open spec fn url_with_hostname(href: Seq<char>, value: Seq<char>) -> Seq<char> {
    url_set_hostname(href, value).0
}

/// Calls `quirks::set_hostname` on the URL written `href` and hands back the new
/// serialization, and whether the setter reported success. The contract
/// names the result, and says that a setter that reports an error has left
/// the text as it was: in the crate's source every error is returned before
/// anything is written. Nothing is said of whether the new text parses to
/// itself. The URL and the value are within the limit, so that the crate
/// can count the bytes of what it writes.
#[verifier::external_body]
pub(crate) fn quirks_set_hostname(href: &str, value: &str) -> (r: (String, bool))
    requires
        is_url_text(href@),
        fits(href@, value@),
    ensures
        (r.0@, r.1) == url_set_hostname(href@, value@),
        !r.1 ==> r.0@ == href@,
{
    match Url::parse(href) {
        Ok(mut u) => {
            let taken = quirks::set_hostname(&mut u, value).is_ok();
            (u.into(), taken)
        },
        Err(_) => (href.to_owned(), false),
    }
}

/// What `quirks::set_port` with `value` makes of the URL written `href`: the
/// serialization afterwards, and whether the setter reported success.
pub uninterp spec fn url_set_port(href: Seq<char>, value: Seq<char>) -> (Seq<char>, bool);

/// The serialization of the URL written `href` after `quirks::set_port` with
/// `value`.
pub open spec fn url_with_port(href: Seq<char>, value: Seq<char>) -> Seq<char> {
    url_set_port(href, value).0
}

/// Calls `quirks::set_port` on the URL written `href` and hands back the new
/// serialization, and whether the setter reported success. The contract
/// names the result, and says that a setter that reports an error has left
/// the text as it was: in the crate's source every error is returned before
/// anything is written. Nothing is said of whether the new text parses to
/// itself. The URL and the value are within the limit, so that the crate
/// can count the bytes of what it writes.
#[verifier::external_body]
pub(crate) fn quirks_set_port(href: &str, value: &str) -> (r: (String, bool))
    requires
        is_url_text(href@),
        fits(href@, value@),
    ensures
        (r.0@, r.1) == url_set_port(href@, value@),
        !r.1 ==> r.0@ == href@,
{
    match Url::parse(href) {
        Ok(mut u) => {
            let taken = quirks::set_port(&mut u, value).is_ok();
            (u.into(), taken)
        },
        Err(_) => (href.to_owned(), false),
    }
}

/// The serialization of the URL written `href` after `quirks::set_pathname` with
/// `value`.
pub uninterp spec fn url_with_pathname(href: Seq<char>, value: Seq<char>) -> Seq<char>;

/// Calls `quirks::set_pathname` on the URL written `href` and hands back the new
/// serialization; the setter reports nothing. The contract names the result.
/// Nothing is said of whether the new text parses to itself. The URL and
/// the value are within the limit, so that the crate can count the bytes of
/// what it writes.
#[verifier::external_body]
pub(crate) fn quirks_set_pathname(href: &str, value: &str) -> (r: String)
    requires
        is_url_text(href@),
        fits(href@, value@),
    ensures
        r@ == url_with_pathname(href@, value@),
{
    match Url::parse(href) {
        Ok(mut u) => {
            quirks::set_pathname(&mut u, value);
            u.into()
        },
        Err(_) => href.to_owned(),
    }
}

/// The serialization of the URL written `href` after `quirks::set_search` with
/// `value`.
pub uninterp spec fn url_with_search(href: Seq<char>, value: Seq<char>) -> Seq<char>;

/// Calls `quirks::set_search` on the URL written `href` and hands back the new
/// serialization; the setter reports nothing. The contract names the result.
/// Nothing is said of whether the new text parses to itself. The URL and
/// the value are within the limit, so that the crate can count the bytes of
/// what it writes.
#[verifier::external_body]
pub(crate) fn quirks_set_search(href: &str, value: &str) -> (r: String)
    requires
        is_url_text(href@),
        fits(href@, value@),
    ensures
        r@ == url_with_search(href@, value@),
{
    match Url::parse(href) {
        Ok(mut u) => {
            quirks::set_search(&mut u, value);
            u.into()
        },
        Err(_) => href.to_owned(),
    }
}

/// The serialization of the URL written `href` after `quirks::set_hash` with
/// `value`.
pub uninterp spec fn url_with_hash(href: Seq<char>, value: Seq<char>) -> Seq<char>;

/// Calls `quirks::set_hash` on the URL written `href` and hands back the new
/// serialization; the setter reports nothing. The contract names the result.
/// Nothing is said of whether the new text parses to itself. The URL and
/// the value are within the limit, so that the crate can count the bytes of
/// what it writes.
#[verifier::external_body]
pub(crate) fn quirks_set_hash(href: &str, value: &str) -> (r: String)
    requires
        is_url_text(href@),
        fits(href@, value@),
    ensures
        r@ == url_with_hash(href@, value@),
{
    match Url::parse(href) {
        Ok(mut u) => {
            quirks::set_hash(&mut u, value);
            u.into()
        },
        Err(_) => href.to_owned(),
    }
}

/// What the form serializer writes for a text of ASCII letters and digits:
/// the text itself.
pub proof fn lemma_form_bytes_plain(text: Seq<char>)
    requires
        vstd::utf8::is_ascii_chars(text),
        forall|i: int| 0 <= i < text.len() ==> form_unchanged(#[trigger] text[i] as u8),
    ensures
        form_bytes(vstd::utf8::encode_utf8(text)) == text,
{
    vstd::utf8::is_ascii_chars_encode_utf8(text);
    let bytes = vstd::utf8::encode_utf8(text);
    assert forall|i: int| 0 <= i < text.len() implies #[trigger] bytes[i] == text[i] as u8 by {}
    lemma_form_bytes_of_plain(bytes, text);
}

/// The same, over the bytes.
proof fn lemma_form_bytes_of_plain(bytes: Seq<u8>, text: Seq<char>)
    requires
        bytes.len() == text.len(),
        vstd::utf8::is_ascii_chars(text),
        forall|i: int| 0 <= i < text.len() ==> #[trigger] bytes[i] == text[i] as u8,
        forall|i: int| 0 <= i < text.len() ==> form_unchanged(#[trigger] text[i] as u8),
    ensures
        form_bytes(bytes) == text,
    decreases bytes.len(),
{
    if bytes.len() > 0 {
        let n = bytes.len() - 1;
        let c = text[n];
        let rest = text.drop_last();
        assert forall|i: int| 0 <= i < rest.len() implies '\0' <= #[trigger] rest[i]
            <= '\u{7f}' by {
            assert(rest[i] == text[i]);
        }
        assert forall|i: int| 0 <= i < rest.len() implies #[trigger] bytes.drop_last()[i]
            == rest[i] as u8 by {
            assert(rest[i] == text[i]);
            assert(bytes.drop_last()[i] == bytes[i]);
        }
        assert forall|i: int| 0 <= i < rest.len() implies form_unchanged(
            #[trigger] rest[i] as u8,
        ) by {
            assert(rest[i] == text[i]);
        }
        lemma_form_bytes_of_plain(bytes.drop_last(), rest);
        vstd::utf8::is_ascii_chars_nat_bound(text);
        assert((c as nat) < 128);
        vstd::utf8::char_u32_cast(c, c as u32);
        assert(bytes[n] == c as u8);
        assert(form_unchanged(c as u8));
        assert(bytes[n] as char == c);
        assert(text =~= rest + seq![c]);
    } else {
        assert(text =~= Seq::<char>::empty());
    }
}

/// The serialized forms of three small lists: no pairs give the empty text,
/// the pair of `a` and `1` gives `a=1`, and a space is written as a plus
/// sign.
pub proof fn lemma_form_text_examples()
    ensures
        form_text(Seq::<Pair>::empty()) == Seq::<char>::empty(),
        form_text(seq![(seq!['a'], seq!['1'])]) == seq!['a', '=', '1'],
        form_text(seq![(seq!['a'], seq![' '])]) == seq!['a', '=', '+'],
{
    let a = seq!['a'];
    let one = seq!['1'];
    let space = seq![' '];
    assert(a[0] as u8 == 0x61 && one[0] as u8 == 0x31 && space[0] as u8 == 0x20);
    lemma_form_bytes_plain(a);
    lemma_form_bytes_plain(one);
    vstd::utf8::is_ascii_chars_encode_utf8(space);
    let bytes = vstd::utf8::encode_utf8(space);
    assert(bytes =~= seq![0x20u8]);
    assert(bytes.drop_last() =~= Seq::<u8>::empty());
    assert(form_bytes(bytes) =~= seq!['+']) by {
        reveal_with_fuel(form_bytes, 2);
    }
    assert(a + seq!['='] + one =~= seq!['a', '=', '1']);
    assert(a + seq!['='] + seq!['+'] =~= seq!['a', '=', '+']);
}

} // verus!
