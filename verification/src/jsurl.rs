//! URL objects with the getters and setters of the `URL` interface of web
//! browsers, and the parameter list of `URLSearchParams`: an ordered list of
//! name/value pairs, bound to a URL or standing alone.
//!
//! A URL is held as its serialization, with the fields that are read from
//! it kept beside it, so that a getter can lend a view. The `url` crate
//! parses the serialization anew for every change. A setter never fails: a
//! value that the grammar of its field rejects leaves the URL as it was.
//! What a setter makes of the text is parsed once more before it is kept,
//! so that the text of a URL always parses to itself. A value, a URL or a
//! bound list past the limits of [`crate::limits`] counts as rejected.
//!
//! A bound list belongs to a URL and keeps that URL's text: a change of the
//! list rewrites the URL's query. A list that stands alone keeps its own
//! serialization instead. Either way the text is brought up to date at the
//! end of every operation that changes the list.
use crate::marshal::{CVec, JSSearchParam, SpecSlice, SpecString};
use crate::outside::{
    form_pairs, form_text, is_url_text, join_url, parse_pairs, parse_url, query_bytes, query_of,
    query_pairs_of, query_text, quirks_hash, quirks_host, quirks_hostname, quirks_origin,
    quirks_password, quirks_pathname, quirks_port, quirks_protocol, quirks_search,
    quirks_set_hash, quirks_set_host, quirks_set_hostname, quirks_set_href, quirks_set_password,
    quirks_set_pathname, quirks_set_port, quirks_set_protocol, quirks_set_search,
    quirks_set_username, quirks_username, same_but_query, serialize_pairs, set_query_pairs,
    settled, url_hash, url_host, url_hostname, url_join, url_origin, url_parse, url_password,
    url_pathname, url_port, url_protocol, url_query, url_search, url_set_host, url_set_hostname,
    url_set_href, url_set_password, url_set_port, url_set_protocol, url_set_username,
    url_username, url_with_hash, url_with_host, url_with_hostname, url_with_href, url_with_pairs,
    url_with_password, url_with_pathname, url_with_port, url_with_protocol, url_with_search,
    url_with_username,
};
use crate::limits::{
    blob_marks, blob_marks_fit, byte_len, fits, pairs_fit, pairs_weight, text_fits, BLOB_LIMIT,
    TEXT_LIMIT,
};
use crate::pairs::{
    after_set, find_first, first_named, has_name, lemma_first_named, lemma_prefix_step,
    lemma_values_named_none, remove_named_from, values_named, view_pairs, without_name, Pair,
};
use crate::sorting::{is_sorted_form, sort_by_name, sorted_form};
use vstd::prelude::*;
use vstd::string::StringExecFns;
use vstd::utf8::encode_utf8;

verus! {

/// A URL as plain values: its serialization, and beside it the fields that
/// are read from it, each as the `url` crate gives it for that
/// serialization.
pub(crate) struct UrlRecord {
    pub(crate) href: String,
    pub(crate) query: Option<String>,
    pub(crate) hash: String,
    pub(crate) host: String,
    pub(crate) hostname: String,
    pub(crate) password: String,
    pub(crate) pathname: String,
    pub(crate) port: String,
    pub(crate) protocol: String,
    pub(crate) search: String,
    pub(crate) username: String,
}

impl UrlRecord {
    /// The serialization of the URL.
    pub closed spec fn href_text(&self) -> Seq<char> {
        self.href@
    }

    /// The serialization is that of a URL, and every field is that URL's.
    pub closed spec fn wf(&self) -> bool {
        &&& is_url_text(self.href@)
        &&& self.query is Some == url_query(self.href@) is Some
        &&& self.query matches Some(q) ==> url_query(self.href@) == Some(q@)
        &&& self.hash@ == url_hash(self.href@)
        &&& self.host@ == url_host(self.href@)
        &&& self.hostname@ == url_hostname(self.href@)
        &&& self.password@ == url_password(self.href@)
        &&& self.pathname@ == url_pathname(self.href@)
        &&& self.port@ == url_port(self.href@)
        &&& self.protocol@ == url_protocol(self.href@)
        &&& self.search@ == url_search(self.href@)
        &&& self.username@ == url_username(self.href@)
    }

    /// The record of the URL written `href`.
    pub(crate) fn of_href(href: String) -> (r: UrlRecord)
        requires
            is_url_text(href@),
        ensures
            r.wf(),
            r.href_text() == href@,
    {
        let query = query_of(href.as_str());
        let hash = quirks_hash(href.as_str());
        let host = quirks_host(href.as_str());
        let hostname = quirks_hostname(href.as_str());
        let password = quirks_password(href.as_str());
        let pathname = quirks_pathname(href.as_str());
        let port = quirks_port(href.as_str());
        let protocol = quirks_protocol(href.as_str());
        let search = quirks_search(href.as_str());
        let username = quirks_username(href.as_str());
        UrlRecord {
            href,
            query,
            hash,
            host,
            hostname,
            password,
            pathname,
            port,
            protocol,
            search,
            username,
        }
    }
}

/// What a list is tied to: the URL that owns it, or its own serialization.
pub(crate) enum UrlOrString {
    Url(UrlRecord),
    Str(String),
}

/// An ordered list of name/value pairs with the operations of
/// `URLSearchParams`.
pub struct JSUrlSearchParams {
    pub(crate) list: Vec<(String, String)>,
    pub(crate) url_or_str: UrlOrString,
}

impl JSUrlSearchParams {
    /// The pairs of the list, in order.
    pub closed spec fn pairs(&self) -> Seq<Pair> {
        view_pairs(self.list@)
    }

    /// Whether the list is bound to a URL. A list is bound or stands alone
    /// from its making on, and no operation changes that.
    pub closed spec fn is_bound(&self) -> bool {
        self.url_or_str is Url
    }

    /// The serialization of the URL that a bound list belongs to.
    pub closed spec fn owner_href(&self) -> Seq<char> {
        match self.url_or_str {
            UrlOrString::Url(rec) => rec.href_text(),
            UrlOrString::Str(_) => Seq::empty(),
        }
    }

    /// The serialized form of the list: for a bound list the query of its
    /// URL as it is now, else the text kept since the last change.
    pub closed spec fn text(&self) -> Seq<char> {
        match self.url_or_str {
            UrlOrString::Url(rec) => query_text(rec.href_text()),
            UrlOrString::Str(s) => s@,
        }
    }

    /// A bound list holds a well-formed URL; a list that stands alone holds
    /// the serialization of its pairs.
    pub closed spec fn wf(&self) -> bool {
        match self.url_or_str {
            UrlOrString::Url(rec) => rec.wf(),
            UrlOrString::Str(s) => s@ == form_text(self.pairs()),
        }
    }

    /// Whether `self` is `before` with its text brought up to date: the
    /// binding is the same, the query of the URL of a bound list has been
    /// replaced by the serialization of the pairs while every other field
    /// of that URL reads as before, and the serialized form is that of the
    /// pairs.
    pub open spec fn resynced(&self, before: &JSUrlSearchParams) -> bool {
        &&& self.wf()
        &&& self.is_bound() == before.is_bound()
        &&& self.is_bound() ==> self.owner_href() == url_with_pairs(
            before.owner_href(),
            self.pairs(),
        )
        &&& self.is_bound() ==> same_but_query(before.owner_href(), self.owner_href())
        &&& self.text() == form_text(self.pairs())
    }

    /// Whether the list can take `pairs` for its own: always where it
    /// stands alone; where it is bound, as long as its URL and `pairs` are
    /// within the limit up to which the query of a URL is rewritten.
    pub open spec fn can_hold(&self, pairs: Seq<Pair>) -> bool {
        self.is_bound() ==> byte_len(self.owner_href()) <= TEXT_LIMIT && pairs_weight(pairs)
            <= TEXT_LIMIT
    }

    /// Whether `self` is `before` after a change that was turned down: the
    /// URL of the bound list is as it was, and the list has been read anew
    /// from its query.
    pub open spec fn reverted(&self, before: &JSUrlSearchParams) -> bool {
        &&& self.wf()
        &&& self.is_bound()
        &&& before.is_bound()
        &&& self.owner_href() == before.owner_href()
        &&& self.pairs() == form_pairs(query_bytes(self.owner_href()))
    }

    /// Whether `self` is `before` after an operation that makes `pairs` of
    /// the list: the list holds `pairs` and its text is up to date; or,
    /// where `before` cannot hold `pairs`, the change was turned down.
    pub open spec fn holds_after(&self, before: &JSUrlSearchParams, pairs: Seq<Pair>) -> bool {
        if before.can_hold(pairs) {
            self.pairs() == pairs && self.resynced(before)
        } else {
            self.reverted(before)
        }
    }

    /// After a change of a bound list, the query of its URL is the
    /// serialization of the list, and `search` reads it after a question
    /// mark.
    pub proof fn lemma_bound_resynced(&self, before: &JSUrlSearchParams)
        requires
            self.resynced(before),
            self.is_bound(),
        ensures
            query_text(self.owner_href()) == form_text(self.pairs()),
            url_search(self.owner_href()) == if form_text(self.pairs()).len() > 0 {
                seq!['?'] + form_text(self.pairs())
            } else {
                Seq::empty()
            },
    {
    }

    /// What `wf` says of the serialized form.
    pub proof fn lemma_text(&self)
        requires
            self.wf(),
        ensures
            self.is_bound() ==> self.text() == query_text(self.owner_href()) && is_url_text(
                self.owner_href(),
            ),
            !self.is_bound() ==> self.text() == form_text(self.pairs()),
    {
    }

    /// Brings the text up to date after a change of the list: rewrites the
    /// query of the owning URL, or serializes the pairs anew. Where the URL
    /// or the list of a bound list is past the limit, the URL stays as it
    /// is and the list is read anew from its query.
    pub(crate) fn update_url_or_str(&mut self)
        requires
            old(self).wf() || !old(self).is_bound(),
        ensures
            final(self).holds_after(old(self), old(self).pairs()),
    {
        let turned_down = match &self.url_or_str {
            UrlOrString::Url(rec) => if text_fits(rec.href.as_str()) && pairs_fit(&self.list) {
                None
            } else {
                Some(query_pairs_of(rec.href.as_str()))
            },
            UrlOrString::Str(_) => None,
        };
        match turned_down {
            Some(list) => {
                self.list = list;
            },
            None => {
                let next = match &self.url_or_str {
                    UrlOrString::Url(rec) => {
                        let href = set_query_pairs(rec.href.as_str(), &self.list);
                        UrlOrString::Url(UrlRecord::of_href(href))
                    },
                    UrlOrString::Str(_) => UrlOrString::Str(serialize_pairs(&self.list)),
                };
                self.url_or_str = next;
            },
        }
    }
}

/// A new, empty list that stands alone. Its serialized form is the empty
/// text.
pub fn new_params() -> (r: JSUrlSearchParams)
    ensures
        r.wf(),
        !r.is_bound(),
        r.pairs() == Seq::<Pair>::empty(),
        r.text() == Seq::<char>::empty(),
{
    let list: Vec<(String, String)> = Vec::new();
    let text = serialize_pairs(&list);
    let r = JSUrlSearchParams { list, url_or_str: UrlOrString::Str(text) };
    assert(r.pairs() =~= Seq::<Pair>::empty());
    r
}

/// The bytes of `raw` after one leading question mark, if it has one.
pub open spec fn strip_question(raw: Seq<u8>) -> Seq<u8> {
    if raw.len() > 0 && raw[0] == 0x3f {
        raw.skip(1)
    } else {
        raw
    }
}

/// One leading question mark makes no difference to `params_init`: a text
/// that begins with none is read the same with one put before it.
pub proof fn lemma_strip_question(raw: Seq<u8>)
    requires
        raw.len() == 0 || raw[0] != 0x3f,
    ensures
        strip_question(seq![0x3fu8] + raw) == strip_question(raw),
{
    assert((seq![0x3fu8] + raw).skip(1) =~= raw);
}

/// Replaces the list by the pairs read from `init` in
/// `application/x-www-form-urlencoded` syntax, after one leading question
/// mark if there is one.
/// A bound list whose URL or whose new pairs are past the limit is read anew
/// from the query of its URL instead.
pub fn params_init(params: &mut JSUrlSearchParams, init: &SpecString)
    requires
        old(params).wf(),
    ensures
        final(params).holds_after(old(params), form_pairs(strip_question(init.bytes()))),
{
    let raw = init.as_bytes();
    let body = if raw.len() > 0 && raw[0] == 0x3f {
        let parts = raw.split_at(1);
        assert(parts.1@ == raw@.skip(1));
        parts.1
    } else {
        raw
    };
    params.list = parse_pairs(body);
    params.update_url_or_str();
}

/// Puts the pair `(name, value)` at the end of the list. Where `name` or
/// `value` is not text, nothing changes.
/// A bound list that is past the limit with the new pair is read anew from
/// the query of its URL instead.
pub fn params_append(params: &mut JSUrlSearchParams, name: SpecString, value: SpecString)
    requires
        old(params).wf(),
    ensures
        name.is_utf8() && value.is_utf8() ==> final(params).holds_after(
            old(params),
            old(params).pairs().push((name.text(), value.text())),
        ),
        !(name.is_utf8() && value.is_utf8()) ==> *final(params) == *old(params),
{
    if let Some(n) = name.into_string() {
        if let Some(v) = value.into_string() {
            params.list.push((n, v));
            assert(params.pairs() =~= old(params).pairs().push((name.text(), value.text())));
            params.update_url_or_str();
        }
    }
}

/// Removes every pair whose name is exactly `name`; the others keep their
/// order. Where `name` is not text, no pair has it, and nothing changes.
/// A bound list that is past the limit is read anew from the query of its
/// URL instead.
pub fn params_delete(params: &mut JSUrlSearchParams, name: &SpecString)
    requires
        old(params).wf(),
    ensures
        name.is_utf8() ==> final(params).holds_after(
            old(params),
            without_name(old(params).pairs(), name.text()),
        ),
        !name.is_utf8() ==> *final(params) == *old(params),
{
    if let Some(n) = name.as_str() {
        let key = n.to_owned();
        remove_named_from(&mut params.list, &key, 0);
        proof {
            let s = old(params).pairs();
            assert(s.skip(0) == s);
            assert(s.take(0) + without_name(s, key@) == without_name(s, key@));
        }
        params.update_url_or_str();
    }
}

/// Whether some pair of the list has the name `name`.
pub fn params_has(params: &JSUrlSearchParams, name: &SpecString) -> (r: bool)
    ensures
        r == (name.is_utf8() && has_name(params.pairs(), name.text())),
{
    match name.as_str() {
        Some(n) => {
            let key = n.to_owned();
            find_first(&params.list, &key).is_some()
        },
        None => false,
    }
}

/// A view of the value of the first pair called `name`; the null view where
/// no pair has the name. The view of a value is never null, also where the
/// value is empty.
pub fn params_get<'a>(params: &'a JSUrlSearchParams, name: &SpecString) -> (r: SpecSlice<'a>)
    ensures
        name.is_utf8() && has_name(params.pairs(), name.text()) ==> !r.is_null() && r.bytes()
            == encode_utf8(params.pairs()[first_named(params.pairs(), name.text())].1),
        !(name.is_utf8() && has_name(params.pairs(), name.text())) ==> r.is_null(),
{
    match name.as_str() {
        Some(n) => {
            let key = n.to_owned();
            match find_first(&params.list, &key) {
                Some(i) => SpecSlice::new(Some(params.list[i].1.as_str().as_bytes())),
                None => SpecSlice::new(None),
            }
        },
        None => SpecSlice::new(None),
    }
}

/// Shows the pair at `index` in `param_out` and marks it as not done; past
/// the end of the list, marks it as done and leaves the rest as it is.
pub fn params_at<'a>(
    params: &'a JSUrlSearchParams,
    index: usize,
    param_out: &mut JSSearchParam<'a>,
)
    ensures
        index < params.pairs().len() ==> !final(param_out).done && final(param_out).name.shows(
            params.pairs()[index as int].0,
        ) && final(param_out).value.shows(params.pairs()[index as int].1),
        index >= params.pairs().len() ==> final(param_out).done && final(param_out).name == old(
            param_out,
        ).name && final(param_out).value == old(param_out).value,
{
    if index < params.list.len() {
        param_out.done = false;
        param_out.name = SpecSlice::from(params.list[index].0.as_str());
        param_out.value = SpecSlice::from(params.list[index].1.as_str());
    } else {
        param_out.done = true;
    }
}

/// Whether `views` shows the texts of `values`, one for one.
pub open spec fn show_all(views: Seq<SpecSlice<'_>>, values: Seq<Seq<char>>) -> bool {
    &&& views.len() == values.len()
    &&& forall|i: int| 0 <= i < views.len() ==> (#[trigger] views[i]).shows(values[i])
}

/// Views of the values of all pairs called `name`, in list order, in a
/// sequence that the caller owns. It is empty where no pair has the name.
pub fn params_get_all<'a>(params: &'a JSUrlSearchParams, name: &SpecString) -> (r: CVec<
    SpecSlice<'a>,
>)
    ensures
        name.is_utf8() ==> show_all(r.view(), values_named(params.pairs(), name.text())),
        !(name.is_utf8() && has_name(params.pairs(), name.text())) ==> r.view().len() == 0,
{
    let mut values: Vec<SpecSlice<'a>> = Vec::new();
    if let Some(n) = name.as_str() {
        let key = n.to_owned();
        let ghost s = params.pairs();
        let mut i: usize = 0;
        assert(s.take(0) == Seq::<Pair>::empty());
        while i < params.list.len()
            invariant
                i <= params.list.len(),
                s == params.pairs(),
                s.len() == params.list.len(),
                key@ == name.text(),
                show_all(values@, values_named(s.take(i as int), key@)),
            decreases params.list.len() - i,
        {
            proof {
                lemma_prefix_step(s, key@, i as int);
            }
            if params.list[i].0 == key {
                values.push(SpecSlice::from(params.list[i].1.as_str()));
            }
            i += 1;
        }
        proof {
            assert(s.take(i as int) == s);
            if !has_name(s, key@) {
                lemma_values_named_none(s, key@);
            }
        }
    }
    CVec::from_vec(values)
}

/// Gives `name` the one value `value`: the first pair called `name` takes
/// the value and keeps its place, the later pairs of that name leave, and a
/// new pair goes to the end where there was none. Where `name` or `value` is
/// not text, nothing changes.
/// A bound list that is past the limit with the new value is read anew from
/// the query of its URL instead.
pub fn params_set(params: &mut JSUrlSearchParams, name: SpecString, value: SpecString)
    requires
        old(params).wf(),
    ensures
        name.is_utf8() && value.is_utf8() ==> final(params).holds_after(
            old(params),
            after_set(old(params).pairs(), name.text(), value.text()),
        ),
        !(name.is_utf8() && value.is_utf8()) ==> *final(params) == *old(params),
{
    if let Some(n) = name.into_string() {
        if let Some(v) = value.into_string() {
            let ghost s = old(params).pairs();
            proof {
                lemma_first_named(s, n@);
            }
            match find_first(&params.list, &n) {
                Some(i) => {
                    remove_named_from(&mut params.list, &n, i + 1);
                    let ghost mid = params.pairs();
                    assert(mid.len() == s.take(i + 1).len() + without_name(
                        s.skip(i + 1),
                        n@,
                    ).len());
                    let key = n.clone();
                    params.list.set(i, (n, v));
                    assert(params.pairs() =~= mid.update(i as int, (key@, v@)));
                    assert(mid.update(i as int, (key@, v@)) =~= s.take(i as int).push(
                        (key@, v@),
                    ) + without_name(s.skip(i + 1), key@));
                },
                None => {
                    params.list.push((n, v));
                    assert(params.pairs() =~= s.push((name.text(), value.text())));
                },
            }
            params.update_url_or_str();
        }
    }
}

/// Sorts the list by name, in the order of the names' UTF-16 code units.
/// Pairs of one name keep their order: under every name the list gives the
/// values that it gave before, and there is one such list. A bound list
/// past the limit is read anew from the query of its URL instead.
pub fn params_sort(params: &mut JSUrlSearchParams)
    requires
        old(params).wf(),
    ensures
        is_sorted_form(sorted_form(old(params).pairs()), old(params).pairs()),
        final(params).holds_after(old(params), sorted_form(old(params).pairs())),
{
    sort_by_name(&mut params.list);
    params.update_url_or_str();
}

/// A view of the serialized form of the list: the query of the owning URL as
/// it is now, or the text kept since the last change.
pub fn params_to_string<'a>(params: &'a JSUrlSearchParams) -> (r: SpecSlice<'a>)
    requires
        params.wf(),
    ensures
        r.shows(params.text()),
{
    match &params.url_or_str {
        UrlOrString::Url(rec) => match &rec.query {
            Some(query) => SpecSlice::from(query.as_str()),
            None => {
                proof {
                    reveal_strlit("");
                    assert(""@ =~= Seq::<char>::empty());
                }
                SpecSlice::from("")
            },
        },
        UrlOrString::Str(text) => SpecSlice::from(text.as_str()),
    }
}

/// A parsed URL, with the parameter list of its query once that has been
/// asked for.
///
/// The URL keeps its text inside its parameter list, so that whoever holds
/// the list can rewrite the query of the URL through it. The list itself
/// stays unread until `url_search_params` is called for the first time.
pub struct JSUrl {
    pub(crate) params: JSUrlSearchParams,
    pub(crate) listed: bool,
    pub(crate) noop: bool,
}

impl JSUrl {
    /// The serialization of the URL.
    pub closed spec fn href_text(&self) -> Seq<char> {
        self.params.owner_href()
    }

    /// Whether the parameter list of the URL has been made.
    pub closed spec fn has_params(&self) -> bool {
        self.listed
    }

    /// The parameter list of the URL, once it has been made.
    pub closed spec fn params_view(&self) -> JSUrlSearchParams {
        self.params
    }

    /// The pairs of the parameter list of the URL, once it has been made.
    pub open spec fn params_list(&self) -> Seq<Pair> {
        self.params_view().pairs()
    }

    /// Whether the last setter called on the URL left its serialization as
    /// it was: the value was rejected, or it changed nothing.
    pub closed spec fn was_noop(&self) -> bool {
        self.noop
    }

    /// The text is the serialization of a URL, and the list is bound.
    pub closed spec fn wf(&self) -> bool {
        self.params.wf() && self.params.is_bound()
    }

    /// What `wf` says in terms of the parameter list.
    pub proof fn lemma_wf(&self)
        ensures
            self.wf() == (self.params_view().wf() && self.params_view().is_bound()),
            self.href_text() == self.params_view().owner_href(),
    {
    }

    /// Parsing the serialization of a URL gives that same URL again: its
    /// serialization, and with it every field, is the same.
    pub proof fn lemma_round_trip(&self)
        requires
            self.wf(),
        ensures
            url_parse(self.href_text()) == Some(self.href_text()),
            settled(self.href_text(), self.href_text()) == self.href_text(),
    {
    }

    /// A URL without a parameter list, from its serialization.
    fn of_href(href: String) -> (r: JSUrl)
        requires
            is_url_text(href@),
        ensures
            r.wf(),
            !r.has_params(),
            !r.was_noop(),
            r.href_text() == href@,
    {
        JSUrl {
            params: JSUrlSearchParams {
                list: Vec::new(),
                url_or_str: UrlOrString::Url(UrlRecord::of_href(href)),
            },
            listed: false,
            noop: false,
        }
    }

    /// The serialization of the URL.
    fn href_str(&self) -> (r: &str)
        requires
            self.wf(),
        ensures
            r@ == self.href_text(),
    {
        match &self.params.url_or_str {
            UrlOrString::Url(rec) => rec.href.as_str(),
            UrlOrString::Str(text) => text.as_str(),
        }
    }

    /// Takes the text that a setter has made of the URL: the URL becomes
    /// what that text parses to, and stays as it was where the text does
    /// not parse. The list is left alone.
    fn put_href(&mut self, candidate: String)
        requires
            old(self).wf(),
        ensures
            final(self).wf(),
            final(self).href_text() == settled(old(self).href_text(), candidate@),
            final(self).was_noop() == (final(self).href_text() == old(self).href_text()),
            final(self).has_params() == old(self).has_params(),
            final(self).params_list() == old(self).params_list(),
    {
        match parse_url(candidate.as_str()) {
            Some(href) => {
                let same = match &self.params.url_or_str {
                    UrlOrString::Url(rec) => rec.href == href,
                    UrlOrString::Str(_) => false,
                };
                self.params.url_or_str = UrlOrString::Url(UrlRecord::of_href(href));
                self.noop = same;
            },
            None => {
                self.noop = true;
            },
        }
    }

    /// Reads the list anew from the query of the URL, where the list has
    /// been made; what the list held before is gone.
    fn update_params(&mut self)
        requires
            old(self).wf(),
        ensures
            final(self).wf(),
            final(self).href_text() == old(self).href_text(),
            final(self).was_noop() == old(self).was_noop(),
            final(self).has_params() == old(self).has_params(),
            final(self).has_params() ==> final(self).params_list() == form_pairs(
                query_bytes(final(self).href_text()),
            ),
    {
        if self.listed {
            let list = query_pairs_of(self.href_str());
            self.params.list = list;
        }
    }
}

/// Parses `spec` as an absolute URL. There is no URL where `spec` is not text
/// or the parser rejects it.
pub fn new_jsurl(spec: &SpecString) -> (r: Option<JSUrl>)
    ensures
        r is Some == (spec.is_utf8() && url_parse(spec.text()) is Some),
        r matches Some(url) ==> url.wf() && !url.has_params() && url_parse(spec.text()) == Some(
            url.href_text(),
        ),
{
    match spec.as_str() {
        Some(text) => match parse_url(text) {
            Some(href) => Some(JSUrl::of_href(href)),
            None => None,
        },
        None => None,
    }
}

/// Parses `spec` as a URL relative to `base`, as `base` is now. There is no
/// URL where `spec` is not text or the parser rejects it.
pub fn new_jsurl_with_base(spec: &SpecString, base: &JSUrl) -> (r: Option<JSUrl>)
    requires
        base.wf(),
    ensures
        r is Some == (spec.is_utf8() && url_join(base.href_text(), spec.text()) is Some),
        r matches Some(url) ==> url.wf() && !url.has_params() && url_join(
            base.href_text(),
            spec.text(),
        ) == Some(url.href_text()),
{
    match spec.as_str() {
        Some(text) => match join_url(base.href_str(), text) {
            Some(href) => Some(JSUrl::of_href(href)),
            None => None,
        },
        None => None,
    }
}

/// Whether the last setter called on `url` left its serialization as it
/// was. It is `false` for a URL on which no setter has been called.
pub fn last_set_was_noop(url: &JSUrl) -> (r: bool)
    ensures
        r == url.was_noop(),
{
    url.noop
}

/// A view of the serialization of the URL.
pub fn href<'a>(url: &'a JSUrl) -> (r: SpecSlice<'a>)
    requires
        url.wf(),
    ensures
        r.shows(url.href_text()),
{
    SpecSlice::from(url.href_str())
}

/// The text of an origin that is opaque.
pub open spec fn opaque_origin() -> Seq<char> {
    "null"@
}

/// The `origin` of the URL, in its ASCII form, as a string of its own. A
/// URL in which `blob:` stands at more than `BLOB_LIMIT` places has the
/// opaque origin.
pub fn origin(url: &JSUrl) -> (r: SpecString)
    requires
        url.wf(),
    ensures
        r.is_utf8(),
        r.text() == if blob_marks(url.href_text()) <= BLOB_LIMIT {
            url_origin(url.href_text())
        } else {
            opaque_origin()
        },
{
    if blob_marks_fit(url.href_str()) {
        SpecString::from(quirks_origin(url.href_str()))
    } else {
        SpecString::from(String::from_str("null"))
    }
}

/// A view of the `hash` of the URL: the fragment after a number sign, or the
/// empty text where the fragment is missing or empty. The view is good until
/// the URL is changed.
pub fn hash<'a>(url: &'a JSUrl) -> (r: SpecSlice<'a>)
    requires
        url.wf(),
    ensures
        r.shows(url_hash(url.href_text())),
{
    match &url.params.url_or_str {
        UrlOrString::Url(rec) => SpecSlice::from(rec.hash.as_str()),
        UrlOrString::Str(_) => SpecSlice::new(None),
    }
}

/// A view of the `host` of the URL: the host, with the port where the URL has
/// one. The view is good until the URL is changed.
pub fn host<'a>(url: &'a JSUrl) -> (r: SpecSlice<'a>)
    requires
        url.wf(),
    ensures
        r.shows(url_host(url.href_text())),
{
    match &url.params.url_or_str {
        UrlOrString::Url(rec) => SpecSlice::from(rec.host.as_str()),
        UrlOrString::Str(_) => SpecSlice::new(None),
    }
}

/// A view of the `hostname` of the URL: the host, without a port. The view is
/// good until the URL is changed.
pub fn hostname<'a>(url: &'a JSUrl) -> (r: SpecSlice<'a>)
    requires
        url.wf(),
    ensures
        r.shows(url_hostname(url.href_text())),
{
    match &url.params.url_or_str {
        UrlOrString::Url(rec) => SpecSlice::from(rec.hostname.as_str()),
        UrlOrString::Str(_) => SpecSlice::new(None),
    }
}

/// A view of the `password` of the URL: the password, or the empty text. The
/// view is good until the URL is changed.
pub fn password<'a>(url: &'a JSUrl) -> (r: SpecSlice<'a>)
    requires
        url.wf(),
    ensures
        r.shows(url_password(url.href_text())),
{
    match &url.params.url_or_str {
        UrlOrString::Url(rec) => SpecSlice::from(rec.password.as_str()),
        UrlOrString::Str(_) => SpecSlice::new(None),
    }
}

/// A view of the `pathname` of the URL: the path. The view is good until the
/// URL is changed.
pub fn pathname<'a>(url: &'a JSUrl) -> (r: SpecSlice<'a>)
    requires
        url.wf(),
    ensures
        r.shows(url_pathname(url.href_text())),
{
    match &url.params.url_or_str {
        UrlOrString::Url(rec) => SpecSlice::from(rec.pathname.as_str()),
        UrlOrString::Str(_) => SpecSlice::new(None),
    }
}

/// A view of the `port` of the URL: the port in decimal, or the empty text.
/// The view is good until the URL is changed.
pub fn port<'a>(url: &'a JSUrl) -> (r: SpecSlice<'a>)
    requires
        url.wf(),
    ensures
        r.shows(url_port(url.href_text())),
{
    match &url.params.url_or_str {
        UrlOrString::Url(rec) => SpecSlice::from(rec.port.as_str()),
        UrlOrString::Str(_) => SpecSlice::new(None),
    }
}

/// A view of the `protocol` of the URL: the scheme, followed by a colon. The
/// view is good until the URL is changed.
pub fn protocol<'a>(url: &'a JSUrl) -> (r: SpecSlice<'a>)
    requires
        url.wf(),
    ensures
        r.shows(url_protocol(url.href_text())),
{
    match &url.params.url_or_str {
        UrlOrString::Url(rec) => SpecSlice::from(rec.protocol.as_str()),
        UrlOrString::Str(_) => SpecSlice::new(None),
    }
}

/// A view of the `search` of the URL: the query after a question mark, or the
/// empty text where the query is missing or empty. The view is good until the
/// URL is changed.
pub fn search<'a>(url: &'a JSUrl) -> (r: SpecSlice<'a>)
    requires
        url.wf(),
    ensures
        r.shows(url_search(url.href_text())),
{
    match &url.params.url_or_str {
        UrlOrString::Url(rec) => SpecSlice::from(rec.search.as_str()),
        UrlOrString::Str(_) => SpecSlice::new(None),
    }
}

/// A view of the `username` of the URL: the user name. The view is good until
/// the URL is changed.
pub fn username<'a>(url: &'a JSUrl) -> (r: SpecSlice<'a>)
    requires
        url.wf(),
    ensures
        r.shows(url_username(url.href_text())),
{
    match &url.params.url_or_str {
        UrlOrString::Url(rec) => SpecSlice::from(rec.username.as_str()),
        UrlOrString::Str(_) => SpecSlice::new(None),
    }
}

/// Sets the fragment of the URL from `hash`. A value that the grammar rejects,
/// or that is not text, leaves the URL as it was; `last_set_was_noop` tells
/// afterwards whether the serialization is still the same. The parameter list
/// stays as it is.
/// A value of more than `TEXT_LIMIT` bytes, or any value for a URL of more
/// than that, counts as rejected.
pub fn set_hash(url: &mut JSUrl, hash: &SpecString)
    requires
        old(url).wf(),
    ensures
        final(url).wf(),
        final(url).has_params() == old(url).has_params(),
        hash.is_utf8() && fits(old(url).href_text(), hash.text()) ==> final(url).href_text()
            == settled(
            old(url).href_text(),
            url_with_hash(old(url).href_text(), hash.text()),
        ),
        !(hash.is_utf8() && fits(old(url).href_text(), hash.text())) ==> final(url).href_text()
            == old(url).href_text() && final(url).params_view() == old(url).params_view(),
        final(url).was_noop() == (final(url).href_text() == old(url).href_text()),
        final(url).params_list() == old(url).params_list(),
{
    match hash.as_str() {
        Some(value) => {
            if text_fits(url.href_str()) && text_fits(value) {
                let next = quirks_set_hash(url.href_str(), value);
                url.put_href(next);
            } else {
                url.noop = true;
            }
        },
        None => {
            url.noop = true;
        },
    }
}

/// Sets the host, and the port where `host` names one of the URL from `host`.
/// A value that the grammar rejects, or that is not text, leaves the URL as it
/// was; `last_set_was_noop` tells afterwards whether the serialization is
/// still the same. The parameter list stays as it is.
/// A value of more than `TEXT_LIMIT` bytes, or any value for a URL of more
/// than that, counts as rejected.
pub fn set_host(url: &mut JSUrl, host: &SpecString)
    requires
        old(url).wf(),
    ensures
        final(url).wf(),
        final(url).has_params() == old(url).has_params(),
        host.is_utf8() && fits(old(url).href_text(), host.text()) ==> final(url).href_text()
            == settled(
            old(url).href_text(),
            url_with_host(old(url).href_text(), host.text()),
        ),
        host.is_utf8() && !url_set_host(old(url).href_text(), host.text()).1 ==>
            final(url).href_text() == old(url).href_text(),
        !(host.is_utf8() && fits(old(url).href_text(), host.text())) ==> final(url).href_text()
            == old(url).href_text() && final(url).params_view() == old(url).params_view(),
        final(url).was_noop() == (final(url).href_text() == old(url).href_text()),
        final(url).params_list() == old(url).params_list(),
{
    match host.as_str() {
        Some(value) => {
            if text_fits(url.href_str()) && text_fits(value) {
                let (next, taken) = quirks_set_host(url.href_str(), value);
                if taken {
                    url.put_href(next);
                } else {
                    url.noop = true;
                }
            } else {
                url.noop = true;
            }
        },
        None => {
            url.noop = true;
        },
    }
}

/// Sets the host of the URL from `hostname`. A value that the grammar rejects,
/// or that is not text, leaves the URL as it was; `last_set_was_noop` tells
/// afterwards whether the serialization is still the same. The parameter list
/// stays as it is.
/// A value of more than `TEXT_LIMIT` bytes, or any value for a URL of more
/// than that, counts as rejected.
pub fn set_hostname(url: &mut JSUrl, hostname: &SpecString)
    requires
        old(url).wf(),
    ensures
        final(url).wf(),
        final(url).has_params() == old(url).has_params(),
        hostname.is_utf8() && fits(old(url).href_text(), hostname.text()) ==> final(url).href_text()
            == settled(
            old(url).href_text(),
            url_with_hostname(old(url).href_text(), hostname.text()),
        ),
        hostname.is_utf8() && !url_set_hostname(old(url).href_text(), hostname.text()).1 ==>
            final(url).href_text() == old(url).href_text(),
        !(hostname.is_utf8() && fits(old(url).href_text(), hostname.text())) ==> final(url).href_text()
            == old(url).href_text() && final(url).params_view() == old(url).params_view(),
        final(url).was_noop() == (final(url).href_text() == old(url).href_text()),
        final(url).params_list() == old(url).params_list(),
{
    match hostname.as_str() {
        Some(value) => {
            if text_fits(url.href_str()) && text_fits(value) {
                let (next, taken) = quirks_set_hostname(url.href_str(), value);
                if taken {
                    url.put_href(next);
                } else {
                    url.noop = true;
                }
            } else {
                url.noop = true;
            }
        },
        None => {
            url.noop = true;
        },
    }
}

/// Sets the whole URL of the URL from `href`. A value that the grammar
/// rejects, or that is not text, leaves the URL as it was; `last_set_was_noop`
/// tells afterwards whether the serialization is still the same. Where the URL
/// has a parameter list, the list is then read anew from the query, and what
/// it held is gone.
pub fn set_href(url: &mut JSUrl, href: &SpecString)
    requires
        old(url).wf(),
    ensures
        final(url).wf(),
        final(url).has_params() == old(url).has_params(),
        href.is_utf8() ==> final(url).href_text() == settled(
            old(url).href_text(),
            url_with_href(old(url).href_text(), href.text()),
        ),
        href.is_utf8() && !url_set_href(old(url).href_text(), href.text()).1 ==>
            final(url).href_text() == old(url).href_text(),
        !href.is_utf8() ==> final(url).href_text() == old(url).href_text()
            && final(url).params_view() == old(url).params_view(),
        final(url).was_noop() == (final(url).href_text() == old(url).href_text()),
        href.is_utf8() && final(url).has_params() ==> final(url).params_list() == form_pairs(
            query_bytes(final(url).href_text()),
        ),
{
    match href.as_str() {
        Some(value) => {
            let (next, taken) = quirks_set_href(url.href_str(), value);
            if taken {
                url.put_href(next);
            } else {
                url.noop = true;
            }
            url.update_params();
        },
        None => {
            url.noop = true;
        },
    }
}

/// Sets the password of the URL from `password`. A value that the grammar
/// rejects, or that is not text, leaves the URL as it was; `last_set_was_noop`
/// tells afterwards whether the serialization is still the same. The parameter
/// list stays as it is.
/// A value of more than `TEXT_LIMIT` bytes, or any value for a URL of more
/// than that, counts as rejected.
pub fn set_password(url: &mut JSUrl, password: &SpecString)
    requires
        old(url).wf(),
    ensures
        final(url).wf(),
        final(url).has_params() == old(url).has_params(),
        password.is_utf8() && fits(old(url).href_text(), password.text()) ==> final(url).href_text()
            == settled(
            old(url).href_text(),
            url_with_password(old(url).href_text(), password.text()),
        ),
        password.is_utf8() && !url_set_password(old(url).href_text(), password.text()).1 ==>
            final(url).href_text() == old(url).href_text(),
        !(password.is_utf8() && fits(old(url).href_text(), password.text())) ==> final(url).href_text()
            == old(url).href_text() && final(url).params_view() == old(url).params_view(),
        final(url).was_noop() == (final(url).href_text() == old(url).href_text()),
        final(url).params_list() == old(url).params_list(),
{
    match password.as_str() {
        Some(value) => {
            if text_fits(url.href_str()) && text_fits(value) {
                let (next, taken) = quirks_set_password(url.href_str(), value);
                if taken {
                    url.put_href(next);
                } else {
                    url.noop = true;
                }
            } else {
                url.noop = true;
            }
        },
        None => {
            url.noop = true;
        },
    }
}

/// Sets the path of the URL from `pathname`. A value that the grammar rejects,
/// or that is not text, leaves the URL as it was; `last_set_was_noop` tells
/// afterwards whether the serialization is still the same. The parameter list
/// stays as it is.
/// A value of more than `TEXT_LIMIT` bytes, or any value for a URL of more
/// than that, counts as rejected.
pub fn set_pathname(url: &mut JSUrl, pathname: &SpecString)
    requires
        old(url).wf(),
    ensures
        final(url).wf(),
        final(url).has_params() == old(url).has_params(),
        pathname.is_utf8() && fits(old(url).href_text(), pathname.text()) ==> final(url).href_text()
            == settled(
            old(url).href_text(),
            url_with_pathname(old(url).href_text(), pathname.text()),
        ),
        !(pathname.is_utf8() && fits(old(url).href_text(), pathname.text())) ==> final(url).href_text()
            == old(url).href_text() && final(url).params_view() == old(url).params_view(),
        final(url).was_noop() == (final(url).href_text() == old(url).href_text()),
        final(url).params_list() == old(url).params_list(),
{
    match pathname.as_str() {
        Some(value) => {
            if text_fits(url.href_str()) && text_fits(value) {
                let next = quirks_set_pathname(url.href_str(), value);
                url.put_href(next);
            } else {
                url.noop = true;
            }
        },
        None => {
            url.noop = true;
        },
    }
}

/// Sets the port of the URL from `port`. A value that the grammar rejects, or
/// that is not text, leaves the URL as it was; `last_set_was_noop` tells
/// afterwards whether the serialization is still the same. The parameter list
/// stays as it is.
/// A value of more than `TEXT_LIMIT` bytes, or any value for a URL of more
/// than that, counts as rejected.
pub fn set_port(url: &mut JSUrl, port: &SpecString)
    requires
        old(url).wf(),
    ensures
        final(url).wf(),
        final(url).has_params() == old(url).has_params(),
        port.is_utf8() && fits(old(url).href_text(), port.text()) ==> final(url).href_text()
            == settled(
            old(url).href_text(),
            url_with_port(old(url).href_text(), port.text()),
        ),
        port.is_utf8() && !url_set_port(old(url).href_text(), port.text()).1 ==>
            final(url).href_text() == old(url).href_text(),
        !(port.is_utf8() && fits(old(url).href_text(), port.text())) ==> final(url).href_text()
            == old(url).href_text() && final(url).params_view() == old(url).params_view(),
        final(url).was_noop() == (final(url).href_text() == old(url).href_text()),
        final(url).params_list() == old(url).params_list(),
{
    match port.as_str() {
        Some(value) => {
            if text_fits(url.href_str()) && text_fits(value) {
                let (next, taken) = quirks_set_port(url.href_str(), value);
                if taken {
                    url.put_href(next);
                } else {
                    url.noop = true;
                }
            } else {
                url.noop = true;
            }
        },
        None => {
            url.noop = true;
        },
    }
}

/// Sets the scheme of the URL from `protocol`. A value that the grammar
/// rejects, or that is not text, leaves the URL as it was; `last_set_was_noop`
/// tells afterwards whether the serialization is still the same. The parameter
/// list stays as it is.
/// A value of more than `TEXT_LIMIT` bytes, or any value for a URL of more
/// than that, counts as rejected.
pub fn set_protocol(url: &mut JSUrl, protocol: &SpecString)
    requires
        old(url).wf(),
    ensures
        final(url).wf(),
        final(url).has_params() == old(url).has_params(),
        protocol.is_utf8() && fits(old(url).href_text(), protocol.text()) ==> final(url).href_text()
            == settled(
            old(url).href_text(),
            url_with_protocol(old(url).href_text(), protocol.text()),
        ),
        protocol.is_utf8() && !url_set_protocol(old(url).href_text(), protocol.text()).1 ==>
            final(url).href_text() == old(url).href_text(),
        !(protocol.is_utf8() && fits(old(url).href_text(), protocol.text())) ==> final(url).href_text()
            == old(url).href_text() && final(url).params_view() == old(url).params_view(),
        final(url).was_noop() == (final(url).href_text() == old(url).href_text()),
        final(url).params_list() == old(url).params_list(),
{
    match protocol.as_str() {
        Some(value) => {
            if text_fits(url.href_str()) && text_fits(value) {
                let (next, taken) = quirks_set_protocol(url.href_str(), value);
                if taken {
                    url.put_href(next);
                } else {
                    url.noop = true;
                }
            } else {
                url.noop = true;
            }
        },
        None => {
            url.noop = true;
        },
    }
}

/// Sets the query of the URL from `search`. A value that the grammar rejects,
/// or that is not text, leaves the URL as it was; `last_set_was_noop` tells
/// afterwards whether the serialization is still the same. Where the URL has a
/// parameter list, the list is then read anew from the query, and what it held
/// is gone.
/// A value of more than `TEXT_LIMIT` bytes, or any value for a URL of more
/// than that, counts as rejected.
pub fn set_search(url: &mut JSUrl, search: &SpecString)
    requires
        old(url).wf(),
    ensures
        final(url).wf(),
        final(url).has_params() == old(url).has_params(),
        search.is_utf8() && fits(old(url).href_text(), search.text()) ==> final(url).href_text()
            == settled(
            old(url).href_text(),
            url_with_search(old(url).href_text(), search.text()),
        ),
        !(search.is_utf8() && fits(old(url).href_text(), search.text())) ==> final(url).href_text()
            == old(url).href_text() && final(url).params_view() == old(url).params_view(),
        final(url).was_noop() == (final(url).href_text() == old(url).href_text()),
        search.is_utf8() && fits(old(url).href_text(), search.text()) && final(url).has_params()
            ==> final(url).params_list() == form_pairs(
            query_bytes(final(url).href_text()),
        ),
{
    match search.as_str() {
        Some(value) => {
            if text_fits(url.href_str()) && text_fits(value) {
                let next = quirks_set_search(url.href_str(), value);
                url.put_href(next);
                url.update_params();
            } else {
                url.noop = true;
            }
        },
        None => {
            url.noop = true;
        },
    }
}

/// Sets the user name of the URL from `username`. A value that the grammar
/// rejects, or that is not text, leaves the URL as it was; `last_set_was_noop`
/// tells afterwards whether the serialization is still the same. The parameter
/// list stays as it is.
/// A value of more than `TEXT_LIMIT` bytes, or any value for a URL of more
/// than that, counts as rejected.
pub fn set_username(url: &mut JSUrl, username: &SpecString)
    requires
        old(url).wf(),
    ensures
        final(url).wf(),
        final(url).has_params() == old(url).has_params(),
        username.is_utf8() && fits(old(url).href_text(), username.text()) ==> final(url).href_text()
            == settled(
            old(url).href_text(),
            url_with_username(old(url).href_text(), username.text()),
        ),
        username.is_utf8() && !url_set_username(old(url).href_text(), username.text()).1 ==>
            final(url).href_text() == old(url).href_text(),
        !(username.is_utf8() && fits(old(url).href_text(), username.text())) ==> final(url).href_text()
            == old(url).href_text() && final(url).params_view() == old(url).params_view(),
        final(url).was_noop() == (final(url).href_text() == old(url).href_text()),
        final(url).params_list() == old(url).params_list(),
{
    match username.as_str() {
        Some(value) => {
            if text_fits(url.href_str()) && text_fits(value) {
                let (next, taken) = quirks_set_username(url.href_str(), value);
                if taken {
                    url.put_href(next);
                } else {
                    url.noop = true;
                }
            } else {
                url.noop = true;
            }
        },
        None => {
            url.noop = true;
        },
    }
}

/// The parameter list of the URL, bound to it. The first call makes the list
/// from the query of the URL; every later call hands out that same list.
/// What is done to the list while it is borrowed is done to the URL.
pub fn url_search_params(url: &mut JSUrl) -> (r: &mut JSUrlSearchParams)
    requires
        old(url).wf(),
    ensures
        r.wf(),
        r.is_bound(),
        r.owner_href() == old(url).href_text(),
        r.pairs() == if old(url).has_params() {
            old(url).params_list()
        } else {
            form_pairs(query_bytes(old(url).href_text()))
        },
        final(url).has_params(),
        final(url).was_noop() == old(url).was_noop(),
        final(url).params_view() == *final(r),
{
    if !url.listed {
        let list = query_pairs_of(url.href_str());
        url.params.list = list;
        url.listed = true;
    }
    &mut url.params
}

} // verus!
