//! Which browser origins may use the gateway.
//!
//! The gateway spends the operator's subscription and has no login of its own, so it must not
//! answer whatever site the operator happens to have open. Local origins are always allowed;
//! others are listed, comma separated, and `*` allows every origin.

use crate::reply::{
    error, failure, failures_say_what_went_wrong, tells, Reply, ReplyView, FORBIDDEN,
};
use crate::seqs::lemma_filter_push;
use crate::text::{
    all_digits, begins_with, chars_of, digit, digits_from, lemma_non_empty_both, lemma_non_empty_push,
    lower, non_empty, pieces, pieces_part_at_separators, same, split_on, texts, to_lower,
    trailing_characters_are_cut, trim, trim_trailing, trimmed, without_trailing,
};
use vstd::prelude::*;

verus! {

/// The origins that may call the gateway, besides the local ones.
#[derive(Clone, Debug)]
pub struct Origins {
    /// Every origin may.
    pub any: bool,
    /// The listed origins, in lower case and without a slash at the end.
    pub extra: Vec<String>,
}

/// The entries of a list: what stands between the commas, trimmed, where anything is left.
pub open spec fn entries(list: Seq<char>) -> Seq<Seq<char>> {
    non_empty(pieces(list, |c: char| c == ',').map_values(|p: Seq<char>| trimmed(p)))
}

/// An entry in the form that origins are compared in.
pub open spec fn listed_form(entry: Seq<char>) -> Seq<char> {
    lower(without_trailing(entry, '/'))
}

/// The origins that entries name one by one.
pub open spec fn named(all: Seq<Seq<char>>) -> Seq<Seq<char>> {
    all.filter(|e: Seq<char>| e != "*"@).map_values(|e: Seq<char>| listed_form(e))
}

/// `http://` or `https://`.
pub open spec fn local_scheme(s: Seq<char>) -> bool {
    s == "http://"@ || s == "https://"@
}

/// A name of this machine.
pub open spec fn local_host(s: Seq<char>) -> bool {
    s == "localhost"@ || s == "127.0.0.1"@ || s == "[::1]"@
}

/// Nothing, or a colon and a number.
pub open spec fn port_suffix(s: Seq<char>) -> bool {
    s.len() == 0 || (s[0] == ':' && s.len() > 1 && all_digits(s.skip(1)))
}

/// An origin on this machine: scheme, host and at most a port, and nothing else.
pub open spec fn local_origin(origin: Seq<char>) -> bool {
    exists|scheme: Seq<char>, host: Seq<char>, port: Seq<char>|
        local_scheme(scheme) && local_host(host) && port_suffix(port) && origin == #[trigger] (
        scheme + host + port)
}

impl Origins {
    /// Whether an origin is allowed. Letter case does not matter in ASCII.
    pub open spec fn allowed(&self, origin: Seq<char>) -> bool {
        self.any || local_origin(lower(origin)) || texts(self.extra@).contains(lower(origin))
    }
}

impl Default for Origins {
    /// Local origins only.
    fn default() -> (r: Self)
        ensures
            !r.any,
            texts(r.extra@) == Seq::<Seq<char>>::empty(),
    {
        let r = Origins { any: false, extra: Vec::new() };
        assert(texts(r.extra@) =~= Seq::empty());
        r
    }
}

proof fn lemma_named_push(all: Seq<Seq<char>>, e: Seq<char>)
    ensures
        named(all.push(e)) == if e == "*"@ {
            named(all)
        } else {
            named(all).push(listed_form(e))
        },
{
    lemma_filter_push(all, e, |x: Seq<char>| x != "*"@);
    assert(named(all.push(e)) =~= if e == "*"@ {
        named(all)
    } else {
        named(all).push(listed_form(e))
    });
}

impl Origins {
    /// Reads a comma separated list.
    pub fn parse(list: &str) -> (r: Self)
        ensures
            r.any == entries(list@).contains("*"@),
            texts(r.extra@) == named(entries(list@)),
    {
        let mut origins = Origins::default();
        let parts = split_on(list, ',');
        let ghost all = pieces(list@, |c: char| c == ',');
        let ghost cleaned = all.map_values(|p: Seq<char>| trimmed(p));
        proof {
            reveal(Seq::filter);
            assert(non_empty(cleaned.take(0)) =~= Seq::empty());
            assert(named(non_empty(cleaned.take(0))) =~= Seq::empty());
        }
        for i in 0..parts.len()
            invariant
                texts(parts@) == all,
                cleaned == all.map_values(|p: Seq<char>| trimmed(p)),
                origins.any == non_empty(cleaned.take(i as int)).contains("*"@),
                texts(origins.extra@) == named(non_empty(cleaned.take(i as int))),
        {
            let entry = trim(parts[i].as_str());
            let ghost before = non_empty(cleaned.take(i as int));
            proof {
                assert(all[i as int] == parts@[i as int]@);
                assert(cleaned.take(i + 1) =~= cleaned.take(i as int).push(entry@));
                lemma_non_empty_push(cleaned.take(i as int), entry@);
                lemma_named_push(before, entry@);
                assert(before.push(entry@).contains("*"@) == (before.contains("*"@) || entry@
                    == "*"@)) by {
                    assert(before.push(entry@)[before.len() as int] == entry@);
                    if before.contains("*"@) {
                        let k = choose|k: int| 0 <= k < before.len() && before[k] == "*"@;
                        assert(before.push(entry@)[k] == "*"@);
                    }
                }
            }
            if !entry.as_str().is_empty() {
                if same(entry.as_str(), "*") {
                    origins.any = true;
                } else {
                    let bare = trim_trailing(entry.as_str(), '/');
                    let form = to_lower(bare.as_str());
                    let mut extra = origins.extra;
                    let ghost was = extra@;
                    extra.push(form);
                    assert(texts(extra@) =~= texts(was).push(form@));
                    origins = Origins { any: origins.any, extra };
                }
            }
        }
        assert(cleaned.take(cleaned.len() as int) =~= cleaned);
        origins
    }

    /// Whether an origin may use the gateway.
    pub fn allows(&self, origin: &str) -> (r: bool)
        ensures
            r == self.allowed(origin@),
    {
        let wanted = to_lower(origin);
        if self.any || is_local_origin(wanted.as_str()) {
            return true;
        }
        for i in 0..self.extra.len()
            invariant
                wanted@ == lower(origin@),
                forall|j: int| 0 <= j < i ==> self.extra@[j]@ != wanted@,
        {
            if self.extra[i] == wanted {
                assert(texts(self.extra@)[i as int] == wanted@);
                return true;
            }
        }
        assert(!texts(self.extra@).contains(wanted@)) by {
            if texts(self.extra@).contains(wanted@) {
                let j = choose|j: int|
                    0 <= j < texts(self.extra@).len() && texts(self.extra@)[j] == wanted@;
                assert(self.extra@[j]@ == wanted@);
            }
        }
        false
    }
}

/// Whether an origin is `start`, a scheme and a host, with or without a port.
fn origin_at(origin: &str, start: &str) -> (r: bool)
    ensures
        r <==> start@.is_prefix_of(origin@) && port_suffix(origin@.skip(start@.len() as int)),
{
    if !begins_with(origin, start) {
        return false;
    }
    let chars = chars_of(origin);
    let len: usize = chars.len();
    let from: usize = chars_of(start).len();
    let ghost rest = origin@.skip(from as int);
    if from == len {
        return true;
    }
    if chars[from] != ':' || from + 1 == len {
        return false;
    }
    assert(rest.skip(1) =~= origin@.skip(from + 1));
    digits_from(&chars, from + 1)
}

/// `http(s)://localhost`, `127.0.0.1` or `[::1]`, with or without a port.
pub fn is_local_origin(origin: &str) -> (r: bool)
    ensures
        r == local_origin(origin@),
{
    let r = origin_at(origin, "http://localhost") || origin_at(origin, "http://127.0.0.1")
        || origin_at(origin, "http://[::1]") || origin_at(origin, "https://localhost") || origin_at(
        origin,
        "https://127.0.0.1",
    ) || origin_at(origin, "https://[::1]");
    proof {
        lemma_starts();
        if r {
            let start = if begins_local(origin@, "http://localhost"@) {
                "http://localhost"@
            } else if begins_local(origin@, "http://127.0.0.1"@) {
                "http://127.0.0.1"@
            } else if begins_local(origin@, "http://[::1]"@) {
                "http://[::1]"@
            } else if begins_local(origin@, "https://localhost"@) {
                "https://localhost"@
            } else if begins_local(origin@, "https://127.0.0.1"@) {
                "https://127.0.0.1"@
            } else {
                "https://[::1]"@
            };
            let (scheme, host) = choose|scheme: Seq<char>, host: Seq<char>|
                local_scheme(scheme) && local_host(host) && #[trigger] (scheme + host) == start;
            assert(origin@ =~= scheme + host + origin@.skip(start.len() as int));
        }
        if local_origin(origin@) {
            let (scheme, host, port) = choose|scheme: Seq<char>, host: Seq<char>, port: Seq<char>|
                local_scheme(scheme) && local_host(host) && port_suffix(port) && origin@
                    == #[trigger] (scheme + host + port);
            let start = scheme + host;
            assert(start.is_prefix_of(origin@));
            assert(origin@.skip(start.len() as int) =~= port);
            assert(begins_local(origin@, start));
        }
    }
    r
}

spec fn begins_local(origin: Seq<char>, start: Seq<char>) -> bool {
    start.is_prefix_of(origin) && port_suffix(origin.skip(start.len() as int))
}

/// The six ways in which a local origin can begin.
proof fn lemma_starts()
    ensures
        "http://"@ + "localhost"@ == "http://localhost"@,
        "http://"@ + "127.0.0.1"@ == "http://127.0.0.1"@,
        "http://"@ + "[::1]"@ == "http://[::1]"@,
        "https://"@ + "localhost"@ == "https://localhost"@,
        "https://"@ + "127.0.0.1"@ == "https://127.0.0.1"@,
        "https://"@ + "[::1]"@ == "https://[::1]"@,
{
    reveal_strlit("http://");
    reveal_strlit("https://");
    reveal_strlit("localhost");
    reveal_strlit("127.0.0.1");
    reveal_strlit("[::1]");
    reveal_strlit("http://localhost");
    reveal_strlit("http://127.0.0.1");
    reveal_strlit("http://[::1]");
    reveal_strlit("https://localhost");
    reveal_strlit("https://127.0.0.1");
    reveal_strlit("https://[::1]");
    assert("http://"@ + "localhost"@ =~= "http://localhost"@);
    assert("http://"@ + "127.0.0.1"@ =~= "http://127.0.0.1"@);
    assert("http://"@ + "[::1]"@ =~= "http://[::1]"@);
    assert("https://"@ + "localhost"@ =~= "https://localhost"@);
    assert("https://"@ + "127.0.0.1"@ =~= "https://127.0.0.1"@);
    assert("https://"@ + "[::1]"@ =~= "https://[::1]"@);
}

/// The `Origin` header of a request.
#[derive(Debug)]
pub enum OriginHeader {
    /// There is none: no browser sent the request from a page.
    Absent,
    /// There is one, which is no text.
    Unreadable,
    Text(String),
}

/// The `Origin` header as a request carries it.
pub enum OriginView {
    Absent,
    Unreadable,
    Text(Seq<char>),
}

impl View for OriginHeader {
    type V = OriginView;

    open spec fn view(&self) -> OriginView {
        match *self {
            OriginHeader::Absent => OriginView::Absent,
            OriginHeader::Unreadable => OriginView::Unreadable,
            OriginHeader::Text(s) => OriginView::Text(s@),
        }
    }
}

/// The answer to a request from an origin that is not allowed.
pub open spec fn refusal(shown: Seq<char>) -> ReplyView {
    failure(
        FORBIDDEN,
        "Origin "@ + shown + " may not use this gateway. Add it to GOOSE_GATEWAY_ALLOWED_ORIGINS."@,
        "permission_error"@,
    )
}

/// The refusal that a request meets, if any.
pub open spec fn origin_refusal(origins: Origins, header: OriginView) -> Option<ReplyView> {
    match header {
        OriginView::Absent => None,
        OriginView::Unreadable => Some(refusal("?"@)),
        OriginView::Text(origin) => if origins.allowed(origin) {
            None
        } else {
            Some(refusal(origin))
        },
    }
}

fn refuse(shown: &str) -> (r: Reply)
    ensures
        r@ == refusal(shown@),
{
    let message = "Origin ".to_owned().concat(shown).concat(
        " may not use this gateway. Add it to GOOSE_GATEWAY_ALLOWED_ORIGINS.",
    );
    error(FORBIDDEN, message.as_str(), "permission_error")
}

/// Refuses a request from an origin that is not allowed; `None` lets it pass.
///
/// Cross-origin rules alone only stop a page from reading the answer. This stops the request from
/// running, which matters for a page that the browser takes for the same origin.
pub fn check_origin(origins: &Origins, header: &OriginHeader) -> (r: Option<Reply>)
    ensures
        r is Some == origin_refusal(*origins, header@) is Some,
        r matches Some(reply) ==> origin_refusal(*origins, header@) == Some(reply@),
{
    match header {
        OriginHeader::Absent => None,
        OriginHeader::Unreadable => Some(refuse("?")),
        OriginHeader::Text(origin) => if origins.allows(origin.as_str()) {
            None
        } else {
            Some(refuse(origin.as_str()))
        },
    }
}

/// Local origins are allowed whatever is listed.
pub proof fn local_origins_are_always_allowed(origins: Origins, origin: Seq<char>)
    requires
        local_origin(lower(origin)),
    ensures
        origins.allowed(origin),
{
}

/// Letter case in ASCII decides nothing.
pub proof fn letter_case_decides_nothing(origins: Origins, a: Seq<char>, b: Seq<char>)
    requires
        lower(a) == lower(b),
    ensures
        origins.allowed(a) == origins.allowed(b),
{
}

/// A list with the entry `*` allows every origin.
pub proof fn wildcard_allows_every_origin(list: Seq<char>, origins: Origins, origin: Seq<char>)
    requires
        origins.any == entries(list).contains("*"@),
        texts(origins.extra@) == named(entries(list)),
        entries(list).contains("*"@),
    ensures
        origins.allowed(origin),
{
}

/// Where no entry is `*`, exactly the local origins and the listed ones are allowed: a listed origin
/// is matched as a whole, apart from letter case and slashes at the end of the entry.
pub proof fn listed_origins_match_exactly(list: Seq<char>, origins: Origins, origin: Seq<char>)
    requires
        origins.any == entries(list).contains("*"@),
        texts(origins.extra@) == named(entries(list)),
        !entries(list).contains("*"@),
    ensures
        origins.allowed(origin) <==> local_origin(lower(origin)) || exists|i: int|
            0 <= i < entries(list).len() && listed_form(#[trigger] entries(list)[i]) == lower(
                origin,
            ),
{
    let all = entries(list);
    let keep = |e: Seq<char>| e != "*"@;
    lemma_filter_all(all, keep);
    assert(named(all) =~= all.map_values(|e: Seq<char>| listed_form(e)));
    if named(all).contains(lower(origin)) {
        let i = choose|i: int| 0 <= i < named(all).len() && named(all)[i] == lower(origin);
        assert(listed_form(all[i]) == lower(origin));
    }
    if exists|i: int| 0 <= i < all.len() && listed_form(#[trigger] all[i]) == lower(origin) {
        let i = choose|i: int| 0 <= i < all.len() && listed_form(#[trigger] all[i]) == lower(origin);
        assert(named(all)[i] == lower(origin));
    }
}

proof fn lemma_filter_all(all: Seq<Seq<char>>, keep: spec_fn(Seq<char>) -> bool)
    requires
        forall|i: int| 0 <= i < all.len() ==> keep(#[trigger] all[i]),
    ensures
        all.filter(keep) == all,
    decreases all.len(),
{
    reveal(Seq::filter);
    if all.len() > 0 {
        lemma_filter_all(all.drop_last(), keep);
        assert(all.drop_last().push(all.last()) =~= all);
    }
}

/// The empty list allows the local origins and no other.
pub proof fn empty_list_allows_local_origins_only(origins: Origins, origin: Seq<char>)
    requires
        origins.any == entries(Seq::empty()).contains("*"@),
        texts(origins.extra@) == named(entries(Seq::empty())),
    ensures
        origins.allowed(origin) == local_origin(lower(origin)),
{
    let list = Seq::<char>::empty();
    let cleaned = pieces(list, |c: char| c == ',').map_values(|p: Seq<char>| trimmed(p));
    reveal(Seq::filter);
    assert(cleaned =~= Seq::<Seq<char>>::empty().push(Seq::empty()));
    lemma_non_empty_push(Seq::empty(), Seq::empty());
    assert(entries(list) =~= Seq::empty());
    assert(named(entries(list)) =~= Seq::empty());
}

/// A request without an `Origin` header always passes, and one with an origin passes exactly where
/// the origin is allowed; a refused one is answered 403.
pub proof fn only_allowed_origins_pass(origins: Origins, header: OriginView)
    ensures
        header is Absent ==> origin_refusal(origins, header) is None,
        header matches OriginView::Text(o) ==> (origin_refusal(origins, header) is None
            <==> origins.allowed(o)),
        header is Unreadable ==> origin_refusal(origins, header) is Some,
        origin_refusal(origins, header) matches Some(reply) ==> reply.status == 403,
{
}

/// What a local origin begins with.
pub open spec fn local_start(start: Seq<char>) -> bool {
    ||| start == "http://localhost"@
    ||| start == "http://127.0.0.1"@
    ||| start == "http://[::1]"@
    ||| start == "https://localhost"@
    ||| start == "https://127.0.0.1"@
    ||| start == "https://[::1]"@
}

/// Nothing, or a colon with digits behind it.
pub open spec fn colon_and_digits(s: Seq<char>) -> bool {
    s.len() == 0 || {
        &&& s.len() > 1
        &&& s[0] == ':'
        &&& forall|i: int| 1 <= i < s.len() ==> '0' <= #[trigger] s[i] <= '9'
    }
}

/// An origin is local exactly where it is one of six starts with nothing behind it, or with a colon
/// and digits.
pub proof fn local_origins_are_these(origin: Seq<char>)
    ensures
        local_origin(origin) <==> exists|start: Seq<char>, rest: Seq<char>|
            local_start(start) && colon_and_digits(rest) && origin == #[trigger] (start + rest),
{
    lemma_starts();
    if local_origin(origin) {
        let (scheme, host, port) = choose|scheme: Seq<char>, host: Seq<char>, port: Seq<char>|
            local_scheme(scheme) && local_host(host) && port_suffix(port) && origin == #[trigger] (
            scheme + host + port);
        let start = scheme + host;
        assert(local_start(start));
        assert forall|i: int| port.len() > 0 && 1 <= i < port.len() implies '0'
            <= #[trigger] port[i] <= '9' by {
            assert(digit(port.skip(1)[i - 1]));
        }
        assert(colon_and_digits(port));
        assert(origin == start + port);
    }
    if exists|start: Seq<char>, rest: Seq<char>|
        local_start(start) && colon_and_digits(rest) && origin == #[trigger] (start + rest) {
        let (start, rest) = choose|start: Seq<char>, rest: Seq<char>|
            local_start(start) && colon_and_digits(rest) && origin == #[trigger] (start + rest);
        if rest.len() > 0 {
            assert forall|i: int| 0 <= i < rest.skip(1).len() implies digit(
                #[trigger] rest.skip(1)[i],
            ) by {
                assert(rest.skip(1)[i] == rest[i + 1]);
            }
        }
        assert(port_suffix(rest));
        let (scheme, host) = if start == "http://localhost"@ {
            ("http://"@, "localhost"@)
        } else if start == "http://127.0.0.1"@ {
            ("http://"@, "127.0.0.1"@)
        } else if start == "http://[::1]"@ {
            ("http://"@, "[::1]"@)
        } else if start == "https://localhost"@ {
            ("https://"@, "localhost"@)
        } else if start == "https://127.0.0.1"@ {
            ("https://"@, "127.0.0.1"@)
        } else {
            ("https://"@, "[::1]"@)
        };
        assert(scheme + host == start);
        assert(local_scheme(scheme) && local_host(host));
        assert(origin == scheme + host + rest);
    }
}

/// An origin is allowed exactly where every origin is, or it is local, or it is among the listed ones,
/// whatever its letter case.
pub proof fn origins_are_allowed_for_a_reason(origins: Origins, origin: Seq<char>)
    ensures
        origins.any ==> origins.allowed(origin),
        local_origin(lower(origin)) ==> origins.allowed(origin),
        forall|i: int|
            0 <= i < origins.extra@.len() && (#[trigger] origins.extra@[i])@ == lower(origin)
                ==> origins.allowed(origin),
        origins.allowed(origin) && !origins.any && !local_origin(lower(origin)) ==> exists|i: int|
            0 <= i < origins.extra@.len() && (#[trigger] origins.extra@[i])@ == lower(origin),
{
    let all = texts(origins.extra@);
    assert forall|i: int|
        0 <= i < origins.extra@.len() && (#[trigger] origins.extra@[i])@ == lower(
            origin,
        ) implies origins.allowed(origin) by {
        assert(all[i] == lower(origin));
    }
    if all.contains(lower(origin)) {
        let i = choose|i: int| 0 <= i < all.len() && all[i] == lower(origin);
        assert(origins.extra@[i]@ == lower(origin));
    }
}

/// A comma parts the entries before it from those behind it. What has no comma is one entry, trimmed,
/// unless nothing is left of it.
pub proof fn entries_part_at_commas(a: Seq<char>, b: Seq<char>)
    ensures
        entries(a + seq![','] + b) == entries(a) + entries(b),
        !b.contains(',') ==> entries(b) == if trimmed(b).len() == 0 {
            Seq::empty()
        } else {
            seq![trimmed(b)]
        },
{
    let sep = |c: char| c == ',';
    let clean = |p: Seq<char>| trimmed(p);
    pieces_part_at_separators(a, ',', b, sep);
    assert((pieces(a, sep) + pieces(b, sep)).map_values(clean) =~= pieces(a, sep).map_values(clean)
        + pieces(b, sep).map_values(clean));
    lemma_non_empty_both(pieces(a, sep).map_values(clean), pieces(b, sep).map_values(clean));
    if !b.contains(',') {
        assert forall|i: int| 0 <= i < b.len() implies !sep(#[trigger] b[i]) by {}
        assert(pieces(b, sep).map_values(clean) =~= Seq::<Seq<char>>::empty().push(trimmed(b)));
        lemma_non_empty_push(Seq::empty(), trimmed(b));
        reveal(Seq::filter);
        assert(non_empty(Seq::empty()) =~= Seq::empty());
        assert(entries(b) =~= if trimmed(b).len() == 0 {
            Seq::empty()
        } else {
            seq![trimmed(b)]
        });
    }
}

/// An entry more that is not `*` lists one origin more: the entry in lower case, without the slashes
/// at its end. The entry `*` lists none.
pub proof fn an_entry_lists_an_origin(all: Seq<Seq<char>>, entry: Seq<char>, slashes: nat)
    requires
        entry.len() > 0 ==> entry.last() != '/',
    ensures
        ({
            let written = entry + Seq::new(slashes, |i: int| '/');
            &&& written != "*"@ ==> named(all.push(written)) == named(all).push(lower(entry))
            &&& named(all.push("*"@)) == named(all)
            &&& named(Seq::empty()) == Seq::<Seq<char>>::empty()
        }),
{
    let written = entry + Seq::new(slashes, |i: int| '/');
    lemma_named_push(all, written);
    lemma_named_push(all, "*"@);
    reveal(Seq::filter);
    assert(named(Seq::empty()) =~= Seq::empty());
    trailing_characters_are_cut(written, '/');
    let left = without_trailing(written, '/');
    if left.len() < entry.len() {
        assert(written[entry.len() - 1] == entry.last());
    }
    if left.len() > entry.len() {
        assert(left.last() == written[left.len() - 1]);
    }
    assert(left =~= entry);
}

/// A refused request is answered with 403, and told which origin was refused.
pub proof fn a_refusal_names_the_origin(origins: Origins, origin: Seq<char>)
    requires
        !origins.allowed(origin),
    ensures
        ({
            let refused = origin_refusal(origins, OriginView::Text(origin));
            &&& refused is Some
            &&& tells(
                refused->0,
                403,
                "Origin "@ + origin
                    + " may not use this gateway. Add it to GOOSE_GATEWAY_ALLOWED_ORIGINS."@,
                "permission_error"@,
            )
        }),
        ({
            let refused = origin_refusal(origins, OriginView::Unreadable);
            &&& refused is Some
            &&& tells(
                refused->0,
                403,
                "Origin "@ + "?"@
                    + " may not use this gateway. Add it to GOOSE_GATEWAY_ALLOWED_ORIGINS."@,
                "permission_error"@,
            )
        }),
{
    failures_say_what_went_wrong(
        403,
        "Origin "@ + origin
            + " may not use this gateway. Add it to GOOSE_GATEWAY_ALLOWED_ORIGINS."@,
        "permission_error"@,
    );
    failures_say_what_went_wrong(
        403,
        "Origin "@ + "?"@ + " may not use this gateway. Add it to GOOSE_GATEWAY_ALLOWED_ORIGINS."@,
        "permission_error"@,
    );
}

/// The view of a header leaves nothing out.
pub proof fn views_of_headers_leave_nothing_out(s: String)
    ensures
        OriginHeader::Absent@ is Absent,
        OriginHeader::Unreadable@ is Unreadable,
        OriginHeader::Text(s)@ == OriginView::Text(s@),
{
}

} // verus!
