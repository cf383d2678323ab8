//! Delivering the address that a sign-in was redirected to.

use crate::json::{has_just, says, Json, JsonObject, JsonView};
use crate::reply::{
    answer, error, failure, failures_say_what_went_wrong, success, tells, Reply, ReplyView, BAD_GATEWAY,
    BAD_REQUEST, CONFLICT, INTERNAL_SERVER_ERROR,
};
use crate::sign_in::{waits_for, SignIns, SignInsView};
use crate::text::{
    characters_are_counted_up_to_the_first, chars_before, chars_of, count_before, decimal, lower,
    natural_text, same, to_lower, trim, trimmed,
};
use url::{Host, Position, Url};
use vstd::prelude::*;

verus! {

// ---------------------------------------------------------------------------
// Web addresses
// ---------------------------------------------------------------------------

/// The host in a web address.
#[derive(Debug)]
pub enum UrlHost {
    Absent,
    Domain(String),
    /// The four octets as one number, the first octet highest.
    Ipv4(u32),
    /// The sixteen octets as one number, the first octet highest.
    Ipv6(u128),
}

/// A web address taken apart. It reads `before_host`, `host_text`, `after_host`.
#[derive(Debug)]
pub struct UrlParts {
    pub scheme: String,
    pub host: UrlHost,
    /// The port, where it is not the one that goes without saying.
    pub port: Option<u16>,
    /// What is between `?` and `#`.
    pub query: Option<String>,
    pub before_host: String,
    pub host_text: String,
    pub after_host: String,
}

pub enum HostView {
    Absent,
    Domain(Seq<char>),
    Ipv4(u32),
    Ipv6(u128),
}

pub struct UrlView {
    pub scheme: Seq<char>,
    pub host: HostView,
    pub port: Option<u16>,
    pub query: Option<Seq<char>>,
    pub before_host: Seq<char>,
    pub host_text: Seq<char>,
    pub after_host: Seq<char>,
}

impl View for UrlHost {
    type V = HostView;

    open spec fn view(&self) -> HostView {
        match *self {
            UrlHost::Absent => HostView::Absent,
            UrlHost::Domain(d) => HostView::Domain(d@),
            UrlHost::Ipv4(n) => HostView::Ipv4(n),
            UrlHost::Ipv6(n) => HostView::Ipv6(n),
        }
    }
}

impl View for UrlParts {
    type V = UrlView;

    open spec fn view(&self) -> UrlView {
        UrlView {
            scheme: self.scheme@,
            host: self.host@,
            port: self.port,
            query: match self.query {
                Some(q) => Some(q@),
                None => None,
            },
            before_host: self.before_host@,
            host_text: self.host_text@,
            after_host: self.after_host@,
        }
    }
}

impl UrlView {
    /// The address in full.
    pub open spec fn text(self) -> Seq<char> {
        self.before_host + self.host_text + self.after_host
    }

    /// The address with 127.0.0.1 for its host and all else as it is.
    pub open spec fn on_loopback(self) -> UrlView {
        UrlView { host: HostView::Ipv4(0x7f00_0001), host_text: "127.0.0.1"@, ..self }
    }
}

/// What `url::Url::parse` makes of a text.
pub uninterp spec fn url_parts(text: Seq<char>) -> Option<UrlView>;

/// Reads a web address with `url::Url::parse`. The result is a function of the text; nothing else is
/// claimed of it.
#[verifier::external_body]
fn read_url(text: &str) -> (r: Option<UrlParts>)
    ensures
        match r {
            Some(parts) => url_parts(text@) == Some(parts@),
            None => url_parts(text@) is None,
        },
{
    let url = Url::parse(text).ok()?;
    Some(UrlParts {
        scheme: url.scheme().to_owned(),
        host: match url.host() {
            Some(Host::Domain(d)) => UrlHost::Domain(d.to_owned()),
            Some(Host::Ipv4(ip)) => UrlHost::Ipv4(u32::from(ip)),
            Some(Host::Ipv6(ip)) => UrlHost::Ipv6(u128::from(ip)),
            None => UrlHost::Absent,
        },
        port: url.port(),
        query: url.query().map(str::to_owned),
        before_host: url[..Position::BeforeHost].to_owned(),
        host_text: url[Position::BeforeHost..Position::AfterHost].to_owned(),
        after_host: url[Position::AfterHost..].to_owned(),
    })
}

/// How far behind the host the last position in an address lies: that of its `#`, else that of its
/// `?`, else that of the `/` that its path begins with.
pub open spec fn last_mark(after_host: Seq<char>) -> nat {
    if chars_before(after_host, '#') < after_host.len() {
        chars_before(after_host, '#')
    } else if chars_before(after_host, '?') < after_host.len() {
        chars_before(after_host, '?')
    } else {
        chars_before(after_host, '/')
    }
}

/// Whether a host can be put in the place of that of an address. The positions in an address are
/// 32-bit numbers, so a longer host needs room for those that it moves. What follows the last of
/// them can be of any length.
pub open spec fn has_room(parts: UrlView, host: Seq<char>) -> bool {
    host.len() <= parts.host_text.len() || parts.before_host.len() + host.len() + last_mark(
        parts.after_host,
    ) <= u32::MAX
}

/// Puts 127.0.0.1 in the place of the host of an `http` address with `url::Url::set_host`. That
/// always succeeds for such an address, replaces the text of the host and no other character, and
/// the text that comes of it is read again as the same address on 127.0.0.1. There is no white
/// character at either end of it: it begins with the scheme, and all but visible ASCII is encoded.
/// Where a position would outgrow 32 bits `set_host` panics, so such an address is left out.
#[verifier::external_body]
fn with_host(text: &str, host: &str) -> (r: Option<String>)
    requires
        host@ == "127.0.0.1"@,
        url_parts(text@) is Some,
        url_parts(text@)->0.scheme == "http"@,
        has_room(url_parts(text@)->0, host@),
    ensures
        r is Some,
        r->0@ == url_parts(text@)->0.on_loopback().text(),
        url_parts(r->0@) == Some(url_parts(text@)->0.on_loopback()),
        trimmed(r->0@) == r->0@,
{
    let mut url = Url::parse(text).ok()?;
    url.set_host(Some(host)).ok()?;
    Some(url.to_string())
}

/// Sets the port of an `http` address with `url::Url::set_port`, where it is the port that the
/// address has: that always succeeds and changes nothing.
#[verifier::external_body]
fn with_port(text: &str, port: u16) -> (r: Option<String>)
    requires
        url_parts(text@) is Some,
        url_parts(text@)->0.scheme == "http"@,
        url_parts(text@)->0.port == Some(port),
    ensures
        r is Some,
        r->0@ == url_parts(text@)->0.text(),
{
    let mut url = Url::parse(text).ok()?;
    url.set_port(Some(port)).ok()?;
    Some(url.to_string())
}

// ---------------------------------------------------------------------------
// Redirect addresses
// ---------------------------------------------------------------------------

/// A host that is this machine: `localhost`, 127.0.0.0 to 127.255.255.255, or ::1.
pub open spec fn is_loopback(host: HostView) -> bool {
    match host {
        HostView::Absent => false,
        HostView::Domain(d) => lower(d) == "localhost"@,
        HostView::Ipv4(n) => 0x7f00_0000 <= n <= 0x7fff_ffff,
        HostView::Ipv6(n) => n == 1,
    }
}

/// The port of an address that a sign-in can have been redirected to, or why it is none.
pub open spec fn redirect_port(parts: Option<UrlView>) -> Result<u16, Seq<char>> {
    match parts {
        None => Err("That is not a web address. Copy it from the browser's address bar."@),
        Some(p) => if p.scheme != "http"@ {
            Err("A sign-in redirect address starts with http://"@)
        } else if !is_loopback(p.host) {
            Err(
                "That is not the sign-in redirect: it should start with http://localhost or http://127.0.0.1"@,
            )
        } else if p.port is None {
            Err("The address is missing its port, e.g. http://127.0.0.1:56121/…"@)
        } else if p.query is None || p.query->0.len() == 0 {
            Err("The address is missing the part after '?'; copy the whole address"@)
        } else if !has_room(p, "127.0.0.1"@) {
            Err("Could not rewrite the address"@)
        } else {
            Ok(p.port->0)
        },
    }
}

/// The address to deliver a redirect to: the same on 127.0.0.1, or why not.
pub open spec fn callback_target(parts: Option<UrlView>) -> Result<Seq<char>, Seq<char>> {
    match redirect_port(parts) {
        Ok(_) => Ok(parts->0.on_loopback().text()),
        Err(message) => Err(message),
    }
}

/// Only this machine is ever called: what `called` reads as is an `http` address on 127.0.0.1, with
/// the port and the query of the address that was given.
pub open spec fn calls_this_machine(given: UrlView, called: Seq<char>) -> bool {
    match url_parts(called) {
        Some(parts) => {
            &&& parts.scheme == "http"@
            &&& parts.host == HostView::Ipv4(0x7f00_0001)
            &&& is_loopback(parts.host)
            &&& parts.port is Some && parts.port == given.port
            &&& parts.query is Some && parts.query == given.query
        },
        None => false,
    }
}

fn host_is_loopback(host: &UrlHost) -> (r: bool)
    ensures
        r == is_loopback(host@),
{
    match host {
        UrlHost::Absent => false,
        UrlHost::Domain(d) => same(to_lower(d.as_str()).as_str(), "localhost"),
        UrlHost::Ipv4(n) => 0x7f00_0000 <= *n && *n <= 0x7fff_ffff,
        UrlHost::Ipv6(n) => *n == 1,
    }
}

fn room_for(parts: &UrlParts, host: &str) -> (r: bool)
    ensures
        r == has_room(parts@, host@),
{
    let after = chars_of(parts.after_host.as_str());
    let len: usize = after.len();
    let fragment: usize = count_before(&after, '#');
    let query: usize = count_before(&after, '?');
    let mark: usize = if fragment < len {
        fragment
    } else if query < len {
        query
    } else {
        count_before(&after, '/')
    };
    let new: u128 = host.unicode_len() as u128;
    let current: u128 = parts.host_text.as_str().unicode_len() as u128;
    let before: u128 = parts.before_host.as_str().unicode_len() as u128;
    new <= current || before + new + mark as u128 <= u32::MAX as u128
}

/// The port of an address that a sign-in can have been redirected to, or why it is none.
pub fn check_redirect(parts: Option<&UrlParts>) -> (r: Result<u16, String>)
    ensures
        ({
            let expected = redirect_port(
                match parts {
                    Some(p) => Some(p@),
                    None => None,
                },
            );
            match r {
                Ok(port) => expected == Ok::<u16, Seq<char>>(port),
                Err(message) => expected == Err::<u16, Seq<char>>(message@),
            }
        }),
{
    let parts = match parts {
        Some(p) => p,
        None => return Err(
            "That is not a web address. Copy it from the browser's address bar.".to_owned(),
        ),
    };
    if !same(parts.scheme.as_str(), "http") {
        return Err("A sign-in redirect address starts with http://".to_owned());
    }
    if !host_is_loopback(&parts.host) {
        return Err(
            "That is not the sign-in redirect: it should start with http://localhost or http://127.0.0.1".to_owned(),
        );
    }
    let port: u16 = match parts.port {
        Some(port) => port,
        None => return Err(
            "The address is missing its port, e.g. http://127.0.0.1:56121/…".to_owned(),
        ),
    };
    let blank: bool = match &parts.query {
        Some(query) => query.as_str().is_empty(),
        None => true,
    };
    if blank {
        return Err(
            "The address is missing the part after '?'; copy the whole address".to_owned(),
        );
    }
    if !room_for(parts, "127.0.0.1") {
        return Err("Could not rewrite the address".to_owned());
    }
    Ok(port)
}

/// `http://localhost:1455/auth/callback?code=…` becomes the same address on 127.0.0.1. Says why not
/// where it is no address that a sign-in can have been redirected to. An address that it gave is
/// accepted again and stays as it is.
pub fn loopback_callback(raw: &str) -> (r: Result<String, String>)
    ensures
        ({
            let expected = callback_target(url_parts(trimmed(raw@)));
            match r {
                Ok(target) => expected == Ok::<Seq<char>, Seq<char>>(target@),
                Err(message) => expected == Err::<Seq<char>, Seq<char>>(message@),
            }
        }),
        r matches Ok(target) ==> url_parts(target@) == Some(
            url_parts(trimmed(raw@))->0.on_loopback(),
        ),
        r matches Ok(target) ==> calls_this_machine(url_parts(trimmed(raw@))->0, target@),
        r matches Ok(target) ==> callback_target(url_parts(trimmed(target@))) == Ok::<
            Seq<char>,
            Seq<char>,
        >(target@),
{
    let raw = trim(raw);
    let parts = read_url(raw.as_str());
    let port: u16 = check_redirect(parts.as_ref())?;
    let moved = match with_host(raw.as_str(), "127.0.0.1") {
        Some(moved) => moved,
        None => return Err("Could not rewrite the address".to_owned()),
    };
    proof {
        accepted_addresses_stay_as_they_are(url_parts(raw@)->0);
    }
    match with_port(moved.as_str(), port) {
        Some(target) => Ok(target),
        None => Err("Could not rewrite the address".to_owned()),
    }
}

/// An address that was accepted is accepted again, and stays as it is.
pub proof fn accepted_addresses_stay_as_they_are(parts: UrlView)
    requires
        redirect_port(Some(parts)) is Ok,
    ensures
        callback_target(Some(parts.on_loopback())) == callback_target(Some(parts)),
{
    reveal_strlit("127.0.0.1");
}

// ---------------------------------------------------------------------------
// Deliveries
// ---------------------------------------------------------------------------

/// An address to deliver.
#[derive(Debug)]
pub struct CallbackRequest {
    pub url: String,
}

/// What came of calling an address.
#[derive(Debug)]
pub enum Delivery {
    /// No client could be had.
    NoClient(String),
    /// The answer had this HTTP status.
    Answered(u16),
    /// There was no answer.
    Unreachable(String),
}

/// The answer to a delivery for a sign-in that is not under way.
pub open spec fn not_waiting_reply(id: Seq<char>) -> ReplyView {
    failure(
        CONFLICT,
        "No sign-in to "@ + id + " is waiting; start it again"@,
        "conflict_error"@,
    )
}

/// What a delivery comes to: the address to call, or the refusal. It is for the provider whose
/// sign-in is under way, and for no other.
pub open spec fn delivery_target(
    state: SignInsView,
    id: Seq<char>,
    parts: Option<UrlView>,
) -> Result<Seq<char>, ReplyView> {
    if !waits_for(state, id) {
        Err(not_waiting_reply(id))
    } else {
        match callback_target(parts) {
            Ok(target) => Ok(target),
            Err(message) => Err(failure(BAD_REQUEST, message, "invalid_request_error"@)),
        }
    }
}

/// The answer to a delivery, from what came of it.
pub open spec fn delivery_reply(delivery: Delivery) -> ReplyView {
    match delivery {
        Delivery::NoClient(e) => failure(INTERNAL_SERVER_ERROR, e@, "server_error"@),
        Delivery::Answered(status) => if 200 <= status < 300 {
            success(JsonView::Object(map!["ok"@ => JsonView::Bool(true)]))
        } else {
            failure(
                BAD_REQUEST,
                "goose did not accept that address (HTTP "@ + decimal(status as int)
                    + "). Copy the whole address from the page you landed on."@,
                "invalid_request_error"@,
            )
        },
        Delivery::Unreachable(e) => failure(
            BAD_GATEWAY,
            "goose is not waiting at that address any more ("@ + e@
                + "); start the sign-in again"@,
            "upstream_error"@,
        ),
    }
}

/// What a delivery comes to: the address to call, or the refusal.
pub fn sign_in_callback(sign_ins: &SignIns, id: &str, req: &CallbackRequest) -> (r: Result<
    String,
    Reply,
>)
    ensures
        ({
            let expected = delivery_target(sign_ins@, id@, url_parts(trimmed(req.url@)));
            match r {
                Ok(target) => expected == Ok::<Seq<char>, ReplyView>(target@),
                Err(reply) => expected == Err::<Seq<char>, ReplyView>(reply@),
            }
        }),
        r matches Ok(target) ==> calls_this_machine(url_parts(trimmed(req.url@))->0, target@),
{
    if !sign_ins.waiting_for(id) {
        let message = "No sign-in to ".to_owned().concat(id).concat(
            " is waiting; start it again",
        );
        return Err(error(CONFLICT, message.as_str(), "conflict_error"));
    }
    match loopback_callback(req.url.as_str()) {
        Ok(target) => Ok(target),
        Err(message) => Err(error(BAD_REQUEST, message.as_str(), "invalid_request_error")),
    }
}

/// The answer to a delivery, from what came of it.
pub fn delivered(delivery: Delivery) -> (r: Reply)
    ensures
        r@ == delivery_reply(delivery),
{
    match delivery {
        Delivery::NoClient(e) => error(INTERNAL_SERVER_ERROR, e.as_str(), "server_error"),
        Delivery::Answered(status) => if 200 <= status && status < 300 {
            answer(Json::Object(JsonObject::new().with("ok", Json::Bool(true))))
        } else {
            let message = "goose did not accept that address (HTTP ".to_owned().concat(
                natural_text(status as u64).as_str(),
            ).concat("). Copy the whole address from the page you landed on.");
            error(BAD_REQUEST, message.as_str(), "invalid_request_error")
        },
        Delivery::Unreachable(e) => {
            let message = "goose is not waiting at that address any more (".to_owned().concat(
                e.as_str(),
            ).concat("); start the sign-in again");
            error(BAD_GATEWAY, message.as_str(), "upstream_error")
        },
    }
}

/// Nothing is called unless a sign-in to that provider is under way.
pub proof fn only_a_waiting_sign_in_is_delivered_to(
    state: SignInsView,
    id: Seq<char>,
    parts: Option<UrlView>,
)
    ensures
        !waits_for(state, id) ==> delivery_target(state, id, parts) == Err::<
            Seq<char>,
            ReplyView,
        >(not_waiting_reply(id)),
        delivery_target(state, id, parts) is Ok ==> waits_for(state, id),
{
}

/// This machine is `localhost` in any letter case, every address whose first octet is 127, and the
/// address that is all zeros but for its last bit.
pub proof fn this_machine_goes_by_these_names(domain: Seq<char>, v4: u32, v6: u128)
    ensures
        !is_loopback(HostView::Absent),
        is_loopback(HostView::Domain(domain)) <==> lower(domain) == "localhost"@,
        is_loopback(HostView::Ipv4(v4)) <==> v4 / 0x100_0000 == 127,
        is_loopback(HostView::Ipv6(v6)) <==> v6 == 1,
{
}

/// A web address is one that a sign-in can have been redirected to exactly where it is plain `http`,
/// on this machine, with a port and with a query that is not empty, and has room for the host.
pub proof fn a_redirect_is_known_by_its_parts(p: UrlView)
    ensures
        redirect_port(Some(p)) is Ok <==> {
            &&& p.scheme == "http"@
            &&& is_loopback(p.host)
            &&& p.port is Some
            &&& p.query matches Some(q) && q.len() > 0
            &&& has_room(p, "127.0.0.1"@)
        },
        redirect_port(Some(p)) is Ok ==> p.port == Some(redirect_port(Some(p))->Ok_0),
        redirect_port(None) == Err::<u16, Seq<char>>(
            "That is not a web address. Copy it from the browser's address bar."@,
        ),
        p.scheme != "http"@ ==> redirect_port(Some(p)) == Err::<u16, Seq<char>>(
            "A sign-in redirect address starts with http://"@,
        ),
        p.scheme == "http"@ && !is_loopback(p.host) ==> redirect_port(Some(p)) == Err::<
            u16,
            Seq<char>,
        >(
            "That is not the sign-in redirect: it should start with http://localhost or http://127.0.0.1"@,
        ),
        p.scheme == "http"@ && is_loopback(p.host) && p.port is None ==> redirect_port(Some(p))
            == Err::<u16, Seq<char>>(
            "The address is missing its port, e.g. http://127.0.0.1:56121/…"@,
        ),
        p.scheme == "http"@ && is_loopback(p.host) && p.port is Some && !(p.query matches Some(q)
            && q.len() > 0) ==> redirect_port(Some(p)) == Err::<u16, Seq<char>>(
            "The address is missing the part after '?'; copy the whole address"@,
        ),
        p.scheme == "http"@ && is_loopback(p.host) && p.port is Some && (p.query matches Some(q)
            && q.len() > 0) && !has_room(p, "127.0.0.1"@) ==> redirect_port(Some(p)) == Err::<
            u16,
            Seq<char>,
        >("Could not rewrite the address"@),
{
}

/// A redirect is delivered to the same address with 127.0.0.1 in the place of its host: every
/// character before and behind the host stays, and so do scheme, port and query.
pub proof fn a_delivery_changes_the_host_alone(p: UrlView)
    ensures
        redirect_port(Some(p)) is Ok ==> callback_target(Some(p)) == Ok::<Seq<char>, Seq<char>>(
            p.before_host + "127.0.0.1"@ + p.after_host,
        ),
        redirect_port(Some(p)) matches Err(e) ==> callback_target(Some(p)) == Err::<
            Seq<char>,
            Seq<char>,
        >(e),
        callback_target(None) is Err,
        p.text() == p.before_host + p.host_text + p.after_host,
        p.on_loopback().scheme == p.scheme,
        p.on_loopback().port == p.port,
        p.on_loopback().query == p.query,
        p.on_loopback().before_host == p.before_host,
        p.on_loopback().after_host == p.after_host,
        p.on_loopback().host_text == "127.0.0.1"@,
        p.on_loopback().host matches HostView::Ipv4(n) && n == 127 * 0x100_0000 + 1,
{
}

/// A host that is no longer than the one before it always has room, and so has any in an address that
/// stays within 32 bits. Else what counts is where the last mark comes to stand: `#`, or `?` where
/// there is no `#`, or `/` where there is neither.
pub proof fn room_is_up_to_the_last_mark(p: UrlView, host: Seq<char>)
    ensures
        host.len() <= p.host_text.len() ==> has_room(p, host),
        p.before_host.len() + host.len() + p.after_host.len() <= u32::MAX ==> has_room(p, host),
        ({
            let n = last_mark(p.after_host) as int;
            &&& n <= p.after_host.len()
            &&& has_room(p, host) && host.len() > p.host_text.len() ==> p.before_host.len()
                + host.len() + n <= u32::MAX
            &&& p.before_host.len() + host.len() + n <= u32::MAX ==> has_room(p, host)
            &&& p.after_host.contains('#') ==> n < p.after_host.len() && p.after_host[n] == '#'
                && !p.after_host.take(n).contains('#')
            &&& !p.after_host.contains('#') && p.after_host.contains('?') ==> n
                < p.after_host.len() && p.after_host[n] == '?' && !p.after_host.take(n).contains(
                '?',
            )
            &&& !p.after_host.contains('#') && !p.after_host.contains('?')
                && p.after_host.contains('/') ==> n < p.after_host.len() && p.after_host[n] == '/'
                && !p.after_host.take(n).contains('/')
        }),
{
    let s = p.after_host;
    characters_are_counted_up_to_the_first(s, '#');
    characters_are_counted_up_to_the_first(s, '?');
    characters_are_counted_up_to_the_first(s, '/');
    let n = last_mark(s) as int;
    assert forall|i: int| 0 <= i < n implies s.take(n)[i] == s[i] by {}
}

/// A delivery is refused with 409 where no sign-in to the provider is under way, and else with 400 and
/// the reason where the address is no redirect.
pub proof fn a_refused_delivery_says_why(state: SignInsView, id: Seq<char>, parts: Option<UrlView>)
    ensures
        ({
            let target = delivery_target(state, id, parts);
            let waits = state.active matches Some(active) && active.provider == id;
            &&& !waits ==> target is Err && tells(
                target->Err_0,
                409,
                "No sign-in to "@ + id + " is waiting; start it again"@,
                "conflict_error"@,
            )
            &&& waits && callback_target(parts) is Err ==> target is Err && tells(
                target->Err_0,
                400,
                callback_target(parts)->Err_0,
                "invalid_request_error"@,
            )
            &&& waits && callback_target(parts) is Ok ==> target == Ok::<Seq<char>, ReplyView>(
                callback_target(parts)->Ok_0,
            )
        }),
{
    failures_say_what_went_wrong(
        409,
        "No sign-in to "@ + id + " is waiting; start it again"@,
        "conflict_error"@,
    );
    if let Err(e) = callback_target(parts) {
        failures_say_what_went_wrong(400, e, "invalid_request_error"@);
    }
}

/// A delivery went well exactly where the answer to it has a status from 200 to 299.
pub proof fn a_delivery_is_answered_by_its_status(status: u16, e: String)
    ensures
        ({
            let reply = delivery_reply(Delivery::Answered(status));
            &&& status / 100 == 2 ==> reply.status == 200 && has_just(reply.body, set!["ok"@]) && says(
                reply.body,
                "ok"@,
                JsonView::Bool(true),
            )
            &&& status / 100 != 2 ==> tells(
                reply,
                400,
                "goose did not accept that address (HTTP "@ + decimal(status as int)
                    + "). Copy the whole address from the page you landed on."@,
                "invalid_request_error"@,
            )
        }),
        tells(delivery_reply(Delivery::NoClient(e)), 500, e@, "server_error"@),
        tells(
            delivery_reply(Delivery::Unreachable(e)),
            502,
            "goose is not waiting at that address any more ("@ + e@
                + "); start the sign-in again"@,
            "upstream_error"@,
        ),
{
    failures_say_what_went_wrong(
        400,
        "goose did not accept that address (HTTP "@ + decimal(status as int)
            + "). Copy the whole address from the page you landed on."@,
        "invalid_request_error"@,
    );
    failures_say_what_went_wrong(500, e@, "server_error"@);
    failures_say_what_went_wrong(
        502,
        "goose is not waiting at that address any more ("@ + e@ + "); start the sign-in again"@,
        "upstream_error"@,
    );
}

/// The view of an address leaves nothing out.
pub proof fn views_of_addresses_leave_nothing_out(p: UrlParts, d: String, v4: u32, v6: u128)
    ensures
        p@.scheme == p.scheme@,
        p@.host == p.host@,
        p@.port == p.port,
        p@.query is Some == p.query is Some,
        p.query matches Some(q) ==> p@.query == Some(q@),
        p@.before_host == p.before_host@,
        p@.host_text == p.host_text@,
        p@.after_host == p.after_host@,
        UrlHost::Absent@ is Absent,
        UrlHost::Domain(d)@ == HostView::Domain(d@),
        UrlHost::Ipv4(v4)@ == HostView::Ipv4(v4),
        UrlHost::Ipv6(v6)@ == HostView::Ipv6(v6),
{
}

} // verus!
