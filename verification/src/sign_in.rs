//! Signing in with an account: one sign-in at a time, and what its client is shown.

use crate::json::{has_just, json_text, object_text, says, says_text, Json, JsonObject, JsonView};
use crate::reply::{
    error, failure, failures_say_what_went_wrong, tells, Reply, ReplyView, BAD_GATEWAY, BAD_REQUEST,
    CONFLICT,
};
use crate::setup::{
    has_sign_in, provider_info, provider_json, provider_parts, requests_that_fail_say_why, signs_in,
    unknown, unknown_reply, ConfigKey, Metadata, ProviderInfo, ProviderView, SetupEntry, Stored,
};
use crate::text::{
    begins_with, final_line, has_part, has_text, last_line, parts_are_found_wherever_they_stand, same,
    split_at_first, split_first, splitting_finds_the_first, splitting_once_keeps_both_sides, stands_at,
    trim, trimmed,
};
use vstd::prelude::*;

verus! {

// ---------------------------------------------------------------------------
// One sign-in at a time
// ---------------------------------------------------------------------------

/// The sign-in that is under way.
#[derive(Debug)]
pub struct ActiveSignIn {
    /// Tells it apart from those before and after it.
    pub serial: u64,
    /// The provider that it signs in to.
    pub provider: String,
}

/// Sign-ins. The redirects of some providers come to fixed ports, so there is one at a time.
#[derive(Debug)]
pub struct SignIns {
    active: Option<ActiveSignIn>,
    next: u64,
}

/// What a sign-in that is under way is.
pub struct ActiveView {
    pub serial: u64,
    pub provider: Seq<char>,
}

/// What sign-ins are.
pub struct SignInsView {
    /// The sign-in that is under way.
    pub active: Option<ActiveView>,
    /// The serial number that the next one gets.
    pub next: u64,
}

impl View for SignIns {
    type V = SignInsView;

    closed spec fn view(&self) -> SignInsView {
        SignInsView {
            active: match self.active {
                Some(a) => Some(ActiveView { serial: a.serial, provider: a.provider@ }),
                None => None,
            },
            next: self.next,
        }
    }
}

/// The answer to a sign-in that a provider does not offer.
pub open spec fn no_sign_in_reply(id: Seq<char>) -> ReplyView {
    failure(
        BAD_REQUEST,
        id + " does not sign in with an account; save its settings instead"@,
        "invalid_request_error"@,
    )
}

/// The answer to a sign-in while another is under way.
pub open spec fn busy_reply(provider: Seq<char>) -> ReplyView {
    failure(
        CONFLICT,
        "A sign-in to "@ + provider + " is already in progress; finish or cancel it first"@,
        "conflict_error"@,
    )
}

/// Why a sign-in cannot start, where it cannot: there is no such provider, it has no sign-in, or
/// another sign-in is under way, in this order.
pub open spec fn refusal(
    state: SignInsView,
    id: Seq<char>,
    declared: Option<Seq<ConfigKey>>,
) -> Option<ReplyView> {
    if declared is None {
        Some(unknown_reply(id))
    } else if !signs_in(declared->0) {
        Some(no_sign_in_reply(id))
    } else if state.active is Some {
        Some(busy_reply(state.active->0.provider))
    } else {
        None
    }
}

/// The settings that a provider declares, where there is such a provider.
pub open spec fn opt_keys(declared: Option<Vec<ConfigKey>>) -> Option<Seq<ConfigKey>> {
    match declared {
        Some(keys) => Some(keys@),
        None => None,
    }
}

/// The serial number after another.
pub open spec fn following(serial: u64) -> u64 {
    if serial == u64::MAX {
        0
    } else {
        (serial + 1) as u64
    }
}

/// What sign-ins are once one has started.
pub open spec fn started(state: SignInsView, id: Seq<char>) -> SignInsView {
    SignInsView {
        active: Some(ActiveView { serial: state.next, provider: id }),
        next: following(state.next),
    }
}

/// Whether a serial number is that of the sign-in under way.
pub open spec fn under_way(state: SignInsView, serial: u64) -> bool {
    state.active is Some && state.active->0.serial == serial
}

/// What sign-ins are once the one with a serial number has ended.
pub open spec fn ended(state: SignInsView, serial: u64) -> SignInsView {
    if under_way(state, serial) {
        SignInsView { active: None, next: state.next }
    } else {
        state
    }
}

/// Whether a sign-in to a provider is under way.
pub open spec fn waits_for(state: SignInsView, id: Seq<char>) -> bool {
    state.active is Some && state.active->0.provider == id
}

impl SignIns {
    /// No sign-in is under way.
    pub fn new() -> (r: Self)
        ensures
            r@ == (SignInsView { active: None, next: 1 }),
    {
        SignIns { active: None, next: 1 }
    }

    /// The answer where another sign-in is under way.
    fn busy(&self) -> (r: Option<Reply>)
        ensures
            r is Some == (self@.active is Some),
            r matches Some(reply) ==> reply@ == busy_reply(self@.active->0.provider),
    {
        match &self.active {
            Some(active) => {
                let message = "A sign-in to ".to_owned().concat(active.provider.as_str()).concat(
                    " is already in progress; finish or cancel it first",
                );
                Some(error(CONFLICT, message.as_str(), "conflict_error"))
            },
            None => None,
        }
    }

    /// The answer where a sign-in cannot start.
    fn refused(&self, id: &str, declared: &Option<Vec<ConfigKey>>) -> (r: Option<Reply>)
        ensures
            match r {
                Some(reply) => refusal(self@, id@, opt_keys(*declared)) == Some(reply@),
                None => refusal(self@, id@, opt_keys(*declared)) is None,
            },
    {
        match declared {
            None => Some(unknown(id)),
            Some(keys) => if has_sign_in(keys) {
                self.busy()
            } else {
                let message = id.to_owned().concat(
                    " does not sign in with an account; save its settings instead",
                );
                Some(error(BAD_REQUEST, message.as_str(), "invalid_request_error"))
            },
        }
    }

    /// Starts a sign-in and gives its serial number, unless another is under way.
    pub fn start(&mut self, id: &str) -> (r: Result<u64, Reply>)
        ensures
            match old(self)@.active {
                Some(active) => r matches Err(reply) && reply@ == busy_reply(active.provider)
                    && *final(self) == *old(self),
                None => r == Ok::<u64, Reply>(old(self)@.next) && final(self)@ == started(
                    old(self)@,
                    id@,
                ),
            },
    {
        match self.busy() {
            Some(reply) => Err(reply),
            None => {
                let serial: u64 = self.next;
                self.next = if serial == u64::MAX {
                    0
                } else {
                    serial + 1
                };
                self.active = Some(ActiveSignIn { serial, provider: id.to_owned() });
                Ok(serial)
            },
        }
    }

    /// Ends the sign-in with a serial number, if it is the one under way. Says whether it was: its
    /// work is then to be cancelled.
    pub fn end(&mut self, serial: u64) -> (r: bool)
        ensures
            r == under_way(old(self)@, serial),
            final(self)@ == ended(old(self)@, serial),
    {
        let current: bool = match &self.active {
            Some(active) => active.serial == serial,
            None => false,
        };
        if current {
            self.active = None;
        }
        current
    }

    /// Whether a sign-in to a provider is under way.
    pub fn waiting_for(&self, id: &str) -> (r: bool)
        ensures
            r == waits_for(self@, id@),
    {
        match &self.active {
            Some(active) => same(active.provider.as_str(), id),
            None => false,
        }
    }
}

// ---------------------------------------------------------------------------
// What the client is shown
// ---------------------------------------------------------------------------

/// Progress of a sign-in.
#[allow(inconsistent_fields)]
#[derive(Debug)]
pub enum SignInEvent {
    Started { provider: String },
    /// Show this code and link; the result is being polled for.
    DeviceCode { user_code: String, verification_uri: String, expires_in: u64 },
    /// This page wants opening.
    OpenUrl { url: String },
    /// The provider is set up.
    Done { provider: Box<ProviderView> },
    Error { message: String },
}

/// What progress of a sign-in is.
#[allow(inconsistent_fields)]
pub enum EventView {
    Started { provider: Seq<char> },
    DeviceCode { user_code: Seq<char>, verification_uri: Seq<char>, expires_in: u64 },
    OpenUrl { url: Seq<char> },
    Done { provider: ProviderInfo },
    Error { message: Seq<char> },
}

impl View for SignInEvent {
    type V = EventView;

    open spec fn view(&self) -> EventView {
        match *self {
            SignInEvent::Started { provider } => EventView::Started { provider: provider@ },
            SignInEvent::DeviceCode { user_code, verification_uri, expires_in } => {
                EventView::DeviceCode {
                    user_code: user_code@,
                    verification_uri: verification_uri@,
                    expires_in,
                }
            },
            SignInEvent::OpenUrl { url } => EventView::OpenUrl { url: url@ },
            SignInEvent::Done { provider } => EventView::Done { provider: provider@ },
            SignInEvent::Error { message } => EventView::Error { message: message@ },
        }
    }
}

/// Progress in JSON.
pub open spec fn event_json(event: EventView) -> JsonView {
    JsonView::Object(
        match event {
            EventView::Started { provider } => map![
                "type"@ => JsonView::Text("started"@),
                "provider"@ => JsonView::Text(provider),
            ],
            EventView::DeviceCode { user_code, verification_uri, expires_in } => map![
                "type"@ => JsonView::Text("device_code"@),
                "user_code"@ => JsonView::Text(user_code),
                "verification_uri"@ => JsonView::Text(verification_uri),
                "expires_in"@ => JsonView::Int(expires_in as int),
            ],
            EventView::OpenUrl { url } => map![
                "type"@ => JsonView::Text("open_url"@),
                "url"@ => JsonView::Text(url),
            ],
            EventView::Done { provider } => map![
                "type"@ => JsonView::Text("done"@),
                "provider"@ => provider_json(provider),
            ],
            EventView::Error { message } => map![
                "type"@ => JsonView::Text("error"@),
                "message"@ => JsonView::Text(message),
            ],
        },
    )
}

/// What progress consists of as it is shown, in order: what it is comes first.
pub open spec fn event_parts(event: EventView) -> Seq<(Seq<char>, Seq<char>)> {
    match event {
        EventView::Started { provider } => seq![
            ("type"@, json_text(JsonView::Text("started"@))),
            ("provider"@, json_text(JsonView::Text(provider))),
        ],
        EventView::DeviceCode { user_code, verification_uri, expires_in } => seq![
            ("type"@, json_text(JsonView::Text("device_code"@))),
            ("user_code"@, json_text(JsonView::Text(user_code))),
            ("verification_uri"@, json_text(JsonView::Text(verification_uri))),
            ("expires_in"@, json_text(JsonView::Int(expires_in as int))),
        ],
        EventView::OpenUrl { url } => seq![
            ("type"@, json_text(JsonView::Text("open_url"@))),
            ("url"@, json_text(JsonView::Text(url))),
        ],
        EventView::Done { provider } => seq![
            ("type"@, json_text(JsonView::Text("done"@))),
            ("provider"@, object_text(provider_parts(provider))),
        ],
        EventView::Error { message } => seq![
            ("type"@, json_text(JsonView::Text("error"@))),
            ("message"@, json_text(JsonView::Text(message))),
        ],
    }
}

/// Progress as it is shown.
pub open spec fn event_text(event: EventView) -> Seq<char> {
    object_text(event_parts(event))
}

/// The last that is shown of a sign-in.
pub open spec fn concludes(event: EventView) -> bool {
    event is Done || event is Error
}

impl SignInEvent {
    /// The progress in JSON.
    pub fn to_json(&self) -> (r: Json)
        ensures
            r@ == event_json(self@),
            r.written() == event_text(self@),
    {
        let object = match self {
            SignInEvent::Started { provider } => JsonObject::new().with(
                "type",
                Json::text("started"),
            ).with("provider", Json::text(provider.as_str())),
            SignInEvent::DeviceCode { user_code, verification_uri, expires_in } => {
                JsonObject::new().with("type", Json::text("device_code")).with(
                    "user_code",
                    Json::text(user_code.as_str()),
                ).with("verification_uri", Json::text(verification_uri.as_str())).with(
                    "expires_in",
                    Json::unsigned(*expires_in),
                )
            },
            SignInEvent::OpenUrl { url } => JsonObject::new().with(
                "type",
                Json::text("open_url"),
            ).with("url", Json::text(url.as_str())),
            SignInEvent::Done { provider } => JsonObject::new().with(
                "type",
                Json::text("done"),
            ).with("provider", provider.to_json()),
            SignInEvent::Error { message } => JsonObject::new().with(
                "type",
                Json::text("error"),
            ).with("message", Json::text(message.as_str())),
        };
        assert(object.parts() =~= event_parts(self@));
        Json::object(object)
    }

    /// Whether this is the last that is shown.
    pub fn is_last(&self) -> (r: bool)
        ensures
            r == concludes(self@),
    {
        match self {
            SignInEvent::Done { .. } => true,
            SignInEvent::Error { .. } => true,
            _ => false,
        }
    }
}

/// The data of the event that shows progress.
pub fn sse(event: &SignInEvent) -> (r: String)
    ensures
        r@ == event_text(event@),
{
    event.to_json().into_written()
}

/// The stream in which a client is shown a sign-in.
#[derive(Debug)]
pub struct SignInStream {
    finished: bool,
}

/// What one event does to a stream, whether it is finished before: what is shown, and whether it
/// is finished then. `None` says that no more events will come.
pub open spec fn shown(finished: bool, event: Option<EventView>) -> (Option<Seq<char>>, bool) {
    if finished || event is None {
        (None, true)
    } else {
        (Some(event_text(event->0)), concludes(event->0))
    }
}

impl View for SignInStream {
    type V = bool;

    /// Whether the stream is finished.
    closed spec fn view(&self) -> bool {
        self.finished
    }
}

impl SignInStream {
    /// Nothing has been shown yet.
    pub fn new() -> (r: Self)
        ensures
            !r@,
    {
        SignInStream { finished: false }
    }

    /// Whether there is nothing more to wait for.
    pub fn is_finished(&self) -> (r: bool)
        ensures
            r == self@,
    {
        self.finished
    }

    /// What is shown of an event; nothing where no more will come.
    pub fn step(&mut self, event: Option<SignInEvent>) -> (r: Option<String>)
        ensures
            ({
                let seen = shown(
                    old(self)@,
                    match event {
                        Some(e) => Some(e@),
                        None => None,
                    },
                );
                &&& final(self)@ == seen.1
                &&& match r {
                    Some(line) => seen.0 == Some(line@),
                    None => seen.0 is None,
                }
            }),
    {
        if self.finished {
            return None;
        }
        match event {
            Some(e) => {
                self.finished = e.is_last();
                Some(sse(&e))
            },
            None => {
                self.finished = true;
                None
            },
        }
    }
}

/// All that a stream shows of the events of a sign-in.
pub open spec fn all_shown(finished: bool, events: Seq<EventView>) -> Seq<Seq<char>>
    decreases events.len(),
{
    if events.len() == 0 {
        Seq::empty()
    } else {
        let seen = shown(finished, Some(events[0]));
        let rest = all_shown(seen.1, events.skip(1));
        match seen.0 {
            Some(line) => seq![line] + rest,
            None => rest,
        }
    }
}

proof fn lemma_finished_shows_nothing(events: Seq<EventView>)
    ensures
        all_shown(true, events) == Seq::<Seq<char>>::empty(),
    decreases events.len(),
{
    if events.len() > 0 {
        lemma_finished_shows_nothing(events.skip(1));
    }
}

/// A stream shows every event up to and including the one that concludes the sign-in, in order, and
/// nothing after it.
pub proof fn nothing_is_shown_after_the_conclusion(events: Seq<EventView>, n: int)
    requires
        0 <= n < events.len(),
        concludes(events[n]),
        forall|i: int| 0 <= i < n ==> !concludes(#[trigger] events[i]),
    ensures
        all_shown(false, events) == events.take(n + 1).map_values(
            |e: EventView| event_text(e),
        ),
    decreases events.len(),
{
    let line = |e: EventView| event_text(e);
    let rest = events.skip(1);
    if n == 0 {
        lemma_finished_shows_nothing(rest);
    } else {
        assert(rest[n - 1] == events[n]);
        assert forall|i: int| 0 <= i < n - 1 implies !concludes(#[trigger] rest[i]) by {
            assert(rest[i] == events[i + 1]);
        }
        nothing_is_shown_after_the_conclusion(rest, n - 1);
    }
    assert(all_shown(false, events) =~= events.take(n + 1).map_values(line));
}

// ---------------------------------------------------------------------------
// The course of a sign-in
// ---------------------------------------------------------------------------

/// How far a sign-in has come.
#[derive(Clone, Copy, Debug, PartialEq, Eq, Structural)]
pub enum SignInStage {
    /// Can it start?
    Checking,
    /// The provider is made ready.
    Preparing,
    /// It is under way.
    Running,
    /// It went well, and the provider is looked up.
    Looking,
    /// It is over, or was refused.
    Over,
}

/// What happens outside.
#[derive(Debug)]
pub enum SignInInput {
    /// What the provider declares, where there is such a provider.
    Declared(Option<Vec<ConfigKey>>),
    /// The provider is ready.
    Prepared,
    /// The provider could not be made ready.
    Unprepared(String),
    /// The sign-in went well, or failed.
    Finished(Result<(), String>),
    /// The provider as it is now, where it is still there.
    Viewed(Option<ProviderView>),
}

pub enum InputView {
    Declared(Option<Seq<ConfigKey>>),
    Prepared,
    Unprepared(Seq<char>),
    Finished(Result<(), Seq<char>>),
    Viewed(Option<ProviderInfo>),
}

/// What to do.
#[derive(Debug)]
pub enum SignInAction {
    /// Make the provider ready.
    Prepare,
    /// Open the stream with this event, listen to the log, and run the sign-in. It is the one under
    /// way, with this serial number.
    Run { serial: u64, event: SignInEvent },
    /// Stop listening to the log, read the secrets anew and drop the provider that is kept ready.
    /// Then show the event; where there is none, look the provider up.
    Settle(Option<SignInEvent>),
    /// Show this event.
    Show(SignInEvent),
    /// Answer with this in place of a stream.
    Answer(Reply),
    /// Nothing is owed to an event that comes out of turn.
    Ignore,
}

pub enum ActionView {
    Prepare,
    Run { serial: u64, event: EventView },
    Settle(Option<EventView>),
    Show(EventView),
    Answer(ReplyView),
    Ignore,
}

impl View for SignInInput {
    type V = InputView;

    open spec fn view(&self) -> InputView {
        match *self {
            SignInInput::Declared(declared) => InputView::Declared(opt_keys(declared)),
            SignInInput::Prepared => InputView::Prepared,
            SignInInput::Unprepared(e) => InputView::Unprepared(e@),
            SignInInput::Finished(Ok(_)) => InputView::Finished(Ok(())),
            SignInInput::Finished(Err(e)) => InputView::Finished(Err(e@)),
            SignInInput::Viewed(Some(v)) => InputView::Viewed(Some(v@)),
            SignInInput::Viewed(None) => InputView::Viewed(None),
        }
    }
}

impl View for SignInAction {
    type V = ActionView;

    open spec fn view(&self) -> ActionView {
        match *self {
            SignInAction::Prepare => ActionView::Prepare,
            SignInAction::Run { serial, event } => ActionView::Run { serial, event: event@ },
            SignInAction::Settle(Some(event)) => ActionView::Settle(Some(event@)),
            SignInAction::Settle(None) => ActionView::Settle(None),
            SignInAction::Show(event) => ActionView::Show(event@),
            SignInAction::Answer(reply) => ActionView::Answer(reply@),
            SignInAction::Ignore => ActionView::Ignore,
        }
    }
}

/// The answer where a provider could not be made ready to sign in to.
pub open spec fn prepare_reply(id: Seq<char>, e: Seq<char>) -> ReplyView {
    failure(BAD_GATEWAY, "goose could not prepare "@ + id + ": "@ + e, "upstream_error"@)
}

/// The event that ends a sign-in that went well: the provider, or that it is gone.
pub open spec fn conclusion(id: Seq<char>, view: Option<ProviderInfo>) -> EventView {
    match view {
        Some(provider) => EventView::Done { provider },
        None => EventView::Error { message: id + " disappeared from goose's catalog"@ },
    }
}

/// What happens next to a sign-in, and to the sign-ins as a whole.
pub open spec fn sign_in_next(
    state: SignInsView,
    id: Seq<char>,
    stage: SignInStage,
    input: InputView,
) -> (SignInsView, SignInStage, ActionView) {
    match (stage, input) {
        (SignInStage::Checking, InputView::Declared(declared)) => match refusal(
            state,
            id,
            declared,
        ) {
            Some(reply) => (state, SignInStage::Over, ActionView::Answer(reply)),
            None => (state, SignInStage::Preparing, ActionView::Prepare),
        },
        (SignInStage::Preparing, InputView::Unprepared(e)) => (
            state,
            SignInStage::Over,
            ActionView::Answer(prepare_reply(id, e)),
        ),
        // Another may have started meanwhile.
        (SignInStage::Preparing, InputView::Prepared) => match state.active {
            Some(active) => (
                state,
                SignInStage::Over,
                ActionView::Answer(busy_reply(active.provider)),
            ),
            None => (
                started(state, id),
                SignInStage::Running,
                ActionView::Run { serial: state.next, event: EventView::Started { provider: id } },
            ),
        },
        (SignInStage::Running, InputView::Finished(Ok(_))) => (
            state,
            SignInStage::Looking,
            ActionView::Settle(None),
        ),
        (SignInStage::Running, InputView::Finished(Err(message))) => (
            state,
            SignInStage::Over,
            ActionView::Settle(Some(EventView::Error { message })),
        ),
        (SignInStage::Looking, InputView::Viewed(view)) => (
            state,
            SignInStage::Over,
            ActionView::Show(conclusion(id, view)),
        ),
        _ => (state, stage, ActionView::Ignore),
    }
}

/// Takes a sign-in further.
pub fn sign_in(sign_ins: &mut SignIns, id: &str, stage: SignInStage, input: SignInInput) -> (r: (
    SignInStage,
    SignInAction,
))
    ensures
        (final(sign_ins)@, r.0, r.1@) == sign_in_next(old(sign_ins)@, id@, stage, input@),
{
    match (stage, input) {
        (SignInStage::Checking, SignInInput::Declared(declared)) => match sign_ins.refused(
            id,
            &declared,
        ) {
            Some(reply) => (SignInStage::Over, SignInAction::Answer(reply)),
            None => (SignInStage::Preparing, SignInAction::Prepare),
        },
        (SignInStage::Preparing, SignInInput::Unprepared(e)) => {
            let message = "goose could not prepare ".to_owned().concat(id).concat(": ").concat(
                e.as_str(),
            );
            let reply = error(BAD_GATEWAY, message.as_str(), "upstream_error");
            (SignInStage::Over, SignInAction::Answer(reply))
        },
        (SignInStage::Preparing, SignInInput::Prepared) => match sign_ins.start(id) {
            Ok(serial) => {
                let event = SignInEvent::Started { provider: id.to_owned() };
                (SignInStage::Running, SignInAction::Run { serial, event })
            },
            Err(reply) => (SignInStage::Over, SignInAction::Answer(reply)),
        },
        (SignInStage::Running, SignInInput::Finished(Ok(_))) => (
            SignInStage::Looking,
            SignInAction::Settle(None),
        ),
        (SignInStage::Running, SignInInput::Finished(Err(message))) => (
            SignInStage::Over,
            SignInAction::Settle(Some(SignInEvent::Error { message })),
        ),
        (SignInStage::Looking, SignInInput::Viewed(view)) => {
            let event = match view {
                Some(provider) => SignInEvent::Done { provider: Box::new(provider) },
                None => SignInEvent::Error {
                    message: id.to_owned().concat(" disappeared from goose's catalog"),
                },
            };
            (SignInStage::Over, SignInAction::Show(event))
        },
        (stage, _) => (stage, SignInAction::Ignore),
    }
}

/// A sign-in runs only where no other is under way, and is then the one that is.
pub proof fn a_sign_in_runs_alone(
    state: SignInsView,
    id: Seq<char>,
    stage: SignInStage,
    input: InputView,
)
    ensures
        ({
            let (after, _, action) = sign_in_next(state, id, stage, input);
            action matches ActionView::Run { serial, event } ==> {
                &&& state.active is None
                &&& waits_for(after, id)
                &&& under_way(after, serial)
                &&& event == EventView::Started { provider: id }
            }
        }),
{
}

/// The event that concludes a sign-in comes with its end, and nothing comes after it. A sign-in that
/// was refused starts nothing.
pub proof fn a_sign_in_concludes_once(
    state: SignInsView,
    id: Seq<char>,
    stage: SignInStage,
    input: InputView,
)
    ensures
        ({
            let (after, next, action) = sign_in_next(state, id, stage, input);
            &&& action matches ActionView::Show(event) ==> concludes(event) && next is Over
            &&& action matches ActionView::Settle(Some(event)) ==> concludes(event) && next is Over
            &&& action is Answer ==> next is Over && after == state
            &&& stage is Over ==> next is Over && action is Ignore && after == state
        }),
{
}

/// While a sign-in is under way no other starts, whatever its provider: it is answered with a
/// conflict. Once it has ended, one can.
pub proof fn one_sign_in_at_a_time(
    state: SignInsView,
    id: Seq<char>,
    other: Seq<char>,
    keys: Seq<ConfigKey>,
)
    requires
        state.active is None,
        signs_in(keys),
    ensures
        refusal(state, id, Some(keys)) is None,
        refusal(started(state, id), other, Some(keys)) == Some(busy_reply(id)),
        refusal(ended(started(state, id), state.next), other, Some(keys)) is None,
{
}

/// Ending a sign-in that was over already does not end the one after it.
pub proof fn an_earlier_sign_in_ends_no_later_one(
    state: SignInsView,
    id: Seq<char>,
    other: Seq<char>,
)
    requires
        state.active is None,
    ensures
        ({
            let over = ended(started(state, id), state.next);
            let later = started(over, other);
            &&& over.active is None
            &&& ended(later, state.next) == later
            &&& waits_for(ended(later, state.next), other)
        }),
{
}

// ---------------------------------------------------------------------------
// Log lines
// ---------------------------------------------------------------------------

/// The address on the last line of a message that asks for a page to be opened.
pub open spec fn page_in(message: Seq<char>) -> Option<Seq<char>> {
    let url = trimmed(last_line(message));
    if has_part(message, "open this URL in your browser"@) && "https://"@.is_prefix_of(url) {
        Some(url)
    } else {
        None
    }
}

/// The address and the code in `… open <address> and enter code <code>`.
pub open spec fn code_in(message: Seq<char>) -> Option<(Seq<char>, Seq<char>)> {
    match split_at_first(message, " open "@) {
        None => None,
        Some(around) => match split_at_first(around.1, " and enter code "@) {
            None => None,
            Some(parts) => {
                let uri = trimmed(parts.0);
                let code = trimmed(parts.1);
                if "https://"@.is_prefix_of(uri) && code.len() > 0 && !has_part(code, " "@) {
                    Some((uri, code))
                } else {
                    None
                }
            },
        },
    }
}

/// What a log message says of a sign-in: a page to open, or else a code to enter. How long a code
/// lasts is not logged, so 0 stands for it.
pub open spec fn sign_in_line(message: Seq<char>) -> Option<EventView> {
    match page_in(message) {
        Some(url) => Some(EventView::OpenUrl { url }),
        None => match code_in(message) {
            Some(found) => Some(
                EventView::DeviceCode {
                    user_code: found.1,
                    verification_uri: found.0,
                    expires_in: 0,
                },
            ),
            None => None,
        },
    }
}

/// What a log message says of a sign-in.
pub fn parse_sign_in_line(message: &str) -> (r: Option<SignInEvent>)
    ensures
        match r {
            Some(event) => sign_in_line(message@) == Some(event@),
            None => sign_in_line(message@) is None,
        },
{
    if has_text(message, "open this URL in your browser") {
        proof {
            reveal_strlit("open this URL in your browser");
        }
        match final_line(message) {
            Some(line) => {
                let url = trim(line.as_str());
                if begins_with(url.as_str(), "https://") {
                    return Some(SignInEvent::OpenUrl { url });
                }
            },
            None => {},
        }
    }
    match split_first(message, " open ") {
        None => None,
        Some(around) => match split_first(around.1.as_str(), " and enter code ") {
            None => None,
            Some(parts) => {
                let uri = trim(parts.0.as_str());
                let code = trim(parts.1.as_str());
                if begins_with(uri.as_str(), "https://") && !code.as_str().is_empty() && !has_text(
                    code.as_str(),
                    " ",
                ) {
                    Some(
                        SignInEvent::DeviceCode {
                            user_code: code,
                            verification_uri: uri,
                            expires_in: 0,
                        },
                    )
                } else {
                    None
                }
            },
        },
    }
}

/// Listens to the log for what it says of a sign-in.
pub struct SignInLogTap;

impl SignInLogTap {
    /// What a log message says of a sign-in, if goose wrote it.
    pub fn on_event(&self, target: &str, message: &str) -> (r: Option<SignInEvent>)
        ensures
            match r {
                Some(event) => "goose"@.is_prefix_of(target@) && sign_in_line(message@) == Some(
                    event@,
                ),
                None => "goose"@.is_prefix_of(target@) ==> sign_in_line(message@) is None,
            },
    {
        if begins_with(target, "goose") {
            parse_sign_in_line(message)
        } else {
            None
        }
    }
}

/// The text of a log message, gathered from its fields.
#[derive(Debug)]
pub struct MessageText(pub String);

impl Default for MessageText {
    fn default() -> (r: Self)
        ensures
            r.0@ == Seq::<char>::empty(),
    {
        MessageText(String::new())
    }
}

impl MessageText {
    /// Takes note of a field. The text is in the one called `message`.
    pub fn record(&mut self, field: &str, value: &str)
        ensures
            final(self).0@ == if field@ == "message"@ {
                value@
            } else {
                old(self).0@
            },
    {
        if same(field, "message") {
            self.0 = value.to_owned();
        }
    }
}

/// Whatever is logged, only addresses that start with `https://` reach the client, and no code is
/// empty or has a space in it.
pub proof fn only_secure_pages_are_forwarded(message: Seq<char>)
    ensures
        match sign_in_line(message) {
            None => true,
            Some(EventView::OpenUrl { url }) => "https://"@.is_prefix_of(url),
            Some(EventView::DeviceCode { user_code, verification_uri, expires_in }) => {
                &&& "https://"@.is_prefix_of(verification_uri)
                &&& user_code.len() > 0
                &&& !has_part(user_code, " "@)
                &&& expires_in == 0
            },
            Some(_) => false,
        },
{
}

/// What is forwarded of the log never concludes a sign-in.
pub proof fn the_log_concludes_nothing(message: Seq<char>)
    ensures
        sign_in_line(message) is Some ==> !concludes(sign_in_line(message)->0),
{
}

// ---------------------------------------------------------------------------
// What clients are told
// ---------------------------------------------------------------------------

/// Why a sign-in cannot start: 404 where there is no such provider, else 400 where none of its
/// settings is filled by a sign-in, else 409 where another sign-in is under way. Else it can.
pub proof fn a_sign_in_is_refused_for_a_reason(
    state: SignInsView,
    id: Seq<char>,
    keys: Seq<ConfigKey>,
)
    ensures
        ({
            let offered = exists|i: int| 0 <= i < keys.len() && (#[trigger] keys[i]).oauth_flow;
            let refused = refusal(state, id, Some(keys));
            &&& refusal(state, id, None) is Some
            &&& tells(
                refusal(state, id, None)->0,
                404,
                "goose has no provider called "@ + id,
                "invalid_request_error"@,
            )
            &&& refused is None <==> offered && state.active is None
            &&& !offered ==> refused is Some && tells(
                refused->0,
                400,
                id + " does not sign in with an account; save its settings instead"@,
                "invalid_request_error"@,
            )
            &&& offered && state.active is Some ==> refused is Some && tells(
                refused->0,
                409,
                "A sign-in to "@ + state.active->0.provider
                    + " is already in progress; finish or cancel it first"@,
                "conflict_error"@,
            )
        }),
{
    requests_that_fail_say_why(id, id);
    failures_say_what_went_wrong(
        400,
        id + " does not sign in with an account; save its settings instead"@,
        "invalid_request_error"@,
    );
    if state.active is Some {
        failures_say_what_went_wrong(
            409,
            "A sign-in to "@ + state.active->0.provider
                + " is already in progress; finish or cancel it first"@,
            "conflict_error"@,
        );
    }
}

/// A provider is shown as one to sign in to exactly where a sign-in to it can start while no other is
/// under way, so a client that offers sign-ins by what it is shown is never refused for want of one.
pub proof fn sign_ins_are_shown_where_they_can_start(
    state: SignInsView,
    id: Seq<char>,
    entry: SetupEntry,
    metadata: Metadata,
    stored: Seq<Stored>,
    configured: bool,
)
    requires
        state.active is None,
    ensures
        ({
            let shown = provider_info(entry, metadata, stored, configured);
            let started = sign_in_next(
                state,
                id,
                SignInStage::Checking,
                InputView::Declared(Some(metadata.config_keys@)),
            );
            &&& shown.sign_in <==> refusal(state, id, Some(metadata.config_keys@)) is None
            &&& shown.sign_in <==> started.2 is Prepare
            &&& shown.sign_in <==> exists|i: int|
                0 <= i < metadata.config_keys@.len()
                    && (#[trigger] metadata.config_keys@[i]).oauth_flow
        }),
{
}

/// A sign-in goes from one step to the next: it is made ready, it runs under the next serial number,
/// and how it went is shown. What goes wrong is told, and no other sign-in is touched by it.
pub proof fn a_sign_in_goes_step_by_step(
    state: SignInsView,
    id: Seq<char>,
    declared: Option<Seq<ConfigKey>>,
    e: Seq<char>,
    provider: ProviderInfo,
)
    ensures
        ({
            let (after, stage, action) = sign_in_next(
                state,
                id,
                SignInStage::Checking,
                InputView::Declared(declared),
            );
            &&& after == state
            &&& refusal(state, id, declared) is None ==> stage is Preparing && action is Prepare
            &&& refusal(state, id, declared) matches Some(reply) ==> stage is Over && action
                == ActionView::Answer(reply)
        }),
        ({
            let (after, stage, action) = sign_in_next(
                state,
                id,
                SignInStage::Preparing,
                InputView::Unprepared(e),
            );
            &&& after == state
            &&& stage is Over
            &&& action is Answer
            &&& tells(
                action->Answer_0,
                502,
                "goose could not prepare "@ + id + ": "@ + e,
                "upstream_error"@,
            )
        }),
        ({
            let (after, stage, action) = sign_in_next(
                state,
                id,
                SignInStage::Preparing,
                InputView::Prepared,
            );
            &&& state.active is None ==> {
                &&& stage is Running
                &&& action == ActionView::Run {
                    serial: state.next,
                    event: EventView::Started { provider: id },
                }
                &&& after.active is Some
                &&& after.active->0.serial == state.next
                &&& after.active->0.provider == id
                &&& after.next != state.next
            }
            &&& state.active is Some ==> {
                &&& after == state
                &&& stage is Over
                &&& action is Answer
                &&& tells(
                    action->Answer_0,
                    409,
                    "A sign-in to "@ + state.active->0.provider
                        + " is already in progress; finish or cancel it first"@,
                    "conflict_error"@,
                )
            }
        }),
        sign_in_next(state, id, SignInStage::Running, InputView::Finished(Ok(()))) == (
            state,
            SignInStage::Looking,
            ActionView::Settle(None),
        ),
        sign_in_next(state, id, SignInStage::Running, InputView::Finished(Err(e))) == (
            state,
            SignInStage::Over,
            ActionView::Settle(Some(EventView::Error { message: e })),
        ),
        sign_in_next(state, id, SignInStage::Looking, InputView::Viewed(Some(provider))) == (
            state,
            SignInStage::Over,
            ActionView::Show(EventView::Done { provider }),
        ),
        sign_in_next(state, id, SignInStage::Looking, InputView::Viewed(None)) == (
            state,
            SignInStage::Over,
            ActionView::Show(
                EventView::Error { message: id + " disappeared from goose's catalog"@ },
            ),
        ),
{
    failures_say_what_went_wrong(
        502,
        "goose could not prepare "@ + id + ": "@ + e,
        "upstream_error"@,
    );
    if state.active is Some {
        failures_say_what_went_wrong(
            409,
            "A sign-in to "@ + state.active->0.provider
                + " is already in progress; finish or cancel it first"@,
            "conflict_error"@,
        );
    }
}

/// What comes out of turn changes nothing, and nothing is owed to it.
pub proof fn what_comes_out_of_turn_is_ignored(
    state: SignInsView,
    id: Seq<char>,
    stage: SignInStage,
    input: InputView,
)
    requires
        stage is Checking ==> !(input is Declared),
        stage is Preparing ==> !(input is Prepared || input is Unprepared),
        stage is Running ==> !(input is Finished),
        stage is Looking ==> !(input is Viewed),
    ensures
        sign_in_next(state, id, stage, input) == (state, stage, ActionView::Ignore),
{
}

/// A serial number ends the sign-in that it was given to, and no other; a sign-in is waited for under
/// the id of its provider and no other.
pub proof fn a_serial_number_ends_its_own_sign_in(state: SignInsView, serial: u64, id: Seq<char>)
    ensures
        state.active is None ==> !under_way(state, serial) && ended(state, serial) == state
            && !waits_for(state, id),
        state.active matches Some(active) ==> {
            &&& under_way(state, serial) <==> active.serial == serial
            &&& waits_for(state, id) <==> active.provider == id
            &&& active.serial == serial ==> ended(state, serial).active is None && ended(
                state,
                serial,
            ).next == state.next
            &&& active.serial != serial ==> ended(state, serial) == state
        },
        following(serial) != serial,
        serial < u64::MAX ==> following(serial) == serial + 1,
        following(u64::MAX) == 0,
{
}

proof fn lemma_event_keys_differ()
    ensures
        "type"@ != "provider"@,
        "type"@ != "user_code"@,
        "type"@ != "verification_uri"@,
        "type"@ != "expires_in"@,
        "type"@ != "url"@,
        "type"@ != "message"@,
        "provider"@ != "user_code"@,
        "provider"@ != "verification_uri"@,
        "provider"@ != "expires_in"@,
        "provider"@ != "url"@,
        "provider"@ != "message"@,
        "user_code"@ != "verification_uri"@,
        "user_code"@ != "expires_in"@,
        "user_code"@ != "url"@,
        "user_code"@ != "message"@,
        "verification_uri"@ != "expires_in"@,
        "verification_uri"@ != "url"@,
        "verification_uri"@ != "message"@,
        "expires_in"@ != "url"@,
        "expires_in"@ != "message"@,
        "url"@ != "message"@,
{
    reveal_strlit("type");
    reveal_strlit("provider");
    reveal_strlit("user_code");
    reveal_strlit("verification_uri");
    reveal_strlit("expires_in");
    reveal_strlit("url");
    reveal_strlit("message");
    assert("type"@.len() == 4);
    assert("provider"@.len() == 8);
    assert("user_code"@.len() == 9);
    assert("verification_uri"@.len() == 16);
    assert("expires_in"@.len() == 10);
    assert("url"@.len() == 3);
    assert("message"@.len() == 7);
}

/// Progress says of what kind it is, and what there is to say of it.
pub proof fn progress_says_what_it_is(
    text: Seq<char>,
    other: Seq<char>,
    seconds: u64,
    info: ProviderInfo,
)
    ensures
        ({
            let value = event_json(EventView::Started { provider: text });
            &&& has_just(value, set!["type"@, "provider"@])
            &&& says_text(value, "type"@, "started"@)
            &&& says_text(value, "provider"@, text)
        }),
        ({
            let value = event_json(
                EventView::DeviceCode {
                    user_code: text,
                    verification_uri: other,
                    expires_in: seconds,
                },
            );
            &&& has_just(value, set!["type"@, "user_code"@, "verification_uri"@, "expires_in"@])
            &&& says_text(value, "type"@, "device_code"@)
            &&& says_text(value, "user_code"@, text)
            &&& says_text(value, "verification_uri"@, other)
            &&& says(value, "expires_in"@, JsonView::Int(seconds as int))
        }),
        ({
            let value = event_json(EventView::OpenUrl { url: text });
            &&& has_just(value, set!["type"@, "url"@])
            &&& says_text(value, "type"@, "open_url"@)
            &&& says_text(value, "url"@, text)
        }),
        ({
            let value = event_json(EventView::Done { provider: info });
            &&& has_just(value, set!["type"@, "provider"@])
            &&& says_text(value, "type"@, "done"@)
            &&& says(value, "provider"@, provider_json(info))
        }),
        ({
            let value = event_json(EventView::Error { message: text });
            &&& has_just(value, set!["type"@, "message"@])
            &&& says_text(value, "type"@, "error"@)
            &&& says_text(value, "message"@, text)
        }),
{
    lemma_event_keys_differ();
}

/// Progress goes out with its kind first, and then with the members of its JSON in order.
pub proof fn progress_goes_out_in_order(event: EventView)
    ensures
        ({
            let value = event_json(event)->Object_0;
            let kind = ("type"@, json_text(value["type"@]));
            event_text(event) == object_text(
                match event {
                    EventView::Started { provider } => seq![
                        kind,
                        ("provider"@, json_text(value["provider"@])),
                    ],
                    EventView::DeviceCode { user_code, verification_uri, expires_in } => seq![
                        kind,
                        ("user_code"@, json_text(value["user_code"@])),
                        ("verification_uri"@, json_text(value["verification_uri"@])),
                        ("expires_in"@, json_text(value["expires_in"@])),
                    ],
                    EventView::OpenUrl { url } => seq![kind, ("url"@, json_text(value["url"@]))],
                    EventView::Done { provider } => seq![
                        kind,
                        ("provider"@, object_text(provider_parts(provider))),
                    ],
                    EventView::Error { message } => seq![
                        kind,
                        ("message"@, json_text(value["message"@])),
                    ],
                },
            )
        }),
{
    lemma_event_keys_differ();
}

/// An event is shown unless the stream is finished; it finishes the stream exactly where it is the
/// provider that was signed in to, or a failure.
pub proof fn events_are_shown_until_the_last(finished: bool, event: EventView)
    ensures
        shown(true, Some(event)) == (None::<Seq<char>>, true),
        shown(finished, None) == (None::<Seq<char>>, true),
        shown(false, Some(event)).0 == Some(event_text(event)),
        shown(false, Some(event)).1 <==> event is Done || event is Error,
{
}

/// A message that asks for a page to be opened is taken for that exactly where its last line, trimmed,
/// is a secure address; that is then the page.
pub proof fn pages_to_open_are_found(message: Seq<char>)
    requires
        has_part(message, "open this URL in your browser"@),
        "https://"@.is_prefix_of(trimmed(last_line(message))),
    ensures
        sign_in_line(message) == Some(EventView::OpenUrl { url: trimmed(last_line(message)) }),
{
}

/// A message that tells where to enter a code is taken for that: what stands between the first
/// ` open ` and the first ` and enter code ` behind it is the address, what follows is the code, both
/// trimmed. The address has to be secure, and the code a single word.
pub proof fn codes_to_enter_are_found(before: Seq<char>, page: Seq<char>, code: Seq<char>)
    requires
        ({
            let told = page + " and enter code "@ + code;
            let message = before + " open "@ + told;
            &&& !(has_part(message, "open this URL in your browser"@) && "https://"@.is_prefix_of(
                trimmed(last_line(message)),
            ))
            &&& forall|i: int| 0 <= i < before.len() ==> !stands_at(message, " open "@, i)
            &&& forall|i: int| 0 <= i < page.len() ==> !stands_at(told, " and enter code "@, i)
        }),
    ensures
        ({
            let told = page + " and enter code "@ + code;
            let message = before + " open "@ + told;
            let fit = "https://"@.is_prefix_of(trimmed(page)) && trimmed(code).len() > 0
                && !has_part(trimmed(code), " "@);
            &&& fit ==> sign_in_line(message) == Some(
                EventView::DeviceCode {
                    user_code: trimmed(code),
                    verification_uri: trimmed(page),
                    expires_in: 0,
                },
            )
            &&& !fit ==> sign_in_line(message) is None
        }),
{
    let told = page + " and enter code "@ + code;
    let message = before + " open "@ + told;
    splitting_finds_the_first(before, " open "@, told);
    splitting_finds_the_first(page, " and enter code "@, code);
}

/// A message that speaks of neither a page nor a code says nothing of a sign-in.
pub proof fn other_messages_say_nothing(message: Seq<char>)
    requires
        !(has_part(message, "open this URL in your browser"@) && "https://"@.is_prefix_of(
            trimmed(last_line(message)),
        )),
        !has_part(message, " open "@) || !has_part(message, " and enter code "@),
    ensures
        sign_in_line(message) is None,
{
    splitting_once_keeps_both_sides(message, " open "@);
    if let Some((before, told)) = split_at_first(message, " open "@) {
        splitting_once_keeps_both_sides(told, " and enter code "@);
        if let Some((page, code)) = split_at_first(told, " and enter code "@) {
            parts_are_found_wherever_they_stand(
                before + " open "@ + page,
                " and enter code "@,
                code,
            );
            assert(message =~= before + " open "@ + page + " and enter code "@ + code);
        }
    }
}

/// The view of an event leaves nothing out.
pub proof fn views_of_events_leave_nothing_out(
    text: String,
    other: String,
    seconds: u64,
    provider: Box<ProviderView>,
)
    ensures
        (SignInEvent::Started { provider: text })@ == (EventView::Started { provider: text@ }),
        (SignInEvent::DeviceCode {
            user_code: text,
            verification_uri: other,
            expires_in: seconds,
        })@ == (EventView::DeviceCode {
            user_code: text@,
            verification_uri: other@,
            expires_in: seconds,
        }),
        (SignInEvent::OpenUrl { url: text })@ == (EventView::OpenUrl { url: text@ }),
        (SignInEvent::Done { provider })@ == (EventView::Done { provider: provider@ }),
        (SignInEvent::Error { message: text })@ == (EventView::Error { message: text@ }),
{
}

/// The view of what happens to a sign-in, or of what to do, leaves nothing out.
pub proof fn views_of_steps_leave_nothing_out(
    keys: Vec<ConfigKey>,
    e: String,
    provider: ProviderView,
    serial: u64,
    event: SignInEvent,
    reply: Reply,
)
    ensures
        SignInInput::Declared(Some(keys))@ == InputView::Declared(Some(keys@)),
        SignInInput::Declared(None)@ == InputView::Declared(None),
        SignInInput::Prepared@ is Prepared,
        SignInInput::Unprepared(e)@ == InputView::Unprepared(e@),
        SignInInput::Finished(Ok(()))@ == InputView::Finished(Ok(())),
        SignInInput::Finished(Err(e))@ == InputView::Finished(Err(e@)),
        SignInInput::Viewed(Some(provider))@ == InputView::Viewed(Some(provider@)),
        SignInInput::Viewed(None)@ == InputView::Viewed(None),
        SignInAction::Prepare@ is Prepare,
        (SignInAction::Run { serial, event })@ == (ActionView::Run { serial, event: event@ }),
        SignInAction::Settle(Some(event))@ == ActionView::Settle(Some(event@)),
        SignInAction::Settle(None)@ == ActionView::Settle(None),
        SignInAction::Show(event)@ == ActionView::Show(event@),
        SignInAction::Answer(reply)@ == ActionView::Answer(reply@),
        SignInAction::Ignore@ is Ignore,
{
}

} // verus!
