//! Key events as the notification sink receives them, how raw input events
//! become key events, and where they are sent.

use vstd::prelude::*;
use vstd::string::*;

use crate::config::{opt_view, HomeAssistantConfig};

verus! {

#[verifier::external_type_specification]
#[verifier::external_body]
pub struct ExUrl(url::Url);

#[verifier::external_type_specification]
#[verifier::external_body]
pub struct ExUrlParseError(url::ParseError);

/// The serialisation of the URL that `url::Url::parse` reads from `input`,
/// where it reads one.
pub uninterp spec fn url_parsed(input: Seq<char>) -> Option<Seq<char>>;

/// The serialisation of the URL that `url::Url::join` resolves `reference`
/// to against the URL serialised as `base`, where it resolves to one.
pub uninterp spec fn url_joined(base: Seq<char>, reference: Seq<char>) -> Option<Seq<char>>;

/// A parsed URL together with its serialisation. Only [`parse_url`] and
/// [`join_url`] make one, so the two always belong together.
pub struct Address {
    text: String,
    url: url::Url,
}

impl Address {
    /// The URL as text.
    pub closed spec fn text(&self) -> Seq<char> {
        self.text@
    }

    /// The URL as text.
    pub fn as_str(&self) -> (s: &str)
        ensures
            s@ == self.text(),
    {
        self.text.as_str()
    }
}

/// Calls `url::Url::parse`. Trusted: it succeeds exactly on the inputs the
/// url crate reads a URL from, and the text kept is that URL's
/// serialisation (`url::Url::as_str`).
#[verifier::external_body]
fn parse_url(input: &str) -> (r: Result<Address, url::ParseError>)
    ensures
        r is Ok <==> url_parsed(input@) is Some,
        r matches Ok(a) ==> url_parsed(input@) == Some(a.text()),
{
    match url::Url::parse(input) {
        Ok(url) => Ok(Address { text: url.as_str().to_string(), url }),
        Err(e) => Err(e),
    }
}

/// Calls `url::Url::join`. Trusted: it succeeds exactly where the url crate
/// resolves the reference against the base, and the text kept is the
/// serialisation of the URL it resolves to.
#[verifier::external_body]
fn join_url(base: &Address, reference: &str) -> (r: Result<Address, url::ParseError>)
    ensures
        r is Ok <==> url_joined(base.text(), reference@) is Some,
        r matches Ok(a) ==> url_joined(base.text(), reference@) == Some(a.text()),
{
    match base.url.join(reference) {
        Ok(url) => Ok(Address { text: url.as_str().to_string(), url }),
        Err(e) => Err(e),
    }
}

/// Why no client could be set up.
#[derive(Debug, Clone, Copy, PartialEq, Eq, Structural)]
pub enum ClientError {
    /// The configured base is not a URL.
    InvalidBase,
    /// The path of the endpoint cannot be resolved against the base.
    InvalidUrl,
    /// The credential is kept in a file, and the file was not there to read.
    UnreadableSecret,
}

/// The path of the events collection, relative to the base.
pub open spec fn events_path() -> Seq<char> {
    "api/events/"@
}

/// The type under which key events are filed.
pub open spec fn event_type() -> Seq<char> {
    "hasskey"@
}

/// The endpoint for key events below the URL serialised as `base`: the
/// events collection resolved against the base, then the event type
/// resolved against that.
pub open spec fn endpoint_of(base: Seq<char>) -> Option<Seq<char>> {
    match url_joined(base, events_path()) {
        Some(events) => url_joined(events, event_type()),
        None => None,
    }
}

/// The endpoint and the credential that a configuration stands for, given
/// what the file of a referenced credential holds; or the first thing that
/// is wrong with it.
pub open spec fn client_of(config: HomeAssistantConfig, token_file: Option<Seq<char>>) -> Result<
    (Seq<char>, Seq<char>),
    ClientError,
> {
    match url_parsed(config.url@) {
        None => Err(ClientError::InvalidBase),
        Some(base) => match endpoint_of(base) {
            None => Err(ClientError::InvalidUrl),
            Some(url) => match config.token.spec_read(token_file) {
                None => Err(ClientError::UnreadableSecret),
                Some(token) => Ok((url, token)),
            },
        },
    }
}

/// Reads the configured base address.
pub fn parse_base(input: &str) -> (r: Result<Address, ClientError>)
    ensures
        r is Ok <==> url_parsed(input@) is Some,
        r matches Ok(a) ==> url_parsed(input@) == Some(a.text()),
        r matches Err(e) ==> e == ClientError::InvalidBase,
{
    match parse_url(input) {
        Ok(a) => Ok(a),
        Err(_) => Err(ClientError::InvalidBase),
    }
}

/// Derives the fixed endpoint that every key event is sent to.
pub fn events_endpoint(base: &Address) -> (r: Result<Address, ClientError>)
    ensures
        r is Ok <==> endpoint_of(base.text()) is Some,
        r matches Ok(a) ==> endpoint_of(base.text()) == Some(a.text()),
        r matches Err(e) ==> e == ClientError::InvalidUrl,
{
    match join_url(base, "api/events/") {
        Ok(events) => match join_url(&events, "hasskey") {
            Ok(endpoint) => Ok(endpoint),
            Err(_) => Err(ClientError::InvalidUrl),
        },
        Err(_) => Err(ClientError::InvalidUrl),
    }
}

/// What every delivery needs: the endpoint for key events and the bearer
/// credential. It is made once, at startup, and handed to whoever sends.
pub struct HomeAssistantClient {
    url: Address,
    token: String,
}

impl HomeAssistantClient {
    /// The endpoint that key events are sent to.
    pub closed spec fn spec_url(&self) -> Seq<char> {
        self.url.text()
    }

    /// The bearer credential.
    pub closed spec fn spec_token(&self) -> Seq<char> {
        self.token@
    }

    /// Sets the client up from the configuration. `token_file` is what the
    /// file of a referenced credential holds, `None` where it could not be
    /// read; a literal credential needs none.
    pub fn new(config: &HomeAssistantConfig, token_file: Option<String>) -> (r: Result<
        HomeAssistantClient,
        ClientError,
    >)
        ensures
            match r {
                Ok(client) => client_of(*config, opt_view(token_file)) == Ok::<
                    (Seq<char>, Seq<char>),
                    ClientError,
                >((client.spec_url(), client.spec_token())),
                Err(e) => client_of(*config, opt_view(token_file)) == Err::<
                    (Seq<char>, Seq<char>),
                    ClientError,
                >(e),
            },
    {
        let base = match parse_base(config.url.as_str()) {
            Ok(base) => base,
            Err(e) => return Err(e),
        };
        let url = match events_endpoint(&base) {
            Ok(url) => url,
            Err(e) => return Err(e),
        };
        match config.token.read(token_file) {
            Some(token) => Ok(HomeAssistantClient { url, token }),
            None => Err(ClientError::UnreadableSecret),
        }
    }

    /// The endpoint that key events are sent to.
    pub fn url(&self) -> (s: &str)
        ensures
            s@ == self.spec_url(),
    {
        self.url.as_str()
    }

    /// The bearer credential.
    pub fn token(&self) -> (s: &str)
        ensures
            s@ == self.spec_token(),
    {
        self.token.as_str()
    }
}

/// What became of one delivery attempt.
#[derive(Debug, Clone, Copy, PartialEq, Eq, Structural)]
pub enum Delivery {
    /// The sink answered with a success status.
    Delivered,
    /// The request failed or the sink refused it; the event is dropped.
    Dropped,
}

/// An attempt counts as delivered only where a response came back with a
/// status from 200 to 299.
pub open spec fn delivered(status: Option<u16>) -> bool {
    match status {
        Some(code) => 200 <= code <= 299,
        None => false,
    }
}

/// Judges one delivery attempt by the status of the response, `None` where
/// the transport failed before any response. Every failure is alike: the
/// event is dropped, and nothing is tried again.
pub fn classify_delivery(status: Option<u16>) -> (d: Delivery)
    ensures
        d == (if delivered(status) {
            Delivery::Delivered
        } else {
            Delivery::Dropped
        }),
{
    match status {
        Some(code) => if 200 <= code && code <= 299 {
            Delivery::Delivered
        } else {
            Delivery::Dropped
        },
        None => Delivery::Dropped,
    }
}

/// The state of a key.
#[derive(Debug, Clone, Copy, PartialEq, Eq, Structural)]
pub enum EventValue {
    UP,
    DOWN,
}

impl EventValue {
    /// The word that stands for the state in a request.
    pub fn as_str(&self) -> (s: &'static str)
        ensures
            s@ == (match *self {
                EventValue::UP => "UP"@,
                EventValue::DOWN => "DOWN"@,
            }),
    {
        match self {
            EventValue::UP => "UP",
            EventValue::DOWN => "DOWN",
        }
    }
}

/// A key event as a value of the model: the logical name of the device,
/// the code of the key and its new state.
pub struct KeyEvent {
    pub device: Seq<char>,
    pub key: u16,
    pub value: EventValue,
}

/// A change of a key's state on a named device.
#[derive(Debug, Clone, PartialEq, Eq)]
pub struct EventData {
    pub device: String,
    pub key: u16,
    pub value: EventValue,
}

impl View for EventData {
    type V = KeyEvent;

    open spec fn view(&self) -> KeyEvent {
        KeyEvent { device: self.device@, key: self.key, value: self.value }
    }
}

/// The type of the raw events that report keys.
pub const EV_KEY: u16 = 1;

/// A raw input event as the device reports it: its type, its code and its
/// value.
#[derive(Debug, Clone, Copy, PartialEq, Eq, Structural)]
pub struct RawEvent {
    pub event_type: u16,
    pub code: u16,
    pub value: i32,
}

/// The key state that a raw value stands for: 0 is a release, 1 a press.
/// No other value stands for a state.
pub open spec fn key_state(value: i32) -> Option<EventValue> {
    if value == 0 {
        Some(EventValue::UP)
    } else if value == 1 {
        Some(EventValue::DOWN)
    } else {
        None
    }
}

/// A raw event is passed on where it reports a key and its value stands
/// for a state.
pub open spec fn recognized(raw: RawEvent) -> bool {
    raw.event_type == EV_KEY && key_state(raw.value) is Some
}

/// The key event that a recognised raw event becomes.
pub open spec fn event_of(name: Seq<char>, raw: RawEvent) -> KeyEvent
    recommends
        recognized(raw),
{
    KeyEvent { device: name, key: raw.code, value: key_state(raw.value).unwrap() }
}

/// The key event, if any, that a raw event becomes.
pub open spec fn normalized(name: Seq<char>, raw: RawEvent) -> Option<KeyEvent> {
    if recognized(raw) {
        Some(event_of(name, raw))
    } else {
        None
    }
}

/// The key events that a run of raw events becomes, in their order.
pub open spec fn normalized_seq(name: Seq<char>, raws: Seq<RawEvent>) -> Seq<KeyEvent>
    decreases raws.len(),
{
    if raws.len() == 0 {
        Seq::empty()
    } else {
        let before = normalized_seq(name, raws.drop_last());
        match normalized(name, raws.last()) {
            Some(event) => before.push(event),
            None => before,
        }
    }
}

/// The views of a run of events.
pub open spec fn events_view(events: Seq<EventData>) -> Seq<KeyEvent> {
    events.map_values(|e: EventData| e@)
}

/// Asks `evdev::InputEvent::kind` which key a raw event reports. Trusted:
/// evdev names a key exactly for the events of the key type, and the code
/// of that key is the code of the event.
#[verifier::external_body]
fn reported_key(raw: &RawEvent) -> (key: Option<u16>)
    ensures
        key == (if raw.event_type == EV_KEY {
            Some(raw.code)
        } else {
            None::<u16>
        }),
{
    match evdev::InputEvent::new(evdev::EventType(raw.event_type), raw.code, raw.value).kind() {
        evdev::InputEventKind::Key(key) => Some(key.code()),
        _ => None,
    }
}

/// Turns one raw event of the device called `name` into a key event.
///
/// Only raw events of the key type yield one; motion, synchronisation and
/// all other types yield none. Value 0 is UP and value 1 is DOWN. A key
/// event with any other value, such as the 2 of an auto-repeat, is dropped:
/// it yields none, and nothing fails.
pub fn normalize(name: &String, raw: &RawEvent) -> (r: Option<EventData>)
    ensures
        r is Some <==> normalized(name@, *raw) is Some,
        r matches Some(e) ==> normalized(name@, *raw) == Some(e@),
{
    let key = match reported_key(raw) {
        Some(key) => key,
        None => return None,
    };
    let value = if raw.value == 0 {
        EventValue::UP
    } else if raw.value == 1 {
        EventValue::DOWN
    } else {
        return None;
    };
    Some(EventData { device: name.clone(), key, value })
}

/// Turns a run of raw events of one device into its key events, in order.
pub fn normalize_all(name: &String, raws: &Vec<RawEvent>) -> (out: Vec<EventData>)
    ensures
        events_view(out@) == normalized_seq(name@, raws@),
{
    let mut out: Vec<EventData> = Vec::new();
    let mut i: usize = 0;
    while i < raws.len()
        invariant
            i <= raws.len(),
            events_view(out@) =~= normalized_seq(name@, raws@.take(i as int)),
        decreases raws.len() - i,
    {
        proof {
            assert(raws@.take(i + 1).drop_last() =~= raws@.take(i as int));
        }
        match normalize(name, &raws[i]) {
            Some(event) => {
                out.push(event);
            },
            None => {},
        }
        i += 1;
    }
    proof {
        assert(raws@.take(raws@.len() as int) =~= raws@);
    }
    out
}

/// The key events of a run are its recognised raw events, each turned into
/// its key event, in the order in which they came: nothing else appears,
/// nothing recognised is left out, and 0 and 1 become UP and DOWN.
pub proof fn law_normalized_is_filter_map(name: Seq<char>, raws: Seq<RawEvent>)
    ensures
        normalized_seq(name, raws) == raws.filter(|r: RawEvent| recognized(r)).map_values(
            |r: RawEvent| event_of(name, r),
        ),
    decreases raws.len(),
{
    reveal(Seq::filter);
    let keep = |r: RawEvent| recognized(r);
    let turn = |r: RawEvent| event_of(name, r);
    if raws.len() > 0 {
        law_normalized_is_filter_map(name, raws.drop_last());
        let before = raws.drop_last().filter(keep);
        if recognized(raws.last()) {
            assert(raws.filter(keep) == before.push(raws.last()));
            assert(before.push(raws.last()).map_values(turn) =~= before.map_values(turn).push(
                turn(raws.last()),
            ));
        } else {
            assert(raws.filter(keep) == before);
        }
    } else {
        assert(raws.filter(keep).map_values(turn) =~= Seq::<KeyEvent>::empty());
    }
}

/// Normalising is done event by event: the key events of two runs, one
/// after the other, are the key events of the first followed by those of
/// the second.
pub proof fn law_normalized_concat(name: Seq<char>, first: Seq<RawEvent>, second: Seq<RawEvent>)
    ensures
        normalized_seq(name, first + second) == normalized_seq(name, first) + normalized_seq(
            name,
            second,
        ),
    decreases second.len(),
{
    if second.len() == 0 {
        assert(first + second =~= first);
        assert(normalized_seq(name, first) + normalized_seq(name, second) =~= normalized_seq(
            name,
            first,
        ));
    } else {
        law_normalized_concat(name, first, second.drop_last());
        assert((first + second).drop_last() =~= first + second.drop_last());
        assert((first + second).last() == second.last());
        assert(normalized_seq(name, first + second) =~= normalized_seq(name, first)
            + normalized_seq(name, second));
    }
}

} // verus!
