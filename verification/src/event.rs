use vstd::prelude::*;

verus! {

/// A decoded application event: a category label (possibly empty when the
/// payload carried none that we recognize as a string) and, when present,
/// the originating user's identifier.
pub struct Event {
    pub category: String,
    pub user_id: Option<i64>,
}

/// The mathematical content of an event: the label as a character sequence
/// and the optional user id.
pub struct EventModel {
    pub category: Seq<char>,
    pub user: Option<i64>,
}

impl View for Event {
    type V = EventModel;

    open spec fn view(&self) -> EventModel {
        EventModel { category: self.category@, user: self.user_id }
    }
}

/// Why a raw message payload yielded no event.
#[derive(Debug)]
pub enum DecodeFailure {
    /// The message arrived with no payload at all.
    EmptyPayload,
    /// A payload was present but is not a well-formed document; carries the
    /// parser's detail for logging.
    MalformedPayload(String),
}

/// Whether the JSON parser accepts these bytes as a document.
pub uninterp spec fn json_parses(bytes: Seq<u8>) -> bool;

/// The category label the document carries under its category field, or
/// `None` when the field is missing or is not a string.
pub uninterp spec fn json_category(bytes: Seq<u8>) -> Option<Seq<char>>;

/// The user id the document carries under its user-id field, or `None` when
/// the field is missing, not a number, or out of `i64` range.
pub uninterp spec fn json_user_id(bytes: Seq<u8>) -> Option<i64>;

/// Relies on `serde_json::from_slice::<serde_json::Value>` to parse the
/// bytes, and on `serde_json::Value::get`, `Value::as_str` and
/// `Value::as_i64` to read the "event_type" and "user_id" fields: whether
/// the bytes parse and which fields they carry depend on the bytes alone.
#[verifier::external_body]
fn parse_fields(payload: &[u8]) -> (r: Result<(Option<String>, Option<i64>), String>)
    ensures
        r is Ok <==> json_parses(payload@),
        r matches Ok(f) ==> f.1 == json_user_id(payload@),
        r matches Ok(f) ==> match json_category(payload@) {
            Some(c) => f.0 matches Some(s) && s@ == c,
            None => f.0 is None,
        },
{
    match serde_json::from_slice::<serde_json::Value>(payload) {
        Ok(v) => {
            let c = match v.get("event_type") { Some(f) => f.as_str(), None => None };
            let category = match c { Some(s) => Some(s.to_string()), None => None };
            let user = match v.get("user_id") { Some(f) => f.as_i64(), None => None };
            Ok((category, user))
        }
        Err(e) => Err(e.to_string()),
    }
}

/// The event a parseable payload decodes to: its category label (empty when
/// the document carries none) and its user id, if any.
pub open spec fn decoded_event(bytes: Seq<u8>) -> EventModel {
    EventModel {
        category: match json_category(bytes) {
            Some(c) => c,
            None => Seq::empty(),
        },
        user: json_user_id(bytes),
    }
}

/// Validates and parses a raw message payload into a structured event.
/// An absent payload and an unparseable payload are reported as failures;
/// a parseable payload always yields an event, falling back to an empty
/// category label and an absent user id for missing or ill-typed fields.
pub fn decode(payload: Option<&[u8]>) -> (r: Result<Event, DecodeFailure>)
    ensures
        payload is None ==> (r matches Err(e) && e is EmptyPayload),
        payload is Some && !json_parses(payload->Some_0@) ==> (r matches Err(e)
            && e is MalformedPayload),
        payload is Some && json_parses(payload->Some_0@) ==> (r matches Ok(ev)
            && ev@ == decoded_event(payload->Some_0@)),
{
    match payload {
        None => Err(DecodeFailure::EmptyPayload),
        Some(bytes) => match parse_fields(bytes) {
            Err(detail) => Err(DecodeFailure::MalformedPayload(detail)),
            Ok((category, user)) => {
                let label = match category {
                    Some(s) => s,
                    None => String::new(),
                };
                let ev = Event { category: label, user_id: user };
                proof {
                    assert(ev@.category =~= decoded_event(bytes@).category);
                }
                Ok(ev)
            },
        },
    }
}

} // verus!
