use crate::ids::{hyphenated, id_text, lemma_id_text, parse_uuid, parsed_id};
use crate::text::{hex_digit, on_one_line, opt_str, opt_text, same_text};
use serde_json::Value;
use vstd::prelude::*;
use vstd::string::StringExecFns;

verus! {

/// What a domain event is, as a mathematical value: the identifiers as
/// numbers and every text field as its sequence of characters.
pub enum EventModel {
    CommentCreated {
        id: u128,
        application_id: u128,
        visitor_name: Seq<char>,
        company: Seq<char>,
        role: Seq<char>,
    },
    ApplicationStatusUpdated { id: u128, company: Seq<char>, status: Seq<char> },
}

/// A domain event, built when it is published and never stored.
///
/// Each event carries the context a viewer needs to render a notification
/// without asking the store again. Identifiers are held as the 128-bit
/// value of the UUID.
#[derive(Debug, PartialEq, Eq)]
pub enum AppEvent {
    CommentCreated {
        id: u128,
        application_id: u128,
        visitor_name: String,
        company: String,
        role: String,
    },
    ApplicationStatusUpdated { id: u128, company: String, status: String },
}

impl View for AppEvent {
    type V = EventModel;

    open spec fn view(&self) -> EventModel {
        match *self {
            AppEvent::CommentCreated { id, application_id, visitor_name, company, role } => {
                EventModel::CommentCreated {
                    id,
                    application_id,
                    visitor_name: visitor_name@,
                    company: company@,
                    role: role@,
                }
            },
            AppEvent::ApplicationStatusUpdated { id, company, status } => {
                EventModel::ApplicationStatusUpdated { id, company: company@, status: status@ }
            },
        }
    }
}

impl Clone for AppEvent {
    fn clone(&self) -> (copy: Self)
        ensures
            copy@ == self@,
    {
        match self {
            AppEvent::CommentCreated { id, application_id, visitor_name, company, role } => {
                AppEvent::CommentCreated {
                    id: *id,
                    application_id: *application_id,
                    visitor_name: visitor_name.clone(),
                    company: company.clone(),
                    role: role.clone(),
                }
            },
            AppEvent::ApplicationStatusUpdated { id, company, status } => {
                AppEvent::ApplicationStatusUpdated {
                    id: *id,
                    company: company.clone(),
                    status: status.clone(),
                }
            },
        }
    }
}

/// How one character stands inside a JSON string literal: the quote, the
/// backslash and the control characters are escaped, the control
/// characters without a short escape by their number in four lower-case
/// hexadecimal digits, and every other character stands for itself.
pub open spec fn json_escaped(c: char) -> Seq<char> {
    if c == '"' {
        seq!['\\', '"']
    } else if c == '\\' {
        seq!['\\', '\\']
    } else if c == '\u{8}' {
        seq!['\\', 'b']
    } else if c == '\t' {
        seq!['\\', 't']
    } else if c == '\n' {
        seq!['\\', 'n']
    } else if c == '\u{c}' {
        seq!['\\', 'f']
    } else if c == '\r' {
        seq!['\\', 'r']
    } else if (c as u32) < 0x20 {
        seq!['\\', 'u', '0', '0', hex_digit(c as u32 as int / 16), hex_digit(c as u32 as int % 16)]
    } else {
        seq![c]
    }
}

/// The characters of `text` as they stand inside a JSON string literal.
pub open spec fn json_escaped_text(text: Seq<char>) -> Seq<char>
    decreases text.len(),
{
    if text.len() == 0 {
        Seq::empty()
    } else {
        json_escaped_text(text.drop_last()) + json_escaped(text.last())
    }
}

/// The JSON string literal that stands for `text`: its characters,
/// escaped, between two quotes.
pub open spec fn json_string_literal(text: Seq<char>) -> Seq<char> {
    seq!['"'] + json_escaped_text(text) + seq!['"']
}

/// A JSON string literal holds no line break.
pub proof fn lemma_literal_on_one_line(text: Seq<char>)
    ensures
        on_one_line(json_escaped_text(text)),
        on_one_line(json_string_literal(text)),
    decreases text.len(),
{
    if text.len() > 0 {
        lemma_literal_on_one_line(text.drop_last());
        let c = text.last();
        assert(on_one_line(json_escaped(c)));
    }
}

/// `serde_json::to_string` on a string slice: the JSON string literal for
/// `text`. Its escape table escapes the quote, the backslash and the
/// bytes below 0x20, and writes every other byte as it is. Writing a
/// string slice into memory cannot fail, so the error arm is never taken.
#[verifier::external_body]
fn json_string(text: &str) -> (literal: String)
    ensures
        literal@ == json_string_literal(text@),
{
    match serde_json::to_string(text) {
        Ok(literal) => literal,
        Err(_) => String::new(),
    }
}

/// The name by which the kind of an event is told on the wire.
pub open spec fn type_tag(event: EventModel) -> Seq<char> {
    match event {
        EventModel::CommentCreated { .. } => "CommentCreated"@,
        EventModel::ApplicationStatusUpdated { .. } => "ApplicationStatusUpdated"@,
    }
}

/// The wire form of a new comment, from the hyphenated identifiers and
/// the JSON string literals of its texts.
pub open spec fn comment_created_wire(
    id: Seq<char>,
    application_id: Seq<char>,
    visitor_name: Seq<char>,
    company: Seq<char>,
    role: Seq<char>,
) -> Seq<char> {
    "{\"type\":\"CommentCreated\",\"data\":{\"id\":\""@ + id + "\",\"application_id\":\""@
        + application_id + "\",\"visitor_name\":"@ + visitor_name + ",\"company\":"@ + company
        + ",\"role\":"@ + role + "}}"@
}

/// The wire form of a status change, from the hyphenated identifier and
/// the JSON string literals of its texts.
pub open spec fn status_updated_wire(
    id: Seq<char>,
    company: Seq<char>,
    status: Seq<char>,
) -> Seq<char> {
    "{\"type\":\"ApplicationStatusUpdated\",\"data\":{\"id\":\""@ + id + "\",\"company\":"@
        + company + ",\"status\":"@ + status + "}}"@
}

/// The wire form of an event: one JSON object that tells the kind of the
/// event under `type` and its fields under `data`.
pub open spec fn wire_form(event: EventModel) -> Seq<char> {
    match event {
        EventModel::CommentCreated { id, application_id, visitor_name, company, role } => {
            comment_created_wire(
                id_text(id),
                id_text(application_id),
                json_string_literal(visitor_name),
                json_string_literal(company),
                json_string_literal(role),
            )
        },
        EventModel::ApplicationStatusUpdated { id, company, status } => {
            status_updated_wire(
                id_text(id),
                json_string_literal(company),
                json_string_literal(status),
            )
        },
    }
}

/// The wire form of a new comment, from the hyphenated identifiers and
/// the JSON string literals of its texts.
pub fn comment_created_json(
    id: &str,
    application_id: &str,
    visitor_name: &str,
    company: &str,
    role: &str,
) -> (json: String)
    ensures
        json@ == comment_created_wire(id@, application_id@, visitor_name@, company@, role@),
        on_one_line(id@) && on_one_line(application_id@) && on_one_line(visitor_name@)
            && on_one_line(company@) && on_one_line(role@) ==> on_one_line(json@),
{
    proof {
        reveal_strlit("{\"type\":\"CommentCreated\",\"data\":{\"id\":\"");
        reveal_strlit("\",\"application_id\":\"");
        reveal_strlit("\",\"visitor_name\":");
        reveal_strlit(",\"company\":");
        reveal_strlit(",\"role\":");
        reveal_strlit("}}");
    }
    let mut json = String::from_str("{\"type\":\"CommentCreated\",\"data\":{\"id\":\"");
    json.append(id);
    json.append("\",\"application_id\":\"");
    json.append(application_id);
    json.append("\",\"visitor_name\":");
    json.append(visitor_name);
    json.append(",\"company\":");
    json.append(company);
    json.append(",\"role\":");
    json.append(role);
    json.append("}}");
    json
}

/// The wire form of a status change, from the hyphenated identifier and
/// the JSON string literals of its texts.
pub fn status_updated_json(id: &str, company: &str, status: &str) -> (json: String)
    ensures
        json@ == status_updated_wire(id@, company@, status@),
        on_one_line(id@) && on_one_line(company@) && on_one_line(status@) ==> on_one_line(json@),
{
    proof {
        reveal_strlit("{\"type\":\"ApplicationStatusUpdated\",\"data\":{\"id\":\"");
        reveal_strlit("\",\"company\":");
        reveal_strlit(",\"status\":");
        reveal_strlit("}}");
    }
    let mut json = String::from_str(
        "{\"type\":\"ApplicationStatusUpdated\",\"data\":{\"id\":\"",
    );
    json.append(id);
    json.append("\",\"company\":");
    json.append(company);
    json.append(",\"status\":");
    json.append(status);
    json.append("}}");
    json
}

impl AppEvent {
    /// The name by which the kind of this event is told on the wire.
    pub fn kind(&self) -> (name: &'static str)
        ensures
            name@ == type_tag(self@),
    {
        match self {
            AppEvent::CommentCreated { .. } => "CommentCreated",
            AppEvent::ApplicationStatusUpdated { .. } => "ApplicationStatusUpdated",
        }
    }

    /// The wire form of this event. It holds no line break.
    pub fn to_json(&self) -> (json: String)
        ensures
            json@ == wire_form(self@),
            on_one_line(json@),
    {
        proof {
            match self@ {
                EventModel::CommentCreated { id, application_id, visitor_name, company, role } => {
                    lemma_id_text(id);
                    lemma_id_text(application_id);
                    lemma_literal_on_one_line(visitor_name);
                    lemma_literal_on_one_line(company);
                    lemma_literal_on_one_line(role);
                },
                EventModel::ApplicationStatusUpdated { id, company, status } => {
                    lemma_id_text(id);
                    lemma_literal_on_one_line(company);
                    lemma_literal_on_one_line(status);
                },
            }
        }
        match self {
            AppEvent::CommentCreated { id, application_id, visitor_name, company, role } => {
                let id = hyphenated(*id);
                let application_id = hyphenated(*application_id);
                let visitor_name = json_string(visitor_name.as_str());
                let company = json_string(company.as_str());
                let role = json_string(role.as_str());
                comment_created_json(
                    id.as_str(),
                    application_id.as_str(),
                    visitor_name.as_str(),
                    company.as_str(),
                    role.as_str(),
                )
            },
            AppEvent::ApplicationStatusUpdated { id, company, status } => {
                let id = hyphenated(*id);
                let company = json_string(company.as_str());
                let status = json_string(status.as_str());
                status_updated_json(id.as_str(), company.as_str(), status.as_str())
            },
        }
    }
}

/// The string that stands at the JSON pointer `pointer` in the JSON
/// document that `document` spells, as `serde_json` reads it; nothing
/// where `document` spells no JSON, nothing stands there, or what stands
/// there is no string.
pub uninterp spec fn json_string_at(document: Seq<char>, pointer: Seq<char>) -> Option<Seq<char>>;

/// `serde_json::Value::pointer` on the value read by
/// `serde_json::from_str`, followed by `serde_json::Value::as_str`: the
/// string that stands at `pointer` in the document.
#[verifier::external_body]
fn json_text_at(document: &str, pointer: &str) -> (text: Option<String>)
    ensures
        opt_text(text) == json_string_at(document@, pointer@),
{
    let value: Value = match serde_json::from_str(document) {
        Ok(value) => value,
        Err(_) => return None,
    };
    match value.pointer(pointer) {
        Some(found) => match found.as_str() {
            Some(text) => Some(text.to_string()),
            None => None,
        },
        None => None,
    }
}

/// The event that the fields of a message make up: its kind decides
/// which fields it needs, and each identifier must be written as a UUID.
/// A message of an unknown kind, or one that lacks a field of its kind,
/// makes up no event.
pub open spec fn event_of(
    kind: Option<Seq<char>>,
    id: Option<Seq<char>>,
    application_id: Option<Seq<char>>,
    visitor_name: Option<Seq<char>>,
    company: Option<Seq<char>>,
    role: Option<Seq<char>>,
    status: Option<Seq<char>>,
) -> Option<EventModel> {
    if kind == Some("CommentCreated"@) {
        if id is Some && parsed_id(id->0) is Some && application_id is Some && parsed_id(
            application_id->0,
        ) is Some && visitor_name is Some && company is Some && role is Some {
            Some(
                EventModel::CommentCreated {
                    id: parsed_id(id->0)->0,
                    application_id: parsed_id(application_id->0)->0,
                    visitor_name: visitor_name->0,
                    company: company->0,
                    role: role->0,
                },
            )
        } else {
            None
        }
    } else if kind == Some("ApplicationStatusUpdated"@) {
        if id is Some && parsed_id(id->0) is Some && company is Some && status is Some {
            Some(
                EventModel::ApplicationStatusUpdated {
                    id: parsed_id(id->0)->0,
                    company: company->0,
                    status: status->0,
                },
            )
        } else {
            None
        }
    } else {
        None
    }
}

/// The view of an event that may be absent.
pub open spec fn opt_event(event: Option<AppEvent>) -> Option<EventModel> {
    match event {
        Some(e) => Some(e@),
        None => None,
    }
}

fn id_from(text: Option<&str>) -> (id: Option<u128>)
    ensures
        id == (match text {
            Some(t) => parsed_id(t@),
            None => None,
        }),
{
    match text {
        Some(t) => parse_uuid(t),
        None => None,
    }
}

/// The event that the fields of a message make up.
pub fn event_from_fields(
    kind: Option<&str>,
    id: Option<&str>,
    application_id: Option<&str>,
    visitor_name: Option<String>,
    company: Option<String>,
    role: Option<String>,
    status: Option<String>,
) -> (event: Option<AppEvent>)
    ensures
        opt_event(event) == event_of(
            opt_str(kind),
            opt_str(id),
            opt_str(application_id),
            opt_text(visitor_name),
            opt_text(company),
            opt_text(role),
            opt_text(status),
        ),
{
    let kind = match kind {
        Some(kind) => kind,
        None => {
            return None;
        },
    };
    if same_text(kind, "CommentCreated") {
        match (id_from(id), id_from(application_id), visitor_name, company, role) {
            (Some(id), Some(application_id), Some(visitor_name), Some(company), Some(role)) => {
                Some(AppEvent::CommentCreated { id, application_id, visitor_name, company, role })
            },
            _ => None,
        }
    } else if same_text(kind, "ApplicationStatusUpdated") {
        match (id_from(id), company, status) {
            (Some(id), Some(company), Some(status)) => Some(
                AppEvent::ApplicationStatusUpdated { id, company, status },
            ),
            _ => None,
        }
    } else {
        None
    }
}

/// The event that a message of the stream spells: the one that its
/// fields make up, the kind read from `type` and the others from `data`.
/// Text that is no JSON, or whose fields make up no event, spells none.
pub open spec fn decoded(text: Seq<char>) -> Option<EventModel> {
    event_of(
        json_string_at(text, "/type"@),
        json_string_at(text, "/data/id"@),
        json_string_at(text, "/data/application_id"@),
        json_string_at(text, "/data/visitor_name"@),
        json_string_at(text, "/data/company"@),
        json_string_at(text, "/data/role"@),
        json_string_at(text, "/data/status"@),
    )
}

impl AppEvent {
    /// Reads an event from its wire form: the kind from `type`, the
    /// fields from `data`. Text that is no JSON, or whose fields make up
    /// no event, gives none. Only the fields of the message's kind are
    /// looked for.
    pub fn from_json(text: &str) -> (event: Option<AppEvent>)
        ensures
            opt_event(event) == decoded(text@),
    {
        let kind = match json_text_at(text, "/type") {
            Some(kind) => kind,
            None => {
                return None;
            },
        };
        if same_text(kind.as_str(), "CommentCreated") {
            let id = json_text_at(text, "/data/id");
            let application_id = json_text_at(text, "/data/application_id");
            let visitor_name = json_text_at(text, "/data/visitor_name");
            let company = json_text_at(text, "/data/company");
            let role = json_text_at(text, "/data/role");
            event_from_fields(
                Some(kind.as_str()),
                as_str_opt(&id),
                as_str_opt(&application_id),
                visitor_name,
                company,
                role,
                None,
            )
        } else if same_text(kind.as_str(), "ApplicationStatusUpdated") {
            let id = json_text_at(text, "/data/id");
            let company = json_text_at(text, "/data/company");
            let status = json_text_at(text, "/data/status");
            event_from_fields(Some(kind.as_str()), as_str_opt(&id), None, None, company, None, status)
        } else {
            None
        }
    }
}

fn as_str_opt(text: &Option<String>) -> (slice: Option<&str>)
    ensures
        opt_str(slice) == opt_text(*text),
{
    match text {
        Some(t) => Some(t.as_str()),
        None => None,
    }
}

} // verus!
