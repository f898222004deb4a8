use crate::text::{opt_text, trim, trimmed};
use vstd::prelude::*;
use vstd::string::StringExecFns;

verus! {

/// The status that an application has where none is given.
pub const DEFAULT_STATUS: &'static str = "Applied";

/// The name under which a comment is sent where its author gave none.
pub const ANONYMOUS: &'static str = "Anonymous";

/// A text from a form as an optional field: absent where the text is empty.
pub open spec fn filled(text: Seq<char>) -> Option<Seq<char>> {
    if text.len() == 0 {
        None
    } else {
        Some(text)
    }
}

/// A text from a form as an optional field: absent where the text is empty.
pub fn optional(text: String) -> (field: Option<String>)
    ensures
        opt_text(field) == filled(text@),
{
    if text.as_str().is_empty() {
        None
    } else {
        Some(text)
    }
}

/// Company and role of an application, as an event about one of its
/// comments carries them.
#[derive(Debug, Clone, PartialEq, Eq)]
pub struct AppInfo {
    pub company: String,
    pub role: String,
}

/// What a visitor sends to leave a comment.
#[derive(Debug, Clone, PartialEq, Eq)]
pub struct CreateComment {
    pub visitor_name: String,
    pub content: String,
    /// A field that people leave empty and that scripts fill in.
    pub bot_field: Option<String>,
}

impl CreateComment {
    /// The comment that the form sends: none where the content is blank,
    /// else the content as typed, under the author's name as typed or,
    /// where that is blank, as anonymous.
    pub fn from_form(visitor_name: String, content: String) -> (comment: Option<CreateComment>)
        ensures
            comment is Some == (trimmed(content@).len() > 0),
            comment matches Some(c) ==> c.content@ == content@ && c.bot_field is None
                && c.visitor_name@ == (if trimmed(visitor_name@).len() == 0 {
                ANONYMOUS@
            } else {
                visitor_name@
            }),
    {
        if trim(content.as_str()).as_str().is_empty() {
            return None;
        }
        let name = if trim(visitor_name.as_str()).as_str().is_empty() {
            String::from_str(ANONYMOUS)
        } else {
            visitor_name
        };
        Some(CreateComment { visitor_name: name, content, bot_field: None })
    }
}

/// What the owner sends to record a new application.
#[derive(Debug, Clone, PartialEq, Eq)]
pub struct CreateApplication {
    pub company: String,
    pub company_website: Option<String>,
    pub role: String,
    pub status: Option<String>,
    pub salary: Option<String>,
    pub contact_person: Option<String>,
    pub cv_version: Option<String>,
    pub cv_path: Option<String>,
    pub cover_letter: Option<String>,
    pub cover_letter_path: Option<String>,
    pub logo_url: Option<String>,
    pub description: Option<String>,
}

impl CreateApplication {
    /// The status under which the application is stored: the one given,
    /// else the default.
    pub fn initial_status(&self) -> (status: String)
        ensures
            status@ == (match self.status {
                Some(given) => given@,
                None => DEFAULT_STATUS@,
            }),
    {
        match &self.status {
            Some(given) => given.clone(),
            None => String::from_str(DEFAULT_STATUS),
        }
    }
}

/// What the form for a new application sends.
#[derive(Debug, Clone, PartialEq, Eq)]
pub struct CreateApplicationPayload {
    pub company: String,
    pub company_website: Option<String>,
    pub role: String,
    pub status: Option<String>,
    pub salary: Option<String>,
    pub contact_person: Option<String>,
    pub cv_version: Option<String>,
    pub cv_path: Option<String>,
    pub cover_letter: Option<String>,
    pub cover_letter_path: Option<String>,
    pub logo_url: Option<String>,
    pub description: Option<String>,
}

impl CreateApplicationPayload {
    /// The payload for the texts of the form: company, role and status as
    /// typed, every other field absent where its text is empty.
    pub fn from_form(
        company: String,
        company_website: String,
        role: String,
        status: String,
        salary: String,
        contact_person: String,
        cv_version: String,
        cv_path: String,
        cover_letter: String,
        cover_letter_path: String,
        logo_url: String,
        description: String,
    ) -> (payload: CreateApplicationPayload)
        ensures
            payload.company@ == company@,
            opt_text(payload.company_website) == filled(company_website@),
            payload.role@ == role@,
            opt_text(payload.status) == Some(status@),
            opt_text(payload.salary) == filled(salary@),
            opt_text(payload.contact_person) == filled(contact_person@),
            opt_text(payload.cv_version) == filled(cv_version@),
            opt_text(payload.cv_path) == filled(cv_path@),
            opt_text(payload.cover_letter) == filled(cover_letter@),
            opt_text(payload.cover_letter_path) == filled(cover_letter_path@),
            opt_text(payload.logo_url) == filled(logo_url@),
            opt_text(payload.description) == filled(description@),
    {
        CreateApplicationPayload {
            company,
            company_website: optional(company_website),
            role,
            status: Some(status),
            salary: optional(salary),
            contact_person: optional(contact_person),
            cv_version: optional(cv_version),
            cv_path: optional(cv_path),
            cover_letter: optional(cover_letter),
            cover_letter_path: optional(cover_letter_path),
            logo_url: optional(logo_url),
            description: optional(description),
        }
    }
}

/// What the owner sends to change an application. A field that is
/// absent leaves the stored value as it is.
#[derive(Debug, Clone, PartialEq, Eq)]
pub struct UpdateApplication {
    pub company: Option<String>,
    pub company_website: Option<String>,
    pub role: Option<String>,
    pub status: Option<String>,
    pub salary: Option<String>,
    pub contact_person: Option<String>,
    pub cv_version: Option<String>,
    pub cv_path: Option<String>,
    pub cover_letter: Option<String>,
    pub cover_letter_path: Option<String>,
    pub logo_url: Option<String>,
    pub description: Option<String>,
}

/// What the form that changes an application sends. A field that is
/// absent leaves the stored value as it is.
#[derive(Debug, Clone, PartialEq, Eq)]
pub struct UpdateApplicationPayload {
    pub company: Option<String>,
    pub company_website: Option<String>,
    pub role: Option<String>,
    pub status: Option<String>,
    pub salary: Option<String>,
    pub contact_person: Option<String>,
    pub cv_version: Option<String>,
    pub cv_path: Option<String>,
    pub cover_letter: Option<String>,
    pub cover_letter_path: Option<String>,
    pub logo_url: Option<String>,
    pub description: Option<String>,
}

impl UpdateApplicationPayload {
    /// Whether every field but the status is absent.
    pub open spec fn only_status(&self) -> bool {
        &&& self.company is None
        &&& self.company_website is None
        &&& self.role is None
        &&& self.salary is None
        &&& self.contact_person is None
        &&& self.cv_version is None
        &&& self.cv_path is None
        &&& self.cover_letter is None
        &&& self.cover_letter_path is None
        &&& self.logo_url is None
        &&& self.description is None
    }

    /// The payload that moves an application to `status` and changes
    /// nothing else.
    pub fn status_only(status: String) -> (payload: UpdateApplicationPayload)
        ensures
            payload.only_status(),
            opt_text(payload.status) == Some(status@),
    {
        let mut payload = UpdateApplicationPayload::default();
        payload.status = Some(status);
        payload
    }

    /// The payload for the texts of the form: company, role and status as
    /// typed, every other field absent where its text is empty.
    pub fn from_form(
        company: String,
        company_website: String,
        role: String,
        status: String,
        salary: String,
        contact_person: String,
        cv_version: String,
        cv_path: String,
        cover_letter: String,
        cover_letter_path: String,
        logo_url: String,
        description: String,
    ) -> (payload: UpdateApplicationPayload)
        ensures
            opt_text(payload.company) == Some(company@),
            opt_text(payload.company_website) == filled(company_website@),
            opt_text(payload.role) == Some(role@),
            opt_text(payload.status) == Some(status@),
            opt_text(payload.salary) == filled(salary@),
            opt_text(payload.contact_person) == filled(contact_person@),
            opt_text(payload.cv_version) == filled(cv_version@),
            opt_text(payload.cv_path) == filled(cv_path@),
            opt_text(payload.cover_letter) == filled(cover_letter@),
            opt_text(payload.cover_letter_path) == filled(cover_letter_path@),
            opt_text(payload.logo_url) == filled(logo_url@),
            opt_text(payload.description) == filled(description@),
    {
        UpdateApplicationPayload {
            company: Some(company),
            company_website: optional(company_website),
            role: Some(role),
            status: Some(status),
            salary: optional(salary),
            contact_person: optional(contact_person),
            cv_version: optional(cv_version),
            cv_path: optional(cv_path),
            cover_letter: optional(cover_letter),
            cover_letter_path: optional(cover_letter_path),
            logo_url: optional(logo_url),
            description: optional(description),
        }
    }
}

impl Default for UpdateApplicationPayload {
    /// The payload that changes nothing.
    fn default() -> (payload: UpdateApplicationPayload)
        ensures
            payload.only_status(),
            payload.status is None,
    {
        UpdateApplicationPayload {
            company: None,
            company_website: None,
            role: None,
            status: None,
            salary: None,
            contact_person: None,
            cv_version: None,
            cv_path: None,
            cover_letter: None,
            cover_letter_path: None,
            logo_url: None,
            description: None,
        }
    }
}

/// One job application as the store holds it. Identifiers are held as
/// the 128-bit value of the UUID, instants in microseconds since the epoch.
#[derive(Debug, Clone, PartialEq, Eq)]
pub struct Application {
    pub id: u128,
    pub user_id: u128,
    pub company: String,
    pub company_website: Option<String>,
    pub role: String,
    pub status: String,
    pub salary: Option<String>,
    pub contact_person: Option<String>,
    pub cv_version: Option<String>,
    pub cv_path: Option<String>,
    pub cover_letter: Option<String>,
    pub cover_letter_path: Option<String>,
    pub logo_url: Option<String>,
    pub description: Option<String>,
    pub comment_count: Option<i64>,
    pub created_at: i64,
    pub updated_at: i64,
}

/// One comment as the store holds it.
#[derive(Debug, Clone, PartialEq, Eq)]
pub struct Comment {
    pub id: u128,
    pub application_id: u128,
    pub visitor_name: String,
    pub content: String,
    pub created_at: i64,
}

/// One application as everybody may see it.
#[derive(Debug, Clone, PartialEq, Eq)]
pub struct PublicApplication {
    pub id: u128,
    pub company: String,
    pub company_website: Option<String>,
    pub role: String,
    pub status: String,
    pub logo_url: Option<String>,
    pub created_at: i64,
}

/// What the lists and the tallies read of an application.
pub trait Posting {
    /// The company that the application is with.
    spec fn company_text(&self) -> Seq<char>;

    /// The role that the application is for.
    spec fn role_text(&self) -> Seq<char>;

    /// The status of the application.
    spec fn status_text(&self) -> Seq<char>;

    /// The company that the application is with.
    fn company(&self) -> (text: &str)
        ensures
            text@ == self.company_text(),
    ;

    /// The role that the application is for.
    fn role(&self) -> (text: &str)
        ensures
            text@ == self.role_text(),
    ;

    /// The status of the application.
    fn status(&self) -> (text: &str)
        ensures
            text@ == self.status_text(),
    ;
}

impl Posting for Application {
    open spec fn company_text(&self) -> Seq<char> {
        self.company@
    }

    open spec fn role_text(&self) -> Seq<char> {
        self.role@
    }

    open spec fn status_text(&self) -> Seq<char> {
        self.status@
    }

    fn company(&self) -> (text: &str) {
        self.company.as_str()
    }

    fn role(&self) -> (text: &str) {
        self.role.as_str()
    }

    fn status(&self) -> (text: &str) {
        self.status.as_str()
    }
}

impl Posting for PublicApplication {
    open spec fn company_text(&self) -> Seq<char> {
        self.company@
    }

    open spec fn role_text(&self) -> Seq<char> {
        self.role@
    }

    open spec fn status_text(&self) -> Seq<char> {
        self.status@
    }

    fn company(&self) -> (text: &str) {
        self.company.as_str()
    }

    fn role(&self) -> (text: &str) {
        self.role.as_str()
    }

    fn status(&self) -> (text: &str) {
        self.status.as_str()
    }
}

} // verus!
