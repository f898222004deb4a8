use crate::text::{opt_str, opt_text};
use vstd::prelude::*;
use vstd::string::StringExecFns;

verus! {

/// The address from which mail is sent where none is configured.
pub const DEFAULT_SENDER: &'static str = "onboarding@resend.dev";

/// Where mail is handed in.
pub const MAIL_ENDPOINT: &'static str = "https://api.resend.com/emails";

/// What somebody sends through the contact form.
#[derive(Debug, Clone, PartialEq, Eq)]
pub struct ContactPayload {
    pub name: String,
    pub email: String,
    pub message: String,
    pub link: Option<String>,
    /// A field that people leave empty and that scripts fill in.
    pub bot_field: Option<String>,
}

/// What a contact request that went well is answered with.
#[derive(Debug, Clone, PartialEq, Eq)]
pub struct ContactResponse {
    pub message: String,
}

/// How a contact request is answered.
#[derive(Debug, Clone, Copy, PartialEq, Eq)]
pub enum ContactReply {
    /// 200: the message is on its way, or so a script is told.
    Sent,
    /// 500: no key for the mail service is configured.
    NotConfigured,
    /// 500: the mail service refused the message.
    Rejected,
    /// 500: the mail service could not be reached.
    Unreachable,
}

impl ContactReply {
    /// The status code of the reply.
    pub open spec fn code(self) -> u16 {
        match self {
            ContactReply::Sent => 200,
            _ => 500,
        }
    }

    /// The text that the reply carries.
    pub open spec fn text(self) -> Seq<char> {
        match self {
            ContactReply::Sent => "Message sent successfully"@,
            ContactReply::NotConfigured => "Email service not configured"@,
            ContactReply::Rejected => "Failed to send email"@,
            ContactReply::Unreachable => "Failed to connect to email service"@,
        }
    }

    /// The status code of the reply.
    pub fn status_code(self) -> (code: u16)
        ensures
            code == self.code(),
    {
        match self {
            ContactReply::Sent => 200,
            _ => 500,
        }
    }

    /// The text that the reply carries.
    pub fn message(self) -> (text: &'static str)
        ensures
            text@ == self.text(),
    {
        match self {
            ContactReply::Sent => "Message sent successfully",
            ContactReply::NotConfigured => "Email service not configured",
            ContactReply::Rejected => "Failed to send email",
            ContactReply::Unreachable => "Failed to connect to email service",
        }
    }
}

impl ContactResponse {
    /// The answer to a contact request that went well.
    pub fn sent() -> (response: ContactResponse)
        ensures
            response.message@ == ContactReply::Sent.text(),
    {
        ContactResponse { message: String::from_str(ContactReply::Sent.message()) }
    }
}

/// A mail that is ready to be handed in.
#[derive(Debug, Clone, PartialEq, Eq)]
pub struct Mail {
    pub from: String,
    pub to: String,
    pub reply_to: String,
    pub subject: String,
    pub html: String,
    /// The value of the authorization header with which it is handed in.
    pub authorization: String,
}

/// A mail as a mathematical value.
pub struct MailModel {
    pub from: Seq<char>,
    pub to: Seq<char>,
    pub reply_to: Seq<char>,
    pub subject: Seq<char>,
    pub html: Seq<char>,
    pub authorization: Seq<char>,
}

impl View for Mail {
    type V = MailModel;

    open spec fn view(&self) -> MailModel {
        MailModel {
            from: self.from@,
            to: self.to@,
            reply_to: self.reply_to@,
            subject: self.subject@,
            html: self.html@,
            authorization: self.authorization@,
        }
    }
}

/// What to do about a contact request.
#[derive(Debug, Clone, PartialEq, Eq)]
pub enum ContactPlan {
    /// A script filled the form in: send nothing and answer as if sent.
    Pretend,
    /// Nothing can be sent: answer with this.
    Refuse(ContactReply),
    /// Hand this mail in.
    Send(Mail),
}

/// Whether a script rather than a person filled the form in: the field
/// that people leave empty holds something.
pub open spec fn from_a_script(bot_field: Option<Seq<char>>) -> bool {
    bot_field matches Some(text) && text.len() > 0
}

/// The paragraph of the mail that shows the link that came with the
/// request; nothing where none came or it is empty.
pub open spec fn link_section_of(link: Option<Seq<char>>) -> Seq<char> {
    match link {
        Some(url) => if url.len() > 0 {
            "<p><strong>Job Link:</strong> <a href=\""@ + url + "\">"@ + url + "</a></p>"@
        } else {
            Seq::empty()
        },
        None => Seq::empty(),
    }
}

/// The body of the mail that tells the owner of a contact request.
pub open spec fn body_of(
    name: Seq<char>,
    email: Seq<char>,
    link_section: Seq<char>,
    message: Seq<char>,
) -> Seq<char> {
    "\n        <div style=\"font-family: sans-serif; max-width: 600px; margin: 0 auto;\">\n            <h2>New Contact Request</h2>\n            <p><strong>Name:</strong> "@
        + name + "</p>\n            <p><strong>Email:</strong> "@ + email + "</p>\n            "@
        + link_section
        + "\n            <p><strong>Message:</strong></p>\n            <blockquote style=\"background: #f9f9f9; padding: 10px; border-left: 5px solid #ccc;\">\n                "@
        + message + "\n            </blockquote>\n        </div>\n        "@
}

/// The mail that tells the owner of a contact request. It is sent from
/// the configured sender, or the default one, to the configured owner, or
/// else to the sender, and answers go to the person who wrote.
pub open spec fn mail_of(
    name: Seq<char>,
    email: Seq<char>,
    message: Seq<char>,
    link: Option<Seq<char>>,
    api_key: Seq<char>,
    sender: Option<Seq<char>>,
    owner: Option<Seq<char>>,
) -> MailModel {
    let from = match sender {
        Some(address) => address,
        None => DEFAULT_SENDER@,
    };
    MailModel {
        from,
        to: match owner {
            Some(address) => address,
            None => from,
        },
        reply_to: email,
        subject: "Contact Form: "@ + name + " reached out"@,
        html: body_of(name, email, link_section_of(link), message),
        authorization: "Bearer "@ + api_key,
    }
}

/// The paragraph of the mail that shows the link that came with the request.
pub fn link_section(link: Option<&str>) -> (section: String)
    ensures
        section@ == link_section_of(opt_str(link)),
{
    match link {
        Some(url) => {
            if url.is_empty() {
                String::new()
            } else {
                let mut section = String::from_str("<p><strong>Job Link:</strong> <a href=\"");
                section.append(url);
                section.append("\">");
                section.append(url);
                section.append("</a></p>");
                section
            }
        },
        None => String::new(),
    }
}

/// The body of the mail that tells the owner of a contact request.
pub fn email_body(name: &str, email: &str, link_section: &str, message: &str) -> (html: String)
    ensures
        html@ == body_of(name@, email@, link_section@, message@),
{
    let mut html = String::from_str(
        "\n        <div style=\"font-family: sans-serif; max-width: 600px; margin: 0 auto;\">\n            <h2>New Contact Request</h2>\n            <p><strong>Name:</strong> ",
    );
    html.append(name);
    html.append("</p>\n            <p><strong>Email:</strong> ");
    html.append(email);
    html.append("</p>\n            ");
    html.append(link_section);
    html.append(
        "\n            <p><strong>Message:</strong></p>\n            <blockquote style=\"background: #f9f9f9; padding: 10px; border-left: 5px solid #ccc;\">\n                ",
    );
    html.append(message);
    html.append("\n            </blockquote>\n        </div>\n        ");
    html
}

/// Decides what to do about a contact request: a form that a script
/// filled in is answered as if sent and nothing is sent; without a key
/// for the mail service the request is refused; else the mail is made.
pub fn plan_contact(
    payload: &ContactPayload,
    api_key: Option<&str>,
    sender: Option<&str>,
    owner: Option<&str>,
) -> (plan: ContactPlan)
    ensures
        from_a_script(opt_text(payload.bot_field)) ==> plan == ContactPlan::Pretend,
        !from_a_script(opt_text(payload.bot_field)) && api_key is None ==> plan
            == ContactPlan::Refuse(ContactReply::NotConfigured),
        !from_a_script(opt_text(payload.bot_field)) && api_key is Some ==> (plan matches ContactPlan::Send(
            mail,
        ) && mail@ == mail_of(
            payload.name@,
            payload.email@,
            payload.message@,
            opt_text(payload.link),
            api_key->0@,
            opt_str(sender),
            opt_str(owner),
        )),
{
    if let Some(filled) = &payload.bot_field {
        if !filled.as_str().is_empty() {
            return ContactPlan::Pretend;
        }
    }
    let key = match api_key {
        Some(key) => key,
        None => {
            return ContactPlan::Refuse(ContactReply::NotConfigured);
        },
    };
    let from = match sender {
        Some(address) => String::from_str(address),
        None => String::from_str(DEFAULT_SENDER),
    };
    let to = match owner {
        Some(address) => String::from_str(address),
        None => from.clone(),
    };
    let section = match &payload.link {
        Some(url) => link_section(Some(url.as_str())),
        None => link_section(None),
    };
    let html = email_body(
        payload.name.as_str(),
        payload.email.as_str(),
        section.as_str(),
        payload.message.as_str(),
    );
    let mut subject = String::from_str("Contact Form: ");
    subject.append(payload.name.as_str());
    subject.append(" reached out");
    let mut authorization = String::from_str("Bearer ");
    authorization.append(key);
    ContactPlan::Send(
        Mail { from, to, reply_to: payload.email.clone(), subject, html, authorization },
    )
}

/// Whether a press on the form's button starts a submit: it does where
/// none is under way, and is passed over while one is.
pub fn may_submit(submitting: bool) -> (start: bool)
    ensures
        start == !submitting,
{
    !submitting
}

/// What came of handing a mail in.
#[derive(Debug, Clone, Copy, PartialEq, Eq)]
pub enum Delivery {
    /// The mail service took the mail.
    Accepted,
    /// The mail service answered with a failure.
    Refused,
    /// The mail service could not be reached.
    Unreachable,
}

/// How a contact request is answered once its mail was handed in.
pub fn conclude_contact(delivery: Delivery) -> (reply: ContactReply)
    ensures
        reply == (match delivery {
            Delivery::Accepted => ContactReply::Sent,
            Delivery::Refused => ContactReply::Rejected,
            Delivery::Unreachable => ContactReply::Unreachable,
        }),
{
    match delivery {
        Delivery::Accepted => ContactReply::Sent,
        Delivery::Refused => ContactReply::Rejected,
        Delivery::Unreachable => ContactReply::Unreachable,
    }
}

} // verus!
