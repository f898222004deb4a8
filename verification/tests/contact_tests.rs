use oisko::contact::{
    conclude_contact, email_body, link_section, may_submit, plan_contact, ContactPayload,
    ContactPlan, ContactReply, ContactResponse, Delivery, Mail, DEFAULT_SENDER, MAIL_ENDPOINT,
};

fn payload(link: Option<&str>, bot_field: Option<&str>) -> ContactPayload {
    ContactPayload {
        name: "Ada".to_string(),
        email: "ada@example.com".to_string(),
        message: "Hello".to_string(),
        link: link.map(str::to_string),
        bot_field: bot_field.map(str::to_string),
    }
}

const BODY_WITHOUT_LINK: &str = "\n        <div style=\"font-family: sans-serif; max-width: 600px; margin: 0 auto;\">\n            <h2>New Contact Request</h2>\n            <p><strong>Name:</strong> Ada</p>\n            <p><strong>Email:</strong> ada@example.com</p>\n            \n            <p><strong>Message:</strong></p>\n            <blockquote style=\"background: #f9f9f9; padding: 10px; border-left: 5px solid #ccc;\">\n                Hello\n            </blockquote>\n        </div>\n        ";

#[test]
fn scripts_are_answered_but_nothing_is_sent() {
    assert_eq!(
        plan_contact(&payload(None, Some("x")), Some("key"), None, None),
        ContactPlan::Pretend
    );
    assert_eq!(plan_contact(&payload(None, Some("x")), None, None, None), ContactPlan::Pretend);
}

#[test]
fn without_a_key_nothing_can_be_sent() {
    assert_eq!(
        plan_contact(&payload(None, None), None, Some("s@x"), Some("o@x")),
        ContactPlan::Refuse(ContactReply::NotConfigured)
    );
    assert_eq!(
        plan_contact(&payload(None, Some("")), None, None, None),
        ContactPlan::Refuse(ContactReply::NotConfigured)
    );
}

#[test]
fn mail_with_defaults() {
    assert_eq!(DEFAULT_SENDER, "onboarding@resend.dev");
    assert_eq!(MAIL_ENDPOINT, "https://api.resend.com/emails");
    assert_eq!(
        plan_contact(&payload(None, None), Some("re_123"), None, None),
        ContactPlan::Send(Mail {
            from: "onboarding@resend.dev".to_string(),
            to: "onboarding@resend.dev".to_string(),
            reply_to: "ada@example.com".to_string(),
            subject: "Contact Form: Ada reached out".to_string(),
            html: BODY_WITHOUT_LINK.to_string(),
            authorization: "Bearer re_123".to_string(),
        })
    );
}

#[test]
fn mail_with_configured_addresses_and_link() {
    let plan = plan_contact(
        &payload(Some("https://jobs.example/1"), Some("")),
        Some("k"),
        Some("me@site.fi"),
        Some("owner@site.fi"),
    );
    match plan {
        ContactPlan::Send(mail) => {
            assert_eq!(mail.from, "me@site.fi");
            assert_eq!(mail.to, "owner@site.fi");
            assert!(mail.html.contains(
                "</p>\n            <p><strong>Job Link:</strong> <a href=\"https://jobs.example/1\">https://jobs.example/1</a></p>\n            <p><strong>Message:</strong></p>"
            ));
        }
        other => panic!("unexpected plan {:?}", other),
    }
    match plan_contact(&payload(None, None), Some("k"), Some("me@site.fi"), None) {
        ContactPlan::Send(mail) => assert_eq!(mail.to, "me@site.fi"),
        other => panic!("unexpected plan {:?}", other),
    }
}

#[test]
fn link_section_shows_a_link_that_is_there() {
    assert_eq!(link_section(None), "");
    assert_eq!(link_section(Some("")), "");
    assert_eq!(
        link_section(Some("u")),
        "<p><strong>Job Link:</strong> <a href=\"u\">u</a></p>"
    );
}

#[test]
fn body_is_the_template_filled_in() {
    assert_eq!(email_body("Ada", "ada@example.com", "", "Hello"), BODY_WITHOUT_LINK);
}

#[test]
fn delivery_decides_the_reply() {
    assert_eq!(conclude_contact(Delivery::Accepted), ContactReply::Sent);
    assert_eq!(conclude_contact(Delivery::Refused), ContactReply::Rejected);
    assert_eq!(conclude_contact(Delivery::Unreachable), ContactReply::Unreachable);
}

#[test]
fn contact_replies_have_their_codes_and_texts() {
    let all = [
        (ContactReply::Sent, 200, "Message sent successfully"),
        (ContactReply::NotConfigured, 500, "Email service not configured"),
        (ContactReply::Rejected, 500, "Failed to send email"),
        (ContactReply::Unreachable, 500, "Failed to connect to email service"),
    ];
    for (reply, code, text) in all {
        assert_eq!(reply.status_code(), code);
        assert_eq!(reply.message(), text);
    }
    assert_eq!(ContactResponse::sent().message, "Message sent successfully");
}

#[test]
fn a_pending_submit_is_not_started_again() {
    assert!(may_submit(false));
    assert!(!may_submit(true));
}
