use oisko::bus::{EventBus, Received};
use oisko::event::AppEvent;
use oisko::handlers::{
    acting_user, conclude_comment, conclude_status_update, reply_to_creation, reply_to_deletion,
    reply_to_listing, Reply, StoreOutcome,
};
use oisko::models::{AppInfo, Application, Comment};

fn application(status: &str) -> Application {
    Application {
        id: 9,
        user_id: 1,
        company: "Acme".to_string(),
        company_website: None,
        role: "Engineer".to_string(),
        status: status.to_string(),
        salary: None,
        contact_person: None,
        cv_version: None,
        cv_path: None,
        cover_letter: None,
        cover_letter_path: None,
        logo_url: None,
        description: None,
        comment_count: Some(2),
        created_at: 0,
        updated_at: 0,
    }
}

fn comment() -> Comment {
    Comment {
        id: 5,
        application_id: 9,
        visitor_name: "Ada".to_string(),
        content: "Good luck".to_string(),
        created_at: 0,
    }
}

#[test]
fn successful_update_publishes_exactly_one_event() {
    let mut bus = EventBus::new(4);
    let a = bus.subscribe().unwrap();
    let b = bus.subscribe().unwrap();
    let reply = conclude_status_update(&mut bus, &StoreOutcome::Row(application("Offer")));
    assert_eq!(reply, Reply::Success);
    let expected = AppEvent::ApplicationStatusUpdated {
        id: 9,
        company: "Acme".to_string(),
        status: "Offer".to_string(),
    };
    assert_eq!(bus.receive(a), Received::Event(expected.clone()));
    assert_eq!(bus.receive(a), Received::Empty);
    assert_eq!(bus.receive(b), Received::Event(expected));
    assert_eq!(bus.receive(b), Received::Empty);
}

#[test]
fn failed_update_publishes_nothing() {
    let mut bus = EventBus::new(4);
    let a = bus.subscribe().unwrap();
    assert_eq!(
        conclude_status_update(&mut bus, &StoreOutcome::Failed),
        Reply::DatabaseError
    );
    assert_eq!(
        conclude_status_update(&mut bus, &StoreOutcome::Missing),
        Reply::NotFound
    );
    assert_eq!(bus.pending(a), Some(0));
    assert_eq!(bus.receive(a), Received::Empty);
}

#[test]
fn update_succeeds_without_listeners() {
    let mut bus = EventBus::new(4);
    assert_eq!(
        conclude_status_update(&mut bus, &StoreOutcome::Row(application("Applied"))),
        Reply::Success
    );
    bus.close();
    assert_eq!(
        conclude_status_update(&mut bus, &StoreOutcome::Row(application("Applied"))),
        Reply::Success
    );
}

#[test]
fn stored_comment_is_announced_with_its_context() {
    let mut bus = EventBus::new(4);
    let a = bus.subscribe().unwrap();
    let info = AppInfo { company: "Acme".to_string(), role: "Engineer".to_string() };
    assert_eq!(conclude_comment(&mut bus, Some((&comment(), &info))), Reply::Created);
    assert_eq!(
        bus.receive(a),
        Received::Event(AppEvent::CommentCreated {
            id: 5,
            application_id: 9,
            visitor_name: "Ada".to_string(),
            company: "Acme".to_string(),
            role: "Engineer".to_string(),
        })
    );
    assert_eq!(bus.receive(a), Received::Empty);
}

#[test]
fn every_stored_comment_is_announced_exactly_once() {
    let mut bus = EventBus::new(4);
    let a = bus.subscribe().unwrap();
    let b = bus.subscribe().unwrap();
    let unknown = AppInfo { company: String::new(), role: String::new() };
    assert_eq!(conclude_comment(&mut bus, Some((&comment(), &unknown))), Reply::Created);
    let expected = AppEvent::CommentCreated {
        id: 5,
        application_id: 9,
        visitor_name: "Ada".to_string(),
        company: String::new(),
        role: String::new(),
    };
    assert_eq!(bus.receive(a), Received::Event(expected.clone()));
    assert_eq!(bus.receive(a), Received::Empty);
    assert_eq!(bus.receive(b), Received::Event(expected));
    assert_eq!(bus.receive(b), Received::Empty);
}

#[test]
fn comment_is_created_without_listeners() {
    let mut bus = EventBus::new(4);
    let info = AppInfo { company: "Acme".to_string(), role: "Engineer".to_string() };
    assert_eq!(conclude_comment(&mut bus, Some((&comment(), &info))), Reply::Created);
    bus.close();
    assert_eq!(conclude_comment(&mut bus, Some((&comment(), &info))), Reply::Created);
}

#[test]
fn failed_comment_is_not_announced() {
    let mut bus = EventBus::new(4);
    let a = bus.subscribe().unwrap();
    assert_eq!(conclude_comment(&mut bus, None), Reply::DatabaseError);
    assert_eq!(bus.pending(a), Some(0));
    assert_eq!(bus.receive(a), Received::Empty);
}

#[test]
fn replies_have_their_codes_and_texts() {
    let all = [
        (Reply::Success, 200, ""),
        (Reply::Created, 201, ""),
        (Reply::NoContent, 204, ""),
        (Reply::Unauthorized, 401, ""),
        (Reply::NotFound, 404, "Application not found"),
        (Reply::DatabaseError, 500, "Database error"),
        (Reply::StatsUnavailable, 500, "Failed to fetch stats"),
    ];
    for (reply, code, text) in all {
        assert_eq!(reply.status_code(), code);
        assert_eq!(reply.message(), text);
        assert_eq!(reply.is_success(), code < 300);
    }
}

#[test]
fn lookups_listings_creations_and_deletions() {
    assert_eq!(StoreOutcome::Row(1).reply(), Reply::Success);
    assert_eq!(StoreOutcome::<i32>::Missing.reply(), Reply::NotFound);
    assert_eq!(StoreOutcome::<i32>::Failed.reply(), Reply::DatabaseError);
    assert_eq!(reply_to_listing(true), Reply::Success);
    assert_eq!(reply_to_listing(false), Reply::DatabaseError);
    assert_eq!(reply_to_creation(true), Reply::Created);
    assert_eq!(reply_to_creation(false), Reply::DatabaseError);
    assert_eq!(reply_to_deletion(Some(1)), Reply::NoContent);
    assert_eq!(reply_to_deletion(Some(0)), Reply::NotFound);
    assert_eq!(reply_to_deletion(None), Reply::DatabaseError);
}

#[test]
fn acting_user_reads_the_subject() {
    assert_eq!(
        acting_user("a1a2a3a4-b1b2-c1c2-d1d2-d3d4d5d6d7d8"),
        Ok(0xa1a2a3a4b1b2c1c2d1d2d3d4d5d6d7d8)
    );
    assert_eq!(
        acting_user("A1A2A3A4B1B2C1C2D1D2D3D4D5D6D7D8"),
        Ok(0xa1a2a3a4b1b2c1c2d1d2d3d4d5d6d7d8)
    );
    assert_eq!(acting_user("not-a-uuid"), Err(Reply::Unauthorized));
    assert_eq!(acting_user(""), Err(Reply::Unauthorized));
}
