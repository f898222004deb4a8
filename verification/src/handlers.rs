use crate::bus::{BusModel, EventBus, ReceivedModel};
use crate::bus_laws::law_publish_fans_out;
use crate::event::{AppEvent, EventModel};
use crate::ids::{parse_uuid, parsed_id};
use crate::models::{AppInfo, Application, Comment};
use vstd::prelude::*;

verus! {

/// How a request is answered, apart from the data that a success carries.
#[derive(Debug, Clone, Copy, PartialEq, Eq)]
pub enum Reply {
    /// 200: the body carries what was asked for.
    Success,
    /// 201: the body carries what was stored.
    Created,
    /// 204: done, and nothing to say.
    NoContent,
    /// 401: the caller is not who the request needs.
    Unauthorized,
    /// 404: there is no such application, or it is not the caller's.
    NotFound,
    /// 500: the store failed.
    DatabaseError,
    /// 500: the figures for the dashboard could not be read.
    StatsUnavailable,
}

impl Reply {
    /// The status code of the reply.
    pub open spec fn code(self) -> u16 {
        match self {
            Reply::Success => 200,
            Reply::Created => 201,
            Reply::NoContent => 204,
            Reply::Unauthorized => 401,
            Reply::NotFound => 404,
            Reply::DatabaseError => 500,
            Reply::StatsUnavailable => 500,
        }
    }

    /// The text that the reply carries; none where it carries data or nothing.
    pub open spec fn text(self) -> Seq<char> {
        match self {
            Reply::Success => ""@,
            Reply::Created => ""@,
            Reply::NoContent => ""@,
            Reply::Unauthorized => ""@,
            Reply::NotFound => "Application not found"@,
            Reply::DatabaseError => "Database error"@,
            Reply::StatsUnavailable => "Failed to fetch stats"@,
        }
    }

    /// The status code of the reply.
    pub fn status_code(self) -> (code: u16)
        ensures
            code == self.code(),
    {
        match self {
            Reply::Success => 200,
            Reply::Created => 201,
            Reply::NoContent => 204,
            Reply::Unauthorized => 401,
            Reply::NotFound => 404,
            Reply::DatabaseError => 500,
            Reply::StatsUnavailable => 500,
        }
    }

    /// The text that the reply carries; none where it carries data or nothing.
    pub fn message(self) -> (text: &'static str)
        ensures
            text@ == self.text(),
    {
        match self {
            Reply::Success => "",
            Reply::Created => "",
            Reply::NoContent => "",
            Reply::Unauthorized => "",
            Reply::NotFound => "Application not found",
            Reply::DatabaseError => "Database error",
            Reply::StatsUnavailable => "Failed to fetch stats",
        }
    }

    /// Whether the request was carried out.
    pub fn is_success(self) -> (yes: bool)
        ensures
            yes == (200 <= self.code() < 300),
    {
        match self {
            Reply::Success => true,
            Reply::Created => true,
            Reply::NoContent => true,
            _ => false,
        }
    }
}

/// What the store answered when it was asked for one row, or to write
/// one and hand it back.
#[derive(Debug, Clone, PartialEq, Eq)]
pub enum StoreOutcome<T> {
    /// The row that was found or written.
    Row(T),
    /// No row matched.
    Missing,
    /// The store failed.
    Failed,
}

impl<T> StoreOutcome<T> {
    /// How a lookup with this outcome is answered.
    pub fn reply(&self) -> (reply: Reply)
        ensures
            reply == (match *self {
                StoreOutcome::Row(_) => Reply::Success,
                StoreOutcome::Missing => Reply::NotFound,
                StoreOutcome::Failed => Reply::DatabaseError,
            }),
    {
        match self {
            StoreOutcome::Row(_) => Reply::Success,
            StoreOutcome::Missing => Reply::NotFound,
            StoreOutcome::Failed => Reply::DatabaseError,
        }
    }
}

/// How a request for a list is answered: with the rows, or with a
/// failure of the store where `rows_read` is false.
pub fn reply_to_listing(rows_read: bool) -> (reply: Reply)
    ensures
        reply == (if rows_read {
            Reply::Success
        } else {
            Reply::DatabaseError
        }),
{
    if rows_read {
        Reply::Success
    } else {
        Reply::DatabaseError
    }
}

/// How a request to store a new row is answered: `stored` tells whether
/// the store wrote it.
pub fn reply_to_creation(stored: bool) -> (reply: Reply)
    ensures
        reply == (if stored {
            Reply::Created
        } else {
            Reply::DatabaseError
        }),
{
    if stored {
        Reply::Created
    } else {
        Reply::DatabaseError
    }
}

/// How a request to delete is answered, from the number of rows that the
/// store deleted, or `None` where it failed.
pub fn reply_to_deletion(rows_affected: Option<u64>) -> (reply: Reply)
    ensures
        reply == (match rows_affected {
            Some(n) => if n > 0 {
                Reply::NoContent
            } else {
                Reply::NotFound
            },
            None => Reply::DatabaseError,
        }),
{
    match rows_affected {
        Some(n) => if n > 0 {
            Reply::NoContent
        } else {
            Reply::NotFound
        },
        None => Reply::DatabaseError,
    }
}

/// The user on whose behalf a request acts: the identifier that the
/// subject of its token stands for. A subject that is not written as a
/// UUID is refused as unauthorized, and the store is never asked.
pub fn acting_user(subject: &str) -> (user: Result<u128, Reply>)
    ensures
        user == (match parsed_id(subject@) {
            Some(id) => Ok::<u128, Reply>(id),
            None => Err::<u128, Reply>(Reply::Unauthorized),
        }),
{
    match parse_uuid(subject) {
        Some(id) => Ok(id),
        None => Err(Reply::Unauthorized),
    }
}

/// The event that tells of an application as it stands after an update.
pub open spec fn status_event(application: Application) -> EventModel {
    EventModel::ApplicationStatusUpdated {
        id: application.id,
        company: application.company@,
        status: application.status@,
    }
}

/// The event that tells of a new comment on the application that
/// `context` describes.
pub open spec fn comment_event(comment: Comment, context: AppInfo) -> EventModel {
    EventModel::CommentCreated {
        id: comment.id,
        application_id: comment.application_id,
        visitor_name: comment.visitor_name@,
        company: context.company@,
        role: context.role@,
    }
}

/// The bus after an update of an application was concluded: the event
/// is published where the store wrote the update, and only there.
pub open spec fn after_status_update(bus: BusModel, outcome: StoreOutcome<Application>) -> BusModel {
    match outcome {
        StoreOutcome::Row(application) => bus.publish(status_event(application)),
        _ => bus,
    }
}

/// The bus after the creation of a comment was concluded: the event is
/// published where the store wrote the comment, and only there.
pub open spec fn after_comment(bus: BusModel, stored: Option<(Comment, AppInfo)>) -> BusModel {
    match stored {
        Some((comment, context)) => bus.publish(comment_event(comment, context)),
        None => bus,
    }
}

/// Concludes an update of an application once the store has answered.
///
/// The event is published after the store has acknowledged the write and
/// never before: where the store wrote the update, the application as it
/// now stands is published exactly once and the request succeeds, whether
/// or not anybody is listening. Where no row matched or the store failed,
/// nothing is published.
pub fn conclude_status_update(bus: &mut EventBus, outcome: &StoreOutcome<Application>) -> (reply:
    Reply)
    ensures
        final(bus)@ == after_status_update(old(bus)@, *outcome),
        reply == (match *outcome {
            StoreOutcome::Row(_) => Reply::Success,
            StoreOutcome::Missing => Reply::NotFound,
            StoreOutcome::Failed => Reply::DatabaseError,
        }),
{
    match outcome {
        StoreOutcome::Row(application) => {
            let event = AppEvent::ApplicationStatusUpdated {
                id: application.id,
                company: application.company.clone(),
                status: application.status.clone(),
            };
            let _ = bus.publish(event);
            Reply::Success
        },
        StoreOutcome::Missing => Reply::NotFound,
        StoreOutcome::Failed => Reply::DatabaseError,
    }
}

/// What the store wrote for a new comment, as a value: the comment and,
/// with it, company and role of the application that it belongs to.
pub open spec fn written(stored: Option<(&Comment, &AppInfo)>) -> Option<(Comment, AppInfo)> {
    match stored {
        Some((comment, context)) => Some((*comment, *context)),
        None => None,
    }
}

/// Concludes the creation of a comment once the store has answered.
///
/// `stored` is the comment as the store wrote it, together with company
/// and role of the application that it belongs to, which the store hands
/// back with the comment; it is nothing where the store failed. Where
/// the comment was stored the event is published exactly once, after the
/// write and never before, and the request is answered as created,
/// whether or not anybody is listening. Where the store failed nothing
/// is published.
pub fn conclude_comment(bus: &mut EventBus, stored: Option<(&Comment, &AppInfo)>) -> (reply: Reply)
    ensures
        final(bus)@ == after_comment(old(bus)@, written(stored)),
        reply == (if stored is Some {
            Reply::Created
        } else {
            Reply::DatabaseError
        }),
{
    match stored {
        Some((comment, context)) => {
            let event = AppEvent::CommentCreated {
                id: comment.id,
                application_id: comment.application_id,
                visitor_name: comment.visitor_name.clone(),
                company: context.company.clone(),
                role: context.role.clone(),
            };
            let _ = bus.publish(event);
            Reply::Created
        },
        None => Reply::DatabaseError,
    }
}

/// What a publication on an open bus does for every subscriber: each
/// buffer ends with the event, a buffer that had room is the old one with
/// that one event appended, and a subscriber that had caught up is
/// handed the event and then nothing more.
pub open spec fn told_once(bus: BusModel, next: BusModel, event: EventModel) -> bool {
    &&& next.subscribers.dom() == bus.subscribers.dom()
    &&& forall|id: u64| #[trigger]
        bus.subscribers.contains_key(id) ==> {
            let before = bus.subscribers[id];
            let after = next.subscribers[id];
            &&& after.queue.len() >= 1
            &&& after.queue.last() == event
            &&& before.queue.len() < bus.capacity ==> after.queue == before.queue.push(event)
                && after.missed == before.missed
            &&& before.queue.len() == 0 && before.missed == 0 ==> next.received(id)
                == ReceivedModel::Event(event) && next.after_receive(id).received(id)
                == ReceivedModel::Empty
        }
}

proof fn lemma_told_once(bus: BusModel, event: EventModel)
    requires
        bus.wf(),
        !bus.closed,
    ensures
        told_once(bus, bus.publish(event), event),
{
    let next = bus.publish(event);
    law_publish_fans_out(bus, event);
    assert forall|id: u64| #[trigger] bus.subscribers.contains_key(id) implies ({
        let before = bus.subscribers[id];
        before.queue.len() == 0 && before.missed == 0 ==> next.received(id)
            == ReceivedModel::Event(event) && next.after_receive(id).received(id)
            == ReceivedModel::Empty
    }) by {
        let before = bus.subscribers[id];
        if before.queue.len() == 0 && before.missed == 0 {
            assert(next.subscribers[id].queue =~= seq![event]);
            assert(next.subscribers[id].queue.drop_first() =~= Seq::<EventModel>::empty());
        }
    }
}

/// An update that the store refused reaches no subscriber: the bus is as
/// it was. An update that the store made reaches every subscriber of an
/// open bus exactly once.
pub proof fn law_publish_follows_the_write(bus: BusModel, outcome: StoreOutcome<Application>)
    requires
        bus.wf(),
        !bus.closed,
    ensures
        !(outcome is Row) ==> after_status_update(bus, outcome) == bus,
        outcome matches StoreOutcome::Row(application) ==> told_once(
            bus,
            after_status_update(bus, outcome),
            status_event(application),
        ),
{
    if let StoreOutcome::Row(application) = outcome {
        lemma_told_once(bus, status_event(application));
    }
}

/// A comment that the store refused reaches no subscriber: the bus is as
/// it was. A comment that the store wrote reaches every subscriber of an
/// open bus exactly once.
pub proof fn law_comment_follows_the_write(bus: BusModel, stored: Option<(Comment, AppInfo)>)
    requires
        bus.wf(),
        !bus.closed,
    ensures
        stored is None ==> after_comment(bus, stored) == bus,
        stored matches Some((comment, context)) ==> told_once(
            bus,
            after_comment(bus, stored),
            comment_event(comment, context),
        ),
{
    if let Some((comment, context)) = stored {
        lemma_told_once(bus, comment_event(comment, context));
    }
}

} // verus!
