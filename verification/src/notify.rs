use crate::event::{decoded, AppEvent, EventModel};
use vstd::prelude::*;
use vstd::string::StringExecFns;

verus! {

/// Seconds for which a notification is shown before it is taken away.
pub const NOTIFICATION_SECONDS: u64 = 8;

/// What a notification tells of.
#[derive(Debug, Clone, Copy, PartialEq, Eq)]
pub enum NotificationType {
    Comment,
    StatusUpdate,
}

/// A short notice shown to the viewer for a while.
#[derive(Debug, PartialEq, Eq)]
pub struct Notification {
    pub id: u128,
    pub title: String,
    pub message: String,
    pub type_: NotificationType,
}

/// A notification as a mathematical value.
pub struct NotificationModel {
    pub id: u128,
    pub title: Seq<char>,
    pub message: Seq<char>,
    pub type_: NotificationType,
}

impl View for Notification {
    type V = NotificationModel;

    open spec fn view(&self) -> NotificationModel {
        NotificationModel {
            id: self.id,
            title: self.title@,
            message: self.message@,
            type_: self.type_,
        }
    }
}

impl Clone for Notification {
    fn clone(&self) -> (copy: Self)
        ensures
            copy@ == self@,
    {
        Notification {
            id: self.id,
            title: self.title.clone(),
            message: self.message.clone(),
            type_: self.type_,
        }
    }
}

/// The notification that tells the viewer of `event`, filed under `id`.
pub open spec fn notice_of(event: EventModel, id: u128) -> NotificationModel {
    match event {
        EventModel::CommentCreated { visitor_name, company, .. } => NotificationModel {
            id,
            title: "NEW SIGNAL"@,
            message: visitor_name + " commented on mission "@ + company,
            type_: NotificationType::Comment,
        },
        EventModel::ApplicationStatusUpdated { company, status, .. } => NotificationModel {
            id,
            title: "STATUS CHANGE"@,
            message: "Mission "@ + company + " updated to "@ + status,
            type_: NotificationType::StatusUpdate,
        },
    }
}

/// The notification that tells the viewer of `event`, filed under `id`.
pub fn notification_for(event: &AppEvent, id: u128) -> (notice: Notification)
    ensures
        notice@ == notice_of(event@, id),
{
    match event {
        AppEvent::CommentCreated { visitor_name, company, .. } => {
            let mut message = visitor_name.clone();
            message.append(" commented on mission ");
            message.append(company.as_str());
            Notification {
                id,
                title: String::from_str("NEW SIGNAL"),
                message,
                type_: NotificationType::Comment,
            }
        },
        AppEvent::ApplicationStatusUpdated { company, status, .. } => {
            let mut message = String::from_str("Mission ");
            message.append(company.as_str());
            message.append(" updated to ");
            message.append(status.as_str());
            Notification {
                id,
                title: String::from_str("STATUS CHANGE"),
                message,
                type_: NotificationType::StatusUpdate,
            }
        },
    }
}

/// The notifications in `shown` that are not filed under `id`, in their order.
pub open spec fn without(shown: Seq<NotificationModel>, id: u128) -> Seq<NotificationModel> {
    shown.filter(|n: NotificationModel| n.id != id)
}

/// The views of the notifications in `shown`.
pub open spec fn notices(shown: Seq<Notification>) -> Seq<NotificationModel> {
    shown.map_values(|n: Notification| n@)
}

/// Takes the notifications filed under `id` away and leaves the others
/// in their order.
pub fn dismiss(shown: &mut Vec<Notification>, id: u128)
    ensures
        notices(final(shown)@) == without(notices(old(shown)@), id),
{
    let ghost before = notices(shown@);
    let ghost keep = |n: NotificationModel| n.id != id;
    let mut kept: Vec<Notification> = Vec::new();
    let mut i: usize = 0;
    proof {
        reveal(Seq::filter);
        assert(notices(kept@) =~= before.take(0).filter(keep));
    }
    while i < shown.len()
        invariant
            i <= shown@.len(),
            before == notices(shown@),
            keep == |n: NotificationModel| n.id != id,
            notices(kept@) == before.take(i as int).filter(keep),
        decreases shown@.len() - i,
    {
        proof {
            reveal(Seq::filter);
            assert(before.take(i + 1).drop_last() =~= before.take(i as int));
            assert(before.take(i + 1).last() == before[i as int]);
        }
        if shown[i].id != id {
            let ghost earlier = notices(kept@);
            kept.push(shown[i].clone());
            proof {
                assert(notices(kept@) =~= earlier.push(before[i as int]));
            }
        }
        i += 1;
    }
    proof {
        assert(before.take(shown@.len() as int) =~= before);
    }
    *shown = kept;
}

/// Takes in one message of the event stream: where it is the wire form
/// of an event, the notification that tells of it is added at the end,
/// filed under `id`; any other message is passed over and nothing
/// changes. Says whether a notification was added.
pub fn take_message(shown: &mut Vec<Notification>, message: &str, id: u128) -> (added: bool)
    ensures
        added == decoded(message@) is Some,
        added ==> notices(final(shown)@) == notices(old(shown)@).push(
            notice_of(decoded(message@)->0, id),
        ),
        !added ==> final(shown)@ == old(shown)@,
{
    match AppEvent::from_json(message) {
        Some(event) => {
            let notice = notification_for(&event, id);
            let ghost before = notices(shown@);
            shown.push(notice);
            proof {
                assert(notices(shown@) =~= before.push(notice_of(event@, id)));
            }
            true
        },
        None => false,
    }
}

} // verus!
