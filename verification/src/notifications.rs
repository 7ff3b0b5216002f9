//! The notification records the matcher consumes: the payload of one
//! delivered notification, its hints, and the process id the bus cache
//! resolved for the sender. A pid the sender embedded in its own hints
//! is preferred over the bus-resolved one, which is the fallback.

use vstd::prelude::*;

verus! {

/// One user-visible action offered by a notification.
pub struct ActionItem {
    /// The action's protocol identifier.
    pub id: String,
    /// The action's human-readable label.
    pub localised: String,
}

/// The actions of a notification, delivered on the wire as a flat list
/// of identifier/label pairs.
pub struct ActionList {
    items: Vec<ActionItem>,
}

impl View for ActionList {
    type V = Seq<ActionItem>;

    closed spec fn view(&self) -> Seq<ActionItem> {
        self.items@
    }
}

/// The pairing of a flat action string list: element `2k` names the
/// action, element `2k + 1` labels it; a trailing odd element is
/// dropped.
pub open spec fn spec_paired_actions(values: Seq<String>) -> Seq<ActionItem> {
    Seq::new(values.len() / 2, |k: int| ActionItem { id: values[2 * k], localised: values[2 * k + 1] })
}

impl ActionList {
    /// Pair up a flat list of strings into actions.
    pub fn from_flat(values: Vec<String>) -> (r: ActionList)
        ensures
            r@ == spec_paired_actions(values@),
    {
        let n = values.len();
        let mut items: Vec<ActionItem> = Vec::new();
        let mut k: usize = 0;
        while k + 1 < n
            invariant
                n == values@.len(),
                k % 2 == 0,
                k <= n,
                items@.len() == k / 2,
                forall|j: int|
                    0 <= j < items@.len() ==> (#[trigger] items@[j]) == (ActionItem {
                        id: values@[2 * j],
                        localised: values@[2 * j + 1],
                    }),
            decreases n - k,
        {
            let id = values[k].clone();
            let localised = values[k + 1].clone();
            items.push(ActionItem { id, localised });
            k = k + 2;
        }
        proof {
            assert(items@.len() == values@.len() / 2);
            assert(items@ =~= spec_paired_actions(values@));
        }
        ActionList { items }
    }

    /// The paired actions, in delivery order.
    pub fn items(&self) -> (r: &Vec<ActionItem>)
        ensures
            r@ == self@,
    {
        &self.items
    }
}

/// The hints attached to a notification that matter for attribution.
pub struct HintData {
    /// The desktop-entry identifier of the sending application, when
    /// the sender names one.
    pub desktop_entry: Option<String>,
    /// A process id the sender embedded itself; it outranks the
    /// bus-resolved one.
    pub sender_pid: Option<i64>,
}

/// The payload of one notification as delivered.
pub struct NotificationContent {
    /// The sending application's name, when given.
    pub app_name: Option<String>,
    /// The id of a notification this one replaces, when given.
    pub replaces_id: Option<u32>,
    /// The icon name or path the sender asked for, when given.
    pub app_icon: Option<String>,
    /// The one-line summary.
    pub summary: String,
    /// The body text, when given.
    pub body: Option<String>,
    /// The actions offered.
    pub actions: ActionList,
    /// The hints that matter for attribution.
    pub hints: HintData,
    /// The sender's expiry request in milliseconds; negative means
    /// "server default".
    pub expire_timeout: i32,
}

/// One notification together with the process id the bus cache
/// resolved for its sender.
pub struct NotificationData {
    notification: NotificationContent,
    process_id: Option<u32>,
}

impl NotificationData {
    /// Bundle a payload with the bus-resolved sender pid.
    pub fn new(notification: NotificationContent, process_id: Option<u32>) -> (r: Self)
        ensures
            r.notification() == notification,
            r.process_id() == process_id,
    {
        NotificationData { notification, process_id }
    }

    /// The view used in contracts: the payload.
    pub closed spec fn notification(&self) -> NotificationContent {
        self.notification
    }

    /// The view used in contracts: the bus-resolved pid.
    pub closed spec fn process_id(&self) -> Option<u32> {
        self.process_id
    }

    /// The notification payload.
    pub fn get_notification(&self) -> (r: &NotificationContent)
        ensures
            *r == self.notification(),
    {
        &self.notification
    }

    /// The pid attribution starts from: the pid the sender embedded in
    /// the notification's own hints when there is one, else the pid the
    /// bus cache resolved for the sender.
    pub fn get_process_id(&self) -> (r: Option<i64>)
        ensures
            r == (match self.notification().hints.sender_pid {
                Some(pid) => Some(pid),
                None => match self.process_id() {
                    Some(pid) => Some(pid as i64),
                    None => None::<i64>,
                },
            }),
    {
        match self.notification.hints.sender_pid {
            Some(pid) => Some(pid),
            None => match self.process_id {
                Some(pid) => Some(pid as i64),
                None => None,
            },
        }
    }
}

} // verus!
