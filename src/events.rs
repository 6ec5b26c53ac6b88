//! Progress events handed to the user interface.

use vstd::prelude::*;

verus! {

/// The status a progress event reports.
#[derive(Clone, Copy, Debug, PartialEq, Eq, Structural)]
pub enum EventStatus {
    Success,
    Loading,
    Error,
}

impl EventStatus {
    /// The status as the interface names it.
    pub fn name(&self) -> (r: String)
        ensures
            r@ == match self {
                EventStatus::Success => "Success"@,
                EventStatus::Loading => "Loading"@,
                EventStatus::Error => "Error"@,
            },
    {
        match self {
            EventStatus::Success => String::from_str("Success"),
            EventStatus::Loading => String::from_str("Loading"),
            EventStatus::Error => String::from_str("Error"),
        }
    }
}

/// A message with its status.
#[derive(Clone, Debug)]
pub struct BaseEventPayload {
    pub message: String,
    pub status: EventStatus,
}

/// An event of the sign-in flow.
#[derive(Clone, Debug)]
pub struct MSAuthEventPayload {
    pub base: BaseEventPayload,
}

/// Progress of preparing an instance.
#[derive(Clone, Debug)]
pub struct DownloadInstanceEventPayload {
    pub base: BaseEventPayload,
    pub total: u64,
    pub downloaded: u64,
    pub name: String,
}

/// The sign-in event carrying `status` and `message`.
pub fn emit_event(status: EventStatus, message: &str) -> (r: MSAuthEventPayload)
    ensures
        r.base.status == status,
        r.base.message@ == message@,
{
    MSAuthEventPayload { base: BaseEventPayload { message: String::from_str(message), status } }
}

/// A progress event for instance `name`.
pub fn progress_event(name: &String, status: EventStatus, message: &str, total: u64, downloaded: u64) -> (r: DownloadInstanceEventPayload)
    ensures
        r.base.status == status,
        r.base.message@ == message@,
        r.name@ == name@,
        r.total == total,
        r.downloaded == downloaded,
{
    DownloadInstanceEventPayload {
        base: BaseEventPayload { message: String::from_str(message), status },
        total,
        downloaded,
        name: name.clone(),
    }
}

} // verus!
