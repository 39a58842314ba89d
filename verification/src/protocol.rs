//! The values of an update-check request: who asks, for which applications,
//! and what is asked or reported of each.

use vstd::prelude::*;

verus! {

/// The version of the protocol that requests are written in.
pub const PROTOCOL_V3: &'static str = "3.0";

/// The header that names the updater.
pub const HEADER_UPDATER_NAME: &'static str = "X-Goog-Update-Updater";

/// The header that says whether a user waits for the answer.
pub const HEADER_INTERACTIVITY: &'static str = "X-Goog-Update-Interactivity";

/// The header that names the application.
pub const HEADER_APP_ID: &'static str = "X-Goog-Update-AppId";

/// A copy of an optional text.
pub fn clone_text(text: &Option<String>) -> (copy: Option<String>)
    ensures
        copy == *text,
{
    match text {
        Some(text) => Some(text.clone()),
        None => None,
    }
}

/// Why a request is made.
#[derive(Clone, Copy, Debug, PartialEq, Eq, Structural)]
pub enum InstallSource {
    /// A user asked for it and waits.
    OnDemand,
    /// The schedule asked for it.
    ScheduledTask,
}

/// The group of installations that an application belongs to.
#[derive(Debug, PartialEq, Eq)]
pub struct Cohort {
    pub id: Option<String>,
    pub hint: Option<String>,
    pub name: Option<String>,
}

impl Clone for Cohort {
    fn clone(&self) -> (copy: Cohort)
        ensures
            copy == *self,
    {
        Cohort {
            id: clone_text(&self.id),
            hint: clone_text(&self.hint),
            name: clone_text(&self.name),
        }
    }
}

/// A copy of an optional cohort.
pub fn clone_cohort(cohort: &Option<Cohort>) -> (copy: Option<Cohort>)
    ensures
        copy == *cohort,
{
    match cohort {
        Some(cohort) => Some(cohort.clone()),
        None => None,
    }
}

/// An application that updates are asked for.
#[derive(Debug, PartialEq, Eq)]
pub struct App {
    pub id: String,
    pub version: String,
    pub fingerprint: Option<String>,
}

impl Clone for App {
    fn clone(&self) -> (copy: App)
        ensures
            copy == *self,
    {
        App {
            id: self.id.clone(),
            version: self.version.clone(),
            fingerprint: clone_text(&self.fingerprint),
        }
    }
}

/// The days since the application was last active and last seen.
#[derive(Clone, Copy, Debug, PartialEq, Eq)]
pub struct Ping {
    pub date_last_active: Option<i32>,
    pub date_last_roll_call: Option<i32>,
}

/// Something that happened to an application and is reported.
#[derive(Clone, Copy, Debug, PartialEq, Eq)]
pub struct Event {
    pub event_type: u32,
    pub event_result: u32,
    pub errorcode: Option<i32>,
}

/// The request to be told of an update.
#[derive(Clone, Copy, Debug, PartialEq, Eq)]
pub struct UpdateCheck {
    /// Whether updates are switched off by policy.
    pub disabled: bool,
}

impl UpdateCheck {
    /// The plain request, with updates switched on.
    pub fn default() -> (check: UpdateCheck)
        ensures
            check == (UpdateCheck { disabled: false }),
    {
        UpdateCheck { disabled: false }
    }
}

/// The updater that makes the request.
#[derive(Debug, PartialEq, Eq)]
pub struct Updater {
    pub name: String,
    pub version: String,
}

/// The operating system that the updater runs on.
#[derive(Debug, PartialEq, Eq)]
pub struct OS {
    pub platform: String,
    pub version: String,
    pub service_pack: String,
    pub arch: String,
}

impl Clone for OS {
    fn clone(&self) -> (copy: OS)
        ensures
            copy == *self,
    {
        OS {
            platform: self.platform.clone(),
            version: self.version.clone(),
            service_pack: self.service_pack.clone(),
            arch: self.arch.clone(),
        }
    }
}

/// What stays the same from request to request.
#[derive(Debug, PartialEq, Eq)]
pub struct Config {
    pub updater: Updater,
    pub os: OS,
    pub service_url: String,
}

/// One application, as a request shows it.
#[derive(Debug, PartialEq, Eq)]
pub struct ProtocolApp {
    pub id: String,
    pub version: String,
    pub fingerprint: Option<String>,
    pub cohort: Option<Cohort>,
    pub update_check: Option<UpdateCheck>,
    pub events: Vec<Event>,
    pub ping: Option<Ping>,
}

/// A request.
#[derive(Debug, PartialEq, Eq)]
pub struct Request {
    pub protocol_version: String,
    pub updater: String,
    pub updater_version: String,
    pub install_source: InstallSource,
    pub is_machine: bool,
    pub os: OS,
    pub apps: Vec<ProtocolApp>,
}

/// A request as it is sent: the one member of the outermost object.
#[derive(Debug, PartialEq, Eq)]
pub struct RequestWrapper {
    pub request: Request,
}

} // verus!
