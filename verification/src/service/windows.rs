//! The service under the service control manager of Windows, which starts it
//! with the machine.
use vstd::prelude::*;

use crate::config;
use crate::failure;
use crate::failure::Failure;
use crate::service;
use crate::service::ServiceStatus;

verus! {

pub const SERVICE_NAME: &'static str = "MembraneDaemon";

pub const DISPLAY_NAME: &'static str = "Membrane Daemon";

pub const DESCRIPTION: &'static str = "Customer-side daemon for the membrane cloud.";

/// What the service control manager is told of the service.
#[derive(Debug)]
pub struct Registration {
    pub name: String,
    pub display_name: String,
    pub description: String,
    pub executable: String,
    pub arguments: Vec<String>,
}

/// What to register.
pub fn install(exe: &str) -> (res: Registration)
    ensures
        res.name@ == SERVICE_NAME@,
        res.display_name@ == DISPLAY_NAME@,
        res.description@ == DESCRIPTION@,
        res.executable@ == exe@,
        config::texts(res.arguments@) == seq!["run"@],
{
    let mut arguments: Vec<String> = Vec::new();
    arguments.push("run".to_string());
    assert(config::texts(arguments@) =~= seq!["run"@]);
    Registration {
        name: SERVICE_NAME.to_string(),
        display_name: DISPLAY_NAME.to_string(),
        description: DESCRIPTION.to_string(),
        executable: exe.to_string(),
        arguments,
    }
}

/// What to tell the user once a service that could be opened was deleted, or
/// not, for this reason; a service that could not be opened is gone already.
pub fn uninstall(deleted: Option<Result<(), String>>) -> (res: Result<Option<&'static str>, Failure>)
    ensures
        match deleted {
            None => res == Ok::<Option<&'static str>, Failure>(None),
            Some(Ok(_)) => {
                &&& res is Ok
                &&& res->Ok_0 is Some
                &&& res->Ok_0->Some_0@ == "uninstalled Windows service"@
            },
            Some(Err(e)) => res is Err && res->Err_0@ == failure::because("delete service"@, e@),
        },
{
    match deleted {
        None => Ok(None),
        Some(Ok(_)) => Ok(Some("uninstalled Windows service")),
        Some(Err(e)) => Err(Failure::caused("delete service", e)),
    }
}

/// What came of an operation on the service that could be opened, or not, for
/// that reason.
fn operated(opened: Result<Result<(), String>, String>, failed: &str) -> (res: Result<(), Failure>)
    ensures
        match opened {
            Err(e) => res is Err && res->Err_0@ == failure::because("open service"@, e@),
            Ok(Err(e)) => res is Err && res->Err_0@ == failure::because(failed@, e@),
            Ok(Ok(_)) => res is Ok,
        },
{
    match opened {
        Err(e) => Err(Failure::caused("open service", e)),
        Ok(Err(e)) => Err(Failure::caused(failed, e)),
        Ok(Ok(_)) => Ok(()),
    }
}

/// What came of starting the service: it was opened, and then started.
pub fn start(opened: Result<Result<(), String>, String>) -> (res: Result<(), Failure>)
    ensures
        match opened {
            Err(e) => res is Err && res->Err_0@ == failure::because("open service"@, e@),
            Ok(Err(e)) => res is Err && res->Err_0@ == failure::because("start service"@, e@),
            Ok(Ok(_)) => res is Ok,
        },
{
    operated(opened, "start service")
}

/// What came of stopping the service: it was opened, and then stopped.
pub fn stop(opened: Result<Result<(), String>, String>) -> (res: Result<(), Failure>)
    ensures
        match opened {
            Err(e) => res is Err && res->Err_0@ == failure::because("open service"@, e@),
            Ok(Err(e)) => res is Err && res->Err_0@ == failure::because("stop service"@, e@),
            Ok(Ok(_)) => res is Ok,
        },
{
    operated(opened, "stop service")
}

/// The states that the service control manager tells apart here.
#[derive(Debug)]
pub enum ScmState {
    Running,
    Stopped,
    /// Another one, of this name.
    Other(String),
}

/// What asking the service control manager gave.
#[derive(Debug)]
pub enum ScmAnswer {
    /// It could not be opened.
    NoManager,
    /// It does not know the service.
    NoService,
    /// The service is in that state, or its state could not be had, for this
    /// reason.
    State(Result<ScmState, String>),
}

/// The service's state.
pub fn status(answer: ScmAnswer) -> (res: Result<ServiceStatus, Failure>)
    ensures
        match answer {
            ScmAnswer::NoManager => res is Ok && res->Ok_0@ == service::StatusModel::Unknown(
                "cannot open SCM"@,
            ),
            ScmAnswer::NoService => res is Ok && res->Ok_0@ is NotInstalled,
            ScmAnswer::State(Err(e)) => res is Err && res->Err_0@ == failure::because(
                "query status"@,
                e@,
            ),
            ScmAnswer::State(Ok(ScmState::Running)) => res is Ok && res->Ok_0@ is Running,
            ScmAnswer::State(Ok(ScmState::Stopped)) => res is Ok && res->Ok_0@ is Stopped,
            ScmAnswer::State(Ok(ScmState::Other(name))) => res is Ok && res->Ok_0@
                == service::StatusModel::Unknown(name@),
        },
{
    match answer {
        ScmAnswer::NoManager => Ok(ServiceStatus::Unknown("cannot open SCM".to_string())),
        ScmAnswer::NoService => Ok(ServiceStatus::NotInstalled),
        ScmAnswer::State(Err(e)) => Err(Failure::caused("query status", e)),
        ScmAnswer::State(Ok(ScmState::Running)) => Ok(ServiceStatus::Running),
        ScmAnswer::State(Ok(ScmState::Stopped)) => Ok(ServiceStatus::Stopped),
        ScmAnswer::State(Ok(ScmState::Other(name))) => Ok(ServiceStatus::Unknown(name)),
    }
}

} // verus!
