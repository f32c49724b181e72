//! Platforms without a service manager that is known.
use vstd::prelude::*;

use crate::failure;
use crate::failure::Failure;
use crate::service::ServiceStatus;

verus! {

/// The service cannot be installed.
pub fn install() -> (res: Result<(), Failure>)
    ensures
        res is Err,
        res->Err_0@ == failure::plain("service install not supported on this platform"@),
{
    Err(Failure::new("service install not supported on this platform".to_string()))
}

/// The service cannot be removed.
pub fn uninstall() -> (res: Result<(), Failure>)
    ensures
        res is Err,
        res->Err_0@ == failure::plain("service uninstall not supported on this platform"@),
{
    Err(Failure::new("service uninstall not supported on this platform".to_string()))
}

/// The service cannot be started.
pub fn start() -> (res: Result<(), Failure>)
    ensures
        res is Err,
        res->Err_0@ == failure::plain("service start not supported on this platform"@),
{
    Err(Failure::new("service start not supported on this platform".to_string()))
}

/// The service cannot be stopped.
pub fn stop() -> (res: Result<(), Failure>)
    ensures
        res is Err,
        res->Err_0@ == failure::plain("service stop not supported on this platform"@),
{
    Err(Failure::new("service stop not supported on this platform".to_string()))
}

/// The service is not installed.
pub fn status() -> (res: ServiceStatus)
    ensures
        res@ is NotInstalled,
{
    ServiceStatus::NotInstalled
}

} // verus!
