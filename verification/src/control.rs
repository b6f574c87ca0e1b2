//! Construction of the backend control commands for starting and stopping a
//! service, and the capability guard for the package-manager backend.
use crate::record::Backend;
use crate::text::views_of_strings;
use vstd::prelude::*;

verus! {

/// The two control actions a selection leads to.
#[derive(Clone, Copy, Debug, PartialEq, Eq, Structural)]
pub enum ServiceAction {
    Start,
    Stop,
}

/// The one error this library itself raises: the package-manager backend was
/// asked for while its command-line tool is absent.
#[derive(Clone, Copy, Debug, PartialEq, Eq, Structural)]
pub enum ControlError {
    PackageManagerUnavailable,
}

/// An external command to run: a program and its ordered arguments.
pub struct Invocation {
    pub program: String,
    pub args: Vec<String>,
}

/// The program that controls a backend's services.
pub open spec fn spec_program(b: Backend) -> Seq<char> {
    match b {
        Backend::Native => "launchctl"@,
        Backend::PackageManager => "brew"@,
    }
}

/// The argument list of a control command: the native supervisor loads or
/// unloads with its persistence flag; the package manager starts or stops
/// through its services subcommand.
pub open spec fn spec_control_args(action: ServiceAction, b: Backend, name: Seq<char>) -> Seq<
    Seq<char>,
> {
    match b {
        Backend::Native => seq![
            if action == ServiceAction::Start {
                "load"@
            } else {
                "unload"@
            },
            "-w"@,
            name,
        ],
        Backend::PackageManager => seq![
            "services"@,
            if action == ServiceAction::Start {
                "start"@
            } else {
                "stop"@
            },
            name,
        ],
    }
}

/// Checks that the requested backend can be used: the native supervisor
/// always can, the package manager only when its tool is available.
pub fn check_capability(use_package: bool, package_available: bool) -> (r: Result<
    (),
    ControlError,
>)
    ensures
        r is Ok <==> (!use_package || package_available),
        r is Err ==> r == Result::<(), ControlError>::Err(ControlError::PackageManagerUnavailable),
{
    if use_package && !package_available {
        Err(ControlError::PackageManagerUnavailable)
    } else {
        Ok(())
    }
}

/// Builds the command that starts or stops the named service on the given
/// backend, or refuses when the package manager is required but absent.
pub fn control_invocation(
    name: &str,
    backend: Backend,
    action: ServiceAction,
    package_available: bool,
) -> (r: Result<Invocation, ControlError>)
    ensures
        r is Ok <==> (backend == Backend::Native || package_available),
        r matches Ok(inv) ==> inv.program@ == spec_program(backend) && views_of_strings(inv.args@)
            == spec_control_args(action, backend, name@),
        r is Err ==> r == Result::<Invocation, ControlError>::Err(
            ControlError::PackageManagerUnavailable,
        ),
{
    match backend {
        Backend::Native => {
            let verb = if action == ServiceAction::Start {
                "load"
            } else {
                "unload"
            };
            let mut args: Vec<String> = Vec::new();
            args.push(String::from_str(verb));
            args.push(String::from_str("-w"));
            args.push(String::from_str(name));
            proof {
                assert(views_of_strings(args@) =~= spec_control_args(action, backend, name@));
            }
            Ok(Invocation { program: String::from_str("launchctl"), args })
        },
        Backend::PackageManager => {
            if !package_available {
                Err(ControlError::PackageManagerUnavailable)
            } else {
                let verb = if action == ServiceAction::Start {
                    "start"
                } else {
                    "stop"
                };
                let mut args: Vec<String> = Vec::new();
                args.push(String::from_str("services"));
                args.push(String::from_str(verb));
                args.push(String::from_str(name));
                proof {
                    assert(views_of_strings(args@) =~= spec_control_args(action, backend, name@));
                }
                Ok(Invocation { program: String::from_str("brew"), args })
            }
        },
    }
}

} // verus!
