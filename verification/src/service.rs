//! The service as a whole: one pass over the paths, and where changes are
//! watched for, a wait and another pass, over and over.

use vstd::prelude::*;
use vstd::string::*;
use crate::error::Error;

verus! {

/// Where the service stands.
#[derive(Clone, Copy, Debug, PartialEq, Eq, Structural)]
pub enum Stage {
    /// Nothing has been asked for yet.
    Start,
    /// The watches are being set up.
    Registering,
    /// A pass is under way.
    Passing,
    /// The service waits for changes.
    Waiting,
    /// The service has ended.
    Stopped,
}

/// What came of the action that was asked for last.
#[derive(Debug, PartialEq, Eq)]
pub enum ServiceEvent {
    /// The service is to start.
    Begin,
    /// The action went through.
    Done,
    /// The action failed for good.
    Failed(Error),
}

/// What is to be done next.
#[derive(Debug, PartialEq, Eq)]
pub enum ServiceAction {
    /// Set up a watch for each path of the mirror.
    Register,
    /// Run a pass over the paths that wait.
    Pass,
    /// Wait for changes.
    Wait,
    /// End the process with this result.
    Exit(Result<(), Error>),
}

/// The port that a destination without one is given.
pub open spec fn default_port() -> Seq<char> {
    seq![':', '2', '2']
}

/// The stage that follows `stage` on `event`, and the action to take.
///
/// Without watching, the service runs one pass and ends. With it, the
/// watches are set up first; then a pass and a wait follow each other
/// without end. A failure ends the service with that error, and so does an
/// event that answers no action that was asked for, with `InvalidArgs`.
pub open spec fn service_next(watch: bool, stage: Stage, event: ServiceEvent) -> (
    Stage,
    ServiceAction,
) {
    match (stage, event) {
        (Stage::Start, ServiceEvent::Begin) => if watch {
            (Stage::Registering, ServiceAction::Register)
        } else {
            (Stage::Passing, ServiceAction::Pass)
        },
        (Stage::Registering, ServiceEvent::Done) => (Stage::Passing, ServiceAction::Pass),
        (Stage::Passing, ServiceEvent::Done) => if watch {
            (Stage::Waiting, ServiceAction::Wait)
        } else {
            (Stage::Stopped, ServiceAction::Exit(Ok(())))
        },
        (Stage::Waiting, ServiceEvent::Done) => (Stage::Passing, ServiceAction::Pass),
        (_, ServiceEvent::Failed(e)) => (Stage::Stopped, ServiceAction::Exit(Err(e))),
        _ => (Stage::Stopped, ServiceAction::Exit(Err(Error::InvalidArgs))),
    }
}

/// Validate destination host to parse as socket address.
///
/// `resolves` tells whether the destination as it stands names a host and a
/// port, and `resolves_with_port` whether it does with the port 22 added.
/// The first that holds gives the address; where neither does the
/// destination is refused.
pub fn socket_addr(dest: &str, resolves: bool, resolves_with_port: bool) -> (r: Result<
    String,
    Error,
>)
    ensures
        match r {
            Ok(addr) => if resolves {
                addr@ == dest@
            } else {
                resolves_with_port && addr@ == dest@ + default_port()
            },
            Err(e) => !resolves && !resolves_with_port && e == Error::InvalidArgs,
        },
{
    if resolves {
        Ok(String::from_str(dest))
    } else if resolves_with_port {
        Ok(with_default_port(dest))
    } else {
        Err(Error::InvalidArgs)
    }
}

/// The destination with the port 22 added.
pub fn with_default_port(dest: &str) -> (addr: String)
    ensures
        addr@ == dest@ + default_port(),
{
    let mut addr = String::from_str(dest);
    proof {
        reveal_strlit(":22");
        assert(":22"@ =~= default_port());
    }
    addr.append(":22");
    addr
}

/// Mirror files to another host: takes what came of the last action of the
/// service and decides the next one.
pub fn mirror_files(watch: bool, stage: Stage, event: ServiceEvent) -> (r: (Stage, ServiceAction))
    ensures
        r == service_next(watch, stage, event),
{
    match event {
        ServiceEvent::Begin => match stage {
            Stage::Start => if watch {
                (Stage::Registering, ServiceAction::Register)
            } else {
                (Stage::Passing, ServiceAction::Pass)
            },
            _ => (Stage::Stopped, ServiceAction::Exit(Err(Error::InvalidArgs))),
        },
        ServiceEvent::Done => match stage {
            Stage::Registering => (Stage::Passing, ServiceAction::Pass),
            Stage::Passing => if watch {
                (Stage::Waiting, ServiceAction::Wait)
            } else {
                (Stage::Stopped, ServiceAction::Exit(Ok(())))
            },
            Stage::Waiting => (Stage::Passing, ServiceAction::Pass),
            _ => (Stage::Stopped, ServiceAction::Exit(Err(Error::InvalidArgs))),
        },
        ServiceEvent::Failed(e) => (Stage::Stopped, ServiceAction::Exit(Err(e))),
    }
}

} // verus!
