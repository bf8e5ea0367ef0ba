//! The launcher's decisions: how to answer the supervisor's exit, which
//! handler a supervisor message goes to, which supervisor binary to run
//! and whether its version is supported.

use crate::health_check::{digits_value, is_u64_text, parse_u64, unsigned_digits};
use crate::text::text_eq;
use vstd::prelude::*;

verus! {

/// Exit code with which a supervisor asks the launcher to stop without
/// restarting it, reporting failure.
pub const ERR_NO_RETRY_EXCODE: i32 = 86;

/// Exit code with which a supervisor asks the launcher to stop without
/// restarting it, reporting success.
pub const OK_NO_RETRY_EXCODE: i32 = 84;

/// What a launcher tick decided.
#[derive(Clone, Copy, Debug, PartialEq, Eq, Structural)]
pub enum TickState {
    /// Keep running.
    Continue,
    /// Stop, exiting with this code.
    Exit(i32),
}

/// How the supervisor process ended: its exit code, or the signal that
/// killed it, as the operating system reports them.
#[derive(Clone, Copy, Debug, PartialEq, Eq, Structural)]
pub struct ExitStatusInfo {
    pub code: Option<i32>,
    pub signal: Option<i32>,
}

/// Why the launcher must reload the supervisor.
#[derive(Clone, Copy, Debug, PartialEq, Eq, Structural)]
pub enum LauncherFailure {
    /// The supervisor exited with a code that asks for nothing in
    /// particular.
    UnexpectedExitCode(i32),
    /// The supervisor ended with neither an exit code nor a signal.
    UnknownTermination,
    /// Waiting on the supervisor process failed.
    WaitFailed,
}

/// The response to the supervisor's exit: `Ok(Exit(code))` means "stop
/// every service, then exit with `code`"; an error means "reload".
pub open spec fn exit_response(status: ExitStatusInfo) -> Result<TickState, LauncherFailure> {
    match status.code {
        Some(c) => if c == ERR_NO_RETRY_EXCODE {
            Ok(TickState::Exit(ERR_NO_RETRY_EXCODE))
        } else if c == OK_NO_RETRY_EXCODE {
            Ok(TickState::Exit(0))
        } else {
            Err(LauncherFailure::UnexpectedExitCode(c))
        },
        None => match status.signal {
            Some(_) => Ok(TickState::Exit(0)),
            None => Err(LauncherFailure::UnknownTermination),
        },
    }
}

/// Only the two no-retry exit codes stop the launcher: 86 makes it exit
/// with 86 and 84 with 0; every other exit code reloads the supervisor,
/// reporting that code. A supervisor ended by a signal stops the launcher
/// with 0; one ended with neither code nor signal reloads it.
pub proof fn law_exit_codes(status: ExitStatusInfo)
    ensures
        ERR_NO_RETRY_EXCODE == 86 && OK_NO_RETRY_EXCODE == 84,
        status.code == Some(86i32) ==> exit_response(status) == Ok::<TickState, LauncherFailure>(
            TickState::Exit(86),
        ),
        status.code == Some(84i32) ==> exit_response(status) == Ok::<TickState, LauncherFailure>(
            TickState::Exit(0),
        ),
        forall|c: i32|
            status.code == Some(c) && c != 84 && c != 86 ==> exit_response(status) == Err::<
                TickState,
                LauncherFailure,
            >(LauncherFailure::UnexpectedExitCode(c)),
        exit_response(status) == Ok::<TickState, LauncherFailure>(TickState::Exit(0)) ==> (
        status.code == Some(84i32) || (status.code is None && status.signal is Some)),
{
}

/// Given that the supervisor process has ended as `status`, decides
/// whether to stop everything (and with which exit code) or to restart it.
/// On `Ok(Exit(_))` the caller stops every service first.
pub fn handle_supervisor_exit(status: ExitStatusInfo) -> (r: Result<TickState, LauncherFailure>)
    ensures
        r == exit_response(status),
        r matches Ok(t) ==> t is Exit,
        status.code == Some(86i32) ==> r == Ok::<TickState, LauncherFailure>(TickState::Exit(86)),
        status.code == Some(84i32) ==> r == Ok::<TickState, LauncherFailure>(TickState::Exit(0)),
        forall|c: i32|
            status.code == Some(c) && c != 84 && c != 86 ==> r == Err::<TickState, LauncherFailure>(
                LauncherFailure::UnexpectedExitCode(c),
            ),
        status.code is None && status.signal is Some ==> r == Ok::<TickState, LauncherFailure>(
            TickState::Exit(0),
        ),
        status.code is None && status.signal is None ==> r == Err::<TickState, LauncherFailure>(
            LauncherFailure::UnknownTermination,
        ),
{
    match status.code {
        Some(c) => {
            if c == ERR_NO_RETRY_EXCODE {
                Ok(TickState::Exit(ERR_NO_RETRY_EXCODE))
            } else if c == OK_NO_RETRY_EXCODE {
                Ok(TickState::Exit(0))
            } else {
                Err(LauncherFailure::UnexpectedExitCode(c))
            }
        },
        None => match status.signal {
            Some(_) => Ok(TickState::Exit(0)),
            None => Err(LauncherFailure::UnknownTermination),
        },
    }
}

/// What polling the supervisor process found, when no message was waiting.
#[derive(Clone, Copy, Debug, PartialEq, Eq, Structural)]
pub enum SupervisorPoll {
    /// Still running.
    Running,
    /// It ended.
    Exited(ExitStatusInfo),
    /// Waiting on it failed.
    WaitFailed,
}

/// The outcome of a tick in which no message from the supervisor was
/// waiting.
pub fn handle_poll(poll: SupervisorPoll) -> (r: Result<TickState, LauncherFailure>)
    ensures
        r == match poll {
            SupervisorPoll::Running => Ok(TickState::Continue),
            SupervisorPoll::Exited(status) => exit_response(status),
            SupervisorPoll::WaitFailed => Err(LauncherFailure::WaitFailed),
        },
{
    match poll {
        SupervisorPoll::Running => Ok(TickState::Continue),
        SupervisorPoll::Exited(status) => handle_supervisor_exit(status),
        SupervisorPoll::WaitFailed => Err(LauncherFailure::WaitFailed),
    }
}

/// What one call of `waitpid(-1, .., WNOHANG)` reported.
#[derive(Clone, Copy, Debug, PartialEq, Eq, Structural)]
pub enum Reaped {
    /// The supervisor process was reaped.
    Supervisor,
    /// Some other child process was reaped.
    OtherChild,
    /// No child is waiting to be reaped.
    NoneWaiting,
    /// The call failed.
    Failed,
}

/// Classifies the result `res` of `waitpid(-1, .., WNOHANG)`, given the
/// supervisor's process id. Reaping goes on after `Supervisor` and
/// `OtherChild` and stops after the other two.
pub fn classify_waitpid(res: i32, supervisor_pid: i32) -> (r: Reaped)
    ensures
        r == (if res > 0 {
            if res == supervisor_pid {
                Reaped::Supervisor
            } else {
                Reaped::OtherChild
            }
        } else if res < 0 {
            Reaped::Failed
        } else {
            Reaped::NoneWaiting
        }),
{
    if res > 0 {
        if res == supervisor_pid {
            Reaped::Supervisor
        } else {
            Reaped::OtherChild
        }
    } else if res < 0 {
        Reaped::Failed
    } else {
        Reaped::NoneWaiting
    }
}

/// One round of reaping child processes: given the supervisor's end found
/// so far, the result `res` of `waitpid(-1, .., WNOHANG)` and the status it
/// reported, the supervisor's end found so far afterwards, and whether to
/// call `waitpid` again. The supervisor's status is kept when it was the
/// one reaped; reaping stops once no child is waiting or the call failed.
pub fn reap_step(
    reaped: Option<ExitStatusInfo>,
    res: i32,
    supervisor_pid: i32,
    status: ExitStatusInfo,
) -> (r: (Option<ExitStatusInfo>, bool))
    ensures
        r == (if res > 0 {
            if res == supervisor_pid {
                (Some(status), true)
            } else {
                (reaped, true)
            }
        } else {
            (reaped, false)
        }),
{
    match classify_waitpid(res, supervisor_pid) {
        Reaped::Supervisor => (Some(status), true),
        Reaped::OtherChild => (reaped, true),
        Reaped::NoneWaiting | Reaped::Failed => (reaped, false),
    }
}

/// What the launcher's main loop does after a tick.
#[derive(Clone, Copy, Debug, PartialEq, Eq, Structural)]
pub enum RunStep {
    /// Sleep briefly, then tick again.
    Sleep,
    /// Leave the loop, exiting with this code.
    Finish(i32),
    /// Reload the supervisor, then tick again.
    Reload,
}

/// The main loop's step after a tick with result `tick`.
pub fn run_step(tick: Result<TickState, LauncherFailure>) -> (r: RunStep)
    ensures
        r == match tick {
            Ok(TickState::Continue) => RunStep::Sleep,
            Ok(TickState::Exit(code)) => RunStep::Finish(code),
            Err(_) => RunStep::Reload,
        },
{
    match tick {
        Ok(TickState::Continue) => RunStep::Sleep,
        Ok(TickState::Exit(code)) => RunStep::Finish(code),
        Err(_) => RunStep::Reload,
    }
}

/// The handlers of supervisor messages.
#[derive(Clone, Copy, Debug, PartialEq, Eq, Structural)]
pub enum Handler {
    Restart,
    Spawn,
    Terminate,
    PidOf,
    Version,
}

/// The message id that each handler answers.
pub open spec fn handler_message_id(h: Handler) -> Seq<char> {
    match h {
        Handler::Restart => "Restart"@,
        Handler::Spawn => "Spawn"@,
        Handler::Terminate => "Terminate"@,
        Handler::PidOf => "PidOf"@,
        Handler::Version => "Version"@,
    }
}

/// The handler for a message with id `message_id`; `None` for an unknown
/// message, which is answered with an error.
pub fn route(message_id: &str) -> (r: Option<Handler>)
    ensures
        match r {
            Some(h) => message_id@ == handler_message_id(h),
            None => forall|h: Handler| message_id@ != #[trigger] handler_message_id(h),
        },
{
    let r = if text_eq(message_id, "Restart") {
        Some(Handler::Restart)
    } else if text_eq(message_id, "Spawn") {
        Some(Handler::Spawn)
    } else if text_eq(message_id, "Terminate") {
        Some(Handler::Terminate)
    } else if text_eq(message_id, "PidOf") {
        Some(Handler::PidOf)
    } else if text_eq(message_id, "Version") {
        Some(Handler::Version)
    } else {
        None
    };
    proof {
        if r is None {
            assert forall|h: Handler| message_id@ != #[trigger] handler_message_id(h) by {
                match h {
                    Handler::Restart => {},
                    Handler::Spawn => {},
                    Handler::Terminate => {},
                    Handler::PidOf => {},
                    Handler::Version => {},
                }
            }
        }
    }
    r
}

/// The text of the error that answers an unknown message.
pub fn unknown_message_text(message_id: &str) -> (r: String)
    ensures
        r@ == "Received unknown message from Supervisor, "@ + message_id@,
{
    let mut r = String::from_str("Received unknown message from Supervisor, ");
    r.append(message_id);
    r
}

/// What looking for the supervisor binary in the installed supervisor
/// package found.
#[derive(Clone, Debug, PartialEq, Eq)]
pub enum SupervisorLookup {
    /// The package holds the binary at this path.
    Found(String),
    /// The package is installed but its binary was not found.
    NoCommand,
    /// No supervisor package is installed.
    NoPackage,
}

/// Why no supervisor binary could be chosen.
#[derive(Clone, Copy, Debug, PartialEq, Eq, Structural)]
pub enum SupervisorCmdError {
    /// The supervisor package does not hold the binary.
    BinaryNotInPackage,
    /// No supervisor package is installed.
    PackageNotFound,
}

/// Determines the supervisor binary to run: the path named by the
/// override environment variable when it is set, else the binary found
/// in the installed supervisor package. The package is only consulted
/// when no override is set.
pub fn supervisor_cmd(env_override: Option<String>, lookup: SupervisorLookup) -> (r: Result<
    String,
    SupervisorCmdError,
>)
    ensures
        match env_override {
            Some(cmd) => r matches Ok(path) && path@ == cmd@,
            None => match lookup {
                SupervisorLookup::Found(cmd) => r matches Ok(path) && path@ == cmd@,
                SupervisorLookup::NoCommand => r == Err::<String, SupervisorCmdError>(
                    SupervisorCmdError::BinaryNotInPackage,
                ),
                SupervisorLookup::NoPackage => r == Err::<String, SupervisorCmdError>(
                    SupervisorCmdError::PackageNotFound,
                ),
            },
        },
{
    match env_override {
        Some(cmd) => Ok(cmd),
        None => match lookup {
            SupervisorLookup::Found(cmd) => Ok(cmd),
            SupervisorLookup::NoCommand => Err(SupervisorCmdError::BinaryNotInPackage),
            SupervisorLookup::NoPackage => Err(SupervisorCmdError::PackageNotFound),
        },
    }
}

/// Seconds to wait for the supervisor's IPC connection when the timeout
/// setting is absent or is not a number.
pub const DEFAULT_IPC_CONNECT_TIMEOUT_SECS: u64 = 5;

/// Seconds to wait for the supervisor's IPC connection, from the text of
/// the timeout setting (empty when it is not set): the number it spells,
/// or the default when it spells none.
pub fn connect_timeout_secs(setting: &str) -> (r: u64)
    ensures
        r == if is_u64_text(setting@) {
            digits_value(unsigned_digits(setting@)) as u64
        } else {
            DEFAULT_IPC_CONNECT_TIMEOUT_SECS
        },
{
    match parse_u64(setting) {
        Ok(n) => n,
        Err(_) => DEFAULT_IPC_CONNECT_TIMEOUT_SECS,
    }
}

/// What has just happened within a tick.
#[derive(Clone, Copy, Debug, PartialEq, Eq, Structural)]
pub enum TickEvent {
    /// The tick begins.
    Started,
    /// Ended service processes were reaped.
    ServicesReaped,
    /// The shutdown signal was found pending (`true`) or not.
    ShutdownChecked(bool),
    /// The launcher shut the supervisor and its services down.
    ShutDown,
    /// The child-exit signal was found pending (`true`) or not.
    ChildExitChecked(bool),
    /// Ended child processes were reaped; the supervisor's end, if it was
    /// among them.
    ZombiesReaped(Option<ExitStatusInfo>),
    /// The hang-up signal was found pending (`true`) or not.
    HangupChecked(bool),
    /// The hang-up signal was forwarded to the supervisor.
    HangupForwarded,
    /// A waiting supervisor message was handled (`None`), or there was none
    /// and the supervisor process was polled.
    MessageHandled(Option<SupervisorPoll>),
}

/// What the launcher does next within a tick.
#[derive(Clone, Copy, Debug, PartialEq, Eq)]
pub enum TickAction {
    ReapServices,
    /// Read (and clear) the pending shutdown signal.
    CheckShutdown,
    ShutDown,
    /// Read (and clear) the pending child-exit signal.
    CheckChildExit,
    ReapZombies,
    /// Read (and clear) the pending hang-up signal.
    CheckHangup,
    ForwardHangup,
    HandleMessage,
    /// Stop every service, then end the tick with `Exit(code)`.
    StopServicesAndExit(i32),
    /// End the tick with this outcome.
    Finish(Result<TickState, LauncherFailure>),
}

/// The outcome of the supervisor's end: stop the services first when the
/// launcher is to exit.
pub open spec fn after_exit(r: Result<TickState, LauncherFailure>) -> TickAction {
    match r {
        Ok(TickState::Exit(code)) => TickAction::StopServicesAndExit(code),
        _ => TickAction::Finish(r),
    }
}

/// A launcher tick, step by step: reap ended services; then read the
/// shutdown signal and shut down if it was pending; else read the
/// child-exit signal and reap ended children if it was pending, which ends
/// the tick if the supervisor was among them; then read the hang-up signal
/// and forward it if it was pending; then handle a message or poll the
/// supervisor. Each signal is read only when its turn comes.
pub fn tick_step(event: TickEvent) -> (r: TickAction)
    ensures
        r == match event {
            TickEvent::Started => TickAction::ReapServices,
            TickEvent::ServicesReaped => TickAction::CheckShutdown,
            TickEvent::ShutdownChecked(true) => TickAction::ShutDown,
            TickEvent::ShutdownChecked(false) => TickAction::CheckChildExit,
            TickEvent::ShutDown => TickAction::Finish(Ok(TickState::Exit(0))),
            TickEvent::ChildExitChecked(true) => TickAction::ReapZombies,
            TickEvent::ChildExitChecked(false) => TickAction::CheckHangup,
            TickEvent::ZombiesReaped(Some(status)) => after_exit(exit_response(status)),
            TickEvent::ZombiesReaped(None) => TickAction::CheckHangup,
            TickEvent::HangupChecked(true) => TickAction::ForwardHangup,
            TickEvent::HangupChecked(false) => TickAction::HandleMessage,
            TickEvent::HangupForwarded => TickAction::HandleMessage,
            TickEvent::MessageHandled(None) => TickAction::Finish(Ok(TickState::Continue)),
            TickEvent::MessageHandled(Some(poll)) => match poll {
                SupervisorPoll::Exited(status) => after_exit(exit_response(status)),
                SupervisorPoll::Running => TickAction::Finish(Ok(TickState::Continue)),
                SupervisorPoll::WaitFailed => TickAction::Finish(Err(LauncherFailure::WaitFailed)),
            },
        },
{
    match event {
        TickEvent::Started => TickAction::ReapServices,
        TickEvent::ServicesReaped => TickAction::CheckShutdown,
        TickEvent::ShutdownChecked(pending) => if pending {
            TickAction::ShutDown
        } else {
            TickAction::CheckChildExit
        },
        TickEvent::ShutDown => TickAction::Finish(Ok(TickState::Exit(0))),
        TickEvent::ChildExitChecked(pending) => if pending {
            TickAction::ReapZombies
        } else {
            TickAction::CheckHangup
        },
        TickEvent::ZombiesReaped(Some(status)) => match handle_supervisor_exit(status) {
            Ok(TickState::Exit(code)) => TickAction::StopServicesAndExit(code),
            other => TickAction::Finish(other),
        },
        TickEvent::ZombiesReaped(None) => TickAction::CheckHangup,
        TickEvent::HangupChecked(pending) => if pending {
            TickAction::ForwardHangup
        } else {
            TickAction::HandleMessage
        },
        TickEvent::HangupForwarded => TickAction::HandleMessage,
        TickEvent::MessageHandled(None) => TickAction::Finish(Ok(TickState::Continue)),
        TickEvent::MessageHandled(Some(poll)) => match handle_poll(poll) {
            Ok(TickState::Exit(code)) => TickAction::StopServicesAndExit(code),
            other => TickAction::Finish(other),
        },
    }
}

/// What has just happened while shutting down.
#[derive(Clone, Copy, Debug, PartialEq, Eq, Structural)]
pub enum ShutdownEvent {
    /// Shutting down begins.
    Started,
    /// The shutdown message reached the supervisor (`true`) or could not
    /// be sent (`false`).
    ShutdownSent(bool),
    /// The supervisor was killed.
    SupervisorKilled,
    /// Polling found the supervisor still running (`true`) or ended.
    Polled(bool),
    /// Services were reaped after a short wait.
    Waited,
    /// Every service was stopped.
    ServicesStopped,
}

/// What the launcher does next while shutting down.
#[derive(Clone, Copy, Debug, PartialEq, Eq, Structural)]
pub enum ShutdownAction {
    SendShutdown,
    KillSupervisor,
    PollSupervisor,
    /// Reap ended services, then wait a moment.
    ReapServicesAndWait,
    StopAllServices,
    Done,
}

/// Shutting down, step by step: ask the supervisor to shut down (killing
/// it if the request cannot be sent); while it runs, keep reaping the
/// services it stops; once it has ended, stop every service left.
pub fn shutdown_step(event: ShutdownEvent) -> (r: ShutdownAction)
    ensures
        r == match event {
            ShutdownEvent::Started => ShutdownAction::SendShutdown,
            ShutdownEvent::ShutdownSent(true) => ShutdownAction::PollSupervisor,
            ShutdownEvent::ShutdownSent(false) => ShutdownAction::KillSupervisor,
            ShutdownEvent::SupervisorKilled => ShutdownAction::PollSupervisor,
            ShutdownEvent::Polled(true) => ShutdownAction::ReapServicesAndWait,
            ShutdownEvent::Polled(false) => ShutdownAction::StopAllServices,
            ShutdownEvent::Waited => ShutdownAction::PollSupervisor,
            ShutdownEvent::ServicesStopped => ShutdownAction::Done,
        },
{
    match event {
        ShutdownEvent::Started => ShutdownAction::SendShutdown,
        ShutdownEvent::ShutdownSent(sent) => if sent {
            ShutdownAction::PollSupervisor
        } else {
            ShutdownAction::KillSupervisor
        },
        ShutdownEvent::SupervisorKilled => ShutdownAction::PollSupervisor,
        ShutdownEvent::Polled(running) => if running {
            ShutdownAction::ReapServicesAndWait
        } else {
            ShutdownAction::StopAllServices
        },
        ShutdownEvent::Waited => ShutdownAction::PollSupervisor,
        ShutdownEvent::ServicesStopped => ShutdownAction::Done,
    }
}

/// What waiting on a service process found.
#[derive(Clone, Copy, Debug, PartialEq, Eq, Structural)]
pub enum ChildPoll {
    Running,
    Exited,
    WaitFailed,
}

/// The process ids, in order, of the services whose process has ended or
/// could not be waited on: those to forget when reaping.
pub open spec fn ended_pids(polls: Seq<(u32, ChildPoll)>) -> Seq<u32>
    decreases polls.len(),
{
    if polls.len() == 0 {
        Seq::empty()
    } else if polls.last().1 == ChildPoll::Running {
        ended_pids(polls.drop_last())
    } else {
        ended_pids(polls.drop_last()).push(polls.last().0)
    }
}

/// A process id is among the ended ones exactly when some poll of it
/// found its process ended or not waitable; the ended ids keep the order
/// of the polls and are never more than the polls.
pub proof fn law_ended_pids(polls: Seq<(u32, ChildPoll)>)
    ensures
        forall|k: int|
            0 <= k < polls.len() && (#[trigger] polls[k]).1 != ChildPoll::Running
                ==> ended_pids(polls).contains(polls[k].0),
        forall|x: u32|
            #[trigger] ended_pids(polls).contains(x) ==> exists|k: int|
                0 <= k < polls.len() && (#[trigger] polls[k]).0 == x && polls[k].1 != ChildPoll::Running,
        ended_pids(polls) == polls.filter(|p: (u32, ChildPoll)| p.1 != ChildPoll::Running).map_values(
            |p: (u32, ChildPoll)| p.0,
        ),
        ended_pids(polls).len() <= polls.len(),
    decreases polls.len(),
{
    reveal(Seq::filter);
    if polls.len() > 0 {
        let init = polls.drop_last();
        let n = polls.len() - 1;
        law_ended_pids(init);
        assert forall|k: int| 0 <= k < init.len() implies #[trigger] init[k] == polls[k] by {}
        let r = ended_pids(polls);
        let ri = ended_pids(init);
        assert forall|k: int|
            0 <= k < polls.len() && (#[trigger] polls[k]).1 != ChildPoll::Running implies r.contains(
                polls[k].0,
            ) by {
            if k < n {
                assert(ri.contains(init[k].0));
                let j = choose|j: int| 0 <= j < ri.len() && ri[j] == init[k].0;
                assert(r[j] == ri[j]);
            } else {
                assert(r[r.len() - 1] == polls[k].0);
            }
        }
        assert forall|x: u32| #[trigger] r.contains(x) implies exists|k: int|
            0 <= k < polls.len() && (#[trigger] polls[k]).0 == x && polls[k].1 != ChildPoll::Running by {
            let j = choose|j: int| 0 <= j < r.len() && r[j] == x;
            if j < ri.len() {
                assert(ri[j] == x);
                assert(ri.contains(x));
                let k = choose|k: int|
                    0 <= k < init.len() && (#[trigger] init[k]).0 == x && init[k].1 != ChildPoll::Running;
                assert(polls[k] == init[k]);
            } else {
                assert(polls[n].0 == x);
            }
        }
        let f = polls.filter(|p: (u32, ChildPoll)| p.1 != ChildPoll::Running);
        let fi = init.filter(|p: (u32, ChildPoll)| p.1 != ChildPoll::Running);
        assert(r =~= f.map_values(|p: (u32, ChildPoll)| p.0));
    } else {
        assert(ended_pids(polls) =~= polls.filter(|p: (u32, ChildPoll)| p.1 != ChildPoll::Running).map_values(
            |p: (u32, ChildPoll)| p.0,
        ));
    }
}

/// The services to forget after polling each service process.
pub fn ended_services(polls: &Vec<(u32, ChildPoll)>) -> (r: Vec<u32>)
    ensures
        r@ == ended_pids(polls@),
        forall|k: int|
            0 <= k < polls@.len() && (#[trigger] polls@[k]).1 != ChildPoll::Running ==> r@.contains(
                polls@[k].0,
            ),
        forall|x: u32|
            #[trigger] r@.contains(x) ==> exists|k: int|
                0 <= k < polls@.len() && (#[trigger] polls@[k]).0 == x && polls@[k].1
                    != ChildPoll::Running,
        r@ == polls@.filter(|p: (u32, ChildPoll)| p.1 != ChildPoll::Running).map_values(
            |p: (u32, ChildPoll)| p.0,
        ),
{
    proof {
        law_ended_pids(polls@);
    }
    let mut r: Vec<u32> = Vec::new();
    let mut i: usize = 0;
    while i < polls.len()
        invariant
            i <= polls.len(),
            r@ == ended_pids(polls@.take(i as int)),
        decreases polls.len() - i,
    {
        assert(polls@.take(i + 1).drop_last() =~= polls@.take(i as int));
        let (pid, poll) = polls[i];
        if poll != ChildPoll::Running {
            r.push(pid);
        }
        i += 1;
    }
    assert(polls@.take(polls.len() as int) =~= polls@);
    r
}

} // verus!
