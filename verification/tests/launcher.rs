use biome_svc::launcher::{classify_waitpid, connect_timeout_secs, ended_services, handle_poll,
                          handle_supervisor_exit, reap_step, route, run_step, shutdown_step,
                          supervisor_cmd, tick_step, unknown_message_text, ChildPoll,
                          ExitStatusInfo, Handler, LauncherFailure, Reaped,
                          RunStep, ShutdownAction, ShutdownEvent, SupervisorCmdError,
                          SupervisorLookup, SupervisorPoll, TickAction, TickEvent, TickState,
                          DEFAULT_IPC_CONNECT_TIMEOUT_SECS, ERR_NO_RETRY_EXCODE,
                          OK_NO_RETRY_EXCODE};
use biome_svc::service_table::{Service, ServiceTable};
use biome_svc::sup_version::{is_supported_supervisor_version, SUP_VERSION_REQ};

fn exited(code: Option<i32>, signal: Option<i32>) -> ExitStatusInfo {
    ExitStatusInfo { code, signal }
}

#[test]
fn supervisor_no_retry_codes_stop_the_launcher() {
    assert_eq!(handle_supervisor_exit(exited(Some(ERR_NO_RETRY_EXCODE), None)),
               Ok(TickState::Exit(ERR_NO_RETRY_EXCODE)));
    assert_eq!(handle_supervisor_exit(exited(Some(OK_NO_RETRY_EXCODE), None)),
               Ok(TickState::Exit(0)));
}

#[test]
fn supervisor_other_exits_reload() {
    assert_eq!(handle_supervisor_exit(exited(Some(1), None)),
               Err(LauncherFailure::UnexpectedExitCode(1)));
    assert_eq!(handle_supervisor_exit(exited(Some(0), None)),
               Err(LauncherFailure::UnexpectedExitCode(0)));
    assert_eq!(handle_supervisor_exit(exited(None, None)),
               Err(LauncherFailure::UnknownTermination));
}

#[test]
fn supervisor_killed_by_signal_stops_the_launcher() {
    assert_eq!(handle_supervisor_exit(exited(None, Some(9))), Ok(TickState::Exit(0)));
}

#[test]
fn polling_a_running_supervisor_continues() {
    assert_eq!(handle_poll(SupervisorPoll::Running), Ok(TickState::Continue));
    assert_eq!(handle_poll(SupervisorPoll::WaitFailed), Err(LauncherFailure::WaitFailed));
    assert_eq!(handle_poll(SupervisorPoll::Exited(exited(Some(84), None))),
               Ok(TickState::Exit(0)));
}

#[test]
fn waitpid_results_are_classified() {
    assert_eq!(classify_waitpid(42, 42), Reaped::Supervisor);
    assert_eq!(classify_waitpid(43, 42), Reaped::OtherChild);
    assert_eq!(classify_waitpid(0, 42), Reaped::NoneWaiting);
    assert_eq!(classify_waitpid(-1, 42), Reaped::Failed);
}

#[test]
fn run_loop_steps() {
    assert_eq!(run_step(Ok(TickState::Continue)), RunStep::Sleep);
    assert_eq!(run_step(Ok(TickState::Exit(3))), RunStep::Finish(3));
    assert_eq!(run_step(Err(LauncherFailure::WaitFailed)), RunStep::Reload);
}

#[test]
fn messages_are_routed_by_id() {
    assert_eq!(route("Restart"), Some(Handler::Restart));
    assert_eq!(route("Spawn"), Some(Handler::Spawn));
    assert_eq!(route("Terminate"), Some(Handler::Terminate));
    assert_eq!(route("PidOf"), Some(Handler::PidOf));
    assert_eq!(route("Version"), Some(Handler::Version));
    assert_eq!(route("spawn"), None);
    assert_eq!(unknown_message_text("Frobnicate"),
               "Received unknown message from Supervisor, Frobnicate");
}

#[test]
fn supervisor_binary_choice() {
    assert_eq!(supervisor_cmd(Some("/bin/sup".to_string()), SupervisorLookup::NoPackage),
               Ok("/bin/sup".to_string()));
    assert_eq!(supervisor_cmd(None, SupervisorLookup::Found("/pkgs/sup".to_string())),
               Ok("/pkgs/sup".to_string()));
    assert_eq!(supervisor_cmd(None, SupervisorLookup::NoCommand),
               Err(SupervisorCmdError::BinaryNotInPackage));
    assert_eq!(supervisor_cmd(None, SupervisorLookup::NoPackage),
               Err(SupervisorCmdError::PackageNotFound));
}

#[test]
fn supervisor_versions() {
    assert!(is_supported_supervisor_version("bio-sup 0.59.0/20180712161546"));
    assert!(is_supported_supervisor_version("bio-sup 0.62.0-dev"));
    assert!(is_supported_supervisor_version("bio-sup 0.56.0"));
    assert!(is_supported_supervisor_version("bio-sup 1.0.0\n"));
    assert!(!is_supported_supervisor_version("bio-sup 0.55.9"));
    assert!(!is_supported_supervisor_version("bio-sup not-a-version"));
    assert!(!is_supported_supervisor_version("bio-sup 0.59"));
    assert!(is_supported_supervisor_version("bio-sup 0.56.0-rc.1"));
    assert!(is_supported_supervisor_version("bio-sup 0.56.0+build5"));
    assert!(is_supported_supervisor_version("bio-sup 0.60.1/rc.1"));
    assert!(!is_supported_supervisor_version("bio-sup 0.9.9"));
    assert_eq!(SUP_VERSION_REQ, ">= 0.56");
}

#[test]
fn service_table_records_and_forgets() {
    let mut table = ServiceTable::default();
    table.insert(Service::new(100, "redis.default"));
    table.insert(Service::new(200, "nginx.default"));
    assert_eq!(table.get(100).unwrap().name(), "redis.default");
    assert_eq!(table.pid_of("nginx.default"), Some(200));
    assert_eq!(table.pid_of("postgres.default"), None);
    let removed = table.remove(100).unwrap();
    assert_eq!(removed.id(), 100);
    assert!(table.get(100).is_none());
    assert!(table.remove(100).is_none());
    let mut pids = table.pids();
    pids.sort();
    assert_eq!(pids, vec![200]);
}

#[test]
fn service_table_get_mut_and_reap() {
    let mut table = ServiceTable::default();
    table.insert(Service::new(1, "a.default"));
    table.insert(Service::new(2, "b.default"));
    table.insert(Service::new(3, "c.default"));
    *table.get_mut(2).unwrap() = Service::new(2, "bb.default");
    assert_eq!(table.get(2).unwrap().name(), "bb.default");
    assert!(table.get_mut(9).is_none());
    table.remove_exited(&vec![1, 3, 7]);
    let mut pids = table.pids();
    pids.sort();
    assert_eq!(pids, vec![2]);
}

#[test]
fn blank_supervisor_output_is_not_supported() {
    assert!(!is_supported_supervisor_version(""));
    assert!(!is_supported_supervisor_version("   "));
    assert!(!is_supported_supervisor_version("\n\t"));
}

#[test]
fn connect_timeout_setting() {
    assert_eq!(DEFAULT_IPC_CONNECT_TIMEOUT_SECS, 5);
    assert_eq!(connect_timeout_secs(""), 5);
    assert_eq!(connect_timeout_secs("7"), 7);
    assert_eq!(connect_timeout_secs("+12"), 12);
    assert_eq!(connect_timeout_secs("x"), 5);
    assert_eq!(connect_timeout_secs("-3"), 5);
}

#[test]
fn tick_reaps_services_first_then_shuts_down() {
    assert_eq!(tick_step(TickEvent::Started), TickAction::ReapServices);
    assert_eq!(tick_step(TickEvent::ServicesReaped), TickAction::CheckShutdown);
    assert_eq!(tick_step(TickEvent::ShutdownChecked(true)), TickAction::ShutDown);
    assert_eq!(tick_step(TickEvent::ShutDown), TickAction::Finish(Ok(TickState::Exit(0))));
}

#[test]
fn tick_reaps_children_then_forwards_hangup_then_handles_messages() {
    assert_eq!(tick_step(TickEvent::ShutdownChecked(false)), TickAction::CheckChildExit);
    assert_eq!(tick_step(TickEvent::ChildExitChecked(true)), TickAction::ReapZombies);
    assert_eq!(tick_step(TickEvent::ZombiesReaped(None)), TickAction::CheckHangup);
    assert_eq!(tick_step(TickEvent::HangupChecked(true)), TickAction::ForwardHangup);
    assert_eq!(tick_step(TickEvent::HangupForwarded), TickAction::HandleMessage);
    assert_eq!(tick_step(TickEvent::MessageHandled(None)),
               TickAction::Finish(Ok(TickState::Continue)));
    assert_eq!(tick_step(TickEvent::ChildExitChecked(false)), TickAction::CheckHangup);
    assert_eq!(tick_step(TickEvent::HangupChecked(false)), TickAction::HandleMessage);
}

#[test]
fn tick_supervisor_end_decides() {
    assert_eq!(tick_step(TickEvent::ZombiesReaped(Some(exited(Some(ERR_NO_RETRY_EXCODE), None)))),
               TickAction::StopServicesAndExit(ERR_NO_RETRY_EXCODE));
    assert_eq!(tick_step(TickEvent::ZombiesReaped(Some(exited(Some(1), None)))),
               TickAction::Finish(Err(LauncherFailure::UnexpectedExitCode(1))));
    assert_eq!(tick_step(TickEvent::MessageHandled(Some(SupervisorPoll::Running))),
               TickAction::Finish(Ok(TickState::Continue)));
    assert_eq!(tick_step(TickEvent::MessageHandled(Some(SupervisorPoll::WaitFailed))),
               TickAction::Finish(Err(LauncherFailure::WaitFailed)));
    assert_eq!(tick_step(TickEvent::MessageHandled(Some(SupervisorPoll::Exited(exited(Some(OK_NO_RETRY_EXCODE),
                                                                                        None))))),
               TickAction::StopServicesAndExit(0));
}

#[test]
fn reaping_keeps_the_supervisors_end_and_stops_when_done() {
    let sup_end = exited(Some(0), None);
    let other = exited(Some(3), None);
    assert_eq!(reap_step(None, 42, 42, sup_end), (Some(sup_end), true));
    assert_eq!(reap_step(Some(sup_end), 43, 42, other), (Some(sup_end), true));
    assert_eq!(reap_step(None, 43, 42, other), (None, true));
    assert_eq!(reap_step(Some(sup_end), 0, 42, other), (Some(sup_end), false));
    assert_eq!(reap_step(None, -1, 42, other), (None, false));
}

#[test]
fn shutdown_steps() {
    assert_eq!(shutdown_step(ShutdownEvent::Started), ShutdownAction::SendShutdown);
    assert_eq!(shutdown_step(ShutdownEvent::ShutdownSent(true)), ShutdownAction::PollSupervisor);
    assert_eq!(shutdown_step(ShutdownEvent::ShutdownSent(false)), ShutdownAction::KillSupervisor);
    assert_eq!(shutdown_step(ShutdownEvent::SupervisorKilled), ShutdownAction::PollSupervisor);
    assert_eq!(shutdown_step(ShutdownEvent::Polled(true)), ShutdownAction::ReapServicesAndWait);
    assert_eq!(shutdown_step(ShutdownEvent::Waited), ShutdownAction::PollSupervisor);
    assert_eq!(shutdown_step(ShutdownEvent::Polled(false)), ShutdownAction::StopAllServices);
    assert_eq!(shutdown_step(ShutdownEvent::ServicesStopped), ShutdownAction::Done);
}

#[test]
fn ended_services_are_those_not_running() {
    let polls = vec![(1, ChildPoll::Running),
                     (2, ChildPoll::Exited),
                     (3, ChildPoll::WaitFailed),
                     (4, ChildPoll::Running),
                     (5, ChildPoll::Exited)];
    assert_eq!(ended_services(&polls), vec![2, 3, 5]);
    assert_eq!(ended_services(&Vec::new()), Vec::<u32>::new());
}

#[test]
fn every_service_is_found_under_its_own_id() {
    let mut table = ServiceTable::default();
    table.insert(Service::new(10, "a.default"));
    table.insert(Service::new(20, "b.default"));
    table.insert(Service::new(10, "c.default"));
    *table.get_mut(20).unwrap() = Service::new(20, "d.default");
    table.remove_exited(&vec![30]);
    for pid in table.pids() {
        assert_eq!(table.get(pid).unwrap().id(), pid);
    }
    assert_eq!(table.get(10).unwrap().name(), "c.default");
    assert_eq!(table.pid_of("a.default"), None);
}

#[test]
fn supervisor_version_words_split_on_unicode_whitespace() {
    assert!(is_supported_supervisor_version("bio-sup\u{3000}0.59.0"));
    assert!(is_supported_supervisor_version("bio-sup\u{85}0.59.0\u{2029}"));
    assert!(!is_supported_supervisor_version("bio-sup\u{200B}0.59.0"));
}

#[test]
fn a_reinserted_service_is_found_again() {
    let mut table = ServiceTable::default();
    table.insert(Service::new(5, "a.default"));
    table.remove_exited(&vec![5]);
    assert!(table.get(5).is_none());
    table.insert(Service::new(5, "b.default"));
    assert_eq!(table.get(5).unwrap().name(), "b.default");
    table.remove(5);
    assert!(table.get(5).is_none());
    assert!(table.get_mut(5).is_none());
}
