use vstd::prelude::*;

use crate::error::{error_text, BldrError};
use crate::hooks::{hook_path_text, run_result, HookType};
use crate::text::text_eq;
use crate::package::{ident_text, joined, Package, PACKAGE_HOME};

verus! {

/// The control signals understood by the process supervisor.
#[derive(Debug, Clone, Copy, PartialEq, Eq, Structural)]
pub enum Signal {
    Status,
    Up,
    Down,
    Once,
    Pause,
    Cont,
    Hup,
    Alarm,
    Interrupt,
    Quit,
    One,
    Two,
    Term,
    Kill,
    Exit,
    Start,
    Stop,
    Reload,
    Restart,
    Shutdown,
    ForceStop,
    ForceReload,
    ForceRestart,
    ForceShutdown,
    TryRestart,
}

/// The argument that selects each signal on the supervisor's command line.
pub open spec fn signal_arg(s: Signal) -> Seq<char> {
    match s {
        Signal::Status => "status"@,
        Signal::Up => "up"@,
        Signal::Down => "down"@,
        Signal::Once => "once"@,
        Signal::Pause => "pause"@,
        Signal::Cont => "cont"@,
        Signal::Hup => "hup"@,
        Signal::Alarm => "alarm"@,
        Signal::Interrupt => "interrupt"@,
        Signal::Quit => "quit"@,
        Signal::One => "1"@,
        Signal::Two => "2"@,
        Signal::Term => "term"@,
        Signal::Kill => "kill"@,
        Signal::Exit => "exit"@,
        Signal::Start => "start"@,
        Signal::Stop => "stop"@,
        Signal::Reload => "reload"@,
        Signal::Restart => "restart"@,
        Signal::Shutdown => "shutdown"@,
        Signal::ForceStop => "force-stop"@,
        Signal::ForceReload => "force-reload"@,
        Signal::ForceRestart => "force-restart"@,
        Signal::ForceShutdown => "force-shutdown"@,
        Signal::TryRestart => "try-restart"@,
    }
}

impl Signal {
    /// The supervisor's argument for this signal.
    pub fn arg(&self) -> (r: &'static str)
        ensures
            r@ == signal_arg(*self),
    {
        match self {
            Signal::Status => "status",
            Signal::Up => "up",
            Signal::Down => "down",
            Signal::Once => "once",
            Signal::Pause => "pause",
            Signal::Cont => "cont",
            Signal::Hup => "hup",
            Signal::Alarm => "alarm",
            Signal::Interrupt => "interrupt",
            Signal::Quit => "quit",
            Signal::One => "1",
            Signal::Two => "2",
            Signal::Term => "term",
            Signal::Kill => "kill",
            Signal::Exit => "exit",
            Signal::Start => "start",
            Signal::Stop => "stop",
            Signal::Reload => "reload",
            Signal::Restart => "restart",
            Signal::Shutdown => "shutdown",
            Signal::ForceStop => "force-stop",
            Signal::ForceReload => "force-reload",
            Signal::ForceRestart => "force-restart",
            Signal::ForceShutdown => "force-shutdown",
            Signal::TryRestart => "try-restart",
        }
    }
}

/// The outcome of a health check.
#[derive(Debug, Clone, PartialEq, Eq)]
pub enum CheckResult {
    Okay(String),
    Warning(String),
    Critical(String),
    Unknown(String),
}

/// How the result of running the health-check hook maps to a check result.
pub open spec fn check_of(hook: Result<String, BldrError>) -> Result<CheckResult, BldrError> {
    match hook {
        Ok(output) => Ok(CheckResult::Okay(output)),
        Err(BldrError::HookFailed(t, code, output)) => if code == 1 {
            Ok(CheckResult::Warning(output))
        } else if code == 2 {
            Ok(CheckResult::Critical(output))
        } else if code == 3 {
            Ok(CheckResult::Unknown(output))
        } else {
            Err(BldrError::HealthCheck(code, output))
        },
        Err(e) => Err(e),
    }
}

/// What is known of a service's health.
pub enum HealthProbe {
    /// The result of running its health-check hook.
    Hook(Result<String, BldrError>),
    /// It has no health-check hook: the result of a `Status` signal and of
    /// reading the last rendered configuration.
    NoHook(Result<String, BldrError>, Result<String, BldrError>),
}

/// The health of a service without a health-check hook: OK, with the output
/// of the `Status` signal, a newline and the last rendered configuration;
/// or the first of the two that failed.
pub open spec fn default_health(
    status: Result<String, BldrError>,
    last_config: Result<String, BldrError>,
    r: Result<CheckResult, BldrError>,
) -> bool {
    match (status, last_config) {
        (Err(e), _) => r == Err::<CheckResult, BldrError>(e),
        (Ok(_), Err(e)) => r == Err::<CheckResult, BldrError>(e),
        (Ok(s), Ok(c)) => r matches Ok(CheckResult::Okay(o)) && o@ == s@ + seq!['\n'] + c@,
    }
}

/// What the supervisor yields for a signal: its standard output where it
/// exited successfully, or where the signal was `ForceShutdown`; otherwise
/// a failure.
pub open spec fn signal_outcome(signal: Signal, exited_ok: bool, stdout: String) -> Result<
    String,
    BldrError,
> {
    if exited_ok || signal == Signal::ForceShutdown {
        Ok(stdout)
    } else {
        Err(BldrError::SupervisorSignalFailed)
    }
}

/// How the service's `run` entry should be brought to its target.
#[derive(Debug, Clone, Copy, PartialEq, Eq, Structural)]
pub enum RunLinkAction {
    /// The link already points at the target: touch nothing.
    Keep,
    /// There is no link: create it.
    Create,
    /// The link points elsewhere: remove it and link the target.
    Replace,
}

pub open spec fn run_link_action(target: Seq<char>, current: Option<Seq<char>>) -> RunLinkAction {
    match current {
        None => RunLinkAction::Create,
        Some(c) => if c == target {
            RunLinkAction::Keep
        } else {
            RunLinkAction::Replace
        },
    }
}

/// Where the link points after an action is carried out.
pub open spec fn link_after(
    target: Seq<char>,
    current: Option<Seq<char>>,
    action: RunLinkAction,
) -> Option<Seq<char>> {
    match action {
        RunLinkAction::Keep => current,
        _ => Some(target),
    }
}

/// What the service's `run` entry must point at: the compiled `run` hook
/// where the package has one, else the package's own `run` file.
pub open spec fn run_target_text(p: Package, has_run_hook: bool) -> Seq<char> {
    if has_run_hook {
        hook_path_text(p, HookType::Run)
    } else {
        joined(joined(PACKAGE_HOME@, ident_text(p)), "run"@)
    }
}

/// Carrying out the planned action leaves the link at its target, and
/// planning again then asks for no change.
pub proof fn lemma_copy_run_idempotent(target: Seq<char>, current: Option<Seq<char>>)
    ensures
        link_after(target, current, run_link_action(target, current)) == Some(target),
        run_link_action(target, link_after(target, current, run_link_action(target, current)))
            == RunLinkAction::Keep,
{
}

/// The health-check hook's exit codes 0, 1, 2 and 3 give an OK, warning,
/// critical and unknown result, carrying the hook's output; any other code
/// is a health-check failure.
pub proof fn lemma_health_check_exit_codes(code: i32, output: String)
    ensures
        check_of(run_result(HookType::HealthCheck, Some(code), output)) == if code == 0 {
            Ok(CheckResult::Okay(output))
        } else if code == 1 {
            Ok(CheckResult::Warning(output))
        } else if code == 2 {
            Ok(CheckResult::Critical(output))
        } else if code == 3 {
            Ok(CheckResult::Unknown(output))
        } else {
            Err(BldrError::HealthCheck(code, output))
        },
{
}

impl Package {
    /// The target of the service's `run` link.
    pub fn run_target(&self, has_run_hook: bool) -> (r: String)
        ensures
            r@ == run_target_text(*self, has_run_hook),
    {
        if has_run_hook {
            self.hook_path(&HookType::Run)
        } else {
            self.join_path("run")
        }
    }

    /// What to do with the service's `run` link, given where it points now
    /// (`None` where there is no link): it is rewritten only where it does
    /// not already point at `target`.
    pub fn copy_run_action(target: &str, current: Option<&str>) -> (r: RunLinkAction)
        ensures
            r == run_link_action(
                target@,
                match current {
                    Some(c) => Some(c@),
                    None => None,
                },
            ),
    {
        match current {
            None => RunLinkAction::Create,
            Some(c) => if text_eq(c, target) {
                RunLinkAction::Keep
            } else {
                RunLinkAction::Replace
            },
        }
    }

    /// The result of sending `signal`, given whether the supervisor exited
    /// successfully and what it printed.
    pub fn signal_result(signal: Signal, exited_ok: bool, stdout: String) -> (r: Result<
        String,
        BldrError,
    >)
        ensures
            r == signal_outcome(signal, exited_ok, stdout),
    {
        if exited_ok {
            Ok(stdout)
        } else {
            match signal {
                Signal::ForceShutdown => Ok(stdout),
                _ => Err(BldrError::SupervisorSignalFailed),
            }
        }
    }

    /// Whether the supervisor is running, given the result of a `Status` signal.
    pub fn supervisor_running(&self, status: &Result<String, BldrError>) -> (r: bool)
        ensures
            r == status is Ok,
    {
        match status {
            Ok(_) => true,
            Err(_) => false,
        }
    }

    /// The health of the service: from its health-check hook where it has
    /// one, else from a `Status` signal and its last rendered configuration.
    pub fn health_check(&self, probe: HealthProbe) -> (r: Result<CheckResult, BldrError>)
        ensures
            match probe {
                HealthProbe::Hook(h) => r == check_of(h),
                HealthProbe::NoHook(status, last_config) => default_health(status, last_config, r),
            },
    {
        match probe {
            HealthProbe::Hook(h) => self.hook_health(h),
            HealthProbe::NoHook(status, last_config) => self.default_health_check(status, last_config),
        }
    }

    /// The health of the service, from the result of running its
    /// health-check hook.
    fn hook_health(&self, hook_result: Result<String, BldrError>) -> (r: Result<
        CheckResult,
        BldrError,
    >)
        ensures
            r == check_of(hook_result),
    {
        match hook_result {
            Ok(output) => Ok(CheckResult::Okay(output)),
            Err(BldrError::HookFailed(_, code, output)) => {
                if code == 1 {
                    Ok(CheckResult::Warning(output))
                } else if code == 2 {
                    Ok(CheckResult::Critical(output))
                } else if code == 3 {
                    Ok(CheckResult::Unknown(output))
                } else {
                    Err(BldrError::HealthCheck(code, output))
                }
            },
            Err(e) => Err(e),
        }
    }

    /// The health of a service without a health-check hook: OK, with the
    /// output of a `Status` signal, a newline and the last rendered
    /// configuration; or the first of the two that failed.
    pub fn default_health_check(
        &self,
        status: Result<String, BldrError>,
        last_config: Result<String, BldrError>,
    ) -> (r: Result<CheckResult, BldrError>)
        ensures
            default_health(status, last_config, r),
    {
        let s = match status {
            Ok(s) => s,
            Err(e) => return Err(e),
        };
        let c = match last_config {
            Ok(c) => c,
            Err(e) => return Err(e),
        };
        let o = s.concat("\n").concat(c.as_str());
        proof {
            reveal_strlit("\n");
            assert(o@ =~= s@ + seq!['\n'] + c@);
        }
        Ok(CheckResult::Okay(o))
    }

    /// The result of reconfiguring without a `reconfigure` hook, given the
    /// result of the `Restart` signal sent instead: a failed signal becomes
    /// a failure of the `reconfigure` hook with code -1, whose output
    /// describes the signal's error.
    pub fn reconfigure_fallback(&self, restart: Result<String, BldrError>) -> (r: Result<
        (),
        BldrError,
    >)
        ensures
            restart is Ok ==> r is Ok,
            restart matches Err(e) ==> (r matches Err(BldrError::HookFailed(t, c, m)) && t
                == HookType::Reconfigure && c == -1 && m@ == "failed to run default hook: "@
                + error_text(e)),
    {
        match restart {
            Ok(_) => Ok(()),
            Err(e) => Err(
                BldrError::HookFailed(
                    HookType::Reconfigure,
                    -1,
                    String::from_str("failed to run default hook: ").concat(e.describe().as_str()),
                ),
            ),
        }
    }
}

} // verus!
