use std::cmp::Ordering;
use std::sync::{Arc, RwLock};

use vstd::prelude::*;

use crate::package::{package_order, Package};

verus! {

/// `std::sync::RwLock`, carried opaquely: the updater only holds the shared
/// package through it.
#[verifier::external_type_specification]
#[verifier::external_body]
#[verifier::reject_recursive_types(T)]
pub struct ExRwLock<T: ?Sized>(RwLock<T>);

/// How long the updater waits between polls, in milliseconds.
pub const TIMEOUT_MS: u64 = 60_000;

/// The background task that watches the repository for newer releases of
/// the installed package.
pub struct PackageUpdater;

/// Whether the updater is polling.
#[derive(Debug, Clone, Copy, PartialEq, Eq, Structural)]
pub enum UpdaterStatus {
    Running,
    Stopped,
}

/// Messages exchanged between the updater and its owner.
#[derive(Debug)]
pub enum UpdaterMessage {
    Okay,
    Run,
    Stop,
    Update(Package),
}

/// The updater's state: the repository it polls, the package its owner has
/// installed (read, never written, here) and its status.
pub struct UpdaterState {
    pub repo: String,
    pub package: Arc<RwLock<Package>>,
    pub status: UpdaterStatus,
}

impl UpdaterState {
    pub fn new(repo: String, package: Arc<RwLock<Package>>) -> (r: Self)
        ensures
            r.repo == repo,
            r.package == package,
            r.status == UpdaterStatus::Stopped,
    {
        UpdaterState { repo: repo, package: package, status: UpdaterStatus::Stopped }
    }
}

/// What a poll decides once the repository has answered.
#[derive(Debug)]
pub enum TickAction {
    /// Nothing newer: poll again after the interval.
    Reschedule,
    /// Fetch, verify and unpack this package.
    Fetch(Package),
}

/// What the updater does next: the delay before its next poll (`None`:
/// no further polling) and the message, if any, for its owner.
pub struct Step {
    pub timer: Option<u64>,
    pub message: Option<UpdaterMessage>,
}

impl PackageUpdater {
    /// Starts polling.
    pub fn init(state: &mut UpdaterState) -> (r: Option<u64>)
        ensures
            final(state).status == UpdaterStatus::Running,
            final(state).repo == old(state).repo,
            final(state).package == old(state).package,
            r == Some(TIMEOUT_MS),
    {
        state.status = UpdaterStatus::Running;
        Some(TIMEOUT_MS)
    }

    /// Decides a poll from the repository's answer (`None` where the query
    /// failed): fetch the candidate only where it is strictly newer than
    /// the current package.
    pub fn on_latest(current: &Package, latest: Option<Package>) -> (r: TickAction)
        ensures
            match latest {
                None => r is Reschedule,
                Some(l) => if package_order(l, *current) == Some(Ordering::Greater) {
                    r == TickAction::Fetch(l)
                } else {
                    r is Reschedule
                },
            },
    {
        match latest {
            None => TickAction::Reschedule,
            Some(l) => match l.partial_cmp(current) {
                Some(Ordering::Greater) => TickAction::Fetch(l),
                _ => TickAction::Reschedule,
            },
        }
    }

    /// Ends a poll that fetched `latest`, given whether fetching, verifying
    /// and unpacking all succeeded: on success the updater stops and
    /// announces the package; otherwise it polls again after the interval.
    pub fn on_installed(state: &mut UpdaterState, latest: Package, installed: bool) -> (r: Step)
        ensures
            final(state).repo == old(state).repo,
            final(state).package == old(state).package,
            installed ==> final(state).status == UpdaterStatus::Stopped && r.timer is None
                && r.message == Some(UpdaterMessage::Update(latest)),
            !installed ==> final(state).status == old(state).status && r.timer == Some(TIMEOUT_MS)
                && r.message is None,
    {
        if installed {
            state.status = UpdaterStatus::Stopped;
            Step { timer: None, message: Some(UpdaterMessage::Update(latest)) }
        } else {
            Step { timer: Some(TIMEOUT_MS), message: None }
        }
    }

    /// Handles a message: `Run` re-arms the timer; any other message keeps
    /// it armed while running and leaves it disarmed once stopped.
    pub fn handle_cast(msg: &UpdaterMessage, state: &UpdaterState) -> (r: Option<u64>)
        ensures
            msg is Run ==> r == Some(TIMEOUT_MS),
            !(msg is Run) ==> r == if state.status == UpdaterStatus::Running {
                Some(TIMEOUT_MS)
            } else {
                None::<u64>
            },
    {
        match msg {
            UpdaterMessage::Run => Some(TIMEOUT_MS),
            _ => match state.status {
                UpdaterStatus::Running => Some(TIMEOUT_MS),
                UpdaterStatus::Stopped => None,
            },
        }
    }
}

} // verus!
