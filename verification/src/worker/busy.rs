//! How long a worker waits for a locked database.
//!
//! While a window is open, a busy database is tried again until the window's
//! budget is spent. Without one it is reported at once. The budget of a window
//! runs from its first retry.
use crate::test_support::EventKey;
use vstd::prelude::*;

verus! {

/// A window in which a busy database is tried again. Times are in
/// milliseconds.
#[derive(Debug, Clone, Copy, PartialEq, Eq, Structural)]
pub struct BusyWindow {
    /// The request that is served can be cancelled.
    pub cancellable: bool,
    /// When the request's time is over, where it has a limit.
    pub deadline: Option<u64>,
    pub budget: u64,
    pub first_retry: Option<u64>,
}

/// The window of the command that runs, if one is open.
#[derive(Debug, Clone, Copy, PartialEq, Eq, Structural)]
pub struct BusyGuard {
    pub window: Option<BusyWindow>,
}

/// A window for cleaning up: nothing but its budget ends it.
pub open spec fn cleanup_window(budget: u64) -> BusyWindow {
    BusyWindow { cancellable: false, deadline: None, budget, first_retry: None }
}

/// A window for a request.
pub open spec fn request_window(deadline: u64, budget: u64) -> BusyWindow {
    BusyWindow { cancellable: true, deadline: Some(deadline), budget, first_retry: None }
}

/// The first retry of a window, were it now.
pub open spec fn first_of(window: BusyWindow, now: u64) -> u64 {
    match window.first_retry {
        Some(t) => t,
        None => now,
    }
}

/// The request that the window serves still wants an answer.
pub open spec fn is_wanted(window: BusyWindow, cancelled: bool, now: u64) -> bool {
    &&& !(window.cancellable && cancelled)
    &&& window.deadline matches Some(d) ==> now < d
}

/// The window is not over yet.
pub open spec fn outlasts(window: BusyWindow, cancelled: bool, now: u64) -> bool {
    &&& is_wanted(window, cancelled, now)
    &&& now < first_of(window, now) + window.budget
}

impl BusyGuard {
    /// Opens the window of a command, which is one for cleaning up.
    pub fn install(budget: u64) -> (r: Self)
        ensures
            r.window == Some(cleanup_window(budget)),
    {
        BusyGuard {
            window: Some(
                BusyWindow { cancellable: false, deadline: None, budget, first_retry: None },
            ),
        }
    }

    /// Opens a fresh window for the command's request.
    pub fn enter_request(&mut self, deadline: u64, budget: u64)
        ensures
            final(self).window == Some(request_window(deadline, budget)),
    {
        self.window = Some(
            BusyWindow { cancellable: true, deadline: Some(deadline), budget, first_retry: None },
        );
    }

    /// Opens a fresh window for cleaning up after the request.
    pub fn enter_cleanup(&mut self, budget: u64)
        ensures
            final(self).window == Some(cleanup_window(budget)),
    {
        self.window = Some(
            BusyWindow { cancellable: false, deadline: None, budget, first_retry: None },
        );
    }

    /// Closes the window at the end of the command.
    pub fn clear(&mut self)
        ensures
            final(self).window is None,
    {
        self.window = None;
    }

    /// Whether a busy database is tried again.
    pub fn retry(&mut self, shutdown: bool, cancelled: bool, now: u64) -> (r: bool)
        ensures
            match old(self).window {
                None => !r && *final(self) == *old(self),
                Some(w) => {
                    &&& r == (!shutdown && outlasts(w, cancelled, now))
                    &&& final(self).window == Some(
                        if !shutdown && is_wanted(w, cancelled, now) {
                            BusyWindow { first_retry: Some(first_of(w, now)), ..w }
                        } else {
                            w
                        },
                    )
                },
            },
    {
        if shutdown {
            return false;
        }
        let mut window = match self.window {
            None => {
                return false;
            },
            Some(w) => w,
        };
        if window.cancellable && cancelled {
            return false;
        }
        if let Some(d) = window.deadline {
            if now >= d {
                return false;
            }
        }
        let first: u64 = match window.first_retry {
            Some(t) => t,
            None => now,
        };
        window.first_retry = Some(first);
        self.window = Some(window);
        if now >= first {
            now - first < window.budget
        } else {
            true
        }
    }
}

/// The key of an event of a command's window.
pub fn guard_event_key(sequence: u64, command: &str, branch: &str) -> (r: EventKey)
    ensures
        r.operation_id == sequence,
        r.generation == 0,
        r.worker_id matches Some(label) && label@ == command@ + ":"@ + branch@,
        r.creation_id is None,
{
    let mut label = command.to_owned();
    label.append(":");
    label.append(branch);
    EventKey { operation_id: sequence, generation: 0, worker_id: Some(label), creation_id: None }
}

/// Retries are bounded: whatever a window allows after a retry comes less than
/// the budget after the window's first retry.
pub proof fn retries_stay_within_the_budget(
    window: BusyWindow,
    cancelled: bool,
    now: u64,
    cancelled_later: bool,
    later: u64,
)
    requires
        outlasts(window, cancelled, now),
        outlasts(
            (BusyWindow { first_retry: Some(first_of(window, now)), ..window }),
            cancelled_later,
            later,
        ),
    ensures
        later < first_of(window, now) + window.budget,
        window.first_retry is None ==> later < now + window.budget,
{
}

} // verus!
