//! Reachability of the app server, and the vocabulary for reporting failures.
//!
//! Mirrors Hotwire Native's error model: the shell names *why* a visit failed,
//! hands the reason to the web layer, and lets the app decide how to present it.

use vstd::prelude::*;

verus! {

/// Consecutive failed probes before the app is considered offline.
///
/// One failure is not enough: a single dropped probe during a deploy or a
/// laptop waking up should not pull the page out from under someone.
pub const FAILURES_BEFORE_OFFLINE: u32 = 2;

/// Why a visit could not be completed.
///
/// The variants match Hotwire Native so the same words mean the same thing
/// across the mobile and desktop shells.
#[derive(Debug, Clone, Copy, PartialEq, Eq, Structural)]
pub enum VisitError {
    /// The server could not be reached at all.
    NetworkFailure,
    /// The server accepted the connection but did not answer in time.
    TimeoutFailure,
    /// The server answered with an error status.
    HttpFailure { status: u16 },
    /// The page itself failed to load.
    PageLoadFailure,
}

/// The stable identifier of each kind of failure.
pub open spec fn visit_error_slug(e: VisitError) -> Seq<char> {
    match e {
        VisitError::NetworkFailure => "network_failure"@,
        VisitError::TimeoutFailure => "timeout_failure"@,
        VisitError::HttpFailure { .. } => "http_failure"@,
        VisitError::PageLoadFailure => "page_load_failure"@,
    }
}

impl VisitError {
    /// Stable identifier, used in the error page's query string and in the
    /// events the web layer listens for.
    pub fn slug(&self) -> (s: &'static str)
        ensures
            s@ == visit_error_slug(*self),
    {
        match self {
            VisitError::NetworkFailure => "network_failure",
            VisitError::TimeoutFailure => "timeout_failure",
            VisitError::HttpFailure { .. } => "http_failure",
            VisitError::PageLoadFailure => "page_load_failure",
        }
    }
}

/// What a probe changed, if anything.
#[derive(Debug, Clone, Copy, PartialEq, Eq, Structural)]
pub enum Transition {
    /// Enough probes failed in a row to call it offline.
    WentOffline(VisitError),
    /// The server answered again.
    CameOnline,
    /// Nothing worth telling the web layer about.
    Unchanged,
}

/// The monitor's state: failed probes in a row, and whether it has announced
/// that the app is offline.
pub struct MonitorView {
    pub failures: u32,
    pub offline: bool,
}

/// Turns a stream of probe results into offline/online transitions.
///
/// Deliberately separate from the probing itself so the hysteresis can be
/// tested without a socket.
#[derive(Debug)]
pub struct ConnectionMonitor {
    consecutive_failures: u32,
    offline: bool,
}

impl View for ConnectionMonitor {
    type V = MonitorView;

    closed spec fn view(&self) -> MonitorView {
        MonitorView { failures: self.consecutive_failures, offline: self.offline }
    }
}

/// The state a monitor starts in: online, no failures.
pub open spec fn fresh_monitor() -> MonitorView {
    MonitorView { failures: 0, offline: false }
}

/// One probe result applied to a state: the next state, and what changed.
pub open spec fn probe_step(v: MonitorView, reachable: bool) -> (MonitorView, Transition) {
    if reachable {
        (
            MonitorView { failures: 0, offline: false },
            if v.offline {
                Transition::CameOnline
            } else {
                Transition::Unchanged
            },
        )
    } else {
        let failures = if v.failures == u32::MAX {
            u32::MAX
        } else {
            (v.failures + 1) as u32
        };
        if !v.offline && failures >= FAILURES_BEFORE_OFFLINE {
            (
                MonitorView { failures, offline: true },
                Transition::WentOffline(VisitError::NetworkFailure),
            )
        } else {
            (MonitorView { failures, offline: v.offline }, Transition::Unchanged)
        }
    }
}

impl ConnectionMonitor {
    pub fn new() -> (m: Self)
        ensures
            m@ == fresh_monitor(),
    {
        ConnectionMonitor { consecutive_failures: 0, offline: false }
    }

    /// A monitor for a server that did or did not answer at startup. One that
    /// did not starts offline, as if the threshold of failures had already been
    /// seen, so that its recovery is announced rather than passing silently.
    pub fn starting(reachable_at_startup: bool) -> (m: Self)
        ensures
            m@ == if reachable_at_startup {
                fresh_monitor()
            } else {
                MonitorView { failures: FAILURES_BEFORE_OFFLINE, offline: true }
            },
    {
        let mut m = ConnectionMonitor::new();
        if !reachable_at_startup {
            let mut i: u32 = 0;
            while i < FAILURES_BEFORE_OFFLINE
                invariant
                    i <= FAILURES_BEFORE_OFFLINE,
                    m@ == (MonitorView { failures: i, offline: i >= FAILURES_BEFORE_OFFLINE }),
                decreases FAILURES_BEFORE_OFFLINE - i,
            {
                m.record(false);
                i = i + 1;
            }
        }
        m
    }

    /// Whether the monitor has announced that the app is offline.
    pub fn is_offline(&self) -> (b: bool)
        ensures
            b == self@.offline,
    {
        self.offline
    }

    /// Feed in one probe result and find out what changed.
    pub fn record(&mut self, reachable: bool) -> (t: Transition)
        ensures
            final(self)@ == probe_step(old(self)@, reachable).0,
            t == probe_step(old(self)@, reachable).1,
    {
        if reachable {
            self.consecutive_failures = 0;
            if self.offline {
                self.offline = false;
                return Transition::CameOnline;
            }
            return Transition::Unchanged;
        }
        self.consecutive_failures = self.consecutive_failures.saturating_add(1);
        if !self.offline && self.consecutive_failures >= FAILURES_BEFORE_OFFLINE {
            self.offline = true;
            return Transition::WentOffline(VisitError::NetworkFailure);
        }
        Transition::Unchanged
    }
}

/// The state after feeding `probes`, in order, to a monitor in state `v`.
pub open spec fn run_probes(v: MonitorView, probes: Seq<bool>) -> MonitorView
    decreases probes.len(),
{
    if probes.len() == 0 {
        v
    } else {
        probe_step(run_probes(v, probes.drop_last()), probes.last()).0
    }
}

/// Failed probes at the end of `probes`, since the last success.
pub open spec fn trailing_failures(probes: Seq<bool>) -> nat
    decreases probes.len(),
{
    if probes.len() == 0 {
        0
    } else if !probes.last() {
        trailing_failures(probes.drop_last()) + 1
    } else {
        0
    }
}

/// From a fresh monitor, the state after any probes is determined by the run of
/// failures since the last success: the count saturates at `u32::MAX`, and the
/// monitor is offline exactly when that run is at least
/// [`FAILURES_BEFORE_OFFLINE`] long — so a single failure is never enough, a
/// success always brings it back, and a success in between starts the count over.
pub proof fn law_offline_iff_enough_trailing_failures(probes: Seq<bool>)
    ensures
        run_probes(fresh_monitor(), probes).offline <==> trailing_failures(probes)
            >= FAILURES_BEFORE_OFFLINE,
        run_probes(fresh_monitor(), probes).failures == if trailing_failures(probes)
            >= u32::MAX {
            u32::MAX as nat
        } else {
            trailing_failures(probes)
        },
    decreases probes.len(),
{
    if probes.len() > 0 {
        law_offline_iff_enough_trailing_failures(probes.drop_last());
    }
}

/// Each transition is announced once: a probe reports going offline exactly
/// when it is the failure that completes the threshold run, and reports
/// coming back online exactly when it is a success that ends a run at least
/// that long. Every other probe reports nothing.
pub proof fn law_each_change_is_announced_once(probes: Seq<bool>, k: int)
    requires
        0 <= k < probes.len(),
    ensures
        probe_step(run_probes(fresh_monitor(), probes.take(k)), probes[k]).1 == if !probes[k]
            && trailing_failures(probes.take(k + 1)) == FAILURES_BEFORE_OFFLINE {
            Transition::WentOffline(VisitError::NetworkFailure)
        } else if probes[k] && trailing_failures(probes.take(k)) >= FAILURES_BEFORE_OFFLINE {
            Transition::CameOnline
        } else {
            Transition::Unchanged
        },
{
    law_offline_iff_enough_trailing_failures(probes.take(k));
    assert(probes.take(k + 1).drop_last() =~= probes.take(k));
    assert(probes.take(k + 1).last() == probes[k]);
}

/// A monitor is only ever offline after at least [`FAILURES_BEFORE_OFFLINE`]
/// failures in a row: the property holds of a fresh monitor and every probe
/// keeps it.
pub proof fn law_offline_implies_threshold(v: MonitorView, reachable: bool)
    requires
        v.offline ==> v.failures >= FAILURES_BEFORE_OFFLINE,
    ensures
        probe_step(v, reachable).0.offline ==> probe_step(v, reachable).0.failures
            >= FAILURES_BEFORE_OFFLINE,
{
}

/// A server that was down at launch has its return announced: the first probe
/// that reaches it reports coming online, so the window can leave the error page.
pub proof fn law_a_server_down_at_launch_announces_its_return()
    ensures
        probe_step(MonitorView { failures: FAILURES_BEFORE_OFFLINE, offline: true }, true).1
            == Transition::CameOnline,
        probe_step(MonitorView { failures: FAILURES_BEFORE_OFFLINE, offline: true }, true).0
            == fresh_monitor(),
{
}

/// Announcements alternate: a probe announces something exactly when it flips
/// the monitor between online and offline, going offline only from online and
/// coming back only from offline. From a fresh monitor, which is online, the
/// announcements along any run of probes are therefore offline, online,
/// offline, … in turn.
pub proof fn law_announcements_alternate(v: MonitorView, reachable: bool)
    ensures
        probe_step(v, reachable).1 != Transition::Unchanged <==> probe_step(v, reachable).0.offline
            != v.offline,
        probe_step(v, reachable).1 is WentOffline ==> !v.offline && probe_step(v, reachable).0.offline,
        probe_step(v, reachable).1 is CameOnline ==> v.offline && !probe_step(v, reachable).0.offline,
{
}

/// What a monitor in state `v` announces as it is fed `probes`, in order:
/// every report other than [`Transition::Unchanged`].
pub open spec fn announcements(v: MonitorView, probes: Seq<bool>) -> Seq<Transition>
    decreases probes.len(),
{
    if probes.len() == 0 {
        Seq::empty()
    } else {
        let before = announcements(v, probes.drop_last());
        let t = probe_step(run_probes(v, probes.drop_last()), probes.last()).1;
        if t == Transition::Unchanged {
            before
        } else {
            before.push(t)
        }
    }
}

/// The announcement at position `i` of a run that alternates from going
/// offline: offline at even positions, online at odd ones.
pub open spec fn alternating(i: int) -> Transition {
    if i % 2 == 0 {
        Transition::WentOffline(VisitError::NetworkFailure)
    } else {
        Transition::CameOnline
    }
}

/// Over any history of probes, the announcements alternate. From a monitor
/// that is online (a fresh one) they read offline, online, offline, … starting
/// with going offline; from one that is offline (a server down at launch) they
/// start with coming back online. And the monitor ends offline exactly when the
/// last announcement was that it went offline.
pub proof fn law_announcements_alternate_along_any_history(v: MonitorView, probes: Seq<bool>)
    ensures
        forall|i: int|
            0 <= i < announcements(v, probes).len() ==> #[trigger] announcements(v, probes)[i]
                == alternating(i + if v.offline { 1int } else { 0int }),
        run_probes(v, probes).offline <==> (announcements(v, probes).len() + if v.offline {
            1int
        } else {
            0int
        }) % 2 == 1,
    decreases probes.len(),
{
    if probes.len() > 0 {
        let rest = probes.drop_last();
        law_announcements_alternate_along_any_history(v, rest);
        law_announcements_alternate(run_probes(v, rest), probes.last());
    }
}

} // verus!
