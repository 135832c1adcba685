//! The fixed paths of a lease, its poll bounds, and the ways it can fail.

use crate::paths::joined_path;
use crate::text::decimal_of;
use vstd::prelude::*;
use vstd::string::*;

verus! {

/// The systemd unit whose activation a lease inhibits.
pub const UNIT_NAME: &'static str = "facelock-daemon.service";

/// The name that the daemon owns on the system bus.
pub const BUS_NAME: &'static str = "org.facelock.Daemon";

/// The fixed runtime paths that a lease works on, all below one prefix, and the
/// owner that they are expected to have.
#[derive(Debug, Clone)]
pub struct LifecycleLayout {
    prefix: String,
    uid: u32,
    gid: u32,
}

impl LifecycleLayout {
    /// The directory that the layout lies below.
    pub closed spec fn root(&self) -> Seq<char> {
        self.prefix@
    }

    /// The user and group that its files are expected to belong to.
    pub closed spec fn owner(&self) -> (u32, u32) {
        (self.uid, self.gid)
    }

    /// The system's layout: below `/`, owned by root.
    pub fn system() -> (r: Self)
        ensures
            r.root() == "/"@,
            r.owner() == (0u32, 0u32),
    {
        LifecycleLayout { prefix: String::from_str("/"), uid: 0, gid: 0 }
    }

    /// A layout below another directory, owned by the given user and group.
    pub fn rooted_at(prefix: String, uid: u32, gid: u32) -> (r: Self)
        ensures
            r.root() == prefix@,
            r.owner() == (uid, gid),
    {
        LifecycleLayout { prefix, uid, gid }
    }

    /// The user and group that the layout's files are expected to belong to.
    pub fn expected_owner(&self) -> (r: (u32, u32))
        ensures
            r == self.owner(),
    {
        (self.uid, self.gid)
    }

    fn at(&self, relative: &str) -> (r: String)
        ensures
            r@ == crate::paths::join_path(self.root(), relative@),
    {
        joined_path(self.prefix.as_str(), relative)
    }

    /// What exists where systemd is the running service manager.
    pub fn systemd_marker(&self) -> (r: String)
        ensures
            r@ == crate::paths::join_path(self.root(), "run/systemd/system"@),
    {
        self.at("run/systemd/system")
    }

    /// Parent of the lifecycle lock.
    pub fn lock_dir(&self) -> (r: String)
        ensures
            r@ == crate::paths::join_path(self.root(), "run/facelock"@),
    {
        self.at("run/facelock")
    }

    /// The lifecycle lock, which is never unlinked.
    pub fn lock_path(&self) -> (r: String)
        ensures
            r@ == crate::paths::join_path(self.root(), "run/facelock/lifecycle.lock"@),
    {
        self.at("run/facelock/lifecycle.lock")
    }

    /// systemd's runtime control-tier unit directory.
    pub fn control_dir(&self) -> (r: String)
        ensures
            r@ == crate::paths::join_path(self.root(), "run/systemd/system.control"@),
    {
        self.at("run/systemd/system.control")
    }

    /// The activation barrier.
    pub fn barrier_path(&self) -> (r: String)
        ensures
            r@ == crate::paths::join_path(
                self.root(),
                "run/systemd/system.control/facelock-daemon.service"@,
            ),
    {
        self.at("run/systemd/system.control/facelock-daemon.service")
    }

    /// Every place where an activation definition of the daemon can be.
    pub fn activation_definition_paths(&self) -> (r: Vec<String>)
        ensures
            crate::text::texts(r@) == activation_places().map_values(
                |p: Seq<char>| crate::paths::join_path(self.root(), p),
            ),
    {
        let mut out: Vec<String> = Vec::new();
        out.push(self.at("etc/dbus-1/system-services/org.facelock.Daemon.service"));
        out.push(self.at("run/dbus-1/system-services/org.facelock.Daemon.service"));
        out.push(self.at("usr/local/share/dbus-1/system-services/org.facelock.Daemon.service"));
        out.push(self.at("usr/share/dbus-1/system-services/org.facelock.Daemon.service"));
        out.push(self.at("lib/dbus-1/system-services/org.facelock.Daemon.service"));
        assert(crate::text::texts(out@) =~= activation_places().map_values(
            |p: Seq<char>| crate::paths::join_path(self.root(), p),
        ));
        out
    }
}

/// The places of activation definitions, below the layout's root.
pub open spec fn activation_places() -> Seq<Seq<char>> {
    seq![
        "etc/dbus-1/system-services/org.facelock.Daemon.service"@,
        "run/dbus-1/system-services/org.facelock.Daemon.service"@,
        "usr/local/share/dbus-1/system-services/org.facelock.Daemon.service"@,
        "usr/share/dbus-1/system-services/org.facelock.Daemon.service"@,
        "lib/dbus-1/system-services/org.facelock.Daemon.service"@,
    ]
}

/// Poll bounds, in milliseconds, for the proofs that the daemon has stopped and
/// that its bus name is free.
#[derive(Debug, Clone, Copy, PartialEq, Eq, Structural)]
pub struct AcquireTuning {
    pub stop_timeout_ms: u64,
    pub bus_timeout_ms: u64,
    pub poll_interval_ms: u64,
}

impl Default for AcquireTuning {
    fn default() -> (r: Self)
        ensures
            r == (AcquireTuning {
                stop_timeout_ms: 10_000,
                bus_timeout_ms: 5_000,
                poll_interval_ms: 100,
            }),
    {
        AcquireTuning { stop_timeout_ms: 10_000, bus_timeout_ms: 5_000, poll_interval_ms: 100 }
    }
}

/// The fraction of a second that some milliseconds are: up to three digits,
/// without trailing zeros.
pub open spec fn fraction(ms: nat) -> Seq<char> {
    if ms % 100 == 0 {
        crate::text::decimal(ms / 100)
    } else if ms % 10 == 0 {
        crate::text::decimal(ms / 100) + crate::text::decimal(ms / 10 % 10)
    } else {
        crate::text::decimal(ms / 100) + crate::text::decimal(ms / 10 % 10)
            + crate::text::decimal(ms % 10)
    }
}

/// A length of time in the largest unit that it fills.
pub open spec fn duration_text(ms: nat) -> Seq<char> {
    if ms == 0 {
        "0ns"@
    } else if ms < 1000 {
        crate::text::decimal(ms) + "ms"@
    } else if ms % 1000 == 0 {
        crate::text::decimal(ms / 1000) + "s"@
    } else {
        crate::text::decimal(ms / 1000) + "."@ + fraction(ms % 1000) + "s"@
    }
}

/// A length of time in the largest unit that it fills.
pub fn duration_of(ms: u64) -> (r: String)
    ensures
        r@ == duration_text(ms as nat),
{
    if ms == 0 {
        return String::from_str("0ns");
    }
    if ms < 1000 {
        let mut out = decimal_of(ms);
        out.append("ms");
        return out;
    }
    let mut out = decimal_of(ms / 1000);
    let rest: u64 = ms % 1000;
    if rest != 0 {
        out.append(".");
        let mut digits = decimal_of(rest / 100);
        if rest % 100 != 0 {
            digits.append(decimal_of(rest / 10 % 10).as_str());
            if rest % 10 != 0 {
                digits.append(decimal_of(rest % 10).as_str());
            }
        }
        assert(digits@ == fraction(rest as nat));
        out.append(digits.as_str());
    }
    out.append("s");
    out
}

/// Why a lease could not be acquired, held, or released. Every one is a refusal
/// to act without exclusion.
#[derive(Debug, Clone, PartialEq, Eq)]
pub enum LifecycleError<S = String> {
    NoSystemd(S),
    LockHeld(S),
    Untrusted { path: S, reason: S },
    Io { path: S, source: S },
    ActivationNotDelegated { path: S, reason: S },
    UnitStateNotAdmissible { state: S, advice: S },
    ControlPathConflict { path: S, reason: S },
    BarrierNotEffective { path: S, load_state: S },
    DaemonNotStopped { state: S, timeout_ms: u64 },
    NameStillOwned { timeout_ms: u64 },
    BusUnreachable { detail: S },
    Systemctl { action: S, detail: S },
    SignalArm(S),
    RestoreIncomplete(S),
}

/// An error as contracts speak of it.
pub type ErrorView = LifecycleError<Seq<char>>;

impl View for LifecycleError<String> {
    type V = LifecycleError<Seq<char>>;

    open spec fn view(&self) -> LifecycleError<Seq<char>> {
        match *self {
            LifecycleError::NoSystemd(p) => LifecycleError::NoSystemd(p@),
            LifecycleError::LockHeld(p) => LifecycleError::LockHeld(p@),
            LifecycleError::Untrusted { path, reason } => LifecycleError::Untrusted {
                path: path@,
                reason: reason@,
            },
            LifecycleError::Io { path, source } => LifecycleError::Io {
                path: path@,
                source: source@,
            },
            LifecycleError::ActivationNotDelegated { path, reason } =>
                LifecycleError::ActivationNotDelegated { path: path@, reason: reason@ },
            LifecycleError::UnitStateNotAdmissible { state, advice } =>
                LifecycleError::UnitStateNotAdmissible { state: state@, advice: advice@ },
            LifecycleError::ControlPathConflict { path, reason } =>
                LifecycleError::ControlPathConflict { path: path@, reason: reason@ },
            LifecycleError::BarrierNotEffective { path, load_state } =>
                LifecycleError::BarrierNotEffective { path: path@, load_state: load_state@ },
            LifecycleError::DaemonNotStopped { state, timeout_ms } =>
                LifecycleError::DaemonNotStopped { state: state@, timeout_ms },
            LifecycleError::NameStillOwned { timeout_ms } => LifecycleError::NameStillOwned {
                timeout_ms,
            },
            LifecycleError::BusUnreachable { detail } => LifecycleError::BusUnreachable {
                detail: detail@,
            },
            LifecycleError::Systemctl { action, detail } => LifecycleError::Systemctl {
                action: action@,
                detail: detail@,
            },
            LifecycleError::SignalArm(e) => LifecycleError::SignalArm(e@),
            LifecycleError::RestoreIncomplete(e) => LifecycleError::RestoreIncomplete(e@),
        }
    }
}

/// What an error says.
pub open spec fn error_text(e: ErrorView) -> Seq<char> {
    match e {
        LifecycleError::NoSystemd(p) => "systemd is not the running service manager ("@ + p
            + " is missing); without it D-Bus activation of the daemon cannot be inhibited, refusing to proceed"@,
        LifecycleError::LockHeld(p) => "another facelock lifecycle operation holds "@ + p
            + "; wait for it to finish and retry"@,
        LifecycleError::Untrusted { path, reason } => path + ": "@ + reason,
        LifecycleError::Io { path, source } => path + ": "@ + source,
        LifecycleError::ActivationNotDelegated { path, reason } => path
            + " does not delegate D-Bus activation to systemd ("@ + reason
            + "); a unit mask cannot inhibit direct D-Bus execution, refusing to proceed"@,
        LifecycleError::UnitStateNotAdmissible { state, advice } => UNIT_NAME@ + " is in state "@
            + state + "; "@ + advice,
        LifecycleError::ControlPathConflict { path, reason } => path
            + " exists but is not a facelock activation barrier ("@ + reason
            + "); remove it (then run `systemctl daemon-reload`) or reboot, and retry"@,
        LifecycleError::BarrierNotEffective { path, load_state } => "activation barrier at "@ + path
            + " is not effective: LoadState is "@ + load_state
            + ", expected masked; check for a higher-priority unit under /etc/systemd/system.control"@,
        LifecycleError::DaemonNotStopped { state, timeout_ms } => UNIT_NAME@
            + " did not reach ActiveState=inactive within "@ + duration_text(timeout_ms as nat)
            + " (last state "@ + state
            + "); refusing to proceed without a confirmed-stopped daemon"@,
        LifecycleError::NameStillOwned { timeout_ms } => BUS_NAME@
            + " still has an owner on the system bus after "@ + duration_text(timeout_ms as nat)
            + "; a daemon outside systemd's control is running — stop it, then retry"@,
        LifecycleError::BusUnreachable { detail } => "system bus is unreachable ("@ + detail
            + "); cannot confirm the daemon released its bus name, refusing to proceed"@,
        LifecycleError::Systemctl { action, detail } => "systemctl "@ + action + " failed: "@
            + detail,
        LifecycleError::SignalArm(e) => "could not arm signal-safe restore ("@ + e
            + "); refusing to hold the lease without it"@,
        LifecycleError::RestoreIncomplete(e) => "lifecycle restore incomplete: "@ + e,
    }
}

fn three(a: &str, b: &str, c: &str) -> (r: String)
    ensures
        r@ == a@ + b@ + c@,
{
    let mut out = String::from_str(a);
    out.append(b);
    out.append(c);
    out
}

impl LifecycleError<String> {
    /// What the error says.
    pub fn message(&self) -> (r: String)
        ensures
            r@ == error_text(self@),
    {
        match self {
            LifecycleError::NoSystemd(p) => three(
                "systemd is not the running service manager (",
                p.as_str(),
                " is missing); without it D-Bus activation of the daemon cannot be inhibited, refusing to proceed",
            ),
            LifecycleError::LockHeld(p) => three(
                "another facelock lifecycle operation holds ",
                p.as_str(),
                "; wait for it to finish and retry",
            ),
            LifecycleError::Untrusted { path, reason } => three(
                path.as_str(),
                ": ",
                reason.as_str(),
            ),
            LifecycleError::Io { path, source } => three(path.as_str(), ": ", source.as_str()),
            LifecycleError::ActivationNotDelegated { path, reason } => {
                let mut out = three(
                    path.as_str(),
                    " does not delegate D-Bus activation to systemd (",
                    reason.as_str(),
                );
                out.append(
                    "); a unit mask cannot inhibit direct D-Bus execution, refusing to proceed",
                );
                out
            },
            LifecycleError::UnitStateNotAdmissible { state, advice } => {
                let mut out = three(UNIT_NAME, " is in state ", state.as_str());
                out.append("; ");
                out.append(advice.as_str());
                out
            },
            LifecycleError::ControlPathConflict { path, reason } => {
                let mut out = three(
                    path.as_str(),
                    " exists but is not a facelock activation barrier (",
                    reason.as_str(),
                );
                out.append(
                    "); remove it (then run `systemctl daemon-reload`) or reboot, and retry",
                );
                out
            },
            LifecycleError::BarrierNotEffective { path, load_state } => {
                let mut out = three(
                    "activation barrier at ",
                    path.as_str(),
                    " is not effective: LoadState is ",
                );
                out.append(load_state.as_str());
                out.append(
                    ", expected masked; check for a higher-priority unit under /etc/systemd/system.control",
                );
                out
            },
            LifecycleError::DaemonNotStopped { state, timeout_ms } => {
                let mut out = three(
                    UNIT_NAME,
                    " did not reach ActiveState=inactive within ",
                    duration_of(*timeout_ms).as_str(),
                );
                out.append(" (last state ");
                out.append(state.as_str());
                out.append("); refusing to proceed without a confirmed-stopped daemon");
                out
            },
            LifecycleError::NameStillOwned { timeout_ms } => {
                let mut out = three(
                    BUS_NAME,
                    " still has an owner on the system bus after ",
                    duration_of(*timeout_ms).as_str(),
                );
                out.append(
                    "; a daemon outside systemd's control is running — stop it, then retry",
                );
                out
            },
            LifecycleError::BusUnreachable { detail } => three(
                "system bus is unreachable (",
                detail.as_str(),
                "); cannot confirm the daemon released its bus name, refusing to proceed",
            ),
            LifecycleError::Systemctl { action, detail } => {
                let mut out = three("systemctl ", action.as_str(), " failed: ");
                out.append(detail.as_str());
                out
            },
            LifecycleError::SignalArm(e) => three(
                "could not arm signal-safe restore (",
                e.as_str(),
                "); refusing to hold the lease without it",
            ),
            LifecycleError::RestoreIncomplete(e) => {
                let mut out = String::from_str("lifecycle restore incomplete: ");
                out.append(e.as_str());
                out
            },
        }
    }
}

// ---------------------------------------------------------------------------
// Laws
// ---------------------------------------------------------------------------

/// The unit and the bus name that a lease is about, and where definitions of that
/// name can be: five places, the same file name in each.
pub proof fn law_the_lease_is_about_the_daemon(i: int)
    requires
        0 <= i < activation_places().len(),
    ensures
        UNIT_NAME@ == "facelock-daemon.service"@,
        BUS_NAME@ == "org.facelock.Daemon"@,
        activation_places().len() == 5,
        crate::text::has_suffix(
            activation_places()[i],
            "dbus-1/system-services/org.facelock.Daemon.service"@,
        ),
{
    reveal_strlit("etc/dbus-1/system-services/org.facelock.Daemon.service");
    reveal_strlit("run/dbus-1/system-services/org.facelock.Daemon.service");
    reveal_strlit("usr/local/share/dbus-1/system-services/org.facelock.Daemon.service");
    reveal_strlit("usr/share/dbus-1/system-services/org.facelock.Daemon.service");
    reveal_strlit("lib/dbus-1/system-services/org.facelock.Daemon.service");
    reveal_strlit("dbus-1/system-services/org.facelock.Daemon.service");
    let tail = "dbus-1/system-services/org.facelock.Daemon.service"@;
    let p = activation_places()[i];
    assert(p.skip(p.len() - tail.len()) =~= tail);
}

/// An error tells what it is about: the path, the state or the time that it names,
/// and the reason that it was given.
pub proof fn law_errors_tell_what_they_are_about(
    path: Seq<char>,
    reason: Seq<char>,
    timeout_ms: u64,
)
    ensures
        error_text(LifecycleError::Untrusted { path, reason }) == path + ": "@ + reason,
        error_text(LifecycleError::Io { path, source: reason }) == path + ": "@ + reason,
        error_text(LifecycleError::Systemctl { action: path, detail: reason }) == "systemctl "@ + path
            + " failed: "@ + reason,
        error_text(LifecycleError::RestoreIncomplete(reason)) == "lifecycle restore incomplete: "@
            + reason,
        crate::text::contains(error_text(LifecycleError::NoSystemd(path)), path),
        crate::text::contains(error_text(LifecycleError::LockHeld(path)), path),
        crate::text::contains(error_text(LifecycleError::BusUnreachable { detail: reason }), reason),
        crate::text::contains(error_text(LifecycleError::SignalArm(reason)), reason),
        crate::text::has_prefix(
            error_text(LifecycleError::ActivationNotDelegated { path, reason }),
            path,
        ),
        crate::text::contains(
            error_text(LifecycleError::ActivationNotDelegated { path, reason }),
            reason,
        ),
        crate::text::has_prefix(
            error_text(LifecycleError::ControlPathConflict { path, reason }),
            path,
        ),
        crate::text::contains(
            error_text(LifecycleError::ControlPathConflict { path, reason }),
            reason,
        ),
        crate::text::contains(
            error_text(LifecycleError::BarrierNotEffective { path, load_state: reason }),
            path,
        ),
        crate::text::contains(
            error_text(LifecycleError::BarrierNotEffective { path, load_state: reason }),
            reason,
        ),
        crate::text::contains(
            error_text(LifecycleError::DaemonNotStopped { state: reason, timeout_ms }),
            duration_text(timeout_ms as nat),
        ),
        crate::text::contains(
            error_text(LifecycleError::DaemonNotStopped { state: reason, timeout_ms }),
            reason,
        ),
        crate::text::contains(
            error_text(LifecycleError::NameStillOwned { timeout_ms }),
            duration_text(timeout_ms as nat),
        ),
{
    let time = duration_text(timeout_ms as nat);
    lemma_tells(
        "systemd is not the running service manager ("@,
        path,
        " is missing); without it D-Bus activation of the daemon cannot be inhibited, refusing to proceed"@,
    );
    lemma_tells(
        "another facelock lifecycle operation holds "@,
        path,
        "; wait for it to finish and retry"@,
    );
    lemma_tells(
        "system bus is unreachable ("@,
        reason,
        "); cannot confirm the daemon released its bus name, refusing to proceed"@,
    );
    lemma_tells(
        "could not arm signal-safe restore ("@,
        reason,
        "); refusing to hold the lease without it"@,
    );
    lemma_tells(
        path + " does not delegate D-Bus activation to systemd ("@,
        reason,
        "); a unit mask cannot inhibit direct D-Bus execution, refusing to proceed"@,
    );
    let a = error_text(LifecycleError::ActivationNotDelegated { path, reason });
    assert(a.take(path.len() as int) =~= path);
    lemma_tells(
        path + " exists but is not a facelock activation barrier ("@,
        reason,
        "); remove it (then run `systemctl daemon-reload`) or reboot, and retry"@,
    );
    let b = error_text(LifecycleError::ControlPathConflict { path, reason });
    assert(b.take(path.len() as int) =~= path);
    let tail = ", expected masked; check for a higher-priority unit under /etc/systemd/system.control"@;
    let middle = " is not effective: LoadState is "@;
    let head = "activation barrier at "@;
    lemma_tells(head + path + middle, reason, tail);
    lemma_tells(head, path, middle + reason + tail);
    assert(head + path + (middle + reason + tail) =~= head + path + middle + reason + tail);
    let stop = UNIT_NAME@ + " did not reach ActiveState=inactive within "@;
    let last = " (last state "@;
    let end = "); refusing to proceed without a confirmed-stopped daemon"@;
    lemma_tells(stop + time + last, reason, end);
    lemma_tells(stop, time, last + reason + end);
    assert(stop + time + (last + reason + end) =~= stop + time + last + reason + end);
    lemma_tells(
        BUS_NAME@ + " still has an owner on the system bus after "@,
        time,
        "; a daemon outside systemd's control is running — stop it, then retry"@,
    );
}

proof fn lemma_tells(front: Seq<char>, what: Seq<char>, back: Seq<char>)
    ensures
        crate::text::contains(front + what + back, what),
{
    crate::text::law_find_is_leftmost(front + what + back, what, front, back);
}

/// A length of time is told in whole milliseconds below a second, and in seconds
/// from there on, with as many decimals as it needs.
pub proof fn law_durations_are_told_exactly(ms: nat)
    ensures
        0 < ms < 1000 ==> duration_text(ms) == crate::text::decimal(ms) + "ms"@,
        ms >= 1000 && ms % 1000 == 0 ==> duration_text(ms) == crate::text::decimal(ms / 1000)
            + "s"@,
        ms >= 1000 && ms % 1000 != 0 ==> exists|digits: Seq<char>|
            {
                &&& duration_text(ms) == #[trigger] (crate::text::decimal(ms / 1000) + "."@ + digits
                    + "s"@)
                &&& 1 <= digits.len() <= 3
                &&& digits.len() == 1 ==> crate::text::decimal_value(digits) * 100 == ms % 1000
                &&& digits.len() == 2 ==> crate::text::decimal_value(digits) * 10 == ms % 1000
                &&& digits.len() == 3 ==> crate::text::decimal_value(digits) == ms % 1000
            },
{
    if ms >= 1000 && ms % 1000 != 0 {
        let rest = ms % 1000;
        let a = rest / 100;
        let b = rest / 10 % 10;
        let c = rest % 10;
        let digits = fraction(rest);
        crate::text::law_decimal_reads_back(a);
        crate::text::law_decimal_reads_back(b);
        crate::text::law_decimal_reads_back(c);
        let x = crate::text::decimal(a);
        let y = crate::text::decimal(b);
        let z = crate::text::decimal(c);
        assert(x.len() == 1 && y.len() == 1 && z.len() == 1);
        if rest % 100 == 0 {
            assert(digits == x);
            assert(crate::text::decimal_value(digits) * 100 == rest);
        } else if rest % 10 == 0 {
            assert((x + y).drop_last() =~= x);
            assert((x + y).last() == y.last());
            lemma_one_digit(b);
            assert(crate::text::decimal_value(digits) == 10 * a + b);
            assert(crate::text::decimal_value(digits) * 10 == rest);
        } else {
            assert((x + y + z).drop_last() =~= x + y);
            assert((x + y).drop_last() =~= x);
            lemma_one_digit(b);
            lemma_one_digit(c);
            assert(crate::text::decimal_value(x + y) == 10 * a + b);
            assert(crate::text::decimal_value(digits) == 10 * (10 * a + b) + c);
            assert(crate::text::decimal_value(digits) == rest);
        }
        assert(duration_text(ms) == crate::text::decimal(ms / 1000) + "."@ + digits + "s"@);
    }
}

proof fn lemma_one_digit(n: nat)
    requires
        n < 10,
    ensures
        crate::text::digit_value(crate::text::decimal(n).last()) == n,
{
    crate::text::law_decimal_reads_back(n);
    assert(crate::text::decimal(n).drop_last() =~= Seq::<char>::empty());
    assert(crate::text::decimal_value(Seq::<char>::empty()) == 0);
}

} // verus!
