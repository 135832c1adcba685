//! The daemon's unit: what systemd says of it, and which states are admitted.

use crate::lifecycle::layout::{ErrorView, LifecycleError, UNIT_NAME};
use crate::text::{lines_of, parted, quoted, same, trimmed};
use vstd::prelude::*;
use vstd::string::*;

verus! {

/// The three unit properties that a lease records and proves.
#[derive(Debug, Clone, PartialEq, Eq)]
pub struct UnitProperties<S = String> {
    pub load_state: S,
    pub active_state: S,
    pub unit_file_state: S,
}

impl View for UnitProperties<String> {
    type V = UnitProperties<Seq<char>>;

    open spec fn view(&self) -> UnitProperties<Seq<char>> {
        UnitProperties {
            load_state: self.load_state@,
            active_state: self.active_state@,
            unit_file_state: self.unit_file_state@,
        }
    }
}

/// The systemd operations that a lease needs.
pub trait UnitManager: Send {
    fn show(&self) -> Result<UnitProperties, LifecycleError>;

    fn daemon_reload(&self) -> Result<(), LifecycleError>;

    fn stop(&self) -> Result<(), LifecycleError>;

    fn start(&self) -> Result<(), LifecycleError>;
}

/// The one question that a lease asks of the bus: whether anything owns the
/// daemon's name.
pub trait BusProbe {
    fn daemon_name_has_owner(&self) -> Result<bool, LifecycleError>;
}

/// What has been read of a unit's properties so far.
pub struct Shown {
    pub load: Option<Seq<char>>,
    pub active: Option<Seq<char>>,
    pub file: Option<Seq<char>>,
}

/// One more line of properties, or why it is refused.
pub open spec fn show_line(s: Shown, line: Seq<char>) -> Result<Shown, Seq<char>> {
    if line.len() == 0 {
        Ok(s)
    } else {
        match crate::text::split_once(line, '=') {
            None => Err("unparseable line "@ + crate::text::debug_quoted(line)),
            Some((key, value)) => if key == "LoadState"@ {
                if s.load is Some {
                    Err("duplicate property "@ + key)
                } else {
                    Ok(Shown { load: Some(value), ..s })
                }
            } else if key == "ActiveState"@ {
                if s.active is Some {
                    Err("duplicate property "@ + key)
                } else {
                    Ok(Shown { active: Some(value), ..s })
                }
            } else if key == "UnitFileState"@ {
                if s.file is Some {
                    Err("duplicate property "@ + key)
                } else {
                    Ok(Shown { file: Some(value), ..s })
                }
            } else {
                Err("unexpected property "@ + key)
            },
        }
    }
}

/// All lines in order, or why the first refused one is.
pub open spec fn show_lines(lines: Seq<Seq<char>>) -> Result<Shown, Seq<char>>
    decreases lines.len(),
{
    if lines.len() == 0 {
        Ok(Shown { load: None, active: None, file: None })
    } else {
        match show_lines(lines.drop_last()) {
            Err(e) => Err(e),
            Ok(s) => show_line(s, lines.last()),
        }
    }
}

/// The properties in the output of `systemctl show`: each of the three once,
/// and nothing else.
pub open spec fn shown(text: Seq<char>) -> Result<UnitProperties<Seq<char>>, Seq<char>> {
    match show_lines(crate::text::lines(text)) {
        Err(e) => Err(e),
        Ok(s) => match (s.load, s.active, s.file) {
            (Some(load_state), Some(active_state), Some(unit_file_state)) => Ok(
                UnitProperties { load_state, active_state, unit_file_state },
            ),
            _ => Err("missing property in systemctl show output"@),
        },
    }
}

/// The properties with character sequences for strings.
pub open spec fn properties_view(r: Result<UnitProperties, String>) -> Result<
    UnitProperties<Seq<char>>,
    Seq<char>,
> {
    match r {
        Ok(p) => Ok(p@),
        Err(e) => Err(e@),
    }
}

fn two(a: &str, b: &str) -> (r: String)
    ensures
        r@ == a@ + b@,
{
    let mut out = String::from_str(a);
    out.append(b);
    out
}

/// The properties in the output of `systemctl show`. What is missing, twice
/// there, or not asked for is refused.
pub fn parse_show_output(text: &str) -> (r: Result<UnitProperties, String>)
    ensures
        properties_view(r) == shown(text@),
{
    let lines = lines_of(text);
    let ghost all = crate::text::lines(text@);
    let mut load: Option<String> = None;
    let mut active: Option<String> = None;
    let mut file: Option<String> = None;
    let mut i: usize = 0;
    assert(all.take(0) == Seq::<Seq<char>>::empty());
    while i < lines.len()
        invariant
            i <= lines.len(),
            crate::text::texts(lines@) == all,
            all == crate::text::lines(text@),
            show_lines(all.take(i as int)) == Ok::<Shown, Seq<char>>(
                Shown {
                    load: crate::text::opt_text(load),
                    active: crate::text::opt_text(active),
                    file: crate::text::opt_text(file),
                },
            ),
        decreases lines.len() - i,
    {
        let line = lines[i].as_str();
        proof {
            assert(all.take(i as int + 1).drop_last() == all.take(i as int));
            assert(all.take(i as int + 1).last() == line@);
            lemma_refused_line_refuses(all, i as int + 1);
        }
        if !line.is_empty() {
            match parted(line, '=') {
                None => {
                    return Err(two("unparseable line ", quoted(line).as_str()));
                },
                Some((key, value)) => {
                    if same(key.as_str(), "LoadState") {
                        if load.is_some() {
                            return Err(two("duplicate property ", key.as_str()));
                        }
                        load = Some(value);
                    } else if same(key.as_str(), "ActiveState") {
                        if active.is_some() {
                            return Err(two("duplicate property ", key.as_str()));
                        }
                        active = Some(value);
                    } else if same(key.as_str(), "UnitFileState") {
                        if file.is_some() {
                            return Err(two("duplicate property ", key.as_str()));
                        }
                        file = Some(value);
                    } else {
                        return Err(two("unexpected property ", key.as_str()));
                    }
                },
            }
        }
        i += 1;
    }
    assert(all.take(lines.len() as int) == all);
    match (load, active, file) {
        (Some(load_state), Some(active_state), Some(unit_file_state)) => Ok(
            UnitProperties { load_state, active_state, unit_file_state },
        ),
        _ => Err(String::from_str("missing property in systemctl show output")),
    }
}

proof fn lemma_refused_line_refuses(lines: Seq<Seq<char>>, n: int)
    requires
        0 <= n <= lines.len(),
    ensures
        show_lines(lines.take(n)) is Err ==> show_lines(lines) == show_lines(lines.take(n)),
    decreases lines.len(),
{
    if n < lines.len() {
        assert(lines.drop_last().take(n) == lines.take(n));
        lemma_refused_line_refuses(lines.drop_last(), n);
    } else {
        assert(lines.take(n) == lines);
    }
}

/// Why a unit's state is not one in which a lease may be taken. A masked unit
/// is admitted only where a stale barrier explains the mask.
pub open spec fn state_refusal(
    props: UnitProperties<Seq<char>>,
    adopted_stale_barrier: bool,
) -> Option<ErrorView> {
    if props.load_state == "masked"@ && !adopted_stale_barrier {
        Some(
            LifecycleError::UnitStateNotAdmissible {
                state: "masked"@,
                advice: "the unit is masked outside facelock's control; remove the mask (see `systemctl cat` and `systemctl unmask`), then retry"@,
            },
        )
    } else if props.load_state != "loaded"@ && props.load_state != "not-found"@ && props.load_state
        != "masked"@ {
        Some(
            LifecycleError::UnitStateNotAdmissible {
                state: props.load_state,
                advice: "unrecognized LoadState; resolve the unit's state, then retry"@,
            },
        )
    } else if props.active_state == "active"@ || props.active_state == "inactive"@ {
        None
    } else if props.active_state == "failed"@ {
        Some(
            LifecycleError::UnitStateNotAdmissible {
                state: "failed"@,
                advice: "run `systemctl reset-failed "@ + UNIT_NAME@ + "`, then retry"@,
            },
        )
    } else {
        Some(
            LifecycleError::UnitStateNotAdmissible {
                state: props.active_state,
                advice: "wait for the transition to settle, then retry"@,
            },
        )
    }
}

fn not_admissible(state: &str, advice: &str) -> (r: LifecycleError)
    ensures
        r@ == (LifecycleError::UnitStateNotAdmissible { state: state@, advice: advice@ }),
{
    LifecycleError::UnitStateNotAdmissible {
        state: String::from_str(state),
        advice: String::from_str(advice),
    }
}

/// Whether a lease may be taken in a unit's state, or why not.
pub fn admissible(props: &UnitProperties, adopted_stale_barrier: bool) -> (r: Result<
    (),
    LifecycleError,
>)
    ensures
        match r {
            Ok(_) => state_refusal(props@, adopted_stale_barrier) is None,
            Err(e) => state_refusal(props@, adopted_stale_barrier) == Some(e@),
        },
{
    let load = props.load_state.as_str();
    let active = props.active_state.as_str();
    if same(load, "masked") {
        if !adopted_stale_barrier {
            return Err(
                not_admissible(
                    "masked",
                    "the unit is masked outside facelock's control; remove the mask (see `systemctl cat` and `systemctl unmask`), then retry",
                ),
            );
        }
    } else if !same(load, "loaded") && !same(load, "not-found") {
        return Err(
            not_admissible(
                load,
                "unrecognized LoadState; resolve the unit's state, then retry",
            ),
        );
    }
    if same(active, "active") || same(active, "inactive") {
        return Ok(());
    }
    if same(active, "failed") {
        let mut advice = two("run `systemctl reset-failed ", UNIT_NAME);
        advice.append("`, then retry");
        return Err(not_admissible("failed", advice.as_str()));
    }
    Err(not_admissible(active, "wait for the transition to settle, then retry"))
}

// ---------------------------------------------------------------------------
// systemctl
// ---------------------------------------------------------------------------

/// The service manager as `systemctl` drives it.
pub struct Systemctl;

/// The bus as the daemon's name is looked up on it.
pub struct SystemBus;

/// A request to `systemctl`.
#[derive(Debug, Clone, Copy, PartialEq, Eq, Structural)]
pub enum UnitRequest {
    Show,
    DaemonReload,
    Stop,
    Start,
}

/// The arguments of a request.
pub open spec fn arguments_of(request: UnitRequest) -> Seq<Seq<char>> {
    match request {
        UnitRequest::Show => seq![
            "show"@,
            UNIT_NAME@,
            "-p"@,
            "LoadState"@,
            "-p"@,
            "ActiveState"@,
            "-p"@,
            "UnitFileState"@,
        ],
        UnitRequest::DaemonReload => seq!["daemon-reload"@],
        UnitRequest::Stop => seq!["stop"@, UNIT_NAME@],
        UnitRequest::Start => seq!["start"@, UNIT_NAME@],
    }
}

/// What a run of `systemctl` came to: it could not be run, or this is its exit
/// status in words, whether that is success, and what it printed.
#[derive(Debug, Clone, PartialEq, Eq)]
pub enum Ran {
    NotRun(String),
    Done { success: bool, status: String, stdout: String, stderr: String },
}

/// Why a run of `systemctl` counts as failed, if it does.
pub open spec fn run_failure(request: UnitRequest, ran: Ran) -> Option<ErrorView> {
    let action = crate::text::join(arguments_of(request), " "@);
    match ran {
        Ran::NotRun(error) => Some(LifecycleError::Systemctl { action, detail: error@ }),
        Ran::Done { success, status, stderr, .. } => if success {
            None
        } else {
            Some(
                LifecycleError::Systemctl {
                    action,
                    detail: status@ + ": "@ + crate::text::trim(stderr@),
                },
            )
        },
    }
}

/// What a run that asked for the unit's properties says.
pub open spec fn properties_in(ran: Ran) -> Result<UnitProperties<Seq<char>>, ErrorView> {
    match ran {
        Ran::NotRun(error) => Err(
            LifecycleError::Systemctl {
                action: crate::text::join(arguments_of(UnitRequest::Show), " "@),
                detail: error@,
            },
        ),
        Ran::Done { status, stdout, stderr, .. } => match shown(stdout@) {
            Ok(props) => Ok(props),
            Err(reason) => Err(
                LifecycleError::Systemctl {
                    action: "show "@ + UNIT_NAME@,
                    detail: reason + " ("@ + status@ + ": "@ + crate::text::trim(stderr@) + ")"@,
                },
            ),
        },
    }
}

impl Systemctl {
    /// The arguments of a request.
    pub fn arguments(&self, request: UnitRequest) -> (r: Vec<String>)
        ensures
            crate::text::texts(r@) == arguments_of(request),
    {
        let mut out: Vec<String> = Vec::new();
        match request {
            UnitRequest::Show => {
                out.push(String::from_str("show"));
                out.push(String::from_str(UNIT_NAME));
                out.push(String::from_str("-p"));
                out.push(String::from_str("LoadState"));
                out.push(String::from_str("-p"));
                out.push(String::from_str("ActiveState"));
                out.push(String::from_str("-p"));
                out.push(String::from_str("UnitFileState"));
            },
            UnitRequest::DaemonReload => {
                out.push(String::from_str("daemon-reload"));
            },
            UnitRequest::Stop => {
                out.push(String::from_str("stop"));
                out.push(String::from_str(UNIT_NAME));
            },
            UnitRequest::Start => {
                out.push(String::from_str("start"));
                out.push(String::from_str(UNIT_NAME));
            },
        }
        assert(crate::text::texts(out@) =~= arguments_of(request));
        out
    }

    /// Whether a request succeeded, by what its run came to.
    pub fn run_expect_success(&self, request: UnitRequest, ran: &Ran) -> (r: Result<
        (),
        LifecycleError,
    >)
        ensures
            match r {
                Ok(_) => run_failure(request, *ran) is None,
                Err(e) => run_failure(request, *ran) == Some(e@),
            },
    {
        let action = crate::text::joined(&self.arguments(request), " ");
        match ran {
            Ran::NotRun(error) => Err(LifecycleError::Systemctl { action, detail: error.clone() }),
            Ran::Done { success, status, stderr, .. } => if *success {
                Ok(())
            } else {
                let mut detail = two(status.as_str(), ": ");
                detail.append(trimmed(stderr.as_str()).as_str());
                Err(LifecycleError::Systemctl { action, detail })
            },
        }
    }

    /// The unit's properties, by what the run that asked for them came to. They
    /// are read whatever its exit status: systemd's versions disagree on it for
    /// a unit that does not exist.
    pub fn shown_properties(&self, ran: &Ran) -> (r: Result<UnitProperties, LifecycleError>)
        ensures
            match r {
                Ok(props) => properties_in(*ran) == Ok::<UnitProperties<Seq<char>>, ErrorView>(
                    props@,
                ),
                Err(e) => properties_in(*ran) == Err::<UnitProperties<Seq<char>>, ErrorView>(e@),
            },
    {
        match ran {
            Ran::NotRun(error) => Err(
                LifecycleError::Systemctl {
                    action: crate::text::joined(&self.arguments(UnitRequest::Show), " "),
                    detail: error.clone(),
                },
            ),
            Ran::Done { status, stdout, stderr, .. } => match parse_show_output(stdout.as_str()) {
                Ok(props) => Ok(props),
                Err(reason) => {
                    let mut detail = two(reason.as_str(), " (");
                    detail.append(status.as_str());
                    detail.append(": ");
                    detail.append(trimmed(stderr.as_str()).as_str());
                    detail.append(")");
                    Err(LifecycleError::Systemctl { action: two("show ", UNIT_NAME), detail })
                },
            },
        }
    }
}

// ---------------------------------------------------------------------------
// Laws
// ---------------------------------------------------------------------------

/// A unit that is masked by somebody else is never admitted, whatever else it
/// is; one that is neither running nor stopped never is either.
pub proof fn law_foreign_masks_and_transitions_are_refused(
    props: UnitProperties<Seq<char>>,
    adopted: bool,
)
    ensures
        state_refusal(props, adopted) is None ==> {
            &&& props.load_state == "masked"@ ==> adopted
            &&& props.active_state == "active"@ || props.active_state == "inactive"@
        },
{
}

/// A lease may be taken exactly of a unit that is running or stopped, and that is
/// known to systemd, unknown to it, or masked by a barrier of ours.
pub proof fn law_a_settled_unit_is_admitted(
    props: UnitProperties<Seq<char>>,
    adopted_stale_barrier: bool,
)
    ensures
        state_refusal(props, adopted_stale_barrier) is None <==> {
            &&& props.load_state == "loaded"@ || props.load_state == "not-found"@ || (
            props.load_state == "masked"@ && adopted_stale_barrier)
            &&& props.active_state == "active"@ || props.active_state == "inactive"@
        },
{
    reveal_strlit("loaded");
    reveal_strlit("not-found");
    reveal_strlit("masked");
    reveal_strlit("active");
    reveal_strlit("inactive");
    reveal_strlit("failed");
    assert("loaded"@.len() == 6 && "not-found"@.len() == 9 && "masked"@.len() == 6 && "loaded"@[0]
        == 'l' && "masked"@[0] == 'm');
    assert("active"@.len() == 6 && "inactive"@.len() == 8 && "failed"@.len() == 6 && "active"@[0]
        == 'a' && "failed"@[0] == 'f');
}

/// What the unit shows is read as it stands: each property's value is what stands
/// behind its name and the equals sign.
pub proof fn law_properties_are_read_as_shown(
    text: Seq<char>,
    load: Seq<char>,
    active: Seq<char>,
    file: Seq<char>,
)
    requires
        crate::text::lines(text) == seq![
            "LoadState"@ + seq!['='] + load,
            "ActiveState"@ + seq!['='] + active,
            "UnitFileState"@ + seq!['='] + file,
        ],
    ensures
        shown(text) == Ok::<UnitProperties<Seq<char>>, Seq<char>>(
            UnitProperties { load_state: load, active_state: active, unit_file_state: file },
        ),
{
    reveal_strlit("LoadState");
    reveal_strlit("ActiveState");
    reveal_strlit("UnitFileState");
    assert("LoadState"@[0] == 'L' && "ActiveState"@[0] == 'A' && "UnitFileState"@[0] == 'U');
    lemma_property("LoadState"@, load);
    lemma_property("ActiveState"@, active);
    lemma_property("UnitFileState"@, file);
    let lines = crate::text::lines(text);
    let l1 = lines.drop_last();
    let l2 = l1.drop_last();
    assert(l2.drop_last() =~= Seq::<Seq<char>>::empty());
    assert(l2.last() == "LoadState"@ + seq!['='] + load);
    assert(l1.last() == "ActiveState"@ + seq!['='] + active);
    reveal_with_fuel(show_lines, 4);
    assert(show_lines(l2) == Ok::<Shown, Seq<char>>(
        Shown { load: Some(load), active: None, file: None },
    ));
    assert(show_lines(l1) == Ok::<Shown, Seq<char>>(
        Shown { load: Some(load), active: Some(active), file: None },
    ));
}

proof fn lemma_property(key: Seq<char>, value: Seq<char>)
    requires
        forall|k: int| 0 <= k < key.len() ==> #[trigger] key[k] != '=',
    ensures
        crate::text::split_once(key + seq!['='] + value, '=') == Some((key, value)),
{
    let line = key + seq!['='] + value;
    let mark = seq!['='];
    crate::text::law_find_is_leftmost(line, mark, key, value);
    let n = crate::text::find(line, mark)->0 as int;
    assert(line.subrange(n, n + 1)[0] == line[n]);
    if n < key.len() {
        assert(key[n] == '=');
    }
    assert(line.take(n) =~= key);
    assert(line.skip(n + 1) =~= value);
}

/// A request succeeds exactly if `systemctl` ran and says so; the unit's properties
/// are read off what it printed, whatever it says.
pub proof fn law_a_run_is_judged_by_its_status(
    request: UnitRequest,
    ran: Ran,
    error: String,
)
    ensures
        run_failure(request, ran) is None <==> (ran matches Ran::Done { success, .. } && success),
        run_failure(request, Ran::NotRun(error)) == Some(
            LifecycleError::Systemctl {
                action: crate::text::join(arguments_of(request), " "@),
                detail: error@,
            },
        ),
        properties_in(ran) is Ok <==> (ran matches Ran::Done { stdout, .. } && shown(stdout@) is Ok),
        properties_in(ran) matches Ok(props) ==> shown(ran->stdout@) == Ok::<
            UnitProperties<Seq<char>>,
            Seq<char>,
        >(props),
{
}

/// Each request names its verb first, and the unit next wherever it is of one.
pub proof fn law_requests_name_their_verb_and_unit(request: UnitRequest)
    ensures
        arguments_of(request)[0] == match request {
            UnitRequest::Show => "show"@,
            UnitRequest::DaemonReload => "daemon-reload"@,
            UnitRequest::Stop => "stop"@,
            UnitRequest::Start => "start"@,
        },
        request != UnitRequest::DaemonReload ==> arguments_of(request)[1]
            == "facelock-daemon.service"@,
        request == UnitRequest::DaemonReload ==> arguments_of(request).len() == 1,
        request == UnitRequest::Stop || request == UnitRequest::Start ==> arguments_of(
            request,
        ).len() == 2,
{
}

/// Whether a line gives a property.
pub open spec fn gives(line: Seq<char>, key: Seq<char>) -> bool {
    line.len() > 0 && (crate::text::split_once(line, '=') matches Some((k, _)) && k == key)
}

proof fn lemma_show(lines: Seq<Seq<char>>)
    ensures
        show_lines(lines) matches Ok(s) ==> {
            &&& forall|i: int|
                0 <= i < lines.len() ==> (#[trigger] lines[i]).len() == 0 || gives(
                    lines[i],
                    "LoadState"@,
                ) || gives(lines[i], "ActiveState"@) || gives(lines[i], "UnitFileState"@)
            &&& s.load is None ==> forall|i: int|
                0 <= i < lines.len() ==> !gives(#[trigger] lines[i], "LoadState"@)
            &&& forall|i: int, j: int|
                0 <= i < j < lines.len() && gives(#[trigger] lines[i], "LoadState"@) ==> !gives(
                    #[trigger] lines[j],
                    "LoadState"@,
                )
        },
    decreases lines.len(),
{
    if lines.len() > 0 {
        let front = lines.drop_last();
        lemma_show(front);
        reveal_strlit("LoadState");
        reveal_strlit("ActiveState");
        reveal_strlit("UnitFileState");
        assert("LoadState"@[0] == 'L' && "ActiveState"@[0] == 'A' && "UnitFileState"@[0] == 'U');
        if show_lines(lines) is Ok {
            let before = show_lines(front)->Ok_0;
            assert forall|i: int| 0 <= i < front.len() implies front[i] == #[trigger] lines[i] by {}
            assert(lines[lines.len() - 1] == lines.last());
            assert forall|i: int, j: int|
                0 <= i < j < lines.len() && gives(
                    #[trigger] lines[i],
                    "LoadState"@,
                ) implies !gives(#[trigger] lines[j], "LoadState"@) by {
                assert(front[i] == lines[i]);
                if j < front.len() {
                    assert(front[j] == lines[j]);
                } else {
                    assert(before.load is Some);
                }
            }
        }
    }
}

/// Output that is accepted holds the three properties and nothing else, and the
/// load state, on which the mask is judged, only once.
pub proof fn law_accepted_output_is_strict(text: Seq<char>)
    requires
        shown(text) is Ok,
    ensures
        ({
            let lines = crate::text::lines(text);
            &&& forall|i: int|
                0 <= i < lines.len() ==> (#[trigger] lines[i]).len() == 0 || gives(
                    lines[i],
                    "LoadState"@,
                ) || gives(lines[i], "ActiveState"@) || gives(lines[i], "UnitFileState"@)
            &&& forall|i: int, j: int|
                0 <= i < j < lines.len() && gives(#[trigger] lines[i], "LoadState"@) ==> !gives(
                    #[trigger] lines[j],
                    "LoadState"@,
                )
        }),
{
    lemma_show(crate::text::lines(text));
}

} // verus!
