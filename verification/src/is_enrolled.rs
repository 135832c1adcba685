//! Whether face authentication works for a user, answered from the enrollment
//! marker alone: no database, no daemon, no camera.
//!
//! The exit code is the contract: 0 is enrolled, 1 is not, 2 is no answer.

use crate::ipc_client::CallerNames;
use crate::json::{boolean, null, number, put, record, render, text, Json};
use vstd::prelude::*;
use vstd::string::*;

verus! {

/// The user has a usable enrollment.
pub const EXIT_ENROLLED: i32 = 0;

/// The user has none.
pub const EXIT_NOT_ENROLLED: i32 = 1;

/// The question could not be answered.
pub const EXIT_ERROR: i32 = 2;

/// An enrollment marker.
#[derive(Debug, Clone, PartialEq, Eq)]
pub struct Marker<S = String> {
    /// The number of the user's models.
    pub models: u64,
    /// When it was written.
    pub updated: S,
}

/// What became of reading a user's marker.
#[derive(Debug, Clone, PartialEq, Eq)]
pub enum MarkerState<S = String> {
    Enrolled(Marker<S>),
    Absent,
    Unreadable(S),
}

impl View for Marker<String> {
    type V = Marker<Seq<char>>;

    open spec fn view(&self) -> Marker<Seq<char>> {
        Marker { models: self.models, updated: self.updated@ }
    }
}

impl View for MarkerState<String> {
    type V = MarkerState<Seq<char>>;

    open spec fn view(&self) -> MarkerState<Seq<char>> {
        match *self {
            MarkerState::Enrolled(marker) => MarkerState::Enrolled(marker@),
            MarkerState::Absent => MarkerState::Absent,
            MarkerState::Unreadable(reason) => MarkerState::Unreadable(reason@),
        }
    }
}

/// The exit code of an answer.
pub open spec fn code_of<S>(state: MarkerState<S>) -> i32 {
    match state {
        MarkerState::Enrolled(_) => EXIT_ENROLLED,
        MarkerState::Absent => EXIT_NOT_ENROLLED,
        MarkerState::Unreadable(_) => EXIT_ERROR,
    }
}

/// The exit code of an answer.
pub fn exit_code(state: &MarkerState) -> (r: i32)
    ensures
        r == code_of(state@),
{
    match state {
        MarkerState::Enrolled(_) => EXIT_ENROLLED,
        MarkerState::Absent => EXIT_NOT_ENROLLED,
        MarkerState::Unreadable(_) => EXIT_ERROR,
    }
}

/// The document of an answer.
pub open spec fn enrolled_document(marker: Option<Marker<Seq<char>>>) -> Json {
    match marker {
        Some(m) => Json::Record(
            Map::empty().insert("enrolled"@, Json::Bool(true)).insert(
                "models"@,
                Json::Number(crate::text::decimal(m.models as nat)),
            ).insert("updated"@, Json::Text(m.updated)),
        ),
        None => Json::Record(
            Map::empty().insert("enrolled"@, Json::Bool(false)).insert(
                "models"@,
                Json::Number(crate::text::decimal(0)),
            ).insert("updated"@, Json::Null),
        ),
    }
}

/// The answer as a JSON document.
pub fn enrolled_json(marker: Option<&Marker>) -> (r: String)
    ensures
        r@ == crate::json::rendered(
            enrolled_document(
                match marker {
                    Some(m) => Some(m@),
                    None => None,
                },
            ),
        ),
{
    let mut document = record();
    match marker {
        Some(m) => {
            put(&mut document, "enrolled", boolean(true));
            put(&mut document, "models", number(m.models));
            put(&mut document, "updated", text(m.updated.as_str()));
        },
        None => {
            put(&mut document, "enrolled", boolean(false));
            put(&mut document, "models", number(0));
            put(&mut document, "updated", null());
        },
    }
    render(&document)
}

/// What the command prints.
#[derive(Debug, PartialEq, Eq)]
pub enum Printed<S = String> {
    /// The payload, on standard output, unless the program is to be quiet.
    Payload(S),
    /// The complaint, on standard error.
    Complaint(S),
}

impl View for Printed<String> {
    type V = Printed<Seq<char>>;

    open spec fn view(&self) -> Printed<Seq<char>> {
        match *self {
            Printed::Payload(s) => Printed::Payload(s@),
            Printed::Complaint(s) => Printed::Complaint(s@),
        }
    }
}

/// What the command prints for an answer.
pub open spec fn printed(state: MarkerState<Seq<char>>, json: bool) -> Printed<Seq<char>> {
    match state {
        MarkerState::Unreadable(reason) => Printed::Complaint(
            "facelock is-enrolled: "@ + reason,
        ),
        MarkerState::Enrolled(marker) => Printed::Payload(
            if json {
                crate::json::rendered(enrolled_document(Some(marker)))
            } else {
                "enrolled"@
            },
        ),
        MarkerState::Absent => Printed::Payload(
            if json {
                crate::json::rendered(enrolled_document(None))
            } else {
                "not-enrolled"@
            },
        ),
    }
}

/// What the command prints for an answer, and its exit code.
pub fn report(state: &MarkerState, json: bool) -> (r: (Printed, i32))
    ensures
        r.0@ == printed(state@, json),
        r.1 == code_of(state@),
{
    let said = match state {
        MarkerState::Unreadable(reason) => {
            let mut complaint = String::from_str("facelock is-enrolled: ");
            complaint.append(reason.as_str());
            Printed::Complaint(complaint)
        },
        MarkerState::Enrolled(marker) => if json {
            Printed::Payload(enrolled_json(Some(marker)))
        } else {
            Printed::Payload(String::from_str("enrolled"))
        },
        MarkerState::Absent => if json {
            Printed::Payload(enrolled_json(None))
        } else {
            Printed::Payload(String::from_str("not-enrolled"))
        },
    };
    (said, exit_code(state))
}

/// The command, given how to read a user's marker: it reads the marker of the
/// user it is asked about, and answers from that alone.
pub fn run<F: Fn(&str) -> MarkerState>(
    user: Option<&str>,
    json: bool,
    names: &CallerNames,
    read_marker: F,
) -> (r: (Printed, i32))
    requires
        forall|name: &str| #[trigger] read_marker.requires((name,)),
    ensures
        exists|name: &str, state: MarkerState|
            #![trigger read_marker.ensures((name,), state)]
            {
                &&& name@ == crate::ipc_client::target_user(
                    match user {
                        Some(u) => Some(u@),
                        None => None,
                    },
                    *names,
                )
                &&& read_marker.ensures((name,), state)
                &&& r.0@ == printed(state@, json)
                &&& r.1 == code_of(state@)
            },
{
    let name = crate::ipc_client::resolve_user(user, names);
    let asked = name.as_str();
    let state = read_marker(asked);
    assert(read_marker.ensures((asked,), state));
    report(&state, json)
}

// ---------------------------------------------------------------------------
// Laws
// ---------------------------------------------------------------------------

/// The form of the answer does not touch its code, and standard output carries
/// nothing exactly where there is no answer.
pub proof fn law_form_does_not_touch_the_answer(state: MarkerState<Seq<char>>)
    ensures
        printed(state, true) is Complaint <==> printed(state, false) is Complaint,
        printed(state, true) is Complaint <==> code_of(state) == EXIT_ERROR,
        code_of(state) == EXIT_ENROLLED <==> state is Enrolled,
        code_of(state) == EXIT_NOT_ENROLLED <==> state is Absent,
{
}

/// The answer by its code: 0 for an enrollment, 1 for none, 2 for no answer, whose
/// complaint ends with the reason.
pub proof fn law_the_code_is_the_answer(state: MarkerState<Seq<char>>, json: bool)
    ensures
        state is Enrolled ==> code_of(state) == 0,
        state is Absent ==> code_of(state) == 1,
        state is Unreadable ==> code_of(state) == 2,
        state matches MarkerState::Unreadable(reason) ==> printed(state, json)
            == Printed::Complaint("facelock is-enrolled: "@ + reason),
        state is Enrolled ==> printed(state, false) == Printed::Payload("enrolled"@),
        state is Absent ==> printed(state, false) == Printed::Payload("not-enrolled"@),
        state matches MarkerState::Enrolled(marker) ==> printed(state, true) == Printed::Payload(
            crate::json::rendered(enrolled_document(Some(marker))),
        ),
        state is Absent ==> printed(state, true) == Printed::Payload(
            crate::json::rendered(enrolled_document(None)),
        ),
{
}

/// The document has three fields: the answer, the number of models, which is none
/// without an enrollment, and when the marker was written.
pub proof fn law_the_document_tells_of_the_marker(marker: Option<Marker<Seq<char>>>)
    ensures
        enrolled_document(marker) matches Json::Record(fields) && {
            &&& fields.dom() =~= set!["enrolled"@, "models"@, "updated"@]
            &&& fields["enrolled"@] == Json::Bool(marker is Some)
            &&& fields["models"@] == Json::Number(
                crate::text::decimal(
                    match marker {
                        Some(m) => m.models as nat,
                        None => 0,
                    },
                ),
            )
            &&& fields["updated"@] == match marker {
                Some(m) => Json::Text(m.updated),
                None => Json::Null,
            }
        },
{
    reveal_strlit("enrolled");
    reveal_strlit("models");
    reveal_strlit("updated");
    assert("enrolled"@.len() == 8 && "models"@.len() == 6 && "updated"@.len() == 7);
}

/// The document says enrolled exactly where the code does.
pub proof fn law_document_agrees_with_the_code(marker: Option<Marker<Seq<char>>>)
    ensures
        crate::json::bool_under(enrolled_document(marker), "enrolled"@) == Some(marker is Some),
{
    reveal_strlit("enrolled");
    reveal_strlit("models");
    reveal_strlit("updated");
    assert("enrolled"@.len() == 8 && "models"@.len() == 6 && "updated"@.len() == 7);
}

} // verus!
