//! The listing of a user's face models, for people and for programs.

use crate::ipc_client::FaceModelInfo;
use crate::json::{list, number, put, record, render, text, Json};
use crate::text::{decimal_of, same};
use vstd::prelude::*;
use vstd::string::*;

verus! {

// ---------------------------------------------------------------------------
// Columns
// ---------------------------------------------------------------------------

/// A character so many times.
pub open spec fn repeated(c: char, n: nat) -> Seq<char> {
    Seq::new(n, |i: int| c)
}

/// A text filled up with spaces to a width.
pub open spec fn padded(s: Seq<char>, width: nat) -> Seq<char> {
    if s.len() < width {
        s + repeated(' ', (width - s.len()) as nat)
    } else {
        s
    }
}

fn repeat(c: char, n: usize) -> (r: String)
    ensures
        r@ == repeated(c, n as nat),
{
    let mut s = String::new();
    let mut i: usize = 0;
    while i < n
        invariant
            i <= n,
            s@ =~= repeated(c, i as nat),
        decreases n - i,
    {
        s.push(c);
        i += 1;
    }
    s
}

fn pad(s: &str, width: usize) -> (r: String)
    ensures
        r@ == padded(s@, width as nat),
{
    let length: usize = s.unicode_len();
    let mut out = String::from_str(s);
    if length < width {
        out.append(repeat(' ', width - length).as_str());
    }
    out
}

/// A line of the table.
pub open spec fn table_row(
    id: Seq<char>,
    label: Seq<char>,
    created: Seq<char>,
    model: Seq<char>,
    camera: Seq<char>,
) -> Seq<char> {
    "  "@ + padded(id, 6) + " "@ + padded(label, 20) + " "@ + padded(created, 24) + " "@ + padded(
        model,
        22,
    ) + " "@ + camera
}

fn row_of(id: &str, label: &str, created: &str, model: &str, camera: &str) -> (r: String)
    ensures
        r@ == table_row(id@, label@, created@, model@, camera@),
{
    let mut line = String::from_str("  ");
    line.append(pad(id, 6).as_str());
    line.append(" ");
    line.append(pad(label, 20).as_str());
    line.append(" ");
    line.append(pad(created, 24).as_str());
    line.append(" ");
    line.append(pad(model, 22).as_str());
    line.append(" ");
    line.append(camera);
    line
}

// ---------------------------------------------------------------------------
// Times
// ---------------------------------------------------------------------------

/// The last second that has a date: the end of the year 262142.
pub const LAST_SECOND: i64 = 8210266876799;

/// Year, month, day, hour, minute and second of the clock that shows the epoch
/// where `local` is 0 and then runs on evenly, as `chrono` writes them.
pub uninterp spec fn clock_text(local: int) -> Seq<char>;

/// Whether a text is a day, a space, and then hour, minute and second in two
/// digits each, with colons between them.
pub open spec fn is_day_and_time(s: Seq<char>) -> bool {
    let n = s.len();
    &&& n >= 19
    &&& crate::text::is_day(s.take(n - 9))
    &&& s[n - 9] == ' '
    &&& crate::text::is_digit(s[n - 8]) && crate::text::is_digit(s[n - 7])
    &&& s[n - 6] == ':'
    &&& crate::text::is_digit(s[n - 5]) && crate::text::is_digit(s[n - 4])
    &&& s[n - 3] == ':'
    &&& crate::text::is_digit(s[n - 2]) && crate::text::is_digit(s[n - 1])
}

/// `chrono::Local`'s `timestamp_opt`, then the display of its `format` as year,
/// month, day, hour, minute and second. From the epoch on there is a date up to
/// [`LAST_SECOND`] and none after it. It is the date of the given second in the
/// time zone of the machine, which is less than a day away from that of the
/// epoch; by how much is left open.
#[verifier::external_body]
fn local_time(seconds: i64) -> (r: Option<String>)
    ensures
        0 <= seconds <= LAST_SECOND ==> r is Some,
        seconds > LAST_SECOND ==> r is None,
        r matches Some(t) ==> is_day_and_time(t@) && exists|local: int|
            seconds - 86_400 < local < seconds + 86_400 && t@ == #[trigger] clock_text(local),
{
    match chrono::TimeZone::timestamp_opt(&chrono::Local, seconds, 0) {
        chrono::LocalResult::Single(time) => Some(time.format("%Y-%m-%d %H:%M:%S").to_string()),
        _ => None,
    }
}

/// The notation of a time: the local date and time, else the bare number.
pub open spec fn time_text(unix_ts: u64, local: Option<Seq<char>>) -> Seq<char> {
    match local {
        Some(t) => t,
        None => crate::text::decimal(unix_ts as nat),
    }
}

/// The notation of a time, given its local date and time if it has one.
pub fn timestamp_text(unix_ts: u64, local: Option<String>) -> (r: String)
    ensures
        r@ == time_text(unix_ts, crate::text::opt_text(local)),
{
    match local {
        Some(t) => t,
        None => decimal_of(unix_ts),
    }
}

/// Whether a text shows a second in some time zone.
pub open spec fn shows(seconds: int, s: Seq<char>) -> bool {
    is_day_and_time(s) && exists|local: int|
        seconds - 86_400 < local < seconds + 86_400 && s == #[trigger] clock_text(local)
}

/// The second that a number stands for. Beyond the range of `i64` it wraps round
/// to before the epoch.
pub open spec fn second_of(unix_ts: u64) -> int {
    if unix_ts <= i64::MAX {
        unix_ts as int
    } else {
        unix_ts - 0x1_0000_0000_0000_0000
    }
}

/// Whether a text can be the notation of a time, whatever the time zone. Before
/// the epoch there may be a date or none.
pub open spec fn is_time_text(unix_ts: u64, s: Seq<char>) -> bool {
    let bare = crate::text::decimal(unix_ts as nat);
    &&& unix_ts <= LAST_SECOND ==> shows(second_of(unix_ts), s)
    &&& LAST_SECOND < unix_ts <= i64::MAX ==> s == bare
    &&& shows(second_of(unix_ts), s) || s == bare
}

/// The notation of a time in the machine's time zone.
pub fn format_timestamp(unix_ts: u64) -> (r: String)
    ensures
        is_time_text(unix_ts, r@),
{
    let seconds: i64 = if unix_ts <= i64::MAX as u64 {
        unix_ts as i64
    } else {
        -((u64::MAX - unix_ts) as i64) - 1
    };
    timestamp_text(unix_ts, local_time(seconds))
}

// ---------------------------------------------------------------------------
// The table
// ---------------------------------------------------------------------------

/// The model file's name; one that was never noted is from before names were.
pub open spec fn model_name(m: FaceModelInfo<Seq<char>>) -> Seq<char> {
    if m.embedder_model.len() == 0 {
        "(legacy)"@
    } else {
        m.embedder_model
    }
}

/// The camera that a model is bound to, or that it fits any.
pub open spec fn camera_name(m: FaceModelInfo<Seq<char>>) -> Seq<char> {
    match m.device_id {
        Some(id) if id.len() > 0 => id,
        _ => "(any)"@,
    }
}

/// The line of a model.
pub open spec fn model_line(m: FaceModelInfo<Seq<char>>, created: Seq<char>) -> Seq<char> {
    table_row(
        crate::text::decimal(m.id as nat),
        m.label,
        created,
        model_name(m),
        camera_name(m),
    )
}

/// The listing for people, line by line. `created` holds the notation of the
/// time of each model.
pub open spec fn table(
    user: Seq<char>,
    models: Seq<FaceModelInfo<Seq<char>>>,
    created: Seq<Seq<char>>,
) -> Seq<Seq<char>> {
    if models.len() == 0 {
        seq!["No face models enrolled for user '"@ + user + "'."@]
    } else {
        seq![
            "Face models for user '"@ + user + "':\n"@,
            table_row("ID"@, "Label"@, "Created"@, "Model"@, "Camera"@),
            "  "@ + repeated('-', 92),
        ] + Seq::new(models.len(), |i: int| model_line(models[i], created[i])) + seq![
            "\n  Total: "@ + crate::text::decimal(models.len()) + " model(s)"@,
        ]
    }
}

fn model_line_of(m: &FaceModelInfo, created: &str) -> (r: String)
    ensures
        r@ == model_line(m@, created@),
{
    proof {
        reveal_strlit("");
    }
    assert(m.embedder_model@.len() == 0 ==> m.embedder_model@ =~= ""@);
    let name = if same(m.embedder_model.as_str(), "") {
        "(legacy)"
    } else {
        m.embedder_model.as_str()
    };
    let camera = match &m.device_id {
        Some(id) => {
            assert(id@.len() == 0 ==> id@ =~= ""@);
            if same(id.as_str(), "") {
                "(any)"
            } else {
                id.as_str()
            }
        },
        None => "(any)",
    };
    row_of(decimal_of(m.id as u64).as_str(), m.label.as_str(), created, name, camera)
}

/// The listing for people, given the notation of the time of each model.
pub fn table_lines(user: &str, models: &Vec<FaceModelInfo>, created: &Vec<String>) -> (r: Vec<
    String,
>)
    requires
        created.len() == models.len(),
    ensures
        crate::text::texts(r@) == table(
            user@,
            crate::ipc_client::models_view(models@),
            crate::text::texts(created@),
        ),
{
    let ghost all = crate::ipc_client::models_view(models@);
    let ghost times = crate::text::texts(created@);
    let mut lines: Vec<String> = Vec::new();
    if models.len() == 0 {
        let mut line = String::from_str("No face models enrolled for user '");
        line.append(user);
        line.append("'.");
        lines.push(line);
        assert(crate::text::texts(lines@) =~= table(user@, all, times));
        return lines;
    }
    let mut title = String::from_str("Face models for user '");
    title.append(user);
    title.append("':\n");
    lines.push(title);
    lines.push(row_of("ID", "Label", "Created", "Model", "Camera"));
    let mut rule = String::from_str("  ");
    rule.append(repeat('-', 92).as_str());
    lines.push(rule);
    let ghost top = crate::text::texts(lines@);
    let mut i: usize = 0;
    assert(top =~= top + Seq::new(0, |j: int| model_line(all[j], times[j])));
    while i < models.len()
        invariant
            i <= models.len(),
            created.len() == models.len(),
            all == crate::ipc_client::models_view(models@),
            times == crate::text::texts(created@),
            crate::text::texts(lines@) == top + Seq::new(
                i as nat,
                |j: int| model_line(all[j], times[j]),
            ),
        decreases models.len() - i,
    {
        let ghost before = crate::text::texts(lines@);
        lines.push(model_line_of(&models[i], created[i].as_str()));
        assert(crate::text::texts(lines@) =~= before.push(
            model_line(all[i as int], times[i as int]),
        ));
        i += 1;
        assert(crate::text::texts(lines@) =~= top + Seq::new(
            i as nat,
            |j: int| model_line(all[j], times[j]),
        ));
    }
    let ghost body = crate::text::texts(lines@);
    let mut total = String::from_str("\n  Total: ");
    total.append(decimal_of(models.len() as u64).as_str());
    total.append(" model(s)");
    lines.push(total);
    assert(crate::text::texts(lines@) =~= body + seq![total@]);
    assert(crate::text::texts(lines@) =~= table(user@, all, times));
    lines
}

/// The listing for people, with the times in the machine's time zone.
pub fn print_table(user: &str, models: &Vec<FaceModelInfo>) -> (r: Vec<String>)
    ensures
        exists|created: Seq<Seq<char>>|
            {
                &&& created.len() == models.len()
                &&& forall|i: int|
                    0 <= i < models.len() ==> is_time_text(
                        models[i].created_at,
                        #[trigger] created[i],
                    )
                &&& crate::text::texts(r@) == #[trigger] table(
                    user@,
                    crate::ipc_client::models_view(models@),
                    created,
                )
            },
{
    let mut created: Vec<String> = Vec::new();
    let mut i: usize = 0;
    while i < models.len()
        invariant
            i <= models.len(),
            created.len() == i,
            forall|j: int|
                0 <= j < i ==> is_time_text(models[j].created_at, (#[trigger] created[j])@),
        decreases models.len() - i,
    {
        created.push(format_timestamp(models[i].created_at));
        i += 1;
    }
    let ghost times = crate::text::texts(created@);
    assert forall|j: int| 0 <= j < models.len() implies is_time_text(
        models[j].created_at,
        #[trigger] times[j],
    ) by {
        assert(times[j] == created[j]@);
    }
    table_lines(user, models, &created)
}

// ---------------------------------------------------------------------------
// The document
// ---------------------------------------------------------------------------

/// A model as the document has it. A model that fits any camera has the empty
/// device.
pub open spec fn model_document(m: FaceModelInfo<Seq<char>>) -> Json {
    Json::Record(
        Map::empty().insert("id"@, Json::Number(crate::text::decimal(m.id as nat))).insert(
            "label"@,
            Json::Text(m.label),
        ).insert("user"@, Json::Text(m.user)).insert(
            "created_at"@,
            Json::Number(crate::text::decimal(m.created_at as nat)),
        ).insert("embedder_model"@, Json::Text(m.embedder_model)).insert(
            "device_id"@,
            Json::Text(
                match m.device_id {
                    Some(id) => id,
                    None => ""@,
                },
            ),
        ),
    )
}

fn model_value(m: &FaceModelInfo) -> (r: serde_json::Value)
    ensures
        crate::json::json_of(r) == model_document(m@),
{
    let device_id = match &m.device_id {
        Some(id) => id.as_str(),
        None => "",
    };
    let mut value = record();
    put(&mut value, "id", number(m.id as u64));
    put(&mut value, "label", text(m.label.as_str()));
    put(&mut value, "user", text(m.user.as_str()));
    put(&mut value, "created_at", number(m.created_at));
    put(&mut value, "embedder_model", text(m.embedder_model.as_str()));
    put(&mut value, "device_id", text(device_id));
    value
}

/// The listing as a JSON document.
pub fn list_json(models: &[FaceModelInfo]) -> (r: String)
    ensures
        r@ == crate::json::rendered(
            Json::List(
                crate::ipc_client::models_view(models@).map_values(
                    |m: FaceModelInfo<Seq<char>>| model_document(m),
                ),
            ),
        ),
{
    let mut values: Vec<serde_json::Value> = Vec::new();
    let mut i: usize = 0;
    while i < models.len()
        invariant
            i <= models.len(),
            values.len() == i,
            forall|j: int|
                0 <= j < i ==> crate::json::json_of(#[trigger] values[j]) == model_document(
                    models[j]@,
                ),
        decreases models.len() - i,
    {
        values.push(model_value(&models[i]));
        i += 1;
    }
    assert(crate::json::json_list(values@) =~= crate::ipc_client::models_view(models@).map_values(
        |m: FaceModelInfo<Seq<char>>| model_document(m),
    ));
    render(&list(values))
}

// ---------------------------------------------------------------------------
// Laws
// ---------------------------------------------------------------------------

/// Everything that is listed of a model stands in its row as it is, in the order
/// of the columns; a column is never cut, and ends at its width where there is
/// room.
pub proof fn law_rows_hold_their_columns_in_order(
    id: Seq<char>,
    label: Seq<char>,
    created: Seq<char>,
    model: Seq<char>,
    camera: Seq<char>,
)
    ensures
        exists|a: Seq<char>, b: Seq<char>, c: Seq<char>, d: Seq<char>|
            {
                &&& #[trigger] table_row(id, label, created, model, camera) == "  "@ + (id + a)
                    + " "@ + (label + b) + " "@ + (created + c) + " "@ + (model + d) + " "@ + camera
                &&& #[trigger] blank(a) && #[trigger] blank(b) && #[trigger] blank(c)
                    && #[trigger] blank(d)
                &&& (id + a).len() >= 6 && (label + b).len() >= 20 && (created + c).len() >= 24 && (
                model + d).len() >= 22
            },
{
    let a = filler(id, 6);
    let b = filler(label, 20);
    let c = filler(created, 24);
    let d = filler(model, 22);
    assert(padded(id, 6) =~= id + a);
    assert(padded(label, 20) =~= label + b);
    assert(padded(created, 24) =~= created + c);
    assert(padded(model, 22) =~= model + d);
    assert(blank(a) && blank(b) && blank(c) && blank(d));
}

/// Whether a text is of blanks alone.
pub open spec fn blank(s: Seq<char>) -> bool {
    forall|k: int| 0 <= k < s.len() ==> #[trigger] s[k] == ' '
}

spec fn filler(s: Seq<char>, width: nat) -> Seq<char> {
    if s.len() < width {
        Seq::new((width - s.len()) as nat, |i: int| ' ')
    } else {
        Seq::empty()
    }
}

/// The listing has a line for each model, in order, between a head of three lines
/// and the total; a user without models is told so in one line.
pub proof fn law_every_model_has_its_line(
    user: Seq<char>,
    models: Seq<FaceModelInfo<Seq<char>>>,
    created: Seq<Seq<char>>,
    i: int,
)
    ensures
        models.len() == 0 ==> table(user, models, created) == seq![
            "No face models enrolled for user '"@ + user + "'."@,
        ],
        models.len() > 0 ==> table(user, models, created).len() == models.len() + 4,
        0 <= i < models.len() ==> table(user, models, created)[3 + i] == table_row(
            crate::text::decimal(models[i].id as nat),
            models[i].label,
            created[i],
            if models[i].embedder_model.len() > 0 {
                models[i].embedder_model
            } else {
                "(legacy)"@
            },
            if models[i].device_id is Some && models[i].device_id->0.len() > 0 {
                models[i].device_id->0
            } else {
                "(any)"@
            },
        ),
        models.len() > 0 ==> table(user, models, created)[0] == "Face models for user '"@ + user
            + "':\n"@ && table(user, models, created).last() == "\n  Total: "@
            + crate::text::decimal(models.len()) + " model(s)"@,
{
}

/// A model's entry in the document has what the model has, field by field; a model
/// that fits any camera has the empty device.
pub proof fn law_the_document_tells_of_the_model(m: FaceModelInfo<Seq<char>>)
    ensures
        model_document(m) matches Json::Record(fields) && {
            &&& fields["id"@] == Json::Number(crate::text::decimal(m.id as nat))
            &&& fields["label"@] == Json::Text(m.label)
            &&& fields["user"@] == Json::Text(m.user)
            &&& fields["created_at"@] == Json::Number(crate::text::decimal(m.created_at as nat))
            &&& fields["embedder_model"@] == Json::Text(m.embedder_model)
            &&& fields["device_id"@] == Json::Text(
                if m.device_id is Some {
                    m.device_id->0
                } else {
                    ""@
                },
            )
        },
{
    reveal_strlit("id");
    reveal_strlit("label");
    reveal_strlit("user");
    reveal_strlit("created_at");
    reveal_strlit("embedder_model");
    reveal_strlit("device_id");
    assert("id"@.len() == 2 && "label"@.len() == 5 && "user"@.len() == 4 && "created_at"@.len()
        == 10 && "embedder_model"@.len() == 14 && "device_id"@.len() == 9);
}

/// A second that the calendar has is shown as the calendar has it, and any other as
/// its number.
pub proof fn law_a_time_is_shown_or_numbered(unix_ts: u64, shown: Seq<char>)
    ensures
        time_text(unix_ts, Some(shown)) == shown,
        time_text(unix_ts, None) == crate::text::decimal(unix_ts as nat),
{
}

/// A number of seconds stands for itself up to the largest signed one, and beyond
/// that for as many seconds before the epoch as it falls short of wrapping round.
pub proof fn law_seconds_wrap_round(unix_ts: u64)
    ensures
        unix_ts <= 0x7fff_ffff_ffff_ffff ==> second_of(unix_ts) == unix_ts,
        unix_ts > 0x7fff_ffff_ffff_ffff ==> second_of(unix_ts) < 0 && second_of(unix_ts) + u64::MAX
            + 1 == unix_ts,
{
}

} // verus!
