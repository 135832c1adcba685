//! The preview as text: one JSON document per frame.

use crate::json::{bool_at, list, number, put, record, Json};
use crate::message::FaceMessage;
use vstd::prelude::*;
use vstd::string::*;

verus! {

// ---------------------------------------------------------------------------
// The templates to compare with
// ---------------------------------------------------------------------------

/// What came of opening the store without creating it.
#[derive(Debug, Clone, Copy, PartialEq, Eq, Structural)]
pub enum StoreOpened {
    Opened,
    /// There is no database: nobody was ever enrolled.
    Absent,
    /// There is one, and it cannot be read.
    Unreadable,
}

/// What standard error is told where nobody was ever enrolled.
pub fn no_templates_notice(user: &str) -> (r: FaceMessage)
    ensures
        r@ == (FaceMessage::NoModelsEnrolled { user: user@ }),
{
    FaceMessage::NoModelsEnrolled { user: String::from_str(user) }
}

// ---------------------------------------------------------------------------
// The course of a preview
// ---------------------------------------------------------------------------

/// Who takes the frames.
#[derive(Debug, Clone, Copy, PartialEq, Eq, Structural)]
pub enum FramesFrom {
    Daemon,
    /// A camera that this process opens.
    OwnCamera,
}

/// What the preview does next.
#[derive(Debug, Clone, Copy, PartialEq, Eq, Structural)]
pub enum PreviewWork {
    OpenCamera,
    LoadEngine,
    /// Opens the store without creating it.
    OpenStore,
    LoadTemplates,
    /// Tells standard error that nobody is enrolled.
    TellNoTemplates,
    /// Takes a frame, unless the person has interrupted; so many were taken.
    Capture { taken: u64 },
    /// Writes the document of the frame with this number.
    Print { frame: u64 },
    /// Tells standard error why there was no frame.
    TellFailure,
    /// Has the daemon let go of its camera, whatever comes of it.
    ReleaseCamera,
    Finished,
    /// The failure of the last piece of work is the preview's.
    Failed,
}

/// What came of a piece of work.
#[derive(Debug, Clone, Copy, PartialEq, Eq, Structural)]
pub enum PreviewEvent {
    Done,
    Failed,
    Interrupted,
    Store { opened: StoreOpened },
}

/// What a preview starts with.
pub open spec fn first_work(from: FramesFrom) -> PreviewWork {
    match from {
        FramesFrom::Daemon => PreviewWork::Capture { taken: 0 },
        FramesFrom::OwnCamera => PreviewWork::OpenCamera,
    }
}

/// What a preview without another frame ends with.
pub open spec fn last_work(from: FramesFrom) -> PreviewWork {
    match from {
        FramesFrom::Daemon => PreviewWork::ReleaseCamera,
        FramesFrom::OwnCamera => PreviewWork::Finished,
    }
}

/// What follows a piece of work. A failure of this process's camera to take one
/// frame is no end: the next frame may come.
pub open spec fn work_after(from: FramesFrom, work: PreviewWork, event: PreviewEvent) -> PreviewWork {
    let done = event == PreviewEvent::Done;
    match work {
        PreviewWork::OpenCamera => if done {
            PreviewWork::LoadEngine
        } else {
            PreviewWork::Failed
        },
        PreviewWork::LoadEngine => if done {
            PreviewWork::OpenStore
        } else {
            PreviewWork::Failed
        },
        PreviewWork::OpenStore => match event {
            PreviewEvent::Store { opened: StoreOpened::Opened } => PreviewWork::LoadTemplates,
            PreviewEvent::Store { opened: StoreOpened::Absent } => PreviewWork::TellNoTemplates,
            _ => PreviewWork::Failed,
        },
        PreviewWork::LoadTemplates => if done {
            PreviewWork::Capture { taken: 0 }
        } else {
            PreviewWork::Failed
        },
        PreviewWork::TellNoTemplates => PreviewWork::Capture { taken: 0 },
        PreviewWork::Capture { taken } => if done {
            PreviewWork::Print { frame: (taken + 1) as u64 }
        } else if event == PreviewEvent::Interrupted {
            last_work(from)
        } else {
            match from {
                FramesFrom::Daemon => PreviewWork::TellFailure,
                FramesFrom::OwnCamera => work,
            }
        },
        PreviewWork::Print { frame } => if done {
            PreviewWork::Capture { taken: frame }
        } else {
            last_work(from)
        },
        PreviewWork::TellFailure => last_work(from),
        PreviewWork::ReleaseCamera => PreviewWork::Finished,
        PreviewWork::Finished => PreviewWork::Finished,
        PreviewWork::Failed => PreviewWork::Failed,
    }
}

/// What a preview starts with.
pub fn first_of(from: FramesFrom) -> (r: PreviewWork)
    ensures
        r == first_work(from),
{
    match from {
        FramesFrom::Daemon => PreviewWork::Capture { taken: 0 },
        FramesFrom::OwnCamera => PreviewWork::OpenCamera,
    }
}

fn last_of(from: FramesFrom) -> (r: PreviewWork)
    ensures
        r == last_work(from),
{
    match from {
        FramesFrom::Daemon => PreviewWork::ReleaseCamera,
        FramesFrom::OwnCamera => PreviewWork::Finished,
    }
}

/// What follows a piece of work.
pub fn next_of(from: FramesFrom, work: PreviewWork, event: PreviewEvent) -> (r: PreviewWork)
    requires
        work matches PreviewWork::Capture { taken } ==> taken < u64::MAX,
    ensures
        r == work_after(from, work, event),
{
    let done: bool = event == PreviewEvent::Done;
    match work {
        PreviewWork::OpenCamera if done => PreviewWork::LoadEngine,
        PreviewWork::LoadEngine if done => PreviewWork::OpenStore,
        PreviewWork::OpenStore => match event {
            PreviewEvent::Store { opened: StoreOpened::Opened } => PreviewWork::LoadTemplates,
            PreviewEvent::Store { opened: StoreOpened::Absent } => PreviewWork::TellNoTemplates,
            _ => PreviewWork::Failed,
        },
        PreviewWork::LoadTemplates if done => PreviewWork::Capture { taken: 0 },
        PreviewWork::TellNoTemplates => PreviewWork::Capture { taken: 0 },
        PreviewWork::Capture { taken } => match event {
            PreviewEvent::Done => PreviewWork::Print { frame: taken + 1 },
            PreviewEvent::Interrupted => last_of(from),
            _ => match from {
                FramesFrom::Daemon => PreviewWork::TellFailure,
                FramesFrom::OwnCamera => work,
            },
        },
        PreviewWork::Print { frame } if done => PreviewWork::Capture { taken: frame },
        PreviewWork::Print { .. } => last_of(from),
        PreviewWork::TellFailure => last_of(from),
        PreviewWork::ReleaseCamera => PreviewWork::Finished,
        PreviewWork::Finished => PreviewWork::Finished,
        _ => PreviewWork::Failed,
    }
}

/// What a preview has come to after these events.
pub open spec fn reached(from: FramesFrom, events: Seq<PreviewEvent>) -> PreviewWork
    decreases events.len(),
{
    if events.len() == 0 {
        first_work(from)
    } else {
        work_after(from, reached(from, events.drop_last()), events.last())
    }
}

/// The numbers of the frames that were handed to be written, in order.
pub open spec fn numbers(from: FramesFrom, events: Seq<PreviewEvent>) -> Seq<u64>
    decreases events.len(),
{
    if events.len() == 0 {
        Seq::empty()
    } else {
        let before = numbers(from, events.drop_last());
        match reached(from, events) {
            PreviewWork::Print { frame } => before.push(frame),
            _ => before,
        }
    }
}

// ---------------------------------------------------------------------------
// The frame's document
// ---------------------------------------------------------------------------

/// Whether a face's row says that it was recognized.
pub open spec fn is_recognized(face: Json) -> bool {
    crate::json::bool_under(face, "recognized"@) == Some(true)
}

/// How many of the rows say that the face was recognized.
pub open spec fn recognized_in(faces: Seq<Json>) -> nat
    decreases faces.len(),
{
    if faces.len() == 0 {
        0
    } else {
        recognized_in(faces.drop_last()) + (if is_recognized(faces.last()) {
            1nat
        } else {
            0nat
        })
    }
}

/// A number as a document holds it.
pub open spec fn json_number(n: nat) -> Json {
    Json::Number(crate::text::decimal(n))
}

/// The fields that every frame has.
pub open spec fn frame_fields(
    frame: u64,
    fps: Json,
    width: u32,
    height: u32,
    faces: Seq<Json>,
) -> Map<Seq<char>, Json> {
    Map::empty().insert("frame"@, json_number(frame as nat)).insert("fps"@, fps).insert(
        "width"@,
        json_number(width as nat),
    ).insert("height"@, json_number(height as nat)).insert(
        "recognized"@,
        json_number(recognized_in(faces)),
    ).insert(
        "unrecognized"@,
        json_number((faces.len() - recognized_in(faces)) as nat),
    ).insert("faces"@, Json::List(faces))
}

/// The document of a frame. Only a frame from the daemon has a picture to
/// measure.
pub open spec fn frame_document(
    frame: u64,
    fps: Json,
    jpeg_size: Option<usize>,
    width: u32,
    height: u32,
    faces: Seq<Json>,
) -> Json {
    let fields = frame_fields(frame, fps, width, height, faces);
    match jpeg_size {
        Some(bytes) => Json::Record(fields.insert("jpeg_size"@, json_number(bytes as nat))),
        None => Json::Record(fields),
    }
}

fn recognized_count(faces: &Vec<serde_json::Value>) -> (r: usize)
    ensures
        r == recognized_in(crate::json::json_list(faces@)),
        r <= faces.len(),
{
    let ghost all = crate::json::json_list(faces@);
    let mut count: usize = 0;
    let mut i: usize = 0;
    while i < faces.len()
        invariant
            i <= faces.len(),
            count <= i,
            all == crate::json::json_list(faces@),
            count == recognized_in(all.take(i as int)),
        decreases faces.len() - i,
    {
        assert(all.take(i as int + 1).drop_last() =~= all.take(i as int));
        if let Some(true) = bool_at(&faces[i], "recognized") {
            count += 1;
        }
        i += 1;
    }
    assert(all.take(faces.len() as int) =~= all);
    count
}

/// The document of a frame. The counts are read off the faces' rows, so they
/// cannot disagree with them.
pub fn frame_json(
    frame: u64,
    fps: serde_json::Value,
    jpeg_size: Option<usize>,
    width: u32,
    height: u32,
    faces: Vec<serde_json::Value>,
) -> (r: serde_json::Value)
    ensures
        crate::json::json_of(r) == frame_document(
            frame,
            crate::json::json_of(fps),
            jpeg_size,
            width,
            height,
            crate::json::json_list(faces@),
        ),
{
    let recognized: usize = recognized_count(&faces);
    let unrecognized: usize = faces.len() - recognized;
    let mut output = record();
    put(&mut output, "frame", number(frame));
    put(&mut output, "fps", fps);
    put(&mut output, "width", number(width as u64));
    put(&mut output, "height", number(height as u64));
    put(&mut output, "recognized", number(recognized as u64));
    put(&mut output, "unrecognized", number(unrecognized as u64));
    put(&mut output, "faces", list(faces));
    if let Some(bytes) = jpeg_size {
        put(&mut output, "jpeg_size", number(bytes as u64));
    }
    output
}

// ---------------------------------------------------------------------------
// The picture's size
// ---------------------------------------------------------------------------

/// The width and height that `image` reads from the head of a picture; none
/// where it cannot.
pub uninterp spec fn picture_size(data: Seq<u8>) -> Option<(u32, u32)>;

/// `image::guess_format` on the bytes, then `into_dimensions` of an
/// `image::ImageReader` of that format. None where either fails. Both go by the
/// bytes alone: the format is one of the built-in ones. The JPEG decoder counts
/// the bytes that it skips in 31 bits, so the picture may have no more.
#[verifier::external_body]
fn read_picture_size(data: &[u8]) -> (r: Option<(u32, u32)>)
    requires
        data@.len() <= i32::MAX,
    ensures
        r == picture_size(data@),
{
    match image::guess_format(data) {
        Ok(format) => image::ImageReader::with_format(std::io::Cursor::new(data), format)
            .into_dimensions()
            .ok(),
        Err(_) => None,
    }
}

/// A size, or nothing by nothing.
pub open spec fn or_zero(size: Option<(u32, u32)>) -> (u32, u32) {
    match size {
        Some(pair) => pair,
        None => (0, 0),
    }
}

/// A size, or nothing by nothing.
pub fn size_or_zero(size: Option<(u32, u32)>) -> (r: (u32, u32))
    ensures
        r == or_zero(size),
{
    match size {
        Some(pair) => pair,
        None => (0, 0),
    }
}

/// The width and height of a picture; nothing by nothing for what is none.
pub fn jpeg_dimensions(data: &[u8]) -> (r: (u32, u32))
    requires
        data@.len() <= i32::MAX,
    ensures
        r == or_zero(picture_size(data@)),
{
    size_or_zero(read_picture_size(data))
}

// ---------------------------------------------------------------------------
// Laws
// ---------------------------------------------------------------------------

/// The frames that are written are numbered from one on without a gap: a frame
/// that could not be taken has no number.
pub proof fn law_lines_are_numbered_from_one(from: FramesFrom, events: Seq<PreviewEvent>)
    requires
        events.len() < u64::MAX,
    ensures
        forall|i: int|
            0 <= i < numbers(from, events).len() ==> #[trigger] numbers(from, events)[i] == i + 1,
{
    lemma_numbers(from, events);
}

proof fn lemma_numbers(from: FramesFrom, events: Seq<PreviewEvent>)
    requires
        events.len() < u64::MAX,
    ensures
        numbers(from, events).len() <= events.len(),
        forall|i: int|
            0 <= i < numbers(from, events).len() ==> #[trigger] numbers(from, events)[i] == i + 1,
        reached(from, events) matches PreviewWork::Capture { taken } ==> taken == numbers(
            from,
            events,
        ).len(),
        reached(from, events) matches PreviewWork::Print { frame } ==> frame == numbers(
            from,
            events,
        ).len(),
        !(reached(from, events) is Capture || reached(from, events) is Print || reached(
            from,
            events,
        ) is TellFailure || reached(from, events) is ReleaseCamera || reached(
            from,
            events,
        ) is Finished || reached(from, events) is Failed) ==> numbers(from, events).len() == 0,
    decreases events.len(),
{
    if events.len() > 0 {
        lemma_numbers(from, events.drop_last());
    }
}

/// A frame that was taken is written under the next number, and the next one is
/// taken after it; a frame that could not be taken is no end for this process's
/// camera, and is told of and the end for the daemon's; an interruption is the end
/// for both, and so is a document that could not be written.
pub proof fn law_frames_are_taken_and_written_in_turn(from: FramesFrom, n: u64)
    requires
        n < u64::MAX,
    ensures
        work_after(from, PreviewWork::Capture { taken: n }, PreviewEvent::Done) == (
        PreviewWork::Print { frame: (n + 1) as u64 }),
        work_after(from, PreviewWork::Print { frame: n }, PreviewEvent::Done) == (
        PreviewWork::Capture { taken: n }),
        work_after(
            FramesFrom::OwnCamera,
            PreviewWork::Capture { taken: n },
            PreviewEvent::Failed,
        ) == (PreviewWork::Capture { taken: n }),
        work_after(FramesFrom::Daemon, PreviewWork::Capture { taken: n }, PreviewEvent::Failed)
            is TellFailure,
        work_after(FramesFrom::Daemon, PreviewWork::TellFailure, PreviewEvent::Done)
            is ReleaseCamera,
        work_after(FramesFrom::Daemon, PreviewWork::Capture { taken: n }, PreviewEvent::Interrupted)
            is ReleaseCamera,
        work_after(
            FramesFrom::OwnCamera,
            PreviewWork::Capture { taken: n },
            PreviewEvent::Interrupted,
        ) is Finished,
        work_after(FramesFrom::Daemon, PreviewWork::Print { frame: n }, PreviewEvent::Failed)
            is ReleaseCamera,
        work_after(FramesFrom::OwnCamera, PreviewWork::Print { frame: n }, PreviewEvent::Failed)
            is Finished,
{
}

/// The daemon's frames need no preparation. This process opens its camera, loads
/// the engine, and reads the templates; without a database it says so and goes on;
/// and any of these failing, or a database that cannot be read, is its end.
pub proof fn law_preparation_goes_well_or_fails(event: PreviewEvent)
    ensures
        reached(FramesFrom::Daemon, Seq::empty()) == (PreviewWork::Capture { taken: 0 }),
        ({
            let own = FramesFrom::OwnCamera;
            let done = PreviewEvent::Done;
            let opened = PreviewEvent::Store { opened: StoreOpened::Opened };
            let absent = PreviewEvent::Store { opened: StoreOpened::Absent };
            &&& reached(own, Seq::empty()) is OpenCamera
            &&& reached(own, seq![done]) is LoadEngine
            &&& reached(own, seq![done, done]) is OpenStore
            &&& reached(own, seq![done, done, opened]) is LoadTemplates
            &&& reached(own, seq![done, done, opened, done]) == (PreviewWork::Capture { taken: 0 })
            &&& reached(own, seq![done, done, absent]) is TellNoTemplates
            &&& reached(own, seq![done, done, absent, event]) == (PreviewWork::Capture { taken: 0 })
            &&& event != done ==> reached(own, seq![event]) is Failed && reached(
                own,
                seq![done, event],
            ) is Failed && reached(own, seq![done, done, opened, event]) is Failed
            &&& event != opened && event != absent ==> reached(own, seq![done, done, event])
                is Failed
        }),
{
    let own = FramesFrom::OwnCamera;
    let done = PreviewEvent::Done;
    let opened = PreviewEvent::Store { opened: StoreOpened::Opened };
    let absent = PreviewEvent::Store { opened: StoreOpened::Absent };
    let none = Seq::<PreviewEvent>::empty();
    lemma_reached_push(own, none, done);
    lemma_reached_push(own, none, event);
    lemma_reached_push(own, seq![done], done);
    lemma_reached_push(own, seq![done], event);
    lemma_reached_push(own, seq![done, done], opened);
    lemma_reached_push(own, seq![done, done], absent);
    lemma_reached_push(own, seq![done, done], event);
    lemma_reached_push(own, seq![done, done, opened], done);
    lemma_reached_push(own, seq![done, done, opened], event);
    lemma_reached_push(own, seq![done, done, absent], event);
    assert(none.push(done) =~= seq![done]);
    assert(none.push(event) =~= seq![event]);
    assert(seq![done].push(done) =~= seq![done, done]);
    assert(seq![done].push(event) =~= seq![done, event]);
    assert(seq![done, done].push(opened) =~= seq![done, done, opened]);
    assert(seq![done, done].push(absent) =~= seq![done, done, absent]);
    assert(seq![done, done].push(event) =~= seq![done, done, event]);
    assert(seq![done, done, opened].push(done) =~= seq![done, done, opened, done]);
    assert(seq![done, done, opened].push(event) =~= seq![done, done, opened, event]);
    assert(seq![done, done, absent].push(event) =~= seq![done, done, absent, event]);
}

proof fn lemma_reached_push(from: FramesFrom, events: Seq<PreviewEvent>, event: PreviewEvent)
    ensures
        reached(from, events.push(event)) == work_after(from, reached(from, events), event),
{
    assert(events.push(event).drop_last() =~= events);
}

/// A frame's document has its number, its size, its faces, and how many of them
/// were recognized and how many were not.
pub proof fn law_the_document_tells_of_the_frame(
    frame: u64,
    fps: Json,
    jpeg_size: Option<usize>,
    width: u32,
    height: u32,
    faces: Seq<Json>,
)
    ensures
        frame_document(frame, fps, jpeg_size, width, height, faces) matches Json::Record(fields)
            && {
            &&& fields["frame"@] == Json::Number(crate::text::decimal(frame as nat))
            &&& fields["fps"@] == fps
            &&& fields["width"@] == Json::Number(crate::text::decimal(width as nat))
            &&& fields["height"@] == Json::Number(crate::text::decimal(height as nat))
            &&& fields["recognized"@] == Json::Number(crate::text::decimal(recognized_in(faces)))
            &&& fields["unrecognized"@] == Json::Number(
                crate::text::decimal((faces.len() - recognized_in(faces)) as nat),
            )
            &&& fields["faces"@] == Json::List(faces)
        },
{
    reveal_strlit("jpeg_size");
    reveal_strlit("frame");
    reveal_strlit("fps");
    reveal_strlit("width");
    reveal_strlit("height");
    reveal_strlit("recognized");
    reveal_strlit("unrecognized");
    reveal_strlit("faces");
    assert("jpeg_size"@.len() == 9 && "frame"@.len() == 5 && "fps"@.len() == 3 && "width"@.len()
        == 5 && "height"@.len() == 6 && "recognized"@.len() == 10 && "unrecognized"@.len() == 12
        && "faces"@.len() == 5);
    assert("frame"@[1] == 'r' && "width"@[0] == 'w' && "faces"@[1] == 'a' && "frame"@[0] == 'f'
        && "faces"@[0] == 'f');
}

/// A face counts as recognized exactly if its row says so, wherever it stands.
pub proof fn law_each_recognized_face_counts_once(faces: Seq<Json>, face: Json, more: Seq<Json>)
    ensures
        recognized_in(faces.push(face)) == recognized_in(faces) + (if crate::json::bool_under(
            face,
            "recognized"@,
        ) == Some(true) {
            1int
        } else {
            0int
        }),
        recognized_in(Seq::empty()) == 0,
        recognized_in(faces + more) == recognized_in(faces) + recognized_in(more),
    decreases more.len(),
{
    assert(faces.push(face).drop_last() =~= faces);
    if more.len() == 0 {
        assert(faces + more =~= faces);
    } else {
        law_each_recognized_face_counts_once(faces, face, more.drop_last());
        assert((faces + more).drop_last() =~= faces + more.drop_last());
        assert((faces + more).last() == more.last());
    }
}

/// A picture's size is the one that was read, and one that could not be read is
/// nothing by nothing.
pub proof fn law_a_size_that_was_read_stands(size: (u32, u32))
    ensures
        or_zero(Some(size)) == size,
        or_zero(None) == (0u32, 0u32),
{
}

/// A preview of the daemon's frames ends with the daemon's camera let go, and
/// never fails as a whole.
pub proof fn law_the_daemons_camera_is_let_go(events: Seq<PreviewEvent>)
    ensures
        !(reached(FramesFrom::Daemon, events) is Failed),
        reached(FramesFrom::Daemon, events) is Finished ==> exists|n: int|
            0 <= n < events.len() && #[trigger] reached(FramesFrom::Daemon, events.take(n))
                is ReleaseCamera,
    decreases events.len(),
{
    if events.len() > 0 {
        let before = events.drop_last();
        law_the_daemons_camera_is_let_go(before);
        assert(events.take(before.len() as int) =~= before);
        if reached(FramesFrom::Daemon, before) is Finished {
            let n = choose|n: int|
                0 <= n < before.len() && #[trigger] reached(FramesFrom::Daemon, before.take(n))
                    is ReleaseCamera;
            assert(events.take(n) =~= before.take(n));
        }
        lemma_daemon_work(before);
    }
}

proof fn lemma_daemon_work(events: Seq<PreviewEvent>)
    ensures
        match reached(FramesFrom::Daemon, events) {
            PreviewWork::Capture { .. } => true,
            PreviewWork::Print { .. } => true,
            PreviewWork::TellFailure => true,
            PreviewWork::ReleaseCamera => true,
            PreviewWork::Finished => true,
            _ => false,
        },
    decreases events.len(),
{
    if events.len() > 0 {
        lemma_daemon_work(events.drop_last());
    }
}

/// This process's camera shows no frame before it is open, the engine is loaded
/// and the templates are there or known to be absent.
pub proof fn law_preparation_comes_before_the_first_frame(events: Seq<PreviewEvent>)
    requires
        reached(FramesFrom::OwnCamera, events) is Capture || reached(FramesFrom::OwnCamera, events)
            is Print,
    ensures
        events.len() >= 4,
        events[0] == PreviewEvent::Done,
        events[1] == PreviewEvent::Done,
        events[2] == (PreviewEvent::Store { opened: StoreOpened::Opened }) && events[3]
            == PreviewEvent::Done || events[2] == (PreviewEvent::Store {
            opened: StoreOpened::Absent,
        }),
    decreases events.len(),
{
    reveal_with_fuel(reached, 5);
    if events.len() > 4 {
        let before = events.drop_last();
        assert forall|i: int| 0 <= i < before.len() implies before[i] == events[i] by {}
        let held = reached(FramesFrom::OwnCamera, before);
        lemma_prepared(before);
        if held is Capture || held is Print {
            law_preparation_comes_before_the_first_frame(before);
        }
    }
}

proof fn lemma_prepared(events: Seq<PreviewEvent>)
    requires
        events.len() >= 4,
    ensures
        match reached(FramesFrom::OwnCamera, events) {
            PreviewWork::Capture { .. } => true,
            PreviewWork::Print { .. } => true,
            PreviewWork::Finished => true,
            PreviewWork::Failed => true,
            _ => false,
        },
    decreases events.len(),
{
    reveal_with_fuel(reached, 5);
    if events.len() > 4 {
        lemma_prepared(events.drop_last());
    }
}

proof fn lemma_recognized_bound(faces: Seq<Json>)
    ensures
        recognized_in(faces) <= faces.len(),
    decreases faces.len(),
{
    if faces.len() > 0 {
        lemma_recognized_bound(faces.drop_last());
    }
}

/// The two counts of a frame add up to its faces.
pub proof fn law_counts_cover_the_faces(faces: Seq<Json>)
    ensures
        recognized_in(faces) <= faces.len(),
        recognized_in(faces) + (faces.len() - recognized_in(faces)) as nat == faces.len(),
{
    lemma_recognized_bound(faces);
}

/// A frame without a picture has every field of one with a picture, but for the
/// picture's size.
pub proof fn law_only_the_size_depends_on_the_picture(
    frame: u64,
    fps: Json,
    bytes: usize,
    width: u32,
    height: u32,
    faces: Seq<Json>,
)
    ensures
        ({
            let with = frame_document(frame, fps, Some(bytes), width, height, faces)->Record_0;
            let without = frame_document(frame, fps, None, width, height, faces)->Record_0;
            &&& without == with.remove("jpeg_size"@)
            &&& !without.dom().contains("jpeg_size"@)
            &&& with["jpeg_size"@] == json_number(bytes as nat)
        }),
{
    reveal_strlit("jpeg_size");
    reveal_strlit("frame");
    reveal_strlit("fps");
    reveal_strlit("width");
    reveal_strlit("height");
    reveal_strlit("recognized");
    reveal_strlit("unrecognized");
    reveal_strlit("faces");
    assert("jpeg_size"@.len() == 9 && "frame"@.len() == 5 && "fps"@.len() == 3 && "width"@.len()
        == 5 && "height"@.len() == 6 && "recognized"@.len() == 10 && "unrecognized"@.len() == 12
        && "faces"@.len() == 5);
    let with = frame_document(frame, fps, Some(bytes), width, height, faces)->Record_0;
    let without = frame_document(frame, fps, None, width, height, faces)->Record_0;
    assert(without =~= with.remove("jpeg_size"@));
}

} // verus!
