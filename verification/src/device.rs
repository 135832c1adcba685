//! Video devices, and which of them sees infrared.

use crate::quirks::{Quirk, QuirksDb};
use crate::text::{
    alphanumeric, chars_of, decimal_of, piece, same, same_ignore_case, string_of, trimmed,
};
use vstd::prelude::*;
use vstd::string::*;

verus! {

/// Information about a V4L2 video device.
#[derive(Debug, Clone)]
pub struct DeviceInfo {
    pub path: String,
    pub name: String,
    pub driver: String,
    pub capabilities: Vec<String>,
    pub formats: Vec<FormatInfo>,
}

/// A supported pixel format with its available sizes.
#[derive(Debug, Clone)]
pub struct FormatInfo {
    pub fourcc: String,
    pub description: String,
    pub sizes: Vec<(u32, u32)>,
}

/// Provenance of an IR classification decision.
///
/// Ordered by authoritativeness: a `Quirk` hit is definitive; `Format` means a
/// native IR capture format (GREY/Y16) corroborated by an IR name token; `Name`
/// means an IR name token alone; `NotIr` means not classified as IR.
#[derive(Debug, Clone, Copy, PartialEq, Eq, Structural)]
pub enum IrSource {
    /// Hardware quirks DB `force_ir = true`: authoritative.
    Quirk,
    /// Native IR format (GREY/Y16) corroborated by an IR name token.
    Format,
    /// IR name token ("ir"/"infrared") present, no IR capture format.
    Name,
    /// Not classified as IR.
    NotIr,
}

/// Why a camera could not be used.
#[derive(Debug)]
pub enum FacelockError {
    Camera(String),
}

/// One frame size that the driver enumerates.
#[derive(Debug, Clone, Copy)]
pub enum FrameSize {
    Discrete { width: u32, height: u32 },
    Stepwise { min_width: u32, min_height: u32, max_width: u32, max_height: u32 },
}

/// What the driver says of a device as a whole.
#[derive(Debug)]
pub struct DriverCaps {
    pub card: String,
    pub driver: String,
    pub video_capture: bool,
    pub streaming: bool,
}

/// What the driver says of one pixel format. The sizes are missing where they
/// could not be enumerated.
#[derive(Debug)]
pub struct FormatProbe {
    pub fourcc: String,
    pub description: String,
    pub sizes: Option<Vec<FrameSize>>,
}

/// What came back when a device was opened and asked. The formats are missing
/// where they could not be enumerated.
#[derive(Debug)]
pub enum DeviceProbe {
    Unopened { reason: String },
    Unqueryable { reason: String },
    Answered { caps: DriverCaps, formats: Option<Vec<FormatProbe>> },
}

// ---------------------------------------------------------------------------
// Enumeration
// ---------------------------------------------------------------------------

/// The sizes that an enumerated frame size stands for: itself, or both ends of
/// its range.
pub open spec fn sizes_of(sizes: Seq<FrameSize>) -> Seq<(u32, u32)>
    decreases sizes.len(),
{
    if sizes.len() == 0 {
        Seq::empty()
    } else {
        sizes_of(sizes.drop_last()) + match sizes.last() {
            FrameSize::Discrete { width, height } => seq![(width, height)],
            FrameSize::Stepwise { min_width, min_height, max_width, max_height } => seq![
                (min_width, min_height),
                (max_width, max_height),
            ],
        }
    }
}

/// What is kept of a format's answer.
pub open spec fn is_format(info: FormatInfo, probe: FormatProbe) -> bool {
    &&& info.fourcc@ == probe.fourcc@
    &&& info.description@ == probe.description@
    &&& info.sizes@ == match probe.sizes {
        Some(sizes) => sizes_of(sizes@),
        None => Seq::empty(),
    }
}

/// The path of the numbered video device.
pub open spec fn video_path(number: nat) -> Seq<char> {
    "/dev/video"@ + crate::text::decimal(number)
}

/// The paths at which capture devices are looked for, in order.
pub open spec fn video_paths() -> Seq<Seq<char>> {
    Seq::new(64, |i: int| video_path(i as nat))
}

/// The path of the numbered video device.
pub fn video_device_path(number: u64) -> (r: String)
    ensures
        r@ == video_path(number as nat),
{
    let mut path = String::from_str("/dev/video");
    path.append(decimal_of(number).as_str());
    path
}

/// The paths at which capture devices are looked for, in order.
pub fn video_device_paths() -> (r: Vec<String>)
    ensures
        crate::text::texts(r@) == video_paths(),
{
    let mut paths: Vec<String> = Vec::new();
    let mut i: u64 = 0;
    while i < 64
        invariant
            i <= 64,
            paths.len() == i,
            forall|k: int| 0 <= k < i ==> (#[trigger] paths[k])@ == video_path(k as nat),
        decreases 64 - i,
    {
        paths.push(video_device_path(i));
        i += 1;
    }
    assert(crate::text::texts(paths@) =~= video_paths());
    paths
}

fn frame_sizes(sizes: &Vec<FrameSize>) -> (r: Vec<(u32, u32)>)
    ensures
        r@ == sizes_of(sizes@),
{
    let mut out: Vec<(u32, u32)> = Vec::new();
    let mut i: usize = 0;
    assert(sizes@.take(0) == Seq::<FrameSize>::empty());
    while i < sizes.len()
        invariant
            i <= sizes.len(),
            out@ == sizes_of(sizes@.take(i as int)),
        decreases sizes.len() - i,
    {
        assert(sizes@.take(i as int + 1).drop_last() == sizes@.take(i as int));
        match sizes[i] {
            FrameSize::Discrete { width, height } => {
                out.push((width, height));
            },
            FrameSize::Stepwise { min_width, min_height, max_width, max_height } => {
                out.push((min_width, min_height));
                out.push((max_width, max_height));
            },
        }
        assert(out@ == sizes_of(sizes@.take(i as int + 1)));
        i += 1;
    }
    assert(sizes@.take(sizes.len() as int) == sizes@);
    out
}

/// The names of the capabilities that a capture device is listed with.
pub open spec fn capability_names(streaming: bool) -> Seq<Seq<char>> {
    if streaming {
        seq!["VIDEO_CAPTURE"@, "STREAMING"@]
    } else {
        seq!["VIDEO_CAPTURE"@]
    }
}

/// Whether `info` is what is kept of an answering capture device.
pub open spec fn describes(info: DeviceInfo, path: Seq<char>, probe: DeviceProbe) -> bool {
    match probe {
        DeviceProbe::Answered { caps, formats } => {
            &&& caps.video_capture
            &&& info.path@ == path
            &&& info.name@ == caps.card@
            &&& info.driver@ == caps.driver@
            &&& crate::text::texts(info.capabilities@) == capability_names(caps.streaming)
            &&& match formats {
                Some(list) => {
                    &&& info.formats.len() == list.len()
                    &&& forall|i: int|
                        0 <= i < list.len() ==> is_format(#[trigger] info.formats[i], list[i])
                },
                None => info.formats.len() == 0,
            }
        },
        _ => false,
    }
}

/// Whether a probe found a device that captures video.
pub open spec fn captures(probe: DeviceProbe) -> bool {
    probe matches DeviceProbe::Answered { caps, .. } && caps.video_capture
}

/// Why a probed path is no capture device.
pub open spec fn refusal(path: Seq<char>, probe: DeviceProbe) -> Seq<char> {
    match probe {
        DeviceProbe::Unopened { reason } => path + ": "@ + reason@,
        DeviceProbe::Unqueryable { reason } => path + ": failed to query caps: "@ + reason@,
        DeviceProbe::Answered { .. } => path + ": not a video capture device"@,
    }
}

/// A device as the driver describes it. Only one that was opened, answered and
/// captures video is a device.
pub fn query_device(path: &str, probe: &DeviceProbe) -> (r: Result<DeviceInfo, FacelockError>)
    ensures
        match r {
            Ok(info) => describes(info, path@, *probe),
            Err(FacelockError::Camera(m)) => !captures(*probe) && m@ == refusal(path@, *probe),
        },
{
    match probe {
        DeviceProbe::Unopened { reason } => {
            let mut m = String::from_str(path);
            m.append(": ");
            m.append(reason.as_str());
            Err(FacelockError::Camera(m))
        },
        DeviceProbe::Unqueryable { reason } => {
            let mut m = String::from_str(path);
            m.append(": failed to query caps: ");
            m.append(reason.as_str());
            Err(FacelockError::Camera(m))
        },
        DeviceProbe::Answered { caps, formats } => {
            if !caps.video_capture {
                let mut m = String::from_str(path);
                m.append(": not a video capture device");
                return Err(FacelockError::Camera(m));
            }
            let mut names: Vec<String> = Vec::new();
            names.push(String::from_str("VIDEO_CAPTURE"));
            if caps.streaming {
                names.push(String::from_str("STREAMING"));
            }
            assert(crate::text::texts(names@) == capability_names(caps.streaming));
            let mut infos: Vec<FormatInfo> = Vec::new();
            if let Some(list) = formats {
                let mut i: usize = 0;
                while i < list.len()
                    invariant
                        i <= list.len(),
                        infos.len() == i,
                        forall|k: int| 0 <= k < i ==> is_format(#[trigger] infos[k], list[k]),
                    decreases list.len() - i,
                {
                    let sizes = match &list[i].sizes {
                        Some(sizes) => frame_sizes(sizes),
                        None => Vec::new(),
                    };
                    infos.push(
                        FormatInfo {
                            fourcc: list[i].fourcc.clone(),
                            description: list[i].description.clone(),
                            sizes,
                        },
                    );
                    i += 1;
                }
            }
            Ok(
                DeviceInfo {
                    path: String::from_str(path),
                    name: caps.card.clone(),
                    driver: caps.driver.clone(),
                    capabilities: names,
                    formats: infos,
                },
            )
        },
    }
}

/// Whether a probed path is a usable video capture device.
pub fn validate_device(path: &str, probe: &DeviceProbe) -> (r: Result<DeviceInfo, FacelockError>)
    ensures
        match r {
            Ok(info) => describes(info, path@, *probe),
            Err(FacelockError::Camera(m)) => !captures(*probe) && m@ == refusal(path@, *probe),
        },
{
    query_device(path, probe)
}

/// The probes that found a capture device, in order.
pub open spec fn capturing(probes: Seq<(String, DeviceProbe)>) -> Seq<(String, DeviceProbe)>
    decreases probes.len(),
{
    if probes.len() == 0 {
        Seq::empty()
    } else if captures(probes.last().1) {
        capturing(probes.drop_last()).push(probes.last())
    } else {
        capturing(probes.drop_last())
    }
}

/// The capture devices among the probed paths, in the order of probing. A
/// path that is no capture device is passed over.
pub fn list_devices(probes: &Vec<(String, DeviceProbe)>) -> (r: Vec<DeviceInfo>)
    ensures
        r.len() == capturing(probes@).len(),
        forall|i: int|
            0 <= i < r.len() ==> describes(
                #[trigger] r[i],
                capturing(probes@)[i].0@,
                capturing(probes@)[i].1,
            ),
{
    let mut devices: Vec<DeviceInfo> = Vec::new();
    let mut i: usize = 0;
    assert(probes@.take(0) == Seq::<(String, DeviceProbe)>::empty());
    while i < probes.len()
        invariant
            i <= probes.len(),
            devices.len() == capturing(probes@.take(i as int)).len(),
            forall|k: int|
                0 <= k < devices.len() ==> describes(
                    #[trigger] devices[k],
                    capturing(probes@.take(i as int))[k].0@,
                    capturing(probes@.take(i as int))[k].1,
                ),
        decreases probes.len() - i,
    {
        assert(probes@.take(i as int + 1).drop_last() == probes@.take(i as int));
        match query_device(probes[i].0.as_str(), &probes[i].1) {
            Ok(info) => {
                devices.push(info);
            },
            Err(_) => {},
        }
        i += 1;
    }
    assert(probes@.take(probes.len() as int) == probes@);
    devices
}

// ---------------------------------------------------------------------------
// Classification of one node
// ---------------------------------------------------------------------------

/// Whether `s` from `i` to `j` is a token: letters and digits only, with none
/// before it and none after it.
pub open spec fn is_token(s: Seq<char>, i: int, j: int) -> bool {
    &&& 0 <= i <= j <= s.len()
    &&& forall|k: int| i <= k < j ==> crate::text::is_alphanumeric(#[trigger] s[k])
    &&& i == 0 || !crate::text::is_alphanumeric(s[i - 1])
    &&& j == s.len() || !crate::text::is_alphanumeric(s[j])
}

/// "ir" or "infrared", in either case of letter.
pub open spec fn is_ir_word(s: Seq<char>) -> bool {
    crate::text::eq_ignore_case(s, "ir"@) || crate::text::eq_ignore_case(s, "infrared"@)
}

/// Whether a device name has a whole `ir` or `infrared` token.
pub open spec fn ir_token_in(name: Seq<char>) -> bool {
    exists|i: int, j: int| #[trigger] is_token(name, i, j) && is_ir_word(name.subrange(i, j))
}

/// Whether a device name has a whole `ir` or `infrared` token. Tokens end at
/// characters that are no letter or digit, so the "ir" in "Sirius" or
/// "AIR-Cam" does not count.
pub fn has_ir_name_token(name: &str) -> (r: bool)
    ensures
        r == ir_token_in(name@),
{
    let v = chars_of(name);
    let mut start: usize = 0;
    let mut i: usize = 0;
    loop
        invariant
            v@ == name@,
            start <= i <= v.len(),
            start == 0 || !crate::text::is_alphanumeric(v@[start - 1]),
            forall|k: int| start <= k < i ==> crate::text::is_alphanumeric(#[trigger] v@[k]),
            forall|a: int, b: int|
                #[trigger] is_token(v@, a, b) && b < i ==> !is_ir_word(v@.subrange(a, b)),
        decreases v.len() + 1 - i,
    {
        if i == v.len() || !alphanumeric(v[i]) {
            assert(is_token(v@, start as int, i as int));
            assert forall|a: int| #[trigger] is_token(v@, a, i as int) implies a == start by {
                if a < start {
                    assert(!crate::text::is_alphanumeric(v@[start - 1]));
                }
                if a > start {
                    assert(crate::text::is_alphanumeric(v@[a - 1]));
                }
            }
            let token = string_of(&piece(&v, start, i));
            if same_ignore_case(token.as_str(), "ir") || same_ignore_case(
                token.as_str(),
                "infrared",
            ) {
                return true;
            }
            if i == v.len() {
                return false;
            }
            start = i + 1;
        }
        i += 1;
    }
}

/// Whether a format is one that only IR sensors deliver natively.
pub open spec fn is_native_ir(fourcc: Seq<char>) -> bool {
    fourcc == "GREY"@ || fourcc == "Y16 "@
}

/// Whether a device natively offers an IR-like capture format (GREY/Y16).
pub open spec fn native_ir_format(device: DeviceInfo) -> bool {
    exists|i: int|
        0 <= i < device.formats.len() && is_native_ir((#[trigger] device.formats[i]).fourcc@)
}

/// Whether a device natively offers an IR-like capture format (GREY/Y16).
pub fn has_native_ir_format(device: &DeviceInfo) -> (r: bool)
    ensures
        r == native_ir_format(*device),
{
    let mut i: usize = 0;
    while i < device.formats.len()
        invariant
            i <= device.formats.len(),
            forall|k: int|
                0 <= k < i ==> !is_native_ir((#[trigger] device.formats[k]).fourcc@),
        decreases device.formats.len() - i,
    {
        let fourcc = device.formats[i].fourcc.as_str();
        if same(fourcc, "GREY") || same(fourcc, "Y16 ") {
            return true;
        }
        i += 1;
    }
    false
}

/// The classification by name token and format, without quirks. A native IR
/// format alone is not proof of IR.
pub open spec fn heuristic(device: DeviceInfo) -> IrSource {
    if !ir_token_in(device.name@) {
        IrSource::NotIr
    } else if native_ir_format(device) {
        IrSource::Format
    } else {
        IrSource::Name
    }
}

/// The classification by name token and format, without quirks.
pub fn heuristic_ir_source(device: &DeviceInfo) -> (r: IrSource)
    ensures
        r == heuristic(*device),
{
    if !has_ir_name_token(device.name.as_str()) {
        IrSource::NotIr
    } else if has_native_ir_format(device) {
        IrSource::Format
    } else {
        IrSource::Name
    }
}

/// The quirk that speaks for a device.
pub open spec fn quirk_of(
    device: DeviceInfo,
    quirks: Option<Seq<Quirk>>,
    ids: Option<(Seq<char>, Seq<char>)>,
) -> Option<Quirk> {
    match quirks {
        Some(list) => match crate::quirks::best_match(list, device.name@, ids) {
            Some((i, _)) => Some(list[i]),
            None => None,
        },
        None => None,
    }
}

/// The quirks of an optional database.
pub open spec fn quirks_in(db: Option<&QuirksDb>) -> Option<Seq<Quirk>> {
    match db {
        Some(db) => Some(db@),
        None => None,
    }
}

/// The classification of a node by itself: a quirk's `force_ir` decides, in
/// both directions; else name token and format do.
pub open spec fn node_source(
    device: DeviceInfo,
    quirks: Option<Seq<Quirk>>,
    ids: Option<(Seq<char>, Seq<char>)>,
) -> IrSource {
    match quirk_of(device, quirks, ids) {
        Some(quirk) => match quirk.force_ir {
            Some(true) => IrSource::Quirk,
            Some(false) => IrSource::NotIr,
            None => heuristic(device),
        },
        None => heuristic(device),
    }
}

/// The classification of a node by itself, given its USB identity.
pub fn ir_source_with_quirks_and_ids(
    device: &DeviceInfo,
    quirks: Option<&QuirksDb>,
    usb_ids: Option<&(String, String)>,
) -> (r: IrSource)
    ensures
        r == node_source(*device, quirks_in(quirks), crate::quirks::id_texts(usb_ids)),
{
    if let Some(db) = quirks {
        if let Some(quirk) = db.find_match_with_ids(device, usb_ids) {
            if let Some(force_ir) = quirk.force_ir {
                return if force_ir {
                    IrSource::Quirk
                } else {
                    IrSource::NotIr
                };
            }
        }
    }
    heuristic_ir_source(device)
}

/// The classification of a node by itself. One USB camera can expose several
/// nodes that share a quirk: [`classify_ir_sources`] tells them apart.
pub fn ir_source_with_quirks(
    device: &DeviceInfo,
    quirks: Option<&QuirksDb>,
    usb_ids: Option<&(String, String)>,
) -> (r: IrSource)
    ensures
        r == node_source(*device, quirks_in(quirks), crate::quirks::id_texts(usb_ids)),
{
    ir_source_with_quirks_and_ids(device, quirks, usb_ids)
}

/// Whether a node by itself is taken for an IR camera.
pub fn is_ir_camera_with_quirks(
    device: &DeviceInfo,
    quirks: Option<&QuirksDb>,
    usb_ids: Option<&(String, String)>,
) -> (r: bool)
    ensures
        r == (node_source(*device, quirks_in(quirks), crate::quirks::id_texts(usb_ids))
            != IrSource::NotIr),
{
    ir_source_with_quirks(device, quirks, usb_ids) != IrSource::NotIr
}

/// The classification of a device without a quirks database.
pub fn ir_source(device: &DeviceInfo) -> (r: IrSource)
    ensures
        r == heuristic(*device),
{
    ir_source_with_quirks(device, None, None)
}

/// Whether a device is likely an IR camera, without a quirks database.
pub fn is_ir_camera(device: &DeviceInfo) -> (r: bool)
    ensures
        r == (heuristic(*device) != IrSource::NotIr),
{
    ir_source(device) != IrSource::NotIr
}

// ---------------------------------------------------------------------------
// Classification of all nodes together
// ---------------------------------------------------------------------------

/// A capture node with its USB identity.
pub struct Node<'a> {
    pub device: &'a DeviceInfo,
    pub usb_ids: Option<&'a (String, String)>,
}

/// What the classification reads of a node.
pub struct NodeView {
    pub device: DeviceInfo,
    pub ids: Option<(Seq<char>, Seq<char>)>,
}

impl<'a> View for Node<'a> {
    type V = NodeView;

    open spec fn view(&self) -> NodeView {
        NodeView { device: *self.device, ids: crate::quirks::id_texts(self.usb_ids) }
    }
}

/// The nodes that devices and their identities make, pair by pair.
pub open spec fn nodes_of(
    devices: Seq<DeviceInfo>,
    usb_ids: Seq<Option<(String, String)>>,
) -> Seq<NodeView> {
    Seq::new(
        devices.len(),
        |i: int| NodeView { device: devices[i], ids: crate::quirks::owned_id_texts(usb_ids[i]) },
    )
}

/// The classification of a node by itself.
pub open spec fn own_source(node: NodeView, quirks: Option<Seq<Quirk>>) -> IrSource {
    node_source(node.device, quirks, node.ids)
}

/// Whether a device offers the named format, white space around it aside.
pub open spec fn offers_format(device: DeviceInfo, format: Seq<char>) -> bool {
    exists|i: int|
        0 <= i < device.formats.len() && crate::text::trim((#[trigger] device.formats[i]).fourcc@)
            == crate::text::trim(format)
}

/// Whether a device offers an IR-like format: GREY/Y16, or the preferred one.
pub open spec fn ir_like(device: DeviceInfo, preference: Option<Seq<char>>) -> bool {
    native_ir_format(device) || (preference matches Some(format) && offers_format(device, format))
}

/// Whether two nodes are quirk-confirmed and share a readable USB identity.
pub open spec fn siblings(
    nodes: Seq<NodeView>,
    quirks: Option<Seq<Quirk>>,
    j: int,
    k: int,
) -> bool {
    &&& 0 <= j < nodes.len()
    &&& 0 <= k < nodes.len()
    &&& nodes[j].ids is Some
    &&& nodes[k].ids == nodes[j].ids
    &&& own_source(nodes[j], quirks) == IrSource::Quirk
    &&& own_source(nodes[k], quirks) == IrSource::Quirk
}

/// The first sibling of node `j` from position `k` on.
pub open spec fn first_sibling(
    nodes: Seq<NodeView>,
    quirks: Option<Seq<Quirk>>,
    j: int,
    k: int,
) -> int
    decreases j - k,
{
    if k >= j || siblings(nodes, quirks, j, k) {
        k
    } else {
        first_sibling(nodes, quirks, j, k + 1)
    }
}

/// The format that the quirk of the siblings of node `j` prefers. Their first
/// node speaks for all.
pub open spec fn preference(nodes: Seq<NodeView>, quirks: Option<Seq<Quirk>>, j: int) -> Option<
    Seq<char>,
> {
    let first = nodes[first_sibling(nodes, quirks, j, 0)];
    match quirk_of(first.device, quirks, first.ids) {
        Some(quirk) => crate::text::opt_text(quirk.format_preference),
        None => None,
    }
}

/// Whether a sibling of node `j` offers an IR-like format and `j` does not.
pub open spec fn outdone(nodes: Seq<NodeView>, quirks: Option<Seq<Quirk>>, j: int) -> bool {
    &&& !ir_like(nodes[j].device, preference(nodes, quirks, j))
    &&& exists|k: int| #[trigger]
        siblings(nodes, quirks, j, k) && ir_like(nodes[k].device, preference(nodes, quirks, j))
}

/// The classification of node `j` among all nodes. A `force_ir` quirk means
/// that the USB device has an IR sensor, not that each of its nodes is one: a
/// node that is outdone by a sibling falls back to name token and format.
pub open spec fn resolved(nodes: Seq<NodeView>, quirks: Option<Seq<Quirk>>, j: int) -> IrSource {
    if outdone(nodes, quirks, j) {
        heuristic(nodes[j].device)
    } else {
        own_source(nodes[j], quirks)
    }
}

/// The views of a list of nodes.
pub open spec fn node_views(nodes: Seq<Node>) -> Seq<NodeView> {
    nodes.map_values(|n: Node| n@)
}

fn offers(device: &DeviceInfo, format: &str) -> (r: bool)
    ensures
        r == offers_format(*device, format@),
{
    let wanted = trimmed(format);
    let mut i: usize = 0;
    while i < device.formats.len()
        invariant
            i <= device.formats.len(),
            wanted@ == crate::text::trim(format@),
            forall|k: int|
                0 <= k < i ==> crate::text::trim((#[trigger] device.formats[k]).fourcc@)
                    != crate::text::trim(format@),
        decreases device.formats.len() - i,
    {
        if trimmed(device.formats[i].fourcc.as_str()) == wanted {
            return true;
        }
        i += 1;
    }
    false
}

fn is_ir_like(device: &DeviceInfo, preference: &Option<String>) -> (r: bool)
    ensures
        r == ir_like(*device, crate::text::opt_text(*preference)),
{
    if has_native_ir_format(device) {
        return true;
    }
    match preference {
        Some(format) => offers(device, format.as_str()),
        None => false,
    }
}

fn same_ids(a: Option<&(String, String)>, b: Option<&(String, String)>) -> (r: bool)
    ensures
        r == (crate::quirks::id_texts(a) == crate::quirks::id_texts(b)),
{
    match (a, b) {
        (Some(x), Some(y)) => x.0 == y.0 && x.1 == y.1,
        (None, None) => true,
        _ => false,
    }
}

/// The classification of every node among all of them.
pub fn classify_nodes(nodes: &Vec<Node>, quirks: Option<&QuirksDb>) -> (r: Vec<IrSource>)
    ensures
        r.len() == nodes.len(),
        forall|j: int|
            0 <= j < nodes.len() ==> #[trigger] r[j] == resolved(
                node_views(nodes@),
                quirks_in(quirks),
                j,
            ),
{
    let ghost views = node_views(nodes@);
    let ghost list = quirks_in(quirks);
    let mut own: Vec<IrSource> = Vec::new();
    let mut i: usize = 0;
    while i < nodes.len()
        invariant
            i <= nodes.len(),
            own.len() == i,
            views == node_views(nodes@),
            list == quirks_in(quirks),
            forall|k: int| 0 <= k < i ==> #[trigger] own[k] == own_source(views[k], list),
        decreases nodes.len() - i,
    {
        own.push(ir_source_with_quirks_and_ids(nodes[i].device, quirks, nodes[i].usb_ids));
        i += 1;
    }
    let mut out: Vec<IrSource> = Vec::new();
    let mut j: usize = 0;
    while j < nodes.len()
        invariant
            j <= nodes.len(),
            own.len() == nodes.len(),
            out.len() == j,
            views == node_views(nodes@),
            list == quirks_in(quirks),
            forall|k: int|
                0 <= k < nodes.len() ==> #[trigger] own[k] == own_source(views[k], list),
            forall|k: int| 0 <= k < j ==> #[trigger] out[k] == resolved(views, list, k),
        decreases nodes.len() - j,
    {
        assert(views[j as int] == nodes[j as int]@);
        let mut source = own[j];
        if own[j] == IrSource::Quirk && nodes[j].usb_ids.is_some() {
            let mut first: usize = 0;
            while first < j && !(own[first] == IrSource::Quirk && same_ids(
                nodes[first].usb_ids,
                nodes[j].usb_ids,
            ))
                invariant
                    first <= j < nodes.len(),
                    own.len() == nodes.len(),
                    views == node_views(nodes@),
                    views[j as int].ids is Some,
                    own_source(views[j as int], list) == IrSource::Quirk,
                    forall|k: int|
                        0 <= k < nodes.len() ==> #[trigger] own[k] == own_source(views[k], list),
                    first_sibling(views, list, j as int, 0) == first_sibling(
                        views,
                        list,
                        j as int,
                        first as int,
                    ),
                decreases j - first,
            {
                assert(views[first as int] == nodes[first as int]@);
                assert(views[j as int] == nodes[j as int]@);
                first += 1;
            }
            assert(views[first as int] == nodes[first as int]@);
            assert(first_sibling(views, list, j as int, 0) == first);
            let preferred: Option<String> = match quirks {
                Some(db) => match db.find_match_with_ids(
                    nodes[first].device,
                    nodes[first].usb_ids,
                ) {
                    Some(quirk) => match &quirk.format_preference {
                        Some(format) => Some(format.clone()),
                        None => None,
                    },
                    None => None,
                },
                None => None,
            };
            assert(crate::text::opt_text(preferred) == preference(views, list, j as int));
            if !is_ir_like(nodes[j].device, &preferred) {
                let mut found = false;
                let mut k: usize = 0;
                while k < nodes.len() && !found
                    invariant
                        k <= nodes.len(),
                        j < nodes.len(),
                        own.len() == nodes.len(),
                        views == node_views(nodes@),
                        views[j as int].ids is Some,
                        own_source(views[j as int], list) == IrSource::Quirk,
                        crate::text::opt_text(preferred) == preference(views, list, j as int),
                        forall|m: int|
                            0 <= m < nodes.len() ==> #[trigger] own[m] == own_source(
                                views[m],
                                list,
                            ),
                        found ==> exists|m: int| #[trigger]
                            siblings(views, list, j as int, m) && ir_like(
                                views[m].device,
                                preference(views, list, j as int),
                            ),
                        !found ==> forall|m: int|
                            0 <= m < k ==> !(#[trigger] siblings(views, list, j as int, m)
                                && ir_like(views[m].device, preference(views, list, j as int))),
                    decreases nodes.len() - k,
                {
                    assert(views[k as int] == nodes[k as int]@);
                    assert(views[j as int] == nodes[j as int]@);
                    if own[k] == IrSource::Quirk && same_ids(nodes[k].usb_ids, nodes[j].usb_ids)
                        && is_ir_like(nodes[k].device, &preferred) {
                        assert(siblings(views, list, j as int, k as int));
                        found = true;
                    }
                    k += 1;
                }
                if found {
                    source = heuristic_ir_source(nodes[j].device);
                }
            }
        }
        out.push(source);
        j += 1;
    }
    out
}

/// The classification of every device, given their USB identities.
pub fn classify_ir_sources_with_ids(
    devices: &[DeviceInfo],
    quirks: Option<&QuirksDb>,
    usb_ids: &[Option<(String, String)>],
) -> (r: Vec<IrSource>)
    requires
        devices.len() == usb_ids.len(),
    ensures
        r.len() == devices.len(),
        forall|j: int|
            0 <= j < devices.len() ==> #[trigger] r[j] == resolved(
                nodes_of(devices@, usb_ids@),
                quirks_in(quirks),
                j,
            ),
{
    let mut nodes: Vec<Node> = Vec::new();
    let mut i: usize = 0;
    while i < devices.len()
        invariant
            i <= devices.len(),
            devices.len() == usb_ids.len(),
            node_views(nodes@) == nodes_of(devices@, usb_ids@).take(i as int),
        decreases devices.len() - i,
    {
        let ghost before = node_views(nodes@);
        nodes.push(Node { device: &devices[i], usb_ids: usb_ids[i].as_ref() });
        assert(node_views(nodes@) == before.push(nodes@.last()@));
        i += 1;
    }
    assert(node_views(nodes@) == nodes_of(devices@, usb_ids@));
    classify_nodes(&nodes, quirks)
}

/// The classification of every device, given their USB identities. Use this
/// for a list, or [`ir_source_resolved`] for one device among its siblings.
pub fn classify_ir_sources(
    devices: &[DeviceInfo],
    quirks: Option<&QuirksDb>,
    usb_ids: &[Option<(String, String)>],
) -> (r: Vec<IrSource>)
    requires
        devices.len() == usb_ids.len(),
    ensures
        r.len() == devices.len(),
        forall|j: int|
            0 <= j < devices.len() ==> #[trigger] r[j] == resolved(
                nodes_of(devices@, usb_ids@),
                quirks_in(quirks),
                j,
            ),
{
    classify_ir_sources_with_ids(devices, quirks, usb_ids)
}

/// The listed nodes at other paths, in order.
pub open spec fn elsewhere(nodes: Seq<NodeView>, path: Seq<char>) -> Seq<NodeView>
    decreases nodes.len(),
{
    if nodes.len() == 0 {
        Seq::empty()
    } else if nodes.last().device.path@ != path {
        elsewhere(nodes.drop_last(), path).push(nodes.last())
    } else {
        elsewhere(nodes.drop_last(), path)
    }
}

/// The classification of a device among the host's other nodes. What the
/// caller says of the device stands for its own path.
pub open spec fn resolved_among(
    device: DeviceInfo,
    ids: Option<(Seq<char>, Seq<char>)>,
    quirks: Option<Seq<Quirk>>,
    listed: Seq<NodeView>,
) -> IrSource {
    let others = elsewhere(listed, device.path@);
    resolved(others.push(NodeView { device, ids }), quirks, others.len() as int)
}

/// The classification of a device among the host's other nodes. Use this
/// wherever the answer decides whether IR is available.
pub fn ir_source_resolved(
    device: &DeviceInfo,
    usb_ids: Option<&(String, String)>,
    quirks: Option<&QuirksDb>,
    listed: &[DeviceInfo],
    listed_ids: &[Option<(String, String)>],
) -> (r: IrSource)
    requires
        listed.len() == listed_ids.len(),
        listed.len() < usize::MAX,
    ensures
        r == resolved_among(
            *device,
            crate::quirks::id_texts(usb_ids),
            quirks_in(quirks),
            nodes_of(listed@, listed_ids@),
        ),
{
    let ghost all = nodes_of(listed@, listed_ids@);
    let mut nodes: Vec<Node> = Vec::new();
    let mut i: usize = 0;
    assert(all.take(0) == Seq::<NodeView>::empty());
    assert(node_views(nodes@) == elsewhere(all.take(0), device.path@));
    while i < listed.len()
        invariant
            i <= listed.len(),
            listed.len() == listed_ids.len(),
            all == nodes_of(listed@, listed_ids@),
            nodes.len() <= i,
            node_views(nodes@) == elsewhere(all.take(i as int), device.path@),
        decreases listed.len() - i,
    {
        let ghost before = node_views(nodes@);
        assert(all.take(i as int + 1).drop_last() == all.take(i as int));
        if !same(listed[i].path.as_str(), device.path.as_str()) {
            nodes.push(Node { device: &listed[i], usb_ids: listed_ids[i].as_ref() });
            assert(node_views(nodes@) == before.push(nodes@.last()@));
        }
        i += 1;
    }
    assert(all.take(listed.len() as int) == all);
    let ghost others = node_views(nodes@);
    nodes.push(Node { device, usb_ids });
    assert(node_views(nodes@) == others.push(nodes@.last()@));
    let sources = classify_nodes(&nodes, quirks);
    sources[nodes.len() - 1]
}

/// Whether a device is an IR camera among the host's other nodes.
pub fn is_ir_camera_resolved(
    device: &DeviceInfo,
    usb_ids: Option<&(String, String)>,
    quirks: Option<&QuirksDb>,
    listed: &[DeviceInfo],
    listed_ids: &[Option<(String, String)>],
) -> (r: bool)
    requires
        listed.len() == listed_ids.len(),
        listed.len() < usize::MAX,
    ensures
        r == (resolved_among(
            *device,
            crate::quirks::id_texts(usb_ids),
            quirks_in(quirks),
            nodes_of(listed@, listed_ids@),
        ) != IrSource::NotIr),
{
    ir_source_resolved(device, usb_ids, quirks, listed, listed_ids) != IrSource::NotIr
}

// ---------------------------------------------------------------------------
// Auto-detection
// ---------------------------------------------------------------------------

/// Where among the first `n` devices the rank holds first, from `i` on.
pub open spec fn first_ranked(holds: spec_fn(int) -> bool, i: int, n: int) -> Option<int>
    decreases n - i,
{
    if i >= n {
        None
    } else if holds(i) {
        Some(i)
    } else {
        first_ranked(holds, i + 1, n)
    }
}

/// Which device auto-detection takes: the first quirk-confirmed one with a
/// native IR format; else the first quirk-confirmed one; else the first that
/// is IR at all; else the first.
pub open spec fn auto_choice(devices: Seq<DeviceInfo>, sources: Seq<IrSource>) -> Option<int> {
    let n = if devices.len() <= sources.len() {
        devices.len() as int
    } else {
        sources.len() as int
    };
    let confirmed_native = first_ranked(
        |i: int| sources[i] == IrSource::Quirk && native_ir_format(devices[i]),
        0,
        n,
    );
    let confirmed = first_ranked(|i: int| sources[i] == IrSource::Quirk, 0, n);
    let infrared = first_ranked(|i: int| sources[i] != IrSource::NotIr, 0, n);
    if confirmed_native is Some {
        confirmed_native
    } else if confirmed is Some {
        confirmed
    } else if infrared is Some {
        infrared
    } else if devices.len() > 0 {
        Some(0int)
    } else {
        None
    }
}

/// The device that auto-detection takes, among classified nodes.
pub fn pick_auto_device<'a>(devices: &'a [DeviceInfo], sources: &[IrSource]) -> (r: Option<
    &'a DeviceInfo,
>)
    ensures
        match auto_choice(devices@, sources@) {
            Some(i) => 0 <= i < devices.len() && r == Some(&devices[i]),
            None => r is None,
        },
{
    let n: usize = if devices.len() <= sources.len() {
        devices.len()
    } else {
        sources.len()
    };
    let ghost by_native = |i: int|
        sources@[i] == IrSource::Quirk && native_ir_format(devices@[i]);
    let ghost by_quirk = |i: int| sources@[i] == IrSource::Quirk;
    let ghost by_any = |i: int| sources@[i] != IrSource::NotIr;
    let mut quirk: Option<usize> = None;
    let mut infrared: Option<usize> = None;
    let mut i: usize = 0;
    while i < n
        invariant
            i <= n,
            n <= devices.len(),
            n <= sources.len(),
            by_native == (|i: int|
                sources@[i] == IrSource::Quirk && native_ir_format(devices@[i])),
            by_quirk == (|i: int| sources@[i] == IrSource::Quirk),
            by_any == (|i: int| sources@[i] != IrSource::NotIr),
            first_ranked(by_native, 0, n as int) == first_ranked(by_native, i as int, n as int),
            match quirk {
                Some(q) => q < n && first_ranked(by_quirk, 0, n as int) == Some(q as int),
                None => first_ranked(by_quirk, 0, n as int) == first_ranked(
                    by_quirk,
                    i as int,
                    n as int,
                ),
            },
            match infrared {
                Some(q) => q < n && first_ranked(by_any, 0, n as int) == Some(q as int),
                None => first_ranked(by_any, 0, n as int) == first_ranked(
                    by_any,
                    i as int,
                    n as int,
                ),
            },
            n == if devices.len() <= sources.len() {
                devices.len()
            } else {
                sources.len()
            },
        decreases n - i,
    {
        if sources[i] == IrSource::Quirk {
            if has_native_ir_format(&devices[i]) {
                assert(by_native(i as int));
                return Some(&devices[i]);
            }
            if quirk.is_none() {
                assert(by_quirk(i as int));
                quirk = Some(i);
            }
        }
        if sources[i] != IrSource::NotIr && infrared.is_none() {
            assert(by_any(i as int));
            infrared = Some(i);
        }
        i += 1;
    }
    if let Some(q) = quirk {
        return Some(&devices[q]);
    }
    if let Some(q) = infrared {
        return Some(&devices[q]);
    }
    if devices.len() > 0 {
        Some(&devices[0])
    } else {
        None
    }
}

/// The best available capture device, given all of them with their USB
/// identities. Without a device there is none to take.
pub fn auto_detect_device<'a>(
    devices: &'a [DeviceInfo],
    quirks: &QuirksDb,
    usb_ids: &[Option<(String, String)>],
) -> (r: Result<&'a DeviceInfo, FacelockError>)
    requires
        devices.len() == usb_ids.len(),
    ensures
        match r {
            Ok(device) => {
                &&& devices.len() > 0
                &&& auto_choice(
                    devices@,
                    Seq::new(
                        devices@.len(),
                        |j: int| resolved(nodes_of(devices@, usb_ids@), Some(quirks@), j),
                    ),
                ) matches Some(i)
                &&& 0 <= i < devices.len()
                &&& device == devices[i]
            },
            Err(FacelockError::Camera(m)) => devices.len() == 0 && m@ == "no video devices found"@,
        },
{
    let sources = classify_ir_sources(devices, Some(quirks), usb_ids);
    assert(sources@ == Seq::new(
        devices@.len(),
        |j: int| resolved(nodes_of(devices@, usb_ids@), Some(quirks@), j),
    ));
    match pick_auto_device(devices, sources.as_slice()) {
        Some(device) => Ok(device),
        None => Err(FacelockError::Camera(String::from_str("no video devices found"))),
    }
}

// ---------------------------------------------------------------------------
// Laws
// ---------------------------------------------------------------------------

/// An IR-like format by itself is not proof of IR: without an IR name token
/// and without a quirk, no device is taken for one.
pub proof fn law_format_alone_is_not_ir(device: DeviceInfo)
    requires
        !ir_token_in(device.name@),
    ensures
        heuristic(device) == IrSource::NotIr,
{
}

/// `force_ir` decides in both directions, whatever the name and formats say.
pub proof fn law_force_ir_is_authoritative(
    device: DeviceInfo,
    quirks: Option<Seq<Quirk>>,
    ids: Option<(Seq<char>, Seq<char>)>,
    force: bool,
)
    requires
        quirk_of(device, quirks, ids) matches Some(quirk) && quirk.force_ir == Some(force),
    ensures
        node_source(device, quirks, ids) == if force {
            IrSource::Quirk
        } else {
            IrSource::NotIr
        },
{
}

/// Looking at the other nodes only ever takes a quirk's confirmation away:
/// every node that is not quirk-confirmed keeps its own classification.
pub proof fn law_siblings_only_demote(
    nodes: Seq<NodeView>,
    quirks: Option<Seq<Quirk>>,
    j: int,
)
    requires
        0 <= j < nodes.len(),
    ensures
        resolved(nodes, quirks, j) != own_source(nodes[j], quirks) ==> own_source(nodes[j], quirks)
            == IrSource::Quirk && nodes[j].ids is Some,
{
    if outdone(nodes, quirks, j) {
        let k = choose|k: int| #[trigger]
            siblings(nodes, quirks, j, k) && ir_like(nodes[k].device, preference(nodes, quirks, j));
        assert(siblings(nodes, quirks, j, k));
    }
}

/// A node is only ever demoted in favour of a node of the same USB device, and
/// that node keeps its confirmation: no camera loses its IR sensor.
pub proof fn law_demotion_leaves_an_ir_sibling(
    nodes: Seq<NodeView>,
    quirks: Option<Seq<Quirk>>,
    j: int,
)
    requires
        0 <= j < nodes.len(),
        outdone(nodes, quirks, j),
    ensures
        exists|k: int|
            {
                &&& 0 <= k < nodes.len()
                &&& k != j
                &&& (#[trigger] nodes[k]).ids == nodes[j].ids
                &&& resolved(nodes, quirks, k) == IrSource::Quirk
            },
{
    let k = choose|k: int| #[trigger]
        siblings(nodes, quirks, j, k) && ir_like(nodes[k].device, preference(nodes, quirks, j));
    lemma_siblings_share_first(nodes, quirks, j, k, 0);
    assert(preference(nodes, quirks, k) == preference(nodes, quirks, j));
    assert(nodes[k].ids == nodes[j].ids);
    assert(resolved(nodes, quirks, k) == IrSource::Quirk);
}

/// Nodes whose USB identity is unreadable cannot be told apart: each keeps the
/// classification that it has by itself.
pub proof fn law_unreadable_identity_is_left_alone(
    nodes: Seq<NodeView>,
    quirks: Option<Seq<Quirk>>,
    j: int,
)
    requires
        0 <= j < nodes.len(),
        nodes[j].ids is None,
    ensures
        resolved(nodes, quirks, j) == own_source(nodes[j], quirks),
{
}

/// Without any IR-like format among the siblings of a node, `force_ir` is
/// trusted for it.
pub proof fn law_without_format_evidence_force_ir_stands(
    nodes: Seq<NodeView>,
    quirks: Option<Seq<Quirk>>,
    j: int,
)
    requires
        0 <= j < nodes.len(),
        own_source(nodes[j], quirks) == IrSource::Quirk,
        forall|k: int| #[trigger]
            siblings(nodes, quirks, j, k) ==> !ir_like(
                nodes[k].device,
                preference(nodes, quirks, j),
            ),
    ensures
        resolved(nodes, quirks, j) == IrSource::Quirk,
{
}

proof fn lemma_first_ranked_is_first(holds: spec_fn(int) -> bool, i: int, n: int)
    ensures
        first_ranked(holds, i, n) matches Some(c) ==> forall|k: int| i <= k < c ==> !#[trigger] holds(k),
    decreases n - i,
{
    if i < n && !holds(i) {
        lemma_first_ranked_is_first(holds, i + 1, n);
    }
}

/// How good a device is for auto-detection: a confirmed one with a native IR
/// format, a confirmed one, one that is IR at all, any other.
pub open spec fn rank(device: DeviceInfo, source: IrSource) -> int {
    if source == IrSource::Quirk && native_ir_format(device) {
        3
    } else if source == IrSource::Quirk {
        2
    } else if source == IrSource::Format || source == IrSource::Name {
        1
    } else {
        0
    }
}

/// Auto-detection takes a device wherever there is one, and it is the first of
/// the best: no device outranks it, and none before it is as good.
pub proof fn law_auto_detection_takes_the_first_of_the_best(
    devices: Seq<DeviceInfo>,
    sources: Seq<IrSource>,
)
    requires
        devices.len() == sources.len(),
    ensures
        devices.len() == 0 ==> auto_choice(devices, sources) is None,
        devices.len() > 0 ==> (auto_choice(devices, sources) matches Some(c) && {
            &&& 0 <= c < devices.len()
            &&& forall|i: int|
                0 <= i < devices.len() ==> rank(#[trigger] devices[i], sources[i]) <= rank(
                    devices[c],
                    sources[c],
                )
            &&& forall|i: int|
                0 <= i < c ==> rank(#[trigger] devices[i], sources[i]) < rank(
                    devices[c],
                    sources[c],
                )
        }),
{
    let n = devices.len() as int;
    let by_native = |k: int| sources[k] == IrSource::Quirk && native_ir_format(devices[k]);
    let by_quirk = |k: int| sources[k] == IrSource::Quirk;
    let by_any = |k: int| sources[k] != IrSource::NotIr;
    lemma_first_ranked(by_native, 0, n);
    lemma_first_ranked(by_quirk, 0, n);
    lemma_first_ranked(by_any, 0, n);
    lemma_first_ranked_is_first(by_native, 0, n);
    lemma_first_ranked_is_first(by_quirk, 0, n);
    lemma_first_ranked_is_first(by_any, 0, n);
    if devices.len() > 0 {
        let c = auto_choice(devices, sources)->0;
        assert forall|i: int| 0 <= i < devices.len() implies rank(
            #[trigger] devices[i],
            sources[i],
        ) <= rank(devices[c], sources[c]) && (i < c ==> rank(devices[i], sources[i]) < rank(
            devices[c],
            sources[c],
        )) by {
            assert(by_native(i) == (sources[i] == IrSource::Quirk && native_ir_format(devices[i])));
            assert(by_quirk(i) == (sources[i] == IrSource::Quirk));
            assert(by_any(i) == (sources[i] != IrSource::NotIr));
            assert(by_native(c) == (sources[c] == IrSource::Quirk && native_ir_format(devices[c])));
            assert(by_quirk(c) == (sources[c] == IrSource::Quirk));
            assert(by_any(c) == (sources[c] != IrSource::NotIr));
        }
    }
}

/// Where no device is infrared, the first one is taken.
pub proof fn law_without_infrared_the_first_device_is_taken(
    devices: Seq<DeviceInfo>,
    sources: Seq<IrSource>,
)
    requires
        devices.len() == sources.len(),
        devices.len() > 0,
        forall|i: int| 0 <= i < sources.len() ==> #[trigger] sources[i] == IrSource::NotIr,
    ensures
        auto_choice(devices, sources) == Some(0int),
{
    law_auto_detection_takes_the_first_of_the_best(devices, sources);
    let c = auto_choice(devices, sources)->0;
    if c > 0 {
        assert(sources[0] == IrSource::NotIr && sources[c] == IrSource::NotIr);
        assert(rank(devices[0], sources[0]) < rank(devices[c], sources[c]));
    }
}

/// A name makes a device infrared only by a whole word: "ir" or "infrared" in any
/// case of letter, with no letter or digit right before it or right after it.
pub proof fn law_infrared_is_a_whole_word(front: Seq<char>, word: Seq<char>, back: Seq<char>)
    requires
        word.len() > 0,
        forall|k: int| 0 <= k < word.len() ==> crate::text::is_alphanumeric(#[trigger] word[k]),
        front.len() == 0 || !crate::text::is_alphanumeric(front.last()),
        back.len() == 0 || !crate::text::is_alphanumeric(back[0]),
    ensures
        crate::text::eq_ignore_case(word, "ir"@) || crate::text::eq_ignore_case(
            word,
            "infrared"@,
        ) ==> ir_token_in(front + word + back),
        front.len() == 0 && back.len() == 0 ==> (ir_token_in(word) <==> crate::text::eq_ignore_case(
            word,
            "ir"@,
        ) || crate::text::eq_ignore_case(word, "infrared"@)),
{
    reveal_strlit("ir");
    reveal_strlit("infrared");
    let s = front + word + back;
    let i = front.len() as int;
    let j = i + word.len();
    assert(s.subrange(i, j) =~= word);
    assert forall|k: int| i <= k < j implies crate::text::is_alphanumeric(#[trigger] s[k]) by {
        assert(s[k] == word[k - i]);
    }
    assert(is_token(s, i, j));
    if front.len() == 0 && back.len() == 0 {
        assert(s =~= word);
        if ir_token_in(word) {
            let (a, b) = choose|a: int, b: int| #[trigger]
                is_token(word, a, b) && is_ir_word(word.subrange(a, b));
            if a > 0 {
                assert(crate::text::is_alphanumeric(word[a - 1]));
            }
            if b < word.len() {
                assert(crate::text::is_alphanumeric(word[b]));
            }
            assert(word.subrange(a, b) =~= word);
        }
    }
}

/// Letters and digits are those of ASCII.
pub proof fn law_words_are_of_ascii_letters_and_digits(c: char)
    ensures
        crate::text::is_alphanumeric(c) <==> '0' <= c && c <= '9' || 'a' <= c && c <= 'z' || 'A' <= c
            && c <= 'Z',
{
}

/// Without a quirk that decides, a device is infrared exactly if its name says so;
/// a native IR format makes the classification firmer and never makes it.
pub proof fn law_the_name_decides_without_a_quirk(
    device: DeviceInfo,
    quirks: Option<Seq<Quirk>>,
    ids: Option<(Seq<char>, Seq<char>)>,
)
    requires
        quirk_of(device, quirks, ids) matches Some(quirk) ==> quirk.force_ir is None,
    ensures
        node_source(device, quirks, ids) == IrSource::NotIr <==> !ir_token_in(device.name@),
        node_source(device, quirks, ids) != IrSource::Quirk,
        node_source(device, quirks, ids) == IrSource::Format <==> ir_token_in(device.name@) && (
        exists|i: int|
            0 <= i < device.formats.len() && ((#[trigger] device.formats[i]).fourcc@ == "GREY"@
                || device.formats[i].fourcc@ == "Y16 "@)),
        node_source(device, quirks, ids) == IrSource::Name ==> ir_token_in(device.name@),
{
}

/// The quirk that decides is one of the database, and it names the device's
/// identity or, where no quirk does, its name.
pub proof fn law_the_deciding_quirk_speaks_of_the_device(
    device: DeviceInfo,
    quirks: Seq<Quirk>,
    ids: Option<(Seq<char>, Seq<char>)>,
)
    ensures
        match quirk_of(device, Some(quirks), ids) {
            Some(quirk) => quirks.contains(quirk) && ((ids matches Some((vendor, product))
                && crate::quirks::usb_id_match(quirk, vendor, product)) || crate::quirks::name_match(
                quirk,
                device.name@,
            )),
            None => forall|i: int|
                0 <= i < quirks.len() ==> !crate::quirks::name_match(
                    #[trigger] quirks[i],
                    device.name@,
                ),
        },
        quirk_of(device, None, ids) is None,
{
    if let Some((vendor, product)) = ids {
        crate::quirks::lemma_last_where(
            quirks,
            |q: Quirk| crate::quirks::usb_id_match(q, vendor, product),
        );
    }
    crate::quirks::lemma_last_where(quirks, |q: Quirk| crate::quirks::name_match(q, device.name@));
}

/// Among nodes of one confirmed USB device, those with an IR-like format keep the
/// confirmation, and the others fall back to what their names say as soon as one
/// has such a format.
pub proof fn law_the_infrared_node_of_a_camera_is_told_apart(
    nodes: Seq<NodeView>,
    quirks: Option<Seq<Quirk>>,
    j: int,
    k: int,
)
    requires
        0 <= j < nodes.len(),
        0 <= k < nodes.len(),
        nodes[j].ids is Some,
        nodes[k].ids == nodes[j].ids,
        node_source(nodes[j].device, quirks, nodes[j].ids) == IrSource::Quirk,
        node_source(nodes[k].device, quirks, nodes[k].ids) == IrSource::Quirk,
        native_ir_format(nodes[k].device),
    ensures
        resolved(nodes, quirks, k) == IrSource::Quirk,
        native_ir_format(nodes[j].device) ==> resolved(nodes, quirks, j) == IrSource::Quirk,
        resolved(nodes, quirks, j) != IrSource::Quirk ==> (resolved(nodes, quirks, j)
            == IrSource::NotIr <==> !ir_token_in(nodes[j].device.name@)),
        (!native_ir_format(nodes[j].device) && preference(nodes, quirks, j) is None) ==> resolved(
            nodes,
            quirks,
            j,
        ) != IrSource::Quirk,
{
    assert(siblings(nodes, quirks, j, k));
}

/// The devices that are looked for are the first 64, each once and in the order of
/// their numbers.
pub proof fn law_the_first_devices_are_looked_for(i: int, j: int)
    requires
        0 <= i < j < 64,
    ensures
        video_paths().len() == 64,
        video_paths()[i] == "/dev/video"@ + crate::text::decimal(i as nat),
        video_paths()[i] != video_paths()[j],
{
    let front = "/dev/video"@;
    let a = crate::text::decimal(i as nat);
    let b = crate::text::decimal(j as nat);
    crate::text::law_decimal_reads_back(i as nat);
    crate::text::law_decimal_reads_back(j as nat);
    if video_paths()[i] == video_paths()[j] {
        assert((front + a).skip(front.len() as int) =~= a);
        assert((front + b).skip(front.len() as int) =~= b);
    }
}

/// A listed device is as it answered: its path, its card and its driver, and its
/// formats in order; it streams exactly if it says so.
pub proof fn law_a_listed_device_is_as_it_answered(
    info: DeviceInfo,
    path: Seq<char>,
    probe: DeviceProbe,
)
    requires
        describes(info, path, probe),
    ensures
        captures(probe),
        probe matches DeviceProbe::Answered { caps, formats } && {
            &&& caps.video_capture
            &&& info.path@ == path
            &&& info.name@ == caps.card@
            &&& info.driver@ == caps.driver@
            &&& crate::text::texts(info.capabilities@)[0] == "VIDEO_CAPTURE"@
            &&& crate::text::texts(info.capabilities@).len() == 2 <==> caps.streaming
            &&& formats is None ==> info.formats.len() == 0
            &&& formats matches Some(list) ==> info.formats.len() == list.len() && forall|i: int|
                0 <= i < list.len() ==> {
                    &&& (#[trigger] info.formats[i]).fourcc@ == list[i].fourcc@
                    &&& info.formats[i].description@ == list[i].description@
                    &&& list[i].sizes is None ==> info.formats[i].sizes.len() == 0
                    &&& list[i].sizes is Some ==> info.formats[i].sizes@ == sizes_of(
                        list[i].sizes->0@,
                    )
                }
        },
{
    if let DeviceProbe::Answered { caps, formats } = probe {
        if let Some(list) = formats {
            assert forall|i: int| 0 <= i < list.len() implies {
                &&& (#[trigger] info.formats[i]).fourcc@ == list[i].fourcc@
                &&& info.formats[i].description@ == list[i].description@
                &&& list[i].sizes is None ==> info.formats[i].sizes.len() == 0
                &&& list[i].sizes is Some ==> info.formats[i].sizes@ == sizes_of(
                    list[i].sizes->0@,
                )
            } by {
                assert(is_format(info.formats[i], list[i]));
            }
        }
    }
}

/// A size is kept as it is, and of a range both ends are, the smallest first.
pub proof fn law_sizes_are_kept_in_order(sizes: Seq<FrameSize>, size: FrameSize)
    ensures
        sizes_of(Seq::empty()).len() == 0,
        size matches FrameSize::Discrete { width, height } ==> sizes_of(sizes.push(size))
            == sizes_of(sizes).push((width, height)),
        size matches FrameSize::Stepwise { min_width, min_height, max_width, max_height }
            ==> sizes_of(sizes.push(size)) == sizes_of(sizes).push((min_width, min_height)).push(
            (max_width, max_height),
        ),
{
    assert(sizes.push(size).drop_last() =~= sizes);
    match size {
        FrameSize::Discrete { width, height } => {
            assert(sizes_of(sizes.push(size)) =~= sizes_of(sizes).push((width, height)));
        },
        FrameSize::Stepwise { min_width, min_height, max_width, max_height } => {
            assert(sizes_of(sizes.push(size)) =~= sizes_of(sizes).push(
                (min_width, min_height),
            ).push((max_width, max_height)));
        },
    }
}

/// A format is offered whatever white space stands around its name, and only if the
/// device has it.
pub proof fn law_a_format_is_offered_by_its_name(
    device: DeviceInfo,
    a: Seq<char>,
    b: Seq<char>,
    i: int,
)
    ensures
        crate::text::trim(a) == crate::text::trim(b) ==> offers_format(device, a)
            == offers_format(device, b),
        0 <= i < device.formats.len() ==> offers_format(device, device.formats[i].fourcc@),
        device.formats.len() == 0 ==> !offers_format(device, a),
{
    if crate::text::trim(a) == crate::text::trim(b) {
        assert(offers_format(device, a) == offers_format(device, b)) by {
            if offers_format(device, a) {
                let k = choose|k: int|
                    0 <= k < device.formats.len() && crate::text::trim(
                        (#[trigger] device.formats[k]).fourcc@,
                    ) == crate::text::trim(a);
                assert(crate::text::trim(device.formats[k].fourcc@) == crate::text::trim(b));
            }
            if offers_format(device, b) {
                let k = choose|k: int|
                    0 <= k < device.formats.len() && crate::text::trim(
                        (#[trigger] device.formats[k]).fourcc@,
                    ) == crate::text::trim(b);
                assert(crate::text::trim(device.formats[k].fourcc@) == crate::text::trim(a));
            }
        }
    }
    if 0 <= i < device.formats.len() {
        assert(crate::text::trim(device.formats[i].fourcc@) == crate::text::trim(
            device.formats[i].fourcc@,
        ));
    }
}

/// Only capture devices are listed, every one of them, in the order of probing.
pub proof fn law_listing_keeps_the_capture_devices(
    probes: Seq<(String, DeviceProbe)>,
    one: (String, DeviceProbe),
)
    ensures
        capturing(Seq::<(String, DeviceProbe)>::empty()).len() == 0,
        capturing(probes.push(one)) == if (one.1 matches DeviceProbe::Answered { caps, .. }
            && caps.video_capture) {
            capturing(probes).push(one)
        } else {
            capturing(probes)
        },
{
    assert(probes.push(one).drop_last() =~= probes);
}

/// A device's own classification does not depend on what the host lists at its
/// own path.
pub proof fn law_the_callers_word_stands_for_the_device(
    device: DeviceInfo,
    ids: Option<(Seq<char>, Seq<char>)>,
    quirks: Option<Seq<Quirk>>,
    listed: Seq<NodeView>,
    stale: NodeView,
)
    requires
        stale.device.path@ == device.path@,
    ensures
        resolved_among(device, ids, quirks, listed.push(stale)) == resolved_among(
            device,
            ids,
            quirks,
            listed,
        ),
{
    assert(listed.push(stale).drop_last() =~= listed);
}

/// A quirk-confirmed node is never passed over for one that is not, and no
/// device is taken only for a self-reported format.
pub proof fn law_auto_detection_prefers_confirmed(
    devices: Seq<DeviceInfo>,
    sources: Seq<IrSource>,
    i: int,
)
    requires
        devices.len() == sources.len(),
        0 <= i < devices.len(),
        sources[i] != IrSource::NotIr,
    ensures
        auto_choice(devices, sources) matches Some(c) && 0 <= c < devices.len() && sources[c]
            != IrSource::NotIr && (sources[i] == IrSource::Quirk ==> sources[c] == IrSource::Quirk),
{
    let n = devices.len() as int;
    let by_native = |k: int| sources[k] == IrSource::Quirk && native_ir_format(devices[k]);
    let by_quirk = |k: int| sources[k] == IrSource::Quirk;
    let by_any = |k: int| sources[k] != IrSource::NotIr;
    lemma_first_ranked(by_native, 0, n);
    lemma_first_ranked(by_quirk, 0, n);
    lemma_first_ranked(by_any, 0, n);
    assert(by_any(i));
    assert(sources[i] == IrSource::Quirk ==> by_quirk(i));
}

proof fn lemma_first_ranked(holds: spec_fn(int) -> bool, i: int, n: int)
    ensures
        match first_ranked(holds, i, n) {
            Some(c) => i <= c < n && holds(c),
            None => forall|k: int| i <= k < n ==> !#[trigger] holds(k),
        },
    decreases n - i,
{
    if i < n && !holds(i) {
        lemma_first_ranked(holds, i + 1, n);
    }
}

proof fn lemma_first_sibling(
    nodes: Seq<NodeView>,
    quirks: Option<Seq<Quirk>>,
    j: int,
    m: int,
)
    requires
        0 <= m <= j < nodes.len(),
        siblings(nodes, quirks, j, j),
    ensures
        m <= first_sibling(nodes, quirks, j, m) <= j,
        siblings(nodes, quirks, j, first_sibling(nodes, quirks, j, m)),
        forall|x: int|
            m <= x < first_sibling(nodes, quirks, j, m) ==> !#[trigger] siblings(
                nodes,
                quirks,
                j,
                x,
            ),
    decreases j - m,
{
    if m < j && !siblings(nodes, quirks, j, m) {
        lemma_first_sibling(nodes, quirks, j, m + 1);
    }
}

proof fn lemma_siblings_share_first(
    nodes: Seq<NodeView>,
    quirks: Option<Seq<Quirk>>,
    j: int,
    k: int,
    m: int,
)
    requires
        siblings(nodes, quirks, j, k),
        m == 0,
    ensures
        first_sibling(nodes, quirks, j, m) == first_sibling(nodes, quirks, k, m),
{
    lemma_first_sibling(nodes, quirks, j, 0);
    lemma_first_sibling(nodes, quirks, k, 0);
    let a = first_sibling(nodes, quirks, j, 0);
    let b = first_sibling(nodes, quirks, k, 0);
    assert(siblings(nodes, quirks, k, a));
    assert(siblings(nodes, quirks, j, b));
}

} // verus!
