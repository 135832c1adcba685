//! The listing of the video devices, for people and for programs.

use crate::device::{DeviceInfo, FormatInfo, IrSource};
use crate::json::{boolean, list, number, put, record, render, text, Json};
use crate::text::{decimal_of, joined, trimmed};
use vstd::prelude::*;
use vstd::string::*;

verus! {

/// A camera as a command lists it.
#[derive(Debug, Clone)]
pub struct IpcDeviceInfo {
    pub path: String,
    pub name: String,
    pub driver: String,
    pub is_ir: bool,
    pub formats: Vec<FormatInfo>,
}

/// A frame size, such as `640x480`.
pub open spec fn size_text(size: (u32, u32)) -> Seq<char> {
    crate::text::decimal(size.0 as nat) + "x"@ + crate::text::decimal(size.1 as nat)
}

/// The sizes of a format, or that there are none.
pub open spec fn sizes_text(sizes: Seq<(u32, u32)>) -> Seq<char> {
    if sizes.len() == 0 {
        "no sizes reported"@
    } else {
        crate::text::join(sizes.map_values(|size: (u32, u32)| size_text(size)), ", "@)
    }
}

/// The line of a format.
pub open spec fn format_line(format: FormatInfo) -> Seq<char> {
    "      "@ + crate::text::trim(format.fourcc@) + " ("@ + format.description@ + ") — "@
        + sizes_text(format.sizes@)
}

/// The lines of a camera's formats, under their heading.
pub open spec fn format_lines(formats: Seq<FormatInfo>) -> Seq<Seq<char>> {
    seq!["    Formats:"@] + formats.map_values(|f: FormatInfo| format_line(f))
}

/// The lines of a camera, with an empty one behind them.
pub open spec fn device_lines(
    path: Seq<char>,
    name: Seq<char>,
    driver: Seq<char>,
    is_ir: bool,
    formats: Seq<FormatInfo>,
    show_formats: bool,
) -> Seq<Seq<char>> {
    seq![
        "  "@ + path + (if is_ir {
            " [IR]"@
        } else {
            ""@
        }),
        "    Name:    "@ + name,
        "    Driver:  "@ + driver,
    ] + (if show_formats && formats.len() > 0 {
        format_lines(formats)
    } else {
        Seq::empty()
    }) + seq![""@]
}

/// The blocks of the first cameras of a list.
pub open spec fn blocks(devices: Seq<IpcDeviceInfo>, show_formats: bool) -> Seq<Seq<char>>
    decreases devices.len(),
{
    if devices.len() == 0 {
        Seq::empty()
    } else {
        let d = devices.last();
        blocks(devices.drop_last(), show_formats) + device_lines(
            d.path@,
            d.name@,
            d.driver@,
            d.is_ir,
            d.formats@,
            show_formats,
        )
    }
}

/// The whole listing, line by line.
pub open spec fn listing(devices: Seq<IpcDeviceInfo>, show_formats: bool) -> Seq<Seq<char>> {
    if devices.len() == 0 {
        seq![
            "No video devices found."@,
            "Check that your camera is connected and the v4l2 module is loaded."@,
        ]
    } else {
        seq!["Available video devices:\n"@] + blocks(devices, show_formats)
    }
}

fn size_of(size: (u32, u32)) -> (r: String)
    ensures
        r@ == size_text(size),
{
    let mut text = decimal_of(size.0 as u64);
    text.append("x");
    text.append(decimal_of(size.1 as u64).as_str());
    text
}

fn sizes_of(sizes: &Vec<(u32, u32)>) -> (r: String)
    ensures
        r@ == sizes_text(sizes@),
{
    if sizes.len() == 0 {
        return String::from_str("no sizes reported");
    }
    let mut parts: Vec<String> = Vec::new();
    let mut i: usize = 0;
    while i < sizes.len()
        invariant
            i <= sizes.len(),
            parts.len() == i,
            forall|j: int| 0 <= j < i ==> (#[trigger] parts[j])@ == size_text(sizes[j]),
        decreases sizes.len() - i,
    {
        parts.push(size_of(sizes[i]));
        i += 1;
    }
    assert(crate::text::texts(parts@) =~= sizes@.map_values(|size: (u32, u32)| size_text(size)));
    joined(&parts, ", ")
}

fn format_line_of(format: &FormatInfo) -> (r: String)
    ensures
        r@ == format_line(*format),
{
    let mut line = String::from_str("      ");
    line.append(trimmed(format.fourcc.as_str()).as_str());
    line.append(" (");
    line.append(format.description.as_str());
    line.append(") — ");
    line.append(sizes_of(&format.sizes).as_str());
    line
}

fn format_lines_of(formats: &Vec<FormatInfo>) -> (r: Vec<String>)
    ensures
        crate::text::texts(r@) == format_lines(formats@),
{
    let mut lines: Vec<String> = Vec::new();
    lines.push(String::from_str("    Formats:"));
    let mut i: usize = 0;
    while i < formats.len()
        invariant
            i <= formats.len(),
            lines.len() == i + 1,
            lines[0]@ == "    Formats:"@,
            forall|j: int| 0 <= j < i ==> (#[trigger] lines[j + 1])@ == format_line(formats[j]),
        decreases formats.len() - i,
    {
        lines.push(format_line_of(&formats[i]));
        i += 1;
    }
    assert forall|k: int| 0 <= k < lines.len() implies crate::text::texts(lines@)[k]
        == format_lines(formats@)[k] by {
        if k > 0 {
            assert(lines[(k - 1) + 1]@ == format_line(formats[k - 1]));
        }
    }
    assert(crate::text::texts(lines@) =~= format_lines(formats@));
    lines
}

fn device_lines_of(
    path: &str,
    name: &str,
    driver: &str,
    is_ir: bool,
    formats: &Vec<FormatInfo>,
    show_formats: bool,
) -> (r: Vec<String>)
    ensures
        crate::text::texts(r@) == device_lines(
            path@,
            name@,
            driver@,
            is_ir,
            formats@,
            show_formats,
        ),
{
    let mut head = String::from_str("  ");
    head.append(path);
    head.append(
        if is_ir {
            " [IR]"
        } else {
            ""
        },
    );
    let mut name_line = String::from_str("    Name:    ");
    name_line.append(name);
    let mut driver_line = String::from_str("    Driver:  ");
    driver_line.append(driver);
    let mut lines: Vec<String> = Vec::new();
    lines.push(head);
    lines.push(name_line);
    lines.push(driver_line);
    let ghost top = crate::text::texts(lines@);
    let mut shown: Vec<String> = Vec::new();
    if show_formats && formats.len() > 0 {
        shown = format_lines_of(formats);
    }
    let ghost middle = crate::text::texts(shown@);
    assert(middle =~= if show_formats && formats.len() > 0 {
        format_lines(formats@)
    } else {
        Seq::empty()
    });
    lines.append(&mut shown);
    assert(crate::text::texts(lines@) =~= top + middle);
    lines.push(String::from_str(""));
    assert(crate::text::texts(lines@) =~= device_lines(
        path@,
        name@,
        driver@,
        is_ir,
        formats@,
        show_formats,
    ));
    lines
}

/// The listing of the cameras, line by line. The formats are shown where the
/// list was made on the spot: the bus does not carry them.
pub fn device_listing(devices: &Vec<IpcDeviceInfo>, show_formats: bool) -> (r: Vec<String>)
    ensures
        crate::text::texts(r@) == listing(devices@, show_formats),
{
    let mut lines: Vec<String> = Vec::new();
    if devices.len() == 0 {
        lines.push(String::from_str("No video devices found."));
        lines.push(
            String::from_str("Check that your camera is connected and the v4l2 module is loaded."),
        );
        assert(crate::text::texts(lines@) =~= listing(devices@, show_formats));
        return lines;
    }
    lines.push(String::from_str("Available video devices:\n"));
    let mut i: usize = 0;
    assert(crate::text::texts(lines@) =~= seq!["Available video devices:\n"@] + blocks(
        devices@.take(0),
        show_formats,
    ));
    while i < devices.len()
        invariant
            i <= devices.len(),
            crate::text::texts(lines@) == seq!["Available video devices:\n"@] + blocks(
                devices@.take(i as int),
                show_formats,
            ),
        decreases devices.len() - i,
    {
        let ghost before = crate::text::texts(lines@);
        let d = &devices[i];
        let mut block = device_lines_of(
            d.path.as_str(),
            d.name.as_str(),
            d.driver.as_str(),
            d.is_ir,
            &d.formats,
            show_formats,
        );
        let ghost added = crate::text::texts(block@);
        lines.append(&mut block);
        assert(crate::text::texts(lines@) =~= before + added);
        assert(devices@.take(i as int + 1).drop_last() =~= devices@.take(i as int));
        i += 1;
        assert(before + added =~= seq!["Available video devices:\n"@] + blocks(
            devices@.take(i as int),
            show_formats,
        ));
    }
    assert(devices@.take(devices.len() as int) =~= devices@);
    lines
}

// ---------------------------------------------------------------------------
// The document
// ---------------------------------------------------------------------------

/// A frame size as the document has it: width, then height.
pub open spec fn size_document(size: (u32, u32)) -> Json {
    Json::List(
        seq![
            Json::Number(crate::text::decimal(size.0 as nat)),
            Json::Number(crate::text::decimal(size.1 as nat)),
        ],
    )
}

/// A format as the document has it.
pub open spec fn format_document(format: FormatInfo) -> Json {
    Json::Record(
        Map::empty().insert("fourcc"@, Json::Text(format.fourcc@)).insert(
            "description"@,
            Json::Text(format.description@),
        ).insert(
            "sizes"@,
            Json::List(format.sizes@.map_values(|size: (u32, u32)| size_document(size))),
        ),
    )
}

/// A camera as the document has it.
pub open spec fn device_document(d: IpcDeviceInfo) -> Json {
    Json::Record(
        Map::empty().insert("path"@, Json::Text(d.path@)).insert("name"@, Json::Text(d.name@)).insert(
            "driver"@,
            Json::Text(d.driver@),
        ).insert("is_ir"@, Json::Bool(d.is_ir)).insert(
            "formats"@,
            Json::List(d.formats@.map_values(|f: FormatInfo| format_document(f))),
        ),
    )
}

fn size_value(size: (u32, u32)) -> (r: serde_json::Value)
    ensures
        crate::json::json_of(r) == size_document(size),
{
    let mut pair: Vec<serde_json::Value> = Vec::new();
    pair.push(number(size.0 as u64));
    pair.push(number(size.1 as u64));
    assert(crate::json::json_list(pair@) =~= seq![
        Json::Number(crate::text::decimal(size.0 as nat)),
        Json::Number(crate::text::decimal(size.1 as nat)),
    ]);
    list(pair)
}

fn format_value(format: &FormatInfo) -> (r: serde_json::Value)
    ensures
        crate::json::json_of(r) == format_document(*format),
{
    let mut sizes: Vec<serde_json::Value> = Vec::new();
    let mut i: usize = 0;
    while i < format.sizes.len()
        invariant
            i <= format.sizes.len(),
            sizes.len() == i,
            forall|j: int|
                0 <= j < i ==> crate::json::json_of(#[trigger] sizes[j]) == size_document(
                    format.sizes[j],
                ),
        decreases format.sizes.len() - i,
    {
        sizes.push(size_value(format.sizes[i]));
        i += 1;
    }
    assert(crate::json::json_list(sizes@) =~= format.sizes@.map_values(
        |size: (u32, u32)| size_document(size),
    ));
    let mut value = record();
    put(&mut value, "fourcc", text(format.fourcc.as_str()));
    put(&mut value, "description", text(format.description.as_str()));
    put(&mut value, "sizes", list(sizes));
    value
}

fn device_value(d: &IpcDeviceInfo) -> (r: serde_json::Value)
    ensures
        crate::json::json_of(r) == device_document(*d),
{
    let mut formats: Vec<serde_json::Value> = Vec::new();
    let mut i: usize = 0;
    while i < d.formats.len()
        invariant
            i <= d.formats.len(),
            formats.len() == i,
            forall|j: int|
                0 <= j < i ==> crate::json::json_of(#[trigger] formats[j]) == format_document(
                    d.formats[j],
                ),
        decreases d.formats.len() - i,
    {
        formats.push(format_value(&d.formats[i]));
        i += 1;
    }
    assert(crate::json::json_list(formats@) =~= d.formats@.map_values(
        |f: FormatInfo| format_document(f),
    ));
    let mut value = record();
    put(&mut value, "path", text(d.path.as_str()));
    put(&mut value, "name", text(d.name.as_str()));
    put(&mut value, "driver", text(d.driver.as_str()));
    put(&mut value, "is_ir", boolean(d.is_ir));
    put(&mut value, "formats", list(formats));
    value
}

/// The listing as a JSON document.
pub fn devices_json(devices: &[IpcDeviceInfo]) -> (r: String)
    ensures
        r@ == crate::json::rendered(
            Json::List(devices@.map_values(|d: IpcDeviceInfo| device_document(d))),
        ),
{
    let mut values: Vec<serde_json::Value> = Vec::new();
    let mut i: usize = 0;
    while i < devices.len()
        invariant
            i <= devices.len(),
            values.len() == i,
            forall|j: int|
                0 <= j < i ==> crate::json::json_of(#[trigger] values[j]) == device_document(
                    devices[j],
                ),
        decreases devices.len() - i,
    {
        values.push(device_value(&devices[i]));
        i += 1;
    }
    assert(crate::json::json_list(values@) =~= devices@.map_values(
        |d: IpcDeviceInfo| device_document(d),
    ));
    render(&list(values))
}

// ---------------------------------------------------------------------------
// Without the daemon
// ---------------------------------------------------------------------------

/// The blocks of the first probed devices, each marked by its classification.
pub open spec fn direct_blocks(devices: Seq<DeviceInfo>, sources: Seq<IrSource>) -> Seq<Seq<char>>
    decreases devices.len(),
{
    if devices.len() == 0 {
        Seq::empty()
    } else {
        let d = devices.last();
        direct_blocks(devices.drop_last(), sources) + device_lines(
            d.path@,
            d.name@,
            d.driver@,
            sources[devices.len() - 1] != IrSource::NotIr,
            d.formats@,
            true,
        )
    }
}

/// The listing made without the daemon, line by line.
pub open spec fn direct_listing(devices: Seq<DeviceInfo>, sources: Seq<IrSource>) -> Seq<Seq<char>> {
    if devices.len() == 0 {
        seq!["No video devices found."@]
    } else {
        seq!["Available video devices:\n"@] + direct_blocks(devices, sources)
    }
}

/// The listing made without the daemon: every device with its formats, marked by
/// the classification that authentication goes by.
pub fn list_devices_direct(
    devices: &[DeviceInfo],
    quirks: &crate::quirks::QuirksDb,
    usb_ids: &[Option<(String, String)>],
) -> (r: Vec<String>)
    requires
        devices.len() == usb_ids.len(),
    ensures
        crate::text::texts(r@) == direct_listing(
            devices@,
            Seq::new(
                devices@.len(),
                |j: int|
                    crate::device::resolved(
                        crate::device::nodes_of(devices@, usb_ids@),
                        Some(quirks@),
                        j,
                    ),
            ),
        ),
{
    let sources = crate::device::classify_ir_sources(devices, Some(quirks), usb_ids);
    assert(sources@ =~= Seq::new(
        devices@.len(),
        |j: int|
            crate::device::resolved(
                crate::device::nodes_of(devices@, usb_ids@),
                Some(quirks@),
                j,
            ),
    ));
    let mut lines: Vec<String> = Vec::new();
    if devices.len() == 0 {
        lines.push(String::from_str("No video devices found."));
        assert(crate::text::texts(lines@) =~= direct_listing(devices@, sources@));
        return lines;
    }
    lines.push(String::from_str("Available video devices:\n"));
    let mut i: usize = 0;
    assert(crate::text::texts(lines@) =~= seq!["Available video devices:\n"@] + direct_blocks(
        devices@.take(0),
        sources@,
    ));
    while i < devices.len()
        invariant
            i <= devices.len(),
            sources.len() == devices.len(),
            crate::text::texts(lines@) == seq!["Available video devices:\n"@] + direct_blocks(
                devices@.take(i as int),
                sources@,
            ),
        decreases devices.len() - i,
    {
        let ghost before = crate::text::texts(lines@);
        let d = &devices[i];
        let mut block = device_lines_of(
            d.path.as_str(),
            d.name.as_str(),
            d.driver.as_str(),
            sources[i] != IrSource::NotIr,
            &d.formats,
            true,
        );
        let ghost added = crate::text::texts(block@);
        lines.append(&mut block);
        assert(crate::text::texts(lines@) =~= before + added);
        assert(devices@.take(i as int + 1).drop_last() =~= devices@.take(i as int));
        i += 1;
        assert(before + added =~= seq!["Available video devices:\n"@] + direct_blocks(
            devices@.take(i as int),
            sources@,
        ));
    }
    assert(devices@.take(devices.len() as int) =~= devices@);
    lines
}

// ---------------------------------------------------------------------------
// Laws
// ---------------------------------------------------------------------------

/// A camera's lines tell its path, its name and its driver, each on a line of its
/// own, and end with an empty one; the mark of infrared comes exactly with an
/// infrared camera; and the formats come exactly where they are to be shown and
/// there are some, one line each, in order.
pub proof fn law_a_camera_is_told_of_in_full(
    path: Seq<char>,
    name: Seq<char>,
    driver: Seq<char>,
    is_ir: bool,
    formats: Seq<FormatInfo>,
    show_formats: bool,
)
    ensures
        ({
            let lines = device_lines(path, name, driver, is_ir, formats, show_formats);
            let shown = show_formats && formats.len() > 0;
            &&& lines.len() == if shown {
                formats.len() + 5
            } else {
                4
            }
            &&& lines[0] == if is_ir {
                "  "@ + path + " [IR]"@
            } else {
                "  "@ + path
            }
            &&& lines[1] == "    Name:    "@ + name
            &&& lines[2] == "    Driver:  "@ + driver
            &&& lines.last() == Seq::<char>::empty()
            &&& shown ==> lines[3] == "    Formats:"@ && forall|i: int|
                0 <= i < formats.len() ==> #[trigger] lines[i + 4] == "      "@ + crate::text::trim(
                    formats[i].fourcc@,
                ) + " ("@ + formats[i].description@ + ") — "@ + sizes_text(formats[i].sizes@)
        }),
{
    reveal_strlit("");
    assert("  "@ + path + ""@ =~= "  "@ + path);
    let lines = device_lines(path, name, driver, is_ir, formats, show_formats);
    assert(lines.last() =~= Seq::<char>::empty());
    if show_formats && formats.len() > 0 {
        assert forall|i: int| 0 <= i < formats.len() implies #[trigger] lines[i + 4] == "      "@
            + crate::text::trim(formats[i].fourcc@) + " ("@ + formats[i].description@ + ") — "@
            + sizes_text(formats[i].sizes@) by {
            assert(lines[i + 4] == format_lines(formats)[i + 1]);
        }
    }
}

/// The sizes of a format stand in order, the width before the height.
pub proof fn law_sizes_are_width_by_height(sizes: Seq<(u32, u32)>, i: int)
    requires
        0 <= i < sizes.len(),
    ensures
        sizes_text(sizes) == crate::text::join(
            Seq::new(
                sizes.len(),
                |j: int|
                    crate::text::decimal(sizes[j].0 as nat) + "x"@ + crate::text::decimal(
                        sizes[j].1 as nat,
                    ),
            ),
            ", "@,
        ),
        sizes_text(Seq::empty()) == "no sizes reported"@,
{
    assert(sizes.map_values(|size: (u32, u32)| size_text(size)) =~= Seq::new(
        sizes.len(),
        |j: int|
            crate::text::decimal(sizes[j].0 as nat) + "x"@ + crate::text::decimal(
                sizes[j].1 as nat,
            ),
    ));
}

/// The cameras are listed in order, each with its own lines: the listing of two
/// lists, one after the other, is the one listing after the other.
pub proof fn law_cameras_are_listed_in_order(
    a: Seq<IpcDeviceInfo>,
    b: Seq<IpcDeviceInfo>,
    d: IpcDeviceInfo,
    show_formats: bool,
)
    ensures
        blocks(a + b, show_formats) == blocks(a, show_formats) + blocks(b, show_formats),
        blocks(seq![d], show_formats) == device_lines(
            d.path@,
            d.name@,
            d.driver@,
            d.is_ir,
            d.formats@,
            show_formats,
        ),
        a.len() > 0 ==> listing(a, show_formats).skip(1) == blocks(a, show_formats),
        a.len() == 0 ==> listing(a, show_formats)[0] == "No video devices found."@,
    decreases b.len(),
{
    assert(seq![d].drop_last() =~= Seq::<IpcDeviceInfo>::empty());
    assert(blocks(seq![d].drop_last(), show_formats) =~= Seq::empty());
    assert(blocks(seq![d], show_formats) =~= device_lines(
        d.path@,
        d.name@,
        d.driver@,
        d.is_ir,
        d.formats@,
        show_formats,
    ));
    if a.len() > 0 {
        assert(listing(a, show_formats).skip(1) =~= blocks(a, show_formats));
    }
    if b.len() == 0 {
        assert(a + b =~= a);
        assert(blocks(a, show_formats) + blocks(b, show_formats) =~= blocks(a, show_formats));
    } else {
        law_cameras_are_listed_in_order(a, b.drop_last(), d, show_formats);
        assert((a + b).drop_last() =~= a + b.drop_last());
        assert((a + b).last() == b.last());
        assert(blocks(a + b, show_formats) =~= blocks(a, show_formats) + blocks(b, show_formats));
    }
}

/// The listing made without the daemon has the lines of each device, in order, with
/// its formats, and marks exactly those that are not classified as colour cameras.
pub proof fn law_a_direct_listing_goes_by_the_classification(
    devices: Seq<DeviceInfo>,
    sources: Seq<IrSource>,
    d: DeviceInfo,
)
    requires
        sources.len() > devices.len(),
    ensures
        direct_blocks(devices.push(d), sources) == direct_blocks(devices, sources) + device_lines(
            d.path@,
            d.name@,
            d.driver@,
            !(sources[devices.len() as int] is NotIr),
            d.formats@,
            true,
        ),
        direct_blocks(Seq::empty(), sources).len() == 0,
        direct_listing(devices.push(d), sources).skip(1) == direct_blocks(devices.push(d), sources),
        direct_listing(Seq::empty(), sources) == seq!["No video devices found."@],
{
    assert(devices.push(d).drop_last() =~= devices);
    assert(direct_listing(devices.push(d), sources).skip(1) =~= direct_blocks(
        devices.push(d),
        sources,
    ));
}

/// A camera's entry in the document has what the camera has, field by field.
pub proof fn law_the_document_tells_of_the_camera(d: IpcDeviceInfo)
    ensures
        device_document(d) matches Json::Record(fields) && {
            &&& fields["path"@] == Json::Text(d.path@)
            &&& fields["name"@] == Json::Text(d.name@)
            &&& fields["driver"@] == Json::Text(d.driver@)
            &&& fields["is_ir"@] == Json::Bool(d.is_ir)
            &&& fields["formats"@] matches Json::List(formats) && formats.len() == d.formats.len()
                && forall|i: int|
                0 <= i < d.formats.len() ==> #[trigger] formats[i] == format_document(d.formats[i])
        },
{
    reveal_strlit("path");
    reveal_strlit("name");
    reveal_strlit("driver");
    reveal_strlit("is_ir");
    reveal_strlit("formats");
    assert("path"@.len() == 4 && "name"@.len() == 4 && "path"@[0] == 'p' && "name"@[0] == 'n');
    assert("driver"@.len() == 6 && "is_ir"@.len() == 5 && "formats"@.len() == 7);
}

/// A format's entry in the document has what the format has, and each size is its
/// width and its height.
pub proof fn law_the_document_tells_of_the_format(format: FormatInfo)
    ensures
        format_document(format) matches Json::Record(fields) && {
            &&& fields["fourcc"@] == Json::Text(format.fourcc@)
            &&& fields["description"@] == Json::Text(format.description@)
            &&& fields["sizes"@] matches Json::List(sizes) && sizes.len() == format.sizes.len()
                && forall|i: int|
                0 <= i < format.sizes.len() ==> #[trigger] sizes[i] == Json::List(
                    seq![
                        Json::Number(crate::text::decimal(format.sizes[i].0 as nat)),
                        Json::Number(crate::text::decimal(format.sizes[i].1 as nat)),
                    ],
                )
        },
{
    reveal_strlit("fourcc");
    reveal_strlit("description");
    reveal_strlit("sizes");
    assert("fourcc"@.len() == 6 && "description"@.len() == 11 && "sizes"@.len() == 5);
}

} // verus!
