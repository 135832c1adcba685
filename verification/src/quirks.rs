//! Hardware quirks: which entry of the database speaks for a camera.

use crate::device::DeviceInfo;
use crate::text::{
    chars_of, ends_with, find_from, lower, occurs_at, same, same_ignore_case, sorted,
    split_chars, starts_with, strip_prefix, to_lowercase, trimmed,
};
use vstd::prelude::*;
use vstd::string::*;

verus! {

/// A hardware quirk entry.
#[derive(Debug, Clone)]
pub struct Quirk {
    /// USB vendor ID (hex string, e.g. "8086")
    pub vendor_id: Option<String>,
    /// USB product ID (hex string, e.g. "0b07")
    pub product_id: Option<String>,
    /// Pattern to match against the device name, see [`name_matches`]
    pub name_pattern: Option<String>,
    /// Force this device to be treated as an IR camera
    pub force_ir: Option<bool>,
    /// UVC Extension Unit GUID for IR emitter control
    pub emitter_xu_guid: Option<String>,
    /// UVC XU control selector for emitter toggle
    pub emitter_xu_selector: Option<u8>,
    /// Override warmup frames for this camera
    pub warmup_frames: Option<u32>,
    /// Preferred pixel format
    pub format_preference: Option<String>,
    /// Image rotation in degrees
    pub rotation: Option<u16>,
    /// Human-readable notes
    pub notes: Option<String>,
}

/// How strongly a match is corroborated by evidence the device cannot forge.
#[derive(Debug, Clone, Copy, PartialEq, Eq, Structural)]
pub enum QuirkMatchKind {
    /// Matched by USB vendor:product ID, read from sysfs.
    UsbId,
    /// Matched by `name_pattern` against the free-text device name only.
    NameOnly,
}

/// Database of hardware quirks.
#[derive(Debug)]
pub struct QuirksDb {
    quirks: Vec<Quirk>,
}

/// The hardware identity of a video device, each field missing where sysfs
/// does not offer it.
#[derive(Debug, Clone)]
pub struct DeviceFingerprint {
    pub vid: Option<String>,
    pub pid: Option<String>,
    pub serial: Option<String>,
    pub by_path: Option<String>,
}

/// What the two sysfs files that may hold an attribute contain: the one at
/// the device link, and the one a level up. Missing where unreadable.
#[derive(Debug, Clone)]
pub struct SysfsAttribute {
    pub at_device: Option<String>,
    pub at_parent: Option<String>,
}

/// One name under `/dev/v4l/by-path`, with the path it resolves to.
#[derive(Debug, Clone)]
pub struct ByPathLink {
    pub file_name: String,
    pub resolved: Option<String>,
}

// ---------------------------------------------------------------------------
// Name patterns
// ---------------------------------------------------------------------------

/// Whether `name` is the first part, anything, the second part, anything, and
/// so on to the last part, with nothing before the first or after the last.
pub open spec fn glob(parts: Seq<Seq<char>>, name: Seq<char>) -> bool
    decreases parts.len(),
{
    if parts.len() == 0 {
        false
    } else if parts.len() == 1 {
        name == parts[0]
    } else {
        &&& crate::text::has_prefix(name, parts[0])
        &&& exists|i: int|
            parts[0].len() <= i <= name.len() && glob(parts.skip(1), #[trigger] name.skip(i))
    }
}

/// Whether a pattern describes the whole of `name`: `.*` stands for anything,
/// every other character for itself. The empty pattern describes every name.
pub open spec fn wildcard_matches(pattern: Seq<char>, name: Seq<char>) -> bool {
    pattern.len() == 0 || glob(crate::text::split(pattern, ".*"@), name)
}

/// Whether a quirk's pattern describes the whole of `name`. The prefix `(?i)`
/// makes the comparison one of lowercase texts.
pub open spec fn pattern_matches(pattern: Seq<char>, name: Seq<char>) -> bool {
    if crate::text::has_prefix(pattern, "(?i)"@) {
        wildcard_matches(
            crate::text::lowercase(pattern.skip("(?i)"@.len() as int)),
            crate::text::lowercase(name),
        )
    } else {
        wildcard_matches(pattern, name)
    }
}

/// Whether `parts` describe `s` with anything allowed in front.
spec fn glob_after(parts: Seq<Seq<char>>, s: Seq<char>) -> bool {
    exists|k: int| 0 <= k <= s.len() && glob(parts, #[trigger] s.skip(k))
}

proof fn lemma_glob_first(parts: Seq<Seq<char>>, name: Seq<char>)
    requires
        parts.len() >= 2,
        crate::text::has_prefix(name, parts[0]),
    ensures
        glob(parts, name) == glob_after(parts.skip(1), name.skip(parts[0].len() as int)),
{
    let n = parts[0].len() as int;
    let rest = name.skip(n);
    if glob(parts, name) {
        let i = choose|i: int|
            parts[0].len() <= i <= name.len() && glob(parts.skip(1), #[trigger] name.skip(i));
        assert(rest.skip(i - n) == name.skip(i));
    }
    if glob_after(parts.skip(1), rest) {
        let k = choose|k: int| 0 <= k <= rest.len() && glob(parts.skip(1), #[trigger] rest.skip(k));
        assert(rest.skip(k) == name.skip(k + n));
    }
}

proof fn lemma_glob_middle(parts: Seq<Seq<char>>, s: Seq<char>)
    requires
        parts.len() >= 2,
    ensures
        match crate::text::find(s, parts[0]) {
            Some(n) => glob_after(parts, s) == glob_after(
                parts.skip(1),
                s.skip((n + parts[0].len()) as int),
            ),
            None => !glob_after(parts, s),
        },
{
    crate::text::lemma_find(s, parts[0]);
    let len = parts[0].len() as int;
    match crate::text::find(s, parts[0]) {
        Some(n) => {
            let after = s.skip(n + len);
            if glob_after(parts, s) {
                let k = choose|k: int| 0 <= k <= s.len() && glob(parts, #[trigger] s.skip(k));
                let tail = s.skip(k);
                let i = choose|i: int|
                    len <= i <= tail.len() && glob(parts.skip(1), #[trigger] tail.skip(i));
                assert(n <= k);
                assert(after.skip(k + i - n - len) == tail.skip(i));
            }
            if glob_after(parts.skip(1), after) {
                let j = choose|j: int|
                    0 <= j <= after.len() && glob(parts.skip(1), #[trigger] after.skip(j));
                let tail = s.skip(n as int);
                assert(tail.skip(len + j) == after.skip(j));
                assert(glob(parts, tail));
            }
        },
        None => {},
    }
}

proof fn lemma_glob_last(last: Seq<char>, s: Seq<char>)
    ensures
        glob_after(seq![last], s) == crate::text::has_suffix(s, last),
{
    if crate::text::has_suffix(s, last) {
        assert(glob(seq![last], s.skip(s.len() - last.len())));
    }
    if glob_after(seq![last], s) {
        let k = choose|k: int| 0 <= k <= s.len() && glob(seq![last], #[trigger] s.skip(k));
        assert(s.skip(k).len() == s.len() - k);
    }
}

/// Whether a pattern describes the whole of `name`: `.*` stands for anything,
/// every other character for itself. The empty pattern describes every name.
pub fn wildcard_match(pattern: &str, name: &str) -> (r: bool)
    ensures
        r == wildcard_matches(pattern@, name@),
{
    let p = chars_of(pattern);
    if p.len() == 0 {
        return true;
    }
    let n = chars_of(name);
    let wild = chars_of(".*");
    proof {
        reveal_strlit(".*");
    }
    let parts = split_chars(&p, &wild);
    let ghost all = parts@.map_values(|v: Vec<char>| v@);
    assert(all == crate::text::split(pattern@, ".*"@));
    assert(all[0] == parts[0]@);
    assert(n@.skip(0) == n@);
    if !occurs_at(&n, &parts[0], 0) {
        return false;
    }
    if parts.len() == 1 {
        assert(parts[0].len() == n.len() ==> n@.take(n.len() as int) == n@);
        return parts[0].len() == n.len();
    }
    proof {
        lemma_glob_first(all, n@);
    }
    let mut pos: usize = parts[0].len();
    let mut i: usize = 1;
    while i < parts.len() - 1
        invariant
            1 <= i <= parts.len() - 1,
            pos <= n.len(),
            all == parts@.map_values(|v: Vec<char>| v@),
            glob(all, n@) == glob_after(all.skip(i as int), n@.skip(pos as int)),
            glob(all, n@) == wildcard_matches(pattern@, name@),
        decreases parts.len() - i,
    {
        proof {
            lemma_glob_middle(all.skip(i as int), n@.skip(pos as int));
            assert(all.skip(i as int)[0] == parts[i as int]@);
            assert(all.skip(i as int).skip(1) == all.skip(i as int + 1));
        }
        match find_from(&n, &parts[i], pos) {
            Some(k) => {
                assert(n@.skip(pos as int).skip((k + parts[i as int].len()) as int) == n@.skip(
                    (pos + k + parts[i as int].len()) as int,
                ));
                pos = pos + k + parts[i].len();
            },
            None => {
                return false;
            },
        }
        i += 1;
    }
    let ghost rest = n@.skip(pos as int);
    proof {
        assert(all.skip(i as int) == seq![parts[i as int]@]);
        lemma_glob_last(parts[i as int]@, rest);
    }
    if parts[i].len() > n.len() - pos {
        return false;
    }
    let at: usize = n.len() - parts[i].len();
    assert(n@.skip(at as int) == rest.skip(rest.len() - parts[i as int].len()));
    assert(n@.skip(at as int).take(parts[i as int].len() as int) == n@.skip(at as int));
    occurs_at(&n, &parts[i], at)
}

/// Whether a quirk's pattern describes the whole of a device name. The prefix
/// `(?i)` ignores case. A part of the pattern that is not next to a leading or
/// trailing `.*` is anchored at that end of the name, so `(?i)ir.*camera` does
/// not describe "Sirius Camera".
pub fn name_matches(pattern: &str, name: &str) -> (r: bool)
    ensures
        r == pattern_matches(pattern@, name@),
{
    match strip_prefix(pattern, "(?i)") {
        Some(rest) => {
            let p = to_lowercase(rest.as_str());
            let n = to_lowercase(name);
            wildcard_match(p.as_str(), n.as_str())
        },
        None => wildcard_match(pattern, name),
    }
}

// ---------------------------------------------------------------------------
// The database
// ---------------------------------------------------------------------------

/// Whether a quirk names this vendor and product, in either case of letter.
pub open spec fn usb_id_match(quirk: Quirk, vendor: Seq<char>, product: Seq<char>) -> bool {
    match (quirk.vendor_id, quirk.product_id) {
        (Some(v), Some(p)) => crate::text::eq_ignore_case(v@, vendor)
            && crate::text::eq_ignore_case(p@, product),
        _ => false,
    }
}

/// Whether a quirk has a pattern and it describes this name.
pub open spec fn name_match(quirk: Quirk, name: Seq<char>) -> bool {
    match quirk.name_pattern {
        Some(p) => pattern_matches(p@, name),
        None => false,
    }
}

/// The last position at which `holds` holds.
pub open spec fn last_where(quirks: Seq<Quirk>, holds: spec_fn(Quirk) -> bool) -> Option<int>
    decreases quirks.len(),
{
    if quirks.len() == 0 {
        None
    } else if holds(quirks.last()) {
        Some(quirks.len() - 1)
    } else {
        last_where(quirks.drop_last(), holds)
    }
}

/// The texts of a vendor:product pair.
pub open spec fn id_texts(ids: Option<&(String, String)>) -> Option<(Seq<char>, Seq<char>)> {
    match ids {
        Some(pair) => Some((pair.0@, pair.1@)),
        None => None,
    }
}

/// The texts of a vendor:product pair.
pub open spec fn owned_id_texts(ids: Option<(String, String)>) -> Option<(Seq<char>, Seq<char>)> {
    match ids {
        Some(pair) => Some((pair.0@, pair.1@)),
        None => None,
    }
}

/// Which quirk speaks for a device, and why: the last loaded that names its USB
/// identity; failing that, the last loaded whose pattern describes its name.
pub open spec fn best_match(
    quirks: Seq<Quirk>,
    name: Seq<char>,
    ids: Option<(Seq<char>, Seq<char>)>,
) -> Option<(int, QuirkMatchKind)> {
    let by_id = match ids {
        Some((vendor, product)) => last_where(quirks, |q: Quirk| usb_id_match(q, vendor, product)),
        None => None,
    };
    match by_id {
        Some(i) => Some((i, QuirkMatchKind::UsbId)),
        None => match last_where(quirks, |q: Quirk| name_match(q, name)) {
            Some(i) => Some((i, QuirkMatchKind::NameOnly)),
            None => None,
        },
    }
}

/// What [`last_where`] says.
pub proof fn lemma_last_where(quirks: Seq<Quirk>, holds: spec_fn(Quirk) -> bool)
    ensures
        match last_where(quirks, holds) {
            Some(i) => {
                &&& 0 <= i < quirks.len()
                &&& holds(quirks[i])
                &&& forall|k: int| i < k < quirks.len() ==> !holds(#[trigger] quirks[k])
            },
            None => forall|k: int| 0 <= k < quirks.len() ==> !holds(#[trigger] quirks[k]),
        },
    decreases quirks.len(),
{
    if quirks.len() > 0 && !holds(quirks.last()) {
        let front = quirks.drop_last();
        lemma_last_where(front, holds);
        assert forall|k: int| 0 <= k < quirks.len() - 1 implies #[trigger] quirks[k] == front[k] by {}
    }
}

impl View for QuirksDb {
    type V = Seq<Quirk>;

    closed spec fn view(&self) -> Seq<Quirk> {
        self.quirks@
    }
}

impl Default for QuirksDb {
    fn default() -> (db: Self)
        ensures
            db@ == Seq::<Quirk>::empty(),
    {
        QuirksDb { quirks: Vec::new() }
    }
}

impl QuirksDb {
    /// The database of all directories' files, in the order given: system
    /// files before user files, and within each as [`QuirksDb::load_dir`]
    /// takes them. What is loaded later overrides what was loaded before.
    pub fn load(system: Vec<Option<Vec<Quirk>>>, user: Vec<Option<Vec<Quirk>>>) -> (db: Self)
        ensures
            db@ == file_quirks(system@) + file_quirks(user@),
    {
        let mut db = QuirksDb::default();
        db.load_dir(system);
        db.load_dir(user);
        assert(Seq::<Quirk>::empty() + file_quirks(system@) == file_quirks(system@));
        db
    }

    /// Append the quirks of a directory's files, given in alphabetical order
    /// of their names. A file that could not be read or parsed adds nothing.
    pub fn load_dir(&mut self, files: Vec<Option<Vec<Quirk>>>)
        ensures
            final(self)@ == old(self)@ + file_quirks(files@),
    {
        let mut rest = files;
        let mut pending: Vec<Option<Vec<Quirk>>> = Vec::new();
        let ghost all = rest@;
        // Turn the list round, so that files can be taken from its end.
        while rest.len() > 0
            invariant
                rest@ == all.take(rest.len() as int),
                pending.len() + rest.len() == all.len(),
                forall|k: int|
                    0 <= k < pending.len() ==> #[trigger] pending[k] == all[all.len() - 1 - k],
            decreases rest.len(),
        {
            let file = rest.pop().unwrap();
            pending.push(file);
        }
        let ghost mut done: int = 0;
        assert(all.take(0) == Seq::<Option<Vec<Quirk>>>::empty());
        while pending.len() > 0
            invariant
                0 <= done <= all.len(),
                pending.len() == all.len() - done,
                self.quirks@ == old(self).quirks@ + file_quirks(all.take(done)),
                forall|k: int|
                    0 <= k < pending.len() ==> #[trigger] pending[k] == all[all.len() - 1 - k],
            decreases pending.len(),
        {
            let file = pending.pop().unwrap();
            proof {
                assert(all.take(done + 1).drop_last() == all.take(done));
                assert(all.take(done + 1).last() == file);
            }
            match file {
                Some(quirks) => {
                    let mut quirks = quirks;
                    self.quirks.append(&mut quirks);
                },
                None => {},
            }
            proof {
                assert(self.quirks@ == old(self).quirks@ + file_quirks(all.take(done + 1)));
                done = done + 1;
            }
        }
        assert(all.take(done) == all);
    }

    /// The quirk that speaks for the device, given its hardware identity.
    pub fn find_match(&self, device: &DeviceInfo, fingerprint: &DeviceFingerprint) -> (r: Option<
        &Quirk,
    >)
        ensures
            match best_match(self@, device.name@, usb_ids(*fingerprint)) {
                Some((i, _)) => r == Some(&self@[i]),
                None => r is None,
            },
    {
        let ids = read_usb_ids(fingerprint);
        self.find_match_with_ids(device, ids.as_ref())
    }

    /// The quirk that speaks for the device, given its USB identity.
    pub fn find_match_with_ids(
        &self,
        device: &DeviceInfo,
        usb_ids: Option<&(String, String)>,
    ) -> (r: Option<&Quirk>)
        ensures
            match best_match(self@, device.name@, id_texts(usb_ids)) {
                Some((i, _)) => 0 <= i < self@.len() && r == Some(&self@[i]),
                None => r is None,
            },
    {
        match self.find_match_with_kind(device, usb_ids) {
            Some((quirk, _)) => Some(quirk),
            None => None,
        }
    }

    /// The quirk that speaks for the device, with the provenance of the match.
    pub fn find_match_with_kind(
        &self,
        device: &DeviceInfo,
        usb_ids: Option<&(String, String)>,
    ) -> (r: Option<(&Quirk, QuirkMatchKind)>)
        ensures
            match best_match(self@, device.name@, id_texts(usb_ids)) {
                Some((i, kind)) => 0 <= i < self@.len() && r == Some((&self@[i], kind)),
                None => r is None,
            },
    {
        let ghost quirks = self.quirks@;
        assert(quirks.take(quirks.len() as int) == quirks);
        if let Some(pair) = usb_ids {
            let ghost by_id = |q: Quirk| usb_id_match(q, pair.0@, pair.1@);
            let mut i: usize = self.quirks.len();
            while i > 0
                invariant
                    i <= self.quirks.len(),
                    quirks == self.quirks@,
                    by_id == (|q: Quirk| usb_id_match(q, pair.0@, pair.1@)),
                    last_where(quirks.take(i as int), by_id) == last_where(quirks, by_id),
                    usb_ids == Some(pair),
                decreases i,
            {
                i -= 1;
                let quirk = &self.quirks[i];
                let hit = match (&quirk.vendor_id, &quirk.product_id) {
                    (Some(v), Some(p)) => same_ignore_case(v.as_str(), pair.0.as_str())
                        && same_ignore_case(p.as_str(), pair.1.as_str()),
                    _ => false,
                };
                assert(hit == by_id(quirks.take(i as int + 1).last()));
                assert(quirks.take(i as int + 1).drop_last() == quirks.take(i as int));
                if hit {
                    return Some((quirk, QuirkMatchKind::UsbId));
                }
            }
        }
        let ghost by_name = |q: Quirk| name_match(q, device.name@);
        let mut i: usize = self.quirks.len();
        while i > 0
            invariant
                i <= self.quirks.len(),
                quirks == self.quirks@,
                by_name == (|q: Quirk| name_match(q, device.name@)),
                last_where(quirks.take(i as int), by_name) == last_where(quirks, by_name),
                match id_texts(usb_ids) {
                    Some((vendor, product)) => last_where(
                        quirks,
                        |q: Quirk| usb_id_match(q, vendor, product),
                    ) is None,
                    None => true,
                },
            decreases i,
        {
            i -= 1;
            let quirk = &self.quirks[i];
            let hit = match &quirk.name_pattern {
                Some(pattern) => name_matches(pattern.as_str(), device.name.as_str()),
                None => false,
            };
            assert(hit == by_name(quirks.take(i as int + 1).last()));
            assert(quirks.take(i as int + 1).drop_last() == quirks.take(i as int));
            if hit {
                return Some((quirk, QuirkMatchKind::NameOnly));
            }
        }
        None
    }

    /// All quirks, in the order in which they were loaded.
    pub fn all(&self) -> (r: &[Quirk])
        ensures
            r@ == self@,
    {
        self.quirks.as_slice()
    }

    /// Append one quirk.
    pub fn push_quirk_for_test(&mut self, quirk: Quirk)
        ensures
            final(self)@ == old(self)@.push(quirk),
    {
        self.quirks.push(quirk);
    }
}

/// The quirks of the files that could be read and parsed, one file after
/// another.
pub open spec fn file_quirks(files: Seq<Option<Vec<Quirk>>>) -> Seq<Quirk>
    decreases files.len(),
{
    if files.len() == 0 {
        Seq::empty()
    } else {
        file_quirks(files.drop_last()) + match files.last() {
            Some(quirks) => quirks@,
            None => Seq::empty(),
        }
    }
}

/// A file name whose extension is `toml`.
pub open spec fn is_quirks_file(name: Seq<char>) -> bool {
    crate::text::has_suffix(name, ".toml"@) && name.len() > ".toml"@.len()
}

/// The names of a directory that are loaded, in the order of loading: those
/// with the extension `toml`, alphabetically.
pub fn quirks_file_names(names: &Vec<String>) -> (r: Vec<String>)
    ensures
        crate::text::is_sorted(crate::text::texts(r@)),
        crate::text::texts(r@).to_multiset() == crate::text::texts(names@).filter(
            |n: Seq<char>| is_quirks_file(n),
        ).to_multiset(),
{
    let ghost keep = |n: Seq<char>| is_quirks_file(n);
    let mut kept: Vec<String> = Vec::new();
    let mut i: usize = 0;
    proof {
        reveal_strlit(".toml");
        reveal(Seq::filter);
    }
    assert(crate::text::texts(kept@) == crate::text::texts(names@).take(0).filter(keep));
    while i < names.len()
        invariant
            i <= names.len(),
            keep == (|n: Seq<char>| is_quirks_file(n)),
            ".toml"@.len() == 5,
            crate::text::texts(kept@) == crate::text::texts(names@).take(i as int).filter(keep),
        decreases names.len() - i,
    {
        let ghost upto = crate::text::texts(names@).take(i as int + 1);
        assert(upto.drop_last() == crate::text::texts(names@).take(i as int));
        assert(upto.last() == names[i as int]@);
        let ghost before = crate::text::texts(kept@);
        proof {
            reveal(Seq::filter);
        }
        let long_enough = chars_of(names[i].as_str()).len() > 5;
        if long_enough && ends_with(names[i].as_str(), ".toml") {
            kept.push(names[i].clone());
            assert(crate::text::texts(kept@) == before.push(names[i as int]@));
        }
        i += 1;
    }
    assert(crate::text::texts(names@).take(names.len() as int) == crate::text::texts(names@));
    sorted(kept)
}

// ---------------------------------------------------------------------------
// Hardware identity
// ---------------------------------------------------------------------------

/// The vendor:product pair of an identity that has both halves.
pub open spec fn usb_ids(fingerprint: DeviceFingerprint) -> Option<(Seq<char>, Seq<char>)> {
    match (fingerprint.vid, fingerprint.pid) {
        (Some(v), Some(p)) => Some((v@, p@)),
        _ => None,
    }
}

/// The vendor:product pair of an identity that has both halves.
pub fn read_usb_ids(fingerprint: &DeviceFingerprint) -> (r: Option<(String, String)>)
    ensures
        owned_id_texts(r) == usb_ids(*fingerprint),
{
    match (&fingerprint.vid, &fingerprint.pid) {
        (Some(v), Some(p)) => Some((v.clone(), p.clone())),
        _ => None,
    }
}

/// The content of a sysfs file as a value: trimmed, and absent if nothing is
/// left.
pub open spec fn attribute_value(content: Option<String>) -> Option<Seq<char>> {
    match content {
        Some(c) if crate::text::trim(c@).len() > 0 => Some(crate::text::trim(c@)),
        _ => None,
    }
}

/// The value of an attribute: the device's own, else the one a level up.
pub open spec fn attribute_of(a: SysfsAttribute) -> Option<Seq<char>> {
    match attribute_value(a.at_device) {
        Some(v) => Some(v),
        None => attribute_value(a.at_parent),
    }
}

/// The content of a sysfs file as a value.
pub fn try_read_sysfs_attr(content: &Option<String>) -> (r: Option<String>)
    ensures
        crate::text::opt_text(r) == attribute_value(*content),
{
    match content {
        Some(c) => {
            let t = trimmed(c.as_str());
            if t.as_str().is_empty() {
                None
            } else {
                Some(t)
            }
        },
        None => None,
    }
}

fn read_attr(a: &SysfsAttribute) -> (r: Option<String>)
    ensures
        crate::text::opt_text(r) == attribute_of(*a),
{
    match try_read_sysfs_attr(&a.at_device) {
        Some(v) => Some(v),
        None => try_read_sysfs_attr(&a.at_parent),
    }
}

/// Where an attribute of a device is looked for: at the device, then one level up.
pub open spec fn attribute_paths(device_path: Seq<char>, attribute: Seq<char>) -> Option<
    (Seq<char>, Seq<char>),
> {
    if crate::text::has_prefix(device_path, "/dev/"@) {
        let front = "/sys/class/video4linux/"@ + device_path.skip("/dev/"@.len() as int)
            + "/device"@;
        Some((front + "/"@ + attribute, front + "/.."@ + "/"@ + attribute))
    } else {
        None
    }
}

/// A value in lower case, if there is one.
pub open spec fn lowered(value: Option<Seq<char>>) -> Option<Seq<char>> {
    match value {
        Some(v) => Some(crate::text::ascii_lower(v)),
        None => None,
    }
}

/// The files that may hold an attribute of a video device: the one at the
/// device link and the one a level up. None for a path outside `/dev/`.
pub fn sysfs_attr_paths(device_path: &str, attribute: &str) -> (r: Option<(String, String)>)
    ensures
        match r {
            Some((own, parent)) => attribute_paths(device_path@, attribute@) == Some(
                (own@, parent@),
            ),
            None => attribute_paths(device_path@, attribute@) is None,
        },
{
    match strip_prefix(device_path, "/dev/") {
        Some(dev_name) => {
            let mut base = String::from_str("/sys/class/video4linux/");
            base.append(dev_name.as_str());
            base.append("/device");
            let mut own = base.clone();
            own.append("/");
            own.append(attribute);
            let mut parent = base;
            parent.append("/..");
            parent.append("/");
            parent.append(attribute);
            Some((own, parent))
        },
        None => None,
    }
}

/// The identity that sysfs gives a video device. Hex ids are made lowercase.
/// A path outside `/dev/` has no identity at all.
pub fn device_fingerprint(
    device_path: &str,
    vendor: &SysfsAttribute,
    product: &SysfsAttribute,
    serial: &SysfsAttribute,
    by_path: Option<String>,
) -> (r: DeviceFingerprint)
    ensures
        crate::text::has_prefix(device_path@, "/dev/"@) ==> {
            &&& crate::text::opt_text(r.vid) == lowered(attribute_of(*vendor))
            &&& crate::text::opt_text(r.pid) == lowered(attribute_of(*product))
            &&& crate::text::opt_text(r.serial) == attribute_of(*serial)
            &&& crate::text::opt_text(r.by_path) == crate::text::opt_text(by_path)
        },
        !crate::text::has_prefix(device_path@, "/dev/"@) ==> r.vid is None && r.pid is None
            && r.serial is None && r.by_path is None,
{
    if !starts_with(device_path, "/dev/") {
        return DeviceFingerprint::default();
    }
    let vid = match read_attr(vendor) {
        Some(v) => Some(lower(v.as_str())),
        None => None,
    };
    let pid = match read_attr(product) {
        Some(v) => Some(lower(v.as_str())),
        None => None,
    };
    DeviceFingerprint { vid, pid, serial: read_attr(serial), by_path }
}

impl Default for DeviceFingerprint {
    fn default() -> (r: Self)
        ensures
            r.vid is None,
            r.pid is None,
            r.serial is None,
            r.by_path is None,
    {
        DeviceFingerprint { vid: None, pid: None, serial: None, by_path: None }
    }
}

/// The name under `/dev/v4l/by-path` of the first link that resolves to the
/// device's canonical path.
pub fn by_path_name(target: &str, links: &Vec<ByPathLink>) -> (r: Option<String>)
    ensures
        match r {
            Some(name) => exists|i: int|
                {
                    &&& 0 <= i < links.len()
                    &&& name@ == (#[trigger] links[i]).file_name@
                    &&& crate::text::opt_text(links[i].resolved) == Some(target@)
                    &&& forall|k: int|
                        0 <= k < i ==> crate::text::opt_text((#[trigger] links[k]).resolved) != Some(target@)
                },
            None => forall|k: int|
                0 <= k < links.len() ==> crate::text::opt_text((#[trigger] links[k]).resolved) != Some(target@),
        },
{
    let mut i: usize = 0;
    while i < links.len()
        invariant
            i <= links.len(),
            forall|k: int| 0 <= k < i ==> crate::text::opt_text((#[trigger] links[k]).resolved) != Some(target@),
        decreases links.len() - i,
    {
        if let Some(resolved) = &links[i].resolved {
            if same(resolved.as_str(), target) {
                return Some(links[i].file_name.clone());
            }
        }
        i += 1;
    }
    None
}

// ---------------------------------------------------------------------------
// Laws
// ---------------------------------------------------------------------------

/// A quirk that names the device's USB identity always wins over one that
/// only describes its name, wherever they stand in the database.
pub proof fn law_usb_identity_beats_name(
    quirks: Seq<Quirk>,
    name: Seq<char>,
    vendor: Seq<char>,
    product: Seq<char>,
)
    ensures
        (exists|i: int| 0 <= i < quirks.len() && usb_id_match(#[trigger] quirks[i], vendor, product))
            <==> (best_match(quirks, name, Some((vendor, product))) matches Some((_, kind)) && kind
            == QuirkMatchKind::UsbId),
{
    lemma_last_where(quirks, |q: Quirk| usb_id_match(q, vendor, product));
}

/// Of two loaded quirks that name the device's USB identity, the earlier one
/// never speaks for it: a later file overrides an earlier one.
pub proof fn law_later_identities_override(
    quirks: Seq<Quirk>,
    name: Seq<char>,
    vendor: Seq<char>,
    product: Seq<char>,
    earlier: int,
    later: int,
)
    requires
        0 <= earlier < later < quirks.len(),
        usb_id_match(quirks[earlier], vendor, product),
        usb_id_match(quirks[later], vendor, product),
    ensures
        best_match(quirks, name, Some((vendor, product))) matches Some((i, kind)) && later <= i
            && kind == QuirkMatchKind::UsbId && usb_id_match(quirks[i], vendor, product),
        (forall|k: int|
            later < k < quirks.len() ==> !usb_id_match(#[trigger] quirks[k], vendor, product))
            ==> best_match(quirks, name, Some((vendor, product))) == Some(
            (later, QuirkMatchKind::UsbId),
        ),
{
    lemma_last_where(quirks, |q: Quirk| usb_id_match(q, vendor, product));
}

/// Of the loaded quirks whose pattern describes the name of a device without a
/// readable identity, the last speaks for it.
pub proof fn law_later_patterns_override(
    quirks: Seq<Quirk>,
    name: Seq<char>,
    later: int,
)
    requires
        0 <= later < quirks.len(),
        name_match(quirks[later], name),
        forall|k: int| later < k < quirks.len() ==> !name_match(#[trigger] quirks[k], name),
    ensures
        best_match(quirks, name, None) == Some((later, QuirkMatchKind::NameOnly)),
{
    lemma_last_where(quirks, |q: Quirk| name_match(q, name));
}

/// What the user's files say of a USB identity outranks what the system's say,
/// and the system's word stands where the user's files say nothing.
pub proof fn law_user_quirks_override_system_quirks(
    system: Seq<Quirk>,
    user: Seq<Quirk>,
    name: Seq<char>,
    vendor: Seq<char>,
    product: Seq<char>,
)
    ensures
        ({
            let ids = Some((vendor, product));
            let found = best_match(system + user, name, ids);
            let named = |quirks: Seq<Quirk>|
                last_where(quirks, |q: Quirk| usb_id_match(q, vendor, product));
            match (named(user), named(system)) {
                (Some(i), _) => found == Some((system.len() + i, QuirkMatchKind::UsbId)),
                (None, Some(i)) => found == Some((i, QuirkMatchKind::UsbId)),
                (None, None) => !(found matches Some((_, kind)) && kind == QuirkMatchKind::UsbId),
            }
        }),
{
    let holds = |q: Quirk| usb_id_match(q, vendor, product);
    lemma_last_where(user, holds);
    lemma_last_where(system, holds);
    lemma_last_where(system + user, holds);
    let all = system + user;
    assert forall|k: int| 0 <= k < system.len() implies #[trigger] all[k] == system[k] by {}
    assert forall|k: int| 0 <= k < user.len() implies all[system.len() + k] == #[trigger] user[k] by {}
    match last_where(user, holds) {
        Some(i) => {
            assert(holds(all[system.len() + i]));
        },
        None => {
            assert forall|k: int| system.len() <= k < all.len() implies !holds(#[trigger] all[k]) by {
                assert(all[k] == user[k - system.len()]);
            }
            match last_where(system, holds) {
                Some(i) => {
                    assert(holds(all[i]));
                },
                None => {},
            }
        },
    }
    if last_where(all, holds) is Some {
        let j = last_where(all, holds)->0;
        if j >= system.len() {
            assert(all[j] == user[j - system.len()]);
        } else {
            assert(all[j] == system[j]);
        }
    }
}

/// A quirk names a device exactly if it has both a vendor and a product, and both
/// are the device's, whatever the case of their letters.
pub proof fn law_both_halves_of_an_identity_count(
    quirk: Quirk,
    vendor: Seq<char>,
    product: Seq<char>,
)
    ensures
        usb_id_match(quirk, vendor, product) <==> {
            &&& quirk.vendor_id is Some && quirk.product_id is Some
            &&& crate::text::eq_ignore_case(quirk.vendor_id->0@, vendor)
            &&& crate::text::eq_ignore_case(quirk.product_id->0@, product)
        },
        name_match(quirk, vendor) <==> quirk.name_pattern is Some && pattern_matches(
            quirk.name_pattern->0@,
            vendor,
        ),
{
}

/// A wildcard stands for anything, and what is around it for itself, at the very
/// ends of the name.
pub proof fn law_a_wildcard_stands_for_anything(
    front: Seq<char>,
    back: Seq<char>,
    name: Seq<char>,
)
    requires
        !crate::text::contains(front, ".*"@),
        !crate::text::contains(back, ".*"@),
    ensures
        wildcard_matches(front + ".*"@ + back, name) <==> exists|middle: Seq<char>|
            name == #[trigger] (front + middle + back),
{
    reveal_strlit(".*");
    let mark = ".*"@;
    assert(mark.len() == 2 && mark[0] == '.' && mark[1] == '*');
    let pattern = front + mark + back;
    let n = front.len() as int;
    crate::text::law_find_is_leftmost(pattern, mark, front, back);
    crate::text::lemma_find(pattern, mark);
    let at = crate::text::find(pattern, mark)->0 as int;
    if at < n {
        assert(pattern.subrange(at, at + 2) == mark);
        if at + 2 <= n {
            assert(front.subrange(at, at + 2) =~= pattern.subrange(at, at + 2));
            crate::text::law_contained_stands_somewhere(front, mark);
        } else {
            assert(pattern.subrange(at, at + 2)[1] == pattern[at + 1]);
            assert(pattern[n] == mark[0]);
        }
    }
    assert(at == n);
    assert(pattern.take(n) =~= front);
    assert(pattern.skip(n + 2) =~= back);
    assert(crate::text::split(back, mark) =~= seq![back]);
    let parts = crate::text::split(pattern, mark);
    assert(parts =~= seq![front, back]);
    assert(parts.skip(1) =~= seq![back]);
    reveal_with_fuel(glob, 3);
    if wildcard_matches(pattern, name) {
        let i = choose|i: int|
            front.len() <= i <= name.len() && glob(parts.skip(1), #[trigger] name.skip(i));
        let middle = name.subrange(n, i);
        assert(name =~= front + middle + back);
    }
    if exists|middle: Seq<char>| name == #[trigger] (front + middle + back) {
        let middle = choose|middle: Seq<char>| name == #[trigger] (front + middle + back);
        let i = n + middle.len();
        assert(name.take(n) =~= front);
        assert(name.skip(i) =~= back);
        assert(glob(parts.skip(1), name.skip(i)));
    }
}

/// The mark in front of a pattern makes it blind to case, and is no part of it.
pub proof fn law_the_mark_makes_a_pattern_blind_to_case(pattern: Seq<char>, name: Seq<char>)
    ensures
        pattern_matches("(?i)"@ + pattern, name) == wildcard_matches(
            crate::text::lowercase(pattern),
            crate::text::lowercase(name),
        ),
        !crate::text::has_prefix(pattern, "(?i)"@) ==> pattern_matches(pattern, name)
            == wildcard_matches(pattern, name),
{
    let whole = "(?i)"@ + pattern;
    let n = "(?i)"@.len() as int;
    assert(whole.take(n) =~= "(?i)"@);
    assert(whole.skip(n) =~= pattern);
}

/// A pattern that says nothing fits every name.
pub proof fn law_an_empty_pattern_fits_every_name(name: Seq<char>)
    ensures
        wildcard_matches(Seq::empty(), name),
        pattern_matches(Seq::empty(), name),
{
    reveal_strlit("(?i)");
}

/// Files are loaded one after another, each as a whole; one that could not be read
/// adds nothing. Only names with the extension are files of quirks.
pub proof fn law_files_are_loaded_in_order(
    files: Seq<Option<Vec<Quirk>>>,
    file: Vec<Quirk>,
    stem: Seq<char>,
)
    ensures
        file_quirks(files.push(Some(file))) == file_quirks(files) + file@,
        file_quirks(files.push(None)) == file_quirks(files),
        file_quirks(Seq::empty()) == Seq::<Quirk>::empty(),
        is_quirks_file(stem + ".toml"@) <==> stem.len() > 0,
{
    reveal_strlit(".toml");
    assert(files.push(Some(file)).drop_last() =~= files);
    assert(files.push(None).drop_last() =~= files);
    assert(file_quirks(files.push(None)) =~= file_quirks(files));
    let name = stem + ".toml"@;
    assert(name.skip(stem.len() as int) =~= ".toml"@);
}

/// A device has a USB identity exactly if both halves could be read, and an
/// attribute is the device's own wherever it has one.
pub proof fn law_an_identity_has_both_halves(f: DeviceFingerprint, a: SysfsAttribute)
    ensures
        usb_ids(f) is Some <==> f.vid is Some && f.pid is Some,
        usb_ids(f) matches Some((v, p)) ==> v == f.vid->0@ && p == f.pid->0@,
        a.at_device matches Some(c) && crate::text::trim(c@).len() > 0 ==> attribute_of(a) == Some(
            crate::text::trim(a.at_device->0@),
        ),
        (a.at_device is None || crate::text::trim(a.at_device->0@).len() == 0) && a.at_parent is Some
            && crate::text::trim(a.at_parent->0@).len() > 0 ==> attribute_of(a) == Some(
            crate::text::trim(a.at_parent->0@),
        ),
        attribute_of(a) matches Some(v) ==> v.len() > 0,
{
}

/// Whether case is all in which two identities differ makes no difference to them:
/// they are compared in lower case.
pub proof fn law_identities_are_in_lower_case(a: Seq<char>, b: Seq<char>)
    ensures
        crate::text::eq_ignore_case(a, b) <==> lowered(Some(a)) == lowered(Some(b)),
        lowered(None) is None,
        lowered(Some(a)) matches Some(l) && l.len() == a.len(),
        lowered(Some(a)) matches Some(l) && forall|i: int|
            0 <= i < l.len() ==> !('A' <= #[trigger] l[i] && l[i] <= 'Z'),
{
}

/// An attribute of a device is looked for under the device's own name, at the device
/// and then one level up.
pub proof fn law_an_attribute_is_under_the_devices_name(name: Seq<char>, attribute: Seq<char>)
    ensures
        attribute_paths("/dev/"@ + name, attribute) == Some(
            (
                "/sys/class/video4linux/"@ + name + "/device/"@ + attribute,
                "/sys/class/video4linux/"@ + name + "/device/../"@ + attribute,
            ),
        ),
        !crate::text::has_prefix(name, "/dev/"@) ==> attribute_paths(name, attribute) is None,
{
    reveal_strlit("/dev/");
    reveal_strlit("/device");
    reveal_strlit("/");
    reveal_strlit("/..");
    reveal_strlit("/device/");
    reveal_strlit("/device/../");
    let path = "/dev/"@ + name;
    let front = "/sys/class/video4linux/"@ + name;
    assert(path.take("/dev/"@.len() as int) =~= "/dev/"@);
    assert(path.skip("/dev/"@.len() as int) =~= name);
    assert("/device"@ + "/"@ =~= "/device/"@);
    assert("/device"@ + "/.."@ + "/"@ =~= "/device/../"@);
    assert(front + "/device"@ + "/"@ + attribute =~= front + "/device/"@ + attribute);
    assert(front + "/device"@ + "/.."@ + "/"@ + attribute =~= front + "/device/../"@ + attribute);
}

/// A device without a readable USB identity is never matched by identity.
pub proof fn law_no_identity_no_usb_match(quirks: Seq<Quirk>, name: Seq<char>)
    ensures
        best_match(quirks, name, None) matches Some((_, kind)) ==> kind
            == QuirkMatchKind::NameOnly,
{
}

/// A pattern without a wildcard describes exactly one name: itself.
pub proof fn law_pattern_without_wildcard_is_exact(pattern: Seq<char>, name: Seq<char>)
    requires
        pattern.len() > 0,
        !crate::text::contains(pattern, ".*"@),
    ensures
        wildcard_matches(pattern, name) <==> name == pattern,
{
    assert(crate::text::split(pattern, ".*"@) =~= seq![pattern]);
}

} // verus!
