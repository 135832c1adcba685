//! Which file a service name means: confinement, the search path, links.

use crate::pam::message::PamMessage;
use crate::paths::{absolute, joined_path, same_path, under};
use crate::text::{chars_of, joined, same};
use vstd::prelude::*;
use vstd::string::*;

verus! {

/// The directory that every write lands in by default.
pub const PAM_DIR: &'static str = "/etc/pam.d";

/// The vendor directory that is searched after it by default.
pub const VENDOR_PAM_DIR: &'static str = "/usr/lib/pam.d";

/// Suffix of the copy taken before any edit.
pub const BACKUP_SUFFIX: &'static str = ".facelock-backup";

// ---------------------------------------------------------------------------
// The search path
// ---------------------------------------------------------------------------

/// Where a service name is looked up, in order. Only the first directory is
/// ever written to; there always is one.
#[derive(Debug, PartialEq, Eq)]
pub struct PamDirs {
    dirs: Vec<String>,
}

/// The default search path.
pub open spec fn default_dirs() -> Seq<Seq<char>> {
    seq![PAM_DIR@, VENDOR_PAM_DIR@]
}

/// A directory as the file system names it; by its own spelling where it
/// cannot be resolved.
pub open spec fn canonical_dir(dir: Seq<char>, resolved: Option<String>) -> Seq<char> {
    match resolved {
        Some(c) => c@,
        None => dir,
    }
}

/// Whether a configured list can be the search path: it is not empty, every
/// entry is absolute, and the first is not also a later one under another name.
pub open spec fn is_usable(dirs: Seq<Seq<char>>, canonical: Seq<Option<String>>) -> bool {
    &&& dirs.len() > 0
    &&& forall|i: int| 0 <= i < dirs.len() ==> crate::paths::is_absolute(#[trigger] dirs[i])
    &&& forall|i: int|
        1 <= i < dirs.len() ==> crate::paths::components(
            canonical_dir(#[trigger] dirs[i], canonical[i]),
        ) != crate::paths::components(canonical_dir(dirs[0], canonical[0]))
}

impl View for PamDirs {
    type V = Seq<Seq<char>>;

    closed spec fn view(&self) -> Seq<Seq<char>> {
        crate::text::texts(self.dirs@)
    }
}

impl Default for PamDirs {
    fn default() -> (r: Self)
        ensures
            r@ == default_dirs(),
    {
        let mut dirs: Vec<String> = Vec::new();
        dirs.push(String::from_str(PAM_DIR));
        dirs.push(String::from_str(VENDOR_PAM_DIR));
        assert(crate::text::texts(dirs@) == default_dirs());
        PamDirs { dirs }
    }
}

impl PamDirs {
    #[verifier::type_invariant]
    spec fn has_override_directory(self) -> bool {
        self.dirs.len() > 0
    }

    /// The configured list, or the default where it cannot be used. The whole
    /// list is rejected rather than an entry left out: a list with a hole in it
    /// is not the order anyone wrote down. `canonical` holds the resolved name
    /// of each directory, where there is one.
    pub fn new(dirs: Vec<String>, canonical: &Vec<Option<String>>) -> (r: Self)
        requires
            canonical.len() == dirs.len(),
        ensures
            r@ == if is_usable(crate::text::texts(dirs@), canonical@) {
                crate::text::texts(dirs@)
            } else {
                default_dirs()
            },
    {
        let ghost all = crate::text::texts(dirs@);
        if dirs.len() == 0 {
            return PamDirs::default();
        }
        let mut i: usize = 0;
        while i < dirs.len()
            invariant
                i <= dirs.len(),
                all == crate::text::texts(dirs@),
                forall|k: int| 0 <= k < i ==> crate::paths::is_absolute(#[trigger] all[k]),
            decreases dirs.len() - i,
        {
            assert(all[i as int] == dirs[i as int]@);
            if !absolute(dirs[i].as_str()) {
                return PamDirs::default();
            }
            i += 1;
        }
        let first = Self::canonical_of(&dirs, canonical, 0);
        let mut i: usize = 1;
        while i < dirs.len()
            invariant
                1 <= i <= dirs.len(),
                canonical.len() == dirs.len(),
                all == crate::text::texts(dirs@),
                first@ == canonical_dir(all[0], canonical[0]),
                forall|k: int|
                    1 <= k < i ==> crate::paths::components(
                        canonical_dir(#[trigger] all[k], canonical[k]),
                    ) != crate::paths::components(first@),
            decreases dirs.len() - i,
        {
            let other = Self::canonical_of(&dirs, canonical, i);
            assert(other@ == canonical_dir(all[i as int], canonical[i as int]));
            if same_path(other.as_str(), first.as_str()) {
                return PamDirs::default();
            }
            i += 1;
        }
        PamDirs { dirs }
    }

    fn canonical_of(dirs: &Vec<String>, canonical: &Vec<Option<String>>, i: usize) -> (r: String)
        requires
            i < dirs.len(),
            canonical.len() == dirs.len(),
        ensures
            r@ == canonical_dir(crate::text::texts(dirs@)[i as int], canonical[i as int]),
    {
        match &canonical[i] {
            Some(c) => c.clone(),
            None => dirs[i].clone(),
        }
    }

    /// A search path of one directory. A relative one is no search path, and
    /// gives the default.
    pub fn only(dir: &str) -> (r: Self)
        ensures
            r@ == if crate::paths::is_absolute(dir@) {
                seq![dir@]
            } else {
                default_dirs()
            },
    {
        let mut dirs: Vec<String> = Vec::new();
        dirs.push(String::from_str(dir));
        assert(crate::text::texts(dirs@) == seq![dir@]);
        if !absolute(dir) {
            return PamDirs::default();
        }
        PamDirs { dirs }
    }

    /// The directory that writes land in: the first.
    pub fn overrides(&self) -> (r: &str)
        ensures
            self@.len() > 0,
            r@ == self@[0],
    {
        proof {
            use_type_invariant(self);
        }
        self.dirs[0].as_str()
    }

    /// The directories, in search order.
    pub fn iter(&self) -> (r: &Vec<String>)
        ensures
            crate::text::texts(r@) == self@,
            r.len() > 0,
    {
        proof {
            use_type_invariant(self);
        }
        &self.dirs
    }

    /// The whole search path, for a message that names where it looked.
    pub fn display(&self) -> (r: String)
        ensures
            r@ == crate::text::join(self@, ", "@),
    {
        joined(&self.dirs, ", ")
    }
}

// ---------------------------------------------------------------------------
// Names
// ---------------------------------------------------------------------------

/// Whether a service name is one path component: it is not empty, holds no
/// slash and no NUL, and is not a name for this directory or its parent.
pub open spec fn is_confined(service: Seq<char>) -> bool {
    &&& service.len() > 0
    &&& !service.contains('/')
    &&& !service.contains('\0')
    &&& service != "."@
    &&& service != ".."@
}

/// A service name is one path component. Anything else is refused before any
/// file is looked at: joining an absolute name to a directory would replace
/// the directory.
pub fn confined(service: &str) -> (r: Result<(), PamMessage>)
    ensures
        match r {
            Ok(_) => is_confined(service@),
            Err(m) => !is_confined(service@) && m@ == (PamMessage::PamInvalidServiceName {
                service: service@,
            }),
        },
{
    let v = chars_of(service);
    let mut plain = v.len() > 0 && !same(service, ".") && !same(service, "..");
    let mut i: usize = 0;
    while i < v.len()
        invariant
            i <= v.len(),
            v@ == service@,
            plain == (v.len() > 0 && service@ != "."@ && service@ != ".."@ && forall|k: int|
                0 <= k < i ==> #[trigger] v@[k] != '/' && v@[k] != '\0'),
        decreases v.len() - i,
    {
        if v[i] == '/' || v[i] == '\0' {
            plain = false;
        }
        i += 1;
    }
    if plain {
        assert(!service@.contains('/') && !service@.contains('\0'));
        Ok(())
    } else {
        Err(PamMessage::PamInvalidServiceName { service: String::from_str(service) })
    }
}

// ---------------------------------------------------------------------------
// Files
// ---------------------------------------------------------------------------

/// What looking at a directory entry found, without following a link.
#[derive(Debug, Clone, PartialEq, Eq)]
pub enum EntryProbe<S = String> {
    /// There is no such entry.
    NotFound,
    /// There may be one, but it could not be examined.
    Unexamined,
    /// An entry that is no symbolic link. `links` counts the names of a
    /// regular file; it is missing where the entry is none or was not counted.
    Plain { links: Option<u64> },
    /// A symbolic link: the file it resolves to, the directory as the file
    /// system names it, what the link itself says, and how many names the file
    /// has, each missing where it could not be found out.
    Symlink { target: Option<S>, root: Option<S>, points_to: Option<S>, links: Option<u64> },
}

impl View for EntryProbe<String> {
    type V = EntryProbe<Seq<char>>;

    open spec fn view(&self) -> EntryProbe<Seq<char>> {
        match *self {
            EntryProbe::NotFound => EntryProbe::NotFound,
            EntryProbe::Unexamined => EntryProbe::Unexamined,
            EntryProbe::Plain { links } => EntryProbe::Plain { links },
            EntryProbe::Symlink { target, root, points_to, links } => EntryProbe::Symlink {
                target: crate::text::opt_text(target),
                root: crate::text::opt_text(root),
                points_to: crate::text::opt_text(points_to),
                links,
            },
        }
    }
}

/// The probes with character sequences for strings.
pub open spec fn probes_view(probes: Seq<EntryProbe>) -> Seq<EntryProbe<Seq<char>>> {
    probes.map_values(|p: EntryProbe| p@)
}

/// Which directory of the search path a name was found in.
#[derive(Debug, Clone, PartialEq, Eq)]
pub enum Origin<S = String, L = Vec<String>> {
    /// In the override directory: the file is edited in place.
    Local,
    /// Only in a vendor directory. A write goes to the override path instead.
    Vendor { override_path: S },
    /// Nowhere. Every path that was tried.
    Nowhere { tried: L },
}

/// Why a service could not be resolved.
#[derive(Debug, Clone, PartialEq, Eq)]
pub enum Rejected<S = String> {
    /// The name is not one path component.
    Name,
    /// The entry is a symbolic link out of the directory it was found in, or
    /// one that cannot be shown to stay inside.
    OutOfBase { link: S, target: S, base: S },
    /// The file has more than one name, and where the others are is unknown.
    HardLinked { link: S, links: u64 },
}

impl View for Origin<String, Vec<String>> {
    type V = Origin<Seq<char>, Seq<Seq<char>>>;

    open spec fn view(&self) -> Origin<Seq<char>, Seq<Seq<char>>> {
        match *self {
            Origin::Local => Origin::Local,
            Origin::Vendor { override_path } => Origin::Vendor { override_path: override_path@ },
            Origin::Nowhere { tried } => Origin::Nowhere { tried: crate::text::texts(tried@) },
        }
    }
}

impl View for Rejected<String> {
    type V = Rejected<Seq<char>>;

    open spec fn view(&self) -> Rejected<Seq<char>> {
        match *self {
            Rejected::Name => Rejected::Name,
            Rejected::OutOfBase { link, target, base } => Rejected::OutOfBase {
                link: link@,
                target: target@,
                base: base@,
            },
            Rejected::HardLinked { link, links } => Rejected::HardLinked { link: link@, links },
        }
    }
}

/// The path, or the refusal of a file with more than one name.
pub open spec fn link_checked(path: Seq<char>, links: Option<u64>) -> Result<
    Seq<char>,
    Rejected<Seq<char>>,
> {
    match links {
        Some(n) if n > 1 => Err(Rejected::HardLinked { link: path, links: n }),
        _ => Ok(path),
    }
}

/// What one directory answers for one entry: nothing when there is none, else
/// the file to act on or the reason not to.
pub open spec fn entry_answer(
    base: Seq<char>,
    entry: Seq<char>,
    probe: EntryProbe<Seq<char>>,
) -> Option<Result<Seq<char>, Rejected<Seq<char>>>> {
    match probe {
        EntryProbe::NotFound => None,
        EntryProbe::Unexamined => Some(Ok(entry)),
        EntryProbe::Plain { links } => Some(link_checked(entry, links)),
        EntryProbe::Symlink { target: Some(target), root, links, .. } => if root is Some
            && crate::paths::is_under(target, root->0) {
            Some(link_checked(target, links))
        } else {
            Some(Err(Rejected::OutOfBase { link: entry, target, base }))
        },
        EntryProbe::Symlink { target: None, points_to, .. } => Some(
            Err(
                Rejected::OutOfBase {
                    link: entry,
                    target: match points_to {
                        Some(p) => p,
                        None => entry,
                    },
                    base,
                },
            ),
        ),
    }
}

/// The result of a resolution with character sequences for strings.
pub open spec fn path_result(r: Result<String, Rejected>) -> Result<
    Seq<char>,
    Rejected<Seq<char>>,
> {
    match r {
        Ok(p) => Ok(p@),
        Err(e) => Err(e@),
    }
}

fn hard_link_checked(path: String, links: Option<u64>) -> (r: Result<String, Rejected>)
    ensures
        path_result(r) == link_checked(path@, links),
{
    match links {
        Some(n) => if n > 1 {
            Err(Rejected::HardLinked { link: path, links: n })
        } else {
            Ok(path)
        },
        None => Ok(path),
    }
}

/// What one directory answers for one entry. Only an absent entry lets the
/// search go on: one that exists and is refused is still an answer.
pub fn resolve_in(base: &str, entry: &str, probe: &EntryProbe) -> (r: Option<
    Result<String, Rejected>,
>)
    ensures
        match r {
            Some(a) => entry_answer(base@, entry@, probe@) == Some(path_result(a)),
            None => entry_answer(base@, entry@, probe@) is None,
        },
{
    match probe {
        EntryProbe::NotFound => None,
        EntryProbe::Unexamined => Some(Ok(String::from_str(entry))),
        EntryProbe::Plain { links } => Some(hard_link_checked(String::from_str(entry), *links)),
        EntryProbe::Symlink { target, root, points_to, links } => match target {
            Some(target) => {
                if let Some(root) = root {
                    if under(target.as_str(), root.as_str()) {
                        return Some(hard_link_checked(target.clone(), *links));
                    }
                }
                Some(
                    Err(
                        Rejected::OutOfBase {
                            link: String::from_str(entry),
                            target: target.clone(),
                            base: String::from_str(base),
                        },
                    ),
                )
            },
            None => {
                let target = match points_to {
                    Some(p) => p.clone(),
                    None => String::from_str(entry),
                };
                Some(
                    Err(
                        Rejected::OutOfBase {
                            link: String::from_str(entry),
                            target,
                            base: String::from_str(base),
                        },
                    ),
                )
            },
        },
    }
}

/// The paths at which a service is looked for.
pub open spec fn entry_paths(dirs: Seq<Seq<char>>, service: Seq<char>) -> Seq<Seq<char>> {
    dirs.map_values(|d: Seq<char>| crate::paths::join_path(d, service))
}

/// What the search finds from directory `i` on: the answer of the first that
/// has an entry, refusals included.
pub open spec fn search(
    dirs: Seq<Seq<char>>,
    service: Seq<char>,
    probes: Seq<EntryProbe<Seq<char>>>,
    i: int,
) -> Result<(Seq<char>, Origin<Seq<char>, Seq<Seq<char>>>), Rejected<Seq<char>>>
    decreases dirs.len() - i,
{
    if i >= dirs.len() {
        Ok(
            (
                crate::paths::join_path(dirs[0], service),
                Origin::Nowhere { tried: entry_paths(dirs, service) },
            ),
        )
    } else {
        match entry_answer(dirs[i], crate::paths::join_path(dirs[i], service), probes[i]) {
            None => search(dirs, service, probes, i + 1),
            Some(Err(e)) => Err(e),
            Some(Ok(path)) => Ok(
                (
                    path,
                    if i == 0 {
                        Origin::Local
                    } else {
                        Origin::Vendor {
                            override_path: crate::paths::join_path(dirs[0], service),
                        }
                    },
                ),
            ),
        }
    }
}

/// The result of a search with character sequences for strings.
pub open spec fn search_result(r: Result<(String, Origin), Rejected>) -> Result<
    (Seq<char>, Origin<Seq<char>, Seq<Seq<char>>>),
    Rejected<Seq<char>>,
> {
    match r {
        Ok((p, o)) => Ok((p@, o@)),
        Err(e) => Err(e@),
    }
}

/// The file that a confined service name means on the search path, and where
/// it was found, or the reason it cannot be written through. `probes` holds
/// what each directory has under the name.
pub fn resolve_service_path(
    dirs: &PamDirs,
    service: &str,
    probes: &Vec<EntryProbe>,
) -> (r: Result<(String, Origin), Rejected>)
    requires
        probes.len() == dirs@.len(),
    ensures
        search_result(r) == search(dirs@, service@, probes_view(probes@), 0),
{
    let list = dirs.iter();
    let overrides = dirs.overrides();
    let ghost all = dirs@;
    let ghost seen = probes_view(probes@);
    let mut tried: Vec<String> = Vec::new();
    let mut i: usize = 0;
    while i < list.len()
        invariant
            i <= list.len(),
            list.len() == probes.len(),
            list.len() > 0,
            all == crate::text::texts(list@),
            overrides@ == all[0],
            seen == probes_view(probes@),
            crate::text::texts(tried@) == entry_paths(all, service@).take(i as int),
            search(all, service@, seen, 0) == search(all, service@, seen, i as int),
            all == dirs@,
        decreases list.len() - i,
    {
        assert(all[i as int] == list[i as int]@);
        assert(seen[i as int] == probes[i as int]@);
        let entry = joined_path(list[i].as_str(), service);
        match resolve_in(list[i].as_str(), entry.as_str(), &probes[i]) {
            None => {
                let ghost before = crate::text::texts(tried@);
                tried.push(entry);
                assert(crate::text::texts(tried@) == before.push(entry@));
            },
            Some(Err(e)) => {
                return Err(e);
            },
            Some(Ok(path)) => {
                let origin = if i == 0 {
                    Origin::Local
                } else {
                    Origin::Vendor { override_path: joined_path(overrides, service) }
                };
                return Ok((path, origin));
            },
        }
        i += 1;
    }
    assert(crate::text::texts(tried@) == entry_paths(all, service@));
    Ok((joined_path(overrides, service), Origin::Nowhere { tried }))
}

/// The path of the copy that is taken before an edit.
pub open spec fn backup_of(path: Seq<char>) -> Seq<char> {
    path + BACKUP_SUFFIX@
}

/// The path of the copy that is taken before an edit.
pub fn backup_path(path: &str) -> (r: String)
    ensures
        r@ == backup_of(path@),
{
    let mut out = String::from_str(path);
    out.append(BACKUP_SUFFIX);
    out
}

/// Where a write lands: the file itself, or the override of a vendor file.
pub open spec fn write_path_of(
    path: Seq<char>,
    origin: Origin<Seq<char>, Seq<Seq<char>>>,
) -> Seq<char> {
    match origin {
        Origin::Vendor { override_path } => override_path,
        _ => path,
    }
}

/// Where a write lands: the file itself, or the override of a vendor file.
pub fn write_target<'a>(path: &'a str, origin: &'a Origin) -> (r: &'a str)
    ensures
        r@ == write_path_of(path@, origin@),
{
    match origin {
        Origin::Vendor { override_path } => override_path.as_str(),
        _ => path,
    }
}

/// The machine reason of a refusal: a fixed text, the same in every language.
pub open spec fn rejected_reason(why: Rejected<Seq<char>>) -> Seq<char> {
    match why {
        Rejected::Name => "invalid service name"@,
        Rejected::OutOfBase { .. } => "symlinked outside /etc/pam.d"@,
        Rejected::HardLinked { .. } => "hard-linked service file"@,
    }
}

/// The refusal as a message to the operator.
pub open spec fn rejected_message(
    why: Rejected<Seq<char>>,
    service: Seq<char>,
) -> PamMessage<Seq<char>> {
    match why {
        Rejected::Name => PamMessage::PamInvalidServiceName { service },
        Rejected::OutOfBase { link, target, base } => PamMessage::PamServiceSymlinkedOutside {
            path: link,
            target,
            dir: base,
        },
        Rejected::HardLinked { link, links } => PamMessage::PamServiceHardLinked {
            path: link,
            links,
        },
    }
}

/// The entry that a refusal is about. A refused name has none.
pub open spec fn rejected_link(why: Rejected<Seq<char>>) -> Option<Seq<char>> {
    match why {
        Rejected::Name => None,
        Rejected::OutOfBase { link, .. } => Some(link),
        Rejected::HardLinked { link, .. } => Some(link),
    }
}

impl Rejected<String> {
    /// The machine reason, never localized.
    pub fn reason(&self) -> (r: &'static str)
        ensures
            r@ == rejected_reason(self@),
    {
        match self {
            Rejected::Name => "invalid service name",
            Rejected::OutOfBase { .. } => "symlinked outside /etc/pam.d",
            Rejected::HardLinked { .. } => "hard-linked service file",
        }
    }

    /// The refusal as a message to the operator.
    pub fn message(&self, service: &str) -> (r: PamMessage)
        ensures
            r@ == rejected_message(self@, service@),
    {
        match self {
            Rejected::Name => PamMessage::PamInvalidServiceName {
                service: String::from_str(service),
            },
            Rejected::OutOfBase { link, target, base } => PamMessage::PamServiceSymlinkedOutside {
                path: link.clone(),
                target: target.clone(),
                dir: base.clone(),
            },
            Rejected::HardLinked { link, links } => PamMessage::PamServiceHardLinked {
                path: link.clone(),
                links: *links,
            },
        }
    }

    /// The entry that this is about. A refused name has none: the path it
    /// would have resolved to was never looked at.
    pub fn link(&self) -> (r: Option<&str>)
        ensures
            match r {
                Some(p) => rejected_link(self@) == Some(p@),
                None => rejected_link(self@) is None,
            },
    {
        match self {
            Rejected::Name => None,
            Rejected::OutOfBase { link, .. } => Some(link.as_str()),
            Rejected::HardLinked { link, .. } => Some(link.as_str()),
        }
    }

    /// The path that a report row names.
    pub fn path(&self) -> (r: Option<String>)
        ensures
            crate::text::opt_text(r) == rejected_link(self@),
    {
        match self.link() {
            Some(p) => Some(String::from_str(p)),
            None => None,
        }
    }
}

// ---------------------------------------------------------------------------
// Laws
// ---------------------------------------------------------------------------

proof fn lemma_search_step(
    dirs: Seq<Seq<char>>,
    service: Seq<char>,
    probes: Seq<EntryProbe<Seq<char>>>,
    i: int,
)
    requires
        dirs.len() > 0,
        probes.len() == dirs.len(),
        0 <= i <= dirs.len(),
    ensures
        search(dirs, service, probes, i) matches Ok((path, origin)) ==> match origin {
            Origin::Vendor { override_path } => override_path == crate::paths::join_path(
                dirs[0],
                service,
            ),
            Origin::Nowhere { .. } => path == crate::paths::join_path(dirs[0], service),
            Origin::Local => i == 0 && entry_answer(
                dirs[0],
                crate::paths::join_path(dirs[0], service),
                probes[0],
            ) == Some(Ok::<Seq<char>, Rejected<Seq<char>>>(path)),
        },
    decreases dirs.len() - i,
{
    if i < dirs.len() {
        lemma_search_step(dirs, service, probes, i + 1);
    }
}

/// A confined name stays inside whichever directory it is looked for in, one
/// level down.
pub proof fn law_confined_name_stays_inside(dirs: Seq<Seq<char>>, service: Seq<char>, i: int)
    requires
        is_confined(service),
        0 <= i < dirs.len(),
    ensures
        crate::paths::components(entry_paths(dirs, service)[i]) == crate::paths::components(
            dirs[i],
        ).push(service),
        crate::paths::is_under(entry_paths(dirs, service)[i], dirs[i]),
{
    reveal_strlit(".");
    crate::paths::law_plain_name_stays_inside(dirs[i], service);
}

/// A service name is any text of at least one character without a slash or a NUL,
/// but for the names of this directory and its parent.
pub proof fn law_a_service_name_is_one_component(service: Seq<char>)
    ensures
        is_confined(service) <==> {
            &&& service.len() > 0
            &&& forall|k: int|
                0 <= k < service.len() ==> #[trigger] service[k] != '/' && service[k] != '\0'
            &&& service != seq!['.']
            &&& service != seq!['.', '.']
        },
{
    reveal_strlit(".");
    reveal_strlit("..");
    assert("."@ =~= seq!['.']);
    assert(".."@ =~= seq!['.', '.']);
    if is_confined(service) {
        assert forall|k: int| 0 <= k < service.len() implies #[trigger] service[k] != '/'
            && service[k] != '\0' by {
            if service[k] == '/' {
                assert(service.contains('/'));
            }
            if service[k] == '\0' {
                assert(service.contains('\0'));
            }
        }
    }
}

/// The search path is `/etc/pam.d` and then the vendor directory, unless a list
/// was configured that is not empty, is absolute throughout, and does not have its
/// first directory among the later ones under another name.
pub proof fn law_the_search_path_is_absolute_and_writes_to_its_own(
    dirs: Seq<Seq<char>>,
    canonical: Seq<Option<String>>,
)
    ensures
        default_dirs() == seq!["/etc/pam.d"@, "/usr/lib/pam.d"@],
        is_usable(dirs, canonical) ==> {
            &&& dirs.len() > 0
            &&& forall|i: int|
                0 <= i < dirs.len() ==> (#[trigger] dirs[i]).len() > 0 && dirs[i][0] == '/'
        },
        dirs.len() == 1 && dirs[0].len() > 0 && dirs[0][0] == '/' ==> is_usable(dirs, canonical),
        dirs.len() > 1 && is_usable(dirs, canonical) && canonical[0] is Some && canonical[1] is Some
            ==> canonical[0]->0@ != canonical[1]->0@,
{
    assert forall|d: Seq<char>| #[trigger] crate::paths::is_absolute(d) <==> d.len() > 0 && d[0]
        == '/' by {
        crate::paths::law_a_slash_joins_a_name(d, d);
    }
    if dirs.len() > 1 && is_usable(dirs, canonical) {
        assert(crate::paths::components(canonical_dir(dirs[1], canonical[1]))
            != crate::paths::components(canonical_dir(dirs[0], canonical[0])));
    }
}

/// What an entry means: nothing where there is none; the entry itself where it is a
/// plain file, or cannot be examined; the file behind a link exactly where that
/// lies below the directory; and in every case nothing but a refusal for a file
/// with more than one name.
pub proof fn law_links_are_followed_only_inside(
    base: Seq<char>,
    entry: Seq<char>,
    target: Seq<char>,
    root: Seq<char>,
    says: Option<Seq<char>>,
    links: Option<u64>,
)
    ensures
        ({
            let link = entry_answer(
                base,
                entry,
                EntryProbe::Symlink { target: Some(target), root: Some(root), points_to: says, links },
            );
            let plain = entry_answer(base, entry, EntryProbe::Plain { links });
            let single = links is None || links->0 <= 1;
            &&& entry_answer(base, entry, EntryProbe::NotFound) is None
            &&& entry_answer(base, entry, EntryProbe::Unexamined) == Some(
                Ok::<Seq<char>, Rejected<Seq<char>>>(entry),
            )
            &&& single ==> plain == Some(Ok::<Seq<char>, Rejected<Seq<char>>>(entry))
            &&& !single ==> plain == Some(
                Err::<Seq<char>, Rejected<Seq<char>>>(
                    Rejected::HardLinked { link: entry, links: links->0 },
                ),
            )
            &&& crate::paths::is_under(target, root) && single ==> link == Some(
                Ok::<Seq<char>, Rejected<Seq<char>>>(target),
            )
            &&& crate::paths::is_under(target, root) && !single ==> link == Some(
                Err::<Seq<char>, Rejected<Seq<char>>>(
                    Rejected::HardLinked { link: target, links: links->0 },
                ),
            )
            &&& !crate::paths::is_under(target, root) ==> link == Some(
                Err::<Seq<char>, Rejected<Seq<char>>>(
                    Rejected::OutOfBase { link: entry, target, base },
                ),
            )
            &&& entry_answer(
                base,
                entry,
                EntryProbe::Symlink { target: None, root: Some(root), points_to: says, links },
            ) matches Some(Err(Rejected::OutOfBase { .. }))
        }),
{
}

/// Where a service was found decides where it is written: what is in the first
/// directory is written in place, and what is in a later one goes to a file of that
/// name in the first.
pub proof fn law_vendor_files_are_overridden_in_the_first_directory(
    dirs: Seq<Seq<char>>,
    service: Seq<char>,
    probes: Seq<EntryProbe<Seq<char>>>,
    i: int,
)
    requires
        probes.len() == dirs.len(),
        0 <= i < dirs.len(),
        forall|k: int| 0 <= k < i ==> #[trigger] probes[k] is NotFound,
        !(probes[i] is NotFound),
    ensures
        search(dirs, service, probes, 0) matches Ok((path, origin)) ==> {
            &&& i == 0 ==> origin is Local && write_path_of(path, origin) == path
            &&& i > 0 ==> origin == (Origin::<Seq<char>, Seq<Seq<char>>>::Vendor {
                override_path: crate::paths::join_path(dirs[0], service),
            }) && write_path_of(path, origin) == crate::paths::join_path(dirs[0], service)
        },
        backup_of(service) == service + ".facelock-backup"@,
{
    lemma_search_skips(dirs, service, probes, 0, i);
}

/// What a refusal is reported as, to a program and to a person.
pub proof fn law_refusals_are_told_apart(
    service: Seq<char>,
    link: Seq<char>,
    target: Seq<char>,
    base: Seq<char>,
    links: u64,
)
    ensures
        rejected_reason(Rejected::Name) == "invalid service name"@,
        rejected_reason(Rejected::OutOfBase { link, target, base })
            == "symlinked outside /etc/pam.d"@,
        rejected_reason(Rejected::HardLinked { link, links }) == "hard-linked service file"@,
        rejected_message(Rejected::Name, service) == (PamMessage::PamInvalidServiceName { service }),
        rejected_message(Rejected::OutOfBase { link, target, base }, service) == (
        PamMessage::PamServiceSymlinkedOutside { path: link, target, dir: base }),
        rejected_message(Rejected::HardLinked { link, links }, service) == (
        PamMessage::PamServiceHardLinked { path: link, links }),
        rejected_link(Rejected::Name) is None,
        rejected_link(Rejected::OutOfBase { link, target, base }) == Some(link),
        rejected_link(Rejected::HardLinked { link, links }) == Some(link),
{
}

/// Every write lands in the first directory: at the name asked for, or at what
/// a link of that name in that directory resolves to below it.
pub proof fn law_writes_land_in_the_first_directory(
    dirs: Seq<Seq<char>>,
    service: Seq<char>,
    probes: Seq<EntryProbe<Seq<char>>>,
)
    requires
        dirs.len() > 0,
        probes.len() == dirs.len(),
    ensures
        search(dirs, service, probes, 0) matches Ok((path, origin)) ==> {
            let target = write_path_of(path, origin);
            ||| target == crate::paths::join_path(dirs[0], service)
            ||| probes[0] matches EntryProbe::Symlink { target: Some(t), root: Some(root), .. }
                && t == target && crate::paths::is_under(target, root)
        },
{
    lemma_search_step(dirs, service, probes, 0);
}

/// The first directory that has an entry answers, and a refusal is an answer:
/// no later directory takes over from it.
pub proof fn law_first_entry_answers(
    dirs: Seq<Seq<char>>,
    service: Seq<char>,
    probes: Seq<EntryProbe<Seq<char>>>,
    i: int,
)
    requires
        probes.len() == dirs.len(),
        0 <= i < dirs.len(),
        forall|k: int| 0 <= k < i ==> #[trigger] probes[k] is NotFound,
        !(probes[i] is NotFound),
    ensures
        ({
            let answer = entry_answer(
                dirs[i],
                crate::paths::join_path(dirs[i], service),
                probes[i],
            );
            match search(dirs, service, probes, 0) {
                Ok((path, _)) => answer == Some(Ok::<Seq<char>, Rejected<Seq<char>>>(path)),
                Err(why) => answer == Some(Err::<Seq<char>, Rejected<Seq<char>>>(why)),
            }
        }),
{
    lemma_search_skips(dirs, service, probes, 0, i);
}

proof fn lemma_search_skips(
    dirs: Seq<Seq<char>>,
    service: Seq<char>,
    probes: Seq<EntryProbe<Seq<char>>>,
    from: int,
    to: int,
)
    requires
        0 <= from <= to <= dirs.len(),
        probes.len() == dirs.len(),
        forall|k: int| from <= k < to ==> #[trigger] probes[k] is NotFound,
    ensures
        search(dirs, service, probes, from) == search(dirs, service, probes, to),
    decreases to - from,
{
    if from < to {
        assert(probes[from] is NotFound);
        lemma_search_skips(dirs, service, probes, from + 1, to);
    }
}

/// A name that is in no directory is absent, and every path that was tried is
/// named.
pub proof fn law_absence_names_every_path(
    dirs: Seq<Seq<char>>,
    service: Seq<char>,
    probes: Seq<EntryProbe<Seq<char>>>,
)
    requires
        dirs.len() > 0,
        probes.len() == dirs.len(),
        forall|k: int| 0 <= k < dirs.len() ==> #[trigger] probes[k] is NotFound,
    ensures
        search(dirs, service, probes, 0) == Ok::<
            (Seq<char>, Origin<Seq<char>, Seq<Seq<char>>>),
            Rejected<Seq<char>>,
        >(
            (
                crate::paths::join_path(dirs[0], service),
                Origin::Nowhere { tried: entry_paths(dirs, service) },
            ),
        ),
{
    lemma_search_skips(dirs, service, probes, 0, dirs.len() as int);
}

} // verus!
