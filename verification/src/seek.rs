//! Searching the listing of a directory tree for an installation.
//!
//! The caller walks the tree, without following symbolic links, and hands
//! over the paths of the regular files in the order met. What is found is
//! kept per role, so that findings from several trees can be put together.

use crate::components::{expected_file_name_spec, is_required, Role};
use crate::config::{Config, Threading};
use crate::platform::Platform;
use crate::text::{
    chars_of, is_word, lemma_split_last, same_chars, split, split_chars, string_of, texts, views,
};
use vstd::prelude::*;

verus! {

/// The segments of a path: what stands between its separators.
pub open spec fn segments(path: Seq<char>, platform: Platform) -> Seq<Seq<char>> {
    split(path, platform.separators())
}

/// The last segment of a path.
pub open spec fn file_name_of(path: Seq<char>, platform: Platform) -> Seq<char> {
    segments(path, platform).last()
}

/// The path without its last segment and the separator before it. A file
/// directly under the root has the root as its parent; a bare file name has
/// the empty path.
pub open spec fn parent_of(path: Seq<char>, platform: Platform) -> Seq<char> {
    let cut = path.len() - file_name_of(path, platform).len() - 1;
    if segments(path, platform).len() <= 1 {
        Seq::empty()
    } else if cut == 0 {
        path.take(1)
    } else {
        path.take(cut)
    }
}

/// Whether a segment marks a directory of 32-bit libraries: it begins with
/// `ia32`, in either case.
pub open spec fn is_ia32(segment: Seq<char>) -> bool {
    &&& segment.len() >= 4
    &&& (segment[0] == 'i' || segment[0] == 'I')
    &&& (segment[1] == 'a' || segment[1] == 'A')
    &&& segment[2] == '3'
    &&& segment[3] == '2'
}

/// Whether some segment of the path marks a directory of 32-bit libraries.
pub open spec fn under_ia32(path: Seq<char>, platform: Platform) -> bool {
    exists|i: int|
        0 <= i < segments(path, platform).len() && is_ia32(#[trigger] segments(path, platform)[i])
}

/// Whether a segment begins with `ia32`, in either case.
pub fn segment_is_ia32(segment: &[char]) -> (r: bool)
    ensures
        r == is_ia32(segment@),
{
    segment.len() >= 4 && (segment[0] == 'i' || segment[0] == 'I') && (segment[1] == 'a'
        || segment[1] == 'A') && segment[2] == '3' && segment[3] == '2'
}

/// A path taken apart.
pub struct PathParts {
    /// The directory the file lies in.
    pub dir: Vec<char>,
    /// The name of the file.
    pub name: Vec<char>,
    /// Whether the file lies under a directory of 32-bit libraries.
    pub excluded: bool,
}

/// Takes a path apart into directory and file name, and tells whether it
/// leads through a directory of 32-bit libraries.
pub fn path_parts(path: &[char], platform: Platform) -> (parts: PathParts)
    ensures
        parts.dir@ == parent_of(path@, platform),
        parts.name@ == file_name_of(path@, platform),
        parts.excluded == under_ia32(path@, platform),
{
    let seps = platform.separator_chars();
    let mut pieces = split_chars(path, seps.as_slice());
    proof {
        lemma_split_last(path@, platform.separators());
    }
    let ghost all = segments(path@, platform);
    assert(views(pieces@).len() == pieces@.len());
    let mut excluded = false;
    let mut i: usize = 0;
    while i < pieces.len()
        invariant
            i <= pieces.len(),
            views(pieces@) == all,
            excluded == exists|j: int| 0 <= j < i && is_ia32(#[trigger] all[j]),
        decreases pieces.len() - i,
    {
        assert(views(pieces@)[i as int] == pieces@[i as int]@);
        if segment_is_ia32(pieces[i].as_slice()) {
            excluded = true;
        }
        i = i + 1;
    }
    let count = pieces.len();
    assert(views(pieces@)[count - 1] == pieces@[count - 1]@);
    let name = match pieces.pop() {
        Some(name) => name,
        None => Vec::new(),
    };
    assert(name@ == file_name_of(path@, platform));
    let dir = if count > 1 {
        let cut = path.len() - name.len() - 1;
        let end = if cut == 0 {
            1
        } else {
            cut
        };
        assert(path@.subrange(0, end as int) =~= path@.take(end as int));
        vstd::slice::slice_to_vec(vstd::slice::slice_subrange(path, 0, end))
    } else {
        Vec::new()
    };
    PathParts { dir, name, excluded }
}

/// A path under a directory: the directory, a separator unless the directory
/// ends in one, and the name. Under the empty path it is the name alone.
pub open spec fn join_path(dir: Seq<char>, name: Seq<char>, platform: Platform) -> Seq<char> {
    if dir.len() == 0 {
        name
    } else if platform.separators().contains(dir.last()) {
        dir + name
    } else {
        dir + platform.separator() + name
    }
}

/// The path of `name` under `dir`.
pub fn path_under(dir: &str, name: &str, platform: Platform) -> (path: String)
    ensures
        path@ == join_path(dir@, name@, platform),
{
    let chars = chars_of(dir);
    if chars.len() == 0 {
        assert(dir@ =~= Seq::<char>::empty());
        return name.to_owned();
    }
    let seps = platform.separator_chars();
    let mut path = dir.to_owned();
    if !crate::text::is_delim(chars[chars.len() - 1], seps.as_slice()) {
        path.append(platform.separator_str());
    }
    path.append(name);
    path
}

/// A path under a directory ends in the name it was made of, and where the
/// directory does not itself end in a separator, the directory is its
/// parent.
pub proof fn lemma_join_parts(dir: Seq<char>, name: Seq<char>, platform: Platform)
    requires
        crate::text::free_of(name, platform.separators()),
    ensures
        file_name_of(join_path(dir, name, platform), platform) == name,
        dir.len() > 0 && !platform.separators().contains(dir.last()) ==> parent_of(
            join_path(dir, name, platform),
            platform,
        ) == dir,
{
    let seps = platform.separators();
    let path = join_path(dir, name, platform);
    let last = file_name_of(path, platform);
    reveal_strlit("/");
    reveal_strlit("\\");
    assert(seps.contains(platform.separator()[0])) by {
        assert(seps[0] == '/');
        if platform == Platform::Windows {
            assert(seps[1] == '\\');
        }
    }
    lemma_split_last(path, seps);
    crate::text::lemma_split_pieces(path, seps);
    assert(crate::text::free_of(last, seps));
    assert(path.skip(path.len() - name.len()) =~= name);
    if last.len() < name.len() {
        if segments(path, platform).len() > 1 {
            let at = path.len() - last.len() - 1;
            assert(path[at] == name[at - (path.len() - name.len())]);
        } else {
            assert(last == path);
        }
    } else if last.len() > name.len() {
        let at = path.len() - name.len() - 1;
        assert(path[at] == last[at - (path.len() - last.len())]);
        assert(seps.contains(path[at]));
    }
    assert(last =~= name);
    if dir.len() > 0 && !seps.contains(dir.last()) {
        let cut = path.len() - name.len() - 1;
        assert(cut == dir.len());
        assert(path.take(cut) =~= dir);
        if segments(path, platform).len() <= 1 {
            assert(last == path);
        }
    }
}

/// The directories found so far, as plain values: where the header lies, and
/// where the library of each role lies.
pub struct Found {
    pub include_dir: Option<Seq<char>>,
    pub interface_dir: Option<Seq<char>>,
    pub threading_dir: Option<Seq<char>>,
    pub core_dir: Option<Seq<char>>,
    pub openmp_dir: Option<Seq<char>>,
}

impl Found {
    /// Nothing found.
    pub open spec fn empty() -> Found {
        Found {
            include_dir: None,
            interface_dir: None,
            threading_dir: None,
            core_dir: None,
            openmp_dir: None,
        }
    }

    /// The directory found for a role, if any.
    pub open spec fn get(self, role: Role) -> Option<Seq<char>> {
        match role {
            Role::Interface => self.interface_dir,
            Role::Threading => self.threading_dir,
            Role::Core => self.core_dir,
            Role::OpenMp => self.openmp_dir,
        }
    }

    /// The same findings with a directory entered for a role.
    pub open spec fn put(self, role: Role, dir: Seq<char>) -> Found {
        match role {
            Role::Interface => Found { interface_dir: Some(dir), ..self },
            Role::Threading => Found { threading_dir: Some(dir), ..self },
            Role::Core => Found { core_dir: Some(dir), ..self },
            Role::OpenMp => Found { openmp_dir: Some(dir), ..self },
        }
    }

    /// These findings, completed from later ones: what is found here stays,
    /// and only what is missing here is taken from `later`.
    pub open spec fn or(self, later: Found) -> Found {
        Found {
            include_dir: first_of(self.include_dir, later.include_dir),
            interface_dir: first_of(self.interface_dir, later.interface_dir),
            threading_dir: first_of(self.threading_dir, later.threading_dir),
            core_dir: first_of(self.core_dir, later.core_dir),
            openmp_dir: first_of(self.openmp_dir, later.openmp_dir),
        }
    }

    /// Whether the header and the library of every role that the
    /// configuration needs have been found.
    pub open spec fn covers(self, config: Config) -> bool {
        &&& self.include_dir is Some
        &&& self.interface_dir is Some
        &&& self.threading_dir is Some
        &&& self.core_dir is Some
        &&& (config.parallel == Threading::OpenMP ==> self.openmp_dir is Some)
    }
}

/// The earlier of two findings, where there is one.
pub open spec fn first_of(earlier: Option<Seq<char>>, later: Option<Seq<char>>) -> Option<
    Seq<char>,
> {
    if earlier is Some {
        earlier
    } else {
        later
    }
}

/// A directory that may not have been found, as plain values.
pub open spec fn dir_view(dir: Option<String>) -> Option<Seq<char>> {
    match dir {
        Some(d) => Some(d@),
        None => None,
    }
}

/// What has been found of an installation so far. Several searches fill one
/// of these in turn; an earlier search's findings are never overwritten.
#[derive(Debug, Clone, PartialEq, Eq)]
pub struct PartialMatch {
    /// Directory where `mkl.h` lies.
    pub include_dir: Option<String>,
    /// Directory where the interface layer lies.
    pub interface_dir: Option<String>,
    /// Directory where the threading layer lies.
    pub threading_dir: Option<String>,
    /// Directory where the core library lies.
    pub core_dir: Option<String>,
    /// Directory where the OpenMP runtime lies.
    pub openmp_dir: Option<String>,
}

impl View for PartialMatch {
    type V = Found;

    open spec fn view(&self) -> Found {
        Found {
            include_dir: dir_view(self.include_dir),
            interface_dir: dir_view(self.interface_dir),
            threading_dir: dir_view(self.threading_dir),
            core_dir: dir_view(self.core_dir),
            openmp_dir: dir_view(self.openmp_dir),
        }
    }
}

/// Keeps the earlier directory where there is one.
fn earlier_dir(earlier: Option<String>, later: Option<String>) -> (r: Option<String>)
    ensures
        dir_view(r) == first_of(dir_view(earlier), dir_view(later)),
{
    match earlier {
        Some(d) => Some(d),
        None => later,
    }
}

impl PartialMatch {
    /// Nothing found yet.
    pub fn new() -> (r: PartialMatch)
        ensures
            r@ == Found::empty(),
    {
        PartialMatch {
            include_dir: None,
            interface_dir: None,
            threading_dir: None,
            core_dir: None,
            openmp_dir: None,
        }
    }

    /// The directory found for a role, if any.
    pub fn get(&self, role: Role) -> (r: &Option<String>)
        ensures
            dir_view(*r) == self@.get(role),
    {
        match role {
            Role::Interface => &self.interface_dir,
            Role::Threading => &self.threading_dir,
            Role::Core => &self.core_dir,
            Role::OpenMp => &self.openmp_dir,
        }
    }

    /// Enters a directory for a role.
    fn put(self, role: Role, dir: String) -> (r: PartialMatch)
        ensures
            r@ == self@.put(role, dir@),
    {
        match role {
            Role::Interface => PartialMatch { interface_dir: Some(dir), ..self },
            Role::Threading => PartialMatch { threading_dir: Some(dir), ..self },
            Role::Core => PartialMatch { core_dir: Some(dir), ..self },
            Role::OpenMp => PartialMatch { openmp_dir: Some(dir), ..self },
        }
    }

    /// Completes these findings from those of a later search.
    pub fn or(self, later: PartialMatch) -> (r: PartialMatch)
        ensures
            r@ == self@.or(later@),
    {
        PartialMatch {
            include_dir: earlier_dir(self.include_dir, later.include_dir),
            interface_dir: earlier_dir(self.interface_dir, later.interface_dir),
            threading_dir: earlier_dir(self.threading_dir, later.threading_dir),
            core_dir: earlier_dir(self.core_dir, later.core_dir),
            openmp_dir: earlier_dir(self.openmp_dir, later.openmp_dir),
        }
    }

    /// Whether everything that the configuration needs has been found.
    pub fn covers(&self, config: Config) -> (r: bool)
        ensures
            r == self@.covers(config),
    {
        let openmp = match config.parallel {
            Threading::OpenMP => self.openmp_dir.is_some(),
            Threading::Sequential => true,
        };
        self.include_dir.is_some() && self.interface_dir.is_some() && self.threading_dir.is_some()
            && self.core_dir.is_some() && openmp
    }
}

/// The same library in two different directories, as plain values.
pub struct Conflict {
    pub role: Role,
    pub first: Seq<char>,
    pub second: Seq<char>,
}

/// The library of one role was found in two different directories of one
/// tree. Such a tree mixes installations, and linking against a mixture goes
/// wrong in ways that are hard to trace, so no directory is picked.
#[derive(Debug, Clone, PartialEq, Eq)]
pub struct AmbiguousInstallation {
    /// The role whose library was found twice.
    pub role: Role,
    /// The directory where it was found first.
    pub first: String,
    /// The other directory.
    pub second: String,
}

impl View for AmbiguousInstallation {
    type V = Conflict;

    open spec fn view(&self) -> Conflict {
        Conflict { role: self.role, first: self.first@, second: self.second@ }
    }
}

/// The role whose library a file of this name holds, if the configuration
/// needs that library.
pub open spec fn role_of(name: Seq<char>, config: Config, platform: Platform) -> Option<Role> {
    if name == expected_file_name_spec(config, platform, Role::Interface) {
        Some(Role::Interface)
    } else if name == expected_file_name_spec(config, platform, Role::Threading) {
        Some(Role::Threading)
    } else if name == expected_file_name_spec(config, platform, Role::Core) {
        Some(Role::Core)
    } else if is_required(config, Role::OpenMp) && name == expected_file_name_spec(
        config,
        platform,
        Role::OpenMp,
    ) {
        Some(Role::OpenMp)
    } else {
        None
    }
}

/// The name of the header that marks the include directory.
pub open spec fn header_name() -> Seq<char> {
    "mkl.h"@
}

/// The findings after one more file. A file under a directory of 32-bit
/// libraries changes nothing. The first header found fixes the include
/// directory. A library fixes the directory of its role; the same library
/// in another directory is a conflict.
pub open spec fn record(found: Found, path: Seq<char>, config: Config, platform: Platform)
    -> Result<Found, Conflict> {
    let dir = parent_of(path, platform);
    let name = file_name_of(path, platform);
    if under_ia32(path, platform) {
        Ok(found)
    } else if name == header_name() {
        Ok(Found { include_dir: first_of(found.include_dir, Some(dir)), ..found })
    } else {
        match role_of(name, config, platform) {
            None => Ok(found),
            Some(role) => match found.get(role) {
                None => Ok(found.put(role, dir)),
                Some(first) => if first == dir {
                    Ok(found)
                } else {
                    Err(Conflict { role, first, second: dir })
                },
            },
        }
    }
}

/// The findings in one tree, whose files are given in the order met. The
/// first conflict ends the search.
pub open spec fn scan(files: Seq<Seq<char>>, config: Config, platform: Platform) -> Result<
    Found,
    Conflict,
>
    decreases files.len(),
{
    if files.len() == 0 {
        Ok(Found::empty())
    } else {
        match scan(files.drop_last(), config, platform) {
            Err(conflict) => Err(conflict),
            Ok(found) => record(found, files.last(), config, platform),
        }
    }
}

/// The file names to look for, one per role.
struct Wanted {
    interface: Vec<char>,
    threading: Vec<char>,
    core: Vec<char>,
    openmp: Option<Vec<char>>,
}

impl Wanted {
    spec fn of(&self, config: Config, platform: Platform) -> bool {
        &&& self.interface@ == expected_file_name_spec(config, platform, Role::Interface)
        &&& self.threading@ == expected_file_name_spec(config, platform, Role::Threading)
        &&& self.core@ == expected_file_name_spec(config, platform, Role::Core)
        &&& match self.openmp {
            Some(name) => is_required(config, Role::OpenMp) && name@ == expected_file_name_spec(
                config,
                platform,
                Role::OpenMp,
            ),
            None => !is_required(config, Role::OpenMp),
        }
    }

    fn new(config: Config, platform: Platform) -> (r: Wanted)
        ensures
            r.of(config, platform),
    {
        let interface = config.expected_file_name(platform, Role::Interface);
        let threading = config.expected_file_name(platform, Role::Threading);
        let core = config.expected_file_name(platform, Role::Core);
        let openmp = if config.requires_role(Role::OpenMp) {
            let name = config.expected_file_name(platform, Role::OpenMp);
            Some(chars_of(name.as_str()))
        } else {
            None
        };
        Wanted {
            interface: chars_of(interface.as_str()),
            threading: chars_of(threading.as_str()),
            core: chars_of(core.as_str()),
            openmp,
        }
    }

    fn role_of(&self, name: &[char], Ghost(config): Ghost<Config>, Ghost(platform): Ghost<Platform>)
        -> (r: Option<Role>)
        requires
            self.of(config, platform),
        ensures
            r == role_of(name@, config, platform),
    {
        if same_chars(name, self.interface.as_slice()) {
            Some(Role::Interface)
        } else if same_chars(name, self.threading.as_slice()) {
            Some(Role::Threading)
        } else if same_chars(name, self.core.as_slice()) {
            Some(Role::Core)
        } else {
            match &self.openmp {
                Some(openmp) => if same_chars(name, openmp.as_slice()) {
                    Some(Role::OpenMp)
                } else {
                    None
                },
                None => None,
            }
        }
    }
}

impl PartialMatch {
    /// Enters one more file of the tree.
    fn record(self, path: &str, wanted: &Wanted, config: Config, platform: Platform) -> (r: Result<
        PartialMatch,
        AmbiguousInstallation,
    >)
        requires
            wanted.of(config, platform),
        ensures
            match r {
                Ok(found) => record(self@, path@, config, platform) == Ok::<Found, Conflict>(
                    found@,
                ),
                Err(e) => record(self@, path@, config, platform) == Err::<Found, Conflict>(e@),
            },
    {
        let chars = chars_of(path);
        let parts = path_parts(chars.as_slice(), platform);
        if parts.excluded {
            return Ok(self);
        }
        if is_word(parts.name.as_slice(), "mkl.h") {
            if self.include_dir.is_some() {
                return Ok(self);
            }
            let dir = string_of(parts.dir.as_slice());
            return Ok(PartialMatch { include_dir: Some(dir), ..self });
        }
        match wanted.role_of(parts.name.as_slice(), Ghost(config), Ghost(platform)) {
            None => Ok(self),
            Some(role) => {
                let dir = string_of(parts.dir.as_slice());
                let clash = match self.get(role) {
                    None => None,
                    Some(first) => if *first == dir {
                        return Ok(self);
                    } else {
                        Some(first.clone())
                    },
                };
                match clash {
                    None => Ok(self.put(role, dir)),
                    Some(first) => Err(AmbiguousInstallation { role, first, second: dir }),
                }
            },
        }
    }

    /// Searches the listing of one tree. `files` holds the paths of the
    /// regular files of the tree, in the order in which the walk met them.
    pub fn scan(config: Config, platform: Platform, files: &Vec<String>) -> (r: Result<
        PartialMatch,
        AmbiguousInstallation,
    >)
        ensures
            match r {
                Ok(found) => scan(texts(files@), config, platform) == Ok::<Found, Conflict>(found@),
                Err(e) => scan(texts(files@), config, platform) == Err::<Found, Conflict>(e@),
            },
    {
        let wanted = Wanted::new(config, platform);
        let mut found = PartialMatch::new();
        let ghost all = texts(files@);
        let mut i: usize = 0;
        while i < files.len()
            invariant
                i <= files.len(),
                all == texts(files@),
                wanted.of(config, platform),
                scan(all.take(i as int), config, platform) == Ok::<Found, Conflict>(found@),
            decreases files.len() - i,
        {
            proof {
                assert(all.take(i + 1).drop_last() =~= all.take(i as int));
                assert(all.take(i + 1).last() == files@[i as int]@);
            }
            match found.record(files[i].as_str(), &wanted, config, platform) {
                Ok(next) => {
                    found = next;
                },
                Err(e) => {
                    proof {
                        lemma_scan_conflict_stays(all, i + 1, config, platform);
                    }
                    return Err(e);
                },
            }
            i = i + 1;
        }
        assert(all.take(i as int) =~= all);
        Ok(found)
    }

    /// Completes these findings from the listing of one more tree. What was
    /// found before stays; a conflict within the tree ends the search.
    pub fn seek(self, config: Config, platform: Platform, files: &Vec<String>) -> (r: Result<
        PartialMatch,
        AmbiguousInstallation,
    >)
        ensures
            match r {
                Ok(found) => match scan(texts(files@), config, platform) {
                    Ok(here) => found@ == self@.or(here),
                    Err(_) => false,
                },
                Err(e) => scan(texts(files@), config, platform) == Err::<Found, Conflict>(e@),
            },
    {
        match PartialMatch::scan(config, platform, files) {
            Ok(here) => Ok(self.or(here)),
            Err(e) => Err(e),
        }
    }
}

/// A conflict among the first files of a tree is the outcome of the whole
/// search.
pub proof fn lemma_scan_conflict_stays(
    files: Seq<Seq<char>>,
    k: int,
    config: Config,
    platform: Platform,
)
    requires
        0 <= k <= files.len(),
        scan(files.take(k), config, platform) is Err,
    ensures
        scan(files, config, platform) == scan(files.take(k), config, platform),
    decreases files.len() - k,
{
    if k == files.len() {
        assert(files.take(k) =~= files);
    } else {
        assert(files.take(k + 1).drop_last() =~= files.take(k));
        lemma_scan_conflict_stays(files, k + 1, config, platform);
    }
}

/// No library file is called like the header.
pub proof fn lemma_library_is_no_header(config: Config, platform: Platform, role: Role)
    ensures
        expected_file_name_spec(config, platform, role) != header_name(),
{
    reveal_strlit("mkl.h");
    reveal_strlit("mkl_intel_lp64");
    reveal_strlit("mkl_intel_ilp64");
    reveal_strlit("mkl_intel_thread");
    reveal_strlit("mkl_sequential");
    reveal_strlit("mkl_core");
    reveal_strlit("iomp5");
    reveal_strlit("iomp5md");
    reveal_strlit("lib");
    reveal_strlit(".lib");
    reveal_strlit("_dll.lib");
    reveal_strlit(".dll");
    reveal_strlit(".a");
    reveal_strlit(".");
    assert(expected_file_name_spec(config, platform, role).len() > 5);
}

/// Whether the file at a path is looked at and holds the library of a role.
pub open spec fn holds_role(path: Seq<char>, role: Role, config: Config, platform: Platform)
    -> bool {
    !under_ia32(path, platform) && role_of(file_name_of(path, platform), config, platform) == Some(
        role,
    )
}

/// Whether the file at a path is looked at and is the header.
pub open spec fn is_header(path: Seq<char>, platform: Platform) -> bool {
    !under_ia32(path, platform) && file_name_of(path, platform) == header_name()
}

/// Where a search ends without conflict, every file that holds the library
/// of a role lies in the directory found for that role.
pub proof fn lemma_scan_agrees(
    files: Seq<Seq<char>>,
    i: int,
    role: Role,
    config: Config,
    platform: Platform,
)
    requires
        0 <= i < files.len(),
        holds_role(files[i], role, config, platform),
        scan(files, config, platform) is Ok,
    ensures
        scan(files, config, platform)->Ok_0.get(role) == Some(parent_of(files[i], platform)),
    decreases files.len(),
{
    lemma_library_is_no_header(config, platform, role);
    let rest = files.drop_last();
    let last = files.last();
    let before = scan(rest, config, platform)->Ok_0;
    if i < files.len() - 1 {
        assert(rest[i] == files[i]);
        lemma_scan_agrees(rest, i, role, config, platform);
        if !under_ia32(last, platform) && file_name_of(last, platform) != header_name() {
            match role_of(file_name_of(last, platform), config, platform) {
                Some(other) => {
                    if other != role {
                        assert(before.put(other, parent_of(last, platform)).get(role)
                            == before.get(role));
                    }
                },
                None => {},
            }
        }
    }
}

/// Nothing is found that is not there: the directory found for a role is
/// the directory of a file of the tree that holds the library of the role.
pub proof fn lemma_found_is_there(
    files: Seq<Seq<char>>,
    role: Role,
    config: Config,
    platform: Platform,
)
    requires
        scan(files, config, platform) is Ok,
        scan(files, config, platform)->Ok_0.get(role) is Some,
    ensures
        exists|i: int|
            0 <= i < files.len() && holds_role(#[trigger] files[i], role, config, platform)
                && scan(files, config, platform)->Ok_0.get(role) == Some(
                parent_of(files[i], platform),
            ),
    decreases files.len(),
{
    if files.len() > 0 {
        let rest = files.drop_last();
        let last = files.len() - 1;
        let before = scan(rest, config, platform)->Ok_0;
        let after = scan(files, config, platform)->Ok_0;
        lemma_library_is_no_header(config, platform, role);
        if before.get(role) == after.get(role) {
            lemma_found_is_there(rest, role, config, platform);
            let i = choose|i: int|
                0 <= i < rest.len() && holds_role(#[trigger] rest[i], role, config, platform)
                    && before.get(role) == Some(parent_of(rest[i], platform));
            assert(files[i] == rest[i]);
        } else {
            assert(holds_role(files[last], role, config, platform));
        }
    }
}

/// The include directory is the directory of the first header that is
/// looked at.
pub proof fn lemma_first_header_counts(
    files: Seq<Seq<char>>,
    i: int,
    config: Config,
    platform: Platform,
)
    requires
        0 <= i < files.len(),
        is_header(files[i], platform),
        forall|j: int| 0 <= j < i ==> !is_header(#[trigger] files[j], platform),
        scan(files, config, platform) is Ok,
    ensures
        scan(files, config, platform)->Ok_0.include_dir == Some(parent_of(files[i], platform)),
    decreases files.len(),
{
    let rest = files.drop_last();
    if i < files.len() - 1 {
        assert(rest[i] == files[i]);
        assert forall|j: int| 0 <= j < i implies !is_header(#[trigger] rest[j], platform) by {
            assert(rest[j] == files[j]);
        }
        lemma_first_header_counts(rest, i, config, platform);
    } else {
        lemma_no_header_no_include(rest, config, platform);
    }
}

/// Without a header that is looked at there is no include directory.
pub proof fn lemma_no_header_no_include(files: Seq<Seq<char>>, config: Config, platform: Platform)
    requires
        forall|j: int| 0 <= j < files.len() ==> !is_header(#[trigger] files[j], platform),
        scan(files, config, platform) is Ok,
    ensures
        scan(files, config, platform)->Ok_0.include_dir is None,
    decreases files.len(),
{
    if files.len() > 0 {
        let rest = files.drop_last();
        assert forall|j: int| 0 <= j < rest.len() implies !is_header(
            #[trigger] rest[j],
            platform,
        ) by {
            assert(rest[j] == files[j]);
        }
        lemma_no_header_no_include(rest, config, platform);
        assert(!is_header(files[files.len() - 1], platform));
    }
}

/// Files under a directory of 32-bit libraries are never matched: the search
/// ends as if they were not there.
pub proof fn lemma_ia32_is_skipped(files: Seq<Seq<char>>, config: Config, platform: Platform)
    ensures
        scan(files, config, platform) == scan(
            files.filter(|path: Seq<char>| !under_ia32(path, platform)),
            config,
            platform,
        ),
    decreases files.len(),
{
    reveal(Seq::filter);
    let keep = |path: Seq<char>| !under_ia32(path, platform);
    if files.len() > 0 {
        let rest = files.drop_last();
        lemma_ia32_is_skipped(rest, config, platform);
        if keep(files.last()) {
            assert(rest.filter(keep).push(files.last()).drop_last() =~= rest.filter(keep));
        }
    }
}

/// The library of one role in two different directories of a tree is a
/// conflict, whatever else the tree holds: no directory is picked.
pub proof fn lemma_two_directories_conflict(
    files: Seq<Seq<char>>,
    i: int,
    j: int,
    role: Role,
    config: Config,
    platform: Platform,
)
    requires
        0 <= i < files.len(),
        0 <= j < files.len(),
        holds_role(files[i], role, config, platform),
        holds_role(files[j], role, config, platform),
        parent_of(files[i], platform) != parent_of(files[j], platform),
    ensures
        scan(files, config, platform) is Err,
{
    if scan(files, config, platform) is Ok {
        lemma_scan_agrees(files, i, role, config, platform);
        lemma_scan_agrees(files, j, role, config, platform);
    }
}

} // verus!
