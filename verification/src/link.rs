//! What to tell the linker about a found installation.

use crate::components::{component_views, library_name, required_roles, Role};
use crate::config::{Config, LinkType};
use crate::library::{Installed, Library};
use crate::platform::Platform;
use crate::resolve::{Refusal, ResolveError};
use crate::seek::dir_view;
use crate::text::texts;
use vstd::prelude::*;

verus! {

/// One library for the linker, as plain values.
pub struct Directive {
    pub search_path: Option<Seq<char>>,
    pub library_name: Seq<char>,
    pub kind: LinkType,
}

/// One library for the linker: its name, how to link it, and the directory
/// to find it in. A library of the system has no directory.
#[derive(Debug, Clone, PartialEq, Eq)]
pub struct LinkDirective {
    pub search_path: Option<String>,
    pub library_name: String,
    pub kind: LinkType,
}

impl View for LinkDirective {
    type V = Directive;

    open spec fn view(&self) -> Directive {
        Directive {
            search_path: dir_view(self.search_path),
            library_name: self.library_name@,
            kind: self.kind,
        }
    }
}

/// What a vector of directives holds, as plain values.
pub open spec fn directives(v: Seq<LinkDirective>) -> Seq<Directive> {
    v.map_values(|d: LinkDirective| d@)
}

/// The libraries of the system that MKL needs however it is linked itself,
/// on every platform: threads, mathematics and the dynamic loader.
pub open spec fn runtime_libs() -> Seq<Seq<char>> {
    seq!["pthread"@, "m"@, "dl"@]
}

/// The directive for the library of a role.
pub open spec fn component_directive(lib: Installed, platform: Platform, role: Role) -> Directive {
    Directive {
        search_path: lib.dir_of(role),
        library_name: library_name(lib.config, platform, role),
        kind: lib.config.link,
    }
}

/// The directive for a library of the system.
pub open spec fn runtime_directive(name: Seq<char>) -> Directive {
    Directive { search_path: None, library_name: name, kind: LinkType::Dynamic }
}

/// The directives for an installation: one per library that the
/// configuration needs, in link order, and after them one per library of the
/// system, each linked dynamically.
pub open spec fn link_plan(lib: Installed, platform: Platform) -> Seq<Directive> {
    required_roles(lib.config).map_values(|role: Role| component_directive(lib, platform, role))
        + runtime_libs().map_values(|name: Seq<char>| runtime_directive(name))
}

/// The directories of the directives, each once, in the order in which they
/// first occur.
pub open spec fn unique_paths(plan: Seq<Directive>) -> Seq<Seq<char>>
    decreases plan.len(),
{
    if plan.len() == 0 {
        Seq::empty()
    } else {
        let before = unique_paths(plan.drop_last());
        match plan.last().search_path {
            Some(path) => if before.contains(path) {
                before
            } else {
                before.push(path)
            },
            None => before,
        }
    }
}

/// The libraries of the system that MKL needs.
pub fn runtime_libraries() -> (libs: Vec<String>)
    ensures
        texts(libs@) == runtime_libs(),
{
    let mut libs: Vec<String> = Vec::new();
    libs.push("pthread".to_owned());
    libs.push("m".to_owned());
    libs.push("dl".to_owned());
    assert(texts(libs@) =~= runtime_libs());
    libs
}

/// Whether `path` is among `paths`.
fn holds(paths: &Vec<String>, path: &String) -> (r: bool)
    ensures
        r == texts(paths@).contains(path@),
{
    let mut i: usize = 0;
    while i < paths.len()
        invariant
            i <= paths.len(),
            forall|j: int| 0 <= j < i ==> texts(paths@)[j] != path@,
        decreases paths.len() - i,
    {
        assert(texts(paths@)[i as int] == paths@[i as int]@);
        if paths[i] == *path {
            return true;
        }
        i = i + 1;
    }
    false
}

/// The directories to search, each once, in the order in which the
/// directives first name them: the linker searches an earlier directory
/// first.
pub fn search_paths(plan: &Vec<LinkDirective>) -> (paths: Vec<String>)
    ensures
        texts(paths@) == unique_paths(directives(plan@)),
{
    let ghost all = directives(plan@);
    let mut paths: Vec<String> = Vec::new();
    let mut i: usize = 0;
    assert(texts(paths@) =~= Seq::<Seq<char>>::empty());
    while i < plan.len()
        invariant
            i <= plan.len(),
            all == directives(plan@),
            texts(paths@) == unique_paths(all.take(i as int)),
        decreases plan.len() - i,
    {
        proof {
            assert(all.take(i + 1).drop_last() =~= all.take(i as int));
            assert(all.take(i + 1).last() == plan@[i as int]@);
        }
        match &plan[i].search_path {
            Some(path) => {
                if !holds(&paths, path) {
                    let ghost before = texts(paths@);
                    paths.push(path.clone());
                    assert(texts(paths@) =~= before.push(path@));
                }
            },
            None => {},
        }
        i = i + 1;
    }
    assert(all.take(i as int) =~= all);
    paths
}

/// Appends the directives for the libraries of the system.
fn push_runtime(plan: &mut Vec<LinkDirective>)
    ensures
        directives(final(plan)@) == directives(old(plan)@) + runtime_libs().map_values(
            |name: Seq<char>| runtime_directive(name),
        ),
{
    let system = runtime_libraries();
    let ghost head = directives(plan@);
    let ghost tail = runtime_libs().map_values(|name: Seq<char>| runtime_directive(name));
    let mut k: usize = 0;
    assert(texts(system@).len() == system@.len());
    assert(directives(plan@) =~= head + tail.take(0));
    while k < system.len()
        invariant
            k <= system.len(),
            texts(system@) == runtime_libs(),
            tail == runtime_libs().map_values(|name: Seq<char>| runtime_directive(name)),
            directives(plan@) == head + tail.take(k as int),
        decreases system.len() - k,
    {
        assert(texts(system@)[k as int] == system@[k as int]@);
        let directive = LinkDirective {
            search_path: None,
            library_name: system[k].clone(),
            kind: LinkType::Dynamic,
        };
        let ghost before = directives(plan@);
        plan.push(directive);
        assert(directives(plan@) =~= before.push(tail[k as int]));
        assert(head + tail.take(k + 1) =~= (head + tail.take(k as int)).push(tail[k as int]));
        k = k + 1;
    }
    assert(tail.take(k as int) =~= tail);
}

/// Turns a found installation into the directives for the linker.
pub fn emit(lib: &Library, platform: Platform) -> (plan: Vec<LinkDirective>)
    ensures
        directives(plan@) == link_plan(lib@, platform),
{
    let components = lib.config.required_components(platform);
    let ghost roles = required_roles(lib.config);
    let ghost wanted = roles.map_values(|role: Role| component_directive(lib@, platform, role));
    let mut plan: Vec<LinkDirective> = Vec::new();
    let mut i: usize = 0;
    assert(component_views(components@).len() == components@.len());
    assert(directives(plan@) =~= wanted.take(0));
    while i < components.len()
        invariant
            i <= components.len(),
            components@.len() == roles.len(),
            roles == required_roles(lib.config),
            component_views(components@) == roles.map_values(
                |role: Role| crate::components::component_spec(lib.config, platform, role),
            ),
            wanted == roles.map_values(|role: Role| component_directive(lib@, platform, role)),
            directives(plan@) == wanted.take(i as int),
        decreases components.len() - i,
    {
        let component = &components[i];
        assert(component_views(components@)[i as int] == component@);
        let search_path = match lib.dir_of(component.role) {
            Some(dir) => Some(dir.clone()),
            None => None,
        };
        let directive = LinkDirective {
            search_path,
            library_name: component.name.clone(),
            kind: lib.config.link,
        };
        let ghost before = directives(plan@);
        plan.push(directive);
        assert(directives(plan@) =~= before.push(wanted[i as int]));
        assert(wanted.take(i + 1) =~= wanted.take(i as int).push(wanted[i as int]));
        i = i + 1;
    }
    assert(wanted.take(i as int) =~= wanted);
    push_runtime(&mut plan);
    plan
}

/// The directories of a longer list of directives begin with those of a
/// shorter one: a directory keeps the place of its first occurrence.
pub proof fn lemma_unique_paths_grow(plan: Seq<Directive>, k: int)
    requires
        0 <= k <= plan.len(),
    ensures
        unique_paths(plan.take(k)).len() <= unique_paths(plan).len(),
        unique_paths(plan).take(unique_paths(plan.take(k)).len() as int) == unique_paths(
            plan.take(k),
        ),
    decreases plan.len(),
{
    if k == plan.len() {
        assert(plan.take(k) =~= plan);
        assert(unique_paths(plan).take(unique_paths(plan).len() as int) =~= unique_paths(plan));
    } else {
        assert(plan.drop_last().take(k) =~= plan.take(k));
        lemma_unique_paths_grow(plan.drop_last(), k);
        let before = unique_paths(plan.drop_last());
        let short = unique_paths(plan.take(k));
        assert(unique_paths(plan).take(short.len() as int) =~= before.take(short.len() as int));
    }
}

/// The directories to search are those that the directives name, and none
/// occurs twice.
pub proof fn lemma_unique_paths(plan: Seq<Directive>)
    ensures
        unique_paths(plan).no_duplicates(),
        forall|path: Seq<char>|
            unique_paths(plan).contains(path) <==> exists|i: int|
                0 <= i < plan.len() && (#[trigger] plan[i]).search_path == Some(path),
    decreases plan.len(),
{
    if plan.len() > 0 {
        let rest = plan.drop_last();
        lemma_unique_paths(rest);
        let before = unique_paths(rest);
        let now = unique_paths(plan);
        assert forall|path: Seq<char>| now.contains(path) implies exists|i: int|
            0 <= i < plan.len() && (#[trigger] plan[i]).search_path == Some(path) by {
            if before.contains(path) {
                let i = choose|i: int|
                    0 <= i < rest.len() && (#[trigger] rest[i]).search_path == Some(path);
                assert(plan[i] == rest[i]);
            } else {
                let j = choose|j: int| 0 <= j < now.len() && now[j] == path;
                assert(j == before.len());
                assert(plan[plan.len() - 1].search_path == Some(path));
            }
        }
        assert forall|path: Seq<char>|
            (exists|i: int| 0 <= i < plan.len() && (#[trigger] plan[i]).search_path == Some(path))
            implies now.contains(path) by {
            let i = choose|i: int|
                0 <= i < plan.len() && (#[trigger] plan[i]).search_path == Some(path);
            if i < plan.len() - 1 {
                assert(rest[i] == plan[i]);
                assert(before.contains(path));
                let j = choose|j: int| 0 <= j < before.len() && before[j] == path;
                assert(now[j] == path);
            } else {
                if before.contains(path) {
                    let j = choose|j: int| 0 <= j < before.len() && before[j] == path;
                    assert(now[j] == path);
                } else {
                    assert(now[before.len() as int] == path);
                }
            }
        }
    }
}

/// How cargo calls a way of linking.
pub open spec fn kind_word(kind: LinkType) -> Seq<char> {
    match kind {
        LinkType::Static => "static"@,
        LinkType::Dynamic => "dylib"@,
    }
}

/// The line that tells cargo to search a directory.
pub open spec fn search_line(path: Seq<char>) -> Seq<char> {
    "cargo:rustc-link-search="@ + path
}

/// The line that tells cargo to link a library.
pub open spec fn lib_line(directive: Directive) -> Seq<char> {
    "cargo:rustc-link-lib="@ + kind_word(directive.kind) + "="@ + directive.library_name
}

/// The line that tells cargo to run the build script again when the user
/// names another root.
pub open spec fn rerun_line() -> Seq<char> {
    "cargo:rerun-if-env-changed=MKLROOT"@
}

/// The lines that tell cargo how to link: one line per directory to search,
/// then one line per library.
pub open spec fn link_lines(plan: Seq<Directive>) -> Seq<Seq<char>> {
    unique_paths(plan).map_values(|path: Seq<char>| search_line(path)) + plan.map_values(
        |d: Directive| lib_line(d),
    )
}

/// The lines for cargo after a search of the system: that the build depends
/// on `MKLROOT`, which the search reads, then the lines that tell how to
/// link.
pub open spec fn cargo_lines(plan: Seq<Directive>) -> Seq<Seq<char>> {
    seq![rerun_line()] + link_lines(plan)
}

/// Appends the lines that tell cargo how to link.
fn push_link_lines(lines: &mut Vec<String>, plan: &Vec<LinkDirective>)
    ensures
        texts(final(lines)@) == texts(old(lines)@) + link_lines(directives(plan@)),
{
    let ghost all = directives(plan@);
    let ghost head = texts(lines@);
    let ghost searches = unique_paths(all).map_values(|path: Seq<char>| search_line(path));
    let ghost libs = all.map_values(|d: Directive| lib_line(d));
    let paths = search_paths(plan);
    assert(texts(paths@).len() == paths@.len());
    let mut i: usize = 0;
    assert(texts(lines@) =~= head + searches.take(0));
    while i < paths.len()
        invariant
            i <= paths.len(),
            texts(paths@) == unique_paths(all),
            searches == unique_paths(all).map_values(|path: Seq<char>| search_line(path)),
            texts(lines@) == head + searches.take(i as int),
        decreases paths.len() - i,
    {
        assert(texts(paths@)[i as int] == paths@[i as int]@);
        let mut line = "cargo:rustc-link-search=".to_owned();
        line.append(paths[i].as_str());
        let ghost before = texts(lines@);
        lines.push(line);
        assert(texts(lines@) =~= before.push(searches[i as int]));
        assert(head + searches.take(i + 1) =~= (head + searches.take(i as int)).push(
            searches[i as int],
        ));
        i = i + 1;
    }
    assert(searches.take(i as int) =~= searches);
    let mut k: usize = 0;
    assert(all.len() == plan@.len());
    assert(texts(lines@) =~= head + searches + libs.take(0));
    while k < plan.len()
        invariant
            k <= plan.len(),
            all == directives(plan@),
            libs == all.map_values(|d: Directive| lib_line(d)),
            texts(lines@) == head + searches + libs.take(k as int),
        decreases plan.len() - k,
    {
        assert(all[k as int] == plan@[k as int]@);
        let mut line = "cargo:rustc-link-lib=".to_owned();
        match plan[k].kind {
            LinkType::Static => {
                line.append("static");
            },
            LinkType::Dynamic => {
                line.append("dylib");
            },
        }
        line.append("=");
        line.append(plan[k].library_name.as_str());
        let ghost before = texts(lines@);
        lines.push(line);
        assert(texts(lines@) =~= before.push(libs[k as int]));
        assert(head + searches + libs.take(k + 1) =~= (head + searches + libs.take(k as int)).push(
            libs[k as int],
        ));
        k = k + 1;
    }
    assert(libs.take(k as int) =~= libs);
    assert(head + searches + libs =~= head + (searches + libs));
}

/// The `cargo:rustc-link-*` lines that a build script prints for these
/// directives: one per directory to search, then one per library.
pub fn cargo_metadata(plan: &Vec<LinkDirective>) -> (lines: Vec<String>)
    ensures
        texts(lines@) == link_lines(directives(plan@)),
{
    let mut lines: Vec<String> = Vec::new();
    assert(texts(lines@) =~= Seq::<Seq<char>>::empty());
    push_link_lines(&mut lines, plan);
    assert(Seq::<Seq<char>>::empty() + link_lines(directives(plan@)) =~= link_lines(
        directives(plan@),
    ));
    lines
}

impl Library {
    /// The lines that a build script prints for this installation: that
    /// the build depends on `MKLROOT`, then the `cargo:rustc-link-*` lines.
    pub fn print_cargo_metadata(&self, platform: Platform) -> (lines: Vec<String>)
        ensures
            texts(lines@) == cargo_lines(link_plan(self@, platform)),
    {
        let plan = emit(self, platform);
        let mut lines: Vec<String> = Vec::new();
        lines.push("cargo:rerun-if-env-changed=MKLROOT".to_owned());
        assert(texts(lines@) =~= seq![rerun_line()]);
        push_link_lines(&mut lines, &plan);
        lines
    }
}

/// A directory that may hold an installation, as plain values.
pub struct Place {
    pub dir: Seq<char>,
    pub has_core: bool,
}

/// A directory that may hold an installation, and whether the core library
/// of the configuration lies in it.
#[derive(Debug, Clone, PartialEq, Eq)]
pub struct Candidate {
    pub dir: String,
    pub has_core: bool,
}

impl View for Candidate {
    type V = Place;

    open spec fn view(&self) -> Place {
        Place { dir: self.dir@, has_core: self.has_core }
    }
}

/// What a vector of candidates holds, as plain values.
pub open spec fn places(v: Seq<Candidate>) -> Seq<Place> {
    v.map_values(|c: Candidate| c@)
}

/// The first directory that holds the core library, if any does.
pub open spec fn first_with_core(places: Seq<Place>) -> Option<Seq<char>>
    decreases places.len(),
{
    if places.len() == 0 {
        None
    } else if places[0].has_core {
        Some(places[0].dir)
    } else {
        first_with_core(places.drop_first())
    }
}

/// A directory to probe, as plain values.
pub struct Sought {
    pub dir: Seq<char>,
    pub resolve: bool,
}

/// A directory to probe for the libraries of a configuration.
#[derive(Debug, Clone, PartialEq, Eq)]
pub struct Lookup {
    /// The directory as it is probed.
    pub dir: String,
    /// Whether the directory, where it holds the libraries, is to be
    /// reported by its canonical path, because it is written with `..`.
    pub resolve: bool,
}

impl View for Lookup {
    type V = Sought;

    open spec fn view(&self) -> Sought {
        Sought { dir: self.dir@, resolve: self.resolve }
    }
}

/// What a vector of lookups holds, as plain values.
pub open spec fn lookups(v: Seq<Lookup>) -> Seq<Sought> {
    v.map_values(|l: Lookup| l@)
}

/// The directory `lib/intel64` beside a directory of headers.
pub open spec fn libraries_beside(include_dir: Seq<char>, platform: Platform) -> Seq<char> {
    crate::seek::join_path(
        crate::seek::join_path(
            crate::seek::join_path(include_dir, ".."@, platform),
            "lib"@,
            platform,
        ),
        "intel64"@,
        platform,
    )
}

/// Where to look for the libraries of a configuration, in this order: the
/// build cache; the first link path of the package metadata; `lib/intel64`
/// beside its first include path, which alone is to be reported by its
/// canonical path; the directory of the configuration's name under the data
/// directory of this tool.
pub open spec fn candidate_dirs(
    config: Config,
    platform: Platform,
    out_dir: Option<Seq<char>>,
    link_paths: Seq<Seq<char>>,
    include_paths: Seq<Seq<char>>,
    data_home: Seq<char>,
) -> Seq<Sought> {
    (match out_dir {
        Some(dir) => seq![Sought { dir, resolve: false }],
        None => Seq::empty(),
    }) + (if link_paths.len() > 0 {
        seq![Sought { dir: link_paths[0], resolve: false }]
    } else {
        Seq::empty()
    }) + (if include_paths.len() > 0 {
        seq![Sought { dir: libraries_beside(include_paths[0], platform), resolve: true }]
    } else {
        Seq::empty()
    }) + seq![
        Sought { dir: crate::seek::join_path(data_home, config.name(), platform), resolve: false },
    ]
}

/// The file whose presence shows that a directory holds the libraries of a
/// configuration: the core library, under the platform's usual file name.
pub open spec fn core_file_in(config: Config, platform: Platform, dir: Seq<char>) -> Seq<char> {
    crate::seek::join_path(
        dir,
        crate::components::library_filename_spec(platform, config.link, "mkl_core"@),
        platform,
    )
}

/// The file that holds the library of a role in a found directory.
pub open spec fn linked_file(link: Linked, platform: Platform, role: Role) -> Seq<char> {
    crate::seek::join_path(
        link.path,
        crate::components::library_filename_spec(
            platform,
            link.config.link,
            library_name(link.config, platform, role),
        ),
        platform,
    )
}

/// The files that a found directory must hold before it is linked
/// against: those of MKL's own libraries, in link order.
pub open spec fn linked_files(link: Linked, platform: Platform) -> Seq<Seq<char>> {
    crate::components::mkl_roles().map_values(|role: Role| linked_file(link, platform, role))
}

/// A found directory of libraries, as plain values.
pub struct Linked {
    pub config: Config,
    pub path: Seq<char>,
}

/// Handler for a found library: the configuration and the one directory
/// that holds its libraries.
#[derive(Debug, Clone, PartialEq, Eq)]
pub struct LinkConfig {
    config: Config,
    path: String,
}

impl View for LinkConfig {
    type V = Linked;

    closed spec fn view(&self) -> Linked {
        Linked { config: self.config, path: self.path@ }
    }
}

/// What may be a found directory, as plain values.
pub open spec fn linked_view(r: Result<LinkConfig, ResolveError>) -> Result<Linked, Refusal> {
    match r {
        Ok(link) => Ok(link@),
        Err(e) => Err(e@),
    }
}

/// The found directory for a configuration among these places: the first
/// that holds the core library. Where none does, the configuration is not
/// found, and the error names it.
pub open spec fn linked(config: Config, places: Seq<Place>) -> Result<Linked, Refusal> {
    match first_with_core(places) {
        Some(path) => Ok(Linked { config, path }),
        None => Err(Refusal::NotFound { config }),
    }
}

/// The places that were probed for the configuration at place `i` of the
/// list of all; none where the list is shorter.
pub open spec fn places_at(all: Seq<Seq<Place>>, i: int) -> Seq<Place> {
    if 0 <= i < all.len() {
        all[i]
    } else {
        Seq::empty()
    }
}

/// The found directories of the first `n` configurations, in the order of
/// the configurations.
pub open spec fn linked_among(all: Seq<Seq<Place>>, n: nat) -> Seq<Linked>
    decreases n,
{
    if n == 0 {
        Seq::empty()
    } else {
        let before = linked_among(all, (n - 1) as nat);
        match linked(crate::config::all_configs()[n - 1], places_at(all, n - 1)) {
            Ok(link) => before.push(link),
            Err(_) => before,
        }
    }
}

/// The directives for the libraries in one directory: MKL's own libraries
/// in link order, all found in that directory, then the libraries of the
/// system.
pub open spec fn linked_plan(link: Linked, platform: Platform) -> Seq<Directive> {
    crate::components::mkl_roles().map_values(
        |role: Role|
            Directive {
                search_path: Some(link.path),
                library_name: library_name(link.config, platform, role),
                kind: link.config.link,
            },
    ) + runtime_libs().map_values(|name: Seq<char>| runtime_directive(name))
}

/// The libraries of one directory need one directory searched: the lines
/// for a found directory are the line for that directory, then the lines of
/// the libraries.
pub proof fn lemma_linked_lines(link: Linked, platform: Platform)
    ensures
        unique_paths(linked_plan(link, platform)) == seq![link.path],
        link_lines(linked_plan(link, platform)) == seq![search_line(link.path)] + linked_plan(
            link,
            platform,
        ).map_values(|d: Directive| lib_line(d)),
{
    let plan = linked_plan(link, platform);
    assert(plan.len() == 6);
    assert(plan.take(1).drop_last() =~= plan.take(0));
    assert(plan.take(2).drop_last() =~= plan.take(1));
    assert(plan.take(3).drop_last() =~= plan.take(2));
    assert(plan.take(4).drop_last() =~= plan.take(3));
    assert(plan.take(5).drop_last() =~= plan.take(4));
    assert(plan.drop_last() =~= plan.take(5));
    assert(unique_paths(plan.take(0)) =~= Seq::<Seq<char>>::empty());
    assert(unique_paths(plan.take(1)) =~= seq![link.path]);
    assert(unique_paths(plan.take(1))[0] == link.path);
    assert(unique_paths(plan.take(2)) =~= seq![link.path]);
    assert(unique_paths(plan.take(3)) =~= seq![link.path]);
    assert(unique_paths(plan.take(4)) =~= seq![link.path]);
    assert(unique_paths(plan.take(5)) =~= seq![link.path]);
    assert(unique_paths(plan) =~= seq![link.path]);
    assert(unique_paths(plan).map_values(|path: Seq<char>| search_line(path)) =~= seq![
        search_line(link.path),
    ]);
}

impl LinkConfig {
    /// The directories to probe for a configuration, in the order of their
    /// precedence. `out_dir` is the build cache, if there is one;
    /// `link_paths` and `include_paths` are what the package metadata names,
    /// both empty where it does not know the configuration; `data_home` is
    /// the data directory of this tool.
    pub fn candidates(
        config: Config,
        platform: Platform,
        out_dir: Option<&str>,
        link_paths: &Vec<String>,
        include_paths: &Vec<String>,
        data_home: &str,
    ) -> (dirs: Vec<Lookup>)
        ensures
            lookups(dirs@) == candidate_dirs(
                config,
                platform,
                match out_dir {
                    Some(dir) => Some(dir@),
                    None => None,
                },
                texts(link_paths@),
                texts(include_paths@),
                data_home@,
            ),
    {
        let mut dirs: Vec<Lookup> = Vec::new();
        match out_dir {
            Some(dir) => {
                dirs.push(Lookup { dir: dir.to_owned(), resolve: false });
            },
            None => {},
        }
        if link_paths.len() > 0 {
            assert(texts(link_paths@)[0] == link_paths@[0]@);
            dirs.push(Lookup { dir: link_paths[0].clone(), resolve: false });
        }
        if include_paths.len() > 0 {
            assert(texts(include_paths@)[0] == include_paths@[0]@);
            let up = crate::seek::path_under(include_paths[0].as_str(), "..", platform);
            let lib = crate::seek::path_under(up.as_str(), "lib", platform);
            let dir = crate::seek::path_under(lib.as_str(), "intel64", platform);
            dirs.push(Lookup { dir, resolve: true });
        }
        let name = config.to_string();
        let dir = crate::seek::path_under(data_home, name.as_str(), platform);
        dirs.push(Lookup { dir, resolve: false });
        assert(lookups(dirs@) =~= candidate_dirs(
            config,
            platform,
            match out_dir {
                Some(dir) => Some(dir@),
                None => None,
            },
            texts(link_paths@),
            texts(include_paths@),
            data_home@,
        ));
        dirs
    }

    /// The file to probe in a directory: where it exists, the directory
    /// holds the libraries of the configuration.
    pub fn core_file(config: Config, platform: Platform, dir: &str) -> (path: String)
        ensures
            path@ == core_file_in(config, platform, dir@),
    {
        let file = crate::components::as_library_filename(platform, config.link, "mkl_core");
        crate::seek::path_under(dir, file.as_str(), platform)
    }

    /// The files that the found directory must hold before it is linked
    /// against: those of MKL's own libraries, in link order.
    pub fn required_files(&self, platform: Platform) -> (files: Vec<String>)
        ensures
            texts(files@) == linked_files(self@, platform),
    {
        let roles = [Role::Interface, Role::Threading, Role::Core];
        let ghost wanted = linked_files(self@, platform);
        let mut files: Vec<String> = Vec::new();
        let mut i: usize = 0;
        assert(texts(files@) =~= wanted.take(0));
        while i < 3
            invariant
                i <= 3,
                roles@ == crate::components::mkl_roles(),
                wanted == linked_files(self@, platform),
                texts(files@) == wanted.take(i as int),
            decreases 3 - i,
        {
            let file = crate::components::as_library_filename(
                platform,
                self.config.link,
                self.config.library_name(platform, roles[i]),
            );
            let path = crate::seek::path_under(self.path.as_str(), file.as_str(), platform);
            let ghost before = texts(files@);
            files.push(path);
            assert(texts(files@) =~= before.push(wanted[i as int]));
            assert(wanted.take(i + 1) =~= wanted.take(i as int).push(wanted[i as int]));
            i = i + 1;
        }
        assert(wanted.take(3) =~= wanted);
        files
    }

    /// Picks the directory where the library is: the first of the
    /// candidates that holds the core library. Where no candidate does, the
    /// configuration is not found, and the error names it.
    pub fn from_config(config: Config, candidates: &Vec<Candidate>) -> (r: Result<
        LinkConfig,
        ResolveError,
    >)
        ensures
            linked_view(r) == linked(config, places(candidates@)),
    {
        let ghost all = places(candidates@);
        let mut i: usize = 0;
        assert(all.skip(0) =~= all);
        while i < candidates.len()
            invariant
                i <= candidates.len(),
                all == places(candidates@),
                first_with_core(all.skip(i as int)) == first_with_core(all),
            decreases candidates.len() - i,
        {
            proof {
                assert(all.skip(i as int)[0] == candidates@[i as int]@);
                assert(all.skip(i as int).drop_first() =~= all.skip(i + 1));
            }
            if candidates[i].has_core {
                return Ok(LinkConfig { config, path: candidates[i].dir.clone() });
            }
            i = i + 1;
        }
        Err(ResolveError::NotFound { config })
    }

    /// The configuration whose libraries were found.
    pub fn config(&self) -> (c: Config)
        ensures
            c == self@.config,
    {
        self.config
    }

    pub fn name(&self) -> (s: String)
        ensures
            s@ == self@.config.name(),
    {
        self.config.to_string()
    }

    pub fn path(&self) -> (p: &str)
        ensures
            p@ == self@.path,
    {
        self.path.as_str()
    }

    /// The found directories of all configurations, in the order of the
    /// configurations. `candidates[i]` holds what was probed for the
    /// configuration at place `i` of [`Config::possibles`].
    pub fn available(candidates: &Vec<Vec<Candidate>>) -> (links: Vec<LinkConfig>)
        ensures
            links@.map_values(|l: LinkConfig| l@) == linked_among(
                candidates@.map_values(|c: Vec<Candidate>| places(c@)),
                8,
            ),
    {
        let configs = Config::possibles();
        let none: Vec<Candidate> = Vec::new();
        assert(places(none@) =~= Seq::<Place>::empty());
        let ghost all = candidates@.map_values(|c: Vec<Candidate>| places(c@));
        let mut links: Vec<LinkConfig> = Vec::new();
        let mut i: usize = 0;
        assert(links@.map_values(|l: LinkConfig| l@) =~= Seq::<Linked>::empty());
        while i < 8
            invariant
                i <= 8,
                configs@ == crate::config::all_configs(),
                all == candidates@.map_values(|c: Vec<Candidate>| places(c@)),
                places(none@) == Seq::<Place>::empty(),
                links@.map_values(|l: LinkConfig| l@) == linked_among(all, i as nat),
            decreases 8 - i,
        {
            let given = if i < candidates.len() {
                &candidates[i]
            } else {
                &none
            };
            assert(places(given@) == places_at(all, i as int));
            match LinkConfig::from_config(configs[i], given) {
                Ok(link) => {
                    let ghost before = links@.map_values(|l: LinkConfig| l@);
                    links.push(link);
                    assert(links@.map_values(|l: LinkConfig| l@) =~= before.push(link@));
                },
                Err(_) => {},
            }
            i = i + 1;
        }
        links
    }

    /// The `cargo:rustc-link-*` lines that a build script prints for the
    /// libraries in the found directory: the line for the directory, one
    /// line per library of MKL, and one per library of the system.
    pub fn print_cargo_metadata(&self, platform: Platform) -> (lines: Vec<String>)
        ensures
            texts(lines@) == link_lines(linked_plan(self@, platform)),
    {
        let plan = self.directives(platform);
        cargo_metadata(&plan)
    }

    /// The directives for the linker: MKL's own libraries, all in the found
    /// directory, then the libraries of the system.
    pub fn directives(&self, platform: Platform) -> (plan: Vec<LinkDirective>)
        ensures
            directives(plan@) == linked_plan(self@, platform),
    {
        let roles = [Role::Interface, Role::Threading, Role::Core];
        let ghost wanted = crate::components::mkl_roles().map_values(
            |role: Role|
                Directive {
                    search_path: Some(self@.path),
                    library_name: library_name(self@.config, platform, role),
                    kind: self@.config.link,
                },
        );
        let mut plan: Vec<LinkDirective> = Vec::new();
        let mut i: usize = 0;
        assert(directives(plan@) =~= wanted.take(0));
        while i < 3
            invariant
                i <= 3,
                roles@ == crate::components::mkl_roles(),
                wanted == crate::components::mkl_roles().map_values(
                    |role: Role|
                        Directive {
                            search_path: Some(self@.path),
                            library_name: library_name(self@.config, platform, role),
                            kind: self@.config.link,
                        },
                ),
                directives(plan@) == wanted.take(i as int),
            decreases 3 - i,
        {
            let directive = LinkDirective {
                search_path: Some(self.path.clone()),
                library_name: self.config.library_name(platform, roles[i]).to_owned(),
                kind: self.config.link,
            };
            let ghost before = directives(plan@);
            plan.push(directive);
            assert(directives(plan@) =~= before.push(wanted[i as int]));
            assert(wanted.take(i + 1) =~= wanted.take(i as int).push(wanted[i as int]));
            i = i + 1;
        }
        assert(wanted.take(3) =~= wanted);
        push_runtime(&mut plan);
        plan
    }
}

} // verus!
