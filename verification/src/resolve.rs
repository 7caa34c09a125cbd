//! The search for an installation over several places, in a fixed order.
//!
//! The places are, from the first to the last: the build cache, where an
//! earlier build may have unpacked an archive; the root that the package
//! metadata of the system names; the root that the user names; and the
//! well-known roots of the platform. What each place holds is added to what
//! the places before it held, and the search ends with the first place that
//! makes the findings complete.
//!
//! The search itself reads nothing. It asks, one [`Request`] at a time, and
//! the caller answers with a [`Reply`].

use crate::config::Config;
use crate::library::{installed, Installed, Library};
use crate::platform::Platform;
use crate::seek::{
    file_name_of, parent_of, path_parts, scan, AmbiguousInstallation, Conflict, Found, PartialMatch,
};
use crate::text::{chars_of, is_word, string_of, texts};
use vstd::prelude::*;

verus! {

/// The environment variable that names the build cache.
pub const BUILD_CACHE_VARIABLE: &'static str = "OUT_DIR";

/// The environment variable by which the user names the root of an
/// installation.
pub const USER_ROOT_VARIABLE: &'static str = "MKLROOT";

/// The place that a search is looking at.
#[derive(Debug, Clone, Copy, PartialEq, Eq, Structural)]
pub enum Stage {
    /// The directory that the build-cache variable names.
    BuildCache,
    /// The package metadata of the system.
    Package,
    /// The root that the package metadata led to.
    PackageRoot,
    /// The directory that the user-root variable names.
    UserRoot,
    /// One of the well-known roots of the platform, by its place in the list.
    WellKnown(usize),
}

/// The well-known roots of a platform, in the order in which they are tried.
pub open spec fn well_known_roots(platform: Platform) -> Seq<Seq<char>> {
    match platform {
        Platform::Windows => seq![
            "C:/Program Files (x86)/IntelSWTools/"@,
            "C:/Program Files (x86)/Intel/oneAPI/"@,
        ],
        _ => seq!["/opt/intel"@],
    }
}

/// The well-known roots of a platform.
pub fn well_known(platform: Platform) -> (roots: Vec<String>)
    ensures
        texts(roots@) == well_known_roots(platform),
{
    let mut roots: Vec<String> = Vec::new();
    match platform {
        Platform::Windows => {
            roots.push("C:/Program Files (x86)/IntelSWTools/".to_owned());
            roots.push("C:/Program Files (x86)/Intel/oneAPI/".to_owned());
        },
        _ => {
            roots.push("/opt/intel".to_owned());
        },
    }
    assert(texts(roots@) =~= well_known_roots(platform));
    roots
}

/// A question to the system, as plain values.
pub enum Question {
    ListBuildCache,
    QueryPackage { name: Seq<char> },
    ListDirectory { root: Seq<char> },
    ListUserRoot,
}

/// What a search asks the caller to find out.
#[derive(Debug, Clone, PartialEq, Eq)]
pub enum Request {
    /// List the files under the directory that [`BUILD_CACHE_VARIABLE`]
    /// names.
    ListBuildCache,
    /// Ask the package metadata of the system about the package of this
    /// name.
    QueryPackage { name: String },
    /// List the files under this directory.
    ListDirectory { root: String },
    /// List the files under the directory that [`USER_ROOT_VARIABLE`] names.
    ListUserRoot,
}

impl View for Request {
    type V = Question;

    open spec fn view(&self) -> Question {
        match self {
            Request::ListBuildCache => Question::ListBuildCache,
            Request::QueryPackage { name } => Question::QueryPackage { name: name@ },
            Request::ListDirectory { root } => Question::ListDirectory { root: root@ },
            Request::ListUserRoot => Question::ListUserRoot,
        }
    }
}

/// An answer of the system, as plain values.
pub enum Answer {
    Absent,
    Files(Seq<Seq<char>>),
    Package { link_paths: Seq<Seq<char>>, include_paths: Seq<Seq<char>> },
}

/// What the caller found out.
#[derive(Debug, Clone, PartialEq, Eq)]
pub enum Reply {
    /// There is nothing of the kind: the variable is not set, the directory
    /// does not exist, the metadata does not know the package.
    Absent,
    /// The paths of the regular files under the directory, found without
    /// following symbolic links, in the order in which the walk met them.
    Files(Vec<String>),
    /// What the package metadata says of the package.
    Package { link_paths: Vec<String>, include_paths: Vec<String> },
}

impl View for Reply {
    type V = Answer;

    open spec fn view(&self) -> Answer {
        match self {
            Reply::Absent => Answer::Absent,
            Reply::Files(files) => Answer::Files(texts(files@)),
            Reply::Package { link_paths, include_paths } => Answer::Package {
                link_paths: texts(link_paths@),
                include_paths: texts(include_paths@),
            },
        }
    }
}

/// What a vector of replies holds, as plain values.
pub open spec fn answers(replies: Seq<Reply>) -> Seq<Answer> {
    replies.map_values(|r: Reply| r@)
}

/// The files that an answer lists; none unless it is a listing.
pub open spec fn files_of(answer: Answer) -> Seq<Seq<char>> {
    match answer {
        Answer::Files(files) => files,
        _ => Seq::empty(),
    }
}

/// The root of the installation whose libraries lie in `path`: the
/// directory above `lib/intel64` where the path ends so, else the path.
pub open spec fn root_above_libraries(path: Seq<char>, platform: Platform) -> Seq<char> {
    let above = parent_of(path, platform);
    if file_name_of(path, platform) == "intel64"@ && file_name_of(above, platform) == "lib"@ {
        parent_of(above, platform)
    } else {
        path
    }
}

/// The root of the installation whose headers lie in `path`: the directory
/// above `include` where the path ends so, else the path.
pub open spec fn root_above_headers(path: Seq<char>, platform: Platform) -> Seq<char> {
    if file_name_of(path, platform) == "include"@ {
        parent_of(path, platform)
    } else {
        path
    }
}

/// The root to search for a package: the one above its first link path, or
/// without link paths the one above its first include path.
pub open spec fn package_root(
    link_paths: Seq<Seq<char>>,
    include_paths: Seq<Seq<char>>,
    platform: Platform,
) -> Option<Seq<char>> {
    if link_paths.len() > 0 {
        Some(root_above_libraries(link_paths[0], platform))
    } else if include_paths.len() > 0 {
        Some(root_above_headers(include_paths[0], platform))
    } else {
        None
    }
}

impl Library {
    /// Finds the root of the installation that `pkg-config` knows: the root
    /// to search, if the metadata names any path.
    ///
    /// The OpenMP runtime seldom lies under this root, so that a
    /// `mkl-*-*-iomp` configuration is seldom found complete there; the
    /// places that are searched after it may complete it.
    pub fn pkg_config(link_paths: &Vec<String>, include_paths: &Vec<String>, platform: Platform)
        -> (root: Option<String>)
        ensures
            crate::seek::dir_view(root) == package_root(
                texts(link_paths@),
                texts(include_paths@),
                platform,
            ),
    {
        if link_paths.len() > 0 {
            assert(texts(link_paths@)[0] == link_paths@[0]@);
            let path = chars_of(link_paths[0].as_str());
            let parts = path_parts(path.as_slice(), platform);
            if is_word(parts.name.as_slice(), "intel64") {
                let above = path_parts(parts.dir.as_slice(), platform);
                if is_word(above.name.as_slice(), "lib") {
                    return Some(string_of(above.dir.as_slice()));
                }
            }
            Some(link_paths[0].clone())
        } else if include_paths.len() > 0 {
            assert(texts(include_paths@)[0] == include_paths@[0]@);
            let path = chars_of(include_paths[0].as_str());
            let parts = path_parts(path.as_slice(), platform);
            if is_word(parts.name.as_slice(), "include") {
                return Some(string_of(parts.dir.as_slice()));
            }
            Some(include_paths[0].clone())
        } else {
            None
        }
    }
}

/// The state of a search, as plain values.
pub struct Search {
    pub config: Config,
    pub platform: Platform,
    pub stage: Stage,
    pub found: Found,
}

/// A conflict, with the configuration that was sought and the place where
/// the conflict lies.
pub struct Failure {
    pub config: Config,
    pub stage: Stage,
    pub conflict: Conflict,
}

/// Why a search ended without an installation, as plain values.
pub enum Refusal {
    NotFound { config: Config },
    Ambiguous(Failure),
}

/// What a step of a search leads to, as plain values.
pub enum Outcome {
    Ask(Search, Question),
    Done(Result<Installed, Refusal>),
}

/// The search turns to the well-known root at place `i` of the list, or
/// ends for want of one.
pub open spec fn try_well_known(search: Search, i: int) -> Outcome {
    if 0 <= i < well_known_roots(search.platform).len() {
        Outcome::Ask(
            Search { stage: Stage::WellKnown(i as usize), ..search },
            Question::ListDirectory { root: well_known_roots(search.platform)[i] },
        )
    } else {
        Outcome::Done(Err(Refusal::NotFound { config: search.config }))
    }
}

/// The search goes on to the next place, or ends for want of one: after the
/// build cache the package metadata, by the name of the configuration; then
/// the user's root; then the well-known roots, one after the other.
pub open spec fn move_on(search: Search) -> Outcome {
    match search.stage {
        Stage::BuildCache => Outcome::Ask(
            Search { stage: Stage::Package, ..search },
            Question::QueryPackage { name: search.config.name() },
        ),
        Stage::Package => Outcome::Ask(
            Search { stage: Stage::UserRoot, ..search },
            Question::ListUserRoot,
        ),
        Stage::PackageRoot => Outcome::Ask(
            Search { stage: Stage::UserRoot, ..search },
            Question::ListUserRoot,
        ),
        Stage::UserRoot => try_well_known(search, 0),
        Stage::WellKnown(i) => try_well_known(search, i + 1),
    }
}

/// The search after the files of a place are known: a conflict among them
/// ends it; else they complete what was found before, and the search ends if
/// nothing is missing any more, and goes on if something is.
pub open spec fn after_listing(search: Search, files: Seq<Seq<char>>) -> Outcome {
    match scan(files, search.config, search.platform) {
        Err(conflict) => Outcome::Done(
            Err(
                Refusal::Ambiguous(
                    Failure { config: search.config, stage: search.stage, conflict },
                ),
            ),
        ),
        Ok(here) => {
            let found = search.found.or(here);
            if found.covers(search.config) {
                Outcome::Done(Ok(installed(search.config, found)))
            } else {
                move_on(Search { found, ..search })
            }
        },
    }
}

/// One step of a search: what follows from an answer to the question that
/// was put last. An answer of the wrong kind counts as no answer.
pub open spec fn step(search: Search, answer: Answer) -> Outcome {
    match search.stage {
        Stage::Package => match answer {
            Answer::Package { link_paths, include_paths } => match package_root(
                link_paths,
                include_paths,
                search.platform,
            ) {
                Some(root) => Outcome::Ask(
                    Search { stage: Stage::PackageRoot, ..search },
                    Question::ListDirectory { root },
                ),
                None => move_on(search),
            },
            _ => move_on(search),
        },
        _ => after_listing(search, files_of(answer)),
    }
}

/// The search before its first step.
pub open spec fn start(config: Config, platform: Platform) -> Search {
    Search { config, platform, stage: Stage::BuildCache, found: Found::empty() }
}

/// Where a search ends when the system gives these answers, the first to the
/// first question, the second to the second, and so on. A search that is
/// left without an answer has found nothing.
pub open spec fn run(search: Search, answers: Seq<Answer>) -> Result<Installed, Refusal>
    decreases answers.len(),
{
    if answers.len() == 0 {
        Err(Refusal::NotFound { config: search.config })
    } else {
        match step(search, answers[0]) {
            Outcome::Ask(next, _) => run(next, answers.drop_first()),
            Outcome::Done(end) => end,
        }
    }
}

/// Where the search for a configuration ends when the system gives these
/// answers.
pub open spec fn resolve(config: Config, platform: Platform, answers: Seq<Answer>) -> Result<
    Installed,
    Refusal,
> {
    run(start(config, platform), answers)
}

/// Why a search ended without an installation.
#[derive(Debug, Clone, PartialEq, Eq)]
pub enum ResolveError {
    /// No place, and no places together, held everything that the
    /// configuration needs.
    NotFound { config: Config },
    /// A place held the library of one role in two directories.
    Ambiguous { config: Config, stage: Stage, conflict: AmbiguousInstallation },
}

impl View for ResolveError {
    type V = Refusal;

    open spec fn view(&self) -> Refusal {
        match self {
            ResolveError::NotFound { config } => Refusal::NotFound { config: *config },
            ResolveError::Ambiguous { config, stage, conflict } => Refusal::Ambiguous(
                Failure { config: *config, stage: *stage, conflict: conflict@ },
            ),
        }
    }
}

impl Refusal {
    /// A sentence for the user, which names the configuration that was
    /// sought and, for a conflict, the two directories.
    pub open spec fn text(self) -> Seq<char> {
        match self {
            Refusal::NotFound { config } => "No library found for "@ + config.name(),
            Refusal::Ambiguous(failure) => "Ambiguous installation of "@ + failure.config.name()
                + ": "@ + failure.conflict.first + " and "@ + failure.conflict.second,
        }
    }
}

impl ResolveError {
    /// A sentence for the user.
    pub fn message(&self) -> (s: String)
        ensures
            s@ == self@.text(),
    {
        match self {
            ResolveError::NotFound { config } => {
                let mut s = "No library found for ".to_owned();
                s.append(config.to_string().as_str());
                s
            },
            ResolveError::Ambiguous { config, stage: _, conflict } => {
                let mut s = "Ambiguous installation of ".to_owned();
                s.append(config.to_string().as_str());
                s.append(": ");
                s.append(conflict.first.as_str());
                s.append(" and ");
                s.append(conflict.second.as_str());
                s
            },
        }
    }
}

/// How a search ended, as plain values.
pub open spec fn end_view(end: Result<Library, ResolveError>) -> Result<Installed, Refusal> {
    match end {
        Ok(lib) => Ok(lib@),
        Err(e) => Err(e@),
    }
}

/// A search under way.
#[derive(Debug, Clone, PartialEq, Eq)]
pub struct Resolver {
    pub config: Config,
    pub platform: Platform,
    pub stage: Stage,
    pub found: PartialMatch,
}

impl View for Resolver {
    type V = Search;

    open spec fn view(&self) -> Search {
        Search {
            config: self.config,
            platform: self.platform,
            stage: self.stage,
            found: self.found@,
        }
    }
}

/// What a step of a search leads to.
#[derive(Debug, PartialEq, Eq)]
pub enum Step {
    /// The search goes on: the caller answers the request and takes the next
    /// step with the answer.
    Ask(Resolver, Request),
    /// The search is over.
    Done(Result<Library, ResolveError>),
}

impl View for Step {
    type V = Outcome;

    open spec fn view(&self) -> Outcome {
        match self {
            Step::Ask(resolver, request) => Outcome::Ask(resolver@, request@),
            Step::Done(end) => Outcome::Done(end_view(*end)),
        }
    }
}

impl Resolver {
    /// Begins the search for a configuration. The first request is always
    /// for the build cache.
    pub fn new(config: Config, platform: Platform) -> (r: (Resolver, Request))
        ensures
            r.0@ == start(config, platform),
            r.1@ == Question::ListBuildCache,
    {
        (
            Resolver { config, platform, stage: Stage::BuildCache, found: PartialMatch::new() },
            Request::ListBuildCache,
        )
    }

    /// The search turns to the well-known root at place `i` of the list, or
    /// ends for want of one.
    fn try_well_known(self, i: usize) -> (r: Step)
        ensures
            r@ == try_well_known(self@, i as int),
    {
        let roots = well_known(self.platform);
        assert(texts(roots@).len() == roots@.len());
        if i < roots.len() {
            assert(texts(roots@)[i as int] == roots@[i as int]@);
            Step::Ask(
                Resolver { stage: Stage::WellKnown(i), ..self },
                Request::ListDirectory { root: roots[i].clone() },
            )
        } else {
            Step::Done(Err(ResolveError::NotFound { config: self.config }))
        }
    }

    /// The search goes on to the next place, or ends for want of one.
    fn move_on(self) -> (r: Step)
        ensures
            r@ == move_on(self@),
    {
        match self.stage {
            Stage::BuildCache => {
                let name = self.config.to_string();
                Step::Ask(
                    Resolver { stage: Stage::Package, ..self },
                    Request::QueryPackage { name },
                )
            },
            Stage::Package => Step::Ask(
                Resolver { stage: Stage::UserRoot, ..self },
                Request::ListUserRoot,
            ),
            Stage::PackageRoot => Step::Ask(
                Resolver { stage: Stage::UserRoot, ..self },
                Request::ListUserRoot,
            ),
            Stage::UserRoot => self.try_well_known(0),
            Stage::WellKnown(i) => if i < usize::MAX {
                self.try_well_known(i + 1)
            } else {
                Step::Done(Err(ResolveError::NotFound { config: self.config }))
            },
        }
    }

    /// Takes one step with the answer to the request that was made last.
    pub fn step(self, reply: &Reply) -> (r: Step)
        ensures
            r@ == step(self@, reply@),
            r matches Step::Done(Ok(lib)) ==> lib@.wf(),
    {
        match self.stage {
            Stage::Package => match reply {
                Reply::Package { link_paths, include_paths } => {
                    match Library::pkg_config(link_paths, include_paths, self.platform) {
                        Some(root) => Step::Ask(
                            Resolver { stage: Stage::PackageRoot, ..self },
                            Request::ListDirectory { root },
                        ),
                        None => self.move_on(),
                    }
                },
                _ => self.move_on(),
            },
            _ => {
                let nothing: Vec<String> = Vec::new();
                assert(texts(nothing@) =~= Seq::<Seq<char>>::empty());
                let files = match reply {
                    Reply::Files(files) => files,
                    _ => &nothing,
                };
                assert(texts(files@) == files_of(reply@));
                let Resolver { config, platform, stage, found } = self;
                match found.seek(config, platform, files) {
                    Err(conflict) => Step::Done(
                        Err(ResolveError::Ambiguous { config, stage, conflict }),
                    ),
                    Ok(found) => match Library::from_partial(config, found) {
                        Ok(lib) => Step::Done(Ok(lib)),
                        Err(found) => (Resolver { config, platform, stage, found }).move_on(),
                    },
                }
            },
        }
    }
}

/// The answers that the system gave to the search for the configuration at
/// place `i` of the list of all; none where the list of answers is shorter.
pub open spec fn answers_at(all: Seq<Seq<Answer>>, i: int) -> Seq<Answer> {
    if 0 <= i < all.len() {
        all[i]
    } else {
        Seq::empty()
    }
}

/// The installations found for the first `n` configurations, in the order
/// of the configurations. A configuration that was not found leaves no
/// trace.
pub open spec fn available_among(platform: Platform, all: Seq<Seq<Answer>>, n: nat) -> Seq<
    Installed,
>
    decreases n,
{
    if n == 0 {
        Seq::empty()
    } else {
        let before = available_among(platform, all, (n - 1) as nat);
        match resolve(crate::config::all_configs()[n - 1], platform, answers_at(all, n - 1)) {
            Ok(lib) => before.push(lib),
            Err(_) => before,
        }
    }
}

/// What a vector of libraries holds, as plain values.
pub open spec fn libraries(libs: Seq<Library>) -> Seq<Installed> {
    libs.map_values(|lib: Library| lib@)
}

/// What a vector of vectors of replies holds, as plain values.
pub open spec fn all_answers(replies: Seq<Vec<Reply>>) -> Seq<Seq<Answer>> {
    replies.map_values(|r: Vec<Reply>| answers(r@))
}

impl Library {
    /// Seeks MKL in the system, as far as the system is known from the
    /// replies it gave: `replies[0]` answers the first request of the search,
    /// `replies[1]` the second, and so on.
    ///
    /// The search asks, in this order, for
    ///
    /// - the files under the build cache,
    /// - what `pkg-config` knows of the configuration, and then the files
    ///   under the root that follows from it,
    /// - the files under the directory that `$MKLROOT` names,
    /// - the files under each well-known root: `/opt/intel` on Linux and
    ///   macOS, `C:/Program Files (x86)/IntelSWTools/` and
    ///   `C:/Program Files (x86)/Intel/oneAPI/` on Windows.
    pub fn new(config: Config, platform: Platform, replies: &Vec<Reply>) -> (r: Result<
        Library,
        ResolveError,
    >)
        ensures
            end_view(r) == resolve(config, platform, answers(replies@)),
            r matches Ok(lib) ==> lib@.wf(),
    {
        let (mut resolver, _) = Resolver::new(config, platform);
        let ghost all = answers(replies@);
        let mut i: usize = 0;
        assert(all.skip(0) =~= all);
        while i < replies.len()
            invariant
                i <= replies.len(),
                all == answers(replies@),
                resolver.config == config,
                run(resolver@, all.skip(i as int)) == resolve(config, platform, all),
            decreases replies.len() - i,
        {
            proof {
                assert(all.skip(i as int)[0] == replies@[i as int]@);
                assert(all.skip(i as int).drop_first() =~= all.skip(i + 1));
            }
            match resolver.step(&replies[i]) {
                Step::Ask(next, _) => {
                    resolver = next;
                },
                Step::Done(end) => {
                    return end;
                },
            }
            i = i + 1;
        }
        Err(ResolveError::NotFound { config })
    }

    /// The installations of all configurations that are found, in the order
    /// of the configurations. `replies[i]` holds the replies of the system to
    /// the search for the configuration at place `i` of
    /// [`Config::possibles`]. A configuration that is not found is left out.
    pub fn available(platform: Platform, replies: &Vec<Vec<Reply>>) -> (libs: Vec<Library>)
        ensures
            libraries(libs@) == available_among(platform, all_answers(replies@), 8),
    {
        let configs = Config::possibles();
        let none: Vec<Reply> = Vec::new();
        assert(answers(none@) =~= Seq::<Answer>::empty());
        let ghost all = all_answers(replies@);
        let mut libs: Vec<Library> = Vec::new();
        let mut i: usize = 0;
        assert(libraries(libs@) =~= Seq::<Installed>::empty());
        while i < 8
            invariant
                i <= 8,
                configs@ == crate::config::all_configs(),
                all == all_answers(replies@),
                answers(none@) == Seq::<Answer>::empty(),
                libraries(libs@) == available_among(platform, all, i as nat),
            decreases 8 - i,
        {
            let given = if i < replies.len() {
                &replies[i]
            } else {
                &none
            };
            assert(answers(given@) == answers_at(all, i as int));
            match Library::new(configs[i], platform, given) {
                Ok(lib) => {
                    let ghost before = libraries(libs@);
                    libs.push(lib);
                    assert(libraries(libs@) =~= before.push(lib@));
                },
                Err(_) => {},
            }
            i = i + 1;
        }
        libs
    }
}

/// The names of the configurations that the package metadata knows, in the
/// order of the configurations, as far as the first `n` go.
pub open spec fn packages_among(all: Seq<Answer>, n: nat) -> Seq<Seq<char>>
    decreases n,
{
    if n == 0 {
        Seq::empty()
    } else {
        let before = packages_among(all, (n - 1) as nat);
        if n - 1 < all.len() && all[n - 1] is Package {
            before.push(crate::config::all_configs()[n - 1].name())
        } else {
            before
        }
    }
}

/// The names of the configurations that the package metadata knows.
/// `replies[i]` is what it says of the configuration at place `i` of
/// [`Config::possibles`].
pub fn seek_pkg_config(replies: &Vec<Reply>) -> (names: Vec<String>)
    ensures
        texts(names@) == packages_among(answers(replies@), 8),
{
    let configs = Config::possibles();
    let ghost all = answers(replies@);
    let mut names: Vec<String> = Vec::new();
    let mut i: usize = 0;
    assert(texts(names@) =~= Seq::<Seq<char>>::empty());
    while i < 8
        invariant
            i <= 8,
            configs@ == crate::config::all_configs(),
            all == answers(replies@),
            texts(names@) == packages_among(all, i as nat),
        decreases 8 - i,
    {
        if i < replies.len() {
            assert(all[i as int] == replies@[i as int]@);
            match &replies[i] {
                Reply::Package { .. } => {
                    let ghost before = texts(names@);
                    let name = configs[i].to_string();
                    names.push(name);
                    assert(texts(names@) =~= before.push(name@));
                },
                _ => {},
            }
        }
        i = i + 1;
    }
    names
}

/// The build cache takes precedence: where it alone holds everything that
/// the configuration needs, the installation is the one found there,
/// whatever the other places hold.
pub proof fn lemma_build_cache_wins(
    config: Config,
    platform: Platform,
    files: Seq<Seq<char>>,
    later: Seq<Answer>,
)
    requires
        scan(files, config, platform) is Ok,
        scan(files, config, platform)->Ok_0.covers(config),
    ensures
        resolve(config, platform, seq![Answer::Files(files)] + later) == Ok::<Installed, Refusal>(
            installed(config, scan(files, config, platform)->Ok_0),
        ),
{
    let found = scan(files, config, platform)->Ok_0;
    assert(Found::empty().or(found) == found);
}

/// What an earlier place holds, a later place does not replace: the
/// directory of a role, once found, stays in the findings.
pub proof fn lemma_earlier_stays(earlier: Found, later: Found, role: crate::components::Role)
    ensures
        earlier.include_dir is Some ==> earlier.or(later).include_dir == earlier.include_dir,
        earlier.get(role) is Some ==> earlier.or(later).get(role) == earlier.get(role),
        earlier.get(role) is None ==> earlier.or(later).get(role) == later.get(role),
{
}

} // verus!
