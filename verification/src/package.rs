//! Packaging an installation into an archive.
//!
//! The archive holds the library files of an installation and is named by
//! platform and version, the same name under which it is fetched again.
//! Reading and writing is the caller's: this module decides what is to be
//! done next, one [`PackRequest`] at a time, and fails before anything is
//! written where the installation is not fit or the archive is there
//! already.

use crate::codec::{compress, zstd_encoded};
use crate::components::{
    as_library_filename, component_spec, component_views, library_filename_spec, library_name,
    mkl_dyn_lib_names, mkl_dyn_libs, required_roles, Role,
};
use crate::download::{archive_name, archive_name_spec};
use crate::library::{Installed, Library};
use crate::order::{by_name, sort_names};
use crate::platform::Platform;
use crate::seek::{join_path, path_under};
use crate::text::{chars_of, ends_with, has_suffix, texts};
use crate::version::{parse_version, Version, VersionError};
use vstd::prelude::*;

verus! {

/// The compression level of the archives.
pub const COMPRESSION_LEVEL: i32 = 6;

/// Where the version header lies under the root of an installation.
pub open spec fn header_path(root: Seq<char>, platform: Platform) -> Seq<char> {
    join_path(join_path(root, "include"@, platform), "mkl_version.h"@, platform)
}

/// Where the libraries lie under the root of an installation.
pub open spec fn library_dir(root: Seq<char>, platform: Platform) -> Seq<char> {
    join_path(join_path(root, "lib"@, platform), "intel64"@, platform)
}

/// Where the archive of a version is written.
pub open spec fn output_path(out_dir: Seq<char>, platform: Platform, version: Version) -> Seq<
    char,
> {
    join_path(out_dir, archive_name_spec(platform, version.year, version.update), platform)
}

/// Whether a file of this name goes into the archive: the shared libraries
/// of the platform do, and on Linux the static libraries too.
pub open spec fn is_packaged(name: Seq<char>, platform: Platform) -> bool {
    has_suffix(name, "."@ + platform.dll_extension_spec()) || (platform == Platform::Linux
        && has_suffix(name, ".a"@))
}

/// The files that go into the archive, in the order of the listing.
pub open spec fn packaged(names: Seq<Seq<char>>, platform: Platform) -> Seq<Seq<char>> {
    names.filter(|name: Seq<char>| is_packaged(name, platform))
}

/// The files that go into the archive, in the order in which they go in:
/// that of the dictionary, whatever the order of the listing.
pub open spec fn packaged_in_order(names: Seq<Seq<char>>, platform: Platform) -> Seq<Seq<char>> {
    packaged(names, platform).sort_by(by_name())
}

/// The files of an archive stand in the order of the dictionary, and they
/// are the files of the listing that belong into it, each as often as the
/// listing has it.
pub proof fn lemma_packaged_in_order(names: Seq<Seq<char>>, platform: Platform)
    ensures
        vstd::relations::sorted_by(packaged_in_order(names, platform), by_name()),
        packaged_in_order(names, platform).to_multiset() == packaged(names, platform).to_multiset(),
{
    crate::order::lemma_order_is_total_ordering();
    packaged(names, platform).lemma_sort_by_ensures(by_name());
}

/// Whether a file of this name goes into the archive.
pub fn goes_into_package(name: &str, platform: Platform) -> (r: bool)
    ensures
        r == is_packaged(name@, platform),
{
    let chars = chars_of(name);
    let mut shared: Vec<char> = Vec::new();
    crate::text::push_str(&mut shared, ".");
    crate::text::push_str(&mut shared, platform.dll_extension());
    assert(shared@ =~= "."@ + platform.dll_extension_spec());
    if ends_with(chars.as_slice(), shared.as_slice()) {
        return true;
    }
    match platform {
        Platform::Linux => {
            let archive = chars_of(".a");
            ends_with(chars.as_slice(), archive.as_slice())
        },
        _ => false,
    }
}

/// The files of a listing that go into the archive, in the order of the
/// listing.
pub fn select_libraries(names: &Vec<String>, platform: Platform) -> (chosen: Vec<String>)
    ensures
        texts(chosen@) == packaged(texts(names@), platform),
{
    let ghost all = texts(names@);
    let ghost keep = |name: Seq<char>| is_packaged(name, platform);
    let mut chosen: Vec<String> = Vec::new();
    let mut i: usize = 0;
    proof {
        reveal(Seq::filter);
        assert(all.take(0).filter(keep) =~= Seq::<Seq<char>>::empty());
        assert(texts(chosen@) =~= Seq::<Seq<char>>::empty());
    }
    while i < names.len()
        invariant
            i <= names.len(),
            all == texts(names@),
            keep == |name: Seq<char>| is_packaged(name, platform),
            texts(chosen@) == all.take(i as int).filter(keep),
        decreases names.len() - i,
    {
        proof {
            reveal(Seq::filter);
            assert(all.take(i + 1).drop_last() =~= all.take(i as int));
            assert(all.take(i + 1).last() == names@[i as int]@);
        }
        if goes_into_package(names[i].as_str(), platform) {
            let ghost before = texts(chosen@);
            chosen.push(names[i].clone());
            assert(texts(chosen@) =~= before.push(names@[i as int]@));
        }
        i = i + 1;
    }
    assert(all.take(i as int) =~= all);
    chosen
}

/// How far the packaging has come.
#[derive(Debug, Clone, Copy, PartialEq, Eq, Structural)]
pub enum PackStage {
    /// Looking whether the installation is there.
    CheckRoot,
    /// Reading the version header.
    ReadVersion,
    /// Looking whether the archive is there already.
    CheckOutput,
    /// Listing the libraries.
    ListLibraries,
    /// Putting the libraries into a tar archive.
    Archive,
    /// Writing the compressed archive.
    Write,
}

/// A packaging under way, as plain values.
pub struct Packing {
    pub root: Seq<char>,
    pub out_dir: Seq<char>,
    pub platform: Platform,
    pub stage: PackStage,
    pub output: Seq<char>,
}

/// A packaging under way.
#[derive(Debug, Clone, PartialEq, Eq)]
pub struct Packager {
    /// The root of the installation.
    pub root: String,
    /// The directory that the archive is written into.
    pub out_dir: String,
    pub platform: Platform,
    pub stage: PackStage,
    /// The path of the archive, once the version is known; empty before.
    pub output: String,
}

impl View for Packager {
    type V = Packing;

    open spec fn view(&self) -> Packing {
        Packing {
            root: self.root@,
            out_dir: self.out_dir@,
            platform: self.platform,
            stage: self.stage,
            output: self.output@,
        }
    }
}

/// What a packaging asks for, as plain values.
pub enum PackQuestion {
    Probe { path: Seq<char> },
    ReadText { path: Seq<char> },
    ListNames { dir: Seq<char> },
    Archive { dir: Seq<char>, names: Seq<Seq<char>> },
    Write { path: Seq<char>, bytes: Seq<u8> },
}

/// What a packaging asks the caller to do.
#[derive(Debug, Clone, PartialEq, Eq)]
pub enum PackRequest {
    /// Tell whether this path exists.
    Probe { path: String },
    /// Read this file as text.
    ReadText { path: String },
    /// List the names of the files in this directory.
    ListNames { dir: String },
    /// Put these files of the directory into a tar archive, in this order,
    /// each under its bare name and with the metadata that is the same on
    /// every machine.
    Archive { dir: String, names: Vec<String> },
    /// Write these bytes to a new file at this path.
    Write { path: String, bytes: Vec<u8> },
}

impl View for PackRequest {
    type V = PackQuestion;

    open spec fn view(&self) -> PackQuestion {
        match self {
            PackRequest::Probe { path } => PackQuestion::Probe { path: path@ },
            PackRequest::ReadText { path } => PackQuestion::ReadText { path: path@ },
            PackRequest::ListNames { dir } => PackQuestion::ListNames { dir: dir@ },
            PackRequest::Archive { dir, names } => PackQuestion::Archive {
                dir: dir@,
                names: texts(names@),
            },
            PackRequest::Write { path, bytes } => PackQuestion::Write {
                path: path@,
                bytes: bytes@,
            },
        }
    }
}

/// What the caller did, as plain values.
pub enum PackAnswer {
    Exists(bool),
    Text(Option<Seq<char>>),
    Names(Seq<Seq<char>>),
    Tar(Seq<u8>),
    Written,
    Failed,
}

/// What the caller did.
#[derive(Debug, Clone, PartialEq, Eq)]
pub enum PackReply {
    /// Whether the path exists.
    Exists(bool),
    /// The text of the file, or `None` where there is no such file.
    Text(Option<String>),
    /// The names of the files in the directory.
    Names(Vec<String>),
    /// The tar archive.
    Tar(Vec<u8>),
    /// The file is written.
    Written,
    /// What was asked for could not be done.
    Failed,
}

impl View for PackReply {
    type V = PackAnswer;

    open spec fn view(&self) -> PackAnswer {
        match self {
            PackReply::Exists(b) => PackAnswer::Exists(*b),
            PackReply::Text(text) => PackAnswer::Text(crate::seek::dir_view(*text)),
            PackReply::Names(names) => PackAnswer::Names(texts(names@)),
            PackReply::Tar(bytes) => PackAnswer::Tar(bytes@),
            PackReply::Written => PackAnswer::Written,
            PackReply::Failed => PackAnswer::Failed,
        }
    }
}

/// Why nothing was packaged, as plain values.
pub enum PackRefusal {
    MissingRoot { path: Seq<char> },
    BadVersion { path: Seq<char>, error: VersionError },
    OutputExists { path: Seq<char> },
    Failed { stage: PackStage },
}

/// Why nothing was packaged.
#[derive(Debug, Clone, PartialEq, Eq)]
pub enum PackageError {
    /// The installation is not there.
    MissingRoot { path: String },
    /// The version header is not there, or states no version.
    BadVersion { path: String, error: VersionError },
    /// An archive of this name is there already. It is never overwritten.
    OutputExists { path: String },
    /// The caller could not do what was asked for at this stage, or the
    /// archive could not be compressed.
    Failed { stage: PackStage },
}

impl View for PackageError {
    type V = PackRefusal;

    open spec fn view(&self) -> PackRefusal {
        match self {
            PackageError::MissingRoot { path } => PackRefusal::MissingRoot { path: path@ },
            PackageError::BadVersion { path, error } => PackRefusal::BadVersion {
                path: path@,
                error: *error,
            },
            PackageError::OutputExists { path } => PackRefusal::OutputExists { path: path@ },
            PackageError::Failed { stage } => PackRefusal::Failed { stage: *stage },
        }
    }
}

/// What a step of a packaging leads to, as plain values.
pub enum PackOutcome {
    Ask(Packing, PackQuestion),
    Done(Result<Seq<char>, PackRefusal>),
}

/// What a step of a packaging leads to.
#[derive(Debug, PartialEq, Eq)]
pub enum PackStep {
    /// The packaging goes on: the caller does what is asked and takes the
    /// next step with what came of it.
    Ask(Packager, PackRequest),
    /// The packaging is over. On success this is the path of the archive.
    Done(Result<String, PackageError>),
}

impl View for PackStep {
    type V = PackOutcome;

    open spec fn view(&self) -> PackOutcome {
        match self {
            PackStep::Ask(packager, request) => PackOutcome::Ask(packager@, request@),
            PackStep::Done(end) => PackOutcome::Done(
                match end {
                    Ok(path) => Ok(path@),
                    Err(e) => Err(e@),
                },
            ),
        }
    }
}

/// The packaging stops because the caller could not do what was asked.
pub open spec fn give_up(packing: Packing) -> PackOutcome {
    PackOutcome::Done(Err(PackRefusal::Failed { stage: packing.stage }))
}

/// The packaging after the version header was read: without a version it
/// ends; with one, the archive gets its name, and the next thing is to see
/// that no such archive is there.
pub open spec fn after_header(packing: Packing, text: Option<Seq<char>>) -> PackOutcome {
    let read = match text {
        Some(text) => parse_version(text),
        None => Err(VersionError::NotFound),
    };
    match read {
        Err(error) => PackOutcome::Done(
            Err(
                PackRefusal::BadVersion {
                    path: header_path(packing.root, packing.platform),
                    error,
                },
            ),
        ),
        Ok(version) => {
            let output = output_path(packing.out_dir, packing.platform, version);
            PackOutcome::Ask(
                Packing { stage: PackStage::CheckOutput, output, ..packing },
                PackQuestion::Probe { path: output },
            )
        },
    }
}

/// The packaging after compression: what did not compress ends it, and
/// what did is written.
pub open spec fn after_encoding(packing: Packing, encoded: Option<Seq<u8>>) -> PackOutcome {
    match encoded {
        None => give_up(packing),
        Some(bytes) => PackOutcome::Ask(
            Packing { stage: PackStage::Write, ..packing },
            PackQuestion::Write { path: packing.output, bytes },
        ),
    }
}

/// One step of a packaging.
///
/// - The root of the installation must exist.
/// - The version header under it must state a version.
/// - No archive of that version may be there already.
/// - The libraries are listed, and those that belong into the archive are
///   put into a tar archive, in the order of the dictionary.
/// - The tar archive is compressed and written.
///
/// An answer that does not fit the question counts as a failure of what was
/// asked for.
pub open spec fn pack_step(packing: Packing, answer: PackAnswer) -> PackOutcome {
    match packing.stage {
        PackStage::CheckRoot => match answer {
            PackAnswer::Exists(true) => PackOutcome::Ask(
                Packing { stage: PackStage::ReadVersion, ..packing },
                PackQuestion::ReadText { path: header_path(packing.root, packing.platform) },
            ),
            PackAnswer::Exists(false) => PackOutcome::Done(
                Err(PackRefusal::MissingRoot { path: packing.root }),
            ),
            _ => give_up(packing),
        },
        PackStage::ReadVersion => match answer {
            PackAnswer::Text(text) => after_header(packing, text),
            _ => give_up(packing),
        },
        PackStage::CheckOutput => match answer {
            PackAnswer::Exists(false) => PackOutcome::Ask(
                Packing { stage: PackStage::ListLibraries, ..packing },
                PackQuestion::ListNames { dir: library_dir(packing.root, packing.platform) },
            ),
            PackAnswer::Exists(true) => PackOutcome::Done(
                Err(PackRefusal::OutputExists { path: packing.output }),
            ),
            _ => give_up(packing),
        },
        PackStage::ListLibraries => match answer {
            PackAnswer::Names(names) => PackOutcome::Ask(
                Packing { stage: PackStage::Archive, ..packing },
                PackQuestion::Archive {
                    dir: library_dir(packing.root, packing.platform),
                    names: packaged_in_order(names, packing.platform),
                },
            ),
            _ => give_up(packing),
        },
        PackStage::Archive => match answer {
            PackAnswer::Tar(tar) => after_encoding(packing, zstd_encoded(tar, COMPRESSION_LEVEL)),
            _ => give_up(packing),
        },
        PackStage::Write => match answer {
            PackAnswer::Written => PackOutcome::Done(Ok(packing.output)),
            _ => give_up(packing),
        },
    }
}

/// A packaging before its first step.
pub open spec fn begin_packing(root: Seq<char>, out_dir: Seq<char>, platform: Platform)
    -> Packing {
    Packing { root, out_dir, platform, stage: PackStage::CheckRoot, output: Seq::empty() }
}

/// Begins to package the installation under `install_root` into an archive
/// in `out_dir`. The first request is always whether the installation is
/// there.
pub fn package(install_root: &str, out_dir: &str, platform: Platform) -> (r: (
    Packager,
    PackRequest,
))
    ensures
        r.0@ == begin_packing(install_root@, out_dir@, platform),
        r.1@ == (PackQuestion::Probe { path: install_root@ }),
{
    (
        Packager {
            root: install_root.to_owned(),
            out_dir: out_dir.to_owned(),
            platform,
            stage: PackStage::CheckRoot,
            output: String::new(),
        },
        PackRequest::Probe { path: install_root.to_owned() },
    )
}

impl Packager {
    fn give_up(self) -> (r: PackStep)
        ensures
            r@ == give_up(self@),
    {
        PackStep::Done(Err(PackageError::Failed { stage: self.stage }))
    }

    /// Where the version header lies.
    pub fn header_path(&self) -> (path: String)
        ensures
            path@ == header_path(self@.root, self@.platform),
    {
        let headers = path_under(self.root.as_str(), "include", self.platform);
        path_under(headers.as_str(), "mkl_version.h", self.platform)
    }

    /// Where the libraries lie.
    pub fn library_dir(&self) -> (path: String)
        ensures
            path@ == library_dir(self@.root, self@.platform),
    {
        let lib = path_under(self.root.as_str(), "lib", self.platform);
        path_under(lib.as_str(), "intel64", self.platform)
    }

    /// The step after the version header was read.
    fn after_header(self, text: &Option<String>) -> (r: PackStep)
        ensures
            r@ == after_header(self@, crate::seek::dir_view(*text)),
    {
        let read = match text {
            Some(text) => Version::parse(text.as_str()),
            None => Err(VersionError::NotFound),
        };
        match read {
            Err(error) => PackStep::Done(
                Err(PackageError::BadVersion { path: self.header_path(), error }),
            ),
            Ok(version) => {
                let name = archive_name(self.platform, version.year, version.update);
                let output = path_under(self.out_dir.as_str(), name.as_str(), self.platform);
                let path = output.clone();
                PackStep::Ask(
                    Packager { stage: PackStage::CheckOutput, output, ..self },
                    PackRequest::Probe { path },
                )
            },
        }
    }

    /// The step after compression, which gave `encoded`.
    pub fn after_encoding(self, encoded: Option<Vec<u8>>) -> (r: PackStep)
        ensures
            r@ == after_encoding(
                self@,
                match encoded {
                    Some(bytes) => Some(bytes@),
                    None => None,
                },
            ),
    {
        match encoded {
            None => self.give_up(),
            Some(bytes) => {
                let path = self.output.clone();
                PackStep::Ask(
                    Packager { stage: PackStage::Write, ..self },
                    PackRequest::Write { path, bytes },
                )
            },
        }
    }

    /// Takes one step with what came of the request that was made last.
    pub fn step(self, reply: &PackReply) -> (r: PackStep)
        ensures
            r@ == pack_step(self@, reply@),
    {
        match self.stage {
            PackStage::CheckRoot => match reply {
                PackReply::Exists(true) => {
                    let path = self.header_path();
                    PackStep::Ask(
                        Packager { stage: PackStage::ReadVersion, ..self },
                        PackRequest::ReadText { path },
                    )
                },
                PackReply::Exists(false) => PackStep::Done(
                    Err(PackageError::MissingRoot { path: self.root }),
                ),
                _ => self.give_up(),
            },
            PackStage::ReadVersion => match reply {
                PackReply::Text(text) => self.after_header(text),
                _ => self.give_up(),
            },
            PackStage::CheckOutput => match reply {
                PackReply::Exists(false) => {
                    let dir = self.library_dir();
                    PackStep::Ask(
                        Packager { stage: PackStage::ListLibraries, ..self },
                        PackRequest::ListNames { dir },
                    )
                },
                PackReply::Exists(true) => PackStep::Done(
                    Err(PackageError::OutputExists { path: self.output }),
                ),
                _ => self.give_up(),
            },
            PackStage::ListLibraries => match reply {
                PackReply::Names(names) => {
                    let dir = self.library_dir();
                    let chosen = select_libraries(names, self.platform);
                    let names = sort_names(&chosen);
                    PackStep::Ask(
                        Packager { stage: PackStage::Archive, ..self },
                        PackRequest::Archive { dir, names },
                    )
                },
                _ => self.give_up(),
            },
            PackStage::Archive => match reply {
                PackReply::Tar(tar) => {
                    let encoded = compress(tar.as_slice(), COMPRESSION_LEVEL);
                    self.after_encoding(encoded)
                },
                _ => self.give_up(),
            },
            PackStage::Write => match reply {
                PackReply::Written => PackStep::Done(Ok(self.output)),
                _ => self.give_up(),
            },
        }
    }
}

/// Nothing is written over an archive that is there: the packaging ends
/// where the archive exists, and asks for nothing to be written.
pub proof fn lemma_never_overwrites(packing: Packing)
    requires
        packing.stage == PackStage::CheckOutput,
    ensures
        pack_step(packing, PackAnswer::Exists(true)) == PackOutcome::Done(
            Err(PackRefusal::OutputExists { path: packing.output }),
        ),
{
}

/// A packaging asks for a file to be written only as its last step, after
/// the installation, its version and the absence of the archive were
/// established, and then for the archive at the path fixed before.
pub proof fn lemma_writes_last(packing: Packing, answer: PackAnswer)
    ensures
        pack_step(packing, answer) matches PackOutcome::Ask(next, PackQuestion::Write { path, .. })
            ==> packing.stage == PackStage::Archive && next.stage == PackStage::Write && path
            == packing.output,
{
}

/// Packaging and fetching agree on names: the file that a packaging writes
/// for a version is called what a fetch of that version asks for.
pub proof fn lemma_package_names_what_is_fetched(packing: Packing, text: Seq<char>)
    requires
        parse_version(text) is Ok,
    ensures
        after_header(packing, Some(text)) matches PackOutcome::Ask(next, _)
            && crate::seek::file_name_of(next.output, packing.platform) == archive_name_spec(
            packing.platform,
            parse_version(text)->Ok_0.year,
            parse_version(text)->Ok_0.update,
        ),
{
    let version = parse_version(text)->Ok_0;
    crate::download::lemma_archive_name_is_plain(
        packing.platform,
        version.year,
        version.update,
        packing.platform,
    );
    crate::seek::lemma_join_parts(
        packing.out_dir,
        archive_name_spec(packing.platform, version.year, version.update),
        packing.platform,
    );
}

/// The path of the file that holds the library of a role in an
/// installation.
pub open spec fn component_path(lib: Installed, platform: Platform, role: Role) -> Seq<char> {
    join_path(
        lib.dir_of(role)->0,
        library_filename_spec(platform, lib.config.link, library_name(lib.config, platform, role)),
        platform,
    )
}

/// The path of the file that holds a library that MKL loads at run time.
pub open spec fn kernel_path(lib: Installed, platform: Platform, name: Seq<char>) -> Seq<char> {
    join_path(lib.library_dir, library_filename_spec(platform, lib.config.link, name), platform)
}

/// The files to put into the package of an installation: the libraries
/// that the configuration needs, each from its own directory, and the
/// libraries that MKL loads at run time, from the directory of the core.
pub open spec fn packed_files(lib: Installed, platform: Platform) -> Seq<Seq<char>> {
    required_roles(lib.config).map_values(|role: Role| component_path(lib, platform, role))
        + mkl_dyn_lib_names(lib.config.link).map_values(
        |name: Seq<char>| kernel_path(lib, platform, name),
    )
}

/// The files to put into the package of an installation.
pub fn pack(lib: &Library, platform: Platform) -> (files: Vec<String>)
    requires
        lib@.wf(),
    ensures
        texts(files@) == packed_files(lib@, platform),
{
    let components = lib.config.required_components(platform);
    let ghost roles = required_roles(lib.config);
    let ghost first = roles.map_values(|role: Role| component_path(lib@, platform, role));
    let mut files: Vec<String> = Vec::new();
    let mut i: usize = 0;
    assert(component_views(components@).len() == components@.len());
    assert(texts(files@) =~= first.take(0));
    while i < components.len()
        invariant
            i <= components.len(),
            lib@.wf(),
            components@.len() == roles.len(),
            roles == required_roles(lib.config),
            component_views(components@) == roles.map_values(
                |role: Role| component_spec(lib.config, platform, role),
            ),
            first == roles.map_values(|role: Role| component_path(lib@, platform, role)),
            texts(files@) == first.take(i as int),
        decreases components.len() - i,
    {
        let component = &components[i];
        assert(component_views(components@)[i as int] == component@);
        let file = as_library_filename(platform, lib.config.link, component.name.as_str());
        let path = match lib.dir_of(component.role) {
            Some(dir) => path_under(dir.as_str(), file.as_str(), platform),
            None => file,
        };
        let ghost before = texts(files@);
        files.push(path);
        assert(texts(files@) =~= before.push(first[i as int]));
        assert(first.take(i + 1) =~= first.take(i as int).push(first[i as int]));
        i = i + 1;
    }
    assert(first.take(i as int) =~= first);
    let kernels = mkl_dyn_libs(lib.config);
    let ghost second = mkl_dyn_lib_names(lib.config.link).map_values(
        |name: Seq<char>| kernel_path(lib@, platform, name),
    );
    let mut k: usize = 0;
    assert(texts(kernels@).len() == kernels@.len());
    assert(texts(files@) =~= first + second.take(0));
    while k < kernels.len()
        invariant
            k <= kernels.len(),
            texts(kernels@) == mkl_dyn_lib_names(lib.config.link),
            second == mkl_dyn_lib_names(lib.config.link).map_values(
                |name: Seq<char>| kernel_path(lib@, platform, name),
            ),
            texts(files@) == first + second.take(k as int),
        decreases kernels.len() - k,
    {
        assert(texts(kernels@)[k as int] == kernels@[k as int]@);
        let file = as_library_filename(platform, lib.config.link, kernels[k].as_str());
        let path = path_under(lib.library_dir.as_str(), file.as_str(), platform);
        let ghost before = texts(files@);
        files.push(path);
        assert(texts(files@) =~= before.push(second[k as int]));
        assert(first + second.take(k + 1) =~= (first + second.take(k as int)).push(
            second[k as int],
        ));
        k = k + 1;
    }
    assert(second.take(k as int) =~= second);
    files
}

} // verus!
