//! An installation that has everything a configuration needs.

use crate::components::Role;
use crate::config::{Config, Threading};
use crate::platform::Platform;
use crate::seek::{scan, AmbiguousInstallation, Conflict, Found, PartialMatch};
use crate::text::texts;
use vstd::prelude::*;

verus! {

/// A found installation, as plain values.
pub struct Installed {
    pub config: Config,
    pub include_dir: Seq<char>,
    pub interface_dir: Seq<char>,
    pub threading_dir: Seq<char>,
    pub library_dir: Seq<char>,
    pub iomp5_dir: Option<Seq<char>>,
}

impl Installed {
    /// The directory that holds the library of a role.
    pub open spec fn dir_of(self, role: Role) -> Option<Seq<char>> {
        match role {
            Role::Interface => Some(self.interface_dir),
            Role::Threading => Some(self.threading_dir),
            Role::Core => Some(self.library_dir),
            Role::OpenMp => self.iomp5_dir,
        }
    }

    /// Whether the OpenMP runtime is located exactly when the configuration
    /// needs it.
    pub open spec fn wf(self) -> bool {
        self.iomp5_dir is Some <==> self.config.parallel == Threading::OpenMP
    }
}

/// The installation that complete findings describe. The directory of the
/// OpenMP runtime is kept only for a configuration that needs it.
pub open spec fn installed(config: Config, found: Found) -> Installed
    recommends
        found.covers(config),
{
    Installed {
        config,
        include_dir: found.include_dir->0,
        interface_dir: found.interface_dir->0,
        threading_dir: found.threading_dir->0,
        library_dir: found.core_dir->0,
        iomp5_dir: if config.parallel == Threading::OpenMP {
            found.openmp_dir
        } else {
            None
        },
    }
}

/// The installation in these findings, if they are complete.
pub open spec fn complete(config: Config, found: Found) -> Option<Installed> {
    if found.covers(config) {
        Some(installed(config, found))
    } else {
        None
    }
}

/// Found MKL library.
///
/// Every library that the configuration needs has its directory here; there
/// is no such value for an installation that lacks one.
#[derive(Debug, Clone, PartialEq, Eq)]
pub struct Library {
    pub config: Config,
    /// Directory where `mkl.h` and `mkl_version.h` lie.
    pub include_dir: String,
    /// Directory where the interface layer lies.
    pub interface_dir: String,
    /// Directory where the threading layer lies.
    pub threading_dir: String,
    /// Directory where `libmkl_core.a` or `libmkl_core.so` lies.
    pub library_dir: String,
    /// Directory where `libiomp5.a` or `libiomp5.so` lies.
    ///
    /// The `mkl-*-*-seq` configurations do not need it, and for them this is
    /// `None`.
    pub iomp5_dir: Option<String>,
}

impl View for Library {
    type V = Installed;

    open spec fn view(&self) -> Installed {
        Installed {
            config: self.config,
            include_dir: self.include_dir@,
            interface_dir: self.interface_dir@,
            threading_dir: self.threading_dir@,
            library_dir: self.library_dir@,
            iomp5_dir: crate::seek::dir_view(self.iomp5_dir),
        }
    }
}

/// What may be a library, as plain values.
pub open spec fn library_view(lib: Option<Library>) -> Option<Installed> {
    match lib {
        Some(lib) => Some(lib@),
        None => None,
    }
}

impl Library {
    /// The installation in these findings, if they are complete; else the
    /// findings come back as they are.
    pub fn from_partial(config: Config, found: PartialMatch) -> (r: Result<Library, PartialMatch>)
        ensures
            match r {
                Ok(lib) => complete(config, found@) == Some(lib@) && lib@.wf(),
                Err(back) => !found@.covers(config) && back == found,
            },
    {
        let needs_openmp = config.requires_role(Role::OpenMp);
        match found {
            PartialMatch {
                include_dir: Some(include_dir),
                interface_dir: Some(interface_dir),
                threading_dir: Some(threading_dir),
                core_dir: Some(library_dir),
                openmp_dir,
            } if !needs_openmp || openmp_dir.is_some() => Ok(
                Library {
                    config,
                    include_dir,
                    interface_dir,
                    threading_dir,
                    library_dir,
                    iomp5_dir: if needs_openmp {
                        openmp_dir
                    } else {
                        None
                    },
                },
            ),
            unfinished => Err(unfinished),
        }
    }

    /// Seeks the MKL libraries in the listing of one directory tree.
    ///
    /// `files` holds the paths of the regular files of the tree, found
    /// without following symbolic links, in the order in which the walk met
    /// them; a tree that does not exist has the empty listing.
    ///
    /// - Files under a directory named `ia32*` are not looked at.
    /// - Returns `Ok(None)` where something is missing, as when `libiomp5`
    ///   is not found for a `mkl-*-*-iomp` configuration even though the MKL
    ///   binaries are.
    /// - Returns the conflict where a library lies in two directories.
    pub fn seek_directory(config: Config, platform: Platform, files: &Vec<String>) -> (r: Result<
        Option<Library>,
        AmbiguousInstallation,
    >)
        ensures
            match r {
                Ok(lib) => match scan(texts(files@), config, platform) {
                    Ok(found) => library_view(lib) == complete(config, found),
                    Err(_) => false,
                },
                Err(e) => scan(texts(files@), config, platform) == Err::<Found, Conflict>(e@),
            },
            r matches Ok(Some(lib)) ==> lib@.wf(),
    {
        match PartialMatch::scan(config, platform, files) {
            Ok(found) => match Library::from_partial(config, found) {
                Ok(lib) => Ok(Some(lib)),
                Err(_) => Ok(None),
            },
            Err(e) => Err(e),
        }
    }

    /// Whether the OpenMP runtime is located exactly when the configuration
    /// needs it. Every library that a search returns is so.
    pub fn is_wf(&self) -> (r: bool)
        ensures
            r == self@.wf(),
    {
        match self.config.parallel {
            Threading::OpenMP => self.iomp5_dir.is_some(),
            Threading::Sequential => self.iomp5_dir.is_none(),
        }
    }

    /// The directory that holds the library of a role.
    pub fn dir_of(&self, role: Role) -> (r: Option<&String>)
        ensures
            match r {
                Some(dir) => self@.dir_of(role) == Some(dir@),
                None => self@.dir_of(role) is None,
            },
    {
        match role {
            Role::Interface => Some(&self.interface_dir),
            Role::Threading => Some(&self.threading_dir),
            Role::Core => Some(&self.library_dir),
            Role::OpenMp => match &self.iomp5_dir {
                Some(dir) => Some(dir),
                None => None,
            },
        }
    }
}

} // verus!
