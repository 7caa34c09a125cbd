//! The conventions of the operating system an installation lives on.
//!
//! The caller picks the platform once; nothing here looks at the machine the
//! code runs on, so any platform's installation can be described on any other.

use vstd::prelude::*;

verus! {

/// An operating system that Intel MKL is distributed for.
#[derive(Debug, Clone, Copy, PartialEq, Eq, Structural)]
pub enum Platform {
    Linux,
    MacOs,
    Windows,
}

impl Platform {
    /// What the names of libraries begin with.
    pub open spec fn dll_prefix_spec(self) -> Seq<char> {
        match self {
            Platform::Linux => "lib"@,
            Platform::MacOs => "lib"@,
            Platform::Windows => ""@,
        }
    }

    /// The extension of a shared library.
    pub open spec fn dll_extension_spec(self) -> Seq<char> {
        match self {
            Platform::Linux => "so"@,
            Platform::MacOs => "dylib"@,
            Platform::Windows => "dll"@,
        }
    }

    /// The extension of a static library.
    pub open spec fn static_extension_spec(self) -> Seq<char> {
        match self {
            Platform::Linux => "a"@,
            Platform::MacOs => "a"@,
            Platform::Windows => "lib"@,
        }
    }

    /// The name under which the OpenMP runtime is linked.
    pub open spec fn openmp_runtime_lib_spec(self) -> Seq<char> {
        match self {
            Platform::Linux => "iomp5"@,
            Platform::MacOs => "iomp5"@,
            Platform::Windows => "iomp5md"@,
        }
    }

    /// The platform's part of an archive's name.
    pub open spec fn archive_tag_spec(self) -> Seq<char> {
        match self {
            Platform::Linux => "linux64"@,
            Platform::MacOs => "macos64"@,
            Platform::Windows => "windows64"@,
        }
    }

    /// The characters that part the segments of a path.
    pub open spec fn separators(self) -> Seq<char> {
        match self {
            Platform::Linux => seq!['/'],
            Platform::MacOs => seq!['/'],
            Platform::Windows => seq!['/', '\\'],
        }
    }

    /// The separator that this library writes when it joins a path.
    pub open spec fn separator(self) -> Seq<char> {
        match self {
            Platform::Linux => "/"@,
            Platform::MacOs => "/"@,
            Platform::Windows => "\\"@,
        }
    }

    pub fn dll_prefix(self) -> (s: &'static str)
        ensures
            s@ == self.dll_prefix_spec(),
    {
        match self {
            Platform::Linux => "lib",
            Platform::MacOs => "lib",
            Platform::Windows => "",
        }
    }

    pub fn dll_extension(self) -> (s: &'static str)
        ensures
            s@ == self.dll_extension_spec(),
    {
        match self {
            Platform::Linux => "so",
            Platform::MacOs => "dylib",
            Platform::Windows => "dll",
        }
    }

    pub fn static_extension(self) -> (s: &'static str)
        ensures
            s@ == self.static_extension_spec(),
    {
        match self {
            Platform::Linux => "a",
            Platform::MacOs => "a",
            Platform::Windows => "lib",
        }
    }

    pub fn openmp_runtime_lib(self) -> (s: &'static str)
        ensures
            s@ == self.openmp_runtime_lib_spec(),
    {
        match self {
            Platform::Linux => "iomp5",
            Platform::MacOs => "iomp5",
            Platform::Windows => "iomp5md",
        }
    }

    pub fn archive_tag(self) -> (s: &'static str)
        ensures
            s@ == self.archive_tag_spec(),
    {
        match self {
            Platform::Linux => "linux64",
            Platform::MacOs => "macos64",
            Platform::Windows => "windows64",
        }
    }

    /// The separators as a vector, for splitting paths.
    pub fn separator_chars(self) -> (v: Vec<char>)
        ensures
            v@ == self.separators(),
    {
        let v = match self {
            Platform::Linux => vec!['/'],
            Platform::MacOs => vec!['/'],
            Platform::Windows => vec!['/', '\\'],
        };
        assert(v@ =~= self.separators());
        v
    }

    pub fn separator_str(self) -> (s: &'static str)
        ensures
            s@ == self.separator(),
    {
        match self {
            Platform::Linux => "/",
            Platform::MacOs => "/",
            Platform::Windows => "\\",
        }
    }
}

} // verus!
