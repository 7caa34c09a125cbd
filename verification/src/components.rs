//! The libraries a configuration is made of, and what their files are called.

use crate::config::{Config, DataModel, LinkType, Threading};
use crate::platform::Platform;
use crate::text::texts;
use vstd::prelude::*;

verus! {

/// The part a library plays in a configuration.
#[derive(Debug, Clone, Copy, PartialEq, Eq, Structural)]
pub enum Role {
    /// The interface layer, which fixes the width of integers.
    Interface,
    /// The threading layer.
    Threading,
    /// The computational core.
    Core,
    /// The OpenMP runtime, which is no part of MKL itself and often lives in
    /// a directory of its own.
    OpenMp,
}

/// The interface layer for a data model.
pub open spec fn interface_lib(index_size: DataModel) -> Seq<char> {
    match index_size {
        DataModel::LP64 => "mkl_intel_lp64"@,
        DataModel::ILP64 => "mkl_intel_ilp64"@,
    }
}

/// The threading layer for a threading variant.
pub open spec fn threading_lib(parallel: Threading) -> Seq<char> {
    match parallel {
        Threading::OpenMP => "mkl_intel_thread"@,
        Threading::Sequential => "mkl_sequential"@,
    }
}

/// The name under which the library of a role is linked.
pub open spec fn library_name(config: Config, platform: Platform, role: Role) -> Seq<char> {
    match role {
        Role::Interface => interface_lib(config.index_size),
        Role::Threading => threading_lib(config.parallel),
        Role::Core => "mkl_core"@,
        Role::OpenMp => platform.openmp_runtime_lib_spec(),
    }
}

/// Whether a configuration needs the library of a role. Only the OpenMP
/// runtime is ever left out, by the sequential configurations.
pub open spec fn is_required(config: Config, role: Role) -> bool {
    role == Role::OpenMp ==> config.parallel == Threading::OpenMP
}

/// The roles of MKL's own libraries, in link order.
pub open spec fn mkl_roles() -> Seq<Role> {
    seq![Role::Interface, Role::Threading, Role::Core]
}

/// The roles a configuration needs, in link order.
pub open spec fn required_roles(config: Config) -> Seq<Role> {
    match config.parallel {
        Threading::OpenMP => mkl_roles().push(Role::OpenMp),
        Threading::Sequential => mkl_roles(),
    }
}

/// The names of MKL's own libraries for a configuration, in link order.
pub open spec fn mkl_lib_names(config: Config) -> Seq<Seq<char>> {
    seq![interface_lib(config.index_size), threading_lib(config.parallel), "mkl_core"@]
}

/// MKL libraries to be linked explicitly, not including the OpenMP runtime.
pub fn mkl_libs(cfg: Config) -> (libs: Vec<String>)
    ensures
        texts(libs@) == mkl_lib_names(cfg),
{
    let mut libs: Vec<String> = Vec::new();
    match cfg.index_size {
        DataModel::LP64 => {
            libs.push("mkl_intel_lp64".to_owned());
        },
        DataModel::ILP64 => {
            libs.push("mkl_intel_ilp64".to_owned());
        },
    };
    match cfg.parallel {
        Threading::OpenMP => {
            libs.push("mkl_intel_thread".to_owned());
        },
        Threading::Sequential => {
            libs.push("mkl_sequential".to_owned());
        },
    };
    libs.push("mkl_core".to_owned());
    assert(texts(libs@) =~= mkl_lib_names(cfg));
    libs
}

/// The first halves of the names of the dispatched kernels.
pub open spec fn kernel_families() -> Seq<Seq<char>> {
    seq!["mkl"@, "mkl_vml"@]
}

/// The second halves of the names of the dispatched kernels.
pub open spec fn kernel_targets() -> Seq<Seq<char>> {
    seq!["def"@, "avx"@, "avx2"@, "avx512"@, "avx512_mic"@, "mc"@, "mc3"@]
}

/// The libraries that a dynamically linked MKL loads at run time: every
/// family with every target, family by family, and three more. A statically
/// linked MKL loads none.
pub open spec fn mkl_dyn_lib_names(link: LinkType) -> Seq<Seq<char>> {
    match link {
        LinkType::Static => Seq::empty(),
        LinkType::Dynamic => Seq::new(
            14,
            |i: int| kernel_families()[i / 7] + "_"@ + kernel_targets()[i % 7],
        ) + seq!["mkl_rt"@, "mkl_vml_mc2"@, "mkl_vml_cmpt"@],
    }
}

/// MKL libraries to be loaded dynamically.
pub fn mkl_dyn_libs(cfg: Config) -> (libs: Vec<String>)
    ensures
        texts(libs@) == mkl_dyn_lib_names(cfg.link),
{
    match cfg.link {
        LinkType::Static => {
            let libs: Vec<String> = Vec::new();
            assert(texts(libs@) =~= mkl_dyn_lib_names(cfg.link));
            libs
        },
        LinkType::Dynamic => {
            let families = ["mkl", "mkl_vml"];
            let targets = ["def", "avx", "avx2", "avx512", "avx512_mic", "mc", "mc3"];
            let ghost kernels = Seq::new(
                14,
                |i: int| kernel_families()[i / 7] + "_"@ + kernel_targets()[i % 7],
            );
            let mut libs: Vec<String> = Vec::new();
            let mut f: usize = 0;
            while f < 2
                invariant
                    f <= 2,
                    families@.len() == 2,
                    targets@.len() == 7,
                    forall|i: int|
                        0 <= i < 2 ==> (#[trigger] families@[i])@ == kernel_families()[i],
                    forall|i: int|
                        0 <= i < 7 ==> (#[trigger] targets@[i])@ == kernel_targets()[i],
                    kernels == Seq::new(
                        14,
                        |i: int| kernel_families()[i / 7] + "_"@ + kernel_targets()[i % 7],
                    ),
                    texts(libs@) == kernels.take(7 * f),
                decreases 2 - f,
            {
                let mut t: usize = 0;
                while t < 7
                    invariant
                        f < 2,
                        t <= 7,
                        families@.len() == 2,
                        targets@.len() == 7,
                        forall|i: int|
                            0 <= i < 2 ==> (#[trigger] families@[i])@ == kernel_families()[i],
                        forall|i: int|
                            0 <= i < 7 ==> (#[trigger] targets@[i])@ == kernel_targets()[i],
                        kernels == Seq::new(
                            14,
                            |i: int| kernel_families()[i / 7] + "_"@ + kernel_targets()[i % 7],
                        ),
                        texts(libs@) == kernels.take(7 * f + t),
                    decreases 7 - t,
                {
                    let mut name = families[f].to_owned();
                    name.append("_");
                    name.append(targets[t]);
                    let ghost before = texts(libs@);
                    libs.push(name);
                    proof {
                        let i = 7 * f + t;
                        assert(i / 7 == f && i % 7 == t);
                        assert(texts(libs@) =~= before.push(kernels[i]));
                        assert(kernels.take(i + 1) =~= kernels.take(i).push(kernels[i]));
                    }
                    t = t + 1;
                }
                f = f + 1;
            }
            assert(kernels.take(14) =~= kernels);
            let ghost before = texts(libs@);
            libs.push("mkl_rt".to_owned());
            libs.push("mkl_vml_mc2".to_owned());
            libs.push("mkl_vml_cmpt".to_owned());
            assert(texts(libs@) =~= before + seq!["mkl_rt"@, "mkl_vml_mc2"@, "mkl_vml_cmpt"@]);
            libs
        },
    }
}

/// What the file of an MKL library is called. On Windows a program links
/// against a `.lib` file either way: the library itself when linking
/// statically, the import library of the DLL when linking dynamically.
pub open spec fn mkl_file_name_spec(platform: Platform, link: LinkType, name: Seq<char>) -> Seq<
    char,
> {
    match platform {
        Platform::Windows => match link {
            LinkType::Static => name + ".lib"@,
            LinkType::Dynamic => name + "_dll.lib"@,
        },
        _ => match link {
            LinkType::Static => "lib"@ + name + ".a"@,
            LinkType::Dynamic => "lib"@ + name + "."@ + platform.dll_extension_spec(),
        },
    }
}

/// Filename convention for MKL libraries.
pub fn mkl_file_name(platform: Platform, link: LinkType, name: &str) -> (file: String)
    ensures
        file@ == mkl_file_name_spec(platform, link, name@),
{
    match platform {
        Platform::Windows => {
            let mut file = name.to_owned();
            match link {
                LinkType::Static => {
                    file.append(".lib");
                },
                LinkType::Dynamic => {
                    file.append("_dll.lib");
                },
            }
            file
        },
        _ => {
            let mut file = "lib".to_owned();
            file.append(name);
            match link {
                LinkType::Static => {
                    file.append(".a");
                },
                LinkType::Dynamic => {
                    file.append(".");
                    file.append(platform.dll_extension());
                },
            }
            file
        },
    }
}

/// What the file of the OpenMP runtime is called.
pub open spec fn openmp_runtime_file_name_spec(platform: Platform, link: LinkType) -> Seq<char> {
    let name = platform.openmp_runtime_lib_spec();
    match platform {
        Platform::Windows => match link {
            LinkType::Static => "lib"@ + name + ".lib"@,
            LinkType::Dynamic => "lib"@ + name + ".dll"@,
        },
        _ => match link {
            LinkType::Static => "lib"@ + name + ".a"@,
            LinkType::Dynamic => "lib"@ + name + "."@ + platform.dll_extension_spec(),
        },
    }
}

/// Filename convention for the OpenMP runtime.
pub fn openmp_runtime_file_name(platform: Platform, link: LinkType) -> (file: String)
    ensures
        file@ == openmp_runtime_file_name_spec(platform, link),
{
    let mut file = "lib".to_owned();
    file.append(platform.openmp_runtime_lib());
    match platform {
        Platform::Windows => match link {
            LinkType::Static => {
                file.append(".lib");
            },
            LinkType::Dynamic => {
                file.append(".dll");
            },
        },
        _ => match link {
            LinkType::Static => {
                file.append(".a");
            },
            LinkType::Dynamic => {
                file.append(".");
                file.append(platform.dll_extension());
            },
        },
    }
    file
}

/// The platform's usual name for the file of a library: its prefix, the
/// name, a dot, and the extension of a static or of a shared library.
pub open spec fn library_filename_spec(platform: Platform, link: LinkType, name: Seq<char>) -> Seq<
    char,
> {
    platform.dll_prefix_spec() + name + "."@ + match link {
        LinkType::Static => platform.static_extension_spec(),
        LinkType::Dynamic => platform.dll_extension_spec(),
    }
}

/// The file name under which a library is put into a package.
pub fn as_library_filename(platform: Platform, link: LinkType, name: &str) -> (file: String)
    ensures
        file@ == library_filename_spec(platform, link, name@),
{
    let mut file = platform.dll_prefix().to_owned();
    file.append(name);
    file.append(".");
    match link {
        LinkType::Static => {
            file.append(platform.static_extension());
        },
        LinkType::Dynamic => {
            file.append(platform.dll_extension());
        },
    }
    file
}

/// The name of the file that holds the library of a role.
pub open spec fn expected_file_name_spec(config: Config, platform: Platform, role: Role) -> Seq<
    char,
> {
    match role {
        Role::OpenMp => openmp_runtime_file_name_spec(platform, config.link),
        _ => mkl_file_name_spec(platform, config.link, library_name(config, platform, role)),
    }
}

/// A library that a configuration cannot be linked without.
#[derive(Debug, Clone, PartialEq, Eq)]
pub struct RequiredComponent {
    /// The part the library plays.
    pub role: Role,
    /// The name under which it is linked.
    pub name: String,
    /// The name of the file that holds it.
    pub file_name: String,
}

/// A required component as plain values.
pub struct RequiredComponentView {
    pub role: Role,
    pub name: Seq<char>,
    pub file_name: Seq<char>,
}

impl View for RequiredComponent {
    type V = RequiredComponentView;

    open spec fn view(&self) -> RequiredComponentView {
        RequiredComponentView { role: self.role, name: self.name@, file_name: self.file_name@ }
    }
}

/// The component that fills a role for a configuration on a platform.
pub open spec fn component_spec(config: Config, platform: Platform, role: Role)
    -> RequiredComponentView {
    RequiredComponentView {
        role,
        name: library_name(config, platform, role),
        file_name: expected_file_name_spec(config, platform, role),
    }
}

/// What a vector of components holds, as plain values.
pub open spec fn component_views(v: Seq<RequiredComponent>) -> Seq<RequiredComponentView> {
    v.map_values(|c: RequiredComponent| c@)
}

impl Config {
    /// Whether this configuration needs the library of a role.
    pub fn requires_role(&self, role: Role) -> (r: bool)
        ensures
            r == is_required(*self, role),
    {
        match role {
            Role::OpenMp => match self.parallel {
                Threading::OpenMP => true,
                Threading::Sequential => false,
            },
            _ => true,
        }
    }

    /// The name under which the library of a role is linked.
    pub fn library_name(&self, platform: Platform, role: Role) -> (name: &'static str)
        ensures
            name@ == library_name(*self, platform, role),
    {
        match role {
            Role::Interface => match self.index_size {
                DataModel::LP64 => "mkl_intel_lp64",
                DataModel::ILP64 => "mkl_intel_ilp64",
            },
            Role::Threading => match self.parallel {
                Threading::OpenMP => "mkl_intel_thread",
                Threading::Sequential => "mkl_sequential",
            },
            Role::Core => "mkl_core",
            Role::OpenMp => platform.openmp_runtime_lib(),
        }
    }

    /// The name of the file that holds the library of a role.
    pub fn expected_file_name(&self, platform: Platform, role: Role) -> (file: String)
        ensures
            file@ == expected_file_name_spec(*self, platform, role),
    {
        match role {
            Role::OpenMp => openmp_runtime_file_name(platform, self.link),
            _ => mkl_file_name(platform, self.link, self.library_name(platform, role)),
        }
    }

    /// The libraries this configuration cannot be linked without, in link
    /// order: interface layer, threading layer and core, and after them the
    /// OpenMP runtime unless the configuration is sequential.
    pub fn required_components(&self, platform: Platform) -> (all: Vec<RequiredComponent>)
        ensures
            component_views(all@) == required_roles(*self).map_values(
                |role: Role| component_spec(*self, platform, role),
            ),
    {
        let roles = [Role::Interface, Role::Threading, Role::Core, Role::OpenMp];
        let mut all: Vec<RequiredComponent> = Vec::new();
        let ghost wanted = required_roles(*self).map_values(
            |role: Role| component_spec(*self, platform, role),
        );
        let mut i: usize = 0;
        let n: usize = if self.requires_role(Role::OpenMp) {
            4
        } else {
            3
        };
        while i < n
            invariant
                i <= n <= 4,
                n == required_roles(*self).len(),
                roles@ == seq![Role::Interface, Role::Threading, Role::Core, Role::OpenMp],
                wanted == required_roles(*self).map_values(
                    |role: Role| component_spec(*self, platform, role),
                ),
                component_views(all@) == wanted.take(i as int),
            decreases n - i,
        {
            let role = roles[i];
            assert(role == required_roles(*self)[i as int]);
            let component = RequiredComponent {
                role,
                name: self.library_name(platform, role).to_owned(),
                file_name: self.expected_file_name(platform, role),
            };
            let ghost before = component_views(all@);
            all.push(component);
            assert(component_views(all@) =~= before.push(wanted[i as int]));
            assert(wanted.take(i + 1) =~= wanted.take(i as int).push(wanted[i as int]));
            i = i + 1;
        }
        assert(wanted.take(n as int) =~= wanted);
        all
    }
}

} // verus!
