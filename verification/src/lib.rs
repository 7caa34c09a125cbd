//! Locating an installed Intel MKL and deciding how to link against it.
//!
//! Everything in this crate is a decision over plain values: the names of
//! the eight library configurations, the file names an installation must
//! hold, the search over directory listings, the version header, the archive
//! that is fetched when nothing is installed, and the archive that is made of
//! an installation. Reading directories, environment variables and the
//! network is left to the caller: where a task needs several such steps, the
//! crate says which step is next and takes what came of it.
//!
//! ```text
//! let (mut resolver, mut request) = Resolver::new(config, platform);
//! loop {
//!     let reply = /* find out what `request` asks for */;
//!     match resolver.step(&reply) {
//!         Step::Ask(next, asked) => { resolver = next; request = asked; }
//!         Step::Done(end) => break end,
//!     }
//! }
//! ```

pub mod codec;
pub mod components;
pub mod config;
pub mod download;
pub mod home;
pub mod library;
pub mod link;
pub mod order;
pub mod package;
pub mod platform;
pub mod resolve;
pub mod seek;
pub mod text;
pub mod version;

pub use crate::components::{mkl_dyn_libs, mkl_file_name, mkl_libs, openmp_runtime_file_name};
pub use crate::config::{Config, DataModel, FormatError, LinkType, Threading, VALID_CONFIGS};
pub use crate::download::{download, download_default};
pub use crate::home::{seek_xdg_home, xdg_home_path};
pub use crate::library::Library;
pub use crate::link::{emit, LinkConfig, LinkDirective};
pub use crate::package::{pack, package};
pub use crate::platform::Platform;
pub use crate::resolve::seek_pkg_config;
pub use crate::version::Version;
