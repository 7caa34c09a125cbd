use intel_mkl_tool::components::Role;
use intel_mkl_tool::config::Config;
use intel_mkl_tool::library::Library;
use intel_mkl_tool::link::{
    cargo_metadata, emit, runtime_libraries, search_paths, LinkDirective,
};
use intel_mkl_tool::config::LinkType;
use intel_mkl_tool::platform::Platform;
use intel_mkl_tool::seek::{path_parts, path_under, AmbiguousInstallation, PartialMatch};

fn files(paths: &[&str]) -> Vec<String> {
    paths.iter().map(|p| p.to_string()).collect()
}

fn config(name: &str) -> Config {
    Config::from_str(name).unwrap()
}

fn parts(path: &str, platform: Platform) -> (String, String, bool) {
    let chars: Vec<char> = path.chars().collect();
    let p = path_parts(&chars, platform);
    (p.dir.iter().collect(), p.name.iter().collect(), p.excluded)
}

#[test]
fn paths_are_taken_apart_at_the_last_separator() {
    let l = Platform::Linux;
    assert_eq!(parts("/opt/intel/mkl/include/mkl.h", l), ("/opt/intel/mkl/include".into(), "mkl.h".into(), false));
    assert_eq!(parts("mkl.h", l), ("".into(), "mkl.h".into(), false));
    assert_eq!(parts("/mkl.h", l), ("/".into(), "mkl.h".into(), false));
    assert_eq!(parts("a/b/", l), ("a/b".into(), "".into(), false));
    assert_eq!(parts("", l), ("".into(), "".into(), false));
    assert_eq!(parts("a\\b", l), ("".into(), "a\\b".into(), false));
    assert_eq!(parts("C:\\Intel\\mkl\\mkl.h", Platform::Windows), ("C:\\Intel\\mkl".into(), "mkl.h".into(), false));
    assert_eq!(parts("C:/Intel\\mkl/mkl.h", Platform::Windows), ("C:/Intel\\mkl".into(), "mkl.h".into(), false));
}

#[test]
fn ia32_segments_are_recognised_in_either_case() {
    let l = Platform::Linux;
    assert!(parts("/opt/intel/lib/ia32/libmkl_core.a", l).2);
    assert!(parts("/opt/intel/lib/ia32_lin/libmkl_core.a", l).2);
    assert!(parts("/opt/intel/lib/IA32/libmkl_core.a", l).2);
    assert!(parts("/opt/intel/lib/Ia32_win/libmkl_core.a", l).2);
    assert!(parts("ia32/x", l).2);
    assert!(parts("x/ia32", l).2);
    assert!(!parts("/opt/intel/lib/intel64/libmkl_core.a", l).2);
    assert!(!parts("/opt/intel/lib/xia32/libmkl_core.a", l).2);
    assert!(!parts("/opt/intel/lib/ia3/2/libmkl_core.a", l).2);
    assert!(!parts("/opt/intel/lib/ia64/libmkl_core.a", l).2);
    assert!(parts("C:\\Intel\\ia32_win\\mkl_core.lib", Platform::Windows).2);
}

#[test]
fn paths_are_joined_with_one_separator() {
    assert_eq!(path_under("/opt/intel", "mkl", Platform::Linux), "/opt/intel/mkl");
    assert_eq!(path_under("/opt/intel/", "mkl", Platform::Linux), "/opt/intel/mkl");
    assert_eq!(path_under("", "mkl", Platform::Linux), "mkl");
    assert_eq!(path_under("C:\\Intel", "mkl", Platform::Windows), "C:\\Intel\\mkl");
    assert_eq!(path_under("C:/Intel/", "mkl", Platform::Windows), "C:/Intel/mkl");
}

#[test]
fn a_file_under_ia32_is_never_matched() {
    let cfg = config("mkl-static-lp64-seq");
    let listing = files(&[
        "/opt/intel/mkl/include/mkl.h",
        "/opt/intel/mkl/lib/ia32/libmkl_core.a",
        "/opt/intel/mkl/lib/ia32/libmkl_intel_lp64.a",
        "/opt/intel/mkl/lib/ia32/libmkl_sequential.a",
    ]);
    let found = PartialMatch::scan(cfg, Platform::Linux, &listing).unwrap();
    assert_eq!(found.include_dir.as_deref(), Some("/opt/intel/mkl/include"));
    assert_eq!(found.core_dir, None);
    assert_eq!(found.interface_dir, None);
    assert_eq!(found.threading_dir, None);
    assert_eq!(Library::seek_directory(cfg, Platform::Linux, &listing), Ok(None));
}

#[test]
fn ia32_beside_intel64_is_no_conflict() {
    let cfg = config("mkl-static-lp64-seq");
    let listing = files(&[
        "/opt/intel/mkl/lib/ia32/libmkl_core.a",
        "/opt/intel/mkl/lib/intel64/libmkl_core.a",
        "/opt/intel/mkl/lib/IA32_lin/libmkl_core.a",
    ]);
    let found = PartialMatch::scan(cfg, Platform::Linux, &listing).unwrap();
    assert_eq!(found.core_dir.as_deref(), Some("/opt/intel/mkl/lib/intel64"));
}

#[test]
fn a_header_under_ia32_is_skipped_too() {
    let cfg = config("mkl-static-lp64-seq");
    let listing = files(&["/opt/ia32/include/mkl.h", "/opt/intel64/include/mkl.h"]);
    let found = PartialMatch::scan(cfg, Platform::Linux, &listing).unwrap();
    assert_eq!(found.include_dir.as_deref(), Some("/opt/intel64/include"));
}

#[test]
fn two_directories_with_the_core_library_are_ambiguous() {
    let cfg = config("mkl-static-lp64-seq");
    let listing = files(&[
        "/opt/intel/a/libmkl_core.a",
        "/opt/intel/b/libmkl_core.a",
    ]);
    let expected = AmbiguousInstallation {
        role: Role::Core,
        first: "/opt/intel/a".to_string(),
        second: "/opt/intel/b".to_string(),
    };
    assert_eq!(PartialMatch::scan(cfg, Platform::Linux, &listing), Err(expected.clone()));
    assert_eq!(Library::seek_directory(cfg, Platform::Linux, &listing), Err(expected));
}

#[test]
fn the_first_conflict_is_reported() {
    let cfg = config("mkl-dynamic-ilp64-iomp");
    let listing = files(&[
        "/a/libiomp5.so",
        "/a/libmkl_core.so",
        "/b/libiomp5.so",
        "/b/libmkl_core.so",
    ]);
    assert_eq!(
        PartialMatch::scan(cfg, Platform::Linux, &listing),
        Err(AmbiguousInstallation {
            role: Role::OpenMp,
            first: "/a".to_string(),
            second: "/b".to_string(),
        })
    );
}

#[test]
fn the_same_directory_twice_is_no_conflict() {
    let cfg = config("mkl-static-lp64-seq");
    let listing = files(&["/a/libmkl_core.a", "/a/libmkl_core.a"]);
    let found = PartialMatch::scan(cfg, Platform::Linux, &listing).unwrap();
    assert_eq!(found.core_dir.as_deref(), Some("/a"));
}

#[test]
fn the_first_header_fixes_the_include_directory() {
    let cfg = config("mkl-static-lp64-seq");
    let listing = files(&["/a/include/mkl.h", "/b/include/mkl.h"]);
    let found = PartialMatch::scan(cfg, Platform::Linux, &listing).unwrap();
    assert_eq!(found.include_dir.as_deref(), Some("/a/include"));
}

#[test]
fn libraries_of_another_configuration_are_not_matched() {
    let cfg = config("mkl-static-lp64-seq");
    let listing = files(&[
        "/a/libmkl_core.so",
        "/a/libmkl_intel_ilp64.a",
        "/a/libmkl_intel_thread.a",
        "/a/libiomp5.a",
        "/a/mkl_core.lib",
        "/a/libmkl_core.a.bak",
    ]);
    let found = PartialMatch::scan(cfg, Platform::Linux, &listing).unwrap();
    assert_eq!(found, PartialMatch::new());
}

#[test]
fn openmp_runtime_must_match_the_link_type() {
    let cfg = config("mkl-static-lp64-iomp");
    let listing = files(&["/a/libiomp5.so"]);
    assert_eq!(PartialMatch::scan(cfg, Platform::Linux, &listing).unwrap().openmp_dir, None);
    let listing = files(&["/a/libiomp5.a"]);
    assert_eq!(
        PartialMatch::scan(cfg, Platform::Linux, &listing).unwrap().openmp_dir.as_deref(),
        Some("/a")
    );
}

#[test]
fn openmp_configuration_without_runtime_is_not_found() {
    let cfg = config("mkl-static-lp64-iomp");
    let listing = files(&[
        "/opt/intel/mkl/include/mkl.h",
        "/opt/intel/mkl/lib/intel64/libmkl_core.a",
        "/opt/intel/mkl/lib/intel64/libmkl_intel_lp64.a",
        "/opt/intel/mkl/lib/intel64/libmkl_intel_thread.a",
    ]);
    assert_eq!(Library::seek_directory(cfg, Platform::Linux, &listing), Ok(None));
}

#[test]
fn openmp_runtime_may_lie_apart() {
    let cfg = config("mkl-dynamic-lp64-iomp");
    let listing = files(&[
        "/opt/intel/mkl/include/mkl.h",
        "/opt/intel/mkl/lib/intel64/libmkl_core.so",
        "/opt/intel/mkl/lib/intel64/libmkl_intel_lp64.so",
        "/opt/intel/mkl/lib/intel64/libmkl_intel_thread.so",
        "/opt/intel/lib/intel64/libiomp5.so",
    ]);
    let lib = Library::seek_directory(cfg, Platform::Linux, &listing).unwrap().unwrap();
    assert_eq!(lib.config, cfg);
    assert_eq!(lib.include_dir, "/opt/intel/mkl/include");
    assert_eq!(lib.library_dir, "/opt/intel/mkl/lib/intel64");
    assert_eq!(lib.interface_dir, "/opt/intel/mkl/lib/intel64");
    assert_eq!(lib.threading_dir, "/opt/intel/mkl/lib/intel64");
    assert_eq!(lib.iomp5_dir.as_deref(), Some("/opt/intel/lib/intel64"));
    assert!(lib.is_wf());
    assert_eq!(lib.dir_of(Role::OpenMp).map(|s| s.as_str()), Some("/opt/intel/lib/intel64"));
    assert_eq!(
        search_paths(&emit(&lib, Platform::Linux)),
        vec!["/opt/intel/mkl/lib/intel64", "/opt/intel/lib/intel64"]
    );
}

#[test]
fn empty_listing_finds_nothing() {
    let cfg = config("mkl-static-lp64-seq");
    assert_eq!(Library::seek_directory(cfg, Platform::Linux, &files(&[])), Ok(None));
}

#[test]
fn sequential_installation_ignores_the_openmp_runtime() {
    let cfg = config("mkl-static-lp64-seq");
    let listing = files(&[
        "/m/include/mkl.h",
        "/m/lib/libiomp5.a",
        "/n/lib/libiomp5.a",
        "/m/lib/libmkl_core.a",
        "/m/lib/libmkl_intel_lp64.a",
        "/m/lib/libmkl_sequential.a",
    ]);
    let lib = Library::seek_directory(cfg, Platform::Linux, &listing).unwrap().unwrap();
    assert_eq!(lib.iomp5_dir, None);
    assert_eq!(lib.dir_of(Role::OpenMp), None);
}

#[test]
fn end_to_end_static_lp64_seq() {
    let cfg = config("mkl-static-lp64-seq");
    let listing = files(&[
        "/fixture/include/mkl.h",
        "/fixture/lib/intel64/libmkl_core.a",
        "/fixture/lib/intel64/libmkl_intel_lp64.a",
        "/fixture/lib/intel64/libmkl_sequential.a",
    ]);
    let lib = Library::seek_directory(cfg, Platform::Linux, &listing).unwrap().unwrap();
    let plan = emit(&lib, Platform::Linux);
    let dir = Some("/fixture/lib/intel64".to_string());
    let directive = |path: &Option<String>, name: &str, kind: LinkType| LinkDirective {
        search_path: path.clone(),
        library_name: name.to_string(),
        kind,
    };
    assert_eq!(
        plan,
        vec![
            directive(&dir, "mkl_intel_lp64", LinkType::Static),
            directive(&dir, "mkl_sequential", LinkType::Static),
            directive(&dir, "mkl_core", LinkType::Static),
            directive(&None, "pthread", LinkType::Dynamic),
            directive(&None, "m", LinkType::Dynamic),
            directive(&None, "dl", LinkType::Dynamic),
        ]
    );
    assert_eq!(plan.iter().filter(|d| d.kind == LinkType::Static).count(), 3);
    assert_eq!(search_paths(&plan), vec!["/fixture/lib/intel64"]);
    assert_eq!(
        cargo_metadata(&plan),
        vec![
            "cargo:rustc-link-search=/fixture/lib/intel64",
            "cargo:rustc-link-lib=static=mkl_intel_lp64",
            "cargo:rustc-link-lib=static=mkl_sequential",
            "cargo:rustc-link-lib=static=mkl_core",
            "cargo:rustc-link-lib=dylib=pthread",
            "cargo:rustc-link-lib=dylib=m",
            "cargo:rustc-link-lib=dylib=dl",
        ]
    );
    assert_eq!(
        lib.print_cargo_metadata(Platform::Linux),
        vec![
            "cargo:rerun-if-env-changed=MKLROOT",
            "cargo:rustc-link-search=/fixture/lib/intel64",
            "cargo:rustc-link-lib=static=mkl_intel_lp64",
            "cargo:rustc-link-lib=static=mkl_sequential",
            "cargo:rustc-link-lib=static=mkl_core",
            "cargo:rustc-link-lib=dylib=pthread",
            "cargo:rustc-link-lib=dylib=m",
            "cargo:rustc-link-lib=dylib=dl",
        ]
    );
}

#[test]
fn search_paths_keep_the_order_of_first_occurrence() {
    let d = |path: Option<&str>, name: &str| LinkDirective {
        search_path: path.map(|p| p.to_string()),
        library_name: name.to_string(),
        kind: LinkType::Dynamic,
    };
    let plan = vec![
        d(Some("/b"), "one"),
        d(None, "two"),
        d(Some("/a"), "three"),
        d(Some("/b"), "four"),
        d(Some("/c"), "five"),
        d(Some("/a"), "six"),
    ];
    assert_eq!(search_paths(&plan), vec!["/b", "/a", "/c"]);
    assert!(search_paths(&Vec::new()).is_empty());
}

#[test]
fn findings_are_completed_not_replaced() {
    let earlier = PartialMatch {
        include_dir: Some("/first/include".to_string()),
        core_dir: Some("/first/lib".to_string()),
        ..PartialMatch::new()
    };
    let later = PartialMatch {
        include_dir: Some("/second/include".to_string()),
        core_dir: Some("/second/lib".to_string()),
        interface_dir: Some("/second/lib".to_string()),
        threading_dir: None,
        openmp_dir: Some("/second/omp".to_string()),
    };
    let both = earlier.or(later);
    assert_eq!(both.include_dir.as_deref(), Some("/first/include"));
    assert_eq!(both.core_dir.as_deref(), Some("/first/lib"));
    assert_eq!(both.interface_dir.as_deref(), Some("/second/lib"));
    assert_eq!(both.threading_dir, None);
    assert_eq!(both.openmp_dir.as_deref(), Some("/second/omp"));
    assert!(!both.covers(config("mkl-static-lp64-seq")));
    assert_eq!(both.get(Role::Core).as_deref(), Some("/first/lib"));
}

#[test]
fn windows_installation_is_found() {
    let cfg = config("mkl-dynamic-lp64-iomp");
    let listing = files(&[
        "C:\\Intel\\mkl\\include\\mkl.h",
        "C:\\Intel\\mkl\\lib\\ia32_win\\mkl_core_dll.lib",
        "C:\\Intel\\mkl\\lib\\intel64_win\\mkl_core_dll.lib",
        "C:\\Intel\\mkl\\lib\\intel64_win\\mkl_intel_lp64_dll.lib",
        "C:\\Intel\\mkl\\lib\\intel64_win\\mkl_intel_thread_dll.lib",
        "C:\\Intel\\compiler\\lib\\intel64_win\\libiomp5md.dll",
    ]);
    let lib = Library::seek_directory(cfg, Platform::Windows, &listing).unwrap().unwrap();
    assert_eq!(lib.library_dir, "C:\\Intel\\mkl\\lib\\intel64_win");
    assert_eq!(lib.iomp5_dir.as_deref(), Some("C:\\Intel\\compiler\\lib\\intel64_win"));
    let names: Vec<String> = emit(&lib, Platform::Windows).into_iter().map(|d| d.library_name).collect();
    assert_eq!(
        names,
        vec!["mkl_intel_lp64", "mkl_intel_thread", "mkl_core", "iomp5md", "pthread", "m", "dl"]
    );
}

#[test]
fn the_runtime_libraries_are_the_same_everywhere() {
    assert_eq!(runtime_libraries(), vec!["pthread", "m", "dl"]);
    let cfg = config("mkl-static-lp64-seq");
    let listing = files(&[
        "/m/include/mkl.h",
        "/m/lib/libmkl_core.a",
        "/m/lib/libmkl_intel_lp64.a",
        "/m/lib/libmkl_sequential.a",
    ]);
    let lib = Library::seek_directory(cfg, Platform::Linux, &listing).unwrap().unwrap();
    for platform in [Platform::Linux, Platform::MacOs, Platform::Windows] {
        let plan = emit(&lib, platform);
        let tail: Vec<(Option<String>, String, LinkType)> = plan[3..]
            .iter()
            .map(|d| (d.search_path.clone(), d.library_name.clone(), d.kind))
            .collect();
        assert_eq!(
            tail,
            vec![
                (None, "pthread".to_string(), LinkType::Dynamic),
                (None, "m".to_string(), LinkType::Dynamic),
                (None, "dl".to_string(), LinkType::Dynamic),
            ]
        );
    }
}
