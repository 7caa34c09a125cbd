use intel_mkl_tool::components::Role;
use intel_mkl_tool::config::Config;
use intel_mkl_tool::library::Library;
use intel_mkl_tool::platform::Platform;
use intel_mkl_tool::resolve::{
    seek_pkg_config, well_known, Reply, Request, ResolveError, Resolver, Stage, Step,
};
use intel_mkl_tool::seek::AmbiguousInstallation;

fn files(paths: &[&str]) -> Vec<String> {
    paths.iter().map(|p| p.to_string()).collect()
}

fn config(name: &str) -> Config {
    Config::from_str(name).unwrap()
}

fn installation(root: &str) -> Reply {
    Reply::Files(files(&[
        &format!("{}/include/mkl.h", root),
        &format!("{}/lib/intel64/libmkl_core.a", root),
        &format!("{}/lib/intel64/libmkl_intel_lp64.a", root),
        &format!("{}/lib/intel64/libmkl_sequential.a", root),
    ]))
}

#[test]
fn build_cache_takes_precedence_over_a_well_known_path() {
    let cfg = config("mkl-static-lp64-seq");
    let replies = vec![
        installation("/out"),
        Reply::Absent,
        Reply::Absent,
        installation("/opt/intel"),
    ];
    let lib = Library::new(cfg, Platform::Linux, &replies).unwrap();
    assert_eq!(lib.include_dir, "/out/include");
    assert_eq!(lib.library_dir, "/out/lib/intel64");
    assert_eq!(lib.interface_dir, "/out/lib/intel64");
    assert_eq!(lib.threading_dir, "/out/lib/intel64");
    assert_eq!(lib.iomp5_dir, None);
}

#[test]
fn build_cache_ends_the_search_at_once() {
    let cfg = config("mkl-static-lp64-seq");
    let (resolver, request) = Resolver::new(cfg, Platform::Linux);
    assert_eq!(request, Request::ListBuildCache);
    match resolver.step(&installation("/out")) {
        Step::Done(Ok(lib)) => assert_eq!(lib.library_dir, "/out/lib/intel64"),
        other => panic!("{:?}", other),
    }
}

#[test]
fn the_places_are_asked_in_order() {
    let cfg = config("mkl-dynamic-ilp64-iomp");
    let (resolver, request) = Resolver::new(cfg, Platform::Linux);
    assert_eq!(request, Request::ListBuildCache);
    let (resolver, request) = match resolver.step(&Reply::Absent) {
        Step::Ask(resolver, request) => (resolver, request),
        other => panic!("{:?}", other),
    };
    assert_eq!(request, Request::QueryPackage { name: "mkl-dynamic-ilp64-iomp".to_string() });
    assert_eq!(resolver.stage, Stage::Package);
    let reply = Reply::Package {
        link_paths: files(&["/opt/intel/mkl/lib/intel64"]),
        include_paths: files(&["/somewhere/include"]),
    };
    let (resolver, request) = match resolver.step(&reply) {
        Step::Ask(resolver, request) => (resolver, request),
        other => panic!("{:?}", other),
    };
    assert_eq!(request, Request::ListDirectory { root: "/opt/intel/mkl".to_string() });
    assert_eq!(resolver.stage, Stage::PackageRoot);
    let (resolver, request) = match resolver.step(&Reply::Files(Vec::new())) {
        Step::Ask(resolver, request) => (resolver, request),
        other => panic!("{:?}", other),
    };
    assert_eq!(request, Request::ListUserRoot);
    let (resolver, request) = match resolver.step(&Reply::Absent) {
        Step::Ask(resolver, request) => (resolver, request),
        other => panic!("{:?}", other),
    };
    assert_eq!(request, Request::ListDirectory { root: "/opt/intel".to_string() });
    assert_eq!(resolver.stage, Stage::WellKnown(0));
    assert_eq!(
        resolver.step(&Reply::Absent),
        Step::Done(Err(ResolveError::NotFound { config: cfg }))
    );
}

#[test]
fn windows_has_two_well_known_roots() {
    assert_eq!(well_known(Platform::Linux), vec!["/opt/intel"]);
    assert_eq!(well_known(Platform::MacOs), vec!["/opt/intel"]);
    assert_eq!(
        well_known(Platform::Windows),
        vec!["C:/Program Files (x86)/IntelSWTools/", "C:/Program Files (x86)/Intel/oneAPI/"]
    );
    let cfg = config("mkl-static-lp64-seq");
    let replies = vec![Reply::Absent, Reply::Absent, Reply::Absent, Reply::Absent];
    // After four answers the search on Windows has one root left to ask for.
    let (mut resolver, _) = Resolver::new(cfg, Platform::Windows);
    let mut last = None;
    for reply in &replies {
        match resolver.step(reply) {
            Step::Ask(next, request) => {
                resolver = next;
                last = Some(request);
            }
            other => panic!("{:?}", other),
        }
    }
    assert_eq!(
        last,
        Some(Request::ListDirectory { root: "C:/Program Files (x86)/Intel/oneAPI/".to_string() })
    );
    assert_eq!(
        resolver.step(&Reply::Absent),
        Step::Done(Err(ResolveError::NotFound { config: cfg }))
    );
}

#[test]
fn package_without_paths_leads_to_the_user_root() {
    let cfg = config("mkl-static-lp64-seq");
    let (resolver, _) = Resolver::new(cfg, Platform::Linux);
    let resolver = match resolver.step(&Reply::Absent) {
        Step::Ask(resolver, _) => resolver,
        other => panic!("{:?}", other),
    };
    let reply = Reply::Package { link_paths: Vec::new(), include_paths: Vec::new() };
    match resolver.step(&reply) {
        Step::Ask(resolver, request) => {
            assert_eq!(request, Request::ListUserRoot);
            assert_eq!(resolver.stage, Stage::UserRoot);
        }
        other => panic!("{:?}", other),
    }
}

#[test]
fn roots_follow_from_package_paths() {
    let l = Platform::Linux;
    let none: Vec<String> = Vec::new();
    assert_eq!(
        Library::pkg_config(&files(&["/opt/intel/mkl/lib/intel64", "/x"]), &files(&["/y/include"]), l),
        Some("/opt/intel/mkl".to_string())
    );
    assert_eq!(
        Library::pkg_config(&files(&["/usr/lib/x86_64-linux-gnu"]), &none, l),
        Some("/usr/lib/x86_64-linux-gnu".to_string())
    );
    assert_eq!(
        Library::pkg_config(&files(&["/opt/lib64/intel64"]), &none, l),
        Some("/opt/lib64/intel64".to_string())
    );
    assert_eq!(
        Library::pkg_config(&none, &files(&["/opt/intel/mkl/include"]), l),
        Some("/opt/intel/mkl".to_string())
    );
    assert_eq!(
        Library::pkg_config(&none, &files(&["/usr/include/mkl"]), l),
        Some("/usr/include/mkl".to_string())
    );
    assert_eq!(Library::pkg_config(&none, &none, l), None);
}

#[test]
fn findings_of_several_places_are_put_together() {
    let cfg = config("mkl-dynamic-lp64-iomp");
    let replies = vec![
        Reply::Absent,
        Reply::Absent,
        Reply::Files(files(&[
            "/mklroot/include/mkl.h",
            "/mklroot/lib/intel64/libmkl_core.so",
            "/mklroot/lib/intel64/libmkl_intel_lp64.so",
            "/mklroot/lib/intel64/libmkl_intel_thread.so",
        ])),
        Reply::Files(files(&[
            "/opt/intel/mkl/include/mkl.h",
            "/opt/intel/mkl/lib/intel64/libmkl_core.so",
            "/opt/intel/lib/intel64/libiomp5.so",
        ])),
    ];
    let lib = Library::new(cfg, Platform::Linux, &replies).unwrap();
    assert_eq!(lib.include_dir, "/mklroot/include");
    assert_eq!(lib.library_dir, "/mklroot/lib/intel64");
    assert_eq!(lib.iomp5_dir.as_deref(), Some("/opt/intel/lib/intel64"));
    assert!(lib.is_wf());
}

#[test]
fn nothing_anywhere_is_not_found() {
    let cfg = config("mkl-static-lp64-seq");
    let replies = vec![Reply::Absent, Reply::Absent, Reply::Absent, Reply::Absent];
    assert_eq!(
        Library::new(cfg, Platform::Linux, &replies),
        Err(ResolveError::NotFound { config: cfg })
    );
    assert_eq!(
        Library::new(cfg, Platform::Linux, &Vec::new()),
        Err(ResolveError::NotFound { config: cfg })
    );
}

#[test]
fn a_conflict_names_the_place() {
    let cfg = config("mkl-static-lp64-seq");
    let replies = vec![
        Reply::Absent,
        Reply::Absent,
        Reply::Files(files(&["/r/a/libmkl_core.a", "/r/b/libmkl_core.a"])),
        installation("/opt/intel"),
    ];
    assert_eq!(
        Library::new(cfg, Platform::Linux, &replies),
        Err(ResolveError::Ambiguous {
            config: cfg,
            stage: Stage::UserRoot,
            conflict: AmbiguousInstallation {
                role: Role::Core,
                first: "/r/a".to_string(),
                second: "/r/b".to_string(),
            },
        })
    );
}

#[test]
fn an_answer_of_the_wrong_kind_counts_as_none() {
    let cfg = config("mkl-static-lp64-seq");
    let (resolver, _) = Resolver::new(cfg, Platform::Linux);
    let reply = Reply::Package { link_paths: files(&["/x"]), include_paths: Vec::new() };
    match resolver.step(&reply) {
        Step::Ask(resolver, request) => {
            assert_eq!(request, Request::QueryPackage { name: "mkl-static-lp64-seq".to_string() });
            match resolver.step(&installation("/out")) {
                Step::Ask(_, request) => assert_eq!(request, Request::ListUserRoot),
                other => panic!("{:?}", other),
            }
        }
        other => panic!("{:?}", other),
    }
}

#[test]
fn the_same_answers_give_the_same_end() {
    let cfg = config("mkl-static-lp64-seq");
    let replies = vec![Reply::Absent, Reply::Absent, installation("/mklroot")];
    let first = Library::new(cfg, Platform::Linux, &replies);
    let second = Library::new(cfg, Platform::Linux, &replies);
    assert_eq!(first, second);
    assert_eq!(first.unwrap().library_dir, "/mklroot/lib/intel64");
}

#[test]
fn available_leaves_out_what_is_not_found() {
    let static_seq = vec![installation("/out")];
    let mut replies: Vec<Vec<Reply>> = vec![Vec::new(); 8];
    // `mkl-static-lp64-seq` is the last of the eight, `mkl-static-ilp64-seq` the sixth.
    replies[7] = static_seq.clone();
    replies[5] = vec![
        Reply::Absent,
        Reply::Absent,
        Reply::Files(files(&[
            "/r/include/mkl.h",
            "/r/lib/libmkl_core.a",
            "/r/lib/libmkl_intel_ilp64.a",
            "/r/lib/libmkl_sequential.a",
        ])),
    ];
    replies[0] = static_seq;
    let libs = Library::available(Platform::Linux, &replies);
    let names: Vec<String> = libs.iter().map(|lib| lib.config.to_string()).collect();
    assert_eq!(names, vec!["mkl-static-ilp64-seq", "mkl-static-lp64-seq"]);
    assert_eq!(libs[0].library_dir, "/r/lib");
    assert_eq!(libs[1].library_dir, "/out/lib/intel64");
    assert!(Library::available(Platform::Linux, &Vec::new()).is_empty());
}

#[test]
fn packages_known_are_named_in_order() {
    let known = Reply::Package { link_paths: Vec::new(), include_paths: Vec::new() };
    let mut replies = vec![Reply::Absent; 8];
    replies[6] = known.clone();
    replies[1] = known.clone();
    replies[3] = Reply::Files(Vec::new());
    assert_eq!(seek_pkg_config(&replies), vec!["mkl-dynamic-ilp64-seq", "mkl-static-lp64-iomp"]);
    assert!(seek_pkg_config(&Vec::new()).is_empty());
    assert_eq!(seek_pkg_config(&vec![known; 9]).len(), 8);
}
