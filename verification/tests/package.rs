use intel_mkl_tool::components::Role;
use intel_mkl_tool::config::Config;
use intel_mkl_tool::config::LinkType;
use intel_mkl_tool::home::{seek_xdg_home, xdg_home_path, DirEntry};
use intel_mkl_tool::library::Library;
use intel_mkl_tool::link::{Candidate, LinkConfig, LinkDirective, Lookup};
use intel_mkl_tool::order::{precedes, sort_names};
use intel_mkl_tool::package::{
    goes_into_package, pack, package, select_libraries, PackReply, PackRequest, PackStage,
    PackStep, PackageError, Packager, COMPRESSION_LEVEL,
};
use intel_mkl_tool::platform::Platform;
use intel_mkl_tool::resolve::{ResolveError, Stage};
use intel_mkl_tool::seek::AmbiguousInstallation;
use intel_mkl_tool::text::{
    chars_of, ends_with, same_chars, split_chars, starts_with, whitespace_chars, words_of,
};
use intel_mkl_tool::version::VersionError;

const HEADER: &str =
    "#define __INTEL_MKL__ 2020\n#define __INTEL_MKL_MINOR__ 0\n#define __INTEL_MKL_UPDATE__ 1\n";

fn strings(items: &[&str]) -> Vec<String> {
    items.iter().map(|p| p.to_string()).collect()
}

fn ask(step: PackStep) -> (Packager, PackRequest) {
    match step {
        PackStep::Ask(packager, request) => (packager, request),
        other => panic!("{:?}", other),
    }
}

fn up_to_listing() -> Packager {
    let (packager, _) = package("/opt/intel/mkl", "/out", Platform::Linux);
    let (packager, _) = ask(packager.step(&PackReply::Exists(true)));
    let (packager, _) = ask(packager.step(&PackReply::Text(Some(HEADER.to_string()))));
    let (packager, _) = ask(packager.step(&PackReply::Exists(false)));
    packager
}

#[test]
fn a_packaging_runs_through_its_stages() {
    let (packager, request) = package("/opt/intel/mkl", "/out", Platform::Linux);
    assert_eq!(request, PackRequest::Probe { path: "/opt/intel/mkl".to_string() });
    assert_eq!(packager.stage, PackStage::CheckRoot);
    let (packager, request) = ask(packager.step(&PackReply::Exists(true)));
    assert_eq!(
        request,
        PackRequest::ReadText { path: "/opt/intel/mkl/include/mkl_version.h".to_string() }
    );
    let (packager, request) = ask(packager.step(&PackReply::Text(Some(HEADER.to_string()))));
    assert_eq!(request, PackRequest::Probe { path: "/out/mkl_linux64_2020_1.tar.zst".to_string() });
    assert_eq!(packager.output, "/out/mkl_linux64_2020_1.tar.zst");
    let (packager, request) = ask(packager.step(&PackReply::Exists(false)));
    assert_eq!(request, PackRequest::ListNames { dir: "/opt/intel/mkl/lib/intel64".to_string() });
    let listing = strings(&[
        "libmkl_rt.so",
        "libmkl_core.so",
        "libmkl_core.a",
        "locale",
        "libmkl_avx2.so",
        "libmkl_core.so.1",
        "README.so.txt",
    ]);
    let (packager, request) = ask(packager.step(&PackReply::Names(listing)));
    assert_eq!(
        request,
        PackRequest::Archive {
            dir: "/opt/intel/mkl/lib/intel64".to_string(),
            names: strings(&["libmkl_avx2.so", "libmkl_core.a", "libmkl_core.so", "libmkl_rt.so"]),
        }
    );
    let tar = b"the tar archive of the libraries".repeat(50);
    let (packager, request) = ask(packager.step(&PackReply::Tar(tar.clone())));
    match request {
        PackRequest::Write { path, bytes } => {
            assert_eq!(path, "/out/mkl_linux64_2020_1.tar.zst");
            assert_ne!(bytes, tar);
            assert_eq!(zstd::stream::decode_all(&bytes[..]).unwrap(), tar);
            assert_eq!(bytes, zstd::stream::encode_all(&tar[..], COMPRESSION_LEVEL).unwrap());
        }
        other => panic!("{:?}", other),
    }
    assert_eq!(packager.stage, PackStage::Write);
    assert_eq!(
        packager.step(&PackReply::Written),
        PackStep::Done(Ok("/out/mkl_linux64_2020_1.tar.zst".to_string()))
    );
}

#[test]
fn a_missing_root_ends_the_packaging() {
    let (packager, _) = package("/nowhere", "/out", Platform::Linux);
    assert_eq!(
        packager.step(&PackReply::Exists(false)),
        PackStep::Done(Err(PackageError::MissingRoot { path: "/nowhere".to_string() }))
    );
}

#[test]
fn a_missing_header_ends_the_packaging() {
    let (packager, _) = package("/opt/intel/mkl", "/out", Platform::Linux);
    let (packager, _) = ask(packager.step(&PackReply::Exists(true)));
    assert_eq!(
        packager.step(&PackReply::Text(None)),
        PackStep::Done(Err(PackageError::BadVersion {
            path: "/opt/intel/mkl/include/mkl_version.h".to_string(),
            error: VersionError::NotFound,
        }))
    );
}

#[test]
fn a_header_without_version_ends_the_packaging() {
    let (packager, _) = package("/opt/intel/mkl", "/out", Platform::Linux);
    let (packager, _) = ask(packager.step(&PackReply::Exists(true)));
    assert_eq!(
        packager.step(&PackReply::Text(Some("#define __INTEL_MKL__ 2020\n".to_string()))),
        PackStep::Done(Err(PackageError::BadVersion {
            path: "/opt/intel/mkl/include/mkl_version.h".to_string(),
            error: VersionError::Incomplete,
        }))
    );
}

#[test]
fn an_existing_archive_is_never_overwritten() {
    let (packager, _) = package("/opt/intel/mkl", "/out", Platform::Linux);
    let (packager, _) = ask(packager.step(&PackReply::Exists(true)));
    let (packager, _) = ask(packager.step(&PackReply::Text(Some(HEADER.to_string()))));
    assert_eq!(
        packager.step(&PackReply::Exists(true)),
        PackStep::Done(Err(PackageError::OutputExists {
            path: "/out/mkl_linux64_2020_1.tar.zst".to_string()
        }))
    );
}

#[test]
fn what_the_caller_cannot_do_ends_the_packaging() {
    let (packager, _) = package("/opt/intel/mkl", "/out", Platform::Linux);
    assert_eq!(
        packager.step(&PackReply::Failed),
        PackStep::Done(Err(PackageError::Failed { stage: PackStage::CheckRoot }))
    );
    assert_eq!(
        up_to_listing().step(&PackReply::Failed),
        PackStep::Done(Err(PackageError::Failed { stage: PackStage::ListLibraries }))
    );
    assert_eq!(
        up_to_listing().step(&PackReply::Written),
        PackStep::Done(Err(PackageError::Failed { stage: PackStage::ListLibraries }))
    );
}

#[test]
fn after_encoding_takes_the_result_as_it_is() {
    let (packager, _) = ask(up_to_listing().step(&PackReply::Names(Vec::new())));
    assert_eq!(
        packager.clone().after_encoding(None),
        PackStep::Done(Err(PackageError::Failed { stage: PackStage::Archive }))
    );
    let (next, request) = ask(packager.after_encoding(Some(vec![9, 8, 7])));
    assert_eq!(next.stage, PackStage::Write);
    assert_eq!(
        request,
        PackRequest::Write { path: "/out/mkl_linux64_2020_1.tar.zst".to_string(), bytes: vec![9, 8, 7] }
    );
}

#[test]
fn the_archive_is_ordered_whatever_the_listing() {
    let one = strings(&["libmkl_b.so", "libmkl_a.so", "libmkl_c.so"]);
    let other = strings(&["libmkl_c.so", "libmkl_b.so", "libmkl_a.so"]);
    let (_, first) = ask(up_to_listing().step(&PackReply::Names(one)));
    let (_, second) = ask(up_to_listing().step(&PackReply::Names(other)));
    assert_eq!(first, second);
}

#[test]
fn libraries_are_chosen_by_extension() {
    assert!(goes_into_package("libmkl_core.so", Platform::Linux));
    assert!(goes_into_package("libmkl_core.a", Platform::Linux));
    assert!(goes_into_package(".so", Platform::Linux));
    assert!(!goes_into_package("so", Platform::Linux));
    assert!(!goes_into_package("libmkl_core.so.2", Platform::Linux));
    assert!(!goes_into_package("libmkl_core.dylib", Platform::Linux));
    assert!(goes_into_package("libmkl_core.dylib", Platform::MacOs));
    assert!(!goes_into_package("libmkl_core.a", Platform::MacOs));
    assert!(goes_into_package("mkl_core.dll", Platform::Windows));
    assert!(!goes_into_package("mkl_core.lib", Platform::Windows));
    assert_eq!(
        select_libraries(&strings(&["z.so", "a.txt", "b.a", "a.so"]), Platform::Linux),
        vec!["z.so", "b.a", "a.so"]
    );
}

#[test]
fn names_are_sorted_like_strings() {
    let names = strings(&["b", "", "ab", "a", "B", "abc", "a", "é", "z", "aa", "a b"]);
    let mut expected = names.clone();
    expected.sort();
    assert_eq!(sort_names(&names), expected);
    assert!(sort_names(&Vec::new()).is_empty());
    for a in &names {
        for b in &names {
            let (x, y): (Vec<char>, Vec<char>) = (a.chars().collect(), b.chars().collect());
            assert_eq!(precedes(&x, &y), a <= b, "{:?} {:?}", a, b);
        }
    }
}

#[test]
fn pack_lists_the_files_of_an_installation() {
    let cfg = Config::from_str("mkl-static-lp64-iomp").unwrap();
    let lib = Library {
        config: cfg,
        include_dir: "/m/include".to_string(),
        interface_dir: "/m/lib".to_string(),
        threading_dir: "/m/lib".to_string(),
        library_dir: "/m/lib".to_string(),
        iomp5_dir: Some("/omp/lib".to_string()),
    };
    assert_eq!(
        pack(&lib, Platform::Linux),
        vec![
            "/m/lib/libmkl_intel_lp64.a",
            "/m/lib/libmkl_intel_thread.a",
            "/m/lib/libmkl_core.a",
            "/omp/lib/libiomp5.a",
        ]
    );
    let cfg = Config::from_str("mkl-dynamic-ilp64-seq").unwrap();
    let lib = Library { config: cfg, iomp5_dir: None, ..lib };
    let files = pack(&lib, Platform::Linux);
    assert_eq!(files.len(), 3 + 17);
    assert_eq!(
        &files[..4],
        &[
            "/m/lib/libmkl_intel_ilp64.so",
            "/m/lib/libmkl_sequential.so",
            "/m/lib/libmkl_core.so",
            "/m/lib/libmkl_def.so",
        ]
    );
    assert_eq!(files[19], "/m/lib/libmkl_vml_cmpt.so");
}

#[test]
fn the_data_directory_is_named_after_the_tool() {
    assert_eq!(xdg_home_path("/home/u/.local/share", Platform::Linux), "/home/u/.local/share/intel-mkl-tool");
    assert_eq!(
        xdg_home_path("C:\\Users\\u\\AppData\\Local", Platform::Windows),
        "C:\\Users\\u\\AppData\\Local\\intel-mkl-tool"
    );
}

#[test]
fn unpacked_archives_are_the_directories() {
    let entry = |path: &str, is_dir: bool| DirEntry { path: path.to_string(), is_dir };
    let found = vec![
        entry("/data/intel-mkl-tool/mkl-static-lp64-seq", true),
        entry("/data/intel-mkl-tool/notes.txt", false),
        entry("/data/intel-mkl-tool/mkl-dynamic-lp64-iomp", true),
        entry("/data/intel-mkl-tool/..", true),
        entry("/data/intel-mkl-tool/", true),
    ];
    assert_eq!(
        seek_xdg_home(&found, Platform::Linux),
        vec![
            (
                "mkl-static-lp64-seq".to_string(),
                "/data/intel-mkl-tool/mkl-static-lp64-seq".to_string()
            ),
            (
                "mkl-dynamic-lp64-iomp".to_string(),
                "/data/intel-mkl-tool/mkl-dynamic-lp64-iomp".to_string()
            ),
        ]
    );
    assert!(seek_xdg_home(&Vec::new(), Platform::Linux).is_empty());
}

#[test]
fn link_config_takes_the_first_directory_with_the_core() {
    let cfg = Config::from_str("mkl-dynamic-lp64-seq").unwrap();
    let candidate = |dir: &str, has_core: bool| Candidate { dir: dir.to_string(), has_core };
    let link = LinkConfig::from_config(
        cfg,
        &vec![candidate("/out", false), candidate("/pkg", true), candidate("/home", true)],
    )
    .unwrap();
    assert_eq!(link.path(), "/pkg");
    assert_eq!(link.name(), "mkl-dynamic-lp64-seq");
    assert_eq!(link.config(), cfg);
    let d = |path: Option<&str>, name: &str, kind: LinkType| LinkDirective {
        search_path: path.map(|p| p.to_string()),
        library_name: name.to_string(),
        kind,
    };
    let plan = vec![
        d(Some("/pkg"), "mkl_intel_lp64", LinkType::Dynamic),
        d(Some("/pkg"), "mkl_sequential", LinkType::Dynamic),
        d(Some("/pkg"), "mkl_core", LinkType::Dynamic),
        d(None, "pthread", LinkType::Dynamic),
        d(None, "m", LinkType::Dynamic),
        d(None, "dl", LinkType::Dynamic),
    ];
    assert_eq!(link.directives(Platform::Linux), plan);
    assert_eq!(link.directives(Platform::Windows), plan);
}

#[test]
fn link_config_without_core_is_not_found_and_names_the_configuration() {
    let cfg = Config::from_str("mkl-dynamic-lp64-seq").unwrap();
    let candidate = |dir: &str, has_core: bool| Candidate { dir: dir.to_string(), has_core };
    let missing = Err(ResolveError::NotFound { config: cfg });
    assert_eq!(LinkConfig::from_config(cfg, &vec![candidate("/out", false)]), missing);
    assert_eq!(LinkConfig::from_config(cfg, &Vec::new()), missing);
    assert_eq!(
        ResolveError::NotFound { config: cfg }.message(),
        "No library found for mkl-dynamic-lp64-seq"
    );
    let conflict = ResolveError::Ambiguous {
        config: cfg,
        stage: Stage::UserRoot,
        conflict: AmbiguousInstallation {
            role: Role::Core,
            first: "/a".to_string(),
            second: "/b".to_string(),
        },
    };
    assert_eq!(
        conflict.message(),
        "Ambiguous installation of mkl-dynamic-lp64-seq: /a and /b"
    );
}

#[test]
fn link_config_prints_the_search_line_and_the_libraries() {
    let candidate = |dir: &str| vec![Candidate { dir: dir.to_string(), has_core: true }];
    let cfg = Config::from_str("mkl-static-lp64-iomp").unwrap();
    let link = LinkConfig::from_config(cfg, &candidate("/p")).unwrap();
    let lines = vec![
        "cargo:rustc-link-search=/p",
        "cargo:rustc-link-lib=static=mkl_intel_lp64",
        "cargo:rustc-link-lib=static=mkl_intel_thread",
        "cargo:rustc-link-lib=static=mkl_core",
        "cargo:rustc-link-lib=dylib=pthread",
        "cargo:rustc-link-lib=dylib=m",
        "cargo:rustc-link-lib=dylib=dl",
    ];
    assert_eq!(link.print_cargo_metadata(Platform::Linux), lines);
    assert_eq!(link.print_cargo_metadata(Platform::Windows), lines);
    let cfg = Config::from_str("mkl-dynamic-ilp64-seq").unwrap();
    let link = LinkConfig::from_config(cfg, &candidate("/pkg")).unwrap();
    assert_eq!(
        link.print_cargo_metadata(Platform::Linux),
        vec![
            "cargo:rustc-link-search=/pkg",
            "cargo:rustc-link-lib=dylib=mkl_intel_ilp64",
            "cargo:rustc-link-lib=dylib=mkl_sequential",
            "cargo:rustc-link-lib=dylib=mkl_core",
            "cargo:rustc-link-lib=dylib=pthread",
            "cargo:rustc-link-lib=dylib=m",
            "cargo:rustc-link-lib=dylib=dl",
        ]
    );
}

#[test]
fn link_config_names_the_files_it_needs() {
    let candidate = |dir: &str| vec![Candidate { dir: dir.to_string(), has_core: true }];
    let cfg = Config::from_str("mkl-static-lp64-iomp").unwrap();
    assert_eq!(LinkConfig::core_file(cfg, Platform::Linux, "/p"), "/p/libmkl_core.a");
    assert_eq!(LinkConfig::core_file(cfg, Platform::Windows, "C:\\p"), "C:\\p\\mkl_core.lib");
    let link = LinkConfig::from_config(cfg, &candidate("/p")).unwrap();
    assert_eq!(
        link.required_files(Platform::Linux),
        vec!["/p/libmkl_intel_lp64.a", "/p/libmkl_intel_thread.a", "/p/libmkl_core.a"]
    );
    let cfg = Config::from_str("mkl-dynamic-ilp64-seq").unwrap();
    assert_eq!(LinkConfig::core_file(cfg, Platform::Linux, "/p/"), "/p/libmkl_core.so");
    assert_eq!(LinkConfig::core_file(cfg, Platform::MacOs, "/p"), "/p/libmkl_core.dylib");
    assert_eq!(LinkConfig::core_file(cfg, Platform::Windows, "C:\\p"), "C:\\p\\mkl_core.dll");
    let link = LinkConfig::from_config(cfg, &candidate("C:\\p")).unwrap();
    assert_eq!(
        link.required_files(Platform::Windows),
        vec![
            "C:\\p\\mkl_intel_ilp64.dll",
            "C:\\p\\mkl_sequential.dll",
            "C:\\p\\mkl_core.dll"
        ]
    );
}

#[test]
fn link_config_candidates_come_in_order_of_precedence() {
    let cfg = Config::from_str("mkl-static-lp64-seq").unwrap();
    let lookup = |dir: &str, resolve: bool| Lookup { dir: dir.to_string(), resolve };
    assert_eq!(
        LinkConfig::candidates(
            cfg,
            Platform::Linux,
            Some("/target/out"),
            &strings(&["/opt/intel/mkl/lib/intel64", "/other"]),
            &strings(&["/opt/intel/mkl/include"]),
            "/home/u/.local/share/intel-mkl-tool",
        ),
        vec![
            lookup("/target/out", false),
            lookup("/opt/intel/mkl/lib/intel64", false),
            lookup("/opt/intel/mkl/include/../lib/intel64", true),
            lookup("/home/u/.local/share/intel-mkl-tool/mkl-static-lp64-seq", false),
        ]
    );
    assert_eq!(
        LinkConfig::candidates(cfg, Platform::Linux, None, &Vec::new(), &Vec::new(), "/data"),
        vec![lookup("/data/mkl-static-lp64-seq", false)]
    );
}

#[test]
fn link_configs_available_are_those_with_a_core() {
    let candidate = |dir: &str, has_core: bool| Candidate { dir: dir.to_string(), has_core };
    let mut all: Vec<Vec<Candidate>> = vec![Vec::new(); 8];
    all[2] = vec![candidate("/a", false), candidate("/b", true)];
    all[6] = vec![candidate("/c", true)];
    all[7] = vec![candidate("/d", false)];
    let links = LinkConfig::available(&all);
    let found: Vec<(String, String)> =
        links.iter().map(|l| (l.name(), l.path().to_string())).collect();
    assert_eq!(
        found,
        vec![
            ("mkl-dynamic-lp64-iomp".to_string(), "/b".to_string()),
            ("mkl-static-lp64-iomp".to_string(), "/c".to_string()),
        ]
    );
}

#[test]
fn text_is_split_like_str_split() {
    for text in ["", "-", "a", "a-b", "-a", "a-", "--", "a--b-", "mkl-static-lp64-iomp"] {
        let chars: Vec<char> = text.chars().collect();
        let pieces: Vec<String> =
            split_chars(&chars, &['-']).into_iter().map(|p| p.into_iter().collect()).collect();
        let expected: Vec<&str> = text.split('-').collect();
        assert_eq!(pieces, expected, "{:?}", text);
    }
}

#[test]
fn words_are_split_like_split_whitespace() {
    for text in ["", " ", "a", " a  b\t\tc\r", "#define  X\u{a0}1", "a\u{2003}b\u{85}c", "x\u{200b}y"] {
        let chars: Vec<char> = text.chars().collect();
        let words: Vec<String> =
            words_of(&chars).into_iter().map(|p| p.into_iter().collect()).collect();
        let expected: Vec<&str> = text.split_whitespace().collect();
        assert_eq!(words, expected, "{:?}", text);
    }
}

#[test]
fn prefixes_suffixes_and_equality() {
    let c = |s: &str| chars_of(s);
    assert_eq!(c("héllo"), vec!['h', 'é', 'l', 'l', 'o']);
    assert!(starts_with(&c("#define X"), &c("#define")));
    assert!(starts_with(&c("abc"), &c("")));
    assert!(!starts_with(&c("#defin"), &c("#define")));
    assert!(!starts_with(&c("x#define"), &c("#define")));
    assert!(ends_with(&c("libmkl.so"), &c(".so")));
    assert!(ends_with(&c(".so"), &c(".so")));
    assert!(!ends_with(&c("so"), &c(".so")));
    assert!(!ends_with(&c("libmkl.so.1"), &c(".so")));
    assert!(same_chars(&c("abc"), &c("abc")));
    assert!(!same_chars(&c("abc"), &c("abd")));
    assert!(!same_chars(&c("abc"), &c("ab")));
}

#[test]
fn white_space_is_what_char_calls_white_space() {
    let ours = whitespace_chars();
    for code in 0..=0x10ffff_u32 {
        if let Some(c) = char::from_u32(code) {
            assert_eq!(ours.contains(&c), c.is_whitespace(), "{:?}", c);
        }
    }
}
