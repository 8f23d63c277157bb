use maxima_lsp::pathname::{file_name, parent, same_path};
use maxima_lsp::paths::{
    fallback_templates, file_search_script, is_package_dir, maxima_output_paths,
    package_start_candidates, parse_glob_extensions, parse_template, PackageScan, PathResolver,
    Probe, ProbeAnswer, SearchStep,
};
use maxima_lsp::name_map::NameMap;

#[test]
fn test_parse_template_recursive() {
    let t = parse_template("/opt/share/maxima/5.49.0/share/**/*.lisp").unwrap();
    assert!(t.recursive);
    assert_eq!(t.root, "/opt/share/maxima/5.49.0/share");
    assert!(t.extensions.contains(&".lisp".to_string()));
}

#[test]
fn test_parse_template_flat() {
    let t = parse_template("/opt/share/maxima/5.49.0/src/*.mac").unwrap();
    assert!(!t.recursive);
    assert_eq!(t.root, "/opt/share/maxima/5.49.0/src");
}

#[test]
fn glob_extensions_with_braces() {
    assert_eq!(parse_glob_extensions("*.{mac,lisp}"), vec![".mac".to_string(), ".lisp".to_string()]);
    assert_eq!(parse_glob_extensions("*.mac"), vec![".mac".to_string()]);
}

#[test]
fn template_without_glob_is_refused() {
    assert!(parse_template("").is_none());
}

#[test]
fn maxima_script_names_the_file() {
    let s = file_search_script("draw");
    assert!(s.contains("file_search(\"draw\")"), "{s}");
}

#[test]
fn maxima_output_paths_keeps_absolute_words() {
    let out = "(%i1) print(x)$\nLoading foo\n  /usr/share/maxima/draw/draw.lisp  \nfalse\n";
    let paths = maxima_output_paths(out);
    assert!(paths.contains(&"/usr/share/maxima/draw/draw.lisp".to_string()), "{paths:?}");
}

#[test]
fn package_directories_skip_repo_bin_and_hidden() {
    assert!(!is_package_dir("repo"));
    assert!(!is_package_dir("bin"));
    assert!(!is_package_dir(".tmp"));
    assert!(is_package_dir("colors"));
}

#[test]
fn package_starts_with_latest_init() {
    let c = package_start_candidates("/home/u/.maxpack/colors", "colors");
    assert_eq!(c[0], "/home/u/.maxpack/colors/latest/src/init.mac");
}

#[test]
fn fallback_templates_cover_userdir() {
    let t = fallback_templates("/home/u/.maxima");
    assert!(!t.is_empty());
}

fn resolver() -> PathResolver {
    PathResolver::new(None, None, None, Vec::new(), NameMap::new())
}

/// Runs a search against a set of existing files.
fn run(resolver: &PathResolver, name: &str, base: &str, files: &[&str]) -> Option<String> {
    let mut search = resolver.resolve(name, base);
    loop {
        match search.next_step() {
            SearchStep::Done(r) => return r,
            SearchStep::Probe(Probe::IsFile(p)) => {
                search.answer(ProbeAnswer::Flag(files.contains(&p.as_str())))
            }
            SearchStep::Probe(Probe::IsDir(_)) => search.answer(ProbeAnswer::Flag(false)),
            SearchStep::Probe(Probe::ListDir(_)) => search.answer(ProbeAnswer::Entries(Vec::new())),
            SearchStep::Probe(Probe::RunMaxima(_)) => search.answer(ProbeAnswer::Output(String::new())),
        }
    }
}

#[test]
fn search_finds_relative_file_with_extension() {
    let r = resolver();
    assert_eq!(run(&r, "helper", "/tmp/x", &["/tmp/x/helper.mac"]), Some("/tmp/x/helper.mac".to_string()));
    assert_eq!(run(&r, "helper.mac", "/tmp/x", &["/tmp/x/helper.mac"]), Some("/tmp/x/helper.mac".to_string()));
}

#[test]
fn search_finds_lisp_and_nested_files() {
    let r = resolver();
    assert_eq!(run(&r, "pkg", "/tmp/x", &["/tmp/x/pkg.lisp"]), Some("/tmp/x/pkg.lisp".to_string()));
    assert_eq!(run(&r, "lib/utils", "/tmp/x", &["/tmp/x/lib/utils.mac"]), Some("/tmp/x/lib/utils.mac".to_string()));
}

#[test]
fn search_of_missing_or_blank_name_finds_nothing() {
    let r = resolver();
    assert_eq!(run(&r, "definitely_not_a_real_maxima_pkg_xyz", "/tmp/x", &[]), None);
    assert_eq!(run(&r, "   ", "/tmp/x", &["/tmp/x/.mac"]), None);
}

#[test]
fn remembered_result_is_answered_from_cache() {
    let mut r = resolver();
    let mut search = r.resolve("helper", "/tmp/x");
    loop {
        match search.next_step() {
            SearchStep::Done(_) => break,
            SearchStep::Probe(Probe::IsFile(p)) => search.answer(ProbeAnswer::Flag(p == "/tmp/x/helper.mac")),
            SearchStep::Probe(_) => search.answer(ProbeAnswer::Flag(false)),
        }
    }
    r.remember(&search);
    let mut again = r.resolve("helper", "/tmp/x");
    match again.next_step() {
        SearchStep::Done(p) => assert_eq!(p, Some("/tmp/x/helper.mac".to_string())),
        SearchStep::Probe(_) => panic!("expected an answer from the cache"),
    }
}

#[test]
fn finished_search_answers_the_same_again() {
    let r = resolver();
    let mut search = r.resolve("  ", "/tmp/x");
    assert!(matches!(search.next_step(), SearchStep::Done(None)));
    assert!(matches!(search.next_step(), SearchStep::Done(None)));
    assert_eq!(search.outcome(), Some(None));
}

#[test]
fn same_path_compares_components() {
    assert!(same_path("/a/./b", "/a/b"));
    assert!(same_path("/a//b/", "/a/b"));
    assert!(!same_path("./a", "a"));
    assert!(!same_path("/a/../b", "/b"));
    assert!(same_path("a/b", "a/./b"));
}

#[test]
fn discovery_completes_with_home() {
    let mut r = resolver();
    let fallback = fallback_templates("/home/u/.maxima");
    r.finish_discovery(Some("/home/u"), fallback, NameMap::new());
    assert_eq!(r.template_count(), 3);
    let mut s = r.resolve("zz", "/nowhere");
    let mut dirs = Vec::new();
    loop {
        match s.next_step() {
            SearchStep::Done(_) => break,
            SearchStep::Probe(Probe::IsDir(d)) => {
                dirs.push(d);
                s.answer(ProbeAnswer::Flag(false))
            }
            SearchStep::Probe(_) => s.answer(ProbeAnswer::Flag(false)),
        }
    }
    assert!(dirs.iter().all(|d| d == "/home/u/.maxima"), "{dirs:?}");
    assert_eq!(dirs.len(), 3);
}

#[test]
fn maxima_output_sets_userdir_and_templates() {
    let mut r = resolver();
    r.load_from_maxima_output("USERDIR: /home/u/.maxima\nTEMPLATE: /usr/share/maxima/**/*.{mac,lisp}\nTEMPLATE: \nnoise\n");
    assert_eq!(r.template_count(), 1);
}

fn simulated_answer(probe: &Probe, dirs: &[&str], files: &[&str], listing: &[&str]) -> ProbeAnswer {
    match probe {
        Probe::IsDir(p) => ProbeAnswer::Flag(dirs.contains(&p.as_str())),
        Probe::IsFile(p) => ProbeAnswer::Flag(files.contains(&p.as_str())),
        Probe::ListDir(_) => ProbeAnswer::Entries(listing.iter().map(|e| e.to_string()).collect()),
        Probe::RunMaxima(_) => ProbeAnswer::Output(String::new()),
    }
}

#[test]
fn package_scan_finds_first_existing_start_file() {
    let dirs = ["/h/.maxpack", "/h/.maxpack/colors", "/h/.maxpack/repo", "/h/.maxpack/.cache", "/h/.maxpack/stats"];
    let files = [
        "/h/.maxpack/colors/latest/src/colors.mac",
        "/h/.maxpack/colors/src/init.mac",
        "/h/.maxpack/repo/src/init.mac",
        "/h/.maxpack/.cache/src/init.mac",
        "/h/.maxpack/notes/src/init.mac",
        "/h/.maxpack/stats/src/init.mac",
    ];
    let listing = [
        "/h/.maxpack/colors",
        "/h/.maxpack/repo",
        "/h/.maxpack/.cache",
        "/h/.maxpack/notes",
        "/h/.maxpack/stats",
        "/h/.maxpack/empty",
    ];
    let mut scan = PackageScan::start("/h/.maxpack");
    let mut probes = 0;
    while let Some(probe) = scan.next_probe() {
        scan.answer(simulated_answer(&probe, &dirs, &files, &listing));
        probes += 1;
        assert!(probes < 100);
    }
    let packages = scan.packages();
    assert_eq!(packages.len(), 2);
    assert_eq!(packages.get("colors").map(|s| s.as_str()), Some("/h/.maxpack/colors/latest/src/colors.mac"));
    assert_eq!(packages.get("stats").map(|s| s.as_str()), Some("/h/.maxpack/stats/src/init.mac"));
    assert!(packages.get("repo").is_none());
    assert!(packages.get(".cache").is_none());
    assert!(packages.get("notes").is_none());
}

#[test]
fn package_scan_without_root_finds_nothing() {
    let mut scan = PackageScan::start("/nowhere/.maxpack");
    let probe = scan.next_probe().unwrap();
    assert!(matches!(&probe, Probe::IsDir(p) if p == "/nowhere/.maxpack"));
    scan.answer(ProbeAnswer::Flag(false));
    assert!(scan.next_probe().is_none());
    assert_eq!(scan.packages().len(), 0);
}

#[test]
fn file_name_skips_trailing_current_dir() {
    assert_eq!(file_name("foo.txt/."), Some("foo.txt".to_string()));
    assert_eq!(file_name("a/b/./"), Some("b".to_string()));
    assert_eq!(file_name("/."), None);
    assert_eq!(file_name("."), None);
    assert_eq!(file_name("a/.."), None);
    assert_eq!(parent("a/b/."), Some("a".to_string()));
}

fn finish(mut search: maxima_lsp::paths::PathSearch, file: &str) -> maxima_lsp::paths::PathSearch {
    loop {
        match search.next_step() {
            SearchStep::Done(_) => return search,
            SearchStep::Probe(Probe::IsFile(p)) => search.answer(ProbeAnswer::Flag(p == file)),
            SearchStep::Probe(_) => search.answer(ProbeAnswer::Flag(false)),
        }
    }
}

#[test]
fn remembered_path_is_not_replaced() {
    let mut r = resolver();
    let first = finish(r.resolve("helper", "/tmp/x"), "/tmp/x/helper.mac");
    let stale = finish(r.resolve("helper", "/tmp/x"), "/tmp/x/helper.lisp");
    assert_eq!(first.outcome(), Some(Some("/tmp/x/helper.mac".to_string())));
    assert_eq!(stale.outcome(), Some(Some("/tmp/x/helper.lisp".to_string())));
    r.remember(&first);
    r.remember(&stale);
    match r.resolve("helper", "/tmp/x").next_step() {
        SearchStep::Done(p) => assert_eq!(p, Some("/tmp/x/helper.mac".to_string())),
        SearchStep::Probe(_) => panic!("expected an answer from the cache"),
    }
}
