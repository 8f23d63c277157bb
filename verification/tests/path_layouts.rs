//! Path resolution scenarios over a simulated file system: the library's
//! searches ask for file-system facts one probe at a time, and these tests
//! answer them from a fixed set of files and directories.

use maxima_lsp::name_map::NameMap;
use maxima_lsp::pathname::join;
use maxima_lsp::paths::{fallback_templates, PackageScan, PathResolver, PathSearch, Probe, ProbeAnswer, SearchStep};

/// A file system made of the listed files and the directories above them.
struct FakeFs {
    files: Vec<String>,
    dirs: Vec<String>,
}

impl FakeFs {
    fn new() -> Self {
        FakeFs { files: Vec::new(), dirs: vec!["/".to_string()] }
    }

    fn add_dir(&mut self, dir: &str) {
        let mut cur = String::new();
        for part in dir.split('/').filter(|p| !p.is_empty()) {
            cur.push('/');
            cur.push_str(part);
            if !self.dirs.contains(&cur) {
                self.dirs.push(cur.clone());
            }
        }
    }

    fn add_file(&mut self, file: &str) {
        let parent = &file[..file.rfind('/').unwrap()];
        self.add_dir(parent);
        self.files.push(file.to_string());
    }

    fn children(&self, dir: &str) -> Vec<String> {
        let prefix = if dir.ends_with('/') { dir.to_string() } else { format!("{dir}/") };
        let mut out: Vec<String> = self
            .files
            .iter()
            .chain(self.dirs.iter())
            .filter(|p| p.starts_with(&prefix) && p.len() > prefix.len() && !p[prefix.len()..].contains('/'))
            .cloned()
            .collect();
        out.sort();
        out
    }

    fn answer(&self, probe: &Probe) -> ProbeAnswer {
        match probe {
            Probe::IsFile(p) => ProbeAnswer::Flag(self.files.contains(p)),
            Probe::IsDir(p) => ProbeAnswer::Flag(self.dirs.contains(p)),
            Probe::ListDir(p) => ProbeAnswer::Entries(if self.dirs.contains(p) { self.children(p) } else { Vec::new() }),
            Probe::RunMaxima(_) => ProbeAnswer::Output(String::new()),
        }
    }

    fn run(&self, mut search: PathSearch) -> Option<String> {
        loop {
            match search.next_step() {
                SearchStep::Done(found) => return found,
                SearchStep::Probe(p) => search.answer(self.answer(&p)),
            }
        }
    }
}

/// A resolver set up for `home` without Maxima: the fallback templates under
/// `home/.maxima` and the packages found under `home/.maxpack`.
fn resolver_with_home(fs: &FakeFs, home: &str) -> PathResolver {
    let mut scan = PackageScan::start(&join(home, ".maxpack"));
    while let Some(p) = scan.next_probe() {
        scan.answer(fs.answer(&p));
    }
    let mut r = PathResolver::new(None, None, None, Vec::new(), NameMap::new());
    r.finish_discovery(Some(home), fallback_templates(&join(home, ".maxima")), scan.packages());
    r
}

fn resolve(fs: &FakeFs, r: &PathResolver, name: &str, base: &str) -> Option<String> {
    fs.run(r.resolve(name, base))
}

#[test]
fn resolve_relative_mac_with_and_without_extension() {
    let dir = "/tmp/it_rel_mac";
    let mut fs = FakeFs::new();
    fs.add_file("/tmp/it_rel_mac/helper.mac");
    let r = resolver_with_home(&fs, dir);
    assert_eq!(resolve(&fs, &r, "helper", dir), Some("/tmp/it_rel_mac/helper.mac".to_string()));
    assert_eq!(resolve(&fs, &r, "helper.mac", dir), Some("/tmp/it_rel_mac/helper.mac".to_string()));
}

#[test]
fn resolve_absolute_path() {
    let dir = "/tmp/it_abs";
    let mut fs = FakeFs::new();
    fs.add_file("/tmp/it_abs/abs_helper.mac");
    let r = resolver_with_home(&fs, dir);
    assert_eq!(resolve(&fs, &r, "/tmp/it_abs/abs_helper.mac", "/tmp"), Some("/tmp/it_abs/abs_helper.mac".to_string()));
}

#[test]
fn resolve_lisp_extension() {
    let dir = "/tmp/it_lisp_ext";
    let mut fs = FakeFs::new();
    fs.add_file("/tmp/it_lisp_ext/pkg.lisp");
    let r = resolver_with_home(&fs, dir);
    assert_eq!(resolve(&fs, &r, "pkg", dir), Some("/tmp/it_lisp_ext/pkg.lisp".to_string()));
    assert_eq!(resolve(&fs, &r, "pkg.lisp", dir), Some("/tmp/it_lisp_ext/pkg.lisp".to_string()));
}

#[test]
fn resolve_does_not_match_directory_named_like_package() {
    let dir = "/tmp/it_dir_not_file";
    let name = "local_only_dir_pkg_xyz";
    let mut fs = FakeFs::new();
    fs.add_dir(&format!("{dir}/{name}"));
    let r = resolver_with_home(&fs, dir);
    assert!(resolve(&fs, &r, name, dir).is_none());
}

#[test]
fn resolve_missing_package_returns_none() {
    let dir = "/tmp/it_missing";
    let mut fs = FakeFs::new();
    fs.add_dir(dir);
    let r = resolver_with_home(&fs, dir);
    assert!(resolve(&fs, &r, "definitely_not_a_real_maxima_pkg_xyz", dir).is_none());
}

#[test]
fn resolve_nested_relative_path() {
    let dir = "/tmp/it_nested";
    let mut fs = FakeFs::new();
    fs.add_file("/tmp/it_nested/lib/utils.mac");
    let r = resolver_with_home(&fs, dir);
    assert_eq!(resolve(&fs, &r, "lib/utils", dir), Some("/tmp/it_nested/lib/utils.mac".to_string()));
    assert_eq!(resolve(&fs, &r, "lib/utils.mac", dir), Some("/tmp/it_nested/lib/utils.mac".to_string()));
}

#[test]
fn resolves_latest_init_mac() {
    let home = "/tmp/mp_latest";
    let mut fs = FakeFs::new();
    fs.add_file("/tmp/mp_latest/.maxpack/colors/latest/src/init.mac");
    let r = resolver_with_home(&fs, home);
    assert_eq!(resolve(&fs, &r, "colors", home), Some("/tmp/mp_latest/.maxpack/colors/latest/src/init.mac".to_string()));
}

#[test]
fn resolves_package_named_mac_under_latest() {
    let home = "/tmp/mp_named_mac";
    let mut fs = FakeFs::new();
    fs.add_file("/tmp/mp_named_mac/.maxpack/utils/latest/src/utils.mac");
    let r = resolver_with_home(&fs, home);
    assert_eq!(resolve(&fs, &r, "utils", home), Some("/tmp/mp_named_mac/.maxpack/utils/latest/src/utils.mac".to_string()));
}

#[test]
fn resolves_versioned_import() {
    let home = "/tmp/mp_versioned";
    let mut fs = FakeFs::new();
    fs.add_file("/tmp/mp_versioned/.maxpack/colors/1.0.0/src/init.mac");
    fs.add_file("/tmp/mp_versioned/.maxpack/colors/2.0.0/src/init.mac");
    fs.add_file("/tmp/mp_versioned/.maxpack/colors/latest/src/init.mac");
    let r = resolver_with_home(&fs, home);
    assert_eq!(
        fs.run(r.resolve_import("colors", Some("1.0.0"), home)),
        Some("/tmp/mp_versioned/.maxpack/colors/1.0.0/src/init.mac".to_string())
    );
    let latest = fs.run(r.resolve_import("colors", None, home));
    assert!(latest.as_ref().is_some_and(|p| p.contains("latest")), "got {latest:?}");
}

#[test]
fn skips_repo_bin_and_tmp_directories() {
    let home = "/tmp/mp_skip_dirs";
    let mut fs = FakeFs::new();
    for skip in ["repo", "bin", ".tmp"] {
        fs.add_file(&format!("{home}/.maxpack/{skip}/latest/src/init.mac"));
    }
    fs.add_file("/tmp/mp_skip_dirs/.maxpack/realpkg/latest/src/init.mac");
    let r = resolver_with_home(&fs, home);
    assert_eq!(resolve(&fs, &r, "realpkg", home), Some("/tmp/mp_skip_dirs/.maxpack/realpkg/latest/src/init.mac".to_string()));
    assert!(resolve(&fs, &r, "repo", home).is_none());
    assert!(resolve(&fs, &r, "bin", home).is_none());
}
