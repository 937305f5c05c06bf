use move_mv_llvm_compiler::package::{
    check_local_dependency, collect_account_addresses, custom_repository_dir, dependency_root, git_repository_dir,
    local_path, path_to_string, replace_slashes, repository_path, url_to_file_name, CustomDepInfo,
    Dependency, DependencyInfo, DependencyKind, DependencyRef, DependencyWalker, GitInfo,
    PackageError, SourceManifest,
};

fn local(path: &str) -> Dependency {
    Dependency { kind: DependencyKind::Local(path.to_string()) }
}

fn git(url: &str) -> Dependency {
    Dependency {
        kind: DependencyKind::Git(GitInfo {
            git_url: url.to_string(),
            git_rev: "main".to_string(),
            subdir: "".to_string(),
        }),
    }
}

fn manifest(name: &str, deps: Vec<(&str, Dependency)>, dev_deps: Vec<(&str, Dependency)>) -> SourceManifest {
    SourceManifest {
        package_name: name.to_string(),
        addresses: None,
        dev_address_assignments: None,
        dependencies: deps.into_iter().map(|(n, d)| (n.to_string(), d)).collect(),
        dev_dependencies: dev_deps.into_iter().map(|(n, d)| (n.to_string(), d)).collect(),
    }
}

#[test]
fn only_local_dependencies_are_allowed() {
    assert_eq!(check_local_dependency(&local("../a")), Ok(()));
    assert_eq!(check_local_dependency(&git("https://x")), Err(PackageError::NonLocalDependency));
}

#[test]
fn paths_must_be_unicode() {
    assert_eq!(path_to_string(b"/tmp/a.move"), Ok("/tmp/a.move".to_string()));
    assert_eq!(path_to_string("/tmp/é".as_bytes()), Ok("/tmp/é".to_string()));
    assert_eq!(path_to_string(&[0x2f, 0xff, 0xfe]), Err(PackageError::NonUnicodePath));
}

#[test]
fn url_file_names() {
    assert_eq!(
        url_to_file_name("https://github.com/move-language/move.git"),
        "https___github_com_move-language_move_git"
    );
    assert_eq!(url_to_file_name("git@host:org/repo"), "git_host_org_repo");
    assert_eq!(url_to_file_name("plain"), "plain");
}

#[test]
fn repository_directory_names() {
    assert_eq!(replace_slashes("feature/x/y"), "feature__x__y");
    assert_eq!(replace_slashes("v1"), "v1");
    assert_eq!(git_repository_dir("https___h_r", "release/1"), "https___h_r_release__1");
    assert_eq!(custom_repository_dir("http___node", "0x1", "Pkg"), "http___node_0x1_Pkg");
}

#[test]
fn repository_and_local_paths() {
    let home = "/home/u/.move";
    assert_eq!(
        repository_path(&DependencyKind::Local("../dep".to_string()), home),
        vec!["../dep".to_string()]
    );
    let g = DependencyKind::Git(GitInfo {
        git_url: "https://github.com/a/b.git".to_string(),
        git_rev: "dev/1".to_string(),
        subdir: "pkg".to_string(),
    });
    assert_eq!(
        repository_path(&g, home),
        vec![home.to_string(), "https___github_com_a_b_git_dev__1".to_string()]
    );
    assert_eq!(
        local_path(&g, home),
        vec![home.to_string(), "https___github_com_a_b_git_dev__1".to_string(), "pkg".to_string()]
    );
    let c = DependencyKind::Custom(CustomDepInfo {
        node_url: "http://node.io".to_string(),
        package_address: "0x2".to_string(),
        package_name: "Coin".to_string(),
        subdir: "s".to_string(),
    });
    assert_eq!(
        local_path(&c, home),
        vec![home.to_string(), "http___node_io_0x2_Coin".to_string(), "s".to_string()]
    );
    assert_eq!(local_path(&DependencyKind::Local("d".to_string()), home), vec!["d".to_string()]);
}

#[test]
fn named_addresses_by_mode() {
    let mut m1 = manifest("A", vec![], vec![]);
    m1.addresses = Some(vec![
        ("a".to_string(), Some(vec![1])),
        ("unset".to_string(), None),
        ("b".to_string(), Some(vec![2])),
    ]);
    m1.dev_address_assignments = Some(vec![("unset".to_string(), vec![9])]);
    let mut m2 = manifest("B", vec![], vec![]);
    m2.addresses = Some(vec![("c".to_string(), Some(vec![3]))]);
    let deps = vec![
        DependencyInfo { source_manifest: m1, path: b"/a".to_vec() },
        DependencyInfo { source_manifest: m2, path: b"/b".to_vec() },
    ];
    // Outside development mode `unset` has no value.
    assert_eq!(collect_account_addresses(&deps, false), Err(PackageError::UnassignedAddress));
    // In development mode every listed name gets an address.
    assert_eq!(
        collect_account_addresses(&deps, true),
        Ok(vec![
            ("a".to_string(), vec![1]),
            ("b".to_string(), vec![2]),
            ("unset".to_string(), vec![9]),
            ("c".to_string(), vec![3]),
        ])
    );
}

#[test]
fn every_listed_name_gets_an_address() {
    let mut m1 = manifest("A", vec![], vec![]);
    m1.addresses = Some(vec![("a".to_string(), Some(vec![1])), ("b".to_string(), Some(vec![2]))]);
    let mut m2 = manifest("B", vec![], vec![]);
    m2.addresses = Some(vec![("c".to_string(), Some(vec![3]))]);
    let deps = vec![
        DependencyInfo { source_manifest: m1, path: b"/a".to_vec() },
        DependencyInfo { source_manifest: m2, path: b"/b".to_vec() },
    ];
    assert_eq!(
        collect_account_addresses(&deps, false),
        Ok(vec![("a".to_string(), vec![1]), ("b".to_string(), vec![2]), ("c".to_string(), vec![3])])
    );
    // A name declared without a value in one package is assigned by another.
    let mut m3 = manifest("C", vec![], vec![]);
    m3.addresses = Some(vec![("a".to_string(), None)]);
    let mut m1b = manifest("A", vec![], vec![]);
    m1b.addresses = Some(vec![("a".to_string(), Some(vec![1])), ("b".to_string(), Some(vec![2]))]);
    let deps2 = vec![
        DependencyInfo { source_manifest: m1b, path: b"/a".to_vec() },
        DependencyInfo { source_manifest: m3, path: b"/c".to_vec() },
    ];
    assert_eq!(
        collect_account_addresses(&deps2, false),
        Ok(vec![("a".to_string(), vec![1]), ("b".to_string(), vec![2])])
    );
    // A package declaring one name without a value gives an error, not an empty result.
    let mut m4 = manifest("D", vec![], vec![]);
    m4.addresses = Some(vec![("x".to_string(), None)]);
    let deps3 = vec![DependencyInfo { source_manifest: m4, path: b"/d".to_vec() }];
    assert_eq!(collect_account_addresses(&deps3, false), Err(PackageError::UnassignedAddress));
}

#[test]
fn walker_follows_dependencies_depth_first() {
    let mut w = DependencyWalker::new(false);
    assert!(w.visit(manifest("Root", vec![("A", local("a")), ("B", local("b"))], vec![("T", local("t"))]), b"/r".to_vec()));
    // A is taken up first.
    let d = w.next_request().unwrap().unwrap();
    assert_eq!(d, DependencyRef { package: 0, dev: false, index: 0 });
    assert_eq!(w.dependency(d).0, "A");
    assert!(w.visit(manifest("A", vec![("C", local("c"))], vec![]), b"/r/a".to_vec()));
    // A's own dependency C comes before Root's second dependency B.
    let d = w.next_request().unwrap().unwrap();
    assert_eq!(w.dependency(d).0, "C");
    assert_eq!(w.package(d.package).path, b"/r/a".to_vec());
    assert!(w.visit(manifest("C", vec![], vec![]), b"/r/a/c".to_vec()));
    let d = w.next_request().unwrap().unwrap();
    assert_eq!(w.dependency(d).0, "B");
    // B names A again: it is recorded once only.
    assert!(!w.visit(manifest("A", vec![], vec![]), b"/r/b".to_vec()));
    // Development dependencies are not followed outside development mode.
    assert!(w.next_request().is_none());
    let names: Vec<String> = w.into_packages().into_iter().map(|p| p.source_manifest.package_name).collect();
    assert_eq!(names, vec!["Root", "A", "C"]);
}

#[test]
fn walker_follows_dev_dependencies_in_dev_mode() {
    let mut w = DependencyWalker::new(true);
    assert!(w.visit(manifest("Root", vec![("A", local("a"))], vec![("T", local("t"))]), b"/r".to_vec()));
    let d = w.next_request().unwrap().unwrap();
    assert_eq!(w.dependency(d).0, "A");
    assert!(w.visit(manifest("A", vec![], vec![]), b"/r/a".to_vec()));
    let d = w.next_request().unwrap().unwrap();
    assert_eq!(d, DependencyRef { package: 0, dev: true, index: 0 });
    assert_eq!(w.dependency(d).0, "T");
}

#[test]
fn walker_rejects_remote_dependencies() {
    let mut w = DependencyWalker::new(false);
    assert!(w.visit(manifest("Root", vec![("G", git("https://g"))], vec![]), b"/r".to_vec()));
    assert_eq!(w.next_request(), Some(Err(PackageError::NonLocalDependency)));
    assert_eq!(w.next_request(), None);
}

#[test]
fn dependency_roots_join_parent_and_local_path() {
    let home = "/home/u/.move";
    assert_eq!(dependency_root(b"/r", &DependencyKind::Local("a".to_string()), home), b"/r/a".to_vec());
    assert_eq!(dependency_root(b"/r/", &DependencyKind::Local("a".to_string()), home), b"/r/a".to_vec());
    assert_eq!(dependency_root(b"/r", &DependencyKind::Local("../x/y".to_string()), home), b"/r/../x/y".to_vec());
    assert_eq!(dependency_root(b"", &DependencyKind::Local("a".to_string()), home), b"a".to_vec());
    // An absolute local path replaces the parent's directory.
    assert_eq!(dependency_root(b"/r", &DependencyKind::Local("/abs/p".to_string()), home), b"/abs/p".to_vec());
    let g = DependencyKind::Git(GitInfo {
        git_url: "https://github.com/a/b.git".to_string(),
        git_rev: "dev/1".to_string(),
        subdir: "pkg".to_string(),
    });
    assert_eq!(
        dependency_root(b"/r", &g, home),
        b"/home/u/.move/https___github_com_a_b_git_dev__1/pkg".to_vec()
    );
}

#[test]
fn walker_reads_dependencies_below_their_parent() {
    let mut w = DependencyWalker::new(false);
    assert!(w.visit(manifest("Root", vec![("A", local("deps/a"))], vec![]), b"/r".to_vec()));
    let d = w.next_request().unwrap().unwrap();
    assert_eq!(w.child_root(d, "/home"), b"/r/deps/a".to_vec());
    assert!(w.visit(manifest("A", vec![("B", local("../b"))], vec![]), b"/r/deps/a".to_vec()));
    let d = w.next_request().unwrap().unwrap();
    assert_eq!(w.child_root(d, "/home"), b"/r/deps/a/../b".to_vec());
}

#[test]
fn failed_resolution_keeps_what_it_reached() {
    let mut w = DependencyWalker::new(false);
    assert!(w.visit(manifest("Root", vec![("A", local("a")), ("G", git("https://g"))], vec![]), b"/r".to_vec()));
    let d = w.next_request().unwrap().unwrap();
    assert!(w.visit(manifest("A", vec![], vec![]), b"/r/a".to_vec()));
    assert_eq!(d.index, 0);
    assert_eq!(w.next_request(), Some(Err(PackageError::NonLocalDependency)));
    let names: Vec<String> = w.into_packages().into_iter().map(|p| p.source_manifest.package_name).collect();
    assert_eq!(names, vec!["Root", "A"]);
}
