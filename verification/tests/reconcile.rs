use mcsync::manifest::{
    AssetIndexEntry, AssetObjectEntry, ClientArtifact, Library, Manifest, NativeClassifiers,
    Platform, RemoteArtifact,
};
use mcsync::reconcile::{build_plan, decide, plan_checks, CheckItem, FileProbe, ManifestError};

// SHA-1 of the empty byte string and of b"abc": digests a test can satisfy
// with real content.
const EMPTY_SHA1: &str = "da39a3ee5e6b4b0d3255bfef95601890afd80709";
const ABC_SHA1: &str = "a9993e364706816aba3e25717850c26c9cd0d89d";

fn manifest_with(libraries: Vec<Library>) -> Manifest {
    Manifest {
        asset_index: AssetIndexEntry {
            id: "1.19".to_string(),
            url: "https://meta/indexes/1.19.json".to_string(),
        },
        client: ClientArtifact {
            url: "https://meta/client.jar".to_string(),
            sha1: EMPTY_SHA1.to_string(),
        },
        libraries,
    }
}

fn asset(name: &str, hash: &str) -> AssetObjectEntry {
    AssetObjectEntry {
        name: name.to_string(),
        hash: hash.to_string(),
        size: 1,
    }
}

fn artifact(url: &str, sha1: &str, path: Option<&str>) -> RemoteArtifact {
    RemoteArtifact {
        url: url.to_string(),
        sha1: sha1.to_string(),
        path: path.map(|p| p.to_string()),
    }
}

#[test]
fn missing_asset_is_planned_into_its_shard() {
    // One declared asset, 40 hex chars starting "aa", and no local file:
    // the plan holds exactly one entry, bound for the "aa" shard.
    let hash = "aaaaaaaaaaaaaaaaaaaaaaaaaaaaaaaaaaaaaaa0";
    let m = manifest_with(vec![]);
    let assets = vec![asset("a", hash)];
    let items = plan_checks("/r", "https://resources", "main", &m, &assets, Platform::Linux)
        .expect("manifest is well formed");
    assert_eq!(items.len(), 3);
    let probes = vec![
        FileProbe::Content(vec![]),
        FileProbe::Missing,
        FileProbe::Content(vec![]),
    ];
    let plan = build_plan(&items, &probes);
    assert_eq!(plan.len(), 1);
    let url = format!("https://resources/aa/{}", hash);
    assert_eq!(plan.get_dir(&url), Some(&"/r/assets/objects/aa".to_string()));
}

#[test]
fn second_run_with_nothing_changed_plans_nothing() {
    // Reconcile against an empty tree, then against a tree holding exactly
    // what the first plan fetched: the second plan is empty.
    let m = manifest_with(vec![]);
    let assets = vec![asset("a", ABC_SHA1)];
    let items = plan_checks("/r", "https://resources", "main", &m, &assets, Platform::Linux)
        .expect("manifest is well formed");

    let before = vec![FileProbe::Missing, FileProbe::Missing, FileProbe::Missing];
    let first = build_plan(&items, &before);
    assert_eq!(first.len(), 3);

    let after = vec![
        FileProbe::Content(b"index document".to_vec()),
        FileProbe::Content(b"abc".to_vec()),
        FileProbe::Content(vec![]),
    ];
    let second = build_plan(&items, &after);
    assert!(second.is_empty());
}

#[test]
fn corrupted_file_is_planned_again() {
    // Content exists at the resolved path but its digest is not the
    // declared one: the entry is fetched again.
    let m = manifest_with(vec![]);
    let assets = vec![asset("a", ABC_SHA1)];
    let items = plan_checks("/r", "https://resources", "main", &m, &assets, Platform::Linux)
        .expect("manifest is well formed");
    let probes = vec![
        FileProbe::Content(vec![]),
        FileProbe::Content(b"not abc".to_vec()),
        FileProbe::Content(vec![]),
    ];
    let plan = build_plan(&items, &probes);
    assert_eq!(plan.len(), 1);
    let url = format!("https://resources/a9/{}", ABC_SHA1);
    assert!(plan.contains_url(&url));
}

#[test]
fn unreadable_and_directory_probes_mean_fetch() {
    let item = CheckItem {
        path: "/r/x".to_string(),
        dir: "/r".to_string(),
        url: "https://host/x".to_string(),
        expected: Some(ABC_SHA1.to_string()),
    };
    assert!(decide(&item, &FileProbe::Missing));
    assert!(decide(&item, &FileProbe::Directory));
    assert!(decide(&item, &FileProbe::Unreadable));
    assert!(!decide(&item, &FileProbe::Content(b"abc".to_vec())));
    assert!(decide(&item, &FileProbe::Content(b"abcd".to_vec())));
}

#[test]
fn asset_index_is_gated_on_existence_alone() {
    // The index has no published digest: any readable content is kept,
    // absence is fetched.
    let item = CheckItem {
        path: "/r/assets/indexes/1.19".to_string(),
        dir: "/r/assets/indexes".to_string(),
        url: "https://meta/indexes/1.19.json".to_string(),
        expected: None,
    };
    assert!(!decide(&item, &FileProbe::Content(b"whatever drifted".to_vec())));
    assert!(decide(&item, &FileProbe::Missing));
}

#[test]
fn duplicate_hashes_collapse_to_one_plan_entry() {
    // Two logical names declaring one hash resolve to one path and one URL,
    // and the plan carries the content once.
    let m = manifest_with(vec![]);
    let assets = vec![asset("a", ABC_SHA1), asset("b", ABC_SHA1)];
    let items = plan_checks("/r", "https://resources", "main", &m, &assets, Platform::Linux)
        .expect("manifest is well formed");
    assert_eq!(items[1].path, items[2].path);
    let probes = vec![
        FileProbe::Content(vec![]),
        FileProbe::Missing,
        FileProbe::Missing,
        FileProbe::Content(vec![]),
    ];
    let plan = build_plan(&items, &probes);
    assert_eq!(plan.len(), 1);
}

#[test]
fn only_the_current_platform_classifier_is_considered() {
    let lib = Library {
        artifact: None,
        classifiers: Some(NativeClassifiers {
            linux: Some(artifact(
                "https://host/n/linux.jar",
                EMPTY_SHA1,
                Some("n/linux"),
            )),
            osx: Some(artifact("https://host/n/osx.jar", EMPTY_SHA1, Some("n/osx"))),
            windows: Some(artifact(
                "https://host/n/windows.jar",
                EMPTY_SHA1,
                Some("n/windows"),
            )),
        }),
    };
    let m = manifest_with(vec![lib]);
    let assets = vec![];
    let items = plan_checks("/r", "https://resources", "main", &m, &assets, Platform::Linux)
        .expect("manifest is well formed");
    // Index, client, and the one native classifier of the running platform:
    // the other two platforms' entries are never even checked.
    assert_eq!(items.len(), 3);
    assert_eq!(items[2].url, "https://host/n/linux.jar");
    assert!(items.iter().all(|i| i.url != "https://host/n/osx.jar"));
    assert!(items.iter().all(|i| i.url != "https://host/n/windows.jar"));

    // Even with every local file corrupted, the foreign classifiers stay
    // out of the plan.
    let probes = vec![FileProbe::Missing, FileProbe::Missing, FileProbe::Missing];
    let plan = build_plan(&items, &probes);
    assert_eq!(plan.len(), 3);
    assert!(!plan.contains_url(&"https://host/n/osx.jar".to_string()));
    assert!(!plan.contains_url(&"https://host/n/windows.jar".to_string()));
}

#[test]
fn other_platforms_need_no_paths() {
    // A malformed classifier of a foreign platform does not abort the run:
    // it is never evaluated.
    let lib = Library {
        artifact: None,
        classifiers: Some(NativeClassifiers {
            linux: Some(artifact(
                "https://host/n/linux.jar",
                EMPTY_SHA1,
                Some("n/linux"),
            )),
            osx: Some(artifact("https://host/n/osx.jar", "not a digest", None)),
            windows: None,
        }),
    };
    let m = manifest_with(vec![lib]);
    let assets = vec![];
    let r = plan_checks("/r", "https://resources", "main", &m, &assets, Platform::Linux);
    assert!(r.is_ok());
    let r_osx = plan_checks("/r", "https://resources", "main", &m, &assets, Platform::Osx);
    assert!(r_osx.is_err());
}

#[test]
fn library_artifact_resolves_under_its_relative_path() {
    let lib = Library {
        artifact: Some(artifact(
            "https://host/maven/lib-1.0.jar",
            EMPTY_SHA1,
            Some("com/example/lib-1.0"),
        )),
        classifiers: None,
    };
    let m = manifest_with(vec![lib]);
    let assets = vec![];
    let items = plan_checks("/r", "https://resources", "main", &m, &assets, Platform::Linux)
        .expect("manifest is well formed");
    assert_eq!(items[2].path, "/r/libs/com/example/lib-1.0/lib-1.0.jar");
    assert_eq!(items[2].dir, "/r/libs/com/example/lib-1.0");
}

#[test]
fn library_without_artifact_contributes_nothing() {
    let lib = Library {
        artifact: None,
        classifiers: None,
    };
    let m = manifest_with(vec![lib]);
    let assets = vec![];
    let items = plan_checks("/r", "https://resources", "main", &m, &assets, Platform::Linux)
        .expect("manifest is well formed");
    assert_eq!(items.len(), 2);
}

#[test]
fn artifact_without_path_is_a_manifest_error() {
    let lib = Library {
        artifact: Some(artifact("https://host/maven/lib-1.0.jar", EMPTY_SHA1, None)),
        classifiers: None,
    };
    let m = manifest_with(vec![lib]);
    let assets = vec![];
    let r = plan_checks("/r", "https://resources", "main", &m, &assets, Platform::Linux);
    assert_eq!(r.err(), Some(ManifestError::MissingArtifactPath));
}

#[test]
fn malformed_asset_digest_is_a_manifest_error() {
    let m = manifest_with(vec![]);
    let assets = vec![asset("a", "xyz")];
    let r = plan_checks("/r", "https://resources", "main", &m, &assets, Platform::Linux);
    assert_eq!(r.err(), Some(ManifestError::MalformedDigest));
}

#[test]
fn malformed_client_digest_is_a_manifest_error() {
    let mut m = manifest_with(vec![]);
    m.client.sha1 = "UPPERCASE-IS-NOT-CANONICAL".to_string();
    let assets = vec![];
    let r = plan_checks("/r", "https://resources", "main", &m, &assets, Platform::Linux);
    assert_eq!(r.err(), Some(ManifestError::MalformedDigest));
}

#[test]
fn walk_order_is_index_assets_client_libraries() {
    let lib = Library {
        artifact: Some(artifact(
            "https://host/maven/lib-1.0.jar",
            EMPTY_SHA1,
            Some("com/example/lib-1.0"),
        )),
        classifiers: None,
    };
    let m = manifest_with(vec![lib]);
    let assets = vec![asset("a", ABC_SHA1)];
    let items = plan_checks("/r", "https://resources", "main", &m, &assets, Platform::Linux)
        .expect("manifest is well formed");
    assert_eq!(items.len(), 4);
    assert_eq!(items[0].path, "/r/assets/indexes/1.19");
    assert_eq!(items[0].expected, None);
    assert_eq!(items[1].path, format!("/r/assets/objects/a9/{}", ABC_SHA1));
    assert_eq!(items[1].expected, Some(ABC_SHA1.to_string()));
    assert_eq!(items[2].path, "/r/profiles/main/client.jar");
    assert_eq!(items[2].expected, Some(EMPTY_SHA1.to_string()));
    assert_eq!(items[3].path, "/r/libs/com/example/lib-1.0/lib-1.0.jar");
}
