use mcsync::paths::{
    asset_index_dir, asset_index_path, asset_object_dir, asset_object_path, asset_object_url,
    basename_of, client_jar_path, library_dir, library_path, profile_dir,
};

#[test]
fn basename_of_url() {
    assert_eq!(basename_of("https://host/com/example/lib-1.0.jar"), "lib-1.0.jar");
}

#[test]
fn basename_without_slash_is_whole() {
    assert_eq!(basename_of("file.jar"), "file.jar");
}

#[test]
fn basename_of_trailing_slash_is_empty() {
    assert_eq!(basename_of("https://host/dir/"), "");
}

#[test]
fn asset_index_paths() {
    assert_eq!(asset_index_path("/r", "1.19"), "/r/assets/indexes/1.19");
    assert_eq!(asset_index_dir("/r"), "/r/assets/indexes");
}

#[test]
fn asset_object_sharding() {
    let hash = "da39a3ee5e6b4b0d3255bfef95601890afd80709";
    assert_eq!(
        asset_object_dir("/r", hash),
        "/r/assets/objects/da"
    );
    assert_eq!(
        asset_object_path("/r", hash),
        "/r/assets/objects/da/da39a3ee5e6b4b0d3255bfef95601890afd80709"
    );
    assert_eq!(
        asset_object_url("https://resources", hash),
        "https://resources/da/da39a3ee5e6b4b0d3255bfef95601890afd80709"
    );
}

#[test]
fn same_hash_same_path() {
    let hash = "a9993e364706816aba3e25717850c26c9cd0d89d";
    assert_eq!(asset_object_path("/r", hash), asset_object_path("/r", hash));
}

#[test]
fn client_paths() {
    assert_eq!(profile_dir("/r", "main"), "/r/profiles/main");
    assert_eq!(client_jar_path("/r", "main"), "/r/profiles/main/client.jar");
}

#[test]
fn library_paths() {
    assert_eq!(library_dir("/r", "com/example/lib-1.0"), "/r/libs/com/example/lib-1.0");
    assert_eq!(
        library_path("/r", "com/example/lib-1.0", "https://host/maven/lib-1.0.jar"),
        "/r/libs/com/example/lib-1.0/lib-1.0.jar"
    );
}
