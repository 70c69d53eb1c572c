use sitegen::store::AssetStore;

#[test]
fn asset_path_is_hash_hex_and_extension() {
    let mut store = AssetStore::new();
    let path = store.store_asset(b"abc".to_vec(), "webp");
    // 64-bit FNV-1a of "abc", as 16 hex digits
    assert_eq!(path, "assets/e71fa2190541574b.webp");
}

#[test]
fn storing_identical_content_twice_keeps_one_entry() {
    let mut store = AssetStore::new();
    let p1 = store.store_asset(vec![1, 2, 3, 4], "webp");
    let p2 = store.store_asset(vec![1, 2, 3, 4], "webp");
    assert_eq!(p1, p2);
    assert_eq!(store.assets.len(), 1);
}

#[test]
fn first_write_determines_the_extension() {
    let mut store = AssetStore::new();
    let p1 = store.store_asset(vec![9, 9, 9], "webp");
    let p2 = store.store_asset(vec![9, 9, 9], "png");
    assert_eq!(p1, p2);
    assert!(p2.ends_with(".webp"));
}

#[test]
fn different_content_gets_different_paths() {
    let mut store = AssetStore::new();
    let p1 = store.store_asset(vec![1], "webp");
    let p2 = store.store_asset(vec![2], "webp");
    assert_ne!(p1, p2);
    assert_eq!(store.assets.len(), 2);
}
