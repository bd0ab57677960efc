use std::collections::HashMap;

use blumbotron::assets::{asset_location, finish_delete, finish_get, finish_save, ReadOutcome, SaveFailure};
use blumbotron::cache::AssetCache;
use blumbotron::encoding::{decode_image_data, decode_payload, render};
use blumbotron::error::AssetError;

/// A store in memory that counts how often it is read.
struct Store {
    files: HashMap<String, Vec<u8>>,
    reads: usize,
}

impl Store {
    fn new() -> Store {
        Store { files: HashMap::new(), reads: 0 }
    }

    fn read(&mut self, name: &str) -> ReadOutcome {
        self.reads += 1;
        match self.files.get(name) {
            Some(bytes) => ReadOutcome::Found(bytes.clone()),
            None => ReadOutcome::Missing,
        }
    }
}

fn save(cache: &mut AssetCache, store: &mut Store, name: &str, bytes: &[u8]) -> Result<String, AssetError> {
    store.files.insert(name.to_string(), bytes.to_vec());
    finish_save(cache, name, Ok(asset_location(name)))
}

fn delete(cache: &mut AssetCache, store: &mut Store, name: &str) -> Result<(), AssetError> {
    store.files.remove(name);
    finish_delete(cache, name, Ok(()))
}

fn get(cache: &mut AssetCache, store: &mut Store, name: &str) -> Result<String, AssetError> {
    match cache.lookup(name) {
        Some(url) => Ok(url),
        None => {
            let read = store.read(name);
            finish_get(cache, name, read)
        }
    }
}

#[test]
fn saved_asset_is_served_and_decodes_back() {
    let mut cache = AssetCache::new();
    let mut store = Store::new();
    for name in ["a.png", "b.jpg", "odd name.gif", "noext", ""] {
        let bytes: Vec<u8> = name.bytes().chain([0u8, 255, 7]).collect();
        save(&mut cache, &mut store, name, &bytes).unwrap();
        let url = get(&mut cache, &mut store, name).unwrap();
        assert_eq!(decode_payload(&url), Some(bytes));
    }
}

#[test]
fn deleted_asset_is_not_found_even_if_it_was_cached() {
    let mut cache = AssetCache::new();
    let mut store = Store::new();
    save(&mut cache, &mut store, "gone.png", &[1, 2, 3]).unwrap();
    get(&mut cache, &mut store, "gone.png").unwrap();
    assert!(cache.contains("gone.png"));
    delete(&mut cache, &mut store, "gone.png").unwrap();
    assert!(!cache.contains("gone.png"));
    assert_eq!(
        get(&mut cache, &mut store, "gone.png"),
        Err(AssetError::NotFound("gone.png".to_string()))
    );
    assert!(!cache.contains("gone.png"));
    assert_eq!(cache.len(), 0);
}

#[test]
fn resaved_asset_is_never_served_stale() {
    let mut cache = AssetCache::new();
    let mut store = Store::new();
    save(&mut cache, &mut store, "bg.webp", &[1, 1, 1]).unwrap();
    let first = get(&mut cache, &mut store, "bg.webp").unwrap();
    assert_eq!(first, render("bg.webp", &[1, 1, 1]));
    save(&mut cache, &mut store, "bg.webp", &[2, 2, 2, 2]).unwrap();
    let second = get(&mut cache, &mut store, "bg.webp").unwrap();
    assert_eq!(second, render("bg.webp", &[2, 2, 2, 2]));
    assert_ne!(first, second);
    assert_eq!(second, "data:image/webp;base64,AgICAg==");
}

#[test]
fn background_scenario_with_ten_bytes() {
    let mut cache = AssetCache::new();
    let mut store = Store::new();
    let bytes: Vec<u8> = vec![10, 20, 30, 40, 50, 60, 70, 80, 90, 100];
    let path = save(&mut cache, &mut store, "bg1.png", &bytes).unwrap();
    assert_eq!(path, "images/bg1.png");
    assert_eq!(cache.clear(), 0);
    let first = get(&mut cache, &mut store, "bg1.png").unwrap();
    assert_eq!(first, "data:image/png;base64,ChQeKDI8RlBaZA==");
    assert_eq!(store.reads, 1);
    assert_eq!(cache.len(), 1);
    let second = get(&mut cache, &mut store, "bg1.png").unwrap();
    assert_eq!(second, first);
    assert_eq!(store.reads, 1);
    assert_eq!(cache.clear(), 1);
    assert_eq!(cache.len(), 0);
}

#[test]
fn failed_read_is_reported_and_caches_nothing() {
    let mut cache = AssetCache::new();
    let answer = finish_get(&mut cache, "x.png", ReadOutcome::Failed("disk on fire".to_string()));
    assert_eq!(
        answer,
        Err(AssetError::Io("Failed to read image file: disk on fire".to_string()))
    );
    assert_eq!(cache.len(), 0);
    let missing = finish_get(&mut cache, "x.png", ReadOutcome::Missing);
    assert_eq!(missing, Err(AssetError::NotFound("x.png".to_string())));
    assert_eq!(missing.unwrap_err().message(), "Image file not found: x.png");
    assert_eq!(cache.len(), 0);
}

#[test]
fn failed_save_is_reported_and_still_invalidates() {
    let mut cache = AssetCache::new();
    cache.store("a.png", "stale".to_string());
    let answer = finish_save(&mut cache, "a.png", Err(SaveFailure::Write("no space".to_string())));
    assert_eq!(answer, Err(AssetError::Io("Failed to write image file: no space".to_string())));
    assert!(!cache.contains("a.png"));

    cache.store("b.png", "stale".to_string());
    let answer = finish_save(&mut cache, "b.png", Err(SaveFailure::Directory("denied".to_string())));
    assert_eq!(
        answer,
        Err(AssetError::Io("Failed to create images directory: denied".to_string()))
    );
    assert!(!cache.contains("b.png"));
}

#[test]
fn failed_delete_is_reported_and_still_invalidates() {
    let mut cache = AssetCache::new();
    cache.store("a.png", "value".to_string());
    cache.store("b.png", "other".to_string());
    let answer = finish_delete(&mut cache, "a.png", Err("busy".to_string()));
    assert_eq!(answer, Err(AssetError::Io("Failed to delete image file: busy".to_string())));
    assert!(!cache.contains("a.png"));
    assert_eq!(cache.lookup("b.png"), Some("other".to_string()));
    assert_eq!(finish_delete(&mut cache, "never-there.png", Ok(())), Ok(()));
    assert_eq!(cache.len(), 1);
}

#[test]
fn image_data_is_decoded_or_refused() {
    assert_eq!(decode_image_data("AAECAwQFBgcICQ=="), Ok(vec![0, 1, 2, 3, 4, 5, 6, 7, 8, 9]));
    assert_eq!(decode_image_data(""), Ok(vec![]));
    match decode_image_data("not base64!") {
        Err(AssetError::Io(message)) => {
            assert!(message.starts_with("Failed to decode base64 image data: "));
            assert!(message.len() > "Failed to decode base64 image data: ".len());
        }
        other => panic!("unexpected {:?}", other),
    }
    assert!(decode_image_data("AAE").is_err());
}

#[test]
fn asset_location_is_under_images() {
    assert_eq!(asset_location("bg1.png"), "images/bg1.png");
    assert_eq!(asset_location(""), "images/");
}
