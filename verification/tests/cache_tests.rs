use wasm_workflows_plugin::cache::{new_fs_cache, new_nop_cache, FSCache, ModuleCache};

#[test]
fn canonical_name_replaces_separators() {
    let name = FSCache::canonical_name("ghcr.io/x/echo:v1");
    assert_eq!(name, "ghcr.io-x-echo-v1");
    assert!(!name.contains('/'));
    assert!(!name.contains(':'));
}

#[test]
fn canonical_name_is_idempotent() {
    let once = FSCache::canonical_name("registry:5000/team/mod:latest");
    let twice = FSCache::canonical_name(once.as_str());
    assert_eq!(once, twice);
}

#[test]
fn get_after_put_returns_the_blob() {
    let mut cache = new_fs_cache("/var/cache/modules".to_string());
    let blob: Vec<u8> = vec![0, 1, 2, 3, 42, 255];
    cache.put("ghcr.io/x/echo:v1", blob.as_slice()).unwrap();
    let got = cache.get("ghcr.io/x/echo:v1").unwrap();
    assert_eq!(got, Some(blob));
}

#[test]
fn get_unknown_image_misses() {
    let cache = new_fs_cache("/var/cache/modules".to_string());
    assert_eq!(cache.get("unknown:v1").unwrap(), None);
}

#[test]
fn put_overwrites_previous_blob() {
    let mut cache = new_fs_cache("/var/cache/modules".to_string());
    cache.put("img:v1", &[1, 2, 3]).unwrap();
    cache.put("img:v1", &[9, 9]).unwrap();
    assert_eq!(cache.get("img:v1").unwrap(), Some(vec![9, 9]));
}

#[test]
fn compression_is_real() {
    // two MiB of zeros compress to well under one MiB on disk, so a purge
    // with a one-MiB budget keeps the entry
    let mut cache = new_fs_cache("/var/cache/modules".to_string());
    let blob = vec![0u8; 2 * 1024 * 1024];
    cache.put("big:v1", blob.as_slice()).unwrap();
    cache.purge(1).unwrap();
    assert_eq!(cache.get("big:v1").unwrap(), Some(blob));
}

#[test]
fn purge_drops_the_oldest_first() {
    let mut cache = new_fs_cache("/var/cache/modules".to_string());
    // incompressible-ish pseudo-random payloads of two MiB each
    let mut seed: u64 = 7;
    let mut payload = |n: usize| -> Vec<u8> {
        (0..n)
            .map(|_| {
                seed = seed.wrapping_mul(6364136223846793005).wrapping_add(1442695040888963407);
                (seed >> 33) as u8
            })
            .collect()
    };
    let old_blob = payload(2 * 1024 * 1024);
    let new_blob = payload(2 * 1024 * 1024);
    cache.put("old:v1", old_blob.as_slice()).unwrap();
    cache.put("new:v1", new_blob.as_slice()).unwrap();
    // each compressed entry is roughly two MiB; a two-MiB budget keeps only
    // the newest
    cache.purge(2).unwrap();
    assert_eq!(cache.get("old:v1").unwrap(), None);
    assert_eq!(cache.get("new:v1").unwrap(), Some(new_blob));
}

#[test]
fn purge_keeps_everything_the_budget_allows() {
    let mut cache = new_fs_cache("/var/cache/modules".to_string());
    let mut seed: u64 = 3;
    let mut payload = |n: usize| -> Vec<u8> {
        (0..n)
            .map(|_| {
                seed = seed.wrapping_mul(6364136223846793005).wrapping_add(1442695040888963407);
                (seed >> 33) as u8
            })
            .collect()
    };
    let old_blob = payload(2 * 1024 * 1024);
    let new_blob = payload(2 * 1024 * 1024);
    cache.put("old:v1", old_blob.as_slice()).unwrap();
    cache.put("new:v1", new_blob.as_slice()).unwrap();
    // a ten-MiB budget fits both entries, so neither may be deleted
    cache.purge(10).unwrap();
    assert_eq!(cache.get("old:v1").unwrap(), Some(old_blob));
    assert_eq!(cache.get("new:v1").unwrap(), Some(new_blob));
}

#[test]
fn purge_to_zero_empties_the_cache() {
    let mut cache = new_fs_cache("/var/cache/modules".to_string());
    let mut seed: u64 = 99;
    let blob: Vec<u8> = (0..(3 * 1024 * 1024))
        .map(|_| {
            seed = seed.wrapping_mul(6364136223846793005).wrapping_add(1442695040888963407);
            (seed >> 33) as u8
        })
        .collect();
    cache.put("img:v1", blob.as_slice()).unwrap();
    cache.purge(0).unwrap();
    assert_eq!(cache.get("img:v1").unwrap(), None);
}

#[test]
fn nop_cache_accepts_and_drops() {
    let mut cache = new_nop_cache();
    cache.put("img:v1", &[1, 2, 3]).unwrap();
    assert_eq!(cache.get("img:v1").unwrap(), None);
    cache.purge(100).unwrap();
}
