use permute::output_table::{find_key_position, insert_sorted};
use permute::cache::{AudioCache, LruCache, RmsCache, RmsCacheKey, DEFAULT_MAX_MEMORY_BYTES, MAX_CACHE_SIZE_BYTES};

fn paths(cache: &AudioCache<Vec<f32>>) -> Vec<String> {
    cache.cache.entries.iter().map(|e| e.key.clone()).collect()
}

fn rms_key(file: &str, window_ms: f64) -> RmsCacheKey {
    RmsCacheKey { file: file.to_string(), window_size_bits: window_ms.to_bits(), target_length: 1000, target_sample_rate: 44100 }
}

#[test]
fn default_sizes_are_one_gibibyte() {
    assert_eq!(DEFAULT_MAX_MEMORY_BYTES, 1024 * 1024 * 1024);
    assert_eq!(MAX_CACHE_SIZE_BYTES, 1024 * 1024 * 1024);
    let a: AudioCache<Vec<f32>> = AudioCache::default();
    assert_eq!(a.cache.max_size, DEFAULT_MAX_MEMORY_BYTES);
    assert_eq!(a.cache.current_size, 0);
    let r: RmsCache<Vec<f64>> = RmsCache::new();
    assert_eq!(r.cache.max_size, MAX_CACHE_SIZE_BYTES);
}

#[test]
fn audio_cache_stores_and_finds() {
    let mut c: AudioCache<Vec<f32>> = AudioCache::with_max_memory(100);
    assert!(!c.lookup(&"a.wav".to_string(), 1));
    assert!(c.store("a.wav".to_string(), vec![0.5], 40, 1));
    assert!(c.lookup(&"a.wav".to_string(), 2));
    assert_eq!(c.samples(&"a.wav".to_string()), Some(&vec![0.5]));
    assert_eq!(c.samples(&"b.wav".to_string()), None);
    assert_eq!(c.cache.current_size, 40);
    assert_eq!(c.cache.entries[0].last_accessed, 2);
}

#[test]
fn audio_cache_evicts_least_recently_used() {
    let mut c: AudioCache<Vec<f32>> = AudioCache::with_max_memory(100);
    assert!(c.store("a.wav".to_string(), vec![1.0], 40, 1));
    assert!(c.store("b.wav".to_string(), vec![2.0], 40, 2));
    // Using a makes b the least recently used.
    assert!(c.lookup(&"a.wav".to_string(), 3));
    assert!(c.store("c.wav".to_string(), vec![3.0], 40, 4));
    assert_eq!(paths(&c), vec!["a.wav".to_string(), "c.wav".to_string()]);
    assert_eq!(c.cache.current_size, 80);
    assert!(c.cache.current_size <= c.cache.max_size);
}

#[test]
fn audio_cache_refuses_what_is_larger_than_the_cache() {
    let mut c: AudioCache<Vec<f32>> = AudioCache::with_max_memory(100);
    assert!(c.store("a.wav".to_string(), vec![1.0], 60, 1));
    assert!(!c.store("huge.wav".to_string(), vec![9.0], 101, 2));
    assert_eq!(paths(&c), vec!["a.wav".to_string()]);
    assert_eq!(c.cache.current_size, 60);
    // Exactly the size of the cache fits, after evicting everything else.
    assert!(c.store("full.wav".to_string(), vec![1.0], 100, 3));
    assert_eq!(paths(&c), vec!["full.wav".to_string()]);
    assert_eq!(c.cache.current_size, 100);
}

#[test]
fn audio_cache_clear_file_and_clear() {
    let mut c: AudioCache<Vec<f32>> = AudioCache::with_max_memory(100);
    c.store("a.wav".to_string(), vec![1.0], 10, 1);
    c.store("b.wav".to_string(), vec![2.0], 10, 2);
    c.clear_file(&"a.wav".to_string());
    assert_eq!(paths(&c), vec!["b.wav".to_string()]);
    assert!(!c.lookup(&"a.wav".to_string(), 3));
    c.clear_file(&"missing.wav".to_string());
    assert_eq!(paths(&c), vec!["b.wav".to_string()]);
    c.clear();
    assert!(c.cache.entries.is_empty());
    assert_eq!(c.cache.current_size, 0);
    assert_eq!(c.cache.max_size, 100);
}

#[test]
fn storing_the_same_path_replaces_the_samples() {
    let mut c: AudioCache<Vec<f32>> = AudioCache::with_max_memory(100);
    c.store("a.wav".to_string(), vec![1.0], 10, 1);
    c.store("a.wav".to_string(), vec![2.0], 20, 2);
    assert_eq!(paths(&c), vec!["a.wav".to_string()]);
    assert_eq!(c.samples(&"a.wav".to_string()), Some(&vec![2.0]));
    assert_eq!(c.cache.entries[0].size_bytes, 20);
}

#[test]
fn lru_cache_ensure_space_and_remove() {
    let mut c: LruCache<String, u32> = LruCache::new(30);
    c.insert("x".to_string(), 1, 10, 5);
    c.insert("y".to_string(), 2, 10, 3);
    c.insert("z".to_string(), 3, 10, 9);
    c.ensure_space(15);
    // y (used at 3) and then x (used at 5) go; z stays.
    let keys: Vec<String> = c.entries.iter().map(|e| e.key.clone()).collect();
    assert_eq!(keys, vec!["z".to_string()]);
    assert_eq!(c.current_size, 10);
    c.ensure_space(20);
    assert_eq!(c.entries.len(), 1);
    assert_eq!(c.find(&"z".to_string()), Some(0));
    assert!(c.touch(&"z".to_string(), 11));
    assert!(!c.touch(&"q".to_string(), 11));
    assert_eq!(c.get(&"z".to_string()), Some(&3));
    c.remove_key(&"z".to_string());
    assert!(c.entries.is_empty());
    assert_eq!(c.current_size, 0);
}

#[test]
fn rms_cache_keys_by_every_field() {
    let mut c: RmsCache<Vec<f64>> = RmsCache::new();
    c.insert_rms(rms_key("s.wav", 10.0), vec![0.1, 0.2], 16, 1);
    assert_eq!(c.get_rms(&rms_key("s.wav", 10.0), 2), Some(&vec![0.1, 0.2]));
    assert_eq!(c.cache.entries[0].last_accessed, 2);
    assert_eq!(c.get_rms(&rms_key("s.wav", 20.0), 3), None);
    let mut other_length = rms_key("s.wav", 10.0);
    other_length.target_length = 999;
    assert_eq!(c.get_rms(&other_length, 3), None);
    c.insert_rms(rms_key("s.wav", 10.0), vec![0.3], 8, 4);
    assert_eq!(c.cache.entries.len(), 1);
    assert_eq!(c.get_rms(&rms_key("s.wav", 10.0), 5), Some(&vec![0.3]));
}

#[test]
fn rms_cache_skips_envelopes_larger_than_the_cache() {
    let mut c: RmsCache<Vec<f64>> = RmsCache::new();
    c.insert_rms(rms_key("big.wav", 10.0), vec![0.0], MAX_CACHE_SIZE_BYTES + 1, 1);
    assert!(c.cache.entries.is_empty());
    assert_eq!(c.cache.current_size, 0);
}

#[test]
fn output_table_stays_sorted_and_overwrites() {
    let mut t: Vec<((usize, usize), &str)> = Vec::new();
    insert_sorted(&mut t, (1, 2), "b");
    insert_sorted(&mut t, (0, 5), "a");
    insert_sorted(&mut t, (1, 1), "c");
    insert_sorted(&mut t, (1, 2), "d");
    assert_eq!(t, vec![((0, 5), "a"), ((1, 1), "c"), ((1, 2), "d")]);
    assert_eq!(find_key_position(&t, (1, 1)), 1);
    assert_eq!(find_key_position(&t, (0, 9)), 1);
    assert_eq!(find_key_position(&t, (2, 0)), 3);
    assert_eq!(find_key_position(&t, (0, 0)), 0);
}

#[test]
fn rms_cache_evicts_only_until_the_envelope_fits() {
    let mut c: RmsCache<Vec<f64>> = RmsCache::new();
    let third = MAX_CACHE_SIZE_BYTES / 3;
    c.insert_rms(rms_key("a.wav", 10.0), vec![0.1], third, 1);
    c.insert_rms(rms_key("b.wav", 10.0), vec![0.2], third, 2);
    c.insert_rms(rms_key("c.wav", 10.0), vec![0.3], third, 3);
    assert_eq!(c.cache.entries.len(), 3);
    // Using a makes b the least recently used; only b goes.
    assert!(c.get_rms(&rms_key("a.wav", 10.0), 4).is_some());
    c.insert_rms(rms_key("d.wav", 10.0), vec![0.4], third, 5);
    assert_eq!(c.cache.entries.len(), 3);
    assert!(c.get_rms(&rms_key("b.wav", 10.0), 6).is_none());
    assert!(c.get_rms(&rms_key("a.wav", 10.0), 7).is_some());
    assert!(c.get_rms(&rms_key("c.wav", 10.0), 8).is_some());
    assert_eq!(c.cache.current_size, 3 * third);
    assert!(c.cache.current_size <= c.cache.max_size);
}

#[test]
fn audio_cache_keeps_everything_when_the_samples_fit() {
    let mut c: AudioCache<Vec<f32>> = AudioCache::with_max_memory(100);
    assert!(c.store("a.wav".to_string(), vec![1.0], 30, 1));
    assert!(c.store("b.wav".to_string(), vec![2.0], 30, 2));
    assert!(c.store("c.wav".to_string(), vec![3.0], 40, 3));
    assert_eq!(paths(&c), vec!["a.wav".to_string(), "b.wav".to_string(), "c.wav".to_string()]);
    assert_eq!(c.cache.current_size, 100);
    // One more byte evicts the least recently used entry only.
    assert!(c.store("d.wav".to_string(), vec![4.0], 1, 4));
    assert_eq!(paths(&c), vec!["b.wav".to_string(), "c.wav".to_string(), "d.wav".to_string()]);
    assert_eq!(c.cache.current_size, 71);
}
