use cyber_ninja_monitor::audio_manager::{AudioManager, CacheFile};
use cyber_ninja_monitor::encoding::{encode_key, encode_phrase, hex_lower, name_of_key};
use cyber_ninja_monitor::message_system::{CacheKey, PersonalitySettings};

const HOUR: u64 = 3_600_000_000;

fn file(path: &str, modified: u64) -> CacheFile {
    CacheFile { path: path.to_string(), modified }
}

#[test]
fn manager_directories() {
    let m = AudioManager::new();
    assert_eq!(m.cache_dir, "audio_cache");
    assert_eq!(m.archive_dir, "audio_archive");
    assert_eq!(m.metadata_file, "audio_cache/metadata.json");
    assert_eq!(AudioManager::join("a/b", "c.mp3"), "a/b/c.mp3");
}

#[test]
fn clip_path_is_the_digest_of_the_phrase() {
    let m = AudioManager::new();
    let mut p = PersonalitySettings::default();
    p.volume = 80;
    let path = m.get_audio_path("Test audio message", "test", &p);
    assert_eq!(
        path,
        "audio_cache/0592ecf2b8c506db018f85b2040fc1406c1a51bd76db16639da40d4f60845e51.mp3"
    );
    assert_eq!(
        AudioManager::audio_file_name("Test audio message", "test", &p),
        "0592ecf2b8c506db018f85b2040fc1406c1a51bd76db16639da40d4f60845e51.mp3"
    );
    // every input matters
    assert_ne!(m.get_audio_path("Test audio message", "alert", &p), path);
    assert_ne!(m.get_audio_path("Test audio messag", "etest", &p), path);
    p.volume = 81;
    assert_ne!(m.get_audio_path("Test audio message", "test", &p), path);
}

#[test]
fn key_names_are_digests_of_the_byte_form() {
    assert_eq!(
        hex_lower(&encode_key(&CacheKey::Dynamic("90".to_string()))),
        "010100000000000000020000003900000030"
    );
    assert_eq!(
        name_of_key(&CacheKey::Dynamic("90".to_string())),
        "a898157a161993e529708cd72eef0402427aa5c902c719ade6673dce3e7ec01b"
    );
    assert_eq!(
        name_of_key(&CacheKey::Full("full".to_string(), "Hi".to_string())),
        "d58ef4e27dafefb827b3b3bf70fef5729ec1e577bd36ec74925b790ed16a0d5e"
    );
    let mut p = PersonalitySettings::default();
    p.volume = -1;
    p.catchphrases = vec!["a".to_string(), "bc".to_string()];
    assert_eq!(
        hex_lower(&encode_key(&CacheKey::Static("H\u{e9}".to_string(), p))),
        "0100000000000000000200000048000000e90000000000000005000000610000006c0000006c0000006f\
         000000797fffffff80000064800000008000000080000000800000008000000080000000000000000000\
         0002000000000000000100000061000000000000000200000062000000630100"
    );
}

#[test]
fn phrase_bytes_start_with_version_and_tag() {
    let bytes = encode_phrase("", "", &PersonalitySettings::default());
    assert_eq!(&bytes[..2], &[1, 3]);
    assert_eq!(bytes.len(), 2 + 8 + 8 + (8 + 5 * 4) + 8 * 4 + 8 + 2);
}

#[test]
fn hex_is_lower_case_two_digits_per_byte() {
    assert_eq!(hex_lower(&vec![]), "");
    assert_eq!(hex_lower(&vec![0x00, 0x09, 0x0a, 0x9f, 0xa0, 0xff]), "00090a9fa0ff");
}

#[test]
fn metadata_is_found_only_for_its_own_text() {
    let m = AudioManager::new();
    let p = PersonalitySettings::default();
    let stored = Some(AudioManager::describe_audio("hello", "startup", &p, 42));
    let found = m.get_metadata(&stored, "hello").unwrap();
    assert_eq!(found.text, "hello");
    assert_eq!(found.trigger_type, "startup");
    assert_eq!(found.timestamp, 42);
    assert_eq!(found.personality_state, p);
    assert!(m.get_metadata(&stored, "hello ").is_none());
    assert!(m.get_metadata(&None, "hello").is_none());
}

#[test]
fn archiving_an_unknown_text_moves_nothing() {
    let m = AudioManager::new();
    let p = PersonalitySettings::default();
    let stored = Some(AudioManager::describe_audio("hello", "startup", &p, 42));
    assert!(m.archive_audio(&None, "hello").is_none());
    assert!(m.archive_audio(&stored, "goodbye").is_none());
    let moved = m.archive_audio(&stored, "hello").unwrap();
    let name = AudioManager::audio_file_name("hello", "startup", &p);
    assert_eq!(moved.source, format!("audio_cache/{}", name));
    assert_eq!(moved.destination, format!("audio_archive/{}", name));
}

#[test]
fn eviction_boundary_is_exclusive() {
    let now = 100 * HOUR;
    // exactly as old as the limit: stays
    assert!(!AudioManager::is_stale(now - 24 * HOUR, now, 24));
    // one microsecond older: goes
    assert!(AudioManager::is_stale(now - 24 * HOUR - 1, now, 24));
    // one microsecond younger: stays
    assert!(!AudioManager::is_stale(now - 24 * HOUR + 1, now, 24));
    // a limit of zero evicts everything with an age
    assert!(!AudioManager::is_stale(now, now, 0));
    assert!(AudioManager::is_stale(now - 1, now, 0));
    // a file from the future stays; a negative limit evicts nothing
    assert!(!AudioManager::is_stale(now + 1, now, 0));
    assert!(!AudioManager::is_stale(0, u64::MAX, -1));
    // a limit beyond every age evicts nothing
    assert!(!AudioManager::is_stale(0, u64::MAX, i64::MAX));
    assert!(AudioManager::is_stale(0, u64::MAX, 5_124_095_576));
    assert!(!AudioManager::is_stale(0, u64::MAX, 5_124_095_577));
}

#[test]
fn cleanup_lists_the_expired_files_in_scan_order() {
    let m = AudioManager::new();
    let now = 100 * HOUR;
    let files = vec![
        file("audio_cache/old.mp3", now - 3 * HOUR),
        file("audio_cache/edge.mp3", now - 2 * HOUR),
        file("audio_cache/new.mp3", now - 1),
        file("audio_cache/older.mp3", 0),
        file("audio_cache/future.mp3", now + HOUR),
    ];
    assert_eq!(
        m.cleanup_old_cache(&files, now, 2),
        vec!["audio_cache/old.mp3".to_string(), "audio_cache/older.mp3".to_string()]
    );
    assert!(m.cleanup_old_cache(&files, now, 100).is_empty());
    assert!(m.cleanup_old_cache(&files, now, -5).is_empty());
    assert!(m.cleanup_old_cache(&vec![], now, 0).is_empty());
    assert_eq!(m.cleanup_old_cache(&files, now, 0).len(), 4);
}

#[test]
fn eviction_by_age_in_microseconds() {
    let m = AudioManager::new();
    let files = vec![
        file("a", 1_000),
        file("b", 1_001),
        file("c", 999),
        file("d", 5_000),
    ];
    // at 2_000 with a limit of 1_000: "a" is exactly at the limit and stays,
    // "c" is one microsecond older and goes
    assert_eq!(m.evict_older_than(&files, 2_000, 1_000), vec!["c".to_string()]);
    assert_eq!(
        m.evict_older_than(&files, 2_000, 998),
        vec!["a".to_string(), "b".to_string(), "c".to_string()]
    );
    assert!(m.evict_older_than(&files, 2_000, u64::MAX).is_empty());
    assert_eq!(m.evict_older_than(&files, u64::MAX, 0).len(), 4);
    assert!(m.evict_older_than(&files, 0, 0).is_empty());
}
