use eva_core::executor::{mem_percent, replace_all, sanitize_path, split_uptime};
use eva_core::keys::select_key;

#[test]
fn test_sanitize_plain_name() {
    assert_eq!(sanitize_path("test.txt"), b"test.txt".to_vec());
}

#[test]
fn test_sanitize_traversal_attempts() {
    assert_eq!(sanitize_path("../etc/passwd"), b"etc/passwd".to_vec());
    assert_eq!(sanitize_path("/etc/passwd"), b"etc/passwd".to_vec());
    assert_eq!(sanitize_path("~/.bashrc"), b".bashrc".to_vec());
    assert_eq!(sanitize_path("foo/../../../etc/passwd"), b"foo/etc/passwd".to_vec());
    assert_eq!(sanitize_path("test\0.txt"), b"test.txt".to_vec());
    assert_eq!(sanitize_path("....//etc/passwd"), b"etc/passwd".to_vec());
}

#[test]
fn test_sanitize_result_has_no_traversal() {
    for path in [
        "../etc/passwd",
        "..\\..\\windows\\system32",
        "....//etc/passwd",
        "/etc/passwd",
        "~/.bashrc",
        "foo/../../../etc/passwd",
        "test\0.txt",
    ] {
        let cleaned = sanitize_path(path);
        assert!(!cleaned.windows(2).any(|w| w == b".."), "{:?} kept traversal", path);
        assert!(!cleaned.contains(&0), "{:?} kept a null byte", path);
        assert!(cleaned.first() != Some(&b'/'), "{:?} kept a leading slash", path);
        assert!(cleaned.first() != Some(&b'\\'), "{:?} kept a leading backslash", path);
    }
}

#[test]
fn test_replace_all_non_overlapping() {
    assert_eq!(replace_all(b"....", b"..", b""), b"".to_vec());
    assert_eq!(replace_all(b"aaa", b"aa", b"b"), b"ba".to_vec());
    assert_eq!(replace_all(b"a//b//c", b"//", b"/"), b"a/b/c".to_vec());
}

#[test]
fn test_mem_percent_exact() {
    assert_eq!(mem_percent(0, 100), 0);
    assert_eq!(mem_percent(50, 200), 25);
    assert_eq!(mem_percent(100, 100), 100);
    assert_eq!(mem_percent(1, 3), 33);
}

#[test]
fn test_split_uptime_exact() {
    assert_eq!(split_uptime(0), (0, 0));
    assert_eq!(split_uptime(3661), (1, 1));
    assert_eq!(split_uptime(7325), (2, 2));
}

#[test]
fn test_select_key_prefers_supplied() {
    let key = select_key(
        Some(b"0123456789abcdef".to_vec()),
        Some(b"alice".to_vec()),
        Some(b"host1".to_vec()),
    );
    assert_eq!(key, b"0123456789abcdef".to_vec());
}

#[test]
fn test_select_key_short_supplied_falls_back() {
    let key = select_key(
        Some(b"short".to_vec()),
        Some(b"alice".to_vec()),
        Some(b"host1".to_vec()),
    );
    assert_eq!(key, b"eva_tm_alice_host1_secret".to_vec());
}

#[test]
fn test_select_key_defaults() {
    let key = select_key(None, None, None);
    assert_eq!(key, b"eva_tm_eva_user_eva_host_secret".to_vec());
}
