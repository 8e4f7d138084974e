use eva_core::profile::UserProfile;

#[test]
fn test_default_profile() {
    let profile = UserProfile::default();
    assert_eq!(profile.name, "User");
    assert_eq!(profile.language, "en-US");
    assert_eq!(profile.voice_speed_milli as f32 / 1000.0, 1.0);
    assert_eq!(profile.wake_word_sensitivity_milli as f32 / 1000.0, 0.6);
}

#[test]
fn test_preferences() {
    let mut profile = UserProfile::default();

    profile.set_preference("theme", "dark");
    assert_eq!(profile.get_preference("theme"), Some(&"dark".to_string()));

    profile.set_preference("notifications", "enabled");
    assert_eq!(profile.get_preference("notifications"), Some(&"enabled".to_string()));
}

#[test]
fn test_language_update() {
    let mut profile = UserProfile::default();
    profile.set_language("pt-BR");
    assert_eq!(profile.language, "pt-BR");
}

#[test]
fn test_sensitivity_clamping() {
    let mut profile = UserProfile::default();

    profile.set_wake_word_sensitivity(1500);
    assert_eq!(profile.wake_word_sensitivity_milli as f32 / 1000.0, 1.0);

    profile.set_wake_word_sensitivity(-500);
    assert_eq!(profile.wake_word_sensitivity_milli as f32 / 1000.0, 0.0);
}

#[test]
fn test_voice_speed_clamping() {
    let mut profile = UserProfile::default();

    profile.set_voice_speed(3000);
    assert_eq!(profile.voice_speed_milli as f32 / 1000.0, 2.0);

    profile.set_voice_speed(100);
    assert_eq!(profile.voice_speed_milli as f32 / 1000.0, 0.5);
}

#[test]
fn test_preference_overwrite() {
    let mut profile = UserProfile::default();
    profile.set_preference("theme", "dark");
    profile.set_preference("theme", "light");
    assert_eq!(profile.get_preference("theme"), Some(&"light".to_string()));
    assert_eq!(profile.preference_pairs().len(), 1);
}

#[test]
fn test_custom_wake_word() {
    let mut profile = UserProfile::default();
    assert!(profile.custom_wake_word.is_none());
    profile.set_custom_wake_word(Some("eva".to_string()));
    assert_eq!(profile.custom_wake_word, Some("eva".to_string()));
}
