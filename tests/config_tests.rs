use voxweave::config::{resolve_voice, select_voice, update_config, AppConfig};
use voxweave::tts::VoiceProfile;

fn voices() -> Vec<VoiceProfile> {
    vec![
        VoiceProfile::builtin("one", "One"),
        VoiceProfile::builtin("two", "Two"),
    ]
}

#[test]
fn default_config_is_empty() {
    let cfg = AppConfig::default();
    assert!(!cfg.replace_single_newlines);
    assert!(cfg.default_voice.is_none());
    assert!(cfg.recent_files.is_empty());
}

#[test]
fn resolve_and_select_voice() {
    let vs = voices();
    let mut cfg = AppConfig::default();
    assert!(resolve_voice(&vs, &cfg).is_none());
    assert_eq!(select_voice(&vs, &cfg, None).unwrap().id, "one");
    cfg.default_voice = Some("two".into());
    assert_eq!(resolve_voice(&vs, &cfg).unwrap().id, "two");
    assert_eq!(select_voice(&vs, &cfg, None).unwrap().id, "two");
    assert_eq!(select_voice(&vs, &cfg, Some("one")).unwrap().id, "one");
    assert!(select_voice(&vs, &cfg, Some("three")).is_none());
    cfg.default_voice = Some("gone".into());
    assert_eq!(select_voice(&vs, &cfg, None).unwrap().id, "one");
}

#[test]
fn recent_files_are_deduplicated_and_bounded() {
    let vs = voices();
    let mut cfg = AppConfig::default();
    for i in 0..12 {
        update_config(&mut cfg, &vs[1], Some(&format!("f{i}.txt")), true);
    }
    assert_eq!(cfg.recent_files.len(), 10);
    assert_eq!(cfg.recent_files[0], "f11.txt");
    assert_eq!(cfg.recent_files[9], "f2.txt");
    update_config(&mut cfg, &vs[0], Some("f5.txt"), false);
    assert_eq!(cfg.recent_files[0], "f5.txt");
    assert_eq!(cfg.recent_files.iter().filter(|f| *f == "f5.txt").count(), 1);
    assert_eq!(cfg.recent_files.len(), 10);
    assert_eq!(cfg.default_voice.as_deref(), Some("one"));
    assert!(!cfg.replace_single_newlines);
    let before = cfg.recent_files.clone();
    update_config(&mut cfg, &vs[1], None, true);
    assert_eq!(cfg.recent_files, before);
}
