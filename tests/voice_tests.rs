use voxweave::tts::{get_voice_profile, VoiceEngine, VoiceProfile};

#[test]
fn test_voice_profile_creation() {
    let voice = VoiceProfile::coqui("coqui-en", "English", "en");
    assert_eq!(voice.id, "coqui-en");
    assert_eq!(voice.engine, voxweave::tts::VoiceEngine::Coqui);
    assert_eq!(voice.lang, Some("en".to_string()));

    let clone_voice = VoiceProfile::coqui_clone(
        "clone-test",
        "Test Clone",
        "en",
        "/path/to/audio.wav",
    );
    assert_eq!(clone_voice.id, "clone-test");
    assert_eq!(clone_voice.engine, voxweave::tts::VoiceEngine::Coqui);
    assert_eq!(clone_voice.command, Some("/path/to/audio.wav".to_string()));
}

#[test]
fn engine_names() {
    assert_eq!(VoiceEngine::Espeak.as_str(), "espeak");
    assert_eq!(VoiceEngine::Kokoro.as_str(), "kokoro");
    assert_eq!(VoiceEngine::Coqui.as_str(), "coqui");
}

#[test]
fn builtin_voice_is_espeak_without_override() {
    let v = VoiceProfile::builtin("voice", "Voice");
    assert_eq!(v.engine, VoiceEngine::Espeak);
    assert_eq!(v.command, None);
    assert_eq!(v.lang, None);
    let e = VoiceProfile::espeak("es-es", "Spanish", Some("es"));
    assert_eq!(e.command.as_deref(), Some("es"));
    let k = VoiceProfile::kokoro("af_heart", "Heart", "a");
    assert_eq!(k.engine, VoiceEngine::Kokoro);
    assert_eq!(k.lang.as_deref(), Some("a"));
}

#[test]
fn front_end_voice_ids_map_to_profiles() {
    let c = get_voice_profile("coqui-zh-cn").unwrap();
    assert_eq!(c.engine, VoiceEngine::Coqui);
    assert_eq!(c.lang.as_deref(), Some("zh"));
    assert_eq!(c.description, "Coqui coqui-zh-cn");
    let cl = get_voice_profile("clone-me").unwrap();
    assert_eq!(cl.command.as_deref(), Some(""));
    assert_eq!(cl.lang.as_deref(), Some("en"));
    let k = get_voice_profile("jf_alpha").unwrap();
    assert_eq!(k.engine, VoiceEngine::Kokoro);
    assert_eq!(k.lang.as_deref(), Some("j"));
    assert!(get_voice_profile("xf_none").is_none());
    assert!(get_voice_profile("").is_none());
}
