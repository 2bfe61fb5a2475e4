use voxweave::pipeline::{plan_conversion, ConvertRequest};
use voxweave::queue::{QueueItem, SubtitleGranularity};
use voxweave::sanitize::OperatingSystem;
use voxweave::tts::{process_outcome, sample_rate_or_default, CoquiEngine, EspeakAction, EspeakEngine, KokoroEngine, TtsError, VoiceProfile};

fn request(g: SubtitleGranularity) -> ConvertRequest {
    ConvertRequest {
        source: "in/My Book.txt".into(),
        output_dir: "out".into(),
        voice: VoiceProfile::builtin("default", "Default"),
        speed_percent: 100,
        subtitle_granularity: g,
        replace_single_newlines: false,
        average_words_per_minute: 150,
        create_package: false,
        package_name: None,
    }
}

#[test]
fn plan_cleans_text_and_names_outputs() {
    let plan = plan_conversion(" Hello   world \n", Some("My Book"), &request(SubtitleGranularity::Disabled), OperatingSystem::Linux);
    assert_eq!(plan.cleaned, "Hello world");
    assert_eq!(plan.audio_file, "My Book.wav");
    assert_eq!(plan.subtitle_file, "My Book.srt");
    assert!(plan.subtitles.is_none());
    assert!(plan.package_file.is_none());
}

#[test]
fn plan_writes_captions_and_package_name() {
    let mut req = request(SubtitleGranularity::Sentence);
    req.create_package = true;
    let plan = plan_conversion("Hello world.", None, &req, OperatingSystem::Windows);
    assert_eq!(plan.base_name, "output");
    assert_eq!(plan.subtitles.as_deref(), Some("1\n00:00:00,000 --> 00:00:00,800\nHello world.\n\n"));
    assert_eq!(plan.package_file.as_deref(), Some("output.zip"));
    req.package_name = Some("bundle".into());
    let plan = plan_conversion("  ", Some("con"), &req, OperatingSystem::Windows);
    assert_eq!(plan.base_name, "_con");
    assert!(plan.subtitles.is_none());
    assert_eq!(plan.package_file.as_deref(), Some("bundle.zip"));
}

#[test]
fn queued_items_become_requests_at_150_wpm() {
    let item = QueueItem {
        source_path: "a.txt".into(),
        output_dir: "o".into(),
        voice: VoiceProfile::builtin("v", "V"),
        speed_percent: 120,
        subtitle_granularity: SubtitleGranularity::Words(3),
        replace_single_newlines: true,
    };
    let r = ConvertRequest::from_item(item);
    assert_eq!(r.average_words_per_minute, 150);
    assert_eq!(r.speed_percent, 120);
    assert!(!r.create_package);
}

#[test]
fn espeak_rate_is_scaled_and_clamped() {
    assert_eq!(EspeakEngine::normalized_speed(100), 175);
    assert_eq!(EspeakEngine::normalized_speed(10), 80);
    assert_eq!(EspeakEngine::normalized_speed(300), 450);
    assert_eq!(EspeakEngine::normalized_speed(150), 263);
}

#[test]
fn espeak_checks_the_voice_engine() {
    let e = EspeakEngine;
    let k = VoiceProfile::kokoro("af_heart", "Heart", "a");
    assert_eq!(e.prepare("hi", &k, 100), Err(TtsError::UnsupportedVoice("af_heart".into())));
    let v = VoiceProfile::espeak("es-es", "Spanish", Some("es"));
    assert_eq!(e.prepare(" \n", &v, 100), Ok(EspeakAction::WriteEmpty));
    assert_eq!(
        e.prepare("hola", &v, 100),
        Ok(EspeakAction::Speak { voice_name: "es".into(), rate: 175 })
    );
}

#[test]
fn kokoro_and_coqui_requests() {
    let k = KokoroEngine::new("python3".into(), "hexgrad/Kokoro-82M".into(), "cpu".into(), 24000, None);
    let q = k.request("hi", &VoiceProfile::kokoro("af_heart", "Heart", "a"), 100, "o.wav").unwrap();
    assert_eq!(q.lang_code, "a");
    assert_eq!(q.split_pattern.as_deref(), Some("\\n+"));
    let mut no_lang = VoiceProfile::kokoro("af_heart", "Heart", "a");
    no_lang.lang = None;
    assert_eq!(k.request("hi", &no_lang, 100, "o.wav").unwrap_err(), TtsError::Backend("kokoro voice missing language code".into()));
    assert!(matches!(k.request("hi", &VoiceProfile::builtin("x", "X"), 100, "o.wav"), Err(TtsError::UnsupportedVoice(_))));
    let c = CoquiEngine::new("python3".into(), "xtts".into(), "cpu".into(), 24000, "en".into());
    let r = c.request("hi", &VoiceProfile::coqui_clone("c", "C", "de", "/ref.wav"), 100, "o.wav").unwrap();
    assert_eq!(r.lang_code, "de");
    assert_eq!(r.speaker_wav.as_deref(), Some("/ref.wav"));
    assert_eq!(sample_rate_or_default(Some(0)), 24000);
    assert_eq!(sample_rate_or_default(Some(16000)), 16000);
    assert_eq!(sample_rate_or_default(None), 24000);
}

#[test]
fn process_outcome_reports_failures() {
    assert_eq!(process_outcome(true, "noise"), Ok(()));
    assert_eq!(process_outcome(false, "  boom \n"), Err(TtsError::CommandFailed("boom".into())));
    assert_eq!(TtsError::Backend("x".into()).message(), "audio backend error: x");
}
