use voxweave::tts::{
    default_voice_profiles, find_voice, format_voice_name, kokoro_language_description, VoiceEngine,
};
use voxweave::choices::VideoResolution;
use voxweave::video::{
    get_theme_css, next_poll, probe_gpu, task_status, video_model, video_size, AliyunVideoService,
    PollAction, PollFailure, TaskStatus, VideoGenerationService, ZAIVideoService, ZaiVideoService,
    MAX_POLL_ATTEMPTS,
};
use voxweave::voices::{get_all_coqui_voices, get_all_kokoro_voices, get_all_voices, get_voice_info, VoiceInfo};

#[test]
fn test_gpu_probe() {
    let available = probe_gpu();
    assert!(available == true || available == false);
}

#[test]
fn voice_names_are_title_cased() {
    assert_eq!(format_voice_name("af_heart"), "Heart");
    assert_eq!(format_voice_name("jf_gongitsune"), "Gongitsune");
    assert_eq!(format_voice_name("xx_mary-ann_extra"), "Mary-Ann");
    assert_eq!(format_voice_name("plain"), "plain");
    assert_eq!(format_voice_name("a_"), "");
    assert_eq!(format_voice_name("xx_mARY-ANN"), "Mary-Ann");
    assert_eq!(format_voice_name("xx_émile"), "Émile");
}

#[test]
fn default_profiles_list_espeak_then_kokoro() {
    let voices = default_voice_profiles();
    assert_eq!(voices.len(), 12 + 54);
    assert_eq!(voices[0].id, "en-us");
    assert_eq!(voices[3].command.as_deref(), Some("es"));
    let heart = find_voice(&voices, "af_heart").unwrap();
    assert_eq!(heart.engine, VoiceEngine::Kokoro);
    assert_eq!(heart.lang.as_deref(), Some("a"));
    assert_eq!(heart.description, "Heart (American English)");
    let z = find_voice(&voices, "zm_yunyang").unwrap();
    assert_eq!(z.description, "Yunyang (Mandarin Chinese)");
    assert!(find_voice(&voices, "nope").is_none());
}

#[test]
fn language_codes() {
    assert_eq!(kokoro_language_description("b"), "British English");
    assert_eq!(kokoro_language_description("q"), "Unknown");
    assert_eq!(kokoro_language_description("ab"), "Unknown");
}

#[test]
fn catalogue_holds_kokoro_and_coqui() {
    assert_eq!(get_all_kokoro_voices().len(), 54);
    assert_eq!(get_all_coqui_voices().len(), 16);
    let all = get_all_voices();
    assert_eq!(all.len(), 70);
    assert_eq!(all[54].engine, "coqui");
    let v = VoiceInfo::new("bf_emma");
    assert_eq!(v.display_name, "Emma");
    assert_eq!(v.language, "British English");
    assert_eq!(v.engine, "kokoro");
    let c = get_voice_info("coqui-ja").unwrap();
    assert_eq!(c.display_name, "Coqui Japanese");
    assert_eq!(c.language, "Japanese");
    assert_eq!(get_voice_info("hm_psi").unwrap().language, "Hindi");
    assert!(get_voice_info("zz_none").is_none());
}

#[test]
fn services_point_at_their_endpoints() {
    assert_eq!(ZAIVideoService::new("k".into()).base_url, "https://api.z.ai/api/paas/v4");
    assert_eq!(ZaiVideoService::new("k".into()).base_url, "https://api.z.ai/v1");
    assert_eq!(VideoGenerationService::new("k".into()).api_key, "k");
    assert!(AliyunVideoService::new("k".into()).base_url.contains("bailian"));
    assert!(get_theme_css().contains("--neon-cyan"));
}

#[test]
fn video_job_choices_and_polling() {
    use_video_items();
}

fn use_video_items() {
    assert_eq!(video_size(VideoResolution::P720), "1280x720");
    assert_eq!(video_size(VideoResolution::P4K), "3840x2160");
    assert_eq!(video_model(0), "vidu2-reference");
    assert_eq!(video_model(1), "vidu2-image");
    assert_eq!(video_model(2), "vidu2-start-end");
    assert_eq!(video_model(5), "vidu2-reference");
    assert_eq!(task_status("SUCCESS"), TaskStatus::Success);
    assert_eq!(task_status("queued"), TaskStatus::Unknown);
    assert_eq!(next_poll(0, None), PollAction::Retry { attempts: 1, progress: None });
    assert_eq!(
        next_poll(60, Some((TaskStatus::Processing, None))),
        PollAction::Retry { attempts: 61, progress: Some(55) }
    );
    assert_eq!(
        next_poll(3, Some((TaskStatus::Success, Some("u".into())))),
        PollAction::Finished("u".into())
    );
    assert_eq!(next_poll(3, Some((TaskStatus::Success, None))), PollAction::Failed(PollFailure::NoUrl));
    assert_eq!(next_poll(3, Some((TaskStatus::Fail, None))), PollAction::Failed(PollFailure::GenerationFailed));
    assert_eq!(next_poll(MAX_POLL_ATTEMPTS, None), PollAction::Failed(PollFailure::Timeout));
}
