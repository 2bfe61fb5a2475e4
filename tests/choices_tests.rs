use voxweave::choices::{
    construct_prompt, format_subtitles, style_to_prompt_modifier, subtitle_mode_to_granularity,
    SubtitleFormat, SubtitleMode, VideoConfig, VideoFormat, VideoResolution, VideoStyle, VoiceFormat,
};
use voxweave::queue::SubtitleGranularity;
use voxweave::subtitle::SubtitleEntry;

#[test]
fn test_style_to_prompt_modifier() {
    assert_eq!(style_to_prompt_modifier(VideoStyle::Realistic), "Photorealistic cinematic video");
    assert_eq!(style_to_prompt_modifier(VideoStyle::Anime), "Anime-style animated video");
    assert_eq!(
        style_to_prompt_modifier(VideoStyle::Cyberpunk),
        "Cyberpunk neon cityscape with vibrant colors and futuristic aesthetics"
    );
}

#[test]
fn test_construct_prompt_with_custom() {
    let custom_prompt = Some("Epic space battle");
    let result = construct_prompt(VideoStyle::Cinematic, "base content", custom_prompt);
    assert_eq!(result, "Epic space battle");
}

#[test]
fn test_construct_prompt_without_custom() {
    let result = construct_prompt(VideoStyle::Cyberpunk, "a futuristic city", None);
    assert!(result.contains("Cyberpunk neon cityscape"));
    assert!(result.contains("a futuristic city"));
    assert_eq!(
        construct_prompt(VideoStyle::Anime, "cats", None),
        "Anime-style animated video depicting: cats"
    );
}

#[test]
fn test_resolution_conversion() {
    assert_eq!(VideoResolution::P720.as_str(), "720p");
    assert_eq!(VideoResolution::P1080.as_str(), "1080p");
    assert_eq!(VideoResolution::P4K.as_str(), "4k");
}

#[test]
fn test_video_config() {
    let config = VideoConfig {
        style: VideoStyle::Realistic,
        resolution: VideoResolution::P1080,
        format: VideoFormat::Mp4,
        prompt: Some("A cyberpunk cityscape".to_string()),
    };
    assert_eq!(config.style.as_str(), "realistic");
    assert_eq!(config.resolution.as_str(), "1080p");
    assert_eq!(config.format.as_str(), "mp4");
}

#[test]
fn test_subtitle_mode_as_str() {
    assert_eq!(SubtitleMode::Sentence.as_str(), "Sentence");
    assert_eq!(SubtitleMode::Paragraph.as_str(), "Paragraph");
    assert_eq!(SubtitleMode::Off.as_str(), "None");
}

#[test]
fn test_voice_format_as_str() {
    assert_eq!(VoiceFormat::Wav.as_str(), "wav");
    assert_eq!(VoiceFormat::Mp3.as_str(), "mp3");
    assert_eq!(VoiceFormat::Flac.as_str(), "flac");
}

#[test]
fn test_subtitle_format_as_str() {
    assert_eq!(SubtitleFormat::Ass.as_str(), "ass");
    assert_eq!(SubtitleFormat::Srt.as_str(), "srt");
    assert_eq!(SubtitleFormat::Vtt.as_str(), "vtt");
}

#[test]
fn names_parse_back_with_fallbacks() {
    assert_eq!(VideoStyle::from_str("3d"), VideoStyle::ThreeD);
    assert_eq!(VideoStyle::from_str("wan2.5-t2v-preview"), VideoStyle::Wan2_5);
    assert_eq!(VideoStyle::from_str("Anime"), VideoStyle::Realistic);
    assert_eq!(VideoResolution::from_str("4k"), VideoResolution::P4K);
    assert_eq!(VideoResolution::from_str("8k"), VideoResolution::P1080);
    assert_eq!(VideoFormat::from_str("webm"), VideoFormat::Webm);
    assert_eq!(VideoFormat::from_str("avi"), VideoFormat::Mp4);
}

#[test]
fn modes_and_formats_drive_captions() {
    assert_eq!(subtitle_mode_to_granularity(SubtitleMode::Paragraph), SubtitleGranularity::Sentence);
    assert_eq!(subtitle_mode_to_granularity(SubtitleMode::Off), SubtitleGranularity::Disabled);
    let e = vec![SubtitleEntry { index: 1, start_ms: 0, end_ms: 500, text: "x".into() }];
    assert_eq!(format_subtitles(&e, SubtitleFormat::Srt), "1\n00:00:00,000 --> 00:00:00,500\nx\n\n");
    assert!(format_subtitles(&e, SubtitleFormat::Vtt).starts_with("WEBVTT"));
    assert!(format_subtitles(&e, SubtitleFormat::Ass).contains("Dialogue: 0,0:00:00.00,0:00:00.50,Default,,0,0,0,,x"));
}
