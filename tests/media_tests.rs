use voxweave::mlt::{configure_cyberpunk_subtitle_style, escape_for_pango, escape_xml, generate_mlt_xml, create_mlt_project, file_name, wav_duration_ms, MltConfig, WavError};
use voxweave::package::{generate_root_readme, generate_video_readme};
use voxweave::subtitle::generate_word_timing;

#[test]
fn test_mlt_generation_basic() {
    let config = MltConfig { duration_ms: 10_000, ..Default::default() };
    let mlt = create_mlt_project("audio/test.wav", None, &config);
    assert!(mlt.contains("<?xml version=\"1.0\""));
    assert!(mlt.contains("<mlt"));
    assert!(mlt.contains("audio/test.wav"));
    assert!(mlt.contains("video/background.mp4"));
    assert!(mlt.contains("</mlt>"));
    assert!(mlt.contains("out=\"300\""));
    assert!(!mlt.contains("subtitle_producer"));
}

#[test]
fn test_mlt_with_subtitles() {
    let config = MltConfig { duration_ms: 10_000, ..Default::default() };
    let mlt = create_mlt_project("audio/test.wav", Some("subtitles/test.srt"), &config);
    assert!(mlt.contains("subtitles/test.srt"));
    assert!(mlt.contains("subtitle_producer"));
    assert!(mlt.contains("#00FFFF"));
    assert!(mlt.contains("Courier New"));
}

#[test]
fn test_cyberpunk_styling() {
    let style = configure_cyberpunk_subtitle_style();
    assert!(style.contains("#00FFFF"));
    assert!(style.contains("#8A2BE2"));
    assert!(style.contains("Courier New"));
    assert!(style.contains("monospace"));
    assert!(style.contains("glow"));
    assert!(style.contains("shadow"));
    assert!(style.contains("fade_in"));
}

#[test]
fn frames_round_up() {
    let config = MltConfig { duration_ms: 1_001, ..Default::default() };
    assert!(create_mlt_project("a.wav", None, &config).contains("out=\"31\""));
}

#[test]
fn file_names_follow_path_rules() {
    assert_eq!(file_name("dir/a.wav").as_deref(), Some("a.wav"));
    assert_eq!(file_name("dir/a.wav/").as_deref(), Some("a.wav"));
    assert_eq!(file_name("dir/./").as_deref(), Some("dir"));
    assert_eq!(file_name("dir/.."), None);
    assert_eq!(file_name("/"), None);
    assert_eq!(file_name(""), None);
}

#[test]
fn test_readme_generation() {
    let readme = generate_root_readme("test.wav", true);
    assert!(readme.contains("VoxWeave"));
    assert!(readme.contains("cyberpunk"));
    assert!(readme.contains("Kdenlive"));
    assert!(readme.contains("Audio track: test.wav"));
    let no_subs = generate_root_readme("x/y.wav", false);
    assert!(no_subs.contains("(SRT format) (disabled)"));
    assert!(no_subs.contains("Cyberpunk-styled captions (none)"));
}

#[test]
fn test_video_readme() {
    let readme = generate_video_readme();
    assert!(readme.contains("background.mp4"));
    assert!(readme.contains("5 seconds"));
    assert!(readme.contains("boomerang"));
}

fn header(byte_rate: u32) -> Vec<u8> {
    let mut h = vec![0u8; 44];
    h[0..4].copy_from_slice(b"RIFF");
    h[8..12].copy_from_slice(b"WAVE");
    h[28..32].copy_from_slice(&byte_rate.to_le_bytes());
    h
}

#[test]
fn wav_duration_from_header() {
    assert_eq!(wav_duration_ms(&header(48_000), 44 + 96_000), Ok(2_000));
    assert_eq!(wav_duration_ms(&header(3), 44 + 10), Ok(3_333));
    assert_eq!(wav_duration_ms(&header(0), 100), Err(WavError::ZeroByteRate));
    assert_eq!(wav_duration_ms(&header(1)[..43], 100), Err(WavError::TooShort));
    let mut bad = header(1);
    bad[0] = b'X';
    assert_eq!(wav_duration_ms(&bad, 100), Err(WavError::NotWav));
    assert_eq!(wav_duration_ms(&header(8), 10), Ok(0));
}

#[test]
fn word_timing_spreads_words_over_the_audio() {
    let words = generate_word_timing("one two three", 3_000);
    assert_eq!(words.len(), 3);
    assert_eq!((words[0].start_ms, words[0].end_ms), (0, 1_000));
    assert_eq!((words[1].start_ms, words[1].end_ms), (1_000, 2_000));
    assert_eq!((words[2].start_ms, words[2].end_ms), (2_000, 3_000));
    let short = generate_word_timing("a b", 60);
    assert_eq!((short[0].end_ms, short[1].start_ms, short[1].end_ms), (50, 50, 60));
    assert!(generate_word_timing("  ", 1000).is_empty());
}

#[test]
fn escaping_for_xml_and_pango() {
    assert_eq!(escape_xml("a<b>&\"c'"), "a&lt;b&gt;&amp;&quot;c&apos;");
    assert_eq!(escape_for_pango("a<b>&\"c'"), "a&lt;b&gt;&amp;\"c'");
    assert_eq!(escape_xml("plain"), "plain");
}

#[test]
fn word_highlight_script() {
    let words = generate_word_timing("Hi there", 2_000);
    let xml = generate_mlt_xml(None, "a&b.wav", &words, 1920, 1080);
    assert!(xml.starts_with("<?xml version=\"1.0\" encoding=\"utf-8\"?>\n<mlt>\n"));
    assert!(xml.contains("resource=\"color:black\""));
    assert!(xml.contains("<property name=\"width\">1920</property>"));
    assert!(xml.contains("resource=\"a&amp;b.wav\""));
    assert!(xml.contains("<producer id=\"word_0_1000\" resource=\"text:&lt;span foreground=&quot;#00FFFF&quot; weight=&quot;bold&quot;&gt;Hi&lt;/span&gt;\">"));
    assert!(xml.contains("text:Hi &lt;span"));
    assert!(xml.contains("<property name=\"size\">86</property>"));
    assert!(xml.contains("<entry producer=\"word_1000_2000\" in=\"0\" out=\"25\"/>"));
    assert!(xml.ends_with("  </tractor>\n</mlt>\n"));
    let with_video = generate_mlt_xml(Some("bg.mp4"), "a.wav", &[], 640, 480);
    assert!(with_video.contains("<producer id=\"video\" resource=\"bg.mp4\">"));
}
