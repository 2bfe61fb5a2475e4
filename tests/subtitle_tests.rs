use voxweave::queue::SubtitleGranularity;
use voxweave::subtitle::{
    format_ass, format_vtt, format_srt, format_timestamp, generate_subtitles, split_sentences, split_words, SubtitleEntry,
};

#[test]
fn disabled_granularity_yields_no_entries() {
    let entries = generate_subtitles("Hello world", SubtitleGranularity::Disabled, 150);
    assert!(entries.is_empty());
}

#[test]
fn sentences_are_split_correctly() {
    let text = "Hello world. This is a test!";
    let entries = generate_subtitles(text, SubtitleGranularity::Sentence, 150);
    let texts: Vec<_> = entries.iter().map(|entry| entry.text.as_str()).collect();
    assert_eq!(texts, vec!["Hello world.", "This is a test!"]);
}

#[test]
fn words_grouped_by_chunk_size() {
    let text = "one two three four five";
    let entries = generate_subtitles(text, SubtitleGranularity::Words(2), 180);
    let texts: Vec<_> = entries.iter().map(|entry| entry.text.as_str()).collect();
    assert_eq!(texts, vec!["one two", "three four", "five"]);
}

#[test]
fn srt_formatting_is_correct() {
    let entries = vec![
        SubtitleEntry {
            index: 1,
            start_ms: 0,
            end_ms: 2000,
            text: "Hello world.".into(),
        },
        SubtitleEntry {
            index: 2,
            start_ms: 2000,
            end_ms: 4000,
            text: "This is a test.".into(),
        },
    ];
    let srt = format_srt(&entries);
    let expected = "1\n00:00:00,000 --> 00:00:02,000\nHello world.\n\n2\n00:00:02,000 --> 00:00:04,000\nThis is a test.\n\n";
    assert_eq!(srt, expected);
}

#[test]
fn sentence_timing_follows_word_count() {
    // 2 words at 150 wpm: 800 ms; 4 words: 1600 ms.
    let entries = generate_subtitles("Hello world. This is a test!", SubtitleGranularity::Sentence, 150);
    assert_eq!(entries.len(), 2);
    assert_eq!((entries[0].index, entries[0].start_ms, entries[0].end_ms), (1, 0, 800));
    assert_eq!((entries[1].index, entries[1].start_ms, entries[1].end_ms), (2, 800, 2400));
}

#[test]
fn short_chunks_last_half_a_second() {
    let entries = generate_subtitles("a b c", SubtitleGranularity::Words(1), 600);
    assert_eq!(entries.iter().map(|e| e.end_ms - e.start_ms).collect::<Vec<_>>(), vec![500, 500, 500]);
}

#[test]
fn non_positive_wpm_means_150() {
    let a = generate_subtitles("one two three", SubtitleGranularity::Words(3), 0);
    let b = generate_subtitles("one two three", SubtitleGranularity::Words(3), -5);
    assert_eq!(a[0].end_ms, 1200);
    assert_eq!(b[0].end_ms, 1200);
}

#[test]
fn duration_rounds_to_nearest_millisecond() {
    // 1 word at 7 wpm: 8571.43 ms -> 8571; 1 word at 16 wpm: 3750 ms.
    let a = generate_subtitles("x", SubtitleGranularity::Words(1), 7);
    assert_eq!(a[0].end_ms, 8571);
    let b = generate_subtitles("one two", SubtitleGranularity::Words(2), 16);
    assert_eq!(b[0].end_ms, 7500);
}

#[test]
fn entries_are_contiguous() {
    let text = "One. Two words! Three more words? And a tail without end";
    for g in [SubtitleGranularity::Sentence, SubtitleGranularity::Words(2)] {
        let entries = generate_subtitles(text, g, 130);
        assert!(!entries.is_empty());
        assert_eq!(entries[0].start_ms, 0);
        for pair in entries.windows(2) {
            assert_eq!(pair[0].end_ms, pair[1].start_ms);
        }
        for e in &entries {
            assert!(e.end_ms > e.start_ms);
        }
    }
}

#[test]
fn whitespace_only_text_gives_no_entries() {
    assert!(generate_subtitles("  \n ", SubtitleGranularity::Sentence, 150).is_empty());
}

#[test]
fn zero_word_chunk_size_is_treated_as_one() {
    let entries = generate_subtitles("a b", SubtitleGranularity::Words(0), 150);
    let texts: Vec<_> = entries.iter().map(|e| e.text.as_str()).collect();
    assert_eq!(texts, vec!["a", "b"]);
}

#[test]
fn word_groups_rejoin_to_the_words() {
    let text = "  alpha beta\tgamma\n delta  epsilon ";
    let words: Vec<&str> = text.split_whitespace().collect();
    for n in 1..7 {
        let chunks = split_words(text, n);
        let rejoined: Vec<String> = chunks
            .iter()
            .flat_map(|c| c.split(' ').map(|w| w.to_string()))
            .collect();
        assert_eq!(rejoined, words);
    }
}

#[test]
fn repeated_terminators_are_skipped() {
    assert_eq!(split_sentences("Wait... what?"), vec!["Wait.", "what?"]);
    assert_eq!(split_sentences("no end"), vec!["no end"]);
}

#[test]
fn timestamps_are_padded() {
    assert_eq!(format_timestamp(3_723_004), "01:02:03,004");
    assert_eq!(format_timestamp(0), "00:00:00,000");
}

#[test]
fn vtt_and_ass_formats() {
    let entries = vec![SubtitleEntry { index: 1, start_ms: 3_723_456, end_ms: 3_724_000, text: "Hi.".into() }];
    assert_eq!(format_vtt(&entries), "WEBVTT\n\n1\n01:02:03.456 --> 01:02:04.000\nHi.\n\n");
    let ass = format_ass(&entries);
    assert!(ass.starts_with("[Script Info]\nTitle: Generated Subtitles\n"));
    assert!(ass.ends_with("[Events]\nFormat: Layer, Start, End, Style, Name, MarginL, MarginR, MarginV, Effect, Text\nDialogue: 0,1:02:03.45,1:02:04.00,Default,,0,0,0,,Hi.\n"));
    assert_eq!(format_vtt(&[]), "WEBVTT\n\n");
}

#[test]
fn disabled_needs_no_text_bound_and_gives_nothing_for_any_rate() {
    for wpm in [-1, 0, 150, i32::MAX] {
        assert!(generate_subtitles("One. Two three!", SubtitleGranularity::Disabled, wpm).is_empty());
    }
}
