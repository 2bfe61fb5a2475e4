//! The conversion of one text: what gets written where, decided before any
//! file is touched. Reading the source, running the speech engine and writing
//! the outputs are left to the caller.
use vstd::prelude::*;

use crate::chars::{push_str, string_of};
use crate::queue::{QueueItem, SubtitleGranularity};
use crate::sanitize::{sanitize_name_for, sanitized_name, OperatingSystem};
use crate::subtitle::{chunk_counts, chunk_texts, effective_wpm, format_srt, generate_subtitles, laid_out, srt_text, SubtitleEntry};
use crate::text::{clean_text, normalized};
use crate::chars::trim;
use crate::tts::VoiceProfile;

verus! {

/// A conversion of the text file `source` into `output_dir`.
/// `speed_percent` is the speaking speed in hundredths; subtitles are timed
/// at `average_words_per_minute`.
#[derive(Debug, Clone)]
pub struct ConvertRequest {
    pub source: String,
    pub output_dir: String,
    pub voice: VoiceProfile,
    pub speed_percent: u32,
    pub subtitle_granularity: SubtitleGranularity,
    pub replace_single_newlines: bool,
    pub average_words_per_minute: i32,
    pub create_package: bool,
    pub package_name: Option<String>,
}

/// Speaking rate assumed for queued conversions.
pub const QUEUE_WORDS_PER_MINUTE: i32 = 150;

impl ConvertRequest {
    /// The request for a queued job: timed at 150 words per minute, without
    /// packaging.
    pub fn from_item(item: QueueItem) -> (r: ConvertRequest)
        ensures
            r.source == item.source_path,
            r.output_dir == item.output_dir,
            r.voice == item.voice,
            r.speed_percent == item.speed_percent,
            r.subtitle_granularity == item.subtitle_granularity,
            r.replace_single_newlines == item.replace_single_newlines,
            r.average_words_per_minute == QUEUE_WORDS_PER_MINUTE,
            !r.create_package,
            r.package_name is None,
    {
        ConvertRequest {
            source: item.source_path,
            output_dir: item.output_dir,
            voice: item.voice,
            speed_percent: item.speed_percent,
            subtitle_granularity: item.subtitle_granularity,
            replace_single_newlines: item.replace_single_newlines,
            average_words_per_minute: QUEUE_WORDS_PER_MINUTE,
            create_package: false,
            package_name: None,
        }
    }
}

/// Everything a conversion writes, relative to the output directory.
#[derive(Debug, Clone)]
pub struct ConversionPlan {
    /// The normalized text handed to the speech engine.
    pub cleaned: String,
    /// The sanitized base name of the outputs.
    pub base_name: String,
    /// `<base>.wav`.
    pub audio_file: String,
    /// `<base>.srt`.
    pub subtitle_file: String,
    /// The SRT document, when there are captions to write.
    pub subtitles: Option<String>,
    /// `<package>.zip`, when a package is requested.
    pub package_file: Option<String>,
}

pub open spec fn base_source(stem: Option<Seq<char>>) -> Seq<char> {
    match stem {
        Some(s) => s,
        None => "output"@,
    }
}

fn with_suffix(base: &String, suffix: &str) -> (r: String)
    ensures
        r@ == base@ + suffix@,
{
    let mut v: Vec<char> = Vec::new();
    push_str(&mut v, base.as_str());
    push_str(&mut v, suffix);
    string_of(&v)
}

/// Plans the conversion of the source text `text`, whose file stem is `stem`
/// (`None` when the path has none that is valid text), on `os`: the text is
/// normalized; the outputs are named from the sanitized stem (`output` when
/// there is none); captions are written when the granularity cuts the text
/// into at least one chunk; a package is named after `package_name`, or the
/// base name.
pub fn plan_conversion(
    text: &str,
    stem: Option<&str>,
    request: &ConvertRequest,
    os: OperatingSystem,
) -> (r: ConversionPlan)
    requires
        text@.len() <= u32::MAX,
    ensures
        r.cleaned@ == normalized(text@, request.replace_single_newlines),
        r.base_name@ == sanitized_name(
            base_source(match stem { Some(s) => Some(s@), None => None }),
            os,
            false,
        ),
        r.audio_file@ == r.base_name@ + ".wav"@,
        r.subtitle_file@ == r.base_name@ + ".srt"@,
        r.subtitles is Some <==> trim(r.cleaned@).len() > 0 && chunk_texts(
            r.cleaned@,
            request.subtitle_granularity,
        ).len() > 0,
        r.subtitles matches Some(s) ==> exists|entries: Seq<SubtitleEntry>|
            laid_out(
                entries,
                chunk_texts(r.cleaned@, request.subtitle_granularity),
                chunk_counts(r.cleaned@, request.subtitle_granularity),
                effective_wpm(request.average_words_per_minute),
            ) && s@ == srt_text(entries),
        request.create_package ==> (r.package_file matches Some(p) && p@ == (match request.package_name {
            Some(n) => n@,
            None => r.base_name@,
        }) + ".zip"@),
        !request.create_package ==> r.package_file is None,
{
    let cleaned = clean_text(text, request.replace_single_newlines);
    let base_name = match stem {
        Some(s) => sanitize_name_for(s, os, false),
        None => sanitize_name_for("output", os, false),
    };
    let audio_file = with_suffix(&base_name, ".wav");
    let subtitle_file = with_suffix(&base_name, ".srt");
    let entries = generate_subtitles(
        cleaned.as_str(),
        request.subtitle_granularity,
        request.average_words_per_minute,
    );
    let subtitles = if entries.len() > 0 {
        Some(format_srt(entries.as_slice()))
    } else {
        None
    };
    let package_file = if request.create_package {
        match &request.package_name {
            Some(n) => Some(with_suffix(n, ".zip")),
            None => Some(with_suffix(&base_name, ".zip")),
        }
    } else {
        None
    };
    proof {
        if trim(cleaned@).len() > 0 && entries@.len() > 0 {
            assert(laid_out(
                entries@,
                chunk_texts(cleaned@, request.subtitle_granularity),
                chunk_counts(cleaned@, request.subtitle_granularity),
                effective_wpm(request.average_words_per_minute),
            ));
        }
    }
    ConversionPlan { cleaned, base_name, audio_file, subtitle_file, subtitles, package_file }
}

} // verus!
