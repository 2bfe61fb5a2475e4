//! The output choices offered to the user, their names, and what follows from
//! them: subtitle cutting and format, and the prompt for a generated video.
use vstd::prelude::*;
use vstd::string::*;

use crate::chars::{push_str, str_eq, string_of};
use crate::queue::SubtitleGranularity;
use crate::subtitle::{ass_body, ass_header, format_ass, format_srt, format_vtt, srt_text, vtt_body, SubtitleEntry};

verus! {

/// How captions are cut, as the user picks it; `Off` writes none.
#[derive(Debug, Clone, Copy, PartialEq, Eq, Structural)]
pub enum SubtitleMode {
    Sentence,
    Paragraph,
    Off,
}

/// Container of the narration audio.
#[derive(Debug, Clone, Copy, PartialEq, Eq, Structural)]
pub enum VoiceFormat {
    Wav,
    Mp3,
    Flac,
}

/// Caption file format.
#[derive(Debug, Clone, Copy, PartialEq, Eq, Structural)]
pub enum SubtitleFormat {
    Ass,
    Srt,
    Vtt,
}

/// Look of a generated background video.
#[derive(Debug, Clone, Copy, PartialEq, Eq, Structural)]
pub enum VideoStyle {
    Realistic,
    Anime,
    ThreeD,
    Cinematic,
    Biotech,
    Cyberpunk,
    Educational,
    Wan2_5,
}

#[derive(Debug, Clone, Copy, PartialEq, Eq, Structural)]
pub enum VideoResolution {
    P720,
    P1080,
    P4K,
}

#[derive(Debug, Clone, Copy, PartialEq, Eq, Structural)]
pub enum VideoFormat {
    Mp4,
    Mov,
    Webm,
}

impl SubtitleMode {
    pub fn as_str(&self) -> (r: &'static str)
        ensures
            r@ == (match *self {
                SubtitleMode::Sentence => "Sentence"@,
                SubtitleMode::Paragraph => "Paragraph"@,
                SubtitleMode::Off => "None"@,
            }),
    {
        match self {
            SubtitleMode::Sentence => "Sentence",
            SubtitleMode::Paragraph => "Paragraph",
            SubtitleMode::Off => "None",
        }
    }
}

impl VoiceFormat {
    pub fn as_str(&self) -> (r: &'static str)
        ensures
            r@ == (match *self {
                VoiceFormat::Wav => "wav"@,
                VoiceFormat::Mp3 => "mp3"@,
                VoiceFormat::Flac => "flac"@,
            }),
    {
        match self {
            VoiceFormat::Wav => "wav",
            VoiceFormat::Mp3 => "mp3",
            VoiceFormat::Flac => "flac",
        }
    }
}

impl SubtitleFormat {
    pub fn as_str(&self) -> (r: &'static str)
        ensures
            r@ == (match *self {
                SubtitleFormat::Ass => "ass"@,
                SubtitleFormat::Srt => "srt"@,
                SubtitleFormat::Vtt => "vtt"@,
            }),
    {
        match self {
            SubtitleFormat::Ass => "ass",
            SubtitleFormat::Srt => "srt",
            SubtitleFormat::Vtt => "vtt",
        }
    }
}

pub open spec fn style_name(s: VideoStyle) -> Seq<char> {
    match s {
        VideoStyle::Realistic => "realistic"@,
        VideoStyle::Anime => "anime"@,
        VideoStyle::ThreeD => "3d"@,
        VideoStyle::Cinematic => "cinematic"@,
        VideoStyle::Biotech => "biotech"@,
        VideoStyle::Cyberpunk => "cyberpunk"@,
        VideoStyle::Educational => "educational"@,
        VideoStyle::Wan2_5 => "wan2.5-t2v-preview"@,
    }
}

pub open spec fn resolution_name(r: VideoResolution) -> Seq<char> {
    match r {
        VideoResolution::P720 => "720p"@,
        VideoResolution::P1080 => "1080p"@,
        VideoResolution::P4K => "4k"@,
    }
}

pub open spec fn video_format_name(f: VideoFormat) -> Seq<char> {
    match f {
        VideoFormat::Mp4 => "mp4"@,
        VideoFormat::Mov => "mov"@,
        VideoFormat::Webm => "webm"@,
    }
}

impl VideoStyle {
    pub fn as_str(&self) -> (r: &'static str)
        ensures
            r@ == style_name(*self),
    {
        match self {
            VideoStyle::Realistic => "realistic",
            VideoStyle::Anime => "anime",
            VideoStyle::ThreeD => "3d",
            VideoStyle::Cinematic => "cinematic",
            VideoStyle::Biotech => "biotech",
            VideoStyle::Cyberpunk => "cyberpunk",
            VideoStyle::Educational => "educational",
            VideoStyle::Wan2_5 => "wan2.5-t2v-preview",
        }
    }

    /// The style named `s`; an unknown name gives `Realistic`.
    pub fn from_str(s: &str) -> (r: VideoStyle)
        ensures
            r == (if s@ == "realistic"@ { VideoStyle::Realistic }
            else if s@ == "anime"@ { VideoStyle::Anime }
            else if s@ == "3d"@ { VideoStyle::ThreeD }
            else if s@ == "cinematic"@ { VideoStyle::Cinematic }
            else if s@ == "biotech"@ { VideoStyle::Biotech }
            else if s@ == "cyberpunk"@ { VideoStyle::Cyberpunk }
            else if s@ == "educational"@ { VideoStyle::Educational }
            else if s@ == "wan2.5-t2v-preview"@ { VideoStyle::Wan2_5 }
            else { VideoStyle::Realistic }),
    {
        if str_eq(s, "realistic") {
            VideoStyle::Realistic
        } else if str_eq(s, "anime") {
            VideoStyle::Anime
        } else if str_eq(s, "3d") {
            VideoStyle::ThreeD
        } else if str_eq(s, "cinematic") {
            VideoStyle::Cinematic
        } else if str_eq(s, "biotech") {
            VideoStyle::Biotech
        } else if str_eq(s, "cyberpunk") {
            VideoStyle::Cyberpunk
        } else if str_eq(s, "educational") {
            VideoStyle::Educational
        } else if str_eq(s, "wan2.5-t2v-preview") {
            VideoStyle::Wan2_5
        } else {
            VideoStyle::Realistic
        }
    }
}

impl VideoResolution {
    pub fn as_str(&self) -> (r: &'static str)
        ensures
            r@ == resolution_name(*self),
    {
        match self {
            VideoResolution::P720 => "720p",
            VideoResolution::P1080 => "1080p",
            VideoResolution::P4K => "4k",
        }
    }

    /// The resolution named `s`; an unknown name gives `P1080`.
    pub fn from_str(s: &str) -> (r: VideoResolution)
        ensures
            r == (if s@ == "720p"@ { VideoResolution::P720 }
            else if s@ == "1080p"@ { VideoResolution::P1080 }
            else if s@ == "4k"@ { VideoResolution::P4K }
            else { VideoResolution::P1080 }),
    {
        if str_eq(s, "720p") {
            VideoResolution::P720
        } else if str_eq(s, "1080p") {
            VideoResolution::P1080
        } else if str_eq(s, "4k") {
            VideoResolution::P4K
        } else {
            VideoResolution::P1080
        }
    }
}

impl VideoFormat {
    pub fn as_str(&self) -> (r: &'static str)
        ensures
            r@ == video_format_name(*self),
    {
        match self {
            VideoFormat::Mp4 => "mp4",
            VideoFormat::Mov => "mov",
            VideoFormat::Webm => "webm",
        }
    }

    /// The format named `s`; an unknown name gives `Mp4`.
    pub fn from_str(s: &str) -> (r: VideoFormat)
        ensures
            r == (if s@ == "mp4"@ { VideoFormat::Mp4 }
            else if s@ == "mov"@ { VideoFormat::Mov }
            else if s@ == "webm"@ { VideoFormat::Webm }
            else { VideoFormat::Mp4 }),
    {
        if str_eq(s, "mp4") {
            VideoFormat::Mp4
        } else if str_eq(s, "mov") {
            VideoFormat::Mov
        } else if str_eq(s, "webm") {
            VideoFormat::Webm
        } else {
            VideoFormat::Mp4
        }
    }
}

/// What a generated video is to show.
#[derive(Debug, Clone)]
pub struct VideoConfig {
    pub style: VideoStyle,
    pub resolution: VideoResolution,
    pub format: VideoFormat,
    pub prompt: Option<String>,
}

/// The cutting for a subtitle mode: paragraphs are cut by sentence too.
pub fn subtitle_mode_to_granularity(mode: SubtitleMode) -> (r: SubtitleGranularity)
    ensures
        r == (match mode {
            SubtitleMode::Off => SubtitleGranularity::Disabled,
            _ => SubtitleGranularity::Sentence,
        }),
{
    match mode {
        SubtitleMode::Sentence => SubtitleGranularity::Sentence,
        SubtitleMode::Paragraph => SubtitleGranularity::Sentence,
        SubtitleMode::Off => SubtitleGranularity::Disabled,
    }
}

/// `entries` written in `format`.
pub fn format_subtitles(entries: &[SubtitleEntry], format: SubtitleFormat) -> (r: String)
    ensures
        r@ == (match format {
            SubtitleFormat::Srt => srt_text(entries@),
            SubtitleFormat::Ass => ass_header() + ass_body(entries@),
            SubtitleFormat::Vtt => "WEBVTT\n\n"@ + vtt_body(entries@),
        }),
{
    match format {
        SubtitleFormat::Srt => format_srt(entries),
        SubtitleFormat::Ass => format_ass(entries),
        SubtitleFormat::Vtt => format_vtt(entries),
    }
}

pub open spec fn style_modifier(s: VideoStyle) -> Seq<char> {
    match s {
        VideoStyle::Realistic => "Photorealistic cinematic video"@,
        VideoStyle::Anime => "Anime-style animated video"@,
        VideoStyle::ThreeD => "3D rendered video with high-quality graphics"@,
        VideoStyle::Cinematic => "Cinematic movie-style video with dramatic lighting"@,
        VideoStyle::Biotech => "Futuristic biotech laboratory with DNA particles and holographic displays"@,
        VideoStyle::Cyberpunk => "Cyberpunk neon cityscape with vibrant colors and futuristic aesthetics"@,
        VideoStyle::Educational => "Clean professional educational video with clear visuals"@,
        VideoStyle::Wan2_5 => "High-quality AI-generated video"@,
    }
}

/// The phrase that describes `style` to a video model.
pub fn style_to_prompt_modifier(style: VideoStyle) -> (r: &'static str)
    ensures
        r@ == style_modifier(style),
{
    match style {
        VideoStyle::Realistic => "Photorealistic cinematic video",
        VideoStyle::Anime => "Anime-style animated video",
        VideoStyle::ThreeD => "3D rendered video with high-quality graphics",
        VideoStyle::Cinematic => "Cinematic movie-style video with dramatic lighting",
        VideoStyle::Biotech => "Futuristic biotech laboratory with DNA particles and holographic displays",
        VideoStyle::Cyberpunk => "Cyberpunk neon cityscape with vibrant colors and futuristic aesthetics",
        VideoStyle::Educational => "Clean professional educational video with clear visuals",
        VideoStyle::Wan2_5 => "High-quality AI-generated video",
    }
}

/// The video prompt: a custom prompt as it is, else the style's phrase
/// followed by ` depicting: ` and the content.
pub fn construct_prompt(style: VideoStyle, base_content: &str, custom_prompt: Option<&str>) -> (r:
    String)
    ensures
        r@ == (match custom_prompt {
            Some(c) => c@,
            None => style_modifier(style) + " depicting: "@ + base_content@,
        }),
{
    match custom_prompt {
        Some(c) => String::from_str(c),
        None => {
            let mut out: Vec<char> = Vec::new();
            push_str(&mut out, style_to_prompt_modifier(style));
            push_str(&mut out, " depicting: ");
            push_str(&mut out, base_content);
            string_of(&out)
        },
    }
}

} // verus!
