//! MLT project description for composing the narration with a looping
//! background video and styled captions, and the WAV header reading that
//! gives the audio's length.
use vstd::prelude::*;

use crate::chars::{chars_of, push_chars, push_str, split_chars, split_on, string_of, char_views};
use crate::subtitle::{decimal, join_space, push_decimal, WordSubtitle};

verus! {

/// Settings of the MLT project: frames per second, audio sample rate, and the
/// length of the narration in milliseconds.
#[derive(Debug, Clone, Copy)]
pub struct MltConfig {
    pub frame_rate: u32,
    pub sample_rate: u32,
    pub duration_ms: u64,
}

impl Default for MltConfig {
    fn default() -> (r: MltConfig)
        ensures
            r.frame_rate == 30,
            r.sample_rate == 48000,
            r.duration_ms == 0,
    {
        MltConfig { frame_rate: 30, sample_rate: 48000, duration_ms: 0 }
    }
}

// ---------------------------------------------------------------- file names

/// The last normal component among `parts` (the pieces of a path between
/// `/`): empty pieces and `.` are skipped; `..` has no file name.
pub open spec fn last_normal(parts: Seq<Seq<char>>) -> Option<Seq<char>>
    decreases parts.len(),
{
    if parts.len() == 0 {
        None
    } else if parts.last().len() == 0 || parts.last() == seq!['.'] {
        last_normal(parts.drop_last())
    } else if parts.last() == seq!['.', '.'] {
        None
    } else {
        Some(parts.last())
    }
}

/// The final component of a `/`-separated path, as `Path::file_name` gives it
/// on Unix: trailing separators and `.` components are ignored, and a path
/// that ends in `..` or has no component has none.
pub open spec fn file_name_of(path: Seq<char>) -> Option<Seq<char>> {
    last_normal(split_on(path, '/'))
}

fn is_dot(p: &Vec<char>) -> (r: bool)
    ensures
        r == (p@ == seq!['.']),
{
    let r = p.len() == 1 && p[0] == '.';
    proof {
        if p@.len() == 1 && p@[0] == '.' {
            assert(p@ =~= seq!['.']);
        }
    }
    r
}

fn is_dot_dot(p: &Vec<char>) -> (r: bool)
    ensures
        r == (p@ == seq!['.', '.']),
{
    let r = p.len() == 2 && p[0] == '.' && p[1] == '.';
    proof {
        if p@.len() == 2 && p@[0] == '.' && p@[1] == '.' {
            assert(p@ =~= seq!['.', '.']);
        }
    }
    r
}

/// The file name of `path`, as [`file_name_of`] describes it.
pub fn file_name(path: &str) -> (r: Option<String>)
    ensures
        r matches Some(s) ==> file_name_of(path@) == Some(s@),
        r is None ==> file_name_of(path@) is None,
{
    let parts = split_chars(&chars_of(path), '/');
    let mut k: usize = parts.len();
    proof {
        assert(char_views(parts@).subrange(0, k as int) =~= char_views(parts@));
    }
    while k > 0
        invariant
            k <= parts@.len(),
            char_views(parts@) == split_on(path@, '/'),
            last_normal(char_views(parts@)) == last_normal(char_views(parts@).subrange(0, k as int)),
        decreases k,
    {
        let ghost pre = char_views(parts@).subrange(0, k as int);
        proof {
            assert(pre.drop_last() =~= char_views(parts@).subrange(0, k - 1));
            assert(pre.last() == parts@[k - 1]@);
        }
        let p = &parts[k - 1];
        if p.len() == 0 || is_dot(p) {
            k -= 1;
        } else if is_dot_dot(p) {
            proof {
                assert(last_normal(pre) is None);
            }
            return None;
        } else {
            let name = string_of(p);
            proof {
                assert(last_normal(pre) == Some(p@));
            }
            return Some(name);
        }
    }
    None
}

// ---------------------------------------------------------------- project

/// Frames needed to cover `duration_ms` at `fps`: rounded up, and at most
/// `u64::MAX`.
pub open spec fn duration_frames(duration_ms: nat, fps: nat) -> nat {
    let f = (duration_ms * fps + 999) / 1000;
    if f > u64::MAX {
        u64::MAX as nat
    } else {
        f
    }
}

/// The caption style: a cyan monospace font with purple outline and shadow,
/// glow, fades, and at most two lines, left-aligned near the bottom.
pub open spec fn cyberpunk_style() -> Seq<char> {
    "    <property name=\"family\">Courier New,Consolas,Roboto Mono,monospace</property>\n"@ + "    <property name=\"size\">44</property>\n"@ + "    <property name=\"weight\">500</property>\n"@ + "    <property name=\"letter-spacing\">1.5</property>\n"@ + "    <property name=\"fgcolour\">#00FFFFF2</property>\n"@ + "    <property name=\"bgcolour\">#0A0A1ECC</property>\n"@ + "    <property name=\"olcolour\">#8A2BE2</property>\n"@ + "    <property name=\"outline\">2</property>\n"@ + "    <property name=\"valign\">bottom</property>\n"@ + "    <property name=\"halign\">left</property>\n"@ + "    <property name=\"geometry\">48%/85%/85%/10%</property>\n"@ + "    <property name=\"align\">left</property>\n"@ + "    <property name=\"glow\">4</property>\n"@ + "    <property name=\"shadow\">3</property>\n"@ + "    <property name=\"shadowcolour\">#8A2BE2</property>\n"@ + "    <property name=\"fade_in\">150</property>\n"@ + "    <property name=\"fade_out\">200</property>\n"@ + "    <property name=\"max_lines\">2</property>\n"@
}

/// The properties that style the caption track.
pub fn configure_cyberpunk_subtitle_style() -> (r: String)
    ensures
        r@ == cyberpunk_style(),
{
    let mut out: Vec<char> = Vec::new();
    push_str(&mut out, "    <property name=\"family\">Courier New,Consolas,Roboto Mono,monospace</property>\n");
    push_str(&mut out, "    <property name=\"size\">44</property>\n");
    push_str(&mut out, "    <property name=\"weight\">500</property>\n");
    push_str(&mut out, "    <property name=\"letter-spacing\">1.5</property>\n");
    push_str(&mut out, "    <property name=\"fgcolour\">#00FFFFF2</property>\n");
    push_str(&mut out, "    <property name=\"bgcolour\">#0A0A1ECC</property>\n");
    push_str(&mut out, "    <property name=\"olcolour\">#8A2BE2</property>\n");
    push_str(&mut out, "    <property name=\"outline\">2</property>\n");
    push_str(&mut out, "    <property name=\"valign\">bottom</property>\n");
    push_str(&mut out, "    <property name=\"halign\">left</property>\n");
    push_str(&mut out, "    <property name=\"geometry\">48%/85%/85%/10%</property>\n");
    push_str(&mut out, "    <property name=\"align\">left</property>\n");
    push_str(&mut out, "    <property name=\"glow\">4</property>\n");
    push_str(&mut out, "    <property name=\"shadow\">3</property>\n");
    push_str(&mut out, "    <property name=\"shadowcolour\">#8A2BE2</property>\n");
    push_str(&mut out, "    <property name=\"fade_in\">150</property>\n");
    push_str(&mut out, "    <property name=\"fade_out\">200</property>\n");
    push_str(&mut out, "    <property name=\"max_lines\">2</property>\n");
    proof {
        assert(out@ =~= cyberpunk_style());
    }
    string_of(&out)
}

pub open spec fn entry_line(producer: Seq<char>, frames: nat) -> Seq<char> {
    "    <entry producer=\""@ + producer + "\" in=\"0\" out=\""@ + decimal(frames) + "\"/>\n"@
}

pub open spec fn mlt_header(fps: nat) -> Seq<char> {
    "<?xml version=\"1.0\" encoding=\"utf-8\"?>\n"@
    + "<mlt LC_NUMERIC=\"C\" version=\"7.0.0\" root=\"\" producer=\"main_bin\">\n"@
    + "  <profile description=\"HD 1080p 30 fps\" width=\"1920\" height=\"1080\" progressive=\"1\" sample_aspect_num=\"1\" sample_aspect_den=\"1\" display_aspect_num=\"16\" display_aspect_den=\"9\" frame_rate_num=\""@
    + decimal(fps) + "\" frame_rate_den=\"1\" colorspace=\"709\"/>\n"@
}

pub open spec fn mlt_audio(audio: Seq<char>, frames: nat) -> Seq<char> {
    "  <playlist id=\"playlist_audio\">\n"@ + entry_line("audio_producer"@, frames) + "  </playlist>\n"@
    + "  <producer id=\"audio_producer\">\n    <property name=\"resource\">audio/"@ + audio
    + "</property>\n    <property name=\"mlt_service\">avformat</property>\n    <property name=\"audio_index\">0</property>\n  </producer>\n"@
}

pub open spec fn mlt_video(frames: nat) -> Seq<char> {
    "  <playlist id=\"playlist_video\">\n"@ + entry_line("video_producer"@, frames) + "  </playlist>\n"@
    + "  <producer id=\"video_producer\">\n    <property name=\"resource\">video/background.mp4</property>\n    <property name=\"mlt_service\">avformat</property>\n    <property name=\"video_index\">0</property>\n    <property name=\"loop\">1</property>\n  </producer>\n"@
}

pub open spec fn mlt_captions(subtitles: Option<Seq<char>>, frames: nat) -> Seq<char> {
    match subtitles {
        Some(sub) => "  <playlist id=\"playlist_subtitle\">\n"@ + entry_line("subtitle_producer"@, frames)
            + "  </playlist>\n  <producer id=\"subtitle_producer\">\n    <property name=\"mlt_service\">subtitle</property>\n    <property name=\"resource\">subtitles/"@
            + sub + "</property>\n"@ + cyberpunk_style() + "  </producer>\n"@,
        None => Seq::empty(),
    }
}

pub open spec fn mlt_timeline(with_captions: bool, frames: nat) -> Seq<char> {
    "  <tractor id=\"tractor0\" in=\"0\" out=\""@ + decimal(frames) + "\">\n    <track producer=\"playlist_video\"/>\n    <track producer=\"playlist_audio\"/>\n"@
    + (if with_captions { "    <track producer=\"playlist_subtitle\"/>\n"@ } else { Seq::empty() })
    + "  </tractor>\n</mlt>\n"@
}

/// The MLT document for the narration `audio` (a file under `audio/`), the
/// captions `subtitles` (a file under `subtitles/`, when there are any), and a
/// background video `video/background.mp4` looped over `frames` frames.
pub open spec fn mlt_document(audio: Seq<char>, subtitles: Option<Seq<char>>, fps: nat, frames: nat) -> Seq<char> {
    mlt_header(fps) + mlt_audio(audio, frames) + mlt_video(frames) + mlt_captions(subtitles, frames)
        + mlt_timeline(subtitles is Some, frames)
}

fn push_entry_line(out: &mut Vec<char>, producer: &str, frames: u64)
    ensures
        final(out)@ == old(out)@ + entry_line(producer@, frames as nat),
{
    push_str(out, "    <entry producer=\"");
    push_str(out, producer);
    push_str(out, "\" in=\"0\" out=\"");
    push_decimal(out, frames);
    push_str(out, "\"/>\n");
    proof {
        assert(final(out)@ =~= old(out)@ + entry_line(producer@, frames as nat));
    }
}

fn push_header(out: &mut Vec<char>, fps: u32)
    ensures
        final(out)@ == old(out)@ + mlt_header(fps as nat),
{
    push_str(out, "<?xml version=\"1.0\" encoding=\"utf-8\"?>\n");
    push_str(out, "<mlt LC_NUMERIC=\"C\" version=\"7.0.0\" root=\"\" producer=\"main_bin\">\n");
    push_str(out, "  <profile description=\"HD 1080p 30 fps\" width=\"1920\" height=\"1080\" progressive=\"1\" sample_aspect_num=\"1\" sample_aspect_den=\"1\" display_aspect_num=\"16\" display_aspect_den=\"9\" frame_rate_num=\"");
    push_decimal(out, fps as u64);
    push_str(out, "\" frame_rate_den=\"1\" colorspace=\"709\"/>\n");
    proof {
        assert(final(out)@ =~= old(out)@ + mlt_header(fps as nat));
    }
}

fn push_audio(out: &mut Vec<char>, audio: &str, frames: u64)
    ensures
        final(out)@ == old(out)@ + mlt_audio(audio@, frames as nat),
{
    push_str(out, "  <playlist id=\"playlist_audio\">\n");
    push_entry_line(out, "audio_producer", frames);
    push_str(out, "  </playlist>\n");
    push_str(out, "  <producer id=\"audio_producer\">\n    <property name=\"resource\">audio/");
    push_str(out, audio);
    push_str(out, "</property>\n    <property name=\"mlt_service\">avformat</property>\n    <property name=\"audio_index\">0</property>\n  </producer>\n");
    proof {
        assert(final(out)@ =~= old(out)@ + mlt_audio(audio@, frames as nat));
    }
}

fn push_video(out: &mut Vec<char>, frames: u64)
    ensures
        final(out)@ == old(out)@ + mlt_video(frames as nat),
{
    push_str(out, "  <playlist id=\"playlist_video\">\n");
    push_entry_line(out, "video_producer", frames);
    push_str(out, "  </playlist>\n");
    push_str(out, "  <producer id=\"video_producer\">\n    <property name=\"resource\">video/background.mp4</property>\n    <property name=\"mlt_service\">avformat</property>\n    <property name=\"video_index\">0</property>\n    <property name=\"loop\">1</property>\n  </producer>\n");
    proof {
        assert(final(out)@ =~= old(out)@ + mlt_video(frames as nat));
    }
}

fn push_captions(out: &mut Vec<char>, sub: &Option<String>, frames: u64)
    ensures
        final(out)@ == old(out)@ + mlt_captions(
            match sub { Some(s) => Some(s@), None => None },
            frames as nat,
        ),
{
    match sub {
        Some(s) => {
            push_str(out, "  <playlist id=\"playlist_subtitle\">\n");
            push_entry_line(out, "subtitle_producer", frames);
            push_str(out, "  </playlist>\n  <producer id=\"subtitle_producer\">\n    <property name=\"mlt_service\">subtitle</property>\n    <property name=\"resource\">subtitles/");
            push_str(out, s.as_str());
            push_str(out, "</property>\n");
            let style = configure_cyberpunk_subtitle_style();
            push_str(out, style.as_str());
            push_str(out, "  </producer>\n");
            proof {
                assert(final(out)@ =~= old(out)@ + mlt_captions(Some(s@), frames as nat));
            }
        },
        None => {
            proof {
                assert(old(out)@ + Seq::<char>::empty() =~= old(out)@);
            }
        },
    }
}

fn push_timeline(out: &mut Vec<char>, with_captions: bool, frames: u64)
    ensures
        final(out)@ == old(out)@ + mlt_timeline(with_captions, frames as nat),
{
    push_str(out, "  <tractor id=\"tractor0\" in=\"0\" out=\"");
    push_decimal(out, frames);
    push_str(out, "\">\n    <track producer=\"playlist_video\"/>\n    <track producer=\"playlist_audio\"/>\n");
    if with_captions {
        push_str(out, "    <track producer=\"playlist_subtitle\"/>\n");
    }
    push_str(out, "  </tractor>\n</mlt>\n");
    proof {
        assert(final(out)@ =~= old(out)@ + mlt_timeline(with_captions, frames as nat));
    }
}

/// The MLT project for `audio_path` and, when given, `subtitle_path`: only
/// their file names are used (`narration.wav` when the audio path has none,
/// and no caption track when the subtitle path has none).
pub fn create_mlt_project(audio_path: &str, subtitle_path: Option<&str>, config: &MltConfig) -> (r:
    String)
    ensures
        r@ == mlt_document(
            match file_name_of(audio_path@) { Some(n) => n, None => "narration.wav"@ },
            match subtitle_path { Some(p) => file_name_of(p@), None => None },
            config.frame_rate as nat,
            duration_frames(config.duration_ms as nat, config.frame_rate as nat),
        ),
{
    let audio = match file_name(audio_path) {
        Some(n) => n,
        None => String::from_str("narration.wav"),
    };
    let sub = match subtitle_path {
        Some(p) => file_name(p),
        None => None,
    };
    let d = config.duration_ms as u128;
    let f = config.frame_rate as u128;
    proof {
        assert(d * f <= 0xffff_ffff_ffff_ffffu128 * 0xffff_ffffu128) by (nonlinear_arith)
            requires
                d <= 0xffff_ffff_ffff_ffffu128,
                f <= 0xffff_ffffu128,
        {}
    }
    let frames128: u128 = (d * f + 999) / 1000;
    let frames: u64 = if frames128 > u64::MAX as u128 { u64::MAX } else { frames128 as u64 };
    let mut out: Vec<char> = Vec::new();
    push_header(&mut out, config.frame_rate);
    push_audio(&mut out, audio.as_str(), frames);
    push_video(&mut out, frames);
    push_captions(&mut out, &sub, frames);
    push_timeline(&mut out, sub.is_some(), frames);
    proof {
        let subs = match subtitle_path { Some(p) => file_name_of(p@), None => None };
        assert(match sub { Some(s) => Some(s@), None => None } == subs);
        assert(out@ =~= mlt_document(
            match file_name_of(audio_path@) { Some(n) => n, None => "narration.wav"@ },
            subs,
            config.frame_rate as nat,
            duration_frames(config.duration_ms as nat, config.frame_rate as nat),
        ));
    }
    string_of(&out)
}

// ---------------------------------------------------------------- WAV header

/// Why a WAV header could not be read.
#[derive(Debug, Clone, Copy, PartialEq, Eq, Structural)]
pub enum WavError {
    /// Fewer than the 44 bytes of a canonical header.
    TooShort,
    /// No `RIFF` / `WAVE` markers.
    NotWav,
    /// The header gives a byte rate of zero.
    ZeroByteRate,
}

/// The little-endian 32-bit value at `b[at..at + 4]`.
pub open spec fn le_u32(b: Seq<u8>, at: int) -> nat {
    b[at] as nat + 256 * (b[at + 1] as nat) + 65536 * (b[at + 2] as nat) + 16777216 * (b[at + 3] as nat)
}

pub open spec fn is_wav_header(b: Seq<u8>) -> bool {
    &&& b[0] == 82u8 && b[1] == 73u8 && b[2] == 70u8 && b[3] == 70u8
    &&& b[8] == 87u8 && b[9] == 65u8 && b[10] == 86u8 && b[11] == 69u8
}

/// `data_size / byte_rate` seconds in whole milliseconds (rounded down), at
/// most `u64::MAX`.
pub open spec fn wav_ms(data_size: nat, byte_rate: nat) -> nat {
    let ms = data_size * 1000 / byte_rate;
    if ms > u64::MAX {
        u64::MAX as nat
    } else {
        ms
    }
}

/// Length of the audio in milliseconds, from the first 44 bytes of a WAV file
/// and the file's size: the bytes after the header divided by the byte rate
/// (bytes 28..32), rounded down.
pub fn wav_duration_ms(header: &[u8], file_size: u64) -> (r: Result<u64, WavError>)
    ensures
        header@.len() < 44 ==> r == Err::<u64, WavError>(WavError::TooShort),
        header@.len() >= 44 && !is_wav_header(header@) ==> r == Err::<u64, WavError>(WavError::NotWav),
        header@.len() >= 44 && is_wav_header(header@) && le_u32(header@, 28) == 0 ==> r == Err::<u64, WavError>(WavError::ZeroByteRate),
        header@.len() >= 44 && is_wav_header(header@) && le_u32(header@, 28) > 0 ==> (r matches Ok(ms) && ms as nat
            == wav_ms((if file_size >= 44 { (file_size - 44) as nat } else { 0nat }), le_u32(header@, 28))),
{
    if header.len() < 44 {
        return Err(WavError::TooShort);
    }
    if !(header[0] == 82u8 && header[1] == 73u8 && header[2] == 70u8 && header[3] == 70u8
        && header[8] == 87u8 && header[9] == 65u8 && header[10] == 86u8 && header[11] == 69u8) {
        return Err(WavError::NotWav);
    }
    let byte_rate: u64 = header[28] as u64 + 256 * (header[29] as u64) + 65536 * (header[30] as u64)
        + 16777216 * (header[31] as u64);
    if byte_rate == 0 {
        return Err(WavError::ZeroByteRate);
    }
    let data: u64 = if file_size >= 44 { file_size - 44 } else { 0 };
    let ms: u128 = (data as u128) * 1000 / (byte_rate as u128);
    if ms > u64::MAX as u128 {
        Ok(u64::MAX)
    } else {
        Ok(ms as u64)
    }
}

// ---------------------------------------------------------------- escaping

/// How one character is written inside XML text or attributes.
pub open spec fn xml_char(c: char) -> Seq<char> {
    if c == '&' {
        "&amp;"@
    } else if c == '<' {
        "&lt;"@
    } else if c == '>' {
        "&gt;"@
    } else if c == '"' {
        "&quot;"@
    } else if c == '\'' {
        "&apos;"@
    } else {
        seq![c]
    }
}

/// How one character is written inside Pango markup text: quotes stay.
pub open spec fn pango_char(c: char) -> Seq<char> {
    if c == '&' || c == '<' || c == '>' {
        xml_char(c)
    } else {
        seq![c]
    }
}

/// `s` with each character written as `xml_char` gives it.
pub open spec fn xml_escaped(s: Seq<char>) -> Seq<char>
    decreases s.len(),
{
    if s.len() == 0 {
        Seq::empty()
    } else {
        xml_escaped(s.drop_last()) + xml_char(s.last())
    }
}

/// `s` with each character written as `pango_char` gives it.
pub open spec fn pango_escaped(s: Seq<char>) -> Seq<char>
    decreases s.len(),
{
    if s.len() == 0 {
        Seq::empty()
    } else {
        pango_escaped(s.drop_last()) + pango_char(s.last())
    }
}

fn push_xml_char(out: &mut Vec<char>, c: char, all: bool)
    ensures
        final(out)@ == old(out)@ + (if all { xml_char(c) } else { pango_char(c) }),
{
    if c == '&' {
        push_str(out, "&amp;");
    } else if c == '<' {
        push_str(out, "&lt;");
    } else if c == '>' {
        push_str(out, "&gt;");
    } else if all && c == '"' {
        push_str(out, "&quot;");
    } else if all && c == '\'' {
        push_str(out, "&apos;");
    } else {
        out.push(c);
        proof {
            assert(final(out)@ =~= old(out)@ + seq![c]);
        }
    }
}

fn escape_with(s: &str, all: bool) -> (r: String)
    ensures
        all ==> r@ == xml_escaped(s@),
        !all ==> r@ == pango_escaped(s@),
{
    let v = chars_of(s);
    let mut out: Vec<char> = Vec::new();
    let mut i: usize = 0;
    proof {
        assert(v@.subrange(0, 0) =~= Seq::<char>::empty());
    }
    while i < v.len()
        invariant
            v@ == s@,
            i <= v@.len(),
            all ==> out@ == xml_escaped(v@.subrange(0, i as int)),
            !all ==> out@ == pango_escaped(v@.subrange(0, i as int)),
        decreases v@.len() - i,
    {
        proof {
            assert(v@.subrange(0, i + 1).drop_last() =~= v@.subrange(0, i as int));
            assert(v@.subrange(0, i + 1).last() == v@[i as int]);
        }
        push_xml_char(&mut out, v[i], all);
        i += 1;
    }
    proof {
        assert(v@.subrange(0, i as int) =~= v@);
    }
    string_of(&out)
}

/// `s` escaped for XML: `&`, `<`, `>`, `"` and `'` become entities.
pub fn escape_xml(s: &str) -> (r: String)
    ensures
        r@ == xml_escaped(s@),
{
    escape_with(s, true)
}

/// `s` escaped for Pango markup: `&`, `<` and `>` become entities.
pub fn escape_for_pango(s: &str) -> (r: String)
    ensures
        r@ == pango_escaped(s@),
{
    escape_with(s, false)
}

// ---------------------------------------------------------------- word-highlight script

/// Frames (at 25 per second) that a word is shown: its span in milliseconds
/// times 25 / 1000, rounded down; none when the span is reversed.
pub open spec fn word_frames(w: WordSubtitle) -> nat {
    if w.end_ms >= w.start_ms {
        ((w.end_ms - w.start_ms) * 25 / 1000) as nat
    } else {
        0
    }
}

/// Caption font size: 8% of the frame height, rounded down.
pub open spec fn caption_size(height: nat) -> nat {
    height * 8 / 100
}

pub open spec fn highlighted(word: Seq<char>) -> Seq<char> {
    "<span foreground=\"#00FFFF\" weight=\"bold\">"@ + word + "</span>"@
}

/// The words shown before word `i`, joined with spaces.
pub open spec fn words_before(ws: Seq<WordSubtitle>, i: int) -> Seq<char> {
    join_space(ws.take(i).map_values(|w: WordSubtitle| w.word@))
}

/// The caption shown while word `i` is spoken: the words before it, then the
/// word itself highlighted.
pub open spec fn word_caption(ws: Seq<WordSubtitle>, i: int) -> Seq<char> {
    if i == 0 {
        highlighted(ws[i].word@)
    } else {
        words_before(ws, i) + seq![' '] + highlighted(ws[i].word@)
    }
}

pub open spec fn word_id(w: WordSubtitle) -> Seq<char> {
    "word_"@ + decimal(w.start_ms as nat) + seq!['_'] + decimal(w.end_ms as nat)
}

pub open spec fn word_producer(w: WordSubtitle, caption: Seq<char>, height: nat) -> Seq<char> {
    "    <producer id=\""@ + word_id(w) + "\" resource=\"text:"@ + xml_escaped(caption)
        + "\">\n      <property name=\"mlt_service\">pango</property>\n      <property name=\"family\">Arial</property>\n      <property name=\"size\">"@
        + decimal(caption_size(height))
        + "</property>\n      <property name=\"weight\">bold</property>\n      <property name=\"fgcolour\">#FFFFFF</property>\n      <property name=\"bgcolour\">#00000080</property>\n      <property name=\"align\">center</property>\n      <property name=\"valign\">bottom</property>\n      <property name=\"pad\">10</property>\n      <property name=\"out\">"@
        + decimal(word_frames(w)) + "</property>\n    </producer>\n"@
}

pub open spec fn word_entry(w: WordSubtitle) -> Seq<char> {
    "    <entry producer=\""@ + word_id(w) + "\" in=\"0\" out=\""@ + decimal(word_frames(w)) + "\"/>\n"@
}

/// The producer showing `caption` while word `w` is spoken, and its place in
/// the caption playlist.
pub open spec fn word_block(w: WordSubtitle, caption: Seq<char>, height: nat) -> Seq<char> {
    word_producer(w, caption, height) + word_entry(w)
}

pub open spec fn word_blocks(ws: Seq<WordSubtitle>, n: int, height: nat) -> Seq<char>
    decreases n,
{
    if n <= 0 {
        Seq::empty()
    } else {
        word_blocks(ws, n - 1, height) + word_block(ws[n - 1], word_caption(ws, n - 1), height)
    }
}

pub open spec fn script_head(video: Option<Seq<char>>, audio: Seq<char>, width: nat, height: nat) -> Seq<char> {
    "<?xml version=\"1.0\" encoding=\"utf-8\"?>\n<mlt>\n  <playlist id=\"main\">\n"@
    + match video {
        Some(v) => "    <producer id=\"video\" resource=\""@ + xml_escaped(v)
            + "\">\n      <property name=\"mlt_service\">avformat</property>\n    </producer>\n    <entry producer=\"video\" in=\"0\" out=\"9999999\"/>\n"@,
        None => "    <producer id=\"background\" resource=\"color:black\">\n      <property name=\"mlt_service\">color</property>\n      <property name=\"length\">9999999</property>\n      <property name=\"width\">"@
            + decimal(width) + "</property>\n      <property name=\"height\">"@ + decimal(height)
            + "</property>\n    </producer>\n    <entry producer=\"background\" in=\"0\" out=\"9999999\"/>\n"@,
    }
    + "    <producer id=\"audio\" resource=\""@ + xml_escaped(audio)
    + "\">\n      <property name=\"mlt_service\">avformat</property>\n    </producer>\n    <entry producer=\"audio\" in=\"0\" out=\"9999999\"/>\n  </playlist>\n  <playlist id=\"subtitles\">\n"@
}

pub open spec fn script_tail(width: nat, height: nat) -> Seq<char> {
    "  </playlist>\n  <tractor id=\"main\" title=\"Video with Subtitles\">\n    <property name=\"width\">"@
    + decimal(width) + "</property>\n    <property name=\"height\">"@ + decimal(height)
    + "</property>\n    <property name=\"aspect_ratio\">1</property>\n    <property name=\"frame_rate_num\">25</property>\n    <property name=\"frame_rate_den\">1</property>\n    <track producer=\"main\"/>\n    <track producer=\"subtitles\"/>\n  </tractor>\n</mlt>\n"@
}

fn push_escaped(out: &mut Vec<char>, v: &Vec<char>)
    ensures
        final(out)@ == old(out)@ + xml_escaped(v@),
{
    let mut i: usize = 0;
    let ghost start = out@;
    proof {
        assert(v@.subrange(0, 0) =~= Seq::<char>::empty());
        assert(out@ =~= start + xml_escaped(v@.subrange(0, 0)));
    }
    while i < v.len()
        invariant
            i <= v@.len(),
            out@ == start + xml_escaped(v@.subrange(0, i as int)),
        decreases v@.len() - i,
    {
        proof {
            assert(v@.subrange(0, i + 1).drop_last() =~= v@.subrange(0, i as int));
            assert(v@.subrange(0, i + 1).last() == v@[i as int]);
        }
        push_xml_char(out, v[i], true);
        proof {
            assert(out@ =~= start + xml_escaped(v@.subrange(0, i + 1)));
        }
        i += 1;
    }
    proof {
        assert(v@.subrange(0, i as int) =~= v@);
    }
}

fn push_script_head(out: &mut Vec<char>, video: Option<&str>, audio: &str, width: u32, height: u32)
    ensures
        final(out)@ == old(out)@ + script_head(
            match video { Some(v) => Some(v@), None => None },
            audio@,
            width as nat,
            height as nat,
        ),
{
    let ghost start = out@;
    push_str(out, "<?xml version=\"1.0\" encoding=\"utf-8\"?>\n<mlt>\n  <playlist id=\"main\">\n");
    let ghost a = out@;
    match video {
        Some(v) => {
            push_str(out, "    <producer id=\"video\" resource=\"");
            push_escaped(out, &chars_of(v));
            push_str(out, "\">\n      <property name=\"mlt_service\">avformat</property>\n    </producer>\n    <entry producer=\"video\" in=\"0\" out=\"9999999\"/>\n");
        },
        None => {
            push_str(out, "    <producer id=\"background\" resource=\"color:black\">\n      <property name=\"mlt_service\">color</property>\n      <property name=\"length\">9999999</property>\n      <property name=\"width\">");
            push_decimal(out, width as u64);
            push_str(out, "</property>\n      <property name=\"height\">");
            push_decimal(out, height as u64);
            push_str(out, "</property>\n    </producer>\n    <entry producer=\"background\" in=\"0\" out=\"9999999\"/>\n");
        },
    }
    let ghost b = out@;
    push_str(out, "    <producer id=\"audio\" resource=\"");
    push_escaped(out, &chars_of(audio));
    push_str(out, "\">\n      <property name=\"mlt_service\">avformat</property>\n    </producer>\n    <entry producer=\"audio\" in=\"0\" out=\"9999999\"/>\n  </playlist>\n  <playlist id=\"subtitles\">\n");
    proof {
        assert(final(out)@ =~= old(out)@ + script_head(
            match video { Some(v) => Some(v@), None => None },
            audio@,
            width as nat,
            height as nat,
        ));
    }
}

fn push_script_tail(out: &mut Vec<char>, width: u32, height: u32)
    ensures
        final(out)@ == old(out)@ + script_tail(width as nat, height as nat),
{
    push_str(out, "  </playlist>\n  <tractor id=\"main\" title=\"Video with Subtitles\">\n    <property name=\"width\">");
    push_decimal(out, width as u64);
    push_str(out, "</property>\n    <property name=\"height\">");
    push_decimal(out, height as u64);
    push_str(out, "</property>\n    <property name=\"aspect_ratio\">1</property>\n    <property name=\"frame_rate_num\">25</property>\n    <property name=\"frame_rate_den\">1</property>\n    <track producer=\"main\"/>\n    <track producer=\"subtitles\"/>\n  </tractor>\n</mlt>\n");
    proof {
        assert(final(out)@ =~= old(out)@ + script_tail(width as nat, height as nat));
    }
}

fn push_word_id(out: &mut Vec<char>, w: &WordSubtitle)
    ensures
        final(out)@ == old(out)@ + word_id(*w),
{
    push_str(out, "word_");
    push_decimal(out, w.start_ms);
    out.push('_');
    push_decimal(out, w.end_ms);
    proof {
        assert(final(out)@ =~= old(out)@ + word_id(*w));
    }
}

fn frames_of(w: &WordSubtitle) -> (r: u64)
    ensures
        r as nat == word_frames(*w),
{
    if w.end_ms >= w.start_ms {
        (((w.end_ms - w.start_ms) as u128) * 25 / 1000) as u64
    } else {
        0
    }
}

fn push_word_producer(out: &mut Vec<char>, w: &WordSubtitle, caption: &Vec<char>, height: u32)
    ensures
        final(out)@ == old(out)@ + word_producer(*w, caption@, height as nat),
{
    let size: u64 = (height as u64) * 8 / 100;
    push_str(out, "    <producer id=\"");
    push_word_id(out, w);
    push_str(out, "\" resource=\"text:");
    push_escaped(out, caption);
    push_str(out, "\">\n      <property name=\"mlt_service\">pango</property>\n      <property name=\"family\">Arial</property>\n      <property name=\"size\">");
    push_decimal(out, size);
    push_str(out, "</property>\n      <property name=\"weight\">bold</property>\n      <property name=\"fgcolour\">#FFFFFF</property>\n      <property name=\"bgcolour\">#00000080</property>\n      <property name=\"align\">center</property>\n      <property name=\"valign\">bottom</property>\n      <property name=\"pad\">10</property>\n      <property name=\"out\">");
    push_decimal(out, frames_of(w));
    push_str(out, "</property>\n    </producer>\n");
    proof {
        assert(final(out)@ =~= old(out)@ + word_producer(*w, caption@, height as nat));
    }
}

fn push_word_block(out: &mut Vec<char>, w: &WordSubtitle, caption: &Vec<char>, height: u32)
    ensures
        final(out)@ == old(out)@ + word_block(*w, caption@, height as nat),
{
    push_word_producer(out, w, caption, height);
    push_str(out, "    <entry producer=\"");
    push_word_id(out, w);
    push_str(out, "\" in=\"0\" out=\"");
    push_decimal(out, frames_of(w));
    push_str(out, "\"/>\n");
    proof {
        assert(final(out)@ =~= old(out)@ + word_block(*w, caption@, height as nat));
    }
}

/// The MLT script that plays the narration `audio_path` over `video_path` (or
/// a black `width` x `height` background) and shows the words of
/// `word_timings` one after another, each caption holding the words so far
/// with the current one highlighted.
pub fn generate_mlt_xml(
    video_path: Option<&str>,
    audio_path: &str,
    word_timings: &[WordSubtitle],
    width: u32,
    height: u32,
) -> (r: String)
    ensures
        r@ == script_head(
            match video_path { Some(v) => Some(v@), None => None },
            audio_path@,
            width as nat,
            height as nat,
        ) + word_blocks(word_timings@, word_timings@.len() as int, height as nat) + script_tail(
            width as nat,
            height as nat,
        ),
{
    let mut out: Vec<char> = Vec::new();
    push_script_head(&mut out, video_path, audio_path, width, height);
    let ghost head = out@;
    let mut shown: Vec<char> = Vec::new();
    let mut i: usize = 0;
    proof {
        assert(word_timings@.take(0).map_values(|w: WordSubtitle| w.word@) =~= Seq::<Seq<char>>::empty());
    }
    while i < word_timings.len()
        invariant
            i <= word_timings@.len(),
            out@ == head + word_blocks(word_timings@, i as int, height as nat),
            shown@ == words_before(word_timings@, i as int),
        decreases word_timings@.len() - i,
    {
        let w = &word_timings[i];
        let mut caption: Vec<char> = Vec::new();
        if i > 0 {
            push_chars(&mut caption, &shown);
            caption.push(' ');
        }
        push_str(&mut caption, "<span foreground=\"#00FFFF\" weight=\"bold\">");
        push_str(&mut caption, w.word.as_str());
        push_str(&mut caption, "</span>");
        proof {
            assert(caption@ =~= word_caption(word_timings@, i as int));
        }
        push_word_block(&mut out, w, &caption, height);
        let ghost before_shown = shown@;
        if i > 0 {
            shown.push(' ');
        }
        push_str(&mut shown, w.word.as_str());
        proof {
            let m = word_timings@.take(i + 1).map_values(|x: WordSubtitle| x.word@);
            assert(m.drop_last() =~= word_timings@.take(i as int).map_values(|x: WordSubtitle| x.word@));
            assert(m.last() == w.word@);
            if i == 0 {
                assert(m.len() == 1);
            }
            assert(shown@ =~= words_before(word_timings@, i + 1));
        }
        i += 1;
    }
    push_script_tail(&mut out, width, height);
    proof {
        assert(out@ =~= script_head(
            match video_path { Some(v) => Some(v@), None => None },
            audio_path@,
            width as nat,
            height as nat,
        ) + word_blocks(word_timings@, word_timings@.len() as int, height as nat) + script_tail(
            width as nat,
            height as nat,
        ));
    }
    string_of(&out)
}

} // verus!
