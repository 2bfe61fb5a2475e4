//! Voice profiles, the built-in voice tables, and the decisions that the
//! speech-engine adapters make before handing work to a backend process.
use vstd::prelude::*;
use vstd::string::*;

use crate::chars::{starts_with_str, trim, trim_chars, copy_range, char_views, chars_of, join_chars, join_on, push_chars, push_str, split_chars, split_on, str_eq, string_of};

verus! {

/// Why a synthesis request failed.
#[derive(Debug, Clone, PartialEq, Eq)]
pub enum TtsError {
    /// The voice belongs to another engine than the one asked to speak it.
    UnsupportedVoice(String),
    /// The backend process could not be started or exited unsuccessfully.
    CommandFailed(String),
    /// The backend could not be talked to, or answered with malformed data.
    Backend(String),
}

impl TtsError {
    /// The human-readable message for this error.
    pub fn message(&self) -> (r: String)
        ensures
            r@ == tts_error_message(*self),
    {
        let mut out: Vec<char> = Vec::new();
        match self {
            TtsError::UnsupportedVoice(d) => {
                push_str(&mut out, "unsupported voice: ");
                push_str(&mut out, d.as_str());
            },
            TtsError::CommandFailed(d) => {
                push_str(&mut out, "command execution failed: ");
                push_str(&mut out, d.as_str());
            },
            TtsError::Backend(d) => {
                push_str(&mut out, "audio backend error: ");
                push_str(&mut out, d.as_str());
            },
        }
        string_of(&out)
    }
}

pub open spec fn tts_error_message(e: TtsError) -> Seq<char> {
    match e {
        TtsError::UnsupportedVoice(d) => "unsupported voice: "@ + d@,
        TtsError::CommandFailed(d) => "command execution failed: "@ + d@,
        TtsError::Backend(d) => "audio backend error: "@ + d@,
    }
}

/// The family of speech backend a voice belongs to.
#[derive(Debug, Clone, Copy, PartialEq, Eq, Structural)]
pub enum VoiceEngine {
    Espeak,
    Kokoro,
    Coqui,
}

pub open spec fn engine_name(e: VoiceEngine) -> Seq<char> {
    match e {
        VoiceEngine::Espeak => "espeak"@,
        VoiceEngine::Kokoro => "kokoro"@,
        VoiceEngine::Coqui => "coqui"@,
    }
}

impl VoiceEngine {
    /// The engine's lowercase name.
    pub fn as_str(&self) -> (r: &'static str)
        ensures
            r@ == engine_name(*self),
    {
        match self {
            VoiceEngine::Espeak => "espeak",
            VoiceEngine::Kokoro => "kokoro",
            VoiceEngine::Coqui => "coqui",
        }
    }
}

/// A voice and the backend that speaks it. `command` is a backend-specific
/// override (for Coqui, the reference audio used for voice cloning); `lang` is
/// the language code that Kokoro and Coqui need.
#[derive(Debug, Clone)]
pub struct VoiceProfile {
    pub id: String,
    pub description: String,
    pub engine: VoiceEngine,
    pub command: Option<String>,
    pub lang: Option<String>,
}

pub open spec fn opt_view(o: Option<String>) -> Option<Seq<char>> {
    match o {
        Some(s) => Some(s@),
        None => None,
    }
}

fn owned(s: &str) -> (r: String)
    ensures
        r@ == s@,
{
    String::from_str(s)
}

fn owned_opt(s: Option<&str>) -> (r: Option<String>)
    ensures
        r is Some <==> s is Some,
        s is Some ==> r->0@ == s->0@,
{
    match s {
        Some(v) => Some(String::from_str(v)),
        None => None,
    }
}

impl VoiceProfile {
    /// An eSpeak voice without a command override.
    pub fn builtin(id: &str, description: &str) -> (r: VoiceProfile)
        ensures
            r.id@ == id@,
            r.description@ == description@,
            r.engine == VoiceEngine::Espeak,
            r.command is None,
            r.lang is None,
    {
        Self::espeak(id, description, None)
    }

    /// An eSpeak voice; `command` is the voice name handed to eSpeak, when it
    /// differs from the id.
    pub fn espeak(id: &str, description: &str, command: Option<&str>) -> (r: VoiceProfile)
        ensures
            r.id@ == id@,
            r.description@ == description@,
            r.engine == VoiceEngine::Espeak,
            r.command is Some <==> command is Some,
            command is Some ==> r.command->0@ == command->0@,
            r.lang is None,
    {
        VoiceProfile {
            id: owned(id),
            description: owned(description),
            engine: VoiceEngine::Espeak,
            command: owned_opt(command),
            lang: None,
        }
    }

    /// A Kokoro voice speaking language `lang`.
    pub fn kokoro(id: &str, description: &str, lang: &str) -> (r: VoiceProfile)
        ensures
            r.id@ == id@,
            r.description@ == description@,
            r.engine == VoiceEngine::Kokoro,
            r.command is None,
            opt_view(r.lang) == Some(lang@),
    {
        VoiceProfile {
            id: owned(id),
            description: owned(description),
            engine: VoiceEngine::Kokoro,
            command: None,
            lang: Some(owned(lang)),
        }
    }

    /// A Coqui voice speaking language `lang`.
    pub fn coqui(id: &str, description: &str, lang: &str) -> (r: VoiceProfile)
        ensures
            r.id@ == id@,
            r.description@ == description@,
            r.engine == VoiceEngine::Coqui,
            r.command is None,
            opt_view(r.lang) == Some(lang@),
    {
        VoiceProfile {
            id: owned(id),
            description: owned(description),
            engine: VoiceEngine::Coqui,
            command: None,
            lang: Some(owned(lang)),
        }
    }

    /// A Coqui voice cloned from the reference audio at `clone_path`, which is
    /// kept in `command`.
    pub fn coqui_clone(id: &str, description: &str, lang: &str, clone_path: &str) -> (r:
        VoiceProfile)
        ensures
            r.id@ == id@,
            r.description@ == description@,
            r.engine == VoiceEngine::Coqui,
            opt_view(r.command) == Some(clone_path@),
            opt_view(r.lang) == Some(lang@),
    {
        VoiceProfile {
            id: owned(id),
            description: owned(description),
            engine: VoiceEngine::Coqui,
            command: Some(owned(clone_path)),
            lang: Some(owned(lang)),
        }
    }
}

// ---------------------------------------------------------------- voice tables

/// The built-in eSpeak voices: id, description, and the eSpeak voice name.
pub open spec fn espeak_voice_table() -> Seq<(Seq<char>, Seq<char>, Seq<char>)> {
    seq![
        ("en-us"@, "English (US)"@, "en-us"@),
        ("en-gb"@, "English (UK)"@, "en-gb"@),
        ("en-au"@, "English (Australia)"@, "en-au"@),
        ("es-es"@, "Spanish"@, "es"@),
        ("fr-fr"@, "French"@, "fr"@),
        ("de-de"@, "German"@, "de"@),
        ("it-it"@, "Italian"@, "it"@),
        ("pt-br"@, "Portuguese (Brazil)"@, "pt-br"@),
        ("tr-tr"@, "Turkish"@, "tr"@),
        ("hi-in"@, "Hindi"@, "hi"@),
        ("ja-jp"@, "Japanese"@, "ja"@),
        ("zh-cn"@, "Chinese (Mandarin)"@, "zh"@)
    ]
}

/// The ids of the built-in Kokoro voices; the first letter of each is its
/// language code.
pub open spec fn kokoro_voice_ids() -> Seq<Seq<char>> {
    seq![
        "af_alloy"@,
        "af_aoede"@,
        "af_bella"@,
        "af_heart"@,
        "af_jessica"@,
        "af_kore"@,
        "af_nicole"@,
        "af_nova"@,
        "af_river"@,
        "af_sarah"@,
        "af_sky"@,
        "am_adam"@,
        "am_echo"@,
        "am_eric"@,
        "am_fenrir"@,
        "am_liam"@,
        "am_michael"@,
        "am_onyx"@,
        "am_puck"@,
        "am_santa"@,
        "bf_alice"@,
        "bf_emma"@,
        "bf_isabella"@,
        "bf_lily"@,
        "bm_daniel"@,
        "bm_fable"@,
        "bm_george"@,
        "bm_lewis"@,
        "ef_dora"@,
        "em_alex"@,
        "em_santa"@,
        "ff_siwis"@,
        "hf_alpha"@,
        "hf_beta"@,
        "hm_omega"@,
        "hm_psi"@,
        "if_sara"@,
        "im_nicola"@,
        "jf_alpha"@,
        "jf_gongitsune"@,
        "jf_nezumi"@,
        "jf_tebukuro"@,
        "jm_kumo"@,
        "pf_dora"@,
        "pm_alex"@,
        "pm_santa"@,
        "zf_xiaobei"@,
        "zf_xiaoni"@,
        "zf_xiaoxiao"@,
        "zf_xiaoyi"@,
        "zm_yunjian"@,
        "zm_yunxi"@,
        "zm_yunxia"@,
        "zm_yunyang"@
    ]
}

/// English name of a Kokoro language code letter, or `Unknown`.
pub open spec fn language_name(c: char) -> Seq<char> {
    if c == 'a' {
        "American English"@
    } else if c == 'b' {
        "British English"@
    } else if c == 'e' {
        "Spanish"@
    } else if c == 'f' {
        "French"@
    } else if c == 'h' {
        "Hindi"@
    } else if c == 'i' {
        "Italian"@
    } else if c == 'j' {
        "Japanese"@
    } else if c == 'p' {
        "Brazilian Portuguese"@
    } else if c == 'z' {
        "Mandarin Chinese"@
    } else {
        "Unknown"@
    }
}

/// English name of a Kokoro language code.
pub open spec fn kokoro_language(code: Seq<char>) -> Seq<char> {
    if code.len() == 1 {
        language_name(code[0])
    } else {
        "Unknown"@
    }
}

/// English name of the Kokoro language code letter `code`.
pub fn language_name_of(code: char) -> (r: &'static str)
    ensures
        r@ == language_name(code),
{
    if code == 'a' {
        "American English"
    } else if code == 'b' {
        "British English"
    } else if code == 'e' {
        "Spanish"
    } else if code == 'f' {
        "French"
    } else if code == 'h' {
        "Hindi"
    } else if code == 'i' {
        "Italian"
    } else if code == 'j' {
        "Japanese"
    } else if code == 'p' {
        "Brazilian Portuguese"
    } else if code == 'z' {
        "Mandarin Chinese"
    } else {
        "Unknown"
    }
}

/// English name of the Kokoro language code `code` (`Unknown` for codes not
/// in the table).
pub fn kokoro_language_description(code: &str) -> (r: &'static str)
    ensures
        r@ == kokoro_language(code@),
{
    let v = chars_of(code);
    if v.len() == 1 {
        language_name_of(v[0])
    } else {
        "Unknown"
    }
}

/// `p` is the eSpeak voice described by table row `row`.
pub open spec fn espeak_row(p: VoiceProfile, row: (Seq<char>, Seq<char>, Seq<char>)) -> bool {
    &&& p.id@ == row.0
    &&& p.description@ == row.1
    &&& p.engine == VoiceEngine::Espeak
    &&& opt_view(p.command) == Some(row.2)
    &&& p.lang is None
}

fn espeak_voices() -> (r: Vec<VoiceProfile>)
    ensures
        r@.len() == espeak_voice_table().len(),
        forall|i: int| 0 <= i < r@.len() ==> espeak_row(#[trigger] r@[i], espeak_voice_table()[i]),
{
    let mut v: Vec<VoiceProfile> = Vec::new();
    v.push(VoiceProfile::espeak("en-us", "English (US)", Some("en-us")));
    v.push(VoiceProfile::espeak("en-gb", "English (UK)", Some("en-gb")));
    v.push(VoiceProfile::espeak("en-au", "English (Australia)", Some("en-au")));
    v.push(VoiceProfile::espeak("es-es", "Spanish", Some("es")));
    v.push(VoiceProfile::espeak("fr-fr", "French", Some("fr")));
    v.push(VoiceProfile::espeak("de-de", "German", Some("de")));
    v.push(VoiceProfile::espeak("it-it", "Italian", Some("it")));
    v.push(VoiceProfile::espeak("pt-br", "Portuguese (Brazil)", Some("pt-br")));
    v.push(VoiceProfile::espeak("tr-tr", "Turkish", Some("tr")));
    v.push(VoiceProfile::espeak("hi-in", "Hindi", Some("hi")));
    v.push(VoiceProfile::espeak("ja-jp", "Japanese", Some("ja")));
    v.push(VoiceProfile::espeak("zh-cn", "Chinese (Mandarin)", Some("zh")));
    v
}

pub(crate) fn kokoro_id_table() -> (r: Vec<&'static str>)
    ensures
        r@.map_values(|s: &str| s@) == kokoro_voice_ids(),
        forall|i: int| 0 <= i < r@.len() ==> (#[trigger] r@[i])@.len() > 0,
{
    let mut ids: Vec<&'static str> = Vec::new();
    ids.push("af_alloy");
    ids.push("af_aoede");
    ids.push("af_bella");
    ids.push("af_heart");
    ids.push("af_jessica");
    ids.push("af_kore");
    ids.push("af_nicole");
    ids.push("af_nova");
    ids.push("af_river");
    ids.push("af_sarah");
    ids.push("af_sky");
    ids.push("am_adam");
    ids.push("am_echo");
    ids.push("am_eric");
    ids.push("am_fenrir");
    ids.push("am_liam");
    ids.push("am_michael");
    ids.push("am_onyx");
    ids.push("am_puck");
    ids.push("am_santa");
    ids.push("bf_alice");
    ids.push("bf_emma");
    ids.push("bf_isabella");
    ids.push("bf_lily");
    ids.push("bm_daniel");
    ids.push("bm_fable");
    ids.push("bm_george");
    ids.push("bm_lewis");
    ids.push("ef_dora");
    ids.push("em_alex");
    ids.push("em_santa");
    ids.push("ff_siwis");
    ids.push("hf_alpha");
    ids.push("hf_beta");
    ids.push("hm_omega");
    ids.push("hm_psi");
    ids.push("if_sara");
    ids.push("im_nicola");
    ids.push("jf_alpha");
    ids.push("jf_gongitsune");
    ids.push("jf_nezumi");
    ids.push("jf_tebukuro");
    ids.push("jm_kumo");
    ids.push("pf_dora");
    ids.push("pm_alex");
    ids.push("pm_santa");
    ids.push("zf_xiaobei");
    ids.push("zf_xiaoni");
    ids.push("zf_xiaoxiao");
    ids.push("zf_xiaoyi");
    ids.push("zm_yunjian");
    ids.push("zm_yunxi");
    ids.push("zm_yunxia");
    ids.push("zm_yunyang");
    proof {
        reveal_strlit("af_alloy");
        reveal_strlit("af_aoede");
        reveal_strlit("af_bella");
        reveal_strlit("af_heart");
        reveal_strlit("af_jessica");
        reveal_strlit("af_kore");
        reveal_strlit("af_nicole");
        reveal_strlit("af_nova");
        reveal_strlit("af_river");
        reveal_strlit("af_sarah");
        reveal_strlit("af_sky");
        reveal_strlit("am_adam");
        reveal_strlit("am_echo");
        reveal_strlit("am_eric");
        reveal_strlit("am_fenrir");
        reveal_strlit("am_liam");
        reveal_strlit("am_michael");
        reveal_strlit("am_onyx");
        reveal_strlit("am_puck");
        reveal_strlit("am_santa");
        reveal_strlit("bf_alice");
        reveal_strlit("bf_emma");
        reveal_strlit("bf_isabella");
        reveal_strlit("bf_lily");
        reveal_strlit("bm_daniel");
        reveal_strlit("bm_fable");
        reveal_strlit("bm_george");
        reveal_strlit("bm_lewis");
        reveal_strlit("ef_dora");
        reveal_strlit("em_alex");
        reveal_strlit("em_santa");
        reveal_strlit("ff_siwis");
        reveal_strlit("hf_alpha");
        reveal_strlit("hf_beta");
        reveal_strlit("hm_omega");
        reveal_strlit("hm_psi");
        reveal_strlit("if_sara");
        reveal_strlit("im_nicola");
        reveal_strlit("jf_alpha");
        reveal_strlit("jf_gongitsune");
        reveal_strlit("jf_nezumi");
        reveal_strlit("jf_tebukuro");
        reveal_strlit("jm_kumo");
        reveal_strlit("pf_dora");
        reveal_strlit("pm_alex");
        reveal_strlit("pm_santa");
        reveal_strlit("zf_xiaobei");
        reveal_strlit("zf_xiaoni");
        reveal_strlit("zf_xiaoxiao");
        reveal_strlit("zf_xiaoyi");
        reveal_strlit("zm_yunjian");
        reveal_strlit("zm_yunxi");
        reveal_strlit("zm_yunxia");
        reveal_strlit("zm_yunyang");
        assert(ids@.map_values(|s: &str| s@) =~= kokoro_voice_ids());
    }
    ids
}

// ---------------------------------------------------------------- display names

/// What `char::to_uppercase` yields for `c`.
pub uninterp spec fn upper_of_char(c: char) -> Seq<char>;

/// What `str::to_lowercase` yields for `s`.
pub uninterp spec fn lower_of(s: Seq<char>) -> Seq<char>;

/// Relies on `char::to_uppercase`: the uppercase mapping of `c`, which
/// depends on `c` alone.
#[verifier::external_body]
fn uppercase_char(c: char) -> (r: Vec<char>)
    ensures
        r@ == upper_of_char(c),
{
    c.to_uppercase().collect()
}

/// Relies on `str::to_lowercase`: the lowercase mapping of the text, which
/// depends on the text alone.
#[verifier::external_body]
fn lowercase(v: &Vec<char>) -> (r: Vec<char>)
    ensures
        r@ == lower_of(v@),
{
    let s: String = v.iter().collect();
    s.to_lowercase().chars().collect()
}

/// `part` with its first character uppercased and the rest lowercased.
pub open spec fn title_case(part: Seq<char>) -> Seq<char> {
    if part.len() == 0 {
        Seq::empty()
    } else {
        upper_of_char(part[0]) + lower_of(part.drop_first())
    }
}

/// Display name of a voice id such as `af_heart`: the piece after the first
/// `_` (up to the next one), each `-`-separated part title-cased; an id
/// without `_` is shown as it is.
pub open spec fn voice_display_name(id: Seq<char>) -> Seq<char> {
    let parts = split_on(id, '_');
    if parts.len() >= 2 {
        join_on(split_on(parts[1], '-').map_values(|p: Seq<char>| title_case(p)), '-')
    } else {
        id
    }
}

fn title_case_chars(part: &Vec<char>) -> (r: Vec<char>)
    ensures
        r@ == title_case(part@),
{
    if part.len() == 0 {
        return Vec::new();
    }
    let mut r = uppercase_char(part[0]);
    let rest = copy_range(part, 1, part.len());
    let low = lowercase(&rest);
    push_chars(&mut r, &low);
    proof {
        assert(part@.subrange(1, part@.len() as int) == part@.drop_first());
    }
    r
}

/// The display name of voice id `id`, as [`voice_display_name`] describes it.
pub fn format_voice_name(id: &str) -> (r: String)
    ensures
        r@ == voice_display_name(id@),
{
    let v = chars_of(id);
    let parts = split_chars(&v, '_');
    if parts.len() < 2 {
        return string_of(&v);
    }
    let pieces = split_chars(&parts[1], '-');
    let mut titled: Vec<Vec<char>> = Vec::new();
    let mut k: usize = 0;
    while k < pieces.len()
        invariant
            k <= pieces@.len(),
            char_views(titled@) == char_views(pieces@).subrange(0, k as int).map_values(
                |p: Seq<char>| title_case(p),
            ),
        decreases pieces@.len() - k,
    {
        let ghost before = char_views(titled@);
        let t = title_case_chars(&pieces[k]);
        titled.push(t);
        proof {
            let target = char_views(pieces@).subrange(0, k + 1).map_values(|p: Seq<char>| title_case(p));
            assert(target.drop_last() =~= char_views(pieces@).subrange(0, k as int).map_values(
                |p: Seq<char>| title_case(p),
            ));
            assert(target.last() == title_case(pieces@[k as int]@));
            assert(char_views(titled@) =~= before.push(t@));
            assert forall|j: int| 0 <= j < target.len() implies char_views(titled@)[j] == target[j] by {
                if j < k {
                    assert(target[j] == target.drop_last()[j]);
                }
            }
            assert(char_views(titled@) =~= char_views(pieces@).subrange(0, k + 1).map_values(
                |p: Seq<char>| title_case(p),
            ));
        }
        k += 1;
    }
    proof {
        assert(char_views(pieces@).subrange(0, k as int) =~= char_views(pieces@));
    }
    string_of(&join_chars(&titled, '-'))
}

/// Description of a Kokoro voice: display name and language in parentheses.
pub open spec fn kokoro_description(id: Seq<char>) -> Seq<char> {
    voice_display_name(id) + " ("@ + kokoro_language(seq![id[0]]) + ")"@
}

/// `p` is the Kokoro voice with id `id`.
pub open spec fn kokoro_row(p: VoiceProfile, id: Seq<char>) -> bool {
    &&& p.id@ == id
    &&& p.description@ == kokoro_description(id)
    &&& p.engine == VoiceEngine::Kokoro
    &&& p.command is None
    &&& opt_view(p.lang) == Some(seq![id[0]])
}

fn kokoro_profile(id: &str) -> (r: VoiceProfile)
    requires
        id@.len() > 0,
    ensures
        kokoro_row(r, id@),
{
    let v = chars_of(id);
    let mut code: Vec<char> = Vec::new();
    code.push(v[0]);
    let lang = string_of(&code);
    let mut desc: Vec<char> = Vec::new();
    push_str(&mut desc, format_voice_name(id).as_str());
    push_str(&mut desc, " (");
    push_str(&mut desc, kokoro_language_description(lang.as_str()));
    push_str(&mut desc, ")");
    proof {
        assert(code@ =~= seq![id@[0]]);
    }
    VoiceProfile::kokoro(id, string_of(&desc).as_str(), lang.as_str())
}

fn push_kokoro_profiles(out: &mut Vec<VoiceProfile>)
    ensures
        final(out)@.len() == old(out)@.len() + kokoro_voice_ids().len(),
        forall|i: int| 0 <= i < old(out)@.len() ==> final(out)@[i] == old(out)@[i],
        forall|i: int|
            0 <= i < kokoro_voice_ids().len() ==> kokoro_row(
                #[trigger] final(out)@[old(out)@.len() + i],
                kokoro_voice_ids()[i],
            ),
{
    let ids = kokoro_id_table();
    let ghost base = out@;
    let mut k: usize = 0;
    while k < ids.len()
        invariant
            ids@.map_values(|s: &str| s@) == kokoro_voice_ids(),
            forall|i: int| 0 <= i < ids@.len() ==> (#[trigger] ids@[i])@.len() > 0,
            k <= ids@.len(),
            out@.len() == base.len() + k,
            forall|i: int| 0 <= i < base.len() ==> out@[i] == base[i],
            forall|i: int| 0 <= i < k ==> kokoro_row(#[trigger] out@[base.len() + i], kokoro_voice_ids()[i]),
        decreases ids@.len() - k,
    {
        let p = kokoro_profile(ids[k]);
        proof {
            assert(ids@[k as int]@ == kokoro_voice_ids()[k as int]);
        }
        out.push(p);
        k += 1;
    }
}

/// The built-in Kokoro voices, in table order.
pub fn build_kokoro_voice_profiles() -> (r: Vec<VoiceProfile>)
    ensures
        r@.len() == kokoro_voice_ids().len(),
        forall|i: int| 0 <= i < r@.len() ==> kokoro_row(#[trigger] r@[i], kokoro_voice_ids()[i]),
{
    let mut r: Vec<VoiceProfile> = Vec::new();
    push_kokoro_profiles(&mut r);
    proof {
        assert forall|i: int| 0 <= i < r@.len() implies kokoro_row(#[trigger] r@[i], kokoro_voice_ids()[i]) by {
            assert(r@[i] == r@[0 + i]);
        }
    }
    r
}

/// The built-in voices: the eSpeak table, then the Kokoro voices.
pub fn default_voice_profiles() -> (r: Vec<VoiceProfile>)
    ensures
        r@.len() == espeak_voice_table().len() + kokoro_voice_ids().len(),
        forall|i: int|
            0 <= i < espeak_voice_table().len() ==> espeak_row(#[trigger] r@[i], espeak_voice_table()[i]),
        forall|i: int|
            espeak_voice_table().len() <= i < r@.len() ==> kokoro_row(
                #[trigger] r@[i],
                kokoro_voice_ids()[i - espeak_voice_table().len()],
            ),
{
    let mut voices = espeak_voices();
    let ghost e = voices@;
    push_kokoro_profiles(&mut voices);
    proof {
        assert forall|i: int| espeak_voice_table().len() <= i < voices@.len() implies kokoro_row(
            #[trigger] voices@[i],
            kokoro_voice_ids()[i - espeak_voice_table().len()],
        ) by {
            let j = i - e.len();
            assert(voices@[e.len() + j] == voices@[i]);
        }
        assert forall|i: int| 0 <= i < espeak_voice_table().len() implies espeak_row(#[trigger] voices@[i], espeak_voice_table()[i]) by {
            assert(voices@[i] == e[i]);
        }
    }
    voices
}

/// `r` is the first voice of `voices` whose id is `id`, or `None` when no
/// voice has that id.
pub open spec fn first_with_id(voices: Seq<VoiceProfile>, id: Seq<char>, r: Option<&VoiceProfile>) -> bool {
    match r {
        Some(v) => exists|i: int|
            0 <= i < voices.len() && voices[i] == *v && v.id@ == id && forall|j: int|
                0 <= j < i ==> (#[trigger] voices[j]).id@ != id,
        None => forall|j: int| 0 <= j < voices.len() ==> (#[trigger] voices[j]).id@ != id,
    }
}

/// The first voice in `voices` whose id is `id`, if any.
pub fn find_voice<'a>(voices: &'a [VoiceProfile], id: &str) -> (r: Option<&'a VoiceProfile>)
    ensures
        first_with_id(voices@, id@, r),
{
    let mut i: usize = 0;
    while i < voices.len()
        invariant
            i <= voices@.len(),
            forall|j: int| 0 <= j < i ==> (#[trigger] voices@[j]).id@ != id@,
        decreases voices@.len() - i,
    {
        if str_eq(voices[i].id.as_str(), id) {
            return Some(&voices[i]);
        }
        i += 1;
    }
    None
}

// ---------------------------------------------------------------- engines

/// The engine that writes the text itself to the output file; used to test
/// the pipeline without a speech backend.
pub struct MockSpeechEngine;

/// Adapter for the `espeak` command-line synthesizer.
pub struct EspeakEngine;

/// What the eSpeak adapter does for a request.
#[derive(Debug, Clone, PartialEq, Eq)]
pub enum EspeakAction {
    /// The text is blank: write an empty output file.
    WriteEmpty,
    /// Run eSpeak with this voice name and words-per-minute rate.
    Speak { voice_name: String, rate: i32 },
}

/// eSpeak's rate for a speed of `speed_percent` hundredths: 175 words per
/// minute scaled by the speed, rounded, and kept within 80..=450.
pub open spec fn espeak_rate(speed_percent: nat) -> int {
    let rate = (350 * speed_percent + 100) / 200;
    if rate < 80 {
        80
    } else if rate > 450 {
        450
    } else {
        rate as int
    }
}

fn clone_str(s: &String) -> (r: String)
    ensures
        r@ == s@,
{
    s.clone()
}

impl EspeakEngine {
    /// eSpeak's `-s` rate for a speed of `speed_percent` hundredths.
    pub fn normalized_speed(speed_percent: u32) -> (r: i32)
        ensures
            r as int == espeak_rate(speed_percent as nat),
    {
        let rate: u64 = (350 * (speed_percent as u64) + 100) / 200;
        if rate < 80 {
            80
        } else if rate > 450 {
            450
        } else {
            rate as i32
        }
    }

    /// Decides what to do for a request: a voice of another engine is refused,
    /// a blank text gives an empty file, anything else is spoken with the
    /// voice's command override (or its id) at the rate for the speed.
    pub fn prepare(&self, text: &str, voice: &VoiceProfile, speed_percent: u32) -> (r: Result<
        EspeakAction,
        TtsError,
    >)
        ensures
            voice.engine != VoiceEngine::Espeak ==> (r matches Err(TtsError::UnsupportedVoice(id)) && id@ == voice.id@),
            voice.engine == VoiceEngine::Espeak && trim(text@).len() == 0 ==> r == Ok::<EspeakAction, TtsError>(EspeakAction::WriteEmpty),
            voice.engine == VoiceEngine::Espeak && trim(text@).len() > 0 ==> (r matches Ok(EspeakAction::Speak { voice_name, rate })
                && voice_name@ == (match voice.command { Some(c) => c@, None => voice.id@ })
                && rate as int == espeak_rate(speed_percent as nat)),
    {
        if voice.engine != VoiceEngine::Espeak {
            return Err(TtsError::UnsupportedVoice(clone_str(&voice.id)));
        }
        let t = trim_chars(&chars_of(text));
        if t.len() == 0 {
            return Ok(EspeakAction::WriteEmpty);
        }
        let voice_name = match &voice.command {
            Some(c) => clone_str(c),
            None => clone_str(&voice.id),
        };
        Ok(EspeakAction::Speak { voice_name, rate: Self::normalized_speed(speed_percent) })
    }
}

/// Turns a finished backend process into the request's outcome: an
/// unsuccessful exit is a `CommandFailed` error carrying the trimmed error
/// output; a successful one is success whatever the process printed.
pub fn process_outcome(exit_success: bool, stderr: &str) -> (r: Result<(), TtsError>)
    ensures
        exit_success ==> r is Ok,
        !exit_success ==> (r matches Err(TtsError::CommandFailed(m)) && m@ == trim(stderr@)),
{
    if exit_success {
        Ok(())
    } else {
        Err(TtsError::CommandFailed(string_of(&trim_chars(&chars_of(stderr)))))
    }
}

/// Settings of the Kokoro bridge process.
#[derive(Debug, Clone)]
pub struct KokoroEngine {
    pub python_command: String,
    pub repo_id: String,
    pub device: String,
    pub sample_rate: u32,
    pub split_pattern: Option<String>,
}

/// One synthesis request for a backend bridge process, before it is written
/// as JSON.
#[derive(Debug, Clone)]
pub struct BridgeRequest {
    pub text: String,
    pub voice: String,
    pub lang_code: String,
    pub speed_percent: u32,
    pub output: String,
    pub sample_rate: u32,
    pub model: String,
    pub device: String,
    pub split_pattern: Option<String>,
    pub speaker_wav: Option<String>,
}

/// Sample rate used when none is configured.
pub const DEFAULT_SAMPLE_RATE: u32 = 24000;

/// The configured sample rate when one was given and is positive, else the
/// default.
pub fn sample_rate_or_default(configured: Option<u32>) -> (r: u32)
    ensures
        r == (match configured {
            Some(v) => if v > 0 { v } else { DEFAULT_SAMPLE_RATE },
            None => DEFAULT_SAMPLE_RATE,
        }),
{
    match configured {
        Some(v) => if v > 0 { v } else { DEFAULT_SAMPLE_RATE },
        None => DEFAULT_SAMPLE_RATE,
    }
}

impl KokoroEngine {
    pub fn new(
        python_command: String,
        repo_id: String,
        device: String,
        sample_rate: u32,
        split_pattern: Option<String>,
    ) -> (r: KokoroEngine)
        ensures
            r.python_command == python_command,
            r.repo_id == repo_id,
            r.device == device,
            r.sample_rate == sample_rate,
            r.split_pattern == split_pattern,
    {
        KokoroEngine { python_command, repo_id, device, sample_rate, split_pattern }
    }

    /// The bridge request for speaking `text` with `voice` into `output`: a
    /// voice of another engine is refused, and a Kokoro voice must carry a
    /// language code. The split pattern defaults to `\n+`.
    pub fn request(&self, text: &str, voice: &VoiceProfile, speed_percent: u32, output: &str) -> (r:
        Result<BridgeRequest, TtsError>)
        ensures
            voice.engine != VoiceEngine::Kokoro ==> (r matches Err(TtsError::UnsupportedVoice(id)) && id@ == voice.id@),
            voice.engine == VoiceEngine::Kokoro && voice.lang is None ==> (r matches Err(TtsError::Backend(m)) && m@ == "kokoro voice missing language code"@),
            voice.engine == VoiceEngine::Kokoro && voice.lang is Some ==> (r matches Ok(q) && {
                &&& q.text@ == text@
                &&& q.voice@ == voice.id@
                &&& Some(q.lang_code@) == opt_view(voice.lang)
                &&& q.speed_percent == speed_percent
                &&& q.output@ == output@
                &&& q.sample_rate == self.sample_rate
                &&& q.model@ == self.repo_id@
                &&& q.device@ == self.device@
                &&& opt_view(q.split_pattern) == Some(match self.split_pattern { Some(p) => p@, None => "\\n+"@ })
                &&& q.speaker_wav is None
            }),
    {
        if voice.engine != VoiceEngine::Kokoro {
            return Err(TtsError::UnsupportedVoice(clone_str(&voice.id)));
        }
        let lang = match &voice.lang {
            Some(l) => clone_str(l),
            None => return Err(TtsError::Backend(String::from_str("kokoro voice missing language code"))),
        };
        let pattern = match &self.split_pattern {
            Some(p) => clone_str(p),
            None => String::from_str("\\n+"),
        };
        Ok(BridgeRequest {
            text: String::from_str(text),
            voice: clone_str(&voice.id),
            lang_code: lang,
            speed_percent,
            output: String::from_str(output),
            sample_rate: self.sample_rate,
            model: clone_str(&self.repo_id),
            device: clone_str(&self.device),
            split_pattern: Some(pattern),
            speaker_wav: None,
        })
    }
}

/// Settings of the Coqui XTTS bridge process.
#[derive(Debug, Clone)]
pub struct CoquiEngine {
    pub python_command: String,
    pub model_name: String,
    pub device: String,
    pub sample_rate: u32,
    pub language: String,
}

impl CoquiEngine {
    pub fn new(
        python_command: String,
        model_name: String,
        device: String,
        sample_rate: u32,
        language: String,
    ) -> (r: CoquiEngine)
        ensures
            r.python_command == python_command,
            r.model_name == model_name,
            r.device == device,
            r.sample_rate == sample_rate,
            r.language == language,
    {
        CoquiEngine { python_command, model_name, device, sample_rate, language }
    }

    /// The bridge request for speaking `text` with `voice` into `output`: a
    /// voice of another engine is refused; the voice's language wins over the
    /// engine's, and the voice's command, when set, is the reference audio for
    /// cloning.
    pub fn request(&self, text: &str, voice: &VoiceProfile, speed_percent: u32, output: &str) -> (r:
        Result<BridgeRequest, TtsError>)
        ensures
            voice.engine != VoiceEngine::Coqui ==> (r matches Err(TtsError::UnsupportedVoice(id)) && id@ == voice.id@),
            voice.engine == VoiceEngine::Coqui ==> (r matches Ok(q) && {
                &&& q.text@ == text@
                &&& q.voice@ == voice.id@
                &&& q.lang_code@ == (match voice.lang { Some(l) => l@, None => self.language@ })
                &&& q.speed_percent == speed_percent
                &&& q.output@ == output@
                &&& q.sample_rate == self.sample_rate
                &&& q.model@ == self.model_name@
                &&& q.device@ == self.device@
                &&& q.split_pattern is None
                &&& opt_view(q.speaker_wav) == opt_view(voice.command)
            }),
    {
        if voice.engine != VoiceEngine::Coqui {
            return Err(TtsError::UnsupportedVoice(clone_str(&voice.id)));
        }
        let lang = match &voice.lang {
            Some(l) => clone_str(l),
            None => clone_str(&self.language),
        };
        let speaker_wav = match &voice.command {
            Some(c) => Some(clone_str(c)),
            None => None,
        };
        Ok(BridgeRequest {
            text: String::from_str(text),
            voice: clone_str(&voice.id),
            lang_code: lang,
            speed_percent,
            output: String::from_str(output),
            sample_rate: self.sample_rate,
            model: clone_str(&self.model_name),
            device: clone_str(&self.device),
            split_pattern: None,
            speaker_wav,
        })
    }
}

// ---------------------------------------------------------------- front-end voice ids

pub open spec fn is_kokoro_language(c: char) -> bool {
    c == 'a' || c == 'b' || c == 'e' || c == 'f' || c == 'h' || c == 'i' || c == 'j' || c == 'p'
        || c == 'z'
}

pub open spec fn has_prefix(s: Seq<char>, p: Seq<char>) -> bool {
    p.len() <= s.len() && s.take(p.len() as int) == p
}

/// The profile for a voice id chosen in the front end: `coqui-<lang>...` is a
/// Coqui voice in that language, `clone-...` a Coqui clone whose reference
/// audio is not known yet, and an id starting with a Kokoro language letter a
/// Kokoro voice in that language; other ids have no profile.
pub open spec fn front_end_profile(p: VoiceProfile, id: Seq<char>) -> bool {
    if has_prefix(id, "coqui-"@) {
        &&& p.id@ == id
        &&& p.description@ == "Coqui "@ + id
        &&& p.engine == VoiceEngine::Coqui
        &&& p.command is None
        &&& opt_view(p.lang) == Some(split_on(id, '-')[1])
    } else if has_prefix(id, "clone-"@) {
        &&& p.id@ == id
        &&& p.description@ == "Cloned Voice"@
        &&& p.engine == VoiceEngine::Coqui
        &&& opt_view(p.command) == Some(Seq::<char>::empty())
        &&& opt_view(p.lang) == Some("en"@)
    } else {
        &&& p.id@ == id
        &&& p.description@ == "Kokoro "@ + id
        &&& p.engine == VoiceEngine::Kokoro
        &&& p.command is None
        &&& opt_view(p.lang) == Some(seq![id[0]])
    }
}

proof fn lemma_split_has_two(id: Seq<char>, k: int)
    requires
        0 <= k < id.len(),
        id[k] == '-',
    ensures
        split_on(id, '-').len() >= 2,
    decreases id.len(),
{
    if k < id.len() - 1 {
        lemma_split_has_two(id.drop_last(), k);
    }
    lemma_split_nonempty(id.drop_last());
    lemma_split_nonempty(id);
}

proof fn lemma_split_nonempty(s: Seq<char>)
    ensures
        split_on(s, '-').len() >= 1,
        s.len() > 0 ==> split_on(s, '-').len() >= split_on(s.drop_last(), '-').len(),
    decreases s.len(),
{
    if s.len() > 0 {
        lemma_split_nonempty(s.drop_last());
    }
}

/// The profile for the front-end voice id `voice_id`, as
/// [`front_end_profile`] describes it.
pub fn get_voice_profile(voice_id: &str) -> (r: Option<VoiceProfile>)
    ensures
        r matches Some(p) ==> front_end_profile(p, voice_id@),
        r is None <==> !has_prefix(voice_id@, "coqui-"@) && !has_prefix(voice_id@, "clone-"@) && (
        voice_id@.len() == 0 || !is_kokoro_language(voice_id@[0])),
{
    let v = chars_of(voice_id);
    if starts_with_str(&v, "coqui-") {
        let parts = split_chars(&v, '-');
        proof {
            reveal_strlit("coqui-");
            assert(v@.take(6)[5] == v@[5]);
            assert(v@[5] == '-');
            lemma_split_has_two(v@, 5);
        }
        let mut desc: Vec<char> = Vec::new();
        push_str(&mut desc, "Coqui ");
        push_str(&mut desc, voice_id);
        let lang = string_of(&parts[1]);
        return Some(VoiceProfile::coqui(voice_id, string_of(&desc).as_str(), lang.as_str()));
    }
    if starts_with_str(&v, "clone-") {
        let p = VoiceProfile::coqui_clone(voice_id, "Cloned Voice", "en", "");
        proof {
            reveal_strlit("");
            assert(""@ =~= Seq::<char>::empty());
        }
        return Some(p);
    }
    if v.len() == 0 {
        return None;
    }
    let c = v[0];
    if !(c == 'a' || c == 'b' || c == 'e' || c == 'f' || c == 'h' || c == 'i' || c == 'j' || c
        == 'p' || c == 'z') {
        return None;
    }
    let mut code: Vec<char> = Vec::new();
    code.push(c);
    let mut desc: Vec<char> = Vec::new();
    push_str(&mut desc, "Kokoro ");
    push_str(&mut desc, voice_id);
    proof {
        assert(code@ =~= seq![voice_id@[0]]);
    }
    Some(VoiceProfile::kokoro(voice_id, string_of(&desc).as_str(), string_of(&code).as_str()))
}

} // verus!
