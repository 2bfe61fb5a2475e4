//! The voice catalogue offered by the desktop front end: Kokoro voices, with
//! their languages, and the Coqui XTTS voices.
use vstd::prelude::*;
use vstd::string::*;

use crate::chars::{chars_of, str_eq};
use crate::tts::{format_voice_name, kokoro_voice_ids, language_name, language_name_of, voice_display_name};

verus! {

/// A voice as the front end lists it.
#[derive(Debug, Clone)]
pub struct VoiceInfo {
    pub id: &'static str,
    pub display_name: String,
    pub language: &'static str,
    pub engine: &'static str,
}

/// The Coqui voices: id, display name, language.
pub open spec fn coqui_voice_table() -> Seq<(Seq<char>, Seq<char>, Seq<char>)> {
    seq![
        ("coqui-en"@, "Coqui English"@, "English"@),
        ("coqui-es"@, "Coqui Spanish"@, "Spanish"@),
        ("coqui-fr"@, "Coqui French"@, "French"@),
        ("coqui-de"@, "Coqui German"@, "German"@),
        ("coqui-it"@, "Coqui Italian"@, "Italian"@),
        ("coqui-pt"@, "Coqui Portuguese"@, "Portuguese"@),
        ("coqui-pl"@, "Coqui Polish"@, "Polish"@),
        ("coqui-tr"@, "Coqui Turkish"@, "Turkish"@),
        ("coqui-ru"@, "Coqui Russian"@, "Russian"@),
        ("coqui-nl"@, "Coqui Dutch"@, "Dutch"@),
        ("coqui-cs"@, "Coqui Czech"@, "Czech"@),
        ("coqui-ar"@, "Coqui Arabic"@, "Arabic"@),
        ("coqui-zh-cn"@, "Coqui Chinese (Mandarin)"@, "Chinese"@),
        ("coqui-ja"@, "Coqui Japanese"@, "Japanese"@),
        ("coqui-hu"@, "Coqui Hungarian"@, "Hungarian"@),
        ("coqui-ko"@, "Coqui Korean"@, "Korean"@)
    ]
}

/// `v` describes the Kokoro voice `id`.
pub open spec fn kokoro_info(v: VoiceInfo, id: Seq<char>) -> bool {
    &&& v.id@ == id
    &&& v.display_name@ == voice_display_name(id)
    &&& v.language@ == language_name(if id.len() > 0 { id[0] } else { 'a' })
    &&& v.engine@ == "kokoro"@
}

/// `v` describes the Coqui voice of table row `row`.
pub open spec fn coqui_info(v: VoiceInfo, row: (Seq<char>, Seq<char>, Seq<char>)) -> bool {
    &&& v.id@ == row.0
    &&& v.display_name@ == row.1
    &&& v.language@ == row.2
    &&& v.engine@ == "coqui"@
}

impl VoiceInfo {
    /// The Kokoro voice `id`; its language comes from the first letter of the
    /// id (`a` when the id is empty).
    pub fn new(id: &'static str) -> (r: VoiceInfo)
        ensures
            kokoro_info(r, id@),
    {
        let v = chars_of(id);
        let code = if v.len() > 0 { v[0] } else { 'a' };
        VoiceInfo {
            id,
            display_name: format_voice_name(id),
            language: language_name_of(code),
            engine: "kokoro",
        }
    }

    /// A Coqui voice.
    pub fn new_coqui(id: &'static str, display_name: String, language: &'static str) -> (r: VoiceInfo)
        ensures
            r.id == id,
            r.display_name == display_name,
            r.language == language,
            r.engine@ == "coqui"@,
    {
        VoiceInfo { id, display_name, language, engine: "coqui" }
    }
}

fn kokoro_id_list() -> (r: Vec<&'static str>)
    ensures
        r@.map_values(|s: &str| s@) == kokoro_voice_ids(),
{
    crate::tts::kokoro_id_table()
}

/// Every Kokoro voice, in table order.
pub fn get_all_kokoro_voices() -> (r: Vec<VoiceInfo>)
    ensures
        r@.len() == kokoro_voice_ids().len(),
        forall|i: int| 0 <= i < r@.len() ==> kokoro_info(#[trigger] r@[i], kokoro_voice_ids()[i]),
{
    let ids = kokoro_id_list();
    let mut r: Vec<VoiceInfo> = Vec::new();
    let mut k: usize = 0;
    while k < ids.len()
        invariant
            ids@.map_values(|s: &str| s@) == kokoro_voice_ids(),
            k <= ids@.len(),
            r@.len() == k,
            forall|i: int| 0 <= i < k ==> kokoro_info(#[trigger] r@[i], kokoro_voice_ids()[i]),
        decreases ids@.len() - k,
    {
        proof {
            assert(ids@[k as int]@ == kokoro_voice_ids()[k as int]);
        }
        r.push(VoiceInfo::new(ids[k]));
        k += 1;
    }
    r
}

/// Every Coqui voice, in table order.
pub fn get_all_coqui_voices() -> (r: Vec<VoiceInfo>)
    ensures
        r@.len() == coqui_voice_table().len(),
        forall|i: int| 0 <= i < r@.len() ==> coqui_info(#[trigger] r@[i], coqui_voice_table()[i]),
{
    let mut v: Vec<VoiceInfo> = Vec::new();
    v.push(VoiceInfo::new_coqui("coqui-en", String::from_str("Coqui English"), "English"));
    v.push(VoiceInfo::new_coqui("coqui-es", String::from_str("Coqui Spanish"), "Spanish"));
    v.push(VoiceInfo::new_coqui("coqui-fr", String::from_str("Coqui French"), "French"));
    v.push(VoiceInfo::new_coqui("coqui-de", String::from_str("Coqui German"), "German"));
    v.push(VoiceInfo::new_coqui("coqui-it", String::from_str("Coqui Italian"), "Italian"));
    v.push(VoiceInfo::new_coqui("coqui-pt", String::from_str("Coqui Portuguese"), "Portuguese"));
    v.push(VoiceInfo::new_coqui("coqui-pl", String::from_str("Coqui Polish"), "Polish"));
    v.push(VoiceInfo::new_coqui("coqui-tr", String::from_str("Coqui Turkish"), "Turkish"));
    v.push(VoiceInfo::new_coqui("coqui-ru", String::from_str("Coqui Russian"), "Russian"));
    v.push(VoiceInfo::new_coqui("coqui-nl", String::from_str("Coqui Dutch"), "Dutch"));
    v.push(VoiceInfo::new_coqui("coqui-cs", String::from_str("Coqui Czech"), "Czech"));
    v.push(VoiceInfo::new_coqui("coqui-ar", String::from_str("Coqui Arabic"), "Arabic"));
    v.push(VoiceInfo::new_coqui("coqui-zh-cn", String::from_str("Coqui Chinese (Mandarin)"), "Chinese"));
    v.push(VoiceInfo::new_coqui("coqui-ja", String::from_str("Coqui Japanese"), "Japanese"));
    v.push(VoiceInfo::new_coqui("coqui-hu", String::from_str("Coqui Hungarian"), "Hungarian"));
    v.push(VoiceInfo::new_coqui("coqui-ko", String::from_str("Coqui Korean"), "Korean"));
    v
}

/// Every voice: the Kokoro voices, then the Coqui voices.
pub fn get_all_voices() -> (r: Vec<VoiceInfo>)
    ensures
        r@.len() == kokoro_voice_ids().len() + coqui_voice_table().len(),
        forall|i: int| 0 <= i < kokoro_voice_ids().len() ==> kokoro_info(#[trigger] r@[i], kokoro_voice_ids()[i]),
        forall|i: int|
            kokoro_voice_ids().len() <= i < r@.len() ==> coqui_info(
                #[trigger] r@[i],
                coqui_voice_table()[i - kokoro_voice_ids().len()],
            ),
{
    let mut voices = get_all_kokoro_voices();
    let mut coqui = get_all_coqui_voices();
    let ghost a = voices@;
    let ghost b = coqui@;
    voices.append(&mut coqui);
    proof {
        assert(voices@ == a + b);
        assert forall|i: int| kokoro_voice_ids().len() <= i < voices@.len() implies coqui_info(
            #[trigger] voices@[i],
            coqui_voice_table()[i - kokoro_voice_ids().len()],
        ) by {
            assert(voices@[i] == b[i - a.len()]);
        }
        assert forall|i: int| 0 <= i < kokoro_voice_ids().len() implies kokoro_info(#[trigger] voices@[i], kokoro_voice_ids()[i]) by {
            assert(voices@[i] == a[i]);
        }
    }
    voices
}

/// The voice with id `voice_id`: a Coqui voice when one has that id, else the
/// Kokoro voice, else nothing.
pub fn get_voice_info(voice_id: &str) -> (r: Option<VoiceInfo>)
    ensures
        (exists|i: int| 0 <= i < coqui_voice_table().len() && #[trigger] coqui_voice_table()[i].0 == voice_id@)
            ==> (r matches Some(v) && coqui_info(v, coqui_voice_table()[coqui_index(voice_id@)])),
        !(exists|i: int| 0 <= i < coqui_voice_table().len() && #[trigger] coqui_voice_table()[i].0 == voice_id@)
            && kokoro_voice_ids().contains(voice_id@) ==> (r matches Some(v) && kokoro_info(v, voice_id@)),
        !(exists|i: int| 0 <= i < coqui_voice_table().len() && #[trigger] coqui_voice_table()[i].0 == voice_id@)
            && !kokoro_voice_ids().contains(voice_id@) ==> r is None,
{
    let coqui = get_all_coqui_voices();
    let mut k: usize = 0;
    while k < coqui.len()
        invariant
            coqui@.len() == coqui_voice_table().len(),
            forall|i: int| 0 <= i < coqui@.len() ==> coqui_info(#[trigger] coqui@[i], coqui_voice_table()[i]),
            k <= coqui@.len(),
            forall|j: int| 0 <= j < k ==> (#[trigger] coqui_voice_table()[j]).0 != voice_id@,
        decreases coqui@.len() - k,
    {
        if str_eq(coqui[k].id, voice_id) {
            proof {
                assert(coqui_info(coqui@[k as int], coqui_voice_table()[k as int]));
                lemma_coqui_index(voice_id@, k as int);
            }
            let found = coqui[k].clone_info();
            return Some(found);
        }
        k += 1;
    }
    let ids = kokoro_id_list();
    let mut j: usize = 0;
    while j < ids.len()
        invariant
            ids@.map_values(|s: &str| s@) == kokoro_voice_ids(),
            j <= ids@.len(),
            forall|i: int| 0 <= i < j ==> kokoro_voice_ids()[i] != voice_id@,
            forall|i: int| 0 <= i < coqui_voice_table().len() ==> (#[trigger] coqui_voice_table()[i]).0 != voice_id@,
        decreases ids@.len() - j,
    {
        proof {
            assert(ids@[j as int]@ == kokoro_voice_ids()[j as int]);
        }
        if str_eq(ids[j], voice_id) {
            return Some(VoiceInfo::new(ids[j]));
        }
        j += 1;
    }
    None
}

/// The position of the first Coqui voice with id `id`.
pub open spec fn coqui_index(id: Seq<char>) -> int {
    choose|i: int| 0 <= i < coqui_voice_table().len() && coqui_voice_table()[i].0 == id && forall|j: int| 0 <= j < i ==> (#[trigger] coqui_voice_table()[j]).0 != id
}

proof fn lemma_coqui_index(id: Seq<char>, k: int)
    requires
        0 <= k < coqui_voice_table().len(),
        coqui_voice_table()[k].0 == id,
        forall|j: int| 0 <= j < k ==> (#[trigger] coqui_voice_table()[j]).0 != id,
    ensures
        coqui_index(id) == k,
{
    let c = coqui_index(id);
    assert(0 <= c < coqui_voice_table().len() && coqui_voice_table()[c].0 == id && forall|j: int| 0 <= j < c ==> (#[trigger] coqui_voice_table()[j]).0 != id);
    if c < k {
        assert(coqui_voice_table()[c].0 != id);
    } else if c > k {
        assert(coqui_voice_table()[k].0 != id);
    }
}

impl VoiceInfo {
    /// A copy of this entry.
    pub fn clone_info(&self) -> (r: VoiceInfo)
        ensures
            r.id == self.id,
            r.display_name@ == self.display_name@,
            r.language == self.language,
            r.engine == self.engine,
    {
        VoiceInfo {
            id: self.id,
            display_name: self.display_name.clone(),
            language: self.language,
            engine: self.engine,
        }
    }
}

} // verus!
