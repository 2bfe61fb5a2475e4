//! User preferences and the choices made from them.
use vstd::prelude::*;

use crate::tts::{find_voice, first_with_id, VoiceProfile};

verus! {

/// Persisted preferences: the newline-folding default, the last voice used,
/// and the most recently converted files, newest first.
#[derive(Debug, Clone)]
pub struct AppConfig {
    pub replace_single_newlines: bool,
    pub default_voice: Option<String>,
    pub recent_files: Vec<String>,
}

/// Most recent files remembered.
pub const MAX_RECENT_FILES: usize = 10;

pub open spec fn string_views(s: Seq<String>) -> Seq<Seq<char>> {
    s.map_values(|x: String| x@)
}

impl Default for AppConfig {
    fn default() -> (r: AppConfig)
        ensures
            !r.replace_single_newlines,
            r.default_voice is None,
            r.recent_files@.len() == 0,
    {
        AppConfig { replace_single_newlines: false, default_voice: None, recent_files: Vec::new() }
    }
}

/// `files` with every entry equal to `path` removed.
pub open spec fn without(files: Seq<Seq<char>>, path: Seq<char>) -> Seq<Seq<char>>
    decreases files.len(),
{
    if files.len() == 0 {
        files
    } else if files.last() == path {
        without(files.drop_last(), path)
    } else {
        without(files.drop_last(), path).push(files.last())
    }
}

/// The recent-file list after `path` is used: `path` first, then the earlier
/// entries other than `path`, at most ten in all.
pub open spec fn recent_after(files: Seq<Seq<char>>, path: Seq<char>) -> Seq<Seq<char>> {
    let l = seq![path] + without(files, path);
    if l.len() > MAX_RECENT_FILES {
        l.take(MAX_RECENT_FILES as int)
    } else {
        l
    }
}

/// The voice named as the default in `config`, when it is among `voices`.
pub fn resolve_voice<'a>(voices: &'a [VoiceProfile], config: &AppConfig) -> (r: Option<
    &'a VoiceProfile,
>)
    ensures
        config.default_voice is None ==> r is None,
        config.default_voice matches Some(d) ==> first_with_id(voices@, d@, r),
{
    match &config.default_voice {
        Some(d) => find_voice(voices, d.as_str()),
        None => None,
    }
}

/// The voice to use: the requested one (and nothing when it is unknown);
/// without a request, the configured default when it is known; else the
/// first voice.
pub fn select_voice<'a>(voices: &'a [VoiceProfile], config: &AppConfig, requested: Option<&str>) -> (r:
    Option<&'a VoiceProfile>)
    ensures
        requested matches Some(id) ==> first_with_id(voices@, id@, r),
        requested is None ==> (match config.default_voice {
            Some(d) => if exists|j: int| 0 <= j < voices@.len() && (#[trigger] voices@[j]).id@ == d@ {
                first_with_id(voices@, d@, r)
            } else {
                r == (if voices@.len() > 0 { Some(&voices@[0]) } else { None::<&VoiceProfile> })
            },
            None => r == (if voices@.len() > 0 { Some(&voices@[0]) } else { None::<&VoiceProfile> }),
        }),
{
    if let Some(id) = requested {
        return find_voice(voices, id);
    }
    if let Some(d) = &config.default_voice {
        let found = find_voice(voices, d.as_str());
        if found.is_some() {
            return found;
        }
    }
    if voices.len() > 0 {
        Some(&voices[0])
    } else {
        None
    }
}

fn copy_string(s: &String) -> (r: String)
    ensures
        r@ == s@,
{
    s.clone()
}

/// Records a finished conversion: the voice becomes the default, the
/// newline-folding choice is kept, and `input` (when it is valid text) moves
/// to the front of the recent files.
pub fn update_config(
    config: &mut AppConfig,
    voice: &VoiceProfile,
    input: Option<&str>,
    replace_single_newlines: bool,
)
    ensures
        final(config).default_voice matches Some(d) && d@ == voice.id@,
        final(config).replace_single_newlines == replace_single_newlines,
        input matches Some(p) ==> string_views(final(config).recent_files@) == recent_after(
            string_views(old(config).recent_files@),
            p@,
        ),
        input is None ==> final(config).recent_files@ == old(config).recent_files@,
{
    config.default_voice = Some(copy_string(&voice.id));
    config.replace_single_newlines = replace_single_newlines;
    if let Some(path) = input {
        let ghost files = string_views(config.recent_files@);
        let mut kept: Vec<String> = Vec::new();
        kept.push(String::from_str(path));
        let mut i: usize = 0;
        proof {
            assert(files.subrange(0, 0) =~= Seq::<Seq<char>>::empty());
            assert(string_views(kept@) =~= seq![path@] + without(files.subrange(0, 0), path@));
        }
        while i < config.recent_files.len()
            invariant
                files == string_views(config.recent_files@),
                i <= files.len(),
                string_views(kept@) == seq![path@] + without(files.subrange(0, i as int), path@),
            decreases files.len() - i,
        {
            let ghost pre = files.subrange(0, i + 1);
            proof {
                assert(pre.drop_last() =~= files.subrange(0, i as int));
                assert(pre.last() == config.recent_files@[i as int]@);
            }
            if !crate::chars::str_eq(config.recent_files[i].as_str(), path) {
                let ghost before = string_views(kept@);
                kept.push(copy_string(&config.recent_files[i]));
                proof {
                    assert(string_views(kept@) =~= before.push(files[i as int]));
                }
            }
            i += 1;
        }
        proof {
            assert(files.subrange(0, i as int) =~= files);
        }
        if kept.len() > MAX_RECENT_FILES {
            kept.truncate(MAX_RECENT_FILES);
            proof {
                assert(string_views(kept@) =~= (seq![path@] + without(files, path@)).take(MAX_RECENT_FILES as int));
            }
        }
        config.recent_files = kept;
    }
}

} // verus!
