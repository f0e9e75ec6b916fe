use vstd::prelude::*;
use crate::text::{chars_of, same_text};
use crate::common::{Engine, CharacterVoice, spec_port, engine_list, all_engines, engine_list_complete};
use crate::engine_map::EngineMap;
use crate::voices::{GhostVoices, is_updated};
use vstd::string::StringExecFns;

verus! {

/// Whether `s` begins with `prefix`.
pub open spec fn starts_with_text(s: Seq<char>, prefix: Seq<char>) -> bool {
    prefix.len() <= s.len() && s.take(prefix.len() as int) == prefix
}

/// Whether `s` begins with `prefix`.
pub fn starts_with(s: &str, prefix: &str) -> (r: bool)
    ensures
        r == starts_with_text(s@, prefix@),
{
    let a = chars_of(s);
    let b = chars_of(prefix);
    if b.len() > a.len() {
        return false;
    }
    let mut i: usize = 0;
    while i < b.len()
        invariant
            a@ == s@,
            b@ == prefix@,
            b@.len() <= a@.len(),
            i <= b@.len(),
            forall|j: int| 0 <= j < i ==> a@[j] == b@[j],
        decreases b@.len() - i,
    {
        if a[i] != b[i] {
            assert(s@.take(prefix@.len() as int)[i as int] != prefix@[i as int]);
            return false;
        }
        i = i + 1;
    }
    assert(s@.take(prefix@.len() as int) =~= prefix@);
    true
}

/// Whether saved settings need the update to the current version: when they were saved by no
/// known version, or when the current version is a 1.0.x and they were not saved by one.
pub open spec fn update_needed(current: Seq<char>, last: Option<Seq<char>>) -> bool {
    (starts_with_text(current, "1.0."@) && !(last matches Some(v) && starts_with_text(v, "1.0."@)))
        || last is None
}

/// Whether settings saved by version `last` (none when unknown) need the update to the
/// `current` version.
pub fn needs_update(current: &str, last: &Option<String>) -> (r: bool)
    ensures
        r == update_needed(
            current@,
            match last {
                Some(v) => Some(v@),
                None => None,
            },
        ),
{
    let last_is_1_0 = match last {
        Some(v) => starts_with(v.as_str(), "1.0."),
        None => false,
    };
    (starts_with(current, "1.0.") && !last_is_1_0) || last.is_none()
}

/// An optional string, seen as characters.
pub open spec fn opt_chars(o: Option<String>) -> Option<Seq<char>> {
    match o {
        Some(s) => Some(s@),
        None => None,
    }
}

/// The settings that the plugin keeps in its file between sessions (but the volume, a
/// floating-point number, which the program keeps beside them). A field that is `None` was
/// missing from the file.
pub struct RawGlobalVariables {
    pub engine_path: Option<EngineMap<String>>,
    pub engine_auto_start: Option<EngineMap<bool>>,
    pub speak_by_punctuation: Option<bool>,
    pub ghosts_voices: Option<GhostVoices>,
    pub initial_voice: CharacterVoice,
    pub last_version: Option<String>,
}

impl RawGlobalVariables {
    /// The settings as they stand when none were saved: no engine paths, no engine started
    /// automatically, reading by punctuation, no ghost, the silent default voice and no known
    /// version.
    pub open spec fn is_default(self) -> bool {
        &&& self.engine_path matches Some(p) && p@ == Map::<Engine, String>::empty()
        &&& self.engine_auto_start matches Some(a) && a@ == Map::<Engine, bool>::empty()
        &&& self.speak_by_punctuation == Some(true)
        &&& self.ghosts_voices matches Some(g) && g.entries@.len() == 0
        &&& self.initial_voice.port == spec_port(Engine::VoiceVox)
        &&& self.initial_voice.speaker_uuid@ == "dummy"@
        &&& self.initial_voice.style_id == -1
        &&& self.last_version is None
    }

    /// The settings as they stand when none were saved.
    pub fn defaults() -> (r: Self)
        ensures
            r.is_default(),
    {
        RawGlobalVariables {
            engine_path: Some(EngineMap::new()),
            engine_auto_start: Some(EngineMap::new()),
            speak_by_punctuation: Some(true),
            ghosts_voices: Some(GhostVoices { entries: Vec::new() }),
            initial_voice: CharacterVoice::no_voice(),
            last_version: None,
        }
    }

    /// The settings of a session: those read from the file (`None` when it could not be read
    /// or parsed, which leaves the defaults), each field that the file has in place of the
    /// default; the default voice is the file's; the version becomes `current_version`; and
    /// when the file was saved by a version that needs it, the voices set to "no voice" are
    /// unset.
    pub fn from_loaded(loaded: Option<RawGlobalVariables>, current_version: &str) -> (r: Self)
        ensures
            loaded is None ==> r.is_default(),
            loaded matches Some(v) ==> {
                &&& v.engine_path is Some ==> r.engine_path == v.engine_path
                &&& v.engine_path is None ==> (r.engine_path matches Some(p) && p@ == Map::<Engine, String>::empty())
                &&& v.engine_auto_start is Some ==> r.engine_auto_start == v.engine_auto_start
                &&& v.engine_auto_start is None ==> (r.engine_auto_start matches Some(a) && a@ == Map::<Engine, bool>::empty())
                &&& r.speak_by_punctuation == Some(
                    match v.speak_by_punctuation {
                        Some(s) => s,
                        None => true,
                    },
                )
                &&& r.initial_voice == v.initial_voice
                &&& r.last_version matches Some(l) && l@ == current_version@
                &&& r.ghosts_voices matches Some(g) && if update_needed(current_version@, opt_chars(v.last_version)) {
                    match v.ghosts_voices {
                        Some(o) => is_updated(g, o),
                        None => g.entries@.len() == 0,
                    }
                } else {
                    match v.ghosts_voices {
                        Some(o) => g == o,
                        None => g.entries@.len() == 0,
                    }
                }
            },
    {
        let v = match loaded {
            Some(v) => v,
            None => return Self::defaults(),
        };
        let update = needs_update(current_version, &v.last_version);
        let mut ghosts = match v.ghosts_voices {
            Some(g) => g,
            None => GhostVoices { entries: Vec::new() },
        };
        if update {
            ghosts.update();
        }
        RawGlobalVariables {
            engine_path: match v.engine_path {
                Some(p) => Some(p),
                None => Some(EngineMap::new()),
            },
            engine_auto_start: match v.engine_auto_start {
                Some(a) => Some(a),
                None => Some(EngineMap::new()),
            },
            speak_by_punctuation: Some(
                match v.speak_by_punctuation {
                    Some(s) => s,
                    None => true,
                },
            ),
            ghosts_voices: Some(ghosts),
            initial_voice: v.initial_voice,
            last_version: Some(String::from_str(current_version)),
        }
    }
}

/// The file name of the worker program: an engine's path never names it.
pub const WORKER_FILE_NAME: &'static str = "ghost_speaker_worker.exe";

/// The path held for `e` names the worker program: `names` gives the file name of each
/// engine's path (none where the path has none).
pub open spec fn names_worker(names: Map<Engine, Option<String>>, e: Engine) -> bool {
    names.contains_key(e) && (names[e] matches Some(n) && n@ == WORKER_FILE_NAME@)
}

/// Drops the engine paths that name the worker program, which a damaged settings file may
/// hold; `names` gives the file name of each engine's path, as the path's own parsing finds
/// it. The other paths stay as they are.
pub fn drop_worker_paths(paths: &mut EngineMap<String>, names: &EngineMap<Option<String>>)
    ensures
        final(paths)@ == old(paths)@.remove_keys(Set::new(|e: Engine| names_worker(names@, e))),
{
    let list = engine_list();
    let mut i: usize = 0;
    while i < list.len()
        invariant
            i <= list@.len(),
            list@ == all_engines(),
            paths@ == old(paths)@.remove_keys(
                Set::new(|e: Engine| names_worker(names@, e) && exists|j: int| 0 <= j < i && list@[j] == e),
            ),
        decreases list@.len() - i,
    {
        let e = list[i];
        let worker = match names.get(e) {
            Some(Some(n)) => {
                proof {
                    reveal_strlit("ghost_speaker_worker.exe");
                }
                same_text(n.as_str(), WORKER_FILE_NAME)
            },
            _ => false,
        };
        let ghost before = paths@;
        if worker {
            paths.remove(e);
        }
        proof {
            let s_old = Set::new(|f: Engine| names_worker(names@, f) && exists|j: int| 0 <= j < i && list@[j] == f);
            let s_new = Set::new(|f: Engine| names_worker(names@, f) && exists|j: int| 0 <= j < i + 1 && list@[j] == f);
            assert forall|f: Engine| s_new.contains(f) == (s_old.contains(f) || (worker && f == e)) by {
                if s_new.contains(f) {
                    let j = choose|j: int| 0 <= j < i + 1 && list@[j] == f;
                    if j < i {
                        assert(s_old.contains(f));
                    }
                }
                if worker && f == e {
                    assert(list@[i as int] == f);
                }
                if s_old.contains(f) {
                    let j = choose|j: int| 0 <= j < i && list@[j] == f;
                    assert(0 <= j < i + 1 && list@[j] == f);
                }
            }
            assert(worker == names_worker(names@, e));
            assert(paths@ =~= old(paths)@.remove_keys(s_new));
        }
        i = i + 1;
    }
    proof {
        let s_all = Set::new(|f: Engine| names_worker(names@, f) && exists|j: int| 0 <= j < list@.len() && list@[j] == f);
        assert forall|f: Engine| s_all.contains(f) == names_worker(names@, f) by {
            engine_list_complete(f);
            if names_worker(names@, f) {
                assert(list@[crate::common::engine_index(f)] == f);
            }
        }
        assert(s_all =~= Set::new(|e: Engine| names_worker(names@, e)));
    }
}

} // verus!
