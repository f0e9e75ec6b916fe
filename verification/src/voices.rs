use vstd::prelude::*;
use crate::common::{GhostVoiceInfo, CharacterVoice, NO_VOICE_UUID};
use crate::text::same_text;

verus! {

/// The settings held for `name`: those of the first entry under that name.
pub open spec fn lookup(entries: Seq<(String, GhostVoiceInfo)>, name: Seq<char>) -> Option<GhostVoiceInfo>
    decreases entries.len(),
{
    if entries.len() == 0 {
        None
    } else if entries[0].0@ == name {
        Some(entries[0].1)
    } else {
        lookup(entries.drop_first(), name)
    }
}

/// The position of the first entry under `name`, if any.
pub open spec fn first_index(entries: Seq<(String, GhostVoiceInfo)>, name: Seq<char>) -> Option<int>
    decreases entries.len(),
{
    if entries.len() == 0 {
        None
    } else if entries[0].0@ == name {
        Some(0)
    } else {
        match first_index(entries.drop_first(), name) {
            Some(i) => Some(i + 1),
            None => None,
        }
    }
}

/// The voice settings of each ghost, by the ghost's name.
pub struct GhostVoices {
    pub entries: Vec<(String, GhostVoiceInfo)>,
}

proof fn lemma_first_index(entries: Seq<(String, GhostVoiceInfo)>, name: Seq<char>)
    ensures
        match first_index(entries, name) {
            Some(i) => 0 <= i < entries.len() && entries[i].0@ == name && lookup(entries, name)
                == Some(entries[i].1) && forall|j: int| 0 <= j < i ==> entries[j].0@ != name,
            None => lookup(entries, name) is None && forall|j: int|
                0 <= j < entries.len() ==> entries[j].0@ != name,
        },
    decreases entries.len(),
{
    if entries.len() > 0 && entries[0].0@ != name {
        lemma_first_index(entries.drop_first(), name);
        assert forall|j: int| 1 <= j < entries.len() implies entries[j] == entries.drop_first()[j - 1] by {}
    }
}

proof fn lemma_lookup_update(
    entries: Seq<(String, GhostVoiceInfo)>,
    i: int,
    key: String,
    info: GhostVoiceInfo,
    name: Seq<char>,
)
    requires
        0 <= i < entries.len(),
        entries[i].0@ == key@,
        forall|j: int| 0 <= j < i ==> entries[j].0@ != key@,
    ensures
        lookup(entries.update(i, (key, info)), name) == if name == key@ {
            Some(info)
        } else {
            lookup(entries, name)
        },
    decreases i,
{
    let updated = entries.update(i, (key, info));
    if i > 0 {
        assert(updated.drop_first() =~= entries.drop_first().update(i - 1, (key, info)));
        assert(entries[0].0@ != key@);
        assert forall|j: int| 0 <= j < i - 1 implies entries.drop_first()[j].0@ != key@ by {
            assert(entries.drop_first()[j] == entries[j + 1]);
        }
        lemma_lookup_update(entries.drop_first(), i - 1, key, info, name);
        assert(updated[0] == entries[0]);
    } else {
        assert(updated.drop_first() =~= entries.drop_first());
    }
}

proof fn lemma_lookup_push(
    entries: Seq<(String, GhostVoiceInfo)>,
    key: String,
    info: GhostVoiceInfo,
    name: Seq<char>,
)
    requires
        lookup(entries, key@) is None,
    ensures
        lookup(entries.push((key, info)), name) == if name == key@ {
            Some(info)
        } else {
            lookup(entries, name)
        },
    decreases entries.len(),
{
    let pushed = entries.push((key, info));
    if entries.len() > 0 {
        assert(entries[0].0@ != key@);
        assert(pushed.drop_first() =~= entries.drop_first().push((key, info)));
        lemma_lookup_push(entries.drop_first(), key, info, name);
        assert(pushed[0] == entries[0]);
        assert(pushed.len() > 0);
        if entries[0].0@ == name {
            assert(lookup(pushed, name) == Some(entries[0].1));
        } else {
            assert(lookup(pushed, name) == lookup(pushed.drop_first(), name));
        }
    } else {
        assert(pushed.drop_first() =~= Seq::<(String, GhostVoiceInfo)>::empty());
        assert(pushed[0] == (key, info));
    }
}

impl View for GhostVoices {
    type V = Map<Seq<char>, GhostVoiceInfo>;

    open spec fn view(&self) -> Map<Seq<char>, GhostVoiceInfo> {
        Map::new(
            |k: Seq<char>| lookup(self.entries@, k) is Some,
            |k: Seq<char>| lookup(self.entries@, k)->0,
        )
    }
}

impl GhostVoices {
    /// A table with no ghost.
    pub fn new() -> (r: Self)
        ensures
            r@ == Map::<Seq<char>, GhostVoiceInfo>::empty(),
    {
        let r = GhostVoices { entries: Vec::new() };
        assert(r@ =~= Map::<Seq<char>, GhostVoiceInfo>::empty());
        r
    }

    /// The position of the entry under `name`, if any.
    fn position(&self, name: &str) -> (r: Option<usize>)
        ensures
            match r {
                Some(i) => first_index(self.entries@, name@) == Some(i as int),
                None => first_index(self.entries@, name@) is None,
            },
    {
        proof {
            lemma_first_index(self.entries@, name@);
        }
        let mut i: usize = 0;
        while i < self.entries.len()
            invariant
                i <= self.entries@.len(),
                forall|j: int| 0 <= j < i ==> self.entries@[j].0@ != name@,
                match first_index(self.entries@, name@) {
                    Some(k) => 0 <= k < self.entries@.len() && self.entries@[k].0@ == name@
                        && forall|j: int| 0 <= j < k ==> self.entries@[j].0@ != name@,
                    None => forall|j: int|
                        0 <= j < self.entries@.len() ==> self.entries@[j].0@ != name@,
                },
            decreases self.entries@.len() - i,
        {
            if same_text(self.entries[i].0.as_str(), name) {
                return Some(i);
            }
            i = i + 1;
        }
        None
    }

    /// The settings of the ghost `name`, if it has any.
    pub fn get(&self, name: &str) -> (r: Option<&GhostVoiceInfo>)
        ensures
            match r {
                Some(v) => self@.contains_key(name@) && *v == self@[name@],
                None => !self@.contains_key(name@),
            },
    {
        proof {
            lemma_first_index(self.entries@, name@);
        }
        match self.position(name) {
            Some(i) => Some(&self.entries[i].1),
            None => None,
        }
    }

    /// Whether the ghost `name` has settings.
    pub fn contains(&self, name: &str) -> (r: bool)
        ensures
            r == self@.contains_key(name@),
    {
        self.get(name).is_some()
    }

    /// Holds `info` for the ghost `name`, in place of what was held before.
    pub fn insert(&mut self, name: String, info: GhostVoiceInfo)
        ensures
            final(self)@ == old(self)@.insert(name@, info),
    {
        proof {
            lemma_first_index(self.entries@, name@);
        }
        let ghost old_entries = self.entries@;
        match self.position(name.as_str()) {
            Some(i) => {
                proof {
                    assert forall|k: Seq<char>| #[trigger] lookup(old_entries.update(i as int, (name, info)), k)
                        == if k == name@ { Some(info) } else { lookup(old_entries, k) } by {
                        lemma_lookup_update(old_entries, i as int, name, info, k);
                    }
                }
                self.entries.set(i, (name, info));
            },
            None => {
                proof {
                    assert forall|k: Seq<char>| #[trigger] lookup(old_entries.push((name, info)), k)
                        == if k == name@ { Some(info) } else { lookup(old_entries, k) } by {
                        lemma_lookup_push(old_entries, name, info, k);
                    }
                }
                self.entries.push((name, info));
            },
        }
        assert(self@ =~= old(self)@.insert(name@, info));
    }
}

/// A voice as the settings keep it after an update from an older version: "no voice" is
/// stored as no voice at all.
pub open spec fn updated_voice(v: Option<CharacterVoice>) -> Option<CharacterVoice> {
    match v {
        Some(c) => if c.speaker_uuid@ == NO_VOICE_UUID@ {
            None
        } else {
            Some(c)
        },
        None => None,
    }
}

fn update_voices(v: &Vec<Option<CharacterVoice>>) -> (r: Vec<Option<CharacterVoice>>)
    ensures
        r@ == v@.map_values(|x: Option<CharacterVoice>| updated_voice(x)),
{
    let mut r: Vec<Option<CharacterVoice>> = Vec::new();
    let mut i: usize = 0;
    while i < v.len()
        invariant
            i <= v@.len(),
            r@ == v@.take(i as int).map_values(|x: Option<CharacterVoice>| updated_voice(x)),
        decreases v@.len() - i,
    {
        let nv = match &v[i] {
            Some(c) => if same_text(c.speaker_uuid.as_str(), NO_VOICE_UUID) {
                None
            } else {
                Some(c.duplicate())
            },
            None => None,
        };
        r.push(nv);
        assert(v@.take(i + 1).map_values(|x: Option<CharacterVoice>| updated_voice(x)) =~= v@.take(
            i as int,
        ).map_values(|x: Option<CharacterVoice>| updated_voice(x)).push(updated_voice(v@[i as int])));
        i = i + 1;
    }
    assert(v@.take(v@.len() as int) =~= v@);
    r
}

/// `g` is `o` brought up to date: the same ghosts in the same order, with the same settings,
/// but every voice set to "no voice" unset.
pub open spec fn is_updated(g: GhostVoices, o: GhostVoices) -> bool {
    &&& g.entries@.len() == o.entries@.len()
    &&& forall|i: int|
        0 <= i < g.entries@.len() ==> {
            let (n, gi) = #[trigger] g.entries@[i];
            let (on, ogi) = o.entries@[i];
            &&& n == on
            &&& gi.devide_by_lines == ogi.devide_by_lines
            &&& gi.sync_speech_to_balloon == ogi.sync_speech_to_balloon
            &&& gi.voices@ == ogi.voices@.map_values(|x: Option<CharacterVoice>| updated_voice(x))
        }
}

impl GhostVoices {
    /// Brings settings saved by an older version up to date: every voice set to "no voice" is
    /// unset instead; nothing else changes.
    pub fn update(&mut self)
        ensures
            is_updated(*final(self), *old(self)),
            final(self).entries@.len() == old(self).entries@.len(),
            forall|i: int|
                0 <= i < final(self).entries@.len() ==> {
                    let (n, g) = #[trigger] final(self).entries@[i];
                    let (on, og) = old(self).entries@[i];
                    &&& n == on
                    &&& g.devide_by_lines == og.devide_by_lines
                    &&& g.sync_speech_to_balloon == og.sync_speech_to_balloon
                    &&& g.voices@ == og.voices@.map_values(|x: Option<CharacterVoice>| updated_voice(x))
                },
    {
        let mut entries: Vec<(String, GhostVoiceInfo)> = Vec::new();
        let mut i: usize = 0;
        while i < self.entries.len()
            invariant
                i <= self.entries@.len(),
                entries@.len() == i,
                forall|k: int|
                    0 <= k < i ==> {
                        let (n, g) = #[trigger] entries@[k];
                        let (on, og) = self.entries@[k];
                        &&& n == on
                        &&& g.devide_by_lines == og.devide_by_lines
                        &&& g.sync_speech_to_balloon == og.sync_speech_to_balloon
                        &&& g.voices@ == og.voices@.map_values(|x: Option<CharacterVoice>| updated_voice(x))
                    },
            decreases self.entries@.len() - i,
        {
            let (name, info) = &self.entries[i];
            let g = GhostVoiceInfo {
                devide_by_lines: info.devide_by_lines,
                sync_speech_to_balloon: info.sync_speech_to_balloon,
                voices: update_voices(&info.voices),
            };
            entries.push((name.clone(), g));
            i = i + 1;
        }
        self.entries = entries;
    }
}

} // verus!
