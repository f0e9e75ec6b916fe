use vstd::prelude::*;
use crate::common::Engine;

verus! {

/// A table that holds at most one value per engine.
pub struct EngineMap<T> {
    coeiroink_v2: Option<T>,
    coeiroink_v1: Option<T>,
    voicevox: Option<T>,
    lmroid: Option<T>,
    sharevox: Option<T>,
    itvoice: Option<T>,
    aivis_speech: Option<T>,
    bouyomichan: Option<T>,
}

impl<T> EngineMap<T> {
    /// The value held for `e`, if any.
    pub closed spec fn slot(self, e: Engine) -> Option<T> {
        match e {
            Engine::CoeiroInkV2 => self.coeiroink_v2,
            Engine::CoeiroInkV1 => self.coeiroink_v1,
            Engine::VoiceVox => self.voicevox,
            Engine::Lmroid => self.lmroid,
            Engine::ShareVox => self.sharevox,
            Engine::ItVoice => self.itvoice,
            Engine::AivisSpeech => self.aivis_speech,
            Engine::BouyomiChan => self.bouyomichan,
        }
    }

    /// An empty table.
    pub fn new() -> (r: Self)
        ensures
            r@ == Map::<Engine, T>::empty(),
    {
        let r = EngineMap {
            coeiroink_v2: None,
            coeiroink_v1: None,
            voicevox: None,
            lmroid: None,
            sharevox: None,
            itvoice: None,
            aivis_speech: None,
            bouyomichan: None,
        };
        assert(r@ =~= Map::<Engine, T>::empty());
        r
    }

    /// The value held for `e`, if any.
    pub fn get(&self, e: Engine) -> (r: Option<&T>)
        ensures
            match r {
                Some(v) => self@.contains_key(e) && *v == self@[e],
                None => !self@.contains_key(e),
            },
    {
        let s = match e {
            Engine::CoeiroInkV2 => &self.coeiroink_v2,
            Engine::CoeiroInkV1 => &self.coeiroink_v1,
            Engine::VoiceVox => &self.voicevox,
            Engine::Lmroid => &self.lmroid,
            Engine::ShareVox => &self.sharevox,
            Engine::ItVoice => &self.itvoice,
            Engine::AivisSpeech => &self.aivis_speech,
            Engine::BouyomiChan => &self.bouyomichan,
        };
        match s {
            Some(v) => Some(v),
            None => None,
        }
    }

    /// Whether a value is held for `e`.
    pub fn contains_key(&self, e: Engine) -> (r: bool)
        ensures
            r == self@.contains_key(e),
    {
        self.get(e).is_some()
    }

    /// Puts `v` in the slot of `e`; `None` empties it.
    fn put(&mut self, e: Engine, v: Option<T>)
        ensures
            final(self).slot(e) == v,
            forall|f: Engine| f != e ==> final(self).slot(f) == old(self).slot(f),
    {
        match e {
            Engine::CoeiroInkV2 => self.coeiroink_v2 = v,
            Engine::CoeiroInkV1 => self.coeiroink_v1 = v,
            Engine::VoiceVox => self.voicevox = v,
            Engine::Lmroid => self.lmroid = v,
            Engine::ShareVox => self.sharevox = v,
            Engine::ItVoice => self.itvoice = v,
            Engine::AivisSpeech => self.aivis_speech = v,
            Engine::BouyomiChan => self.bouyomichan = v,
        }
    }

    /// Holds `v` for `e`, in place of what was held before.
    pub fn insert(&mut self, e: Engine, v: T)
        ensures
            final(self)@ == old(self)@.insert(e, v),
    {
        self.put(e, Some(v));
        assert(self@ =~= old(self)@.insert(e, v));
    }

    /// Drops what is held for `e`.
    pub fn remove(&mut self, e: Engine)
        ensures
            final(self)@ == old(self)@.remove(e),
    {
        self.put(e, None);
        assert(self@ =~= old(self)@.remove(e));
    }
}

impl<T> View for EngineMap<T> {
    type V = Map<Engine, T>;

    closed spec fn view(&self) -> Map<Engine, T> {
        Map::new(|e: Engine| self.slot(e) is Some, |e: Engine| self.slot(e)->0)
    }
}

} // verus!
