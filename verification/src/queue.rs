use vstd::prelude::*;
use std::collections::VecDeque;
use crate::common::{Engine, CharacterVoice, SpeakerInfo, SegmentInfo, same_speakers, duplicate_speakers, SyncState, Response, NO_VOICE_UUID, spec_engine_from_port, spec_name,
    engine_from_port, engine_list, all_engines, engine_list_complete};
use crate::engine_map::EngineMap;
use crate::voices::GhostVoices;
use crate::engine::{NoOpPredictor, CoeiroinkV2Predictor, PredictorPlan, PlanView};
use crate::format::{Dialog, dialogs_view, dialogs_of, split_dialog, is_ellipsis_segment,
    split_by_punctuation_with_raw, resplit_pairs_by_raw_ellipsis};
use crate::punct::is_ellipsis_text;
use crate::align::{with_raw, pairs_view};
use crate::resplit::resplit_all;
use crate::text::{same_text, strs};
use vstd::string::StringExecFns;
use vstd::arithmetic::power2::{pow2, lemma2_to64, lemma_pow2_unfold, lemma_pow2_strictly_increases};

verus! {

/// A segment of a talk with the way it is to be synthesized.
pub struct SyncSegment {
    pub text: String,
    pub raw_text: String,
    pub scope: usize,
    pub predictor: PredictorPlan,
}

impl View for SyncSegment {
    type V = (Seq<char>, Seq<char>, int, PlanView);

    open spec fn view(&self) -> (Seq<char>, Seq<char>, int, PlanView) {
        (self.text@, self.raw_text@, self.scope as int, self.predictor@)
    }
}

/// The views of a sequence of segments.
pub open spec fn segments_view(v: Seq<SyncSegment>) -> Seq<(Seq<char>, Seq<char>, int, PlanView)> {
    v.map_values(|s: SyncSegment| s@)
}

/// A synthesized segment waiting to be shown: its text, raw text, character and sound.
pub struct SyncReadySegment {
    pub text: String,
    pub raw_text: String,
    pub scope: usize,
    pub wav: Vec<u8>,
}

/// A talk that is being spoken in pace with the balloon: the segments synthesized so far and
/// not shown yet, the ghost that talks, and whether every segment has been synthesized.
pub struct SyncPlaybackState {
    pub ready_queue: VecDeque<SyncReadySegment>,
    pub ghost_name: String,
    pub all_predicted: bool,
}

/// The state that the worker's tasks share.
pub struct WorkerState {
    /// The worker is stopping: nothing new is queued or played.
    pub shutting_down: bool,
    /// The background loops are asked to end.
    pub stop_tasks: bool,
    /// The sound that plays is to stop at once.
    pub force_stop_sink: bool,
    /// Whether a line is split into segments at punctuation.
    pub speak_by_punctuation: bool,
    /// The voice settings of each ghost.
    pub ghosts_voices: GhostVoices,
    /// The voice of a character that has none of its own.
    pub initial_voice: CharacterVoice,
    /// Whether each engine was reachable at its last check.
    pub connection_status: EngineMap<bool>,
    /// The voices that each reachable engine offers.
    pub speakers_info: EngineMap<Vec<SpeakerInfo>>,
    /// The executable of each engine, as found from the process listening on its port.
    pub engine_path: EngineMap<String>,
    /// Whether each engine is started with the worker.
    pub engine_auto_start: EngineMap<bool>,
    /// How many checks of each engine have failed in a row.
    pub consecutive_failures: EngineMap<u32>,
    /// Messages for the user, oldest first.
    pub connection_dialogs: Vec<String>,
    /// Talks waiting to be synthesized: the text and the ghost's name.
    pub predict_queue: VecDeque<(String, String)>,
    /// Sounds waiting to be played.
    pub play_queue: VecDeque<Vec<u8>>,
    /// The talk spoken in pace with the balloon, if any.
    pub sync_state: Option<SyncPlaybackState>,
    /// How many sounds of such talks have been started.
    pub sync_audio_generation: u64,
    /// The latest of those sounds that has finished.
    pub sync_audio_done_gen: u64,
    /// The ghost whose talk is spoken in pace with the balloon, as the plugin polls for it.
    pub sync_ghost_name: Option<String>,
}

/// The voice that speaks character `scope`: the ghost's own setting where there is one, else
/// the default voice; the flag tells which.
pub open spec fn chosen_voice(voices: Seq<Option<CharacterVoice>>, scope: int, initial: CharacterVoice) -> (
    CharacterVoice,
    bool,
) {
    if 0 <= scope < voices.len() && voices[scope] is Some {
        (voices[scope]->0, true)
    } else {
        (initial, false)
    }
}

/// Whether the speaker `uuid` is usable with engine `e`: the engine's list of voices, where
/// it is known, names it.
pub open spec fn voice_listed(info: Map<Engine, Vec<SpeakerInfo>>, e: Engine, uuid: Seq<char>) -> bool {
    !info.contains_key(e) || exists|i: int|
        0 <= i < info[e]@.len() && (#[trigger] info[e]@[i]).speaker_uuid@ == uuid
}

/// The segments of one line with their raw text: split at punctuation (and, in pace with the
/// balloon, also at ellipses hidden in quick sections) unless the engine is BouyomiChan or
/// neither splitting nor pacing is asked for.
pub open spec fn segment_pairs(
    text: Seq<char>,
    raw: Seq<char>,
    e: Engine,
    by_punctuation: bool,
    sync_mode: bool,
) -> Seq<(Seq<char>, Seq<char>)> {
    if (by_punctuation || sync_mode) && e != Engine::BouyomiChan {
        let p = with_raw(text, raw);
        if sync_mode {
            resplit_all(p)
        } else {
            p
        }
    } else {
        seq![(text, raw)]
    }
}

/// How a segment of text `t` is synthesized by engine `e` in the given voice.
pub open spec fn plan_for(t: Seq<char>, e: Engine, voice: CharacterVoice, from_ghost: bool) -> PlanView {
    if is_ellipsis_text(t) {
        PlanView::NoOp
    } else {
        match e {
            Engine::CoeiroInkV2 => PlanView::CoeiroinkV2 {
                text: t,
                speaker_uuid: voice.speaker_uuid@,
                style_id: voice.style_id,
            },
            Engine::BouyomiChan => PlanView::Bouyomichan { text: t, style_id: voice.style_id },
            _ => PlanView::VoicevoxFamily {
                engine: e,
                text: t,
                speaker: voice.style_id,
                from_ghost,
            },
        }
    }
}

/// The segments of one line: none when the line is empty, when its voice is "no voice", names
/// no engine, or is unknown to its engine; else one per piece of the line.
pub open spec fn dialog_segments(
    d: (Seq<char>, Seq<char>, int),
    voices: Seq<Option<CharacterVoice>>,
    initial: CharacterVoice,
    info: Map<Engine, Vec<SpeakerInfo>>,
    by_punctuation: bool,
    sync_mode: bool,
) -> Seq<(Seq<char>, Seq<char>, int, PlanView)> {
    let (voice, from_ghost) = chosen_voice(voices, d.2, initial);
    if d.0.len() == 0 || voice.speaker_uuid@ == NO_VOICE_UUID@ {
        Seq::empty()
    } else {
        match spec_engine_from_port(voice.port as int) {
            None => Seq::empty(),
            Some(e) => if !voice_listed(info, e, voice.speaker_uuid@) {
                Seq::empty()
            } else {
                let pairs = segment_pairs(d.0, d.1, e, by_punctuation, sync_mode);
                Seq::new(
                    pairs.len(),
                    |k: int| (pairs[k].0, pairs[k].1, d.2, plan_for(pairs[k].0, e, voice, from_ghost)),
                )
            },
        }
    }
}

/// The segments of the lines, in order.
pub open spec fn segments_from(
    ds: Seq<(Seq<char>, Seq<char>, int)>,
    voices: Seq<Option<CharacterVoice>>,
    initial: CharacterVoice,
    info: Map<Engine, Vec<SpeakerInfo>>,
    by_punctuation: bool,
    sync_mode: bool,
) -> Seq<(Seq<char>, Seq<char>, int, PlanView)>
    decreases ds.len(),
{
    if ds.len() == 0 {
        Seq::empty()
    } else {
        dialog_segments(ds[0], voices, initial, info, by_punctuation, sync_mode) + segments_from(
            ds.drop_first(),
            voices,
            initial,
            info,
            by_punctuation,
            sync_mode,
        )
    }
}

/// Whether some engine was reachable at its last check.
pub open spec fn any_connected(cs: Map<Engine, bool>) -> bool {
    exists|e: Engine| cs.contains_key(e) && cs[e]
}

/// The segments of a ghost's talk, as the worker builds them from its settings.
pub open spec fn talk_segments(s: WorkerState, text: Seq<char>, ghost: Seq<char>, sync_mode: bool) -> Seq<
    (Seq<char>, Seq<char>, int, PlanView),
> {
    let info = s.ghosts_voices@[ghost];
    segments_from(
        dialogs_of(text, info.devide_by_lines),
        info.voices@,
        s.initial_voice,
        s.speakers_info@,
        s.speak_by_punctuation,
        sync_mode,
    )
}

/// Whether the worker can build segments for the ghost: some engine is reachable and the
/// ghost has voice settings.
pub open spec fn can_build(s: WorkerState, ghost: Seq<char>) -> bool {
    any_connected(s.connection_status@) && s.ghosts_voices@.contains_key(ghost)
}

fn plan_segment(t: &String, e: Engine, voice: &CharacterVoice, from_ghost: bool) -> (r: PredictorPlan)
    ensures
        r@ == plan_for(t@, e, *voice, from_ghost),
{
    if is_ellipsis_segment(t.as_str()) {
        return PredictorPlan::NoOp(NoOpPredictor);
    }
    match e {
        Engine::CoeiroInkV2 => PredictorPlan::CoeiroinkV2(
            CoeiroinkV2Predictor::new(t.clone(), voice.speaker_uuid.clone(), voice.style_id),
        ),
        Engine::BouyomiChan => PredictorPlan::Bouyomichan { text: t.clone(), style_id: voice.style_id },
        _ => PredictorPlan::VoicevoxFamily { engine: e, text: t.clone(), speaker: voice.style_id, from_ghost },
    }
}

fn speaker_listed(list: &Vec<SpeakerInfo>, uuid: &String) -> (r: bool)
    ensures
        r == exists|i: int| 0 <= i < list@.len() && (#[trigger] list@[i]).speaker_uuid@ == uuid@,
{
    let mut i: usize = 0;
    while i < list.len()
        invariant
            i <= list@.len(),
            forall|j: int| 0 <= j < i ==> (#[trigger] list@[j]).speaker_uuid@ != uuid@,
        decreases list@.len() - i,
    {
        if list[i].speaker_uuid == *uuid {
            return true;
        }
        i = i + 1;
    }
    false
}

impl WorkerState {
    /// Whether some engine was reachable at its last check.
    pub fn has_connected_engine(&self) -> (r: bool)
        ensures
            r == any_connected(self.connection_status@),
    {
        let list = engine_list();
        let mut i: usize = 0;
        while i < list.len()
            invariant
                list@ == all_engines(),
                i <= list@.len(),
                forall|j: int|
                    0 <= j < i ==> !(self.connection_status@.contains_key(#[trigger] all_engines()[j])
                        && self.connection_status@[all_engines()[j]]),
            decreases list@.len() - i,
        {
            match self.connection_status.get(list[i]) {
                Some(b) => {
                    if *b {
                        return true;
                    }
                },
                None => {},
            }
            i = i + 1;
        }
        assert forall|e: Engine| !(self.connection_status@.contains_key(e) && self.connection_status@[e]) by {
            engine_list_complete(e);
        }
        false
    }

    /// The segments of one line, appended to `out`.
    fn push_dialog_segments(&self, d: &Dialog, voices: &Vec<Option<CharacterVoice>>, sync_mode: bool, out: &mut Vec<SyncSegment>)
        ensures
            segments_view(final(out)@) == segments_view(old(out)@) + dialog_segments(
                (d.text@, d.raw_text@, d.scope as int),
                voices@,
                self.initial_voice,
                self.speakers_info@,
                self.speak_by_punctuation,
                sync_mode,
            ),
    {
        let ghost dv = (d.text@, d.raw_text@, d.scope as int);
        let ghost expected = dialog_segments(
            dv,
            voices@,
            self.initial_voice,
            self.speakers_info@,
            self.speak_by_punctuation,
            sync_mode,
        );
        if d.text.as_str().is_empty() {
            assert(segments_view(out@) + expected =~= segments_view(out@));
            return;
        }
        let (voice, from_ghost): (&CharacterVoice, bool) = if d.scope < voices.len() {
            match &voices[d.scope] {
                Some(v) => (v, true),
                None => (&self.initial_voice, false),
            }
        } else {
            (&self.initial_voice, false)
        };
        assert((*voice, from_ghost) == chosen_voice(voices@, d.scope as int, self.initial_voice));
        if same_text(voice.speaker_uuid.as_str(), NO_VOICE_UUID) {
            assert(segments_view(out@) + expected =~= segments_view(out@));
            return;
        }
        let e = match engine_from_port(voice.port) {
            Some(e) => e,
            None => {
                assert(segments_view(out@) + expected =~= segments_view(out@));
                return;
            },
        };
        let listed = match self.speakers_info.get(e) {
            Some(list) => speaker_listed(list, &voice.speaker_uuid),
            None => true,
        };
        if !listed {
            assert(segments_view(out@) + expected =~= segments_view(out@));
            return;
        }
        let pairs: Vec<(String, String)> = if (self.speak_by_punctuation || sync_mode) && e
            != Engine::BouyomiChan {
            let p = split_by_punctuation_with_raw(d.text.clone(), d.raw_text.clone());
            if sync_mode {
                resplit_pairs_by_raw_ellipsis(p)
            } else {
                p
            }
        } else {
            let v = vec![(d.text.clone(), d.raw_text.clone())];
            assert(pairs_view(v@) =~= seq![(d.text@, d.raw_text@)]);
            v
        };
        let ghost pv = segment_pairs(d.text@, d.raw_text@, e, self.speak_by_punctuation, sync_mode);
        assert(pairs_view(pairs@) == pv);
        let ghost start = segments_view(out@);
        let mut k: usize = 0;
        while k < pairs.len()
            invariant
                k <= pairs@.len(),
                pairs_view(pairs@) == pv,
                expected == Seq::new(
                    pv.len(),
                    |j: int| (pv[j].0, pv[j].1, d.scope as int, plan_for(pv[j].0, e, *voice, from_ghost)),
                ),
                segments_view(out@) == start + expected.take(k as int),
            decreases pairs@.len() - k,
        {
            let t = &pairs[k].0;
            let rt = &pairs[k].1;
            assert(pv[k as int] == (t@, rt@));
            let plan = plan_segment(t, e, voice, from_ghost);
            let seg = SyncSegment { text: t.clone(), raw_text: rt.clone(), scope: d.scope, predictor: plan };
            let ghost before = out@;
            out.push(seg);
            assert(segments_view(out@) =~= segments_view(before).push(seg@));
            assert(expected.take(k + 1) =~= expected.take(k as int).push(expected[k as int]));
            k = k + 1;
        }
        assert(expected.take(pairs@.len() as int) =~= expected);
    }

    /// The segments of a ghost's talk, in order, with the way each is to be synthesized; none
    /// when no engine is reachable or the ghost has no voice settings.
    pub fn build_segments(&self, text: String, ghost_name: String, sync_mode: bool) -> (r: Option<Vec<SyncSegment>>)
        ensures
            r is Some <==> can_build(*self, ghost_name@),
            r matches Some(v) ==> segments_view(v@) == talk_segments(*self, text@, ghost_name@, sync_mode),
    {
        if !self.has_connected_engine() {
            return None;
        }
        let info = match self.ghosts_voices.get(ghost_name.as_str()) {
            Some(info) => info,
            None => return None,
        };
        let dialogs = split_dialog(text, info.devide_by_lines);
        let ghost ds = dialogs_view(dialogs@);
        let ghost total = segments_from(
            ds,
            info.voices@,
            self.initial_voice,
            self.speakers_info@,
            self.speak_by_punctuation,
            sync_mode,
        );
        let mut out: Vec<SyncSegment> = Vec::new();
        let mut i: usize = 0;
        assert(ds.skip(0) =~= ds);
        while i < dialogs.len()
            invariant
                i <= dialogs@.len(),
                ds == dialogs_view(dialogs@),
                total == segments_from(
                    ds,
                    info.voices@,
                    self.initial_voice,
                    self.speakers_info@,
                    self.speak_by_punctuation,
                    sync_mode,
                ),
                segments_view(out@) + segments_from(
                    ds.skip(i as int),
                    info.voices@,
                    self.initial_voice,
                    self.speakers_info@,
                    self.speak_by_punctuation,
                    sync_mode,
                ) == total,
            decreases dialogs@.len() - i,
        {
            let ghost before = segments_view(out@);
            let ghost rest = ds.skip(i as int);
            assert(rest[0] == ds[i as int]);
            assert(rest.drop_first() =~= ds.skip(i + 1));
            self.push_dialog_segments(&dialogs[i], &info.voices, sync_mode, &mut out);
            assert(segments_view(out@) + segments_from(
                ds.skip(i + 1),
                info.voices@,
                self.initial_voice,
                self.speakers_info@,
                self.speak_by_punctuation,
                sync_mode,
            ) =~= before + segments_from(
                rest,
                info.voices@,
                self.initial_voice,
                self.speakers_info@,
                self.speak_by_punctuation,
                sync_mode,
            ));
            i = i + 1;
        }
        assert(segments_view(out@) =~= total);
        Some(out)
    }
}

/// The views of a sequence of synthesis plans, each with its character.
pub open spec fn plans_view(v: Seq<(usize, PredictorPlan)>) -> Seq<(int, PlanView)> {
    v.map_values(|p: (usize, PredictorPlan)| (p.0 as int, p.1@))
}

/// The plans of the segments that make a sound, each with its character, in order: an
/// ellipsis is silent.
pub open spec fn spoken_plans(segs: Seq<(Seq<char>, Seq<char>, int, PlanView)>) -> Seq<(int, PlanView)>
    decreases segs.len(),
{
    if segs.len() == 0 {
        Seq::empty()
    } else {
        let rest = spoken_plans(segs.drop_last());
        if is_ellipsis_text(segs.last().0) {
            rest
        } else {
            rest.push((segs.last().2, segs.last().3))
        }
    }
}

/// How the worker answers a poll of the paced talk in state `s`, with `r` the answer (and the
/// sound to play) and `t` the state after.
pub open spec fn sync_poll_outcome(s: WorkerState, r: (Response, Option<Vec<u8>>), t: WorkerState) -> bool {
    match s.sync_ghost_name {
        None => r == (Response::SyncStatus { state: SyncState::Complete }, None::<Vec<u8>>)
            && t == s,
        Some(g) => if s.sync_audio_done_gen < s.sync_audio_generation {
            r == (Response::SyncStatus { state: SyncState::Playing }, None::<Vec<u8>>)
                && t == s
        } else {
            match s.sync_state {
                Some(st) => if st.ghost_name@ == g@ && st.ready_queue@.len() > 0 {
                    let seg = st.ready_queue@[0];
                    let rest = st.ready_queue@.drop_first();
                    let has_more = rest.len() > 0 || !st.all_predicted;
                    &&& r.0 matches Response::SyncStatus {
                        state: SyncState::Ready { segment, has_more: hm },
                    } && hm == has_more && segment.text == seg.text && segment.raw_text
                        == seg.raw_text && segment.scope == seg.scope && segment.is_ellipsis
                        == is_ellipsis_text(seg.text@)
                    &&& r.1 == if !is_ellipsis_text(seg.text@) && seg.text@.len() > 0 {
                        Some(seg.wav)
                    } else {
                        None
                    }
                    &&& if has_more {
                        t.sync_state matches Some(nst) && nst.ready_queue@ == rest
                            && nst.ghost_name == st.ghost_name && nst.all_predicted
                            == st.all_predicted
                    } else {
                        t.sync_state is None
                    }
                    &&& t.sync_ghost_name == s.sync_ghost_name
                } else if st.ghost_name@ == g@ && !st.all_predicted {
                    r == (Response::SyncStatus { state: SyncState::Waiting }, None::<Vec<u8>>)
                        && t.sync_state == s.sync_state
                        && t.sync_ghost_name == s.sync_ghost_name
                } else {
                    r == (Response::SyncStatus { state: SyncState::Complete }, None::<Vec<u8>>)
                        && t.sync_state is None && t.sync_ghost_name is None
                },
                None => r == (Response::SyncStatus { state: SyncState::Complete }, None::<Vec<u8>>)
                    && t.sync_state is None && t.sync_ghost_name is None,
            }
        },
    }
}

/// Whether the latest sound of a paced talk has finished.
pub open spec fn sync_audio_done(s: WorkerState) -> bool {
    s.sync_audio_done_gen >= s.sync_audio_generation
}

/// How starting a sound of a paced talk changes the state `s` into `t`, `r` being its number:
/// nothing while the worker stops; else the sound gets the next number and a stop asked for
/// earlier is lifted.
pub open spec fn sync_audio_begun(s: WorkerState, r: Option<u64>, t: WorkerState) -> bool {
    if s.shutting_down {
        r is None && t == s
    } else {
        &&& r == Some((s.sync_audio_generation + 1) as u64)
        &&& t.sync_audio_generation == s.sync_audio_generation + 1
        &&& !t.force_stop_sink
        &&& t.sync_audio_done_gen == s.sync_audio_done_gen
        &&& t.sync_state == s.sync_state
        &&& t.shutting_down == s.shutting_down
    }
}

/// How the end of the sound numbered `generation` changes the state `s` into `t`: the latest
/// finished sound is the later of the two.
pub open spec fn sync_audio_finished(s: WorkerState, generation: u64, t: WorkerState) -> bool {
    &&& t.sync_audio_done_gen == if generation > s.sync_audio_done_gen {
        generation
    } else {
        s.sync_audio_done_gen
    }
    &&& t.sync_audio_generation == s.sync_audio_generation
    &&& t.sync_state == s.sync_state
    &&& t.shutting_down == s.shutting_down
    &&& t.force_stop_sink == s.force_stop_sink
}

/// What is left to do after the worker was asked to pace a talk.
pub enum SyncStartPlan {
    /// Nothing is paced: the talk was queued the ordinary way.
    Fallback,
    /// The first segment is synthesized and played now (`speak_first`; else an empty sound is
    /// started), and the remaining ones are synthesized in the background into the pool.
    Paced { first: SyncSegment, speak_first: bool, remaining: Vec<SyncSegment> },
}

/// The engines among `list` whose auto-start is on, in order.
pub open spec fn auto_started(auto_start: Map<Engine, bool>, list: Seq<Engine>) -> Seq<Engine>
    decreases list.len(),
{
    if list.len() == 0 {
        Seq::empty()
    } else {
        auto_started(auto_start, list.drop_last()) + if auto_start.contains_key(list.last())
            && auto_start[list.last()] {
            seq![list.last()]
        } else {
            Seq::empty()
        }
    }
}

/// The engines among `list` that `m` holds a value for, in order.
pub open spec fn keys_in_order<T>(m: Map<Engine, T>, list: Seq<Engine>) -> Seq<Engine>
    decreases list.len(),
{
    if list.len() == 0 {
        Seq::empty()
    } else {
        keys_in_order(m, list.drop_last()) + if m.contains_key(list.last()) {
            seq![list.last()]
        } else {
            Seq::empty()
        }
    }
}

/// The engines among `list` that `m` holds a value for, with that value, in order.
pub open spec fn entries_in_order<T>(m: Map<Engine, T>, list: Seq<Engine>) -> Seq<(Engine, T)>
    decreases list.len(),
{
    if list.len() == 0 {
        Seq::empty()
    } else {
        entries_in_order(m, list.drop_last()) + if m.contains_key(list.last()) {
            seq![(list.last(), m[list.last()])]
        } else {
            Seq::empty()
        }
    }
}

/// What a queue's consumer does next.
pub enum QueueStep<T> {
    /// The queue is empty and the consumer is asked to end.
    Stop,
    /// The queue is empty: wait a little and look again.
    Wait,
    /// Handle this item, taken from the front of the queue.
    Item(T),
    /// The item taken from the front of the queue had nothing in it.
    Skip,
}

/// The message shown when an engine becomes reachable.
pub open spec fn connected_message(e: Engine) -> Seq<char> {
    spec_name(e) + " が接続されました"@
}

/// The message shown when an engine is no longer reachable.
pub open spec fn disconnected_message(e: Engine) -> Seq<char> {
    spec_name(e) + " が切断されました"@
}

/// The pause, in seconds, after the `n`-th failure in a row to reach an engine: none before the
/// tenth, then 2 to the power `n / 5`, at most 60.
pub open spec fn backoff_secs(n: int) -> Option<int> {
    if n >= 10 {
        Some(if pow2((n / 5) as nat) < 60 { pow2((n / 5) as nat) as int } else { 60 })
    } else {
        None
    }
}

/// How many checks of `e` have failed in a row.
pub open spec fn count_failures(m: Map<Engine, u32>, e: Engine) -> int {
    if m.contains_key(e) {
        m[e] as int
    } else {
        0
    }
}

fn power_of_two_capped(k: u32) -> (r: u64)
    requires
        k < 64,
    ensures
        r == if pow2(k as nat) < 60 { pow2(k as nat) as int } else { 60 },
{
    let mut v: u64 = 1;
    let mut i: u32 = 0;
    proof {
        lemma2_to64();
    }
    while i < k
        invariant
            i <= k < 64,
            v == pow2(i as nat),
        decreases k - i,
    {
        proof {
            lemma_pow2_unfold((i + 1) as nat);
            lemma_pow2_strictly_increases((i + 1) as nat, 64);
            lemma2_to64();
        }
        v = v * 2;
        i = i + 1;
    }
    if v < 60 {
        v
    } else {
        60
    }
}

impl WorkerState {
    /// The state of a worker that has just started: nothing queued, no engine known, the
    /// default voice "no voice", and lines split at punctuation.
    pub fn new() -> (r: Self)
        ensures
            !r.shutting_down,
            !r.stop_tasks,
            !r.force_stop_sink,
            r.speak_by_punctuation,
            r.ghosts_voices@ == Map::<Seq<char>, crate::common::GhostVoiceInfo>::empty(),
            r.initial_voice.port == crate::common::spec_port(Engine::VoiceVox),
            r.initial_voice.speaker_uuid@ == NO_VOICE_UUID@,
            r.initial_voice.style_id == -1,
            r.connection_status@ == Map::<Engine, bool>::empty(),
            r.speakers_info@ == Map::<Engine, Vec<SpeakerInfo>>::empty(),
            r.engine_path@ == Map::<Engine, String>::empty(),
            r.engine_auto_start@ == Map::<Engine, bool>::empty(),
            r.consecutive_failures@ == Map::<Engine, u32>::empty(),
            r.connection_dialogs@ == Seq::<String>::empty(),
            r.predict_queue@ == Seq::<(String, String)>::empty(),
            r.play_queue@ == Seq::<Vec<u8>>::empty(),
            r.sync_state is None,
            r.sync_audio_generation == 0,
            r.sync_audio_done_gen == 0,
            r.sync_ghost_name is None,
    {
        WorkerState {
            shutting_down: false,
            stop_tasks: false,
            force_stop_sink: false,
            speak_by_punctuation: true,
            ghosts_voices: GhostVoices::new(),
            initial_voice: CharacterVoice::no_voice(),
            connection_status: EngineMap::new(),
            speakers_info: EngineMap::new(),
            engine_path: EngineMap::new(),
            engine_auto_start: EngineMap::new(),
            consecutive_failures: EngineMap::new(),
            connection_dialogs: Vec::new(),
            predict_queue: VecDeque::new(),
            play_queue: VecDeque::new(),
            sync_state: None,
            sync_audio_generation: 0,
            sync_audio_done_gen: 0,
            sync_ghost_name: None,
        }
    }

    /// Makes the queues ready to run: the stop flags are lowered, whatever was left queued is
    /// dropped and the count of paced sounds starts over.
    pub fn init_queues(&mut self)
        ensures
            *final(self) == (WorkerState { shutting_down: final(self).shutting_down, stop_tasks: final(self).stop_tasks, force_stop_sink: final(self).force_stop_sink, predict_queue: final(self).predict_queue, play_queue: final(self).play_queue, connection_dialogs: final(self).connection_dialogs, sync_audio_generation: final(self).sync_audio_generation, sync_audio_done_gen: final(self).sync_audio_done_gen, ..*old(self) }),
            !final(self).shutting_down,
            !final(self).stop_tasks,
            !final(self).force_stop_sink,
            final(self).predict_queue@ == Seq::<(String, String)>::empty(),
            final(self).play_queue@ == Seq::<Vec<u8>>::empty(),
            final(self).connection_dialogs@ == Seq::<String>::empty(),
            final(self).sync_audio_generation == 0,
            final(self).sync_audio_done_gen == 0,
            final(self).sync_state == old(self).sync_state,
            final(self).sync_ghost_name == old(self).sync_ghost_name,
            final(self).speak_by_punctuation == old(self).speak_by_punctuation,
            final(self).ghosts_voices == old(self).ghosts_voices,
            final(self).initial_voice == old(self).initial_voice,
            final(self).connection_status == old(self).connection_status,
            final(self).speakers_info == old(self).speakers_info,
            final(self).engine_path == old(self).engine_path,
            final(self).engine_auto_start == old(self).engine_auto_start,
            final(self).consecutive_failures == old(self).consecutive_failures,
    {
        self.shutting_down = false;
        self.stop_tasks = false;
        self.force_stop_sink = false;
        self.predict_queue.clear();
        self.play_queue.clear();
        self.connection_dialogs.clear();
        self.sync_audio_generation = 0;
        self.sync_audio_done_gen = 0;
    }

    /// Stops the worker's queues: nothing more is queued or played, the paced talk and
    /// whatever was left queued (talks, sounds and messages) are dropped, the sound stops and
    /// the loops are asked to end.
    pub fn stop_queues(&mut self)
        ensures
            *final(self) == (WorkerState { shutting_down: final(self).shutting_down, stop_tasks: final(self).stop_tasks, force_stop_sink: final(self).force_stop_sink, sync_state: final(self).sync_state, predict_queue: final(self).predict_queue, play_queue: final(self).play_queue, connection_dialogs: final(self).connection_dialogs, ..*old(self) }),
            final(self).shutting_down,
            final(self).stop_tasks,
            final(self).force_stop_sink,
            final(self).sync_state is None,
            final(self).predict_queue@ == Seq::<(String, String)>::empty(),
            final(self).play_queue@ == Seq::<Vec<u8>>::empty(),
            final(self).connection_dialogs@ == Seq::<String>::empty(),
            final(self).sync_audio_generation == old(self).sync_audio_generation,
            final(self).sync_audio_done_gen == old(self).sync_audio_done_gen,
            final(self).sync_ghost_name == old(self).sync_ghost_name,
            final(self).speak_by_punctuation == old(self).speak_by_punctuation,
            final(self).ghosts_voices == old(self).ghosts_voices,
            final(self).initial_voice == old(self).initial_voice,
            final(self).connection_status == old(self).connection_status,
            final(self).speakers_info == old(self).speakers_info,
            final(self).engine_path == old(self).engine_path,
            final(self).engine_auto_start == old(self).engine_auto_start,
            final(self).consecutive_failures == old(self).consecutive_failures,
    {
        self.shutting_down = true;
        self.sync_state = None;
        self.force_stop_sink = true;
        self.stop_tasks = true;
        self.predict_queue.clear();
        self.play_queue.clear();
        self.connection_dialogs.clear();
    }

    /// Drops whatever is left queued: talks, sounds and messages (also what a loop queued
    /// after the stop, before it ended).
    pub fn clear_queues(&mut self)
        ensures
            *final(self) == (WorkerState { predict_queue: final(self).predict_queue, play_queue: final(self).play_queue, connection_dialogs: final(self).connection_dialogs, ..*old(self) }),
            final(self).predict_queue@ == Seq::<(String, String)>::empty(),
            final(self).play_queue@ == Seq::<Vec<u8>>::empty(),
            final(self).connection_dialogs@ == Seq::<String>::empty(),
            final(self).shutting_down == old(self).shutting_down,
            final(self).stop_tasks == old(self).stop_tasks,
            final(self).force_stop_sink == old(self).force_stop_sink,
            final(self).sync_state == old(self).sync_state,
            final(self).sync_audio_generation == old(self).sync_audio_generation,
            final(self).sync_audio_done_gen == old(self).sync_audio_done_gen,
            final(self).sync_ghost_name == old(self).sync_ghost_name,
    {
        self.predict_queue.clear();
        self.play_queue.clear();
        self.connection_dialogs.clear();
    }

    /// Queues a talk for synthesis, unless the worker is stopping.
    pub fn push_to_prediction(&mut self, text: String, ghost_name: String)
        ensures
            *final(self) == (WorkerState { predict_queue: final(self).predict_queue, ..*old(self) }),
            final(self).predict_queue@ == if old(self).shutting_down {
                old(self).predict_queue@
            } else {
                old(self).predict_queue@.push((text, ghost_name))
            },
            final(self).shutting_down == old(self).shutting_down,
            final(self).stop_tasks == old(self).stop_tasks,
            final(self).play_queue == old(self).play_queue,
            final(self).sync_state == old(self).sync_state,
            final(self).sync_ghost_name == old(self).sync_ghost_name,
            final(self).sync_audio_generation == old(self).sync_audio_generation,
            final(self).sync_audio_done_gen == old(self).sync_audio_done_gen,
            final(self).force_stop_sink == old(self).force_stop_sink,
    {
        if self.shutting_down {
            return;
        }
        self.predict_queue.push_back((text, ghost_name));
    }

    /// The next talk to synthesize, taken from the front of the queue; when there is none,
    /// whether to end or to wait.
    pub fn next_prediction(&mut self) -> (r: QueueStep<(String, String)>)
        ensures
            *final(self) == (WorkerState { predict_queue: final(self).predict_queue, ..*old(self) }),
            old(self).predict_queue@.len() == 0 ==> final(self).predict_queue@ == old(self).predict_queue@
                && r == (if old(self).stop_tasks { QueueStep::Stop } else { QueueStep::<(String, String)>::Wait }),
            old(self).predict_queue@.len() > 0 ==> r == QueueStep::Item(old(self).predict_queue@[0])
                && final(self).predict_queue@ == old(self).predict_queue@.drop_first(),
            final(self).play_queue == old(self).play_queue,
            final(self).stop_tasks == old(self).stop_tasks,
            final(self).shutting_down == old(self).shutting_down,
    {
        match self.predict_queue.pop_front() {
            Some(item) => {
                assert(old(self).predict_queue@.subrange(1, old(self).predict_queue@.len() as int)
                    =~= old(self).predict_queue@.drop_first());
                QueueStep::Item(item)
            },
            None => if self.stop_tasks {
                QueueStep::Stop
            } else {
                QueueStep::Wait
            },
        }
    }

    /// Queues a synthesized sound for playing.
    pub fn push_to_play(&mut self, wav: Vec<u8>)
        ensures
            *final(self) == (WorkerState { play_queue: final(self).play_queue, ..*old(self) }),
            final(self).play_queue@ == old(self).play_queue@.push(wav),
            final(self).predict_queue == old(self).predict_queue,
            final(self).stop_tasks == old(self).stop_tasks,
            final(self).shutting_down == old(self).shutting_down,
    {
        self.play_queue.push_back(wav);
    }

    /// The next sound to play, taken from the front of the queue (an empty one is skipped);
    /// when there is none, whether to end or to wait.
    pub fn next_play(&mut self) -> (r: QueueStep<Vec<u8>>)
        ensures
            *final(self) == (WorkerState { play_queue: final(self).play_queue, ..*old(self) }),
            old(self).play_queue@.len() == 0 ==> final(self).play_queue@ == old(self).play_queue@
                && r == (if old(self).stop_tasks { QueueStep::Stop } else { QueueStep::<Vec<u8>>::Wait }),
            old(self).play_queue@.len() > 0 ==> final(self).play_queue@ == old(self).play_queue@.drop_first()
                && r == (if old(self).play_queue@[0]@.len() == 0 {
                    QueueStep::<Vec<u8>>::Skip
                } else {
                    QueueStep::Item(old(self).play_queue@[0])
                }),
            final(self).predict_queue == old(self).predict_queue,
            final(self).stop_tasks == old(self).stop_tasks,
            final(self).shutting_down == old(self).shutting_down,
    {
        match self.play_queue.pop_front() {
            Some(wav) => {
                assert(old(self).play_queue@.subrange(1, old(self).play_queue@.len() as int)
                    =~= old(self).play_queue@.drop_first());
                if wav.len() == 0 {
                    QueueStep::Skip
                } else {
                    QueueStep::Item(wav)
                }
            },
            None => if self.stop_tasks {
                QueueStep::Stop
            } else {
                QueueStep::Wait
            },
        }
    }

    /// The synthesis plans of a talk spoken the ordinary way, each with its character: those of
    /// its segments, ellipses left out; none when no segment can be built.
    pub fn prediction_plans(&self, text: String, ghost_name: String) -> (r: Option<Vec<(usize, PredictorPlan)>>)
        ensures
            r is Some <==> can_build(*self, ghost_name@),
            r matches Some(v) ==> plans_view(v@) == spoken_plans(
                talk_segments(*self, text@, ghost_name@, false),
            ),
    {
        let segments = match self.build_segments(text, ghost_name, false) {
            Some(s) => s,
            None => return None,
        };
        let ghost sv = segments_view(segments@);
        let mut plans: Vec<(usize, PredictorPlan)> = Vec::new();
        let mut i: usize = 0;
        while i < segments.len()
            invariant
                i <= segments@.len(),
                sv == segments_view(segments@),
                plans_view(plans@) == spoken_plans(sv.take(i as int)),
            decreases segments@.len() - i,
        {
            assert(sv.take(i + 1).drop_last() =~= sv.take(i as int));
            assert(sv.take(i + 1).last() == segments@[i as int]@);
            if !is_ellipsis_segment(segments[i].text.as_str()) {
                let ghost before = plans@;
                plans.push((segments[i].scope, segments[i].predictor.duplicate()));
                assert(plans_view(plans@) =~= plans_view(before).push(
                    (segments@[i as int].scope as int, segments@[i as int].predictor@),
                ));
            }
            i = i + 1;
        }
        assert(sv.take(segments@.len() as int) =~= sv);
        Some(plans)
    }

    /// Starts the count for a sound of a paced talk, unless the worker is stopping: the sound
    /// gets the next number, and a stop of the sound asked for earlier is lifted.
    pub fn begin_sync_audio(&mut self) -> (r: Option<u64>)
        requires
            old(self).sync_audio_generation < u64::MAX,
        ensures
            *final(self) == (WorkerState { sync_audio_generation: final(self).sync_audio_generation, force_stop_sink: final(self).force_stop_sink, ..*old(self) }),
            sync_audio_begun(*old(self), r, *final(self)),
    {
        if self.shutting_down {
            return None;
        }
        self.sync_audio_generation = self.sync_audio_generation + 1;
        self.force_stop_sink = false;
        Some(self.sync_audio_generation)
    }

    /// Records that the sound numbered `generation` has finished.
    pub fn finish_sync_audio(&mut self, generation: u64)
        ensures
            *final(self) == (WorkerState { sync_audio_done_gen: final(self).sync_audio_done_gen, ..*old(self) }),
            sync_audio_finished(*old(self), generation, *final(self)),
    {
        if generation > self.sync_audio_done_gen {
            self.sync_audio_done_gen = generation;
        }
    }

    /// Whether the latest sound of a paced talk has finished.
    pub fn is_sync_audio_done(&self) -> (r: bool)
        ensures
            r == sync_audio_done(*self),
    {
        self.sync_audio_done_gen >= self.sync_audio_generation
    }

    /// Drops the paced talk and stops the sound that plays.
    pub fn cancel_sync_playback(&mut self)
        ensures
            *final(self) == (WorkerState { sync_state: None, force_stop_sink: true, ..*old(self) }),
            final(self).sync_state is None,
            final(self).force_stop_sink,
            final(self).sync_audio_generation == old(self).sync_audio_generation,
            final(self).sync_audio_done_gen == old(self).sync_audio_done_gen,
            final(self).sync_ghost_name == old(self).sync_ghost_name,
            final(self).shutting_down == old(self).shutting_down,
            final(self).predict_queue == old(self).predict_queue,
            final(self).ghosts_voices == old(self).ghosts_voices,
            final(self).initial_voice == old(self).initial_voice,
            final(self).speak_by_punctuation == old(self).speak_by_punctuation,
            final(self).connection_status == old(self).connection_status,
            final(self).speakers_info == old(self).speakers_info,
    {
        self.sync_state = None;
        self.force_stop_sink = true;
    }

    /// The answer to a second `Init`: the worker is initialized once only.
    pub fn handle_repeated_init(&self) -> (r: Response)
        ensures
            r matches Response::Error { message } && message@ == "Already initialized"@,
    {
        Response::Error { message: String::from_str("Already initialized") }
    }

    /// Cancels the paced talk: it is dropped, the sound that plays stops and no ghost is
    /// paced any more.
    pub fn handle_sync_cancel(&mut self) -> (r: Response)
        ensures
            r is Done,
            *final(self) == (WorkerState {
                sync_state: None,
                force_stop_sink: true,
                sync_ghost_name: None,
                ..*old(self)
            }),
    {
        self.cancel_sync_playback();
        self.sync_ghost_name = None;
        Response::Done
    }

    /// Stops the sound at once: the sound that plays stops, the paced talk is dropped and no
    /// ghost is paced any more.
    pub fn handle_force_stop_playback(&mut self) -> (r: Response)
        ensures
            r is Done,
            *final(self) == (WorkerState {
                sync_state: None,
                force_stop_sink: true,
                sync_ghost_name: None,
                ..*old(self)
            }),
    {
        self.force_stop_sink = true;
        self.cancel_sync_playback();
        self.sync_ghost_name = None;
        Response::Done
    }

    /// Opens an empty pool for the segments of `ghost_name`'s paced talk, unless the worker is
    /// stopping; tells whether it did.
    pub fn start_sync_prediction(&mut self, ghost_name: String) -> (r: bool)
        ensures
            *final(self) == (WorkerState { sync_state: final(self).sync_state, ..*old(self) }),
            r == !old(self).shutting_down,
            r ==> (final(self).sync_state matches Some(st) && st.ready_queue@.len() == 0
                && st.ghost_name == ghost_name && !st.all_predicted),
            !r ==> final(self).sync_state == old(self).sync_state,
            final(self).sync_audio_generation == old(self).sync_audio_generation,
            final(self).sync_audio_done_gen == old(self).sync_audio_done_gen,
            final(self).shutting_down == old(self).shutting_down,
            final(self).sync_ghost_name == old(self).sync_ghost_name,
            final(self).predict_queue == old(self).predict_queue,
            final(self).force_stop_sink == old(self).force_stop_sink,
    {
        if self.shutting_down {
            return false;
        }
        self.sync_state = Some(SyncPlaybackState {
            ready_queue: VecDeque::new(),
            ghost_name,
            all_predicted: false,
        });
        true
    }

    /// Whether the synthesis of a paced talk goes on: the worker is not stopping and the talk
    /// was not dropped.
    pub fn sync_prediction_active(&self) -> (r: bool)
        ensures
            r == (!self.shutting_down && self.sync_state is Some),
    {
        !self.shutting_down && self.sync_state.is_some()
    }

    /// Adds a synthesized segment to the pool of the paced talk; tells whether there was a
    /// talk to add it to.
    pub fn push_ready_segment(&mut self, seg: SyncReadySegment) -> (r: bool)
        ensures
            *final(self) == (WorkerState { sync_state: final(self).sync_state, ..*old(self) }),
            r == old(self).sync_state is Some,
            match old(self).sync_state {
                Some(st) => final(self).sync_state matches Some(nst) && nst.ready_queue@
                    == st.ready_queue@.push(seg) && nst.ghost_name == st.ghost_name
                    && nst.all_predicted == st.all_predicted,
                None => final(self).sync_state is None,
            },
            final(self).sync_audio_generation == old(self).sync_audio_generation,
            final(self).sync_audio_done_gen == old(self).sync_audio_done_gen,
            final(self).shutting_down == old(self).shutting_down,
            final(self).sync_ghost_name == old(self).sync_ghost_name,
    {
        match &mut self.sync_state {
            Some(st) => {
                st.ready_queue.push_back(seg);
                true
            },
            None => false,
        }
    }

    /// The sound of a segment of a paced talk: none for an ellipsis, which is silent; else
    /// what the synthesis gave, or none when it failed or timed out (`synthesized` is `None`).
    pub fn segment_sound(text: &str, synthesized: Option<Vec<u8>>) -> (r: Vec<u8>)
        ensures
            is_ellipsis_text(text@) ==> r@ == Seq::<u8>::empty(),
            !is_ellipsis_text(text@) ==> r@ == match synthesized {
                Some(w) => w@,
                None => Seq::<u8>::empty(),
            },
    {
        if is_ellipsis_segment(text) {
            return Vec::new();
        }
        match synthesized {
            Some(w) => w,
            None => Vec::new(),
        }
    }

    /// Adds the segment `text` of the paced talk, with its raw text and character, to the
    /// pool, its sound being `segment_sound` of what the synthesis gave; tells whether there
    /// was a talk to add it to.
    pub fn push_synthesized_segment(
        &mut self,
        text: String,
        raw_text: String,
        scope: usize,
        synthesized: Option<Vec<u8>>,
    ) -> (r: bool)
        ensures
            *final(self) == (WorkerState { sync_state: final(self).sync_state, ..*old(self) }),
            r == old(self).sync_state is Some,
            match old(self).sync_state {
                Some(st) => final(self).sync_state matches Some(nst) && nst.ready_queue@.len()
                    == st.ready_queue@.len() + 1 && nst.ready_queue@.drop_last() == st.ready_queue@
                    && nst.ready_queue@.last().text == text && nst.ready_queue@.last().raw_text
                    == raw_text && nst.ready_queue@.last().scope == scope && (is_ellipsis_text(text@)
                    ==> nst.ready_queue@.last().wav@ == Seq::<u8>::empty()) && (!is_ellipsis_text(
                    text@) ==> nst.ready_queue@.last().wav@ == match synthesized {
                    Some(w) => w@,
                    None => Seq::<u8>::empty(),
                }) && nst.ghost_name == st.ghost_name && nst.all_predicted == st.all_predicted,
                None => final(self).sync_state is None,
            },
            final(self).sync_audio_generation == old(self).sync_audio_generation,
            final(self).sync_audio_done_gen == old(self).sync_audio_done_gen,
            final(self).shutting_down == old(self).shutting_down,
            final(self).sync_ghost_name == old(self).sync_ghost_name,
    {
        let wav = Self::segment_sound(text.as_str(), synthesized);
        let seg = SyncReadySegment { text, raw_text, scope, wav };
        let r = self.push_ready_segment(seg);
        proof {
            if let Some(st) = old(self).sync_state {
                let nq = self.sync_state.unwrap().ready_queue@;
                assert(nq.drop_last() =~= st.ready_queue@);
            }
        }
        r
    }

    /// Records that every segment of the paced talk has been synthesized.
    pub fn mark_all_predicted(&mut self)
        ensures
            *final(self) == (WorkerState { sync_state: final(self).sync_state, ..*old(self) }),
            match old(self).sync_state {
                Some(st) => final(self).sync_state matches Some(nst) && nst.ready_queue@
                    == st.ready_queue@ && nst.ghost_name == st.ghost_name && nst.all_predicted,
                None => final(self).sync_state is None,
            },
            final(self).sync_audio_generation == old(self).sync_audio_generation,
            final(self).sync_audio_done_gen == old(self).sync_audio_done_gen,
            final(self).shutting_down == old(self).shutting_down,
            final(self).sync_ghost_name == old(self).sync_ghost_name,
    {
        match &mut self.sync_state {
            Some(st) => {
                st.all_predicted = true;
            },
            None => {},
        }
    }

    /// The next synthesized segment of `ghost_name`'s paced talk, if one is ready, and whether
    /// more may follow (more are ready, or some are still being synthesized); nothing when the
    /// paced talk is another ghost's or there is none.
    pub fn pop_ready_segment(&mut self, ghost_name: &str) -> (r: (Option<SyncReadySegment>, bool))
        ensures
            *final(self) == (WorkerState { sync_state: final(self).sync_state, ..*old(self) }),
            match old(self).sync_state {
                Some(st) => if st.ghost_name@ == ghost_name@ {
                    if st.ready_queue@.len() > 0 {
                        let rest = st.ready_queue@.drop_first();
                        &&& r.0 == Some(st.ready_queue@[0])
                        &&& final(self).sync_state matches Some(nst) && nst.ready_queue@ == rest
                            && nst.ghost_name == st.ghost_name && nst.all_predicted == st.all_predicted
                        &&& r.1 == (rest.len() > 0 || !st.all_predicted)
                    } else {
                        r.0 is None && r.1 == !st.all_predicted && final(self).sync_state == old(self).sync_state
                    }
                } else {
                    r.0 is None && !r.1 && final(self).sync_state == old(self).sync_state
                },
                None => r.0 is None && !r.1 && final(self).sync_state is None,
            },
            final(self).sync_audio_generation == old(self).sync_audio_generation,
            final(self).sync_audio_done_gen == old(self).sync_audio_done_gen,
            final(self).shutting_down == old(self).shutting_down,
            final(self).sync_ghost_name == old(self).sync_ghost_name,
            final(self).predict_queue == old(self).predict_queue,
            final(self).force_stop_sink == old(self).force_stop_sink,
    {
        match &mut self.sync_state {
            Some(st) => {
                if same_text(st.ghost_name.as_str(), ghost_name) {
                    if st.ready_queue.len() == 0 {
                        return (None, !st.all_predicted);
                    }
                    let ghost q = st.ready_queue@;
                    let seg = st.ready_queue.pop_front();
                    proof {
                        if q.len() > 0 {
                            assert(q.subrange(1, q.len() as int) =~= q.drop_first());
                        }
                    }
                    let has_more = st.ready_queue.len() > 0 || !st.all_predicted;
                    (seg, has_more)
                } else {
                    (None, false)
                }
            },
            None => (None, false),
        }
    }

    /// The oldest message for the user, taken out; none when there is none.
    pub fn pop_dialog(&mut self) -> (r: Option<String>)
        ensures
            *final(self) == (WorkerState { connection_dialogs: final(self).connection_dialogs, ..*old(self) }),
            old(self).connection_dialogs@.len() == 0 ==> r is None && final(self).connection_dialogs@
                == old(self).connection_dialogs@,
            old(self).connection_dialogs@.len() > 0 ==> r == Some(old(self).connection_dialogs@[0])
                && final(self).connection_dialogs@ == old(self).connection_dialogs@.drop_first(),
    {
        if self.connection_dialogs.is_empty() {
            None
        } else {
            let m = self.connection_dialogs.remove(0);
            assert(old(self).connection_dialogs@.remove(0) =~= old(self).connection_dialogs@.drop_first());
            Some(m)
        }
    }

    /// How many checks of `e` have failed in a row.
    pub fn failure_count(&self, e: Engine) -> (r: u32)
        ensures
            r == count_failures(self.consecutive_failures@, e),
    {
        match self.consecutive_failures.get(e) {
            Some(n) => *n,
            None => 0,
        }
    }

    /// Records a successful check of `e`, found listening through the executable at `path`
    /// with the voices `speakers`: the count of failures starts over; if the engine was not
    /// known to be reachable, the user is told it is connected, its path is kept and its
    /// auto-start setting is made "off" where there was none; it is then reachable, with
    /// these voices.
    pub fn record_speakers_found(&mut self, e: Engine, path: String, speakers: Vec<SpeakerInfo>)
        ensures
            *final(self) == (WorkerState { consecutive_failures: final(self).consecutive_failures, connection_status: final(self).connection_status, speakers_info: final(self).speakers_info, connection_dialogs: final(self).connection_dialogs, engine_path: final(self).engine_path, engine_auto_start: final(self).engine_auto_start, ..*old(self) }),
            final(self).consecutive_failures@ == old(self).consecutive_failures@.insert(e, 0u32),
            final(self).connection_status@ == old(self).connection_status@.insert(e, true),
            final(self).speakers_info@ == old(self).speakers_info@.insert(e, speakers),
            ({
                let was_connected = old(self).connection_status@.contains_key(e)
                    && old(self).connection_status@[e];
                if was_connected {
                    &&& final(self).connection_dialogs@ == old(self).connection_dialogs@
                    &&& final(self).engine_path@ == old(self).engine_path@
                    &&& final(self).engine_auto_start@ == old(self).engine_auto_start@
                } else {
                    &&& strs(final(self).connection_dialogs@) == strs(old(self).connection_dialogs@).push(
                        connected_message(e),
                    )
                    &&& final(self).engine_path@ == old(self).engine_path@.insert(e, path)
                    &&& final(self).engine_auto_start@ == if old(self).engine_auto_start@.contains_key(e) {
                        old(self).engine_auto_start@
                    } else {
                        old(self).engine_auto_start@.insert(e, false)
                    }
                }
            }),
            final(self).predict_queue == old(self).predict_queue,
            final(self).sync_state == old(self).sync_state,
    {
        self.consecutive_failures.insert(e, 0);
        let was_disconnected = match self.connection_status.get(e) {
            Some(b) => !*b,
            None => true,
        };
        if was_disconnected {
            let msg = String::from_str(e.name()).concat(" が接続されました");
            let ghost before = self.connection_dialogs@;
            self.connection_dialogs.push(msg);
            assert(strs(self.connection_dialogs@) =~= strs(before).push(connected_message(e)));
            self.engine_path.insert(e, path);
            if !self.engine_auto_start.contains_key(e) {
                self.engine_auto_start.insert(e, false);
            }
        }
        self.connection_status.insert(e, true);
        self.speakers_info.insert(e, speakers);
    }

    /// Counts a failed check of `e`, and tells how long to pause before going on: none before
    /// the tenth failure in a row, then 2 to the power (failures / 5) seconds, at most 60.
    pub fn record_speakers_failure(&mut self, e: Engine) -> (r: Option<u64>)
        requires
            count_failures(old(self).consecutive_failures@, e) < 319,
        ensures
            *final(self) == (WorkerState { consecutive_failures: final(self).consecutive_failures, ..*old(self) }),
            final(self).consecutive_failures@ == old(self).consecutive_failures@.insert(
                e,
                (count_failures(old(self).consecutive_failures@, e) + 1) as u32,
            ),
            match r {
                Some(secs) => backoff_secs(count_failures(old(self).consecutive_failures@, e) + 1)
                    == Some(secs as int),
                None => backoff_secs(count_failures(old(self).consecutive_failures@, e) + 1) is None,
            },
            final(self).connection_status == old(self).connection_status,
            final(self).speakers_info == old(self).speakers_info,
            final(self).connection_dialogs == old(self).connection_dialogs,
    {
        let n = self.failure_count(e) + 1;
        self.consecutive_failures.insert(e, n);
        if n >= 10 {
            Some(power_of_two_capped(n / 5))
        } else {
            None
        }
    }

    /// Records that `e` could not be reached: if it was reachable, the user is told it is
    /// disconnected; it is then unreachable, with no voices.
    pub fn record_speakers_lost(&mut self, e: Engine)
        ensures
            *final(self) == (WorkerState { connection_status: final(self).connection_status, speakers_info: final(self).speakers_info, connection_dialogs: final(self).connection_dialogs, ..*old(self) }),
            final(self).connection_status@ == old(self).connection_status@.insert(e, false),
            !final(self).speakers_info@.contains_key(e),
            final(self).speakers_info@ == old(self).speakers_info@.remove(e),
            strs(final(self).connection_dialogs@) == if old(self).connection_status@.contains_key(e)
                && old(self).connection_status@[e] {
                strs(old(self).connection_dialogs@).push(disconnected_message(e))
            } else {
                strs(old(self).connection_dialogs@)
            },
            final(self).consecutive_failures == old(self).consecutive_failures,
            final(self).engine_path == old(self).engine_path,
            final(self).engine_auto_start == old(self).engine_auto_start,
            final(self).predict_queue == old(self).predict_queue,
            final(self).sync_state == old(self).sync_state,
    {
        let was_connected = match self.connection_status.get(e) {
            Some(b) => *b,
            None => false,
        };
        if was_connected {
            let msg = String::from_str(e.name()).concat(" が切断されました");
            let ghost before = self.connection_dialogs@;
            self.connection_dialogs.push(msg);
            assert(strs(self.connection_dialogs@) =~= strs(before).push(disconnected_message(e)));
        }
        self.connection_status.insert(e, false);
        self.speakers_info.remove(e);
    }

    /// Starts speaking `ghost_name`'s talk in pace with the balloon. Any paced talk is dropped
    /// and its sound stopped. When fewer than two segments can be built, the talk is queued the
    /// ordinary way (and the sound may play again) and the reply names no segment. Else the
    /// reply names the first segment and says that more follow; a pool is opened for the
    /// others (unless the worker is stopping) and the ghost is remembered for the polls.
    pub fn handle_sync_start(&mut self, text: String, ghost_name: String) -> (r: (Response, SyncStartPlan))
        ensures
            *final(self) == (WorkerState { sync_state: final(self).sync_state, force_stop_sink: final(self).force_stop_sink, predict_queue: final(self).predict_queue, sync_ghost_name: final(self).sync_ghost_name, ..*old(self) }),
            ({
                let segs = talk_segments(*old(self), text@, ghost_name@, true);
                if !can_build(*old(self), ghost_name@) || segs.len() < 2 {
                    &&& r.0 == Response::SyncStarted { first_segment: None, has_more: false }
                    &&& r.1 is Fallback
                    &&& final(self).sync_state is None
                    &&& !final(self).force_stop_sink
                    &&& final(self).predict_queue@ == if old(self).shutting_down {
                        old(self).predict_queue@
                    } else {
                        old(self).predict_queue@.push((text, ghost_name))
                    }
                    &&& final(self).sync_ghost_name == old(self).sync_ghost_name
                } else {
                    &&& r.0 matches Response::SyncStarted { first_segment: Some(info), has_more }
                        && has_more && info.text@ == segs[0].0 && info.raw_text@ == segs[0].1
                        && info.scope == segs[0].2 && info.is_ellipsis == is_ellipsis_text(segs[0].0)
                    &&& r.1 matches SyncStartPlan::Paced { first, speak_first, remaining }
                        && first@ == segs[0] && segments_view(remaining@) == segs.drop_first()
                        && speak_first == (!is_ellipsis_text(segs[0].0) && segs[0].0.len() > 0)
                    &&& if old(self).shutting_down {
                        final(self).sync_state is None
                    } else {
                        final(self).sync_state matches Some(st) && st.ready_queue@.len() == 0
                            && st.ghost_name@ == ghost_name@ && !st.all_predicted
                    }
                    &&& final(self).sync_ghost_name matches Some(g) && g@ == ghost_name@
                    &&& final(self).force_stop_sink
                    &&& final(self).predict_queue == old(self).predict_queue
                }
            }),
            final(self).sync_audio_generation == old(self).sync_audio_generation,
            final(self).sync_audio_done_gen == old(self).sync_audio_done_gen,
            final(self).shutting_down == old(self).shutting_down,
    {
        self.cancel_sync_playback();
        let text_copy = text.clone();
        let ghost_copy = ghost_name.clone();
        let built = self.build_segments(text, ghost_name, true);
        let mut segs = match built {
            Some(segs) => segs,
            None => {
                self.force_stop_sink = false;
                self.push_to_prediction(text_copy, ghost_copy);
                return (Response::SyncStarted { first_segment: None, has_more: false }, SyncStartPlan::Fallback);
            },
        };
        if segs.len() < 2 {
            self.force_stop_sink = false;
            self.push_to_prediction(text_copy, ghost_copy);
            return (Response::SyncStarted { first_segment: None, has_more: false }, SyncStartPlan::Fallback);
        }
        let ghost all = segments_view(segs@);
        let first = segs.remove(0);
        assert(segments_view(segs@) =~= all.drop_first());
        let has_more = segs.len() > 0;
        let is_ellipsis = is_ellipsis_segment(first.text.as_str());
        let speak_first = !is_ellipsis && !first.text.as_str().is_empty();
        let info = SegmentInfo {
            text: first.text.clone(),
            raw_text: first.raw_text.clone(),
            scope: first.scope,
            is_ellipsis,
        };
        if has_more {
            self.start_sync_prediction(ghost_copy.clone());
        }
        self.sync_ghost_name = Some(ghost_copy);
        (
            Response::SyncStarted { first_segment: Some(info), has_more },
            SyncStartPlan::Paced { first, speak_first, remaining: segs },
        )
    }

    /// Answers the plugin's poll of the paced talk. With no paced talk: complete. While the
    /// latest sound plays: playing. Else the next ready segment of the talk is shown (with its
    /// sound to play, unless it is silent), and the talk is dropped after its last segment;
    /// with no segment ready, the talk is complete once every segment has been shown (or when
    /// the pool is another ghost's or gone), and waiting otherwise.
    pub fn handle_sync_poll(&mut self) -> (r: (Response, Option<Vec<u8>>))
        ensures
            *final(self) == (WorkerState { sync_state: final(self).sync_state, sync_ghost_name: final(self).sync_ghost_name, ..*old(self) }),
            final(self).sync_audio_generation == old(self).sync_audio_generation,
            final(self).sync_audio_done_gen == old(self).sync_audio_done_gen,
            final(self).shutting_down == old(self).shutting_down,
            final(self).predict_queue == old(self).predict_queue,
            sync_poll_outcome(*old(self), r, *final(self)),
    {
        let ghost_name = match &self.sync_ghost_name {
            Some(n) => n.clone(),
            None => return (Response::SyncStatus { state: SyncState::Complete }, None),
        };
        if !self.is_sync_audio_done() {
            return (Response::SyncStatus { state: SyncState::Playing }, None);
        }
        let (ready, has_more) = self.pop_ready_segment(ghost_name.as_str());
        match ready {
            Some(seg) => {
                let is_ellipsis = is_ellipsis_segment(seg.text.as_str());
                let audible = !is_ellipsis && !seg.text.as_str().is_empty();
                let segment = SegmentInfo {
                    text: seg.text,
                    raw_text: seg.raw_text,
                    scope: seg.scope,
                    is_ellipsis,
                };
                let wav = if audible {
                    Some(seg.wav)
                } else {
                    None
                };
                if !has_more {
                    self.sync_state = None;
                }
                (Response::SyncStatus { state: SyncState::Ready { segment, has_more } }, wav)
            },
            None => {
                let complete = match &self.sync_state {
                    Some(st) => if same_text(st.ghost_name.as_str(), ghost_name.as_str()) {
                        st.all_predicted && st.ready_queue.len() == 0
                    } else {
                        true
                    },
                    None => true,
                };
                if complete {
                    self.sync_ghost_name = None;
                    self.sync_state = None;
                    (Response::SyncStatus { state: SyncState::Complete }, None)
                } else {
                    (Response::SyncStatus { state: SyncState::Waiting }, None)
                }
            },
        }
    }

    /// The engines to start with the worker: those whose auto-start is on, in the order of the
    /// list of all engines.
    pub fn engines_to_boot(&self) -> (r: Vec<Engine>)
        ensures
            r@ == auto_started(self.engine_auto_start@, all_engines()),
    {
        let list = engine_list();
        let mut r: Vec<Engine> = Vec::new();
        let mut k: usize = 0;
        while k < list.len()
            invariant
                list@ == all_engines(),
                k <= list@.len(),
                r@ == auto_started(self.engine_auto_start@, list@.take(k as int)),
            decreases list@.len() - k,
        {
            assert(list@.take(k + 1).drop_last() =~= list@.take(k as int));
            let on = match self.engine_auto_start.get(list[k]) {
                Some(b) => *b,
                None => false,
            };
            if on {
                r.push(list[k]);
            }
            k = k + 1;
        }
        assert(list@.take(list@.len() as int) =~= list@);
        r
    }

    /// The executable to start for `e`, or the reason why there is none.
    pub fn boot_path(&self, e: Engine) -> (r: Result<String, String>)
        ensures
            self.engine_path@.contains_key(e) ==> r == Ok::<String, String>(self.engine_path@[e]),
            !self.engine_path@.contains_key(e) ==> (r matches Err(m) && m@ == "No path found for engine: "@
                + spec_name(e)),
    {
        match self.engine_path.get(e) {
            Some(p) => Ok(p.clone()),
            None => Err(String::from_str("No path found for engine: ").concat(e.name())),
        }
    }

    /// The worker's view of the engines: the voices of each running engine, whether each
    /// checked engine was reachable, and the executable of each engine found; each in the order
    /// of the list of all engines.
    pub fn engine_status(&self) -> (r: Response)
        ensures
            r matches Response::EngineStatus { speakers_info, connection_status, engine_paths } && {
                &&& speakers_info@.map_values(|x: (Engine, Vec<SpeakerInfo>)| x.0) == keys_in_order(
                    self.speakers_info@,
                    all_engines(),
                )
                &&& forall|i: int|
                    0 <= i < speakers_info@.len() ==> same_speakers(
                        (#[trigger] speakers_info@[i]).1@,
                        self.speakers_info@[speakers_info@[i].0]@,
                    )
                &&& connection_status@ == entries_in_order(self.connection_status@, all_engines())
                &&& engine_paths@ == entries_in_order(self.engine_path@, all_engines())
            },
    {
        let list = engine_list();
        let mut speakers: Vec<(Engine, Vec<SpeakerInfo>)> = Vec::new();
        let mut status: Vec<(Engine, bool)> = Vec::new();
        let mut paths: Vec<(Engine, String)> = Vec::new();
        let mut k: usize = 0;
        while k < list.len()
            invariant
                list@ == all_engines(),
                k <= list@.len(),
                speakers@.map_values(|x: (Engine, Vec<SpeakerInfo>)| x.0) == keys_in_order(
                    self.speakers_info@,
                    list@.take(k as int),
                ),
                forall|i: int|
                    0 <= i < speakers@.len() ==> self.speakers_info@.contains_key((#[trigger] speakers@[i]).0)
                        && same_speakers(speakers@[i].1@, self.speakers_info@[speakers@[i].0]@),
                status@ == entries_in_order(self.connection_status@, list@.take(k as int)),
                paths@ == entries_in_order(self.engine_path@, list@.take(k as int)),
            decreases list@.len() - k,
        {
            let e = list[k];
            assert(list@.take(k + 1).drop_last() =~= list@.take(k as int));
            assert(list@.take(k + 1).last() == e);
            let ghost before = speakers@;
            match self.speakers_info.get(e) {
                Some(v) => {
                    speakers.push((e, duplicate_speakers(v)));
                    assert(speakers@.map_values(|x: (Engine, Vec<SpeakerInfo>)| x.0) =~= before.map_values(
                        |x: (Engine, Vec<SpeakerInfo>)| x.0,
                    ).push(e));
                },
                None => {},
            }
            match self.connection_status.get(e) {
                Some(b) => status.push((e, *b)),
                None => {},
            }
            match self.engine_path.get(e) {
                Some(p) => paths.push((e, p.clone())),
                None => {},
            }
            k = k + 1;
        }
        assert(list@.take(list@.len() as int) =~= list@);
        Response::EngineStatus { speakers_info: speakers, connection_status: status, engine_paths: paths }
    }

    /// Whether the sound that plays is to stop now: the worker is stopping, or a stop was asked
    /// for, in which case the request is taken (the next sound may play).
    pub fn should_stop_sound(&mut self) -> (r: bool)
        ensures
            *final(self) == (WorkerState { force_stop_sink: final(self).force_stop_sink, ..*old(self) }),
            r == (old(self).shutting_down || old(self).force_stop_sink),
            final(self).force_stop_sink == (old(self).force_stop_sink && old(self).shutting_down),
            final(self).shutting_down == old(self).shutting_down,
            final(self).sync_state == old(self).sync_state,
            final(self).sync_audio_generation == old(self).sync_audio_generation,
            final(self).sync_audio_done_gen == old(self).sync_audio_done_gen,
    {
        if self.shutting_down {
            return true;
        }
        if self.force_stop_sink {
            self.force_stop_sink = false;
            return true;
        }
        false
    }
}

/// The engine that speaks the line `d`, when the line is spoken at all: it is not empty and
/// its voice is not "no voice", names an engine and is known to it.
pub open spec fn line_engine(
    d: (Seq<char>, Seq<char>, int),
    voices: Seq<Option<CharacterVoice>>,
    initial: CharacterVoice,
    info: Map<Engine, Vec<SpeakerInfo>>,
) -> Option<Engine> {
    let (voice, from_ghost) = chosen_voice(voices, d.2, initial);
    if d.0.len() == 0 || voice.speaker_uuid@ == NO_VOICE_UUID@ {
        None
    } else {
        match spec_engine_from_port(voice.port as int) {
            Some(e) => if voice_listed(info, e, voice.speaker_uuid@) {
                Some(e)
            } else {
                None
            },
            None => None,
        }
    }
}

/// The text and raw text of each segment.
pub open spec fn texts_of(segs: Seq<(Seq<char>, Seq<char>, int, PlanView)>) -> Seq<(Seq<char>, Seq<char>)> {
    segs.map_values(|x: (Seq<char>, Seq<char>, int, PlanView)| (x.0, x.1))
}

proof fn lemma_segments_from_append(
    a: Seq<(Seq<char>, Seq<char>, int)>,
    b: Seq<(Seq<char>, Seq<char>, int)>,
    voices: Seq<Option<CharacterVoice>>,
    initial: CharacterVoice,
    info: Map<Engine, Vec<SpeakerInfo>>,
    by_punctuation: bool,
    sync_mode: bool,
)
    ensures
        segments_from(a + b, voices, initial, info, by_punctuation, sync_mode) == segments_from(
            a,
            voices,
            initial,
            info,
            by_punctuation,
            sync_mode,
        ) + segments_from(b, voices, initial, info, by_punctuation, sync_mode),
    decreases a.len(),
{
    if a.len() == 0 {
        assert(a + b =~= b);
    } else {
        lemma_segments_from_append(a.drop_first(), b, voices, initial, info, by_punctuation, sync_mode);
        assert((a + b).drop_first() =~= a.drop_first() + b);
        assert((a + b)[0] == a[0]);
        let h = dialog_segments(a[0], voices, initial, info, by_punctuation, sync_mode);
        let x = segments_from(a.drop_first(), voices, initial, info, by_punctuation, sync_mode);
        let y = segments_from(b, voices, initial, info, by_punctuation, sync_mode);
        assert(h + (x + y) =~= (h + x) + y);
    }
}

/// Each line of a ghost's talk gives its own block of the talk's segments, in the order of the
/// lines: line `k` of `dialogs_of` (the lines as `split_dialog` finds them) starts after the
/// segments of the lines before it. The block is empty when the line is not spoken (it is
/// empty, or its voice is "no voice", names no engine or is unknown to its engine); else its
/// segments carry the line's character, and their text and raw text are `segment_pairs` of
/// the line: the pieces that `split_by_punctuation_with_raw` gives (then re-split along
/// hidden ellipses when paced with the balloon) where reading by punctuation or pacing is on
/// and the engine is not BouyomiChan, else the line whole.
pub proof fn line_segments_in_talk(s: WorkerState, text: Seq<char>, ghost: Seq<char>, sync_mode: bool, k: int)
    requires
        0 <= k < dialogs_of(text, s.ghosts_voices@[ghost].devide_by_lines).len(),
    ensures
        ({
            let info = s.ghosts_voices@[ghost];
            let ds = dialogs_of(text, info.devide_by_lines);
            let block = dialog_segments(
                ds[k],
                info.voices@,
                s.initial_voice,
                s.speakers_info@,
                s.speak_by_punctuation,
                sync_mode,
            );
            let start = segments_from(
                ds.take(k),
                info.voices@,
                s.initial_voice,
                s.speakers_info@,
                s.speak_by_punctuation,
                sync_mode,
            ).len();
            &&& start + block.len() <= talk_segments(s, text, ghost, sync_mode).len()
            &&& talk_segments(s, text, ghost, sync_mode).subrange(start as int, (start + block.len()) as int) == block
            &&& match line_engine(ds[k], info.voices@, s.initial_voice, s.speakers_info@) {
                None => block.len() == 0,
                Some(e) => {
                    &&& texts_of(block) == segment_pairs(
                        ds[k].0,
                        ds[k].1,
                        e,
                        s.speak_by_punctuation,
                        sync_mode,
                    )
                    &&& forall|i: int| 0 <= i < block.len() ==> (#[trigger] block[i]).2 == ds[k].2
                },
            }
        }),
{
    let info = s.ghosts_voices@[ghost];
    let ds = dialogs_of(text, info.devide_by_lines);
    let v = info.voices@;
    let iv = s.initial_voice;
    let si = s.speakers_info@;
    let bp = s.speak_by_punctuation;
    let a = ds.take(k);
    let b = ds.skip(k);
    assert(ds =~= a + b);
    lemma_segments_from_append(a, b, v, iv, si, bp, sync_mode);
    assert(b[0] == ds[k]);
    assert(b.drop_first() =~= ds.skip(k + 1));
    let block = dialog_segments(ds[k], v, iv, si, bp, sync_mode);
    let x = segments_from(a, v, iv, si, bp, sync_mode);
    let rest = segments_from(ds.skip(k + 1), v, iv, si, bp, sync_mode);
    assert(segments_from(b, v, iv, si, bp, sync_mode) == block + rest);
    assert(talk_segments(s, text, ghost, sync_mode) == x + (block + rest));
    assert((x + (block + rest)).subrange(x.len() as int, (x.len() + block.len()) as int) =~= block);
    match line_engine(ds[k], v, iv, si) {
        None => {},
        Some(e) => {
            let pairs = segment_pairs(ds[k].0, ds[k].1, e, bp, sync_mode);
            assert(texts_of(block) =~= pairs);
        },
    }
}

/// BouyomiChan always speaks a line whole: its line is never split into segments.
pub proof fn bouyomichan_speaks_whole_lines(text: Seq<char>, raw: Seq<char>, by_punctuation: bool, sync_mode: bool)
    ensures
        segment_pairs(text, raw, Engine::BouyomiChan, by_punctuation, sync_mode) == seq![(text, raw)],
{
}

/// A character whose voice is "no voice" (the default until the user picks one) is never
/// read aloud: its lines give no segment.
pub proof fn no_voice_reads_nothing(
    d: (Seq<char>, Seq<char>, int),
    voices: Seq<Option<CharacterVoice>>,
    initial: CharacterVoice,
    info: Map<Engine, Vec<SpeakerInfo>>,
    by_punctuation: bool,
    sync_mode: bool,
)
    requires
        chosen_voice(voices, d.2, initial).0.speaker_uuid@ == NO_VOICE_UUID@,
    ensures
        dialog_segments(d, voices, initial, info, by_punctuation, sync_mode).len() == 0,
{
}

/// A segment that is only an ellipsis is never sent to an engine, and every other segment is.
pub proof fn only_ellipses_are_silent(t: Seq<char>, e: Engine, voice: CharacterVoice, from_ghost: bool)
    ensures
        (plan_for(t, e, voice, from_ghost) is NoOp) == is_ellipsis_text(t),
{
}

/// The sounds of a paced talk are numbered as they start: once a sound has started, the talk
/// counts as playing until that sound (or a later one) has finished; a sound that started
/// earlier and finishes late does not end it.
pub proof fn paced_sound_numbering(
    s: WorkerState,
    r: Option<u64>,
    t: WorkerState,
    older: u64,
    u: WorkerState,
    v: WorkerState,
)
    requires
        s.sync_audio_done_gen <= s.sync_audio_generation < u64::MAX,
        !s.shutting_down,
        older <= s.sync_audio_generation,
        sync_audio_begun(s, r, t),
        sync_audio_finished(t, older, u),
        sync_audio_finished(u, r->0, v),
    ensures
        !sync_audio_done(t),
        !sync_audio_done(u),
        sync_audio_done(v),
{
}

/// Once a paced talk has been dropped (cancelled, or its last segment shown), the next poll
/// after the sound has finished answers that the talk is complete and forgets the ghost.
pub proof fn dropped_talk_completes(s: WorkerState, r: (Response, Option<Vec<u8>>), t: WorkerState)
    requires
        s.sync_state is None,
        s.sync_audio_done_gen >= s.sync_audio_generation,
        sync_poll_outcome(s, r, t),
    ensures
        (r.0 == Response::SyncStatus { state: SyncState::Complete }),
        r.1 is None,
        t.sync_ghost_name is None,
{
}

/// A poll never plays a sound while the previous one is still playing, never shows a segment
/// of another ghost's talk, and never plays a silent segment (an ellipsis or an empty text).
pub proof fn poll_respects_the_balloon(s: WorkerState, r: (Response, Option<Vec<u8>>), t: WorkerState)
    requires
        sync_poll_outcome(s, r, t),
    ensures
        s.sync_audio_done_gen < s.sync_audio_generation ==> r.1 is None,
        ((r.0 matches Response::SyncStatus { state: SyncState::Ready { .. } }) ==> (s.sync_ghost_name
            matches Some(g) && s.sync_state matches Some(st) && st.ghost_name@ == g@)),
        (r.1 matches Some(wav) ==> (s.sync_state matches Some(st) && st.ready_queue@.len() > 0 && wav
            == st.ready_queue@[0].wav && !is_ellipsis_text(st.ready_queue@[0].text@)
            && st.ready_queue@[0].text@.len() > 0)),
{
}

/// The segments of a paced talk are shown in the order in which they were synthesized: each
/// poll that shows one shows the oldest in the pool and leaves the others, in order.
pub proof fn poll_shows_oldest_first(s: WorkerState, r: (Response, Option<Vec<u8>>), t: WorkerState)
    requires
        sync_poll_outcome(s, r, t),
        (r.0 matches Response::SyncStatus { state: SyncState::Ready { has_more, .. } } && has_more),
    ensures
        (s.sync_state matches Some(st) && t.sync_state matches Some(nst) && nst.ready_queue@
            == st.ready_queue@.drop_first() && (r.0 matches Response::SyncStatus {
            state: SyncState::Ready { segment, .. },
        } && segment.text == st.ready_queue@[0].text)),
{
}

} // verus!
