use vstd::prelude::*;
use crate::common::{Engine, all_engines, engine_list};

verus! {

/// The synthesis of a segment that makes no sound: an ellipsis is a pause.
pub struct NoOpPredictor;

/// A request to COEIROINK v2 for one segment: the text, the speaker and the style.
pub struct CoeiroinkV2Predictor {
    pub text: String,
    pub speaker_uuid: String,
    pub style_id: i32,
}

impl CoeiroinkV2Predictor {
    /// The request for `text` in the given speaker's style.
    pub fn new(text: String, speaker_uuid: String, style_id: i32) -> (r: Self)
        ensures
            r.text == text,
            r.speaker_uuid == speaker_uuid,
            r.style_id == style_id,
    {
        CoeiroinkV2Predictor { text, speaker_uuid, style_id }
    }
}

/// The reading of one mora that a COEIROINK request may carry: its phoneme, its kana and its
/// accent.
pub struct ProsodyDetail {
    pub phoneme: String,
    pub hira: String,
    pub accent: i32,
}

/// How one segment is to be synthesized.
pub enum PredictorPlan {
    /// Nothing to synthesize.
    NoOp(NoOpPredictor),
    /// By COEIROINK v2.
    CoeiroinkV2(CoeiroinkV2Predictor),
    /// By BouyomiChan, which speaks the text itself in the given voice.
    Bouyomichan { text: String, style_id: i32 },
    /// By an engine of the VOICEVOX family, with the given speaker (style) id; `from_ghost`
    /// tells whether the voice is the ghost's own setting for the character (else the default
    /// voice), whose quality settings go with the request.
    VoicevoxFamily { engine: Engine, text: String, speaker: i32, from_ghost: bool },
}

impl PredictorPlan {
    /// An equal copy of the plan.
    pub fn duplicate(&self) -> (r: Self)
        ensures
            r@ == self@,
    {
        match self {
            PredictorPlan::NoOp(_) => PredictorPlan::NoOp(NoOpPredictor),
            PredictorPlan::CoeiroinkV2(p) => PredictorPlan::CoeiroinkV2(
                CoeiroinkV2Predictor::new(p.text.clone(), p.speaker_uuid.clone(), p.style_id),
            ),
            PredictorPlan::Bouyomichan { text, style_id } => PredictorPlan::Bouyomichan {
                text: text.clone(),
                style_id: *style_id,
            },
            PredictorPlan::VoicevoxFamily { engine, text, speaker, from_ghost } => PredictorPlan::VoicevoxFamily {
                engine: *engine,
                text: text.clone(),
                speaker: *speaker,
                from_ghost: *from_ghost,
            },
        }
    }
}

/// What a synthesis plan holds, as plain values.
pub enum PlanView {
    NoOp,
    CoeiroinkV2 { text: Seq<char>, speaker_uuid: Seq<char>, style_id: i32 },
    Bouyomichan { text: Seq<char>, style_id: i32 },
    VoicevoxFamily { engine: Engine, text: Seq<char>, speaker: i32, from_ghost: bool },
}

impl View for PredictorPlan {
    type V = PlanView;

    open spec fn view(&self) -> PlanView {
        match self {
            PredictorPlan::NoOp(_) => PlanView::NoOp,
            PredictorPlan::CoeiroinkV2(p) => PlanView::CoeiroinkV2 {
                text: p.text@,
                speaker_uuid: p.speaker_uuid@,
                style_id: p.style_id,
            },
            PredictorPlan::Bouyomichan { text, style_id } => PlanView::Bouyomichan {
                text: text@,
                style_id: *style_id,
            },
            PredictorPlan::VoicevoxFamily { engine, text, speaker, from_ghost } => PlanView::VoicevoxFamily {
                engine: *engine,
                text: text@,
                speaker: *speaker,
                from_ghost: *from_ghost,
            },
        }
    }
}

/// Asks COEIROINK v2 for its voices.
pub struct CoeiroinkV2SpeakerGetter;

/// Builds BouyomiChan's fixed list of voices, once BouyomiChan is running.
pub struct BouyomiChanSpeakerGetter;

/// Asks an engine of the VOICEVOX family for its voices.
pub struct VoicevoxFamilySpeakerGetter {
    pub engine: Engine,
}

/// How the voices of one engine are found.
pub enum SpeakerGetterKind {
    CoeiroinkV2(CoeiroinkV2SpeakerGetter),
    BouyomiChan(BouyomiChanSpeakerGetter),
    VoicevoxFamily(VoicevoxFamilySpeakerGetter),
}

/// How the voices of `e` are found: COEIROINK v2 and BouyomiChan have their own ways, every
/// other engine speaks the VOICEVOX interface.
pub open spec fn getter_fits(e: Engine, g: SpeakerGetterKind) -> bool {
    match e {
        Engine::CoeiroInkV2 => g is CoeiroinkV2,
        Engine::BouyomiChan => g is BouyomiChan,
        _ => g matches SpeakerGetterKind::VoicevoxFamily(v) && v.engine == e,
    }
}

fn get_speaker_getter(engine: Engine) -> (r: SpeakerGetterKind)
    ensures
        getter_fits(engine, r),
{
    match engine {
        Engine::CoeiroInkV2 => SpeakerGetterKind::CoeiroinkV2(CoeiroinkV2SpeakerGetter),
        Engine::BouyomiChan => SpeakerGetterKind::BouyomiChan(BouyomiChanSpeakerGetter),
        _ => SpeakerGetterKind::VoicevoxFamily(VoicevoxFamilySpeakerGetter { engine }),
    }
}

/// One way of finding voices for each engine, in the order of the list of all engines.
pub fn get_speaker_getters() -> (r: Vec<(Engine, SpeakerGetterKind)>)
    ensures
        r@.len() == all_engines().len(),
        forall|i: int|
            0 <= i < r@.len() ==> r@[i].0 == all_engines()[i] && getter_fits(
                #[trigger] r@[i].0,
                r@[i].1,
            ),
{
    let list = engine_list();
    let mut r: Vec<(Engine, SpeakerGetterKind)> = Vec::new();
    let mut i: usize = 0;
    while i < list.len()
        invariant
            list@ == all_engines(),
            i <= list@.len(),
            r@.len() == i,
            forall|j: int|
                0 <= j < i ==> r@[j].0 == all_engines()[j] && getter_fits(
                    #[trigger] r@[j].0,
                    r@[j].1,
                ),
        decreases list@.len() - i,
    {
        let e = list[i];
        r.push((e, get_speaker_getter(e)));
        i = i + 1;
    }
    r
}

} // verus!
