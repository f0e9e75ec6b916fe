use vstd::prelude::*;
use vstd::string::StringExecFns;

verus! {

/// A speech-synthesis engine that the plugin can talk to.
#[derive(Debug, Clone, Copy, PartialEq, Eq, Structural, Hash)]
pub enum Engine {
    CoeiroInkV2,
    CoeiroInkV1,
    VoiceVox,
    Lmroid,
    ShareVox,
    ItVoice,
    AivisSpeech,
    BouyomiChan,
}

/// The local TCP port on which each engine listens.
pub open spec fn spec_port(e: Engine) -> int {
    match e {
        Engine::CoeiroInkV2 => 50032,
        Engine::CoeiroInkV1 => 50031,
        Engine::VoiceVox => 50021,
        Engine::Lmroid => 49973,
        Engine::ShareVox => 50025,
        Engine::ItVoice => 49540,
        Engine::AivisSpeech => 10101,
        Engine::BouyomiChan => 50001,
    }
}

/// The name under which each engine is shown to the user.
pub open spec fn spec_name(e: Engine) -> Seq<char> {
    match e {
        Engine::CoeiroInkV2 => "COEIROINKv2"@,
        Engine::CoeiroInkV1 => "COEIROINKv1"@,
        Engine::VoiceVox => "VOICEVOX"@,
        Engine::Lmroid => "LMROID"@,
        Engine::ShareVox => "SHAREVOX"@,
        Engine::ItVoice => "ITVOICE"@,
        Engine::AivisSpeech => "AivisSpeech"@,
        Engine::BouyomiChan => "棒読みちゃん"@,
    }
}

/// The position of each engine in the list of all engines.
pub open spec fn engine_index(e: Engine) -> int {
    match e {
        Engine::CoeiroInkV2 => 0,
        Engine::CoeiroInkV1 => 1,
        Engine::VoiceVox => 2,
        Engine::Lmroid => 3,
        Engine::ShareVox => 4,
        Engine::ItVoice => 5,
        Engine::AivisSpeech => 6,
        Engine::BouyomiChan => 7,
    }
}

/// All engines, in the order in which they are polled and listed.
pub open spec fn all_engines() -> Seq<Engine> {
    seq![
        Engine::CoeiroInkV2,
        Engine::CoeiroInkV1,
        Engine::VoiceVox,
        Engine::Lmroid,
        Engine::ShareVox,
        Engine::ItVoice,
        Engine::AivisSpeech,
        Engine::BouyomiChan,
    ]
}

/// The engine that listens on `port`, if any.
pub open spec fn spec_engine_from_port(port: int) -> Option<Engine> {
    if port == 50032 {
        Some(Engine::CoeiroInkV2)
    } else if port == 50031 {
        Some(Engine::CoeiroInkV1)
    } else if port == 50021 {
        Some(Engine::VoiceVox)
    } else if port == 49973 {
        Some(Engine::Lmroid)
    } else if port == 50025 {
        Some(Engine::ShareVox)
    } else if port == 49540 {
        Some(Engine::ItVoice)
    } else if port == 10101 {
        Some(Engine::AivisSpeech)
    } else if port == 50001 {
        Some(Engine::BouyomiChan)
    } else {
        None
    }
}

impl Engine {
    /// The local TCP port on which the engine listens.
    pub fn port(&self) -> (r: i32)
        ensures
            r == spec_port(*self),
    {
        match self {
            Engine::CoeiroInkV2 => 50032,
            Engine::CoeiroInkV1 => 50031,
            Engine::VoiceVox => 50021,
            Engine::Lmroid => 49973,
            Engine::ShareVox => 50025,
            Engine::ItVoice => 49540,
            Engine::AivisSpeech => 10101,
            Engine::BouyomiChan => 50001,
        }
    }

    /// The name under which the engine is shown to the user.
    pub fn name(&self) -> (r: &'static str)
        ensures
            r@ == spec_name(*self),
    {
        match self {
            Engine::CoeiroInkV2 => "COEIROINKv2",
            Engine::CoeiroInkV1 => "COEIROINKv1",
            Engine::VoiceVox => "VOICEVOX",
            Engine::Lmroid => "LMROID",
            Engine::ShareVox => "SHAREVOX",
            Engine::ItVoice => "ITVOICE",
            Engine::AivisSpeech => "AivisSpeech",
            Engine::BouyomiChan => "棒読みちゃん",
        }
    }
}

/// All engines, in the order in which they are polled and listed.
pub fn engine_list() -> (r: Vec<Engine>)
    ensures
        r@ == all_engines(),
{
    let r = vec![
        Engine::CoeiroInkV2,
        Engine::CoeiroInkV1,
        Engine::VoiceVox,
        Engine::Lmroid,
        Engine::ShareVox,
        Engine::ItVoice,
        Engine::AivisSpeech,
        Engine::BouyomiChan,
    ];
    assert(r@ =~= all_engines());
    r
}

/// The first engine in the list of all engines that listens on `port`.
pub fn engine_from_port(port: i32) -> (r: Option<Engine>)
    ensures
        r == spec_engine_from_port(port as int),
{
    let list = engine_list();
    let mut i: usize = 0;
    while i < list.len()
        invariant
            list@ == all_engines(),
            i <= list@.len(),
            forall|j: int| 0 <= j < i ==> spec_port(#[trigger] all_engines()[j]) != port,
        decreases list@.len() - i,
    {
        if list[i].port() == port {
            return Some(list[i]);
        }
        i = i + 1;
    }
    assert(spec_port(all_engines()[0]) != port);
    assert(spec_port(all_engines()[1]) != port);
    assert(spec_port(all_engines()[2]) != port);
    assert(spec_port(all_engines()[3]) != port);
    assert(spec_port(all_engines()[4]) != port);
    assert(spec_port(all_engines()[5]) != port);
    assert(spec_port(all_engines()[6]) != port);
    assert(spec_port(all_engines()[7]) != port);
    None
}

/// Every engine is found again from its own port, and a port is found only for the engine
/// that listens on it.
pub proof fn engine_port_roundtrip(e: Engine, port: int)
    ensures
        spec_engine_from_port(spec_port(e)) == Some(e),
        spec_engine_from_port(port) matches Some(f) ==> spec_port(f) == port,
{
}

/// Every engine is in the list of all engines, at its own index, exactly once.
pub proof fn engine_list_complete(e: Engine)
    ensures
        all_engines()[engine_index(e)] == e,
        0 <= engine_index(e) < all_engines().len(),
        forall|j: int| 0 <= j < all_engines().len() && all_engines()[j] == e ==> j == engine_index(e),
{
}

/// The speaker id that marks "no voice": the character stays silent.
pub const NO_VOICE_UUID: &'static str = "dummy";

/// A voice that an engine offers, as the menus list it.
#[derive(Debug, Clone)]
pub struct SpeakerInfo {
    pub speaker_name: String,
    pub speaker_uuid: String,
    pub styles: Vec<Style>,
}

/// One style of a voice.
#[derive(Debug, Clone)]
pub struct Style {
    pub style_name: Option<String>,
    pub style_id: Option<i32>,
}

impl Style {
    /// An equal copy of the style.
    pub fn duplicate(&self) -> (r: Self)
        ensures
            r == *self,
    {
        let style_name = match &self.style_name {
            Some(n) => Some(n.clone()),
            None => None,
        };
        Style { style_name, style_id: self.style_id }
    }
}

/// Equal copies of the styles, in order.
pub fn duplicate_styles(v: &Vec<Style>) -> (r: Vec<Style>)
    ensures
        r@ == v@,
{
    let mut r: Vec<Style> = Vec::new();
    let mut i: usize = 0;
    while i < v.len()
        invariant
            i <= v@.len(),
            r@ == v@.take(i as int),
        decreases v@.len() - i,
    {
        r.push(v[i].duplicate());
        assert(v@.take(i + 1) == v@.take(i as int).push(v@[i as int]));
        i = i + 1;
    }
    assert(v@.take(v@.len() as int) == v@);
    r
}

impl SpeakerInfo {
    /// A copy of the voice that holds the same name, speaker id and styles.
    pub fn duplicate(&self) -> (r: Self)
        ensures
            r.speaker_name == self.speaker_name,
            r.speaker_uuid == self.speaker_uuid,
            r.styles@ == self.styles@,
    {
        SpeakerInfo {
            speaker_name: self.speaker_name.clone(),
            speaker_uuid: self.speaker_uuid.clone(),
            styles: duplicate_styles(&self.styles),
        }
    }
}

/// Two voice lists that hold the same voices, in the same order.
pub open spec fn same_speakers(a: Seq<SpeakerInfo>, b: Seq<SpeakerInfo>) -> bool {
    &&& a.len() == b.len()
    &&& forall|i: int|
        #![trigger a[i], b[i]]
        0 <= i < a.len() ==> {
            &&& a[i].speaker_name == b[i].speaker_name
            &&& a[i].speaker_uuid == b[i].speaker_uuid
            &&& a[i].styles@ == b[i].styles@
        }
}

/// Copies of the voices, in order.
pub fn duplicate_speakers(v: &Vec<SpeakerInfo>) -> (r: Vec<SpeakerInfo>)
    ensures
        same_speakers(r@, v@),
{
    let mut r: Vec<SpeakerInfo> = Vec::new();
    let mut i: usize = 0;
    while i < v.len()
        invariant
            i <= v@.len(),
            r@.len() == i,
            same_speakers(r@, v@.take(i as int)),
        decreases v@.len() - i,
    {
        r.push(v[i].duplicate());
        i = i + 1;
    }
    assert(v@.take(v@.len() as int) == v@);
    r
}

/// The voice chosen for one character: the engine's port, the speaker and the style.
#[derive(Debug, Clone)]
pub struct CharacterVoice {
    pub port: i32,
    pub speaker_uuid: String,
    pub style_id: i32,
}

impl CharacterVoice {
    /// The voice that keeps a character silent.
    pub fn no_voice() -> (r: Self)
        ensures
            r.port == spec_port(Engine::VoiceVox),
            r.speaker_uuid@ == "dummy"@,
            r.style_id == -1,
    {
        CharacterVoice {
            port: Engine::VoiceVox.port(),
            speaker_uuid: String::from_str(NO_VOICE_UUID),
            style_id: -1,
        }
    }

    /// An equal copy of the voice.
    pub fn duplicate(&self) -> (r: Self)
        ensures
            r == *self,
    {
        CharacterVoice {
            port: self.port,
            speaker_uuid: self.speaker_uuid.clone(),
            style_id: self.style_id,
        }
    }
}

impl Default for CharacterVoice {
    /// The voice that keeps a character silent.
    fn default() -> (r: Self)
        ensures
            r.port == spec_port(Engine::VoiceVox),
            r.speaker_uuid@ == NO_VOICE_UUID@,
            r.style_id == -1,
    {
        CharacterVoice::no_voice()
    }
}

/// An equal copy of an optional voice.
pub fn duplicate_voice(v: &Option<CharacterVoice>) -> (r: Option<CharacterVoice>)
    ensures
        r == *v,
{
    match v {
        Some(c) => Some(c.duplicate()),
        None => None,
    }
}

/// The voice settings of one ghost: whether a line break makes a pause, whether speech keeps
/// pace with the balloon, and the voice of each character (none where unset).
#[derive(Debug, Clone)]
pub struct GhostVoiceInfo {
    pub devide_by_lines: bool,
    pub sync_speech_to_balloon: bool,
    pub voices: Vec<Option<CharacterVoice>>,
}

impl GhostVoiceInfo {
    /// The settings for a ghost with `character_count` characters, none of them with a voice.
    pub fn new(character_count: usize) -> (r: Self)
        ensures
            !r.devide_by_lines,
            !r.sync_speech_to_balloon,
            r.voices@ == Seq::new(character_count as nat, |i: int| None::<CharacterVoice>),
    {
        let mut v: Vec<Option<CharacterVoice>> = Vec::new();
        let mut i: usize = 0;
        while i < character_count
            invariant
                i <= character_count,
                v@ == Seq::new(i as nat, |k: int| None::<CharacterVoice>),
            decreases character_count - i,
        {
            v.push(None);
            assert(v@ =~= Seq::new((i + 1) as nat, |k: int| None::<CharacterVoice>));
            i = i + 1;
        }
        GhostVoiceInfo { devide_by_lines: false, sync_speech_to_balloon: false, voices: v }
    }

}

impl Default for GhostVoiceInfo {
    /// The settings for a ghost whose characters are not known yet: ten of them, none with a
    /// voice.
    fn default() -> (r: Self)
        ensures
            !r.devide_by_lines,
            !r.sync_speech_to_balloon,
            r.voices@ == Seq::new(10, |i: int| None::<CharacterVoice>),
    {
        GhostVoiceInfo::new(10)
    }
}

/// Equal copies of the optional voices, in order.
pub fn duplicate_voices(v: &Vec<Option<CharacterVoice>>) -> (r: Vec<Option<CharacterVoice>>)
    ensures
        r@ == v@,
{
    let mut r: Vec<Option<CharacterVoice>> = Vec::new();
    let mut i: usize = 0;
    while i < v.len()
        invariant
            i <= v@.len(),
            r@ == v@.take(i as int),
        decreases v@.len() - i,
    {
        r.push(duplicate_voice(&v[i]));
        assert(v@.take(i + 1) == v@.take(i as int).push(v@[i as int]));
        i = i + 1;
    }
    assert(v@.take(v@.len() as int) == v@);
    r
}

impl GhostVoiceInfo {
    /// A copy of the settings with the same switches and the same voices.
    pub fn duplicate(&self) -> (r: Self)
        ensures
            r.devide_by_lines == self.devide_by_lines,
            r.sync_speech_to_balloon == self.sync_speech_to_balloon,
            r.voices@ == self.voices@,
    {
        GhostVoiceInfo {
            devide_by_lines: self.devide_by_lines,
            sync_speech_to_balloon: self.sync_speech_to_balloon,
            voices: duplicate_voices(&self.voices),
        }
    }
}

/// A speech segment as the plugin shows it: the text spoken, the raw text for the balloon,
/// the character, and whether it is a bare ellipsis (a pause with no sound).
#[derive(Debug, Clone)]
pub struct SegmentInfo {
    pub text: String,
    pub raw_text: String,
    pub scope: usize,
    pub is_ellipsis: bool,
}

/// Where a speech kept in pace with the balloon stands.
#[derive(Debug, Clone)]
pub enum SyncState {
    /// A segment is still being played.
    Playing,
    /// The next segment is ready to be shown; more may follow.
    Ready { segment: SegmentInfo, has_more: bool },
    /// The next segment is still being synthesized.
    Waiting,
    /// All segments have been shown.
    Complete,
}

/// A reply of the worker to the plugin.
#[derive(Debug, Clone)]
pub enum Response {
    /// The command was carried out.
    Done,
    Error { message: String },
    SyncStarted { first_segment: Option<SegmentInfo>, has_more: bool },
    SyncStatus { state: SyncState },
    Dialog { message: Option<String> },
    EngineStatus {
        speakers_info: Vec<(Engine, Vec<SpeakerInfo>)>,
        connection_status: Vec<(Engine, bool)>,
        engine_paths: Vec<(Engine, String)>,
    },
}

} // verus!
