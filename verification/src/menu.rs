use vstd::prelude::*;
use crate::common::{Engine, CharacterVoice, SpeakerInfo, Style, NO_VOICE_UUID, spec_name, spec_port, all_engines,
    spec_engine_from_port, engine_from_port};
use crate::engine_map::EngineMap;
use crate::voices::GhostVoices;
use crate::text::{decimal, decimal_string, signed_decimal, signed_decimal_string, same_text, chars_of,
    string_of, strs};
use crate::common::GhostVoiceInfo;
use crate::plugin::{PLUGIN_UUID, PLUGIN_NAME};
use vstd::string::StringExecFns;

verus! {

/// What the menu shows for a voice that names no speaker the engine knows.
pub const DEFAULT_VOICE: &'static str = "【不明】";

/// What the menu shows for the voice that keeps a character silent.
pub const NO_VOICE: &'static str = "無し";

/// What the menu shows for a character with no voice of its own.
pub const UNSET_VOICE: &'static str = "未設定";

/// Whether the list of a ghost's voices grows or shrinks by one.
pub enum CharacterResizeMode {
    Expand,
    Shrink,
}

impl CharacterResizeMode {
    /// The mode numbered `n`: 0 grows, 1 shrinks.
    pub fn from_usize(n: usize) -> (r: Self)
        requires
            n < 2,
        ensures
            n == 0 ==> r is Expand,
            n == 1 ==> r is Shrink,
    {
        if n == 0 {
            CharacterResizeMode::Expand
        } else {
            CharacterResizeMode::Shrink
        }
    }
}

/// `s` in the colour (r, g, b), then the default colour again.
pub open spec fn colored_text(s: Seq<char>, r: u8, g: u8, b: u8) -> Seq<char> {
    "\\f[color,"@ + decimal(r as nat) + ","@ + decimal(g as nat) + ","@ + decimal(b as nat) + "]"@ + s
        + "\\f[color,default]"@
}

/// `s` with the font decoration `decoration` turned on before and off after.
pub open spec fn decorated_text(s: Seq<char>, decoration: Seq<char>) -> Seq<char> {
    "\\f["@ + decoration + ",1]"@ + s + "\\f["@ + decoration + ",0]"@
}

/// How the menu shows a switch that is on.
pub open spec fn activated_text() -> Seq<char> {
    colored_text("有効"@, 0, 128, 0)
}

/// How the menu shows a switch that is off.
pub open spec fn deactivated_text() -> Seq<char> {
    colored_text("無効"@, 128, 0, 0)
}

/// `s` in the colour (r, g, b).
pub fn colored(s: &str, r: u8, g: u8, b: u8) -> (res: String)
    ensures
        res@ == colored_text(s@, r, g, b),
{
    let res = String::from_str("\\f[color,").concat(decimal_string(r as u128).as_str()).concat(",").concat(
        decimal_string(g as u128).as_str(),
    ).concat(",").concat(decimal_string(b as u128).as_str()).concat("]").concat(s).concat(
        "\\f[color,default]",
    );
    assert(res@ =~= colored_text(s@, r, g, b));
    res
}

/// `s` in red.
pub fn reded(s: &str) -> (r: String)
    ensures
        r@ == colored_text(s@, 128, 0, 0),
{
    colored(s, 128, 0, 0)
}

/// `s` in green.
pub fn greened(s: &str) -> (r: String)
    ensures
        r@ == colored_text(s@, 0, 128, 0),
{
    colored(s, 0, 128, 0)
}

/// `s` in grey.
pub fn grayed(s: &str) -> (r: String)
    ensures
        r@ == colored_text(s@, 128, 128, 128),
{
    colored(s, 128, 128, 128)
}

/// `s` with the font decoration `decoration` turned on before and off after.
pub fn decorated(s: &str, decoration: &str) -> (r: String)
    ensures
        r@ == decorated_text(s@, decoration@),
{
    let r = String::from_str("\\f[").concat(decoration).concat(",1]").concat(s).concat("\\f[").concat(
        decoration,
    ).concat(",0]");
    assert(r@ =~= decorated_text(s@, decoration@));
    r
}

/// How the menu shows a switch.
pub fn switch_text(on: bool) -> (r: String)
    ensures
        r@ == if on {
            activated_text()
        } else {
            deactivated_text()
        },
{
    if on {
        greened("有効")
    } else {
        reded("無効")
    }
}

/// The text with every backslash doubled, so that it passes as an argument of a script call.
pub open spec fn escaped(s: Seq<char>) -> Seq<char>
    decreases s.len(),
{
    if s.len() == 0 {
        Seq::empty()
    } else {
        escaped(s.drop_last()) + if s.last() == '\\' {
            seq!['\\', '\\']
        } else {
            seq![s.last()]
        }
    }
}

/// The text with every backslash doubled.
pub fn escape_backslashes(s: &str) -> (r: String)
    ensures
        r@ == escaped(s@),
{
    let cs = chars_of(s);
    let mut out: Vec<char> = Vec::new();
    let mut i: usize = 0;
    while i < cs.len()
        invariant
            cs@ == s@,
            i <= cs@.len(),
            out@ == escaped(cs@.take(i as int)),
        decreases cs@.len() - i,
    {
        assert(cs@.take(i + 1).drop_last() =~= cs@.take(i as int));
        if cs[i] == '\\' {
            out.push('\\');
            out.push('\\');
        } else {
            out.push(cs[i]);
        }
        assert(out@ =~= escaped(cs@.take(i + 1)));
        i = i + 1;
    }
    assert(cs@.take(cs@.len() as int) =~= cs@);
    string_of(out.as_slice())
}

/// The position of the first voice in `list` with the speaker id `uuid`.
pub open spec fn first_speaker(list: Seq<SpeakerInfo>, uuid: Seq<char>) -> Option<int>
    decreases list.len(),
{
    if list.len() == 0 {
        None
    } else if list[0].speaker_uuid@ == uuid {
        Some(0)
    } else {
        match first_speaker(list.drop_first(), uuid) {
            Some(i) => Some(i + 1),
            None => None,
        }
    }
}

/// The position of the first style in `styles` that has no id or has the id `id`: the search
/// for the style `id` reads the ids up to there.
pub open spec fn style_pos(styles: Seq<Style>, id: i32) -> Option<int>
    decreases styles.len(),
{
    if styles.len() == 0 {
        None
    } else if styles[0].style_id is None || styles[0].style_id == Some(id) {
        Some(0)
    } else {
        match style_pos(styles.drop_first(), id) {
            Some(i) => Some(i + 1),
            None => None,
        }
    }
}

/// The engine that a voice's port names; only meaningful where it names one.
pub open spec fn voice_engine(c: CharacterVoice) -> Engine {
    spec_engine_from_port(c.port as int)->0
}

/// Whether the menu can name the voice `c`: its port names an engine, and where the engine
/// lists the speaker, the styles read in search of its style have ids, and the style found
/// has a name.
pub open spec fn voice_nameable(c: Option<CharacterVoice>, info: Map<Engine, Vec<SpeakerInfo>>) -> bool {
    match c {
        None => true,
        Some(c) => c.speaker_uuid@ == NO_VOICE_UUID@ || {
            &&& spec_engine_from_port(c.port as int) is Some
            &&& info.contains_key(voice_engine(c)) ==> match first_speaker(
                info[voice_engine(c)]@,
                c.speaker_uuid@,
            ) {
                Some(j) => match style_pos(info[voice_engine(c)]@[j].styles@, c.style_id) {
                    Some(k) => info[voice_engine(c)]@[j].styles@[k].style_id is Some
                        && info[voice_engine(c)]@[j].styles@[k].style_name is Some,
                    None => true,
                },
                None => true,
            }
        },
    }
}

/// How the menu names the voice `c`: unset, "no voice", the speaker and style, unknown, or
/// (when the engine is not running) a note that the engine must be started.
pub open spec fn voice_label(c: Option<CharacterVoice>, info: Map<Engine, Vec<SpeakerInfo>>) -> Seq<char> {
    match c {
        None => UNSET_VOICE@,
        Some(c) => if c.speaker_uuid@ == NO_VOICE_UUID@ {
            NO_VOICE@
        } else if info.contains_key(voice_engine(c)) {
            let list = info[voice_engine(c)]@;
            match first_speaker(list, c.speaker_uuid@) {
                Some(j) => match style_pos(list[j].styles@, c.style_id) {
                    Some(k) => list[j].speaker_name@ + " - "@ + list[j].styles@[k].style_name->0@,
                    None => DEFAULT_VOICE@,
                },
                None => DEFAULT_VOICE@,
            }
        } else {
            colored_text(
                "【使用不可: "@ + spec_name(voice_engine(c)) + "の起動が必要】"@,
                128,
                128,
                128,
            )
        },
    }
}

proof fn lemma_first_speaker(list: Seq<SpeakerInfo>, uuid: Seq<char>)
    ensures
        match first_speaker(list, uuid) {
            Some(i) => 0 <= i < list.len() && list[i].speaker_uuid@ == uuid && forall|j: int|
                0 <= j < i ==> list[j].speaker_uuid@ != uuid,
            None => forall|j: int| 0 <= j < list.len() ==> list[j].speaker_uuid@ != uuid,
        },
    decreases list.len(),
{
    if list.len() > 0 && list[0].speaker_uuid@ != uuid {
        lemma_first_speaker(list.drop_first(), uuid);
        assert forall|j: int| 1 <= j < list.len() implies list[j] == list.drop_first()[j - 1] by {}
    }
}

proof fn lemma_style_pos(styles: Seq<Style>, id: i32)
    ensures
        match style_pos(styles, id) {
            Some(i) => 0 <= i < styles.len() && (styles[i].style_id is None || styles[i].style_id
                == Some(id)) && forall|j: int|
                0 <= j < i ==> styles[j].style_id is Some && styles[j].style_id != Some(id),
            None => forall|j: int|
                0 <= j < styles.len() ==> styles[j].style_id is Some && styles[j].style_id != Some(id),
        },
    decreases styles.len(),
{
    if styles.len() > 0 && !(styles[0].style_id is None || styles[0].style_id == Some(id)) {
        lemma_style_pos(styles.drop_first(), id);
        assert forall|j: int| 1 <= j < styles.len() implies styles[j] == styles.drop_first()[j - 1] by {}
    }
}

fn find_speaker(list: &Vec<SpeakerInfo>, uuid: &String) -> (r: Option<usize>)
    ensures
        match r {
            Some(i) => first_speaker(list@, uuid@) == Some(i as int),
            None => first_speaker(list@, uuid@) is None,
        },
{
    proof {
        lemma_first_speaker(list@, uuid@);
    }
    let mut i: usize = 0;
    while i < list.len()
        invariant
            i <= list@.len(),
            forall|j: int| 0 <= j < i ==> list@[j].speaker_uuid@ != uuid@,
            match first_speaker(list@, uuid@) {
                Some(k) => 0 <= k < list@.len() && list@[k].speaker_uuid@ == uuid@ && forall|j: int|
                    0 <= j < k ==> list@[j].speaker_uuid@ != uuid@,
                None => forall|j: int| 0 <= j < list@.len() ==> list@[j].speaker_uuid@ != uuid@,
            },
        decreases list@.len() - i,
    {
        if list[i].speaker_uuid == *uuid {
            return Some(i);
        }
        i = i + 1;
    }
    None
}

fn find_style(styles: &Vec<Style>, id: i32) -> (r: Option<usize>)
    ensures
        match r {
            Some(i) => style_pos(styles@, id) == Some(i as int),
            None => style_pos(styles@, id) is None,
        },
{
    proof {
        lemma_style_pos(styles@, id);
    }
    let mut i: usize = 0;
    while i < styles.len()
        invariant
            i <= styles@.len(),
            forall|j: int|
                0 <= j < i ==> styles@[j].style_id is Some && styles@[j].style_id != Some(id),
            match style_pos(styles@, id) {
                Some(k) => 0 <= k < styles@.len() && (styles@[k].style_id is None
                    || styles@[k].style_id == Some(id)) && forall|j: int|
                    0 <= j < k ==> styles@[j].style_id is Some && styles@[j].style_id != Some(id),
                None => forall|j: int|
                    0 <= j < styles@.len() ==> styles@[j].style_id is Some && styles@[j].style_id
                        != Some(id),
            },
        decreases styles@.len() - i,
    {
        match styles[i].style_id {
            None => return Some(i),
            Some(s) => {
                if s == id {
                    return Some(i);
                }
            },
        }
        i = i + 1;
    }
    None
}

/// How the menu names the voice `c`.
pub fn get_voice(c: &Option<CharacterVoice>, speakers_info: &EngineMap<Vec<SpeakerInfo>>) -> (r: String)
    requires
        voice_nameable(*c, speakers_info@),
    ensures
        r@ == voice_label(*c, speakers_info@),
{
    let c = match c {
        Some(c) => c,
        None => return String::from_str(UNSET_VOICE),
    };
    if same_text(c.speaker_uuid.as_str(), NO_VOICE_UUID) {
        return String::from_str(NO_VOICE);
    }
    let e = match engine_from_port(c.port) {
        Some(e) => e,
        None => return String::from_str(DEFAULT_VOICE),
    };
    match speakers_info.get(e) {
        Some(list) => {
            proof {
                lemma_first_speaker(list@, c.speaker_uuid@);
            }
            let j = match find_speaker(list, &c.speaker_uuid) {
                Some(j) => j,
                None => return String::from_str(DEFAULT_VOICE),
            };
            proof {
                lemma_style_pos(list@[j as int].styles@, c.style_id);
            }
            let k = match find_style(&list[j].styles, c.style_id) {
                Some(k) => k,
                None => return String::from_str(DEFAULT_VOICE),
            };
            match &list[j].styles[k].style_name {
                Some(n) => list[j].speaker_name.clone().concat(" - ").concat(n.as_str()),
                None => String::from_str(DEFAULT_VOICE),
            }
        },
        None => {
            let note = String::from_str("【使用不可: ").concat(e.name()).concat("の起動が必要】");
            grayed(note.as_str())
        },
    }
}

/// Whether the menu can name the voice `c` (see `voice_nameable`).
pub fn is_voice_nameable(c: &Option<CharacterVoice>, info: &EngineMap<Vec<SpeakerInfo>>) -> (r: bool)
    ensures
        r == voice_nameable(*c, info@),
{
    let c = match c {
        Some(c) => c,
        None => return true,
    };
    if same_text(c.speaker_uuid.as_str(), NO_VOICE_UUID) {
        return true;
    }
    let e = match engine_from_port(c.port) {
        Some(e) => e,
        None => return false,
    };
    match info.get(e) {
        Some(list) => {
            let j = match find_speaker(list, &c.speaker_uuid) {
                Some(j) => j,
                None => return true,
            };
            proof {
                lemma_first_speaker(list@, c.speaker_uuid@);
            }
            match find_style(&list[j].styles, c.style_id) {
                Some(k) => {
                    proof {
                        lemma_style_pos(list@[j as int].styles@, c.style_id);
                    }
                    list[j].styles[k].style_id.is_some() && list[j].styles[k].style_name.is_some()
                },
                None => true,
            }
        },
        None => true,
    }
}

/// Whether `menu_script` can make the menu of the ghost `ghost_name`: the ghost has voice
/// settings, and every voice set for its characters, as well as the default voice, can be
/// named.
pub fn can_make_menu(
    ghost_name: &str,
    voices: &GhostVoices,
    info: &EngineMap<Vec<SpeakerInfo>>,
    initial_voice: &CharacterVoice,
) -> (r: bool)
    ensures
        r == (voices@.contains_key(ghost_name@) && ghost_voices_nameable(voices@, ghost_name@, info@)
            && voice_nameable(Some(*initial_voice), info@)),
{
    let g = match voices.get(ghost_name) {
        Some(g) => g,
        None => return false,
    };
    let mut i: usize = 0;
    while i < g.voices.len()
        invariant
            i <= g.voices@.len(),
            voices@.contains_key(ghost_name@),
            *g == voices@[ghost_name@],
            forall|j: int| 0 <= j < i ==> voice_nameable(#[trigger] g.voices@[j], info@),
        decreases g.voices@.len() - i,
    {
        if !is_voice_nameable(&g.voices[i], info) {
            assert(ghost_voice(voices@, ghost_name@, i as int) == Some(g.voices@[i as int]));
            return false;
        }
        i = i + 1;
    }
    assert forall|j: int| #[trigger] ghost_voice(voices@, ghost_name@, j) is Some implies voice_nameable(
        ghost_voice(voices@, ghost_name@, j)->0,
        info@,
    ) by {
        assert(ghost_voice(voices@, ghost_name@, j) == Some(g.voices@[j]));
    }
    assert(ghost_voices_nameable(voices@, ghost_name@, info@));
    let init = Some(initial_voice.duplicate());
    is_voice_nameable(&init, info)
}

/// The script that opens the menu again for the ghost `ghost` found at `path`.
pub open spec fn reopen_menu_text(ghost: Seq<char>, path: Seq<char>) -> Seq<char> {
    "\\![raiseplugin,"@ + PLUGIN_UUID@ + ",OnMenuExec,dummy,"@ + ghost + ",dummy,dummy,"@ + path + "]"@
}

/// The script that opens the menu again for the ghost `ghost` found at `path`.
pub fn reopen_menu_script(ghost: &str, path: &str) -> (r: String)
    ensures
        r@ == reopen_menu_text(ghost@, path@),
{
    let r = String::from_str("\\![raiseplugin,").concat(PLUGIN_UUID).concat(",OnMenuExec,dummy,").concat(
        ghost,
    ).concat(",dummy,dummy,").concat(path).concat("]");
    assert(r@ =~= reopen_menu_text(ghost@, path@));
    r
}

/// The voice set for character `index` of the ghost `ghost`, if the ghost has a slot for it.
pub open spec fn ghost_voice(voices: Map<Seq<char>, GhostVoiceInfo>, ghost: Seq<char>, index: int) -> Option<
    Option<CharacterVoice>,
> {
    if voices.contains_key(ghost) && 0 <= index < voices[ghost].voices@.len() {
        Some(voices[ghost].voices@[index])
    } else {
        None
    }
}

/// How the menu names the voice of character `index` of the ghost: unset where it has no slot.
pub open spec fn ghost_voice_label(
    voices: Map<Seq<char>, GhostVoiceInfo>,
    ghost: Seq<char>,
    index: int,
    info: Map<Engine, Vec<SpeakerInfo>>,
) -> Seq<char> {
    match ghost_voice(voices, ghost, index) {
        Some(c) => voice_label(c, info),
        None => UNSET_VOICE@,
    }
}

/// The tag that names character `index` in a script shown as text.
pub open spec fn index_tag(index: int) -> Seq<char> {
    if index < 2 {
        "\\\\"@ + decimal(index as nat)
    } else {
        "\\\\p["@ + decimal(index as nat) + "]"@
    }
}

/// The menu's entry for character `index` of the ghost: its tag, its name where the ghost
/// names it, and the button that opens the choice of its voice, showing the current voice.
pub open spec fn chara_text(
    characters: Seq<Seq<char>>,
    ghost: Seq<char>,
    index: int,
    path: Seq<char>,
    voices: Map<Seq<char>, GhostVoiceInfo>,
    info: Map<Engine, Vec<SpeakerInfo>>,
) -> Seq<char> {
    let name = if index < characters.len() {
        characters[index]
    } else {
        Seq::empty()
    };
    let shown_name = if index < characters.len() {
        " "@ + characters[index] + ":"@
    } else {
        Seq::empty()
    };
    index_tag(index) + shown_name + "\\n    \\__q[OnVoiceSelecting,"@ + ghost + ","@ + name + ","@
        + decimal(index as nat) + ","@ + path + "]"@ + decorated_text(
        ghost_voice_label(voices, ghost, index, info),
        "bold"@,
    ) + "\\__q\\n"@
}

/// Whether every voice set for the ghost's characters can be named.
pub open spec fn ghost_voices_nameable(
    voices: Map<Seq<char>, GhostVoiceInfo>,
    ghost: Seq<char>,
    info: Map<Engine, Vec<SpeakerInfo>>,
) -> bool {
    forall|i: int| #[trigger] ghost_voice(voices, ghost, i) matches Some(c) ==> voice_nameable(c, info)
}

/// How the menu names the voice of character `index` of the ghost `ghost`.
pub fn get_voice_from_ghost(voices: &GhostVoices, ghost: &str, index: usize, info: &EngineMap<Vec<SpeakerInfo>>) -> (r: String)
    requires
        ghost_voices_nameable(voices@, ghost@, info@),
    ensures
        r@ == ghost_voice_label(voices@, ghost@, index as int, info@),
{
    assert(ghost_voice(voices@, ghost@, index as int) matches Some(c) ==> voice_nameable(c, info@));
    match voices.get(ghost) {
        Some(g) => {
            if index < g.voices.len() {
                get_voice(&g.voices[index], info)
            } else {
                String::from_str(UNSET_VOICE)
            }
        },
        None => String::from_str(UNSET_VOICE),
    }
}

/// The menu's entry for character `index` of the ghost.
pub fn chara_info(
    characters: &Vec<String>,
    ghost_name: &str,
    index: usize,
    ghost_path: &str,
    voices: &GhostVoices,
    info: &EngineMap<Vec<SpeakerInfo>>,
) -> (r: String)
    requires
        ghost_voices_nameable(voices@, ghost_name@, info@),
    ensures
        r@ == chara_text(strs(characters@), ghost_name@, index as int, ghost_path@, voices@, info@),
{
    let voice = get_voice_from_ghost(voices, ghost_name, index, info);
    let tag = if index < 2 {
        String::from_str("\\\\").concat(decimal_string(index as u128).as_str())
    } else {
        String::from_str("\\\\p[").concat(decimal_string(index as u128).as_str()).concat("]")
    };
    let (shown, name) = if index < characters.len() {
        (String::from_str(" ").concat(characters[index].as_str()).concat(":"), characters[index].clone())
    } else {
        (String::new(), String::new())
    };
    let r = tag.concat(shown.as_str()).concat("\\n    \\__q[OnVoiceSelecting,").concat(ghost_name).concat(
        ",",
    ).concat(name.as_str()).concat(",").concat(decimal_string(index as u128).as_str()).concat(",").concat(
        ghost_path,
    ).concat("]").concat(decorated(voice.as_str(), "bold").as_str()).concat("\\__q\\n");
    assert(r@ =~= chara_text(strs(characters@), ghost_name@, index as int, ghost_path@, voices@, info@));
    r
}

/// The entries of the ghost's first `n` characters, in order.
pub open spec fn charas_text(
    characters: Seq<Seq<char>>,
    ghost: Seq<char>,
    path: Seq<char>,
    voices: Map<Seq<char>, GhostVoiceInfo>,
    info: Map<Engine, Vec<SpeakerInfo>>,
    n: nat,
) -> Seq<char>
    decreases n,
{
    if n == 0 {
        Seq::empty()
    } else {
        charas_text(characters, ghost, path, voices, info, (n - 1) as nat) + chara_text(
            characters,
            ghost,
            (n - 1) as int,
            path,
            voices,
            info,
        )
    }
}

/// The buttons that shrink the ghost's list of voices (only while it is longer than the list
/// of characters the ghost names) and grow it.
pub open spec fn resize_buttons_text(ghost: Seq<char>, path: Seq<char>, can_shrink: bool) -> Seq<char> {
    (if can_shrink {
        "\\__q[OnCharacterResized,"@ + ghost + ","@ + path + ",1]"@ + decorated_text("-"@, "bold"@)
            + "\\__q "@
    } else {
        Seq::empty()
    }) + "\\__q[OnCharacterResized,"@ + ghost + ","@ + path + ",0]"@ + decorated_text("+"@, "bold"@)
        + "\\__q"@
}

/// The menu's line for engine `e`: whether it runs, and its auto-start switch where it has one.
pub open spec fn engine_line(
    e: Engine,
    info: Map<Engine, Vec<SpeakerInfo>>,
    auto_start: Map<Engine, bool>,
    ghost: Seq<char>,
    path: Seq<char>,
) -> Seq<char> {
    spec_name(e) + ": "@ + (if info.contains_key(e) {
        colored_text("起動中"@, 0, 128, 0)
    } else {
        colored_text("停止中"@, 128, 128, 128)
    }) + if auto_start.contains_key(e) {
        "\\_l[@0,]\\f[align,right]自動起動: \\__q[OnAutoStartToggled,"@ + decimal(spec_port(e) as nat)
            + ","@ + ghost + ","@ + path + "]"@ + decorated_text(
            if auto_start[e] {
                activated_text()
            } else {
                deactivated_text()
            },
            "bold"@,
        ) + "\\__q\\n"@
    } else {
        "\\_l[@0,]\\f[align,right]自動起動: "@ + colored_text("設定未完了"@, 128, 128, 128) + "\\n"@
    }
}

/// The lines of the engines in `list`, in order.
pub open spec fn engine_lines(
    list: Seq<Engine>,
    info: Map<Engine, Vec<SpeakerInfo>>,
    auto_start: Map<Engine, bool>,
    ghost: Seq<char>,
    path: Seq<char>,
) -> Seq<char>
    decreases list.len(),
{
    if list.len() == 0 {
        Seq::empty()
    } else {
        engine_lines(list.drop_last(), info, auto_start, ghost, path) + engine_line(
            list.last(),
            info,
            auto_start,
            ghost,
            path,
        )
    }
}

/// A setting of the menu: `【現在 ` then a button that calls `event` and shows `shown`, then `】`.
pub open spec fn setting_text(event: Seq<char>, ghost: Seq<char>, path: Seq<char>, shown: Seq<char>) -> Seq<char> {
    "【現在 \\__q["@ + event + ","@ + ghost + ","@ + path + "]"@ + shown + "\\__q】\\n"@
}

/// The plugin's menu for the ghost `ghost` found at `path` (already escaped): the engines,
/// the voice of each character with the buttons that resize the list, the volume (shown as
/// `volume_changer`), and the switches and the default voice.
pub open spec fn menu_text(
    ghost: Seq<char>,
    path: Seq<char>,
    characters: Seq<Seq<char>>,
    version: Seq<char>,
    volume_changer: Seq<char>,
    voices: Map<Seq<char>, GhostVoiceInfo>,
    info: Map<Engine, Vec<SpeakerInfo>>,
    auto_start: Map<Engine, bool>,
    speak_by_punctuation: bool,
    initial_voice: CharacterVoice,
) -> Seq<char> {
    let n = voices[ghost].voices@.len();
    let characters_info = charas_text(characters, ghost, path, voices, info, n) + "【"@
        + resize_buttons_text(ghost, path, n > characters.len()) + "】\\n"@;
    let engine_status = engine_lines(all_engines(), info, auto_start, ghost, path) + "\\n"@;
    let switch = |on: bool| if on { activated_text() } else { deactivated_text() };
    "\\b[2]\\_q\\f[align,center]\\f[size,12]"@ + PLUGIN_NAME@ + " v"@ + version
        + "\\f[size,default]\\n\\n[half]\\f[align,left]"@ + engine_status + ghost + "\\n"@
        + characters_info + "\\n"@ + "\\![*]音量調整(共通)\\n    "@ + volume_changer
        + "\\![*]句読点ごとに読み上げ(共通)\\n    "@ + setting_text(
        "OnPunctuationSettingChanged"@,
        ghost,
        path,
        decorated_text(switch(speak_by_punctuation), "bold"@),
    ) + "\\![*]改行で一拍おく(ゴースト別)\\n    "@ + setting_text(
        "OnDivisionSettingChanged"@,
        ghost,
        path,
        decorated_text(switch(voices[ghost].devide_by_lines), "bold"@),
    ) + "\\![*]デフォルト声質(共通)\\n    "@ + setting_text(
        "OnDefaultVoiceSelecting"@,
        ghost,
        path,
        voice_label(Some(initial_voice), info),
    ) + "\\n\\q[×,]"@
}

fn setting(event: &str, ghost: &str, path: &str, shown: &str) -> (r: String)
    ensures
        r@ == setting_text(event@, ghost@, path@, shown@),
{
    let r = String::from_str("【現在 \\__q[").concat(event).concat(",").concat(ghost).concat(",").concat(
        path,
    ).concat("]").concat(shown).concat("\\__q】\\n");
    assert(r@ =~= setting_text(event@, ghost@, path@, shown@));
    r
}

fn engine_status_line(
    e: Engine,
    info: &EngineMap<Vec<SpeakerInfo>>,
    auto_start: &EngineMap<bool>,
    ghost: &str,
    path: &str,
) -> (r: String)
    ensures
        r@ == engine_line(e, info@, auto_start@, ghost@, path@),
{
    let running = if info.contains_key(e) {
        greened("起動中")
    } else {
        grayed("停止中")
    };
    let auto = match auto_start.get(e) {
        Some(on) => {
            let sw = switch_text(*on);
            String::from_str("\\_l[@0,]\\f[align,right]自動起動: \\__q[OnAutoStartToggled,").concat(
                decimal_string(e.port() as u128).as_str(),
            ).concat(",").concat(ghost).concat(",").concat(path).concat("]").concat(
                decorated(sw.as_str(), "bold").as_str(),
            ).concat("\\__q\\n")
        },
        None => String::from_str("\\_l[@0,]\\f[align,right]自動起動: ").concat(
            grayed("設定未完了").as_str(),
        ).concat("\\n"),
    };
    let r = String::from_str(e.name()).concat(": ").concat(running.as_str()).concat(auto.as_str());
    assert(r@ =~= engine_line(e, info@, auto_start@, ghost@, path@));
    r
}

/// The plugin's menu for the ghost `ghost_name`, found at `ghost_path` (already escaped), whose
/// characters are named `characters`; `volume_changer` is the volume setting as shown, and
/// `version` the plugin's version.
pub fn menu_script(
    ghost_name: &str,
    ghost_path: &str,
    characters: &Vec<String>,
    version: &str,
    volume_changer: &str,
    voices: &GhostVoices,
    info: &EngineMap<Vec<SpeakerInfo>>,
    auto_start: &EngineMap<bool>,
    speak_by_punctuation: bool,
    initial_voice: &CharacterVoice,
) -> (r: String)
    requires
        voices@.contains_key(ghost_name@),
        ghost_voices_nameable(voices@, ghost_name@, info@),
        voice_nameable(Some(*initial_voice), info@),
    ensures
        r@ == menu_text(
            ghost_name@,
            ghost_path@,
            strs(characters@),
            version@,
            volume_changer@,
            voices@,
            info@,
            auto_start@,
            speak_by_punctuation,
            *initial_voice,
        ),
{
    let g = match voices.get(ghost_name) {
        Some(g) => g,
        None => return String::new(),
    };
    let n = g.voices.len();
    let ghost cs = strs(characters@);
    let mut characters_info = String::new();
    let mut i: usize = 0;
    while i < n
        invariant
            i <= n,
            n == voices@[ghost_name@].voices@.len(),
            ghost_voices_nameable(voices@, ghost_name@, info@),
            cs == strs(characters@),
            characters_info@ == charas_text(cs, ghost_name@, ghost_path@, voices@, info@, i as nat),
        decreases n - i,
    {
        let entry = chara_info(characters, ghost_name, i, ghost_path, voices, info);
        characters_info.append(entry.as_str());
        i = i + 1;
    }
    let mut buttons = String::new();
    if n > characters.len() {
        buttons.append("\\__q[OnCharacterResized,");
        buttons.append(ghost_name);
        buttons.append(",");
        buttons.append(ghost_path);
        buttons.append(",1]");
        buttons.append(decorated("-", "bold").as_str());
        buttons.append("\\__q ");
    }
    buttons.append("\\__q[OnCharacterResized,");
    buttons.append(ghost_name);
    buttons.append(",");
    buttons.append(ghost_path);
    buttons.append(",0]");
    buttons.append(decorated("+", "bold").as_str());
    buttons.append("\\__q");
    assert(buttons@ =~= resize_buttons_text(ghost_name@, ghost_path@, n > characters@.len()));
    characters_info.append("【");
    characters_info.append(buttons.as_str());
    characters_info.append("】\\n");

    let list = crate::common::engine_list();
    let mut engine_status = String::new();
    let mut k: usize = 0;
    while k < list.len()
        invariant
            list@ == all_engines(),
            k <= list@.len(),
            engine_status@ == engine_lines(list@.take(k as int), info@, auto_start@, ghost_name@, ghost_path@),
        decreases list@.len() - k,
    {
        assert(list@.take(k + 1).drop_last() =~= list@.take(k as int));
        let line = engine_status_line(list[k], info, auto_start, ghost_name, ghost_path);
        engine_status.append(line.as_str());
        k = k + 1;
    }
    assert(list@.take(list@.len() as int) =~= list@);
    engine_status.append("\\n");

    let punct = setting(
        "OnPunctuationSettingChanged",
        ghost_name,
        ghost_path,
        decorated(switch_text(speak_by_punctuation).as_str(), "bold").as_str(),
    );
    let division = setting(
        "OnDivisionSettingChanged",
        ghost_name,
        ghost_path,
        decorated(switch_text(g.devide_by_lines).as_str(), "bold").as_str(),
    );
    let initial = Some(initial_voice.duplicate());
    let default_voice = setting(
        "OnDefaultVoiceSelecting",
        ghost_name,
        ghost_path,
        get_voice(&initial, info).as_str(),
    );
    let mut m = String::from_str("\\b[2]\\_q\\f[align,center]\\f[size,12]");
    m.append(PLUGIN_NAME);
    m.append(" v");
    m.append(version);
    m.append("\\f[size,default]\\n\\n[half]\\f[align,left]");
    m.append(engine_status.as_str());
    m.append(ghost_name);
    m.append("\\n");
    m.append(characters_info.as_str());
    m.append("\\n");
    m.append("\\![*]音量調整(共通)\\n    ");
    m.append(volume_changer);
    m.append("\\![*]句読点ごとに読み上げ(共通)\\n    ");
    m.append(punct.as_str());
    m.append("\\![*]改行で一拍おく(ゴースト別)\\n    ");
    m.append(division.as_str());
    m.append("\\![*]デフォルト声質(共通)\\n    ");
    m.append(default_voice.as_str());
    m.append("\\n\\q[×,]");
    assert(m@ =~= menu_text(
        ghost_name@,
        ghost_path@,
        strs(characters@),
        version@,
        volume_changer@,
        voices@,
        info@,
        auto_start@,
        speak_by_punctuation,
        *initial_voice,
    ));
    m
}

/// For what a list of voices is shown: the voice of one character of a ghost, or the default
/// voice (opened from the menu of a ghost).
pub enum VoiceListTarget {
    Character { ghost_name: String, index: usize, path: String },
    Default { ghost_name: String, path: String },
}

/// What a list of voices is shown for, as plain values.
pub enum ListTargetView {
    Character { ghost_name: Seq<char>, index: int, path: Seq<char> },
    Default { ghost_name: Seq<char>, path: Seq<char> },
}

impl View for VoiceListTarget {
    type V = ListTargetView;

    open spec fn view(&self) -> ListTargetView {
        match self {
            VoiceListTarget::Character { ghost_name, index, path } => ListTargetView::Character {
                ghost_name: ghost_name@,
                index: *index as int,
                path: path@,
            },
            VoiceListTarget::Default { ghost_name, path } => ListTargetView::Default {
                ghost_name: ghost_name@,
                path: path@,
            },
        }
    }
}

/// One entry of a list of voices: its label, and the call that selects the voice with the
/// given port, speaker and style.
pub open spec fn voice_item_text(t: ListTargetView, label: Seq<char>, port: int, uuid: Seq<char>, style: int) -> Seq<char> {
    match t {
        ListTargetView::Character { ghost_name, index, path } => "\\![*]\\q["@ + label
            + ",OnVoiceSelected,"@ + ghost_name + ","@ + decimal(index as nat) + ","@ + signed_decimal(port)
            + ","@ + uuid + ","@ + signed_decimal(style) + ","@ + path + "]\\n"@,
        ListTargetView::Default { ghost_name, path } => "\\![*]\\q["@ + label + ",OnDefaultVoiceSelected,"@
            + signed_decimal(port) + ","@ + uuid + ","@ + signed_decimal(style) + ","@ + ghost_name + ","@
            + path + "]\\n"@,
    }
}

/// The entries for the styles `styles` of the voice `sp` of engine `e`, in order.
pub open spec fn style_items(t: ListTargetView, e: Engine, sp: SpeakerInfo, styles: Seq<Style>) -> Seq<char>
    decreases styles.len(),
{
    if styles.len() == 0 {
        Seq::empty()
    } else {
        style_items(t, e, sp, styles.drop_last()) + voice_item_text(
            t,
            sp.speaker_name@ + " | "@ + styles.last().style_name->0@,
            spec_port(e),
            sp.speaker_uuid@,
            styles.last().style_id->0 as int,
        )
    }
}

/// The entries for the voices `sps` of engine `e`, in order.
pub open spec fn speaker_items(t: ListTargetView, e: Engine, sps: Seq<SpeakerInfo>) -> Seq<char>
    decreases sps.len(),
{
    if sps.len() == 0 {
        Seq::empty()
    } else {
        speaker_items(t, e, sps.drop_last()) + style_items(t, e, sps.last(), sps.last().styles@)
    }
}

/// The entries for the voices of the running engines among `list`, in order.
pub open spec fn engine_items(t: ListTargetView, info: Map<Engine, Vec<SpeakerInfo>>, list: Seq<Engine>) -> Seq<char>
    decreases list.len(),
{
    if list.len() == 0 {
        Seq::empty()
    } else {
        engine_items(t, info, list.drop_last()) + if info.contains_key(list.last()) {
            speaker_items(t, list.last(), info[list.last()]@)
        } else {
            Seq::empty()
        }
    }
}

/// The list of voices to choose from: "no voice" first, then every style of every voice of
/// every running engine.
pub open spec fn voice_list_text(t: ListTargetView, info: Map<Engine, Vec<SpeakerInfo>>) -> Seq<char> {
    "\\b[2]"@ + voice_item_text(t, NO_VOICE@, spec_port(Engine::VoiceVox), NO_VOICE_UUID@, -1)
        + engine_items(t, info, all_engines())
}

/// Whether every style that the running engines list has a name and an id.
pub open spec fn styles_complete(info: Map<Engine, Vec<SpeakerInfo>>) -> bool {
    forall|e: Engine, i: int, j: int|
        #![trigger info[e]@[i].styles@[j]]
        info.contains_key(e) && 0 <= i < info[e]@.len() && 0 <= j < info[e]@[i].styles@.len()
            ==> info[e]@[i].styles@[j].style_name is Some && info[e]@[i].styles@[j].style_id is Some
}

fn voice_item(t: &VoiceListTarget, label: &str, port: i32, uuid: &str, style: i32) -> (r: String)
    ensures
        r@ == voice_item_text(t@, label@, port as int, uuid@, style as int),
{
    let port_s = signed_decimal_string(port as i64);
    let style_s = signed_decimal_string(style as i64);
    let r = match t {
        VoiceListTarget::Character { ghost_name, index, path } => String::from_str("\\![*]\\q[").concat(label).concat(
            ",OnVoiceSelected,",
        ).concat(ghost_name.as_str()).concat(",").concat(decimal_string(*index as u128).as_str()).concat(",").concat(
            port_s.as_str(),
        ).concat(",").concat(uuid).concat(",").concat(style_s.as_str()).concat(",").concat(path.as_str()).concat(
            "]\\n",
        ),
        VoiceListTarget::Default { ghost_name, path } => String::from_str("\\![*]\\q[").concat(label).concat(
            ",OnDefaultVoiceSelected,",
        ).concat(port_s.as_str()).concat(",").concat(uuid).concat(",").concat(style_s.as_str()).concat(",").concat(
            ghost_name.as_str(),
        ).concat(",").concat(path.as_str()).concat("]\\n"),
    };
    assert(r@ =~= voice_item_text(t@, label@, port as int, uuid@, style as int));
    r
}

/// The list of voices to choose from, for a character or for the default voice.
pub fn list_available_voices(t: &VoiceListTarget, info: &EngineMap<Vec<SpeakerInfo>>) -> (r: String)
    requires
        styles_complete(info@),
    ensures
        r@ == voice_list_text(t@, info@),
{
    let mut m = String::from_str("\\b[2]");
    let no_voice = CharacterVoice::no_voice();
    m.append(voice_item(t, NO_VOICE, no_voice.port, no_voice.speaker_uuid.as_str(), no_voice.style_id).as_str());
    let ghost head = m@;
    let list = crate::common::engine_list();
    let mut k: usize = 0;
    while k < list.len()
        invariant
            list@ == all_engines(),
            k <= list@.len(),
            styles_complete(info@),
            m@ == head + engine_items(t@, info@, list@.take(k as int)),
        decreases list@.len() - k,
    {
        let e = list[k];
        assert(list@.take(k + 1).drop_last() =~= list@.take(k as int));
        match info.get(e) {
            Some(sps) => {
                let ghost before = m@;
                let mut a: usize = 0;
                while a < sps.len()
                    invariant
                        a <= sps@.len(),
                        info@.contains_key(e),
                        sps@ == info@[e]@,
                        styles_complete(info@),
                        m@ == before + speaker_items(t@, e, sps@.take(a as int)),
                    decreases sps@.len() - a,
                {
                    assert(sps@.take(a + 1).drop_last() =~= sps@.take(a as int));
                    let sp = &sps[a];
                    let ghost mid = m@;
                    let mut b: usize = 0;
                    while b < sp.styles.len()
                        invariant
                            b <= sp.styles@.len(),
                            info@.contains_key(e),
                            sps@ == info@[e]@,
                            a < sps@.len(),
                            *sp == sps@[a as int],
                            styles_complete(info@),
                            m@ == mid + style_items(t@, e, *sp, sp.styles@.take(b as int)),
                        decreases sp.styles@.len() - b,
                    {
                        assert(sp.styles@.take(b + 1).drop_last() =~= sp.styles@.take(b as int));
                        let st = &sp.styles[b];
                        assert(info@[e]@[a as int].styles@[b as int] == *st);
                        let name = match &st.style_name {
                            Some(n) => n,
                            None => {
                                assert(false);
                                return String::new();
                            },
                        };
                        let id = match st.style_id {
                            Some(i) => i,
                            None => {
                                assert(false);
                                return String::new();
                            },
                        };
                        let label = sp.speaker_name.clone().concat(" | ").concat(name.as_str());
                        m.append(voice_item(t, label.as_str(), e.port(), sp.speaker_uuid.as_str(), id).as_str());
                        assert(m@ =~= mid + style_items(t@, e, *sp, sp.styles@.take(b + 1)));
                        b = b + 1;
                    }
                    assert(sp.styles@.take(sp.styles@.len() as int) =~= sp.styles@);
                    assert(m@ =~= before + speaker_items(t@, e, sps@.take(a + 1)));
                    a = a + 1;
                }
                assert(sps@.take(sps@.len() as int) =~= sps@);
                assert(m@ =~= head + engine_items(t@, info@, list@.take(k + 1)));
            },
            None => {
                assert(m@ =~= head + engine_items(t@, info@, list@.take(k + 1)));
            },
        }
        k = k + 1;
    }
    assert(list@.take(list@.len() as int) =~= list@);
    m
}

/// The script that lets the user choose the voice of one character of a ghost.
pub open spec fn voice_selecting_text(ghost: Seq<char>, character_name: Seq<char>, index: int, path: Seq<char>, list: Seq<char>) -> Seq<char> {
    "\\C\\c\\b[2]\\_q"@ + ghost + "\\n"@ + character_name + "\\n"@ + list + "\\n\\q[×,]"@
}

/// The script that lets the user choose the voice of character `index` (named
/// `character_name`) of the ghost `ghost` found at `path`.
pub fn voice_selecting_script(
    ghost: &str,
    character_name: &str,
    index: usize,
    path: &str,
    info: &EngineMap<Vec<SpeakerInfo>>,
) -> (r: String)
    requires
        styles_complete(info@),
    ensures
        r@ == voice_selecting_text(
            ghost@,
            character_name@,
            index as int,
            path@,
            voice_list_text(
                ListTargetView::Character { ghost_name: ghost@, index: index as int, path: path@ },
                info@,
            ),
        ),
{
    let t = VoiceListTarget::Character {
        ghost_name: String::from_str(ghost),
        index,
        path: String::from_str(path),
    };
    let list = list_available_voices(&t, info);
    let r = String::from_str("\\C\\c\\b[2]\\_q").concat(ghost).concat("\\n").concat(character_name).concat(
        "\\n",
    ).concat(list.as_str()).concat("\\n\\q[×,]");
    assert(r@ =~= voice_selecting_text(ghost@, character_name@, index as int, path@, list@));
    r
}

/// The script that lets the user choose the default voice, from the menu of the ghost `ghost`
/// found at `path`.
pub fn default_voice_selecting_script(ghost: &str, path: &str, info: &EngineMap<Vec<SpeakerInfo>>) -> (r: String)
    requires
        styles_complete(info@),
    ensures
        r@ == "\\_qデフォルトボイスの設定\\n"@ + voice_list_text(
            ListTargetView::Default { ghost_name: ghost@, path: path@ },
            info@,
        ) + "\\n\\q[×,]"@,
{
    let t = VoiceListTarget::Default { ghost_name: String::from_str(ghost), path: String::from_str(path) };
    let list = list_available_voices(&t, info);
    let r = String::from_str("\\_qデフォルトボイスの設定\\n").concat(list.as_str()).concat("\\n\\q[×,]");
    assert(r@ =~= "\\_qデフォルトボイスの設定\\n"@ + list@ + "\\n\\q[×,]"@);
    r
}

/// Sets the voice of character `index` of the ghost `ghost` to `voice`.
pub fn set_character_voice(voices: &mut GhostVoices, ghost: &str, index: usize, voice: CharacterVoice)
    requires
        old(voices)@.contains_key(ghost@),
        index < old(voices)@[ghost@].voices@.len(),
    ensures
        final(voices)@.dom() == old(voices)@.dom(),
        forall|g: Seq<char>| g != ghost@ && old(voices)@.contains_key(g) ==> final(voices)@[g] == old(voices)@[g],
        final(voices)@[ghost@].voices@ == old(voices)@[ghost@].voices@.update(index as int, Some(voice)),
        final(voices)@[ghost@].devide_by_lines == old(voices)@[ghost@].devide_by_lines,
        final(voices)@[ghost@].sync_speech_to_balloon == old(voices)@[ghost@].sync_speech_to_balloon,
{
    let mut info = match voices.get(ghost) {
        Some(g) => g.duplicate(),
        None => return,
    };
    info.voices.set(index, Some(voice));
    voices.insert(String::from_str(ghost), info);
    assert(final(voices)@.dom() =~= old(voices)@.dom());
}

/// Turns the pause at line breaks on or off for the ghost `ghost`, where it has settings.
pub fn toggle_division(voices: &mut GhostVoices, ghost: &str)
    ensures
        !old(voices)@.contains_key(ghost@) ==> final(voices)@ == old(voices)@,
        old(voices)@.contains_key(ghost@) ==> {
            &&& final(voices)@.dom() == old(voices)@.dom()
            &&& forall|g: Seq<char>| g != ghost@ && old(voices)@.contains_key(g) ==> final(voices)@[g] == old(voices)@[g]
            &&& final(voices)@[ghost@].devide_by_lines == !old(voices)@[ghost@].devide_by_lines
            &&& final(voices)@[ghost@].voices@ == old(voices)@[ghost@].voices@
            &&& final(voices)@[ghost@].sync_speech_to_balloon == old(voices)@[ghost@].sync_speech_to_balloon
        },
{
    let mut info = match voices.get(ghost) {
        Some(g) => g.duplicate(),
        None => return,
    };
    info.devide_by_lines = !info.devide_by_lines;
    voices.insert(String::from_str(ghost), info);
    assert(final(voices)@.dom() =~= old(voices)@.dom());
}

/// Turns the auto-start of the engine listening on `port` on or off, where it has a setting.
pub fn toggle_auto_start(auto_start: &mut EngineMap<bool>, port: i32)
    requires
        spec_engine_from_port(port as int) is Some,
    ensures
        ({
            let e = spec_engine_from_port(port as int)->0;
            final(auto_start)@ == if old(auto_start)@.contains_key(e) {
                old(auto_start)@.insert(e, !old(auto_start)@[e])
            } else {
                old(auto_start)@
            }
        }),
{
    let e = match engine_from_port(port) {
        Some(e) => e,
        None => return,
    };
    let current = match auto_start.get(e) {
        Some(b) => *b,
        None => return,
    };
    auto_start.insert(e, !current);
}

/// The ghost's voices after the list grows by one unset voice, or shrinks by one but never to
/// fewer than the `named` characters the ghost names.
pub open spec fn resized_voices(v: Seq<Option<CharacterVoice>>, mode: CharacterResizeMode, named: int) -> Seq<Option<CharacterVoice>> {
    match mode {
        CharacterResizeMode::Expand => v.push(None),
        CharacterResizeMode::Shrink => if v.len() > named {
            v.drop_last()
        } else {
            v
        },
    }
}

/// Grows or shrinks the list of voices of the ghost `ghost`, which names `named` characters.
pub fn resize_characters(voices: &mut GhostVoices, ghost: &str, mode: CharacterResizeMode, named: usize)
    requires
        old(voices)@.contains_key(ghost@),
    ensures
        final(voices)@.dom() == old(voices)@.dom(),
        forall|g: Seq<char>| g != ghost@ && old(voices)@.contains_key(g) ==> final(voices)@[g] == old(voices)@[g],
        final(voices)@[ghost@].voices@ == resized_voices(old(voices)@[ghost@].voices@, mode, named as int),
        final(voices)@[ghost@].devide_by_lines == old(voices)@[ghost@].devide_by_lines,
        final(voices)@[ghost@].sync_speech_to_balloon == old(voices)@[ghost@].sync_speech_to_balloon,
{
    let mut info = match voices.get(ghost) {
        Some(g) => g.duplicate(),
        None => return,
    };
    match mode {
        CharacterResizeMode::Expand => {
            info.voices.push(None);
        },
        CharacterResizeMode::Shrink => {
            if info.voices.len() > named {
                info.voices.pop();
                assert(info.voices@ =~= old(voices)@[ghost@].voices@.drop_last());
            }
        },
    }
    voices.insert(String::from_str(ghost), info);
    assert(final(voices)@.dom() =~= old(voices)@.dom());
}

} // verus!
