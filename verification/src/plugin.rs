use vstd::prelude::*;
use crate::common::{Response, SyncState, GhostVoiceInfo};
use crate::voices::GhostVoices;
use crate::dialog::scope_tag;
use crate::format::scope_to_tag;
use crate::tags::oi;
use crate::quick::{occurs_at, exec_occurs_at, find_from, exec_find, lemma_find_from};
use crate::text::{chars_of, same_text, string_of, copy_range};
use vstd::string::StringExecFns;

verus! {

/// The plugin's name, as the menu shows it.
pub const PLUGIN_NAME: &'static str = "GhostSpeaker";

/// The plugin's id, by which a ghost's script calls it back.
pub const PLUGIN_UUID: &'static str = "1e1e0813-f16f-409e-b870-2c36b9084732";

/// Whether `pat` occurs somewhere in `s`.
pub open spec fn contains_text(s: Seq<char>, pat: Seq<char>) -> bool {
    exists|i: int| occurs_at(s, pat, i)
}

/// Whether `pat` occurs somewhere in `s`.
pub fn has_text(s: &str, pat: &str) -> (r: bool)
    ensures
        r == contains_text(s@, pat@),
{
    let sc = chars_of(s);
    let pc = chars_of(pat);
    let mut i: usize = 0;
    while i < sc.len()
        invariant
            sc@ == s@,
            pc@ == pat@,
            i <= sc@.len(),
            forall|j: int| 0 <= j < i ==> !occurs_at(s@, pat@, j),
        decreases sc@.len() - i,
    {
        if exec_occurs_at(sc.as_slice(), pc.as_slice(), i) {
            return true;
        }
        i = i + 1;
    }
    if pc.len() == 0 {
        assert(s@.subrange(s@.len() as int, s@.len() as int) =~= pat@);
        assert(occurs_at(s@, pat@, s@.len() as int));
        return true;
    }
    assert forall|j: int| !occurs_at(s@, pat@, j) by {
        if 0 <= j && j + pat@.len() <= s@.len() {
            assert(j < i);
        }
    }
    false
}

/// What the plugin does with another ghost's talk.
pub enum TalkAction {
    /// Nothing: the talk is empty or is the plugin's own script.
    Ignore,
    /// Speak it the ordinary way.
    SpeakAsync,
    /// Speak it in pace with the balloon.
    SyncStart,
}

/// What to do with the talk `msg` of a ghost, whose script carries the flags `flags` and whose
/// settings ask (`sync_enabled`) or not for speech in pace with the balloon.
pub fn talk_action(msg: &str, flags: &str, sync_enabled: bool) -> (r: TalkAction)
    ensures
        (msg@.len() == 0 || contains_text(flags@, "plugin-script"@)) ==> r is Ignore,
        !(msg@.len() == 0 || contains_text(flags@, "plugin-script"@)) ==> if sync_enabled {
            r is SyncStart
        } else {
            r is SpeakAsync
        },
{
    if msg.is_empty() || has_text(flags, "plugin-script") {
        TalkAction::Ignore
    } else if sync_enabled {
        TalkAction::SyncStart
    } else {
        TalkAction::SpeakAsync
    }
}

/// Whether the ghost `name` asks for speech in pace with the balloon; a ghost with no settings
/// does not.
pub fn sync_enabled(voices: &GhostVoices, name: &str) -> (r: bool)
    ensures
        r == (voices@.contains_key(name@) && voices@[name@].sync_speech_to_balloon),
{
    match voices.get(name) {
        Some(info) => info.sync_speech_to_balloon,
        None => false,
    }
}

/// The script that makes the ghost `ghost_name` call the plugin back for the next segment.
pub open spec fn continue_call(ghost_name: Seq<char>) -> Seq<char> {
    "\\![raiseplugin,"@ + PLUGIN_UUID@ + ",OnSyncSpeechContinue,"@ + ghost_name + "]"@
}

fn push_continue_call(s: String, ghost_name: &str) -> (r: String)
    ensures
        r@ == s@ + continue_call(ghost_name@),
{
    let r = s.concat("\\![raiseplugin,").concat(PLUGIN_UUID).concat(",OnSyncSpeechContinue,").concat(
        ghost_name,
    ).concat("]");
    assert(r@ =~= s@ + continue_call(ghost_name@));
    r
}

/// The script that shows the first segment of a paced talk, in its character's scope, and
/// asks for the next one when more follow; none when the worker paced nothing (or answered
/// otherwise).
pub fn sync_started_script(resp: &Response, ghost_name: &str) -> (r: Option<String>)
    ensures
        match resp {
            Response::SyncStarted { first_segment: Some(seg), has_more } => r matches Some(s)
                && s@ == scope_tag(seg.scope as int) + seg.raw_text@ + if *has_more {
                continue_call(ghost_name@)
            } else {
                Seq::empty()
            },
            _ => r is None,
        },
{
    match resp {
        Response::SyncStarted { first_segment: Some(seg), has_more } => {
            let s = scope_to_tag(seg.scope).concat(seg.raw_text.as_str());
            if *has_more {
                Some(push_continue_call(s, ghost_name))
            } else {
                assert(s@ + Seq::<char>::empty() =~= s@);
                Some(s)
            }
        },
        _ => None,
    }
}

/// The script that answers a poll of a paced talk: while a sound plays or a segment is being
/// synthesized, wait 200 ms and ask again; when a segment is ready, clear the balloon, show it
/// in its character's scope and ask for the next when more follow; when the talk is complete
/// (or the worker answered otherwise), nothing.
pub fn sync_continue_script(resp: &Response, ghost_name: &str) -> (r: Option<String>)
    ensures
        match resp {
            Response::SyncStatus { state: SyncState::Playing } | Response::SyncStatus {
                state: SyncState::Waiting,
            } => r matches Some(s) && s@ == "\\C\\_w[200]"@ + continue_call(ghost_name@),
            Response::SyncStatus { state: SyncState::Ready { segment, has_more } } => r matches Some(s)
                && s@ == "\\C"@ + scope_tag(segment.scope as int) + segment.raw_text@ + if *has_more {
                continue_call(ghost_name@)
            } else {
                Seq::empty()
            },
            _ => r is None,
        },
{
    match resp {
        Response::SyncStatus { state: SyncState::Playing } | Response::SyncStatus {
            state: SyncState::Waiting,
        } => Some(push_continue_call(String::from_str("\\C\\_w[200]"), ghost_name)),
        Response::SyncStatus { state: SyncState::Ready { segment, has_more } } => {
            let s = String::from_str("\\C").concat(scope_to_tag(segment.scope).as_str()).concat(
                segment.raw_text.as_str(),
            );
            if *has_more {
                Some(push_continue_call(s, ghost_name))
            } else {
                assert(s@ + Seq::<char>::empty() =~= s@);
                Some(s)
            }
        },
        _ => None,
    }
}

/// Gives a ghost that boots for the first time voice settings for `character_count`
/// characters, none with a voice; a ghost known already keeps its settings.
pub fn register_ghost(voices: &mut GhostVoices, name: String, character_count: usize)
    ensures
        old(voices)@.contains_key(name@) ==> final(voices)@ == old(voices)@,
        !old(voices)@.contains_key(name@) ==> final(voices)@.contains_key(name@) && final(voices)@.remove(name@)
            == old(voices)@ && !final(voices)@[name@].devide_by_lines
            && !final(voices)@[name@].sync_speech_to_balloon && final(voices)@[name@].voices@
            == Seq::new(character_count as nat, |i: int| None::<crate::common::CharacterVoice>),
{
    if !voices.contains(name.as_str()) {
        let info = GhostVoiceInfo::new(character_count);
        voices.insert(name, info);
        assert(final(voices)@.remove(name@) =~= old(voices)@);
    }
}

/// An event of the base software that the plugin answers.
pub enum PluginEvent {
    Version,
    OnOtherGhostTalk,
    OnMenuExec,
    OnVoiceSelecting,
    OnVoiceSelected,
    OnVolumeChange,
    OnDefaultVoiceSelecting,
    OnDefaultVoiceSelected,
    OnDivisionSettingChanged,
    OnPunctuationSettingChanged,
    OnSecondChange,
    OnAutoStartToggled,
    OnCharacterResized,
    OnVoiceQualityMenu,
    OnVoiceQualityChange,
    OnVoiceQualityReset,
    OnGhostBoot,
    OnSyncSpeechContinue,
    OnSyncBalloonSettingChanged,
}

/// The id under which the base software raises each event.
pub open spec fn event_name(e: PluginEvent) -> Seq<char> {
    match e {
        PluginEvent::Version => "version"@,
        PluginEvent::OnOtherGhostTalk => "OnOtherGhostTalk"@,
        PluginEvent::OnMenuExec => "OnMenuExec"@,
        PluginEvent::OnVoiceSelecting => "OnVoiceSelecting"@,
        PluginEvent::OnVoiceSelected => "OnVoiceSelected"@,
        PluginEvent::OnVolumeChange => "OnVolumeChange"@,
        PluginEvent::OnDefaultVoiceSelecting => "OnDefaultVoiceSelecting"@,
        PluginEvent::OnDefaultVoiceSelected => "OnDefaultVoiceSelected"@,
        PluginEvent::OnDivisionSettingChanged => "OnDivisionSettingChanged"@,
        PluginEvent::OnPunctuationSettingChanged => "OnPunctuationSettingChanged"@,
        PluginEvent::OnSecondChange => "OnSecondChange"@,
        PluginEvent::OnAutoStartToggled => "OnAutoStartToggled"@,
        PluginEvent::OnCharacterResized => "OnCharacterResized"@,
        PluginEvent::OnVoiceQualityMenu => "OnVoiceQualityMenu"@,
        PluginEvent::OnVoiceQualityChange => "OnVoiceQualityChange"@,
        PluginEvent::OnVoiceQualityReset => "OnVoiceQualityReset"@,
        PluginEvent::OnGhostBoot => "OnGhostBoot"@,
        PluginEvent::OnSyncSpeechContinue => "OnSyncSpeechContinue"@,
        PluginEvent::OnSyncBalloonSettingChanged => "OnSyncBalloonSettingChanged"@,
    }
}

/// The event raised under the id `id`, if the plugin answers it.
pub fn get_event(id: &str) -> (r: Option<PluginEvent>)
    ensures
        r matches Some(e) ==> event_name(e) == id@,
        r is None ==> forall|e: PluginEvent| event_name(e) != id@,
{
    if same_text(id, "version") {
        return Some(PluginEvent::Version);
    }
    if same_text(id, "OnOtherGhostTalk") {
        return Some(PluginEvent::OnOtherGhostTalk);
    }
    if same_text(id, "OnMenuExec") {
        return Some(PluginEvent::OnMenuExec);
    }
    if same_text(id, "OnVoiceSelecting") {
        return Some(PluginEvent::OnVoiceSelecting);
    }
    if same_text(id, "OnVoiceSelected") {
        return Some(PluginEvent::OnVoiceSelected);
    }
    if same_text(id, "OnVolumeChange") {
        return Some(PluginEvent::OnVolumeChange);
    }
    if same_text(id, "OnDefaultVoiceSelecting") {
        return Some(PluginEvent::OnDefaultVoiceSelecting);
    }
    if same_text(id, "OnDefaultVoiceSelected") {
        return Some(PluginEvent::OnDefaultVoiceSelected);
    }
    if same_text(id, "OnDivisionSettingChanged") {
        return Some(PluginEvent::OnDivisionSettingChanged);
    }
    if same_text(id, "OnPunctuationSettingChanged") {
        return Some(PluginEvent::OnPunctuationSettingChanged);
    }
    if same_text(id, "OnSecondChange") {
        return Some(PluginEvent::OnSecondChange);
    }
    if same_text(id, "OnAutoStartToggled") {
        return Some(PluginEvent::OnAutoStartToggled);
    }
    if same_text(id, "OnCharacterResized") {
        return Some(PluginEvent::OnCharacterResized);
    }
    if same_text(id, "OnVoiceQualityMenu") {
        return Some(PluginEvent::OnVoiceQualityMenu);
    }
    if same_text(id, "OnVoiceQualityChange") {
        return Some(PluginEvent::OnVoiceQualityChange);
    }
    if same_text(id, "OnVoiceQualityReset") {
        return Some(PluginEvent::OnVoiceQualityReset);
    }
    if same_text(id, "OnGhostBoot") {
        return Some(PluginEvent::OnGhostBoot);
    }
    if same_text(id, "OnSyncSpeechContinue") {
        return Some(PluginEvent::OnSyncSpeechContinue);
    }
    if same_text(id, "OnSyncBalloonSettingChanged") {
        return Some(PluginEvent::OnSyncBalloonSettingChanged);
    }
    assert forall|e: PluginEvent| event_name(e) != id@ by {
        match e {
            PluginEvent::Version => {},
            PluginEvent::OnOtherGhostTalk => {},
            PluginEvent::OnMenuExec => {},
            PluginEvent::OnVoiceSelecting => {},
            PluginEvent::OnVoiceSelected => {},
            PluginEvent::OnVolumeChange => {},
            PluginEvent::OnDefaultVoiceSelecting => {},
            PluginEvent::OnDefaultVoiceSelected => {},
            PluginEvent::OnDivisionSettingChanged => {},
            PluginEvent::OnPunctuationSettingChanged => {},
            PluginEvent::OnSecondChange => {},
            PluginEvent::OnAutoStartToggled => {},
            PluginEvent::OnCharacterResized => {},
            PluginEvent::OnVoiceQualityMenu => {},
            PluginEvent::OnVoiceQualityChange => {},
            PluginEvent::OnVoiceQualityReset => {},
            PluginEvent::OnGhostBoot => {},
            PluginEvent::OnSyncSpeechContinue => {},
            PluginEvent::OnSyncBalloonSettingChanged => {},
        }
    }
    None
}

/// The event that answers a request: none while the plugin unloads, for a request that is
/// neither GET nor NOTIFY, or when neither its `ID` nor its `BaseID` names an event the plugin
/// answers (the `ID` is tried first).
pub fn route_request(
    shutting_down: bool,
    get_or_notify: bool,
    id: Option<&str>,
    base_id: Option<&str>,
) -> (r: Option<PluginEvent>)
    ensures
        shutting_down || !get_or_notify || id is None ==> r is None,
        !shutting_down && get_or_notify && id is Some ==> match r {
            Some(e) => event_name(e) == id->0@ || ((forall|f: PluginEvent| event_name(f) != id->0@)
                && (base_id matches Some(b) && event_name(e) == b@)),
            None => (forall|f: PluginEvent| event_name(f) != id->0@) && (base_id matches Some(b)
                ==> forall|f: PluginEvent| event_name(f) != b@),
        },
{
    if shutting_down || !get_or_notify {
        return None;
    }
    let id = match id {
        Some(id) => id,
        None => return None,
    };
    match get_event(id) {
        Some(e) => Some(e),
        None => match base_id {
            Some(b) => get_event(b),
            None => None,
        },
    }
}

/// The method and the version of a request line `METHOD PLUGIN/VERSION`: the text before the
/// first ` PLUGIN/` and the text after it; none when the line has no ` PLUGIN/`.
pub fn split_request_line(line: &str) -> (r: Option<(String, String)>)
    ensures
        match find_from(line@, " PLUGIN/"@, 0) {
            Some(i) => r matches Some(p) && p.0@ == line@.take(i) && p.1@ == line@.skip(i + 8),
            None => r is None,
        },
{
    proof {
        reveal_strlit(" PLUGIN/");
        lemma_find_from(line@, " PLUGIN/"@, 0);
    }
    let cs = chars_of(line);
    let pat = chars_of(" PLUGIN/");
    match exec_find(cs.as_slice(), pat.as_slice()) {
        Some(i) => {
            assert(oi(Some(i)) == find_from(line@, " PLUGIN/"@, 0));
            let n = cs.len();
            assert(i + 8 <= n);
            let method = string_of(copy_range(cs.as_slice(), 0, i).as_slice());
            let version = string_of(copy_range(cs.as_slice(), i + 8, n).as_slice());
            assert(line@.subrange(0, i as int) =~= line@.take(i as int));
            assert(line@.subrange(i + 8, line@.len() as int) =~= line@.skip(i + 8));
            Some((method, version))
        },
        None => None,
    }
}

/// What the plugin answers a request with: nothing, a script, or a script that is shown
/// without interrupting the ghost's own talk.
pub enum PluginReply {
    NoContent,
    Script(String),
    ScriptNoBreak(String),
}

/// What the plugin has done once per session in its periodic event: asked for an update
/// check, and reported whether its log file could be opened.
pub struct SecondChangeState {
    pub update_checked: bool,
    pub log_init_checked: bool,
}

/// The script that asks the base software to check for a newer version of the plugin.
pub open spec fn update_script() -> Seq<char> {
    "\\C\\![updateother,--plugin="@ + PLUGIN_NAME@ + "]"@
}

/// The notice shown when the log file could not be opened.
pub open spec fn log_failure_notice() -> Seq<char> {
    "ログファイルの初期化に失敗しました"@
}

/// The lines joined with ` / ` between them.
pub open spec fn joined(lines: Seq<Seq<char>>) -> Seq<char>
    decreases lines.len(),
{
    if lines.len() == 0 {
        Seq::empty()
    } else if lines.len() == 1 {
        lines[0]
    } else {
        joined(lines.drop_last()) + " / "@ + lines.last()
    }
}

/// The answer to the periodic event: the first time, ask for an update check and report a
/// log file that could not be opened; show the message `dialog` (if any) and that report in a
/// tray balloon, followed by the update check; else just the update check; else nothing.
pub open spec fn second_change_reply(
    update_checked: bool,
    log_init_checked: bool,
    dialog: Option<Seq<char>>,
    log_init_success: bool,
) -> (Seq<Seq<char>>, Seq<char>) {
    let lines = (match dialog {
        Some(d) => seq![d],
        None => Seq::empty(),
    }) + if !log_init_checked && !log_init_success {
        seq![log_failure_notice()]
    } else {
        Seq::empty()
    };
    let update = if !update_checked {
        update_script()
    } else {
        Seq::empty()
    };
    (lines, update)
}

/// Answers the periodic event, given the oldest pending message for the user (if any) and
/// whether the log file could be opened.
pub fn on_second_change(st: &mut SecondChangeState, dialog: Option<String>, log_init_success: bool) -> (r: PluginReply)
    ensures
        final(st).update_checked,
        final(st).log_init_checked,
        ({
            let (lines, update) = second_change_reply(
                old(st).update_checked,
                old(st).log_init_checked,
                match dialog {
                    Some(d) => Some(d@),
                    None => None,
                },
                log_init_success,
            );
            if lines.len() > 0 {
                r matches PluginReply::ScriptNoBreak(s) && s@ == "\\C\\![set,trayballoon,--text="@ + joined(lines)
                    + ",--title=GhostSpeaker,--icon=info,--timeout=3]"@ + update
            } else if update.len() > 0 {
                r matches PluginReply::Script(s) && s@ == update
            } else {
                r is NoContent
            }
        }),
{
    let ghost gd = match &dialog {
        Some(d) => Some(d@),
        None => None::<Seq<char>>,
    };
    let ghost expected = second_change_reply(st.update_checked, st.log_init_checked, gd, log_init_success);
    let mut text = String::new();
    let mut count: usize = 0;
    match &dialog {
        Some(d) => {
            text.append(d.as_str());
            count = 1;
        },
        None => {},
    }
    let update = if !st.update_checked {
        String::from_str("\\C\\![updateother,--plugin=").concat(PLUGIN_NAME).concat("]")
    } else {
        String::new()
    };
    st.update_checked = true;
    if !st.log_init_checked {
        st.log_init_checked = true;
        if !log_init_success {
            if count > 0 {
                text.append(" / ");
            }
            text.append("ログファイルの初期化に失敗しました");
            count = count + 1;
        }
    }
    assert(count == expected.0.len());
    assert(update@ =~= expected.1);
    proof {
        let lines = expected.0;
        if count == 2 {
            assert(lines.drop_last() =~= seq![lines[0]]);
            assert(joined(lines.drop_last()) == lines[0]);
            assert(lines[0] == gd->0);
            assert(lines.last() == log_failure_notice());
            assert(text@ =~= joined(lines));
        } else if count == 1 {
            if gd is Some {
                assert(lines[0] == gd->0);
            } else {
                assert(lines[0] == log_failure_notice());
            }
            assert(text@ =~= joined(lines));
        }
    }
    if count > 0 {
        let s = String::from_str("\\C\\![set,trayballoon,--text=").concat(text.as_str()).concat(
            ",--title=GhostSpeaker,--icon=info,--timeout=3]",
        ).concat(update.as_str());
        PluginReply::ScriptNoBreak(s)
    } else if !update.as_str().is_empty() {
        PluginReply::Script(update)
    } else {
        PluginReply::NoContent
    }
}

} // verus!
