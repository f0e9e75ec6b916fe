use ghost_speaker::bouyomichan::{bouyomichan_speakers, make_header, BOUYOMICHAN_UUID};
use ghost_speaker::coeiroink_v2;
use ghost_speaker::common::{
    engine_from_port, engine_list, CharacterVoice, Engine, GhostVoiceInfo, Response, SegmentInfo,
    SpeakerInfo, Style, SyncState,
};
use ghost_speaker::descript::{count_characters, descript_from_bytes, parse_descript};
use ghost_speaker::engine::{get_speaker_getters, BouyomiChanSpeakerGetter, SpeakerGetterKind};
use ghost_speaker::engine_map::EngineMap;
use ghost_speaker::menu::{
    chara_info, colored, decorated, default_voice_selecting_script, escape_backslashes, get_voice,
    grayed, greened, list_available_voices, menu_script, reded, reopen_menu_script,
    resize_characters, set_character_voice, toggle_auto_start, toggle_division,
    voice_selecting_script, CharacterResizeMode, VoiceListTarget,
};
use ghost_speaker::plugin::{
    register_ghost, sync_continue_script, sync_enabled, sync_started_script, talk_action,
    TalkAction, PLUGIN_UUID,
};
use ghost_speaker::system::{listening_pids, netstat_command};
use ghost_speaker::text::{parse_i32, parse_usize};
use ghost_speaker::variables::needs_update;
use ghost_speaker::voicevox_family;
use ghost_speaker::voices::GhostVoices;

fn style(name: &str, id: i32) -> Style {
    Style { style_name: Some(name.to_string()), style_id: Some(id) }
}

fn speakers() -> EngineMap<Vec<SpeakerInfo>> {
    let mut m = EngineMap::new();
    m.insert(
        Engine::VoiceVox,
        vec![SpeakerInfo {
            speaker_name: "四国めたん".to_string(),
            speaker_uuid: "u1".to_string(),
            styles: vec![style("ノーマル", 2), style("あまあま", 0)],
        }],
    );
    m
}

#[test]
fn engines_and_ports() {
    assert_eq!(Engine::VoiceVox.port(), 50021);
    assert_eq!(Engine::BouyomiChan.name(), "棒読みちゃん");
    assert_eq!(engine_from_port(50001), Some(Engine::BouyomiChan));
    assert_eq!(engine_from_port(1), None);
    assert_eq!(engine_list().len(), 8);
    for e in engine_list() {
        assert_eq!(engine_from_port(e.port()), Some(e));
    }
}

#[test]
fn speaker_getters_per_engine() {
    let g = get_speaker_getters();
    assert_eq!(g.len(), 8);
    assert!(matches!(g[0], (Engine::CoeiroInkV2, SpeakerGetterKind::CoeiroinkV2(_))));
    assert!(matches!(g[7], (Engine::BouyomiChan, SpeakerGetterKind::BouyomiChan(_))));
    match &g[2] {
        (Engine::VoiceVox, SpeakerGetterKind::VoicevoxFamily(v)) => assert_eq!(v.engine, Engine::VoiceVox),
        _ => panic!("unexpected getter"),
    }
}

#[test]
fn coloured_and_decorated_text() {
    assert_eq!(colored("a", 1, 2, 3), "\\f[color,1,2,3]a\\f[color,default]");
    assert_eq!(reded("x"), "\\f[color,128,0,0]x\\f[color,default]");
    assert_eq!(greened("x"), "\\f[color,0,128,0]x\\f[color,default]");
    assert_eq!(grayed("x"), "\\f[color,128,128,128]x\\f[color,default]");
    assert_eq!(decorated("x", "bold"), "\\f[bold,1]x\\f[bold,0]");
}

#[test]
fn menu_reopens_itself() {
    assert_eq!(
        reopen_menu_script("g", "p"),
        format!("\\![raiseplugin,{},OnMenuExec,dummy,g,dummy,dummy,p]", PLUGIN_UUID)
    );
    assert_eq!(escape_backslashes("C:\\a\\b"), "C:\\\\a\\\\b");
}

#[test]
fn resize_mode_numbers() {
    assert!(matches!(CharacterResizeMode::from_usize(0), CharacterResizeMode::Expand));
    assert!(matches!(CharacterResizeMode::from_usize(1), CharacterResizeMode::Shrink));
}

#[test]
fn voice_labels() {
    let info = speakers();
    assert_eq!(get_voice(&None, &info), "未設定");
    assert_eq!(get_voice(&Some(CharacterVoice::no_voice()), &info), "無し");
    let v = CharacterVoice { port: 50021, speaker_uuid: "u1".to_string(), style_id: 0 };
    assert_eq!(get_voice(&Some(v), &info), "四国めたん - あまあま");
    let unknown = CharacterVoice { port: 50021, speaker_uuid: "zz".to_string(), style_id: 0 };
    assert_eq!(get_voice(&Some(unknown), &info), "【不明】");
    let stopped = CharacterVoice { port: 50032, speaker_uuid: "a".to_string(), style_id: 0 };
    assert_eq!(
        get_voice(&Some(stopped), &info),
        "\\f[color,128,128,128]【使用不可: COEIROINKv2の起動が必要】\\f[color,default]"
    );
}

#[test]
fn character_entry() {
    let mut voices = GhostVoices::new();
    voices.insert("g".to_string(), GhostVoiceInfo::new(3));
    let chars = vec!["さくら".to_string()];
    let info = speakers();
    assert_eq!(
        chara_info(&chars, "g", 0, "p", &voices, &info),
        "\\\\0 さくら:\\n    \\__q[OnVoiceSelecting,g,さくら,0,p]\\f[bold,1]未設定\\f[bold,0]\\__q\\n"
    );
    assert_eq!(
        chara_info(&chars, "g", 2, "p", &voices, &info),
        "\\\\p[2]\\n    \\__q[OnVoiceSelecting,g,,2,p]\\f[bold,1]未設定\\f[bold,0]\\__q\\n"
    );
}

#[test]
fn voice_list_items() {
    let info = speakers();
    let t = VoiceListTarget::Character { ghost_name: "g".to_string(), index: 1, path: "p".to_string() };
    let list = list_available_voices(&t, &info);
    assert_eq!(
        list,
        "\\b[2]\\![*]\\q[無し,OnVoiceSelected,g,1,50021,dummy,-1,p]\\n\
         \\![*]\\q[四国めたん | ノーマル,OnVoiceSelected,g,1,50021,u1,2,p]\\n\
         \\![*]\\q[四国めたん | あまあま,OnVoiceSelected,g,1,50021,u1,0,p]\\n"
    );
    let d = default_voice_selecting_script("g", "p", &info);
    assert!(d.starts_with("\\_qデフォルトボイスの設定\\n\\b[2]\\![*]\\q[無し,OnDefaultVoiceSelected,50021,dummy,-1,g,p]\\n"));
    assert!(d.ends_with("\\n\\q[×,]"));
    let s = voice_selecting_script("g", "さくら", 1, "p", &info);
    assert!(s.starts_with("\\C\\c\\b[2]\\_qg\\nさくら\\n\\b[2]"));
}

#[test]
fn whole_menu() {
    let mut voices = GhostVoices::new();
    voices.insert("g".to_string(), GhostVoiceInfo::new(1));
    let info = EngineMap::new();
    let auto = EngineMap::new();
    let m = menu_script(
        "g",
        "p",
        &vec!["さくら".to_string()],
        "1.2.3",
        "[volume]",
        &voices,
        &info,
        &auto,
        true,
        &CharacterVoice::no_voice(),
    );
    assert!(m.starts_with("\\b[2]\\_q\\f[align,center]\\f[size,12]GhostSpeaker v1.2.3\\f[size,default]\\n\\n[half]\\f[align,left]COEIROINKv2: "));
    assert!(m.contains("\\![*]音量調整(共通)\\n    [volume]\\![*]句読点ごとに読み上げ(共通)\\n    【現在 \\__q[OnPunctuationSettingChanged,g,p]\\f[bold,1]\\f[color,0,128,0]有効\\f[color,default]\\f[bold,0]\\__q】\\n"));
    assert!(m.contains("【\\__q[OnCharacterResized,g,p,0]\\f[bold,1]+\\f[bold,0]\\__q】\\n"));
    assert!(!m.contains("OnCharacterResized,g,p,1"));
    assert!(m.contains("\\![*]デフォルト声質(共通)\\n    【現在 \\__q[OnDefaultVoiceSelecting,g,p]無し\\__q】\\n"));
    assert!(m.ends_with("\\n\\q[×,]"));
    assert!(m.contains("棒読みちゃん: \\f[color,128,128,128]停止中\\f[color,default]\\_l[@0,]\\f[align,right]自動起動: \\f[color,128,128,128]設定未完了\\f[color,default]\\n\\n"));
}

#[test]
fn menu_settings_change() {
    let mut voices = GhostVoices::new();
    voices.insert("g".to_string(), GhostVoiceInfo::new(2));
    let v = CharacterVoice { port: 50021, speaker_uuid: "u1".to_string(), style_id: 2 };
    set_character_voice(&mut voices, "g", 1, v.clone());
    assert_eq!(voices.get("g").unwrap().voices[1].as_ref().unwrap().speaker_uuid, "u1");
    toggle_division(&mut voices, "g");
    assert!(voices.get("g").unwrap().devide_by_lines);
    resize_characters(&mut voices, "g", CharacterResizeMode::Expand, 1);
    assert_eq!(voices.get("g").unwrap().voices.len(), 3);
    resize_characters(&mut voices, "g", CharacterResizeMode::Shrink, 2);
    assert_eq!(voices.get("g").unwrap().voices.len(), 2);
    resize_characters(&mut voices, "g", CharacterResizeMode::Shrink, 2);
    assert_eq!(voices.get("g").unwrap().voices.len(), 2);
    let mut auto = EngineMap::new();
    toggle_auto_start(&mut auto, 50021);
    assert!(!auto.contains_key(Engine::VoiceVox));
    auto.insert(Engine::VoiceVox, false);
    toggle_auto_start(&mut auto, 50021);
    assert_eq!(auto.get(Engine::VoiceVox), Some(&true));
}

#[test]
fn numbers_read_back() {
    assert_eq!(parse_i32("-12"), Some(-12));
    assert_eq!(parse_i32("+5"), Some(5));
    assert_eq!(parse_i32("2147483647"), Some(i32::MAX));
    assert_eq!(parse_i32("-2147483648"), Some(i32::MIN));
    assert_eq!(parse_i32("2147483648"), None);
    assert_eq!(parse_i32(""), None);
    assert_eq!(parse_i32("-"), None);
    assert_eq!(parse_i32("1a"), None);
    assert_eq!(parse_usize("007"), Some(7));
    assert_eq!(parse_usize("-0"), None);
    assert_eq!(parse_usize("+3"), Some(3));
    for n in [-3i32, 0, 50021] {
        assert_eq!(parse_i32(&n.to_string()), Some(n));
    }
}

#[test]
fn descript_entries_and_characters() {
    let text = "charset,UTF-8\r\nsakura.name,さくら\nkero.name,うにゅう\nchar2.name,三人目\nfoo\na,b,c\nchar4.name,四人目";
    let e = parse_descript(text);
    assert_eq!(
        e,
        vec![
            ("charset".to_string(), "UTF-8".to_string()),
            ("sakura.name".to_string(), "さくら".to_string()),
            ("kero.name".to_string(), "うにゅう".to_string()),
            ("char2.name".to_string(), "三人目".to_string()),
            ("char4.name".to_string(), "四人目".to_string()),
        ]
    );
    assert_eq!(count_characters(&e), vec!["さくら", "うにゅう", "三人目"]);
    let later = parse_descript("sakura.name,a\nsakura.name,b");
    assert_eq!(count_characters(&later), vec!["b"]);
    assert_eq!(parse_descript("k,v\r").len(), 1);
    assert_eq!(parse_descript("k,v\r")[0].1, "v\r");
}

#[test]
fn descript_decoding() {
    let e = descript_from_bytes(b"sakura.name,A\r\n");
    assert_eq!(e, vec![("sakura.name".to_string(), "A".to_string())]);
    let sjis = [0x82u8, 0xa0, b',', b'x'];
    assert_eq!(descript_from_bytes(&sjis), vec![("あ".to_string(), "x".to_string())]);
    let utf8 = "charset,UTF-8\nsakura.name,あ".as_bytes();
    assert_eq!(descript_from_bytes(utf8)[1].1, "あ");
}

#[test]
fn talk_actions() {
    assert!(matches!(talk_action("", "", true), TalkAction::Ignore));
    assert!(matches!(talk_action("hi", "x,plugin-script", true), TalkAction::Ignore));
    assert!(matches!(talk_action("hi", "", true), TalkAction::SyncStart));
    assert!(matches!(talk_action("hi", "", false), TalkAction::SpeakAsync));
    let mut voices = GhostVoices::new();
    assert!(!sync_enabled(&voices, "g"));
    let mut info = GhostVoiceInfo::new(1);
    info.sync_speech_to_balloon = true;
    voices.insert("g".to_string(), info);
    assert!(sync_enabled(&voices, "g"));
}

#[test]
fn paced_scripts() {
    let seg = SegmentInfo { text: "やあ".to_string(), raw_text: "やあ\\w9".to_string(), scope: 1, is_ellipsis: false };
    let r = Response::SyncStarted { first_segment: Some(seg.clone()), has_more: true };
    assert_eq!(
        sync_started_script(&r, "g").unwrap(),
        format!("\\1やあ\\w9\\![raiseplugin,{},OnSyncSpeechContinue,g]", PLUGIN_UUID)
    );
    let last = Response::SyncStarted { first_segment: Some(seg.clone()), has_more: false };
    assert_eq!(sync_started_script(&last, "g").unwrap(), "\\1やあ\\w9");
    assert!(sync_started_script(&Response::SyncStarted { first_segment: None, has_more: false }, "g").is_none());
    let waiting = Response::SyncStatus { state: SyncState::Waiting };
    assert_eq!(
        sync_continue_script(&waiting, "g").unwrap(),
        format!("\\C\\_w[200]\\![raiseplugin,{},OnSyncSpeechContinue,g]", PLUGIN_UUID)
    );
    let ready = Response::SyncStatus { state: SyncState::Ready { segment: seg, has_more: false } };
    assert_eq!(sync_continue_script(&ready, "g").unwrap(), "\\C\\1やあ\\w9");
    assert!(sync_continue_script(&Response::SyncStatus { state: SyncState::Complete }, "g").is_none());
    assert!(sync_continue_script(&Response::Done, "g").is_none());
}

#[test]
fn ghost_registered_once() {
    let mut voices = GhostVoices::new();
    register_ghost(&mut voices, "g".to_string(), 3);
    assert_eq!(voices.get("g").unwrap().voices.len(), 3);
    let mut info = GhostVoiceInfo::new(1);
    info.devide_by_lines = true;
    voices.insert("g".to_string(), info);
    register_ghost(&mut voices, "g".to_string(), 5);
    assert_eq!(voices.get("g").unwrap().voices.len(), 1);
    assert_eq!(voices.entries.len(), 1);
}

#[test]
fn bouyomichan_voices_and_header() {
    let s = bouyomichan_speakers();
    assert_eq!(s.len(), 1);
    assert_eq!(s[0].speaker_uuid, BOUYOMICHAN_UUID);
    assert_eq!(s[0].speaker_name, "棒読みちゃん");
    assert_eq!(s[0].styles.len(), 8);
    assert_eq!(s[0].styles[5].style_name.as_deref(), Some("ロボット"));
    assert_eq!(s[0].styles[5].style_id, Some(6));
    assert!(BouyomiChanSpeakerGetter.speakers_info(false).is_err());
    let h = make_header(1, 50, 3);
    let mut expected = vec![1u8, 0, 255, 255, 255, 255, 50, 0, 1, 0, 0, 0];
    expected.extend_from_slice(&3usize.to_le_bytes());
    assert_eq!(h, expected);
}

#[test]
fn speaker_responses_converted() {
    let r = coeiroink_v2::SpeakerResponse {
        speaker_name: "n".to_string(),
        speaker_uuid: "u".to_string(),
        styles: vec![coeiroink_v2::StyleResponse {
            style_name: Some("s".to_string()),
            style_id: Some(3),
            _base64_icon: None,
            _base64_portrait: None,
        }],
        _version: "1".to_string(),
        _base64_portrait: String::new(),
    };
    let i = r.to_speaker_info();
    assert_eq!(i.speaker_name, "n");
    assert_eq!(i.styles[0].style_id, Some(3));
    let v = voicevox_family::SpeakerResponse {
        _supported_features: None,
        name: "m".to_string(),
        speaker_uuid: "w".to_string(),
        styles: vec![voicevox_family::StyleResponse { name: None, id: Some(8) }],
        _version: "0".to_string(),
    };
    let all = voicevox_family::speakers_from_responses(&vec![v]);
    assert_eq!(all[0].speaker_name, "m");
    assert_eq!(all[0].styles[0].style_name, None);
    assert_eq!(all[0].styles[0].style_id, Some(8));
}

#[test]
fn netstat_output() {
    let out = "  TCP    127.0.0.1:50021    0.0.0.0:0    LISTENING    1234\r\n  TCP    [::]:50021    [::]:0    LISTENING    5678   \n\nbad line x\n";
    assert_eq!(listening_pids(out), vec![1234, 5678]);
    assert_eq!(netstat_command("50021"), "netstat -ano | findstr LISTENING | findstr 50021");
}

#[test]
fn settings_update_needed() {
    assert!(needs_update("1.0.3", &None));
    assert!(!needs_update("1.0.3", &Some("1.0.1".to_string())));
    assert!(needs_update("1.0.0", &Some("0.9.0".to_string())));
    assert!(!needs_update("1.1.0", &Some("0.9.0".to_string())));
}
