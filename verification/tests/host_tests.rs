use ghost_speaker::common::{CharacterVoice, Engine, GhostVoiceInfo};
use ghost_speaker::engine::PredictorPlan;
use ghost_speaker::format::split_by_punctuation_with_raw;
use ghost_speaker::menu::get_voice_from_ghost;
use ghost_speaker::engine_map::EngineMap;
use ghost_speaker::plugin::{
    get_event, on_second_change, route_request, split_request_line, PluginEvent, PluginReply,
    SecondChangeState,
};
use ghost_speaker::queue::WorkerState;
use ghost_speaker::resources::WorkerResources;
use ghost_speaker::voices::GhostVoices;

#[test]
fn events_by_id() {
    assert!(matches!(get_event("version"), Some(PluginEvent::Version)));
    assert!(matches!(get_event("OnMenuExec"), Some(PluginEvent::OnMenuExec)));
    assert!(matches!(get_event("OnSyncSpeechContinue"), Some(PluginEvent::OnSyncSpeechContinue)));
    assert!(get_event("OnUnknown").is_none());
    assert!(matches!(
        route_request(false, true, Some("OnUnknown"), Some("OnGhostBoot")),
        Some(PluginEvent::OnGhostBoot)
    ));
    assert!(route_request(true, true, Some("version"), None).is_none());
    assert!(route_request(false, false, Some("version"), None).is_none());
    assert!(route_request(false, true, None, Some("version")).is_none());
}

#[test]
fn request_line_split() {
    assert_eq!(
        split_request_line("GET PLUGIN/2.0"),
        Some(("GET".to_string(), "2.0".to_string()))
    );
    assert_eq!(split_request_line("GET SHIORI/3.0"), None);
}

#[test]
fn periodic_event() {
    let mut st = SecondChangeState { update_checked: false, log_init_checked: false };
    match on_second_change(&mut st, None, true) {
        PluginReply::Script(s) => assert_eq!(s, "\\C\\![updateother,--plugin=GhostSpeaker]"),
        _ => panic!("unexpected reply"),
    }
    assert!(matches!(on_second_change(&mut st, None, false), PluginReply::NoContent));
    match on_second_change(&mut st, Some("VOICEVOX が接続されました".to_string()), true) {
        PluginReply::ScriptNoBreak(s) => assert_eq!(
            s,
            "\\C\\![set,trayballoon,--text=VOICEVOX が接続されました,--title=GhostSpeaker,--icon=info,--timeout=3]"
        ),
        _ => panic!("unexpected reply"),
    }
    let mut fresh = SecondChangeState { update_checked: true, log_init_checked: false };
    match on_second_change(&mut fresh, Some("a".to_string()), false) {
        PluginReply::ScriptNoBreak(s) => assert_eq!(
            s,
            "\\C\\![set,trayballoon,--text=a / ログファイルの初期化に失敗しました,--title=GhostSpeaker,--icon=info,--timeout=3]"
        ),
        _ => panic!("unexpected reply"),
    }
}

#[test]
fn saved_no_voice_becomes_unset() {
    let mut voices = GhostVoices::new();
    let mut info = GhostVoiceInfo::new(2);
    info.voices[0] = Some(CharacterVoice::no_voice());
    info.voices[1] = Some(CharacterVoice { port: 50021, speaker_uuid: "u".to_string(), style_id: 1 });
    voices.insert("g".to_string(), info);
    voices.update();
    let g = voices.get("g").unwrap();
    assert!(g.voices[0].is_none());
    assert_eq!(g.voices[1].as_ref().unwrap().speaker_uuid, "u");
}

#[test]
fn ghost_voice_label_without_slot() {
    let voices = GhostVoices::new();
    assert_eq!(get_voice_from_ghost(&voices, "g", 0, &EngineMap::new()), "未設定");
}

#[test]
fn resources_released() {
    let mut r = WorkerResources::new();
    r.http_client = Some(reqwest::Client::new());
    r.shutdown_http_client();
    assert!(r.http_client.is_none());
    r.cleanup_system_cache();
    assert!(r.process_snapshot.is_none());
}

#[test]
fn stop_request_taken_once() {
    let mut s = WorkerState::new();
    assert!(!s.should_stop_sound());
    s.force_stop_sink = true;
    assert!(s.should_stop_sound());
    assert!(!s.should_stop_sound());
    s.stop_queues();
    assert!(s.should_stop_sound());
    assert!(s.should_stop_sound());
}

#[test]
fn queues_cleared_after_stop() {
    let mut s = WorkerState::new();
    s.push_to_prediction("a".to_string(), "g".to_string());
    s.push_to_play(vec![1]);
    s.connection_dialogs.push("x".to_string());
    s.stop_queues();
    assert!(s.predict_queue.is_empty());
    assert!(s.play_queue.is_empty());
    assert!(s.connection_dialogs.is_empty());
    s.clear_queues();
    assert!(s.predict_queue.is_empty());
    assert!(s.play_queue.is_empty());
}

#[test]
fn spoken_plans_carry_their_character() {
    let mut s = WorkerState::new();
    s.connection_status.insert(Engine::VoiceVox, true);
    let mut info = GhostVoiceInfo::new(2);
    info.voices[1] = Some(CharacterVoice { port: 50021, speaker_uuid: "u".to_string(), style_id: 4 });
    s.ghosts_voices.insert("g".to_string(), info);
    let plans = s.prediction_plans("\\1あ……い".to_string(), "g".to_string()).unwrap();
    assert_eq!(plans.len(), 2);
    assert_eq!(plans[0].0, 1);
    assert!(matches!(&plans[0].1, PredictorPlan::VoicevoxFamily { speaker: 4, .. }));
}

#[test]
fn resplit_raw_pieces_join_back() {
    let raw = "あ\\_q……\\_qい";
    let pairs = ghost_speaker::format::resplit_pairs_by_raw_ellipsis(vec![("あい".to_string(), raw.to_string())]);
    let joined: String = pairs.iter().map(|p| p.1.clone()).collect();
    assert_eq!(joined, raw);
    let plain = split_by_punctuation_with_raw("あい".to_string(), raw.to_string());
    assert_eq!(plain.len(), 1);
}

#[test]
fn default_settings() {
    let g = GhostVoiceInfo::default();
    assert_eq!(g.voices.len(), 10);
    assert!(g.voices.iter().all(|v| v.is_none()));
    assert!(!g.devide_by_lines && !g.sync_speech_to_balloon);
    let c = CharacterVoice::default();
    assert_eq!((c.port, c.speaker_uuid.as_str(), c.style_id), (50021, "dummy", -1));
}
