use ghost_speaker::bouyomichan::BOUYOMICHAN_UUID;
use ghost_speaker::common::{CharacterVoice, Engine, GhostVoiceInfo, Response};
use ghost_speaker::engine::BouyomiChanSpeakerGetter;
use ghost_speaker::engine_map::EngineMap;
use ghost_speaker::format::{
    resplit_pairs_by_raw_ellipsis, scope_to_tag, split_by_punctuation_with_raw, split_dialog,
};
use ghost_speaker::queue::WorkerState;
use ghost_speaker::resources::WorkerResources;
use ghost_speaker::menu::{can_make_menu, is_voice_nameable};
use ghost_speaker::common::{SpeakerInfo, Style};
use ghost_speaker::system::{is_os_level_executable, parent_process_path, ProcessEntry};
use ghost_speaker::variables::{drop_worker_paths, RawGlobalVariables, WORKER_FILE_NAME};
use ghost_speaker::voices::GhostVoices;

fn strings(v: &[&str]) -> Vec<String> {
    v.iter().map(|s| s.to_string()).collect()
}

#[test]
fn scope_tags_read_back() {
    for n in [0usize, 1, 2, 7, 10, 123] {
        let tag = scope_to_tag(n);
        let d = split_dialog(format!("{}あ", tag), false);
        assert_eq!(d.len(), 1);
        assert_eq!(d[0].scope, n);
        assert_eq!(d[0].text, "あ");
    }
    assert_eq!(scope_to_tag(12), "\\p[12]");
}

#[test]
fn untagged_text_pairs_with_itself() {
    let text = "こんにちは。元気？うん……".to_string();
    let pairs = split_by_punctuation_with_raw(text.clone(), text);
    assert!(pairs.len() >= 2);
    for (clean, raw) in &pairs {
        assert_eq!(clean, raw);
    }
}

#[test]
fn plain_pairs_survive_resplitting() {
    let pairs = vec![
        ("あ。".to_string(), "\\0あ。".to_string()),
        ("……".to_string(), "\\_q……\\_q".to_string()),
        ("い".to_string(), "い".to_string()),
    ];
    assert_eq!(resplit_pairs_by_raw_ellipsis(pairs.clone()), pairs);
}

#[test]
fn resplitting_keeps_all_raw_text() {
    let pairs = vec![
        ("あい".to_string(), "あ\\_q……\\_qい".to_string()),
        ("う".to_string(), "\\1う".to_string()),
    ];
    let before: String = pairs.iter().map(|p| p.1.as_str()).collect();
    let after = resplit_pairs_by_raw_ellipsis(pairs);
    assert!(after.len() > 2);
    let joined: String = after.iter().map(|p| p.1.as_str()).collect();
    assert_eq!(joined, before);
}

#[test]
fn system_and_shell_executables() {
    let dir = strings(&["Disk(67):", "\\", "Windows"]);
    assert!(is_os_level_executable(&strings(&["Disk(67):", "\\", "Windows", "System32", "svchost.exe"]), &dir));
    assert!(is_os_level_executable(&strings(&["Disk(68):", "\\", "tools", "explorer.exe"]), &dir));
    assert!(is_os_level_executable(&strings(&["ssp.exe"]), &dir));
    assert!(!is_os_level_executable(&strings(&["Disk(67):", "\\", "vv", "run.exe"]), &dir));
    assert!(!is_os_level_executable(&strings(&["Disk(67):", "\\"]), &dir));
    assert!(!is_os_level_executable(&strings(&[]), &dir));
}

#[test]
fn second_init_refused() {
    let s = WorkerState::new();
    match s.handle_repeated_init() {
        Response::Error { message } => assert_eq!(message, "Already initialized"),
        _ => panic!("a second Init must be refused"),
    }
}

#[test]
fn cancel_and_force_stop() {
    let mut s = WorkerState::new();
    s.sync_ghost_name = Some("g".to_string());
    assert!(s.start_sync_prediction("g".to_string()));
    assert!(matches!(s.handle_sync_cancel(), Response::Done));
    assert!(s.sync_state.is_none());
    assert!(s.sync_ghost_name.is_none());
    assert!(s.force_stop_sink);
    let mut t = WorkerState::new();
    t.sync_ghost_name = Some("g".to_string());
    t.push_to_prediction("a".to_string(), "g".to_string());
    assert!(matches!(t.handle_force_stop_playback(), Response::Done));
    assert!(t.force_stop_sink);
    assert!(t.sync_ghost_name.is_none());
    assert_eq!(t.predict_queue.len(), 1);
}

#[test]
fn segment_sounds() {
    assert!(WorkerState::segment_sound("……", Some(vec![1, 2])).is_empty());
    assert_eq!(WorkerState::segment_sound("あ", Some(vec![1, 2])), vec![1, 2]);
    assert!(WorkerState::segment_sound("あ", None).is_empty());
    let mut s = WorkerState::new();
    assert!(!s.push_synthesized_segment("あ".to_string(), "あ".to_string(), 0, Some(vec![3])));
    assert!(s.start_sync_prediction("g".to_string()));
    assert!(s.push_synthesized_segment("あ".to_string(), "\\0あ".to_string(), 1, Some(vec![3])));
    assert!(s.push_synthesized_segment("・・".to_string(), "・・".to_string(), 0, Some(vec![4])));
    let st = s.sync_state.as_ref().unwrap();
    assert_eq!(st.ready_queue.len(), 2);
    assert_eq!(st.ready_queue[0].wav, vec![3]);
    assert_eq!(st.ready_queue[0].raw_text, "\\0あ");
    assert_eq!(st.ready_queue[0].scope, 1);
    assert!(st.ready_queue[1].wav.is_empty());
}

#[test]
fn http_client_is_built() {
    let mut r = WorkerResources::new();
    r.init_http_client();
    assert!(r.http_client.is_some());
    r.shutdown_http_client();
    assert!(r.http_client.is_none());
}

#[test]
fn bouyomichan_lists_its_eight_voices() {
    let v = BouyomiChanSpeakerGetter.speakers_info(true).unwrap();
    assert_eq!(v.len(), 1);
    assert_eq!(v[0].speaker_uuid, BOUYOMICHAN_UUID);
    let names: Vec<&str> = v[0].styles.iter().map(|s| s.style_name.as_deref().unwrap()).collect();
    assert_eq!(names, vec!["女性1", "女性2", "男性1", "男性2", "中性", "ロボット", "機械1", "機械2"]);
    let ids: Vec<i32> = v[0].styles.iter().map(|s| s.style_id.unwrap()).collect();
    assert_eq!(ids, (1..=8).collect::<Vec<i32>>());
    assert!(BouyomiChanSpeakerGetter.speakers_info(false).is_err());
}

#[test]
fn settings_defaults() {
    let d = RawGlobalVariables::from_loaded(None, "1.0.3");
    assert!(d.last_version.is_none());
    assert_eq!(d.speak_by_punctuation, Some(true));
    assert_eq!(d.initial_voice.speaker_uuid, "dummy");
    assert!(d.ghosts_voices.unwrap().entries.is_empty());
    assert!(!d.engine_path.unwrap().contains_key(Engine::VoiceVox));
}

fn saved(last_version: Option<&str>) -> RawGlobalVariables {
    let mut voices = GhostVoices::new();
    let mut info = GhostVoiceInfo::new(2);
    info.voices[0] = Some(CharacterVoice::no_voice());
    info.voices[1] = Some(CharacterVoice { port: 50021, speaker_uuid: "u".to_string(), style_id: 3 });
    voices.insert("g".to_string(), info);
    let mut paths = EngineMap::new();
    paths.insert(Engine::VoiceVox, "C:\\vv\\run.exe".to_string());
    RawGlobalVariables {
        engine_path: Some(paths),
        engine_auto_start: None,
        speak_by_punctuation: Some(false),
        ghosts_voices: Some(voices),
        initial_voice: CharacterVoice { port: 50021, speaker_uuid: "x".to_string(), style_id: 1 },
        last_version: last_version.map(|s| s.to_string()),
    }
}

#[test]
fn settings_loaded_over_defaults() {
    let r = RawGlobalVariables::from_loaded(Some(saved(Some("1.0.1"))), "1.0.3");
    assert_eq!(r.last_version.as_deref(), Some("1.0.3"));
    assert_eq!(r.speak_by_punctuation, Some(false));
    assert_eq!(r.initial_voice.speaker_uuid, "x");
    assert_eq!(r.engine_path.unwrap().get(Engine::VoiceVox).map(|s| s.as_str()), Some("C:\\vv\\run.exe"));
    assert!(!r.engine_auto_start.unwrap().contains_key(Engine::VoiceVox));
    let g = r.ghosts_voices.unwrap();
    let info = g.get("g").unwrap();
    assert_eq!(info.voices[0].as_ref().map(|v| v.speaker_uuid.as_str()), Some("dummy"));
}

#[test]
fn settings_from_older_versions_drop_silent_voices() {
    for last in [None, Some("0.9.0")] {
        let r = RawGlobalVariables::from_loaded(Some(saved(last)), "1.0.3");
        let g = r.ghosts_voices.unwrap();
        let info = g.get("g").unwrap();
        assert!(info.voices[0].is_none());
        assert_eq!(info.voices[1].as_ref().map(|v| v.style_id), Some(3));
    }
}

#[test]
fn worker_paths_dropped() {
    let mut paths = EngineMap::new();
    paths.insert(Engine::VoiceVox, "C:\\p\\ghost_speaker_worker.exe".to_string());
    paths.insert(Engine::ShareVox, "C:\\sv\\run.exe".to_string());
    let mut names = EngineMap::new();
    names.insert(Engine::VoiceVox, Some(WORKER_FILE_NAME.to_string()));
    names.insert(Engine::ShareVox, Some("run.exe".to_string()));
    drop_worker_paths(&mut paths, &names);
    assert!(!paths.contains_key(Engine::VoiceVox));
    assert_eq!(paths.get(Engine::ShareVox).map(|s| s.as_str()), Some("C:\\sv\\run.exe"));
}

fn entry(pid: usize, parent: Option<usize>, exe: &[&str]) -> ProcessEntry {
    ProcessEntry {
        pid,
        parent,
        exe_components: strings(exe),
        exe_text: Some(exe.join("/")),
    }
}

#[test]
fn parent_walk_stops_below_the_shell() {
    let dir = strings(&["Disk(67):", "\\", "Windows"]);
    let table = vec![
        entry(1, None, &["Disk(67):", "\\", "Windows", "explorer.exe"]),
        entry(10, Some(1), &["vv", "run.exe"]),
        entry(11, Some(10), &["vv", "engine.exe"]),
        entry(20, Some(99), &["orphan.exe"]),
        entry(30, Some(31), &["a.exe"]),
        entry(31, Some(30), &["b.exe"]),
    ];
    assert_eq!(parent_process_path(&table, 11, &dir).as_deref(), Some("vv/run.exe"));
    assert_eq!(parent_process_path(&table, 10, &dir).as_deref(), Some("vv/run.exe"));
    assert_eq!(parent_process_path(&table, 20, &dir).as_deref(), Some("orphan.exe"));
    assert_eq!(parent_process_path(&table, 1, &dir).as_deref(), Some("Disk(67):/\\/Windows/explorer.exe"));
    assert!(parent_process_path(&table, 5, &dir).is_none());
    assert!(parent_process_path(&table, 30, &dir).is_some());
}

fn vv_info() -> EngineMap<Vec<SpeakerInfo>> {
    let mut info = EngineMap::new();
    info.insert(
        Engine::VoiceVox,
        vec![SpeakerInfo {
            speaker_name: "A".to_string(),
            speaker_uuid: "u1".to_string(),
            styles: vec![Style { style_name: Some("n".to_string()), style_id: Some(3) }, Style { style_name: None, style_id: Some(4) }],
        }],
    );
    info
}

#[test]
fn menu_can_be_made() {
    let info = vv_info();
    let good = CharacterVoice { port: 50021, speaker_uuid: "u1".to_string(), style_id: 3 };
    let unnamed = CharacterVoice { port: 50021, speaker_uuid: "u1".to_string(), style_id: 4 };
    let no_engine = CharacterVoice { port: 1, speaker_uuid: "u1".to_string(), style_id: 3 };
    assert!(is_voice_nameable(&None, &info));
    assert!(is_voice_nameable(&Some(good.clone()), &info));
    assert!(is_voice_nameable(&Some(CharacterVoice::no_voice()), &info));
    assert!(!is_voice_nameable(&Some(unnamed.clone()), &info));
    assert!(!is_voice_nameable(&Some(no_engine), &info));
    let mut voices = GhostVoices::new();
    let mut g = GhostVoiceInfo::new(2);
    g.voices[0] = Some(good.clone());
    voices.insert("g".to_string(), g);
    assert!(can_make_menu("g", &voices, &info, &CharacterVoice::no_voice()));
    assert!(!can_make_menu("h", &voices, &info, &CharacterVoice::no_voice()));
    assert!(!can_make_menu("g", &voices, &info, &unnamed));
    let mut bad = GhostVoiceInfo::new(2);
    bad.voices[1] = Some(unnamed);
    voices.insert("g".to_string(), bad);
    assert!(!can_make_menu("g", &voices, &info, &good));
}

fn talking_state() -> WorkerState {
    let mut s = WorkerState::new();
    s.connection_status.insert(Engine::VoiceVox, true);
    let mut info = GhostVoiceInfo::new(2);
    info.voices[0] = Some(CharacterVoice { port: 50021, speaker_uuid: "u1".to_string(), style_id: 3 });
    info.voices[1] = Some(CharacterVoice { port: 50021, speaker_uuid: "u2".to_string(), style_id: 5 });
    s.ghosts_voices.insert("g".to_string(), info);
    s
}

#[test]
fn each_line_gives_its_own_block() {
    let s = talking_state();
    let segs = s.build_segments("\\0あ。い。\\1う。".to_string(), "g".to_string(), false).unwrap();
    let got: Vec<(&str, usize)> = segs.iter().map(|x| (x.text.as_str(), x.scope)).collect();
    assert_eq!(got, vec![("あ。", 0), ("い。", 0), ("う。", 1)]);
    let mut whole = talking_state();
    whole.speak_by_punctuation = false;
    let segs = whole.build_segments("\\0あ。い。\\1う。".to_string(), "g".to_string(), false).unwrap();
    let got: Vec<(&str, usize)> = segs.iter().map(|x| (x.text.as_str(), x.scope)).collect();
    assert_eq!(got, vec![("あ。い。", 0), ("う。", 1)]);
}

#[test]
fn methods_touch_only_their_fields() {
    let mut s = WorkerState::new();
    s.connection_dialogs.push("m".to_string());
    let before = s.speak_by_punctuation;
    assert_eq!(s.pop_dialog().as_deref(), Some("m"));
    assert_eq!(s.speak_by_punctuation, before);
    assert!(!s.stop_tasks);
    for _ in 0..12 {
        s.record_speakers_failure(Engine::VoiceVox);
    }
    assert!(!s.stop_tasks);
    assert!(!s.shutting_down);
    assert_eq!(s.failure_count(Engine::VoiceVox), 12);
}
