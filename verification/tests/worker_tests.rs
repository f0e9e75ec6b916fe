use ghost_speaker::common::{CharacterVoice, Engine, GhostVoiceInfo, Response, SyncState};
use ghost_speaker::engine::PredictorPlan;
use ghost_speaker::queue::{QueueStep, SyncReadySegment, SyncStartPlan, WorkerState};

fn voice(port: i32, uuid: &str, style_id: i32) -> CharacterVoice {
    CharacterVoice { port, speaker_uuid: uuid.to_string(), style_id }
}

fn ready_state() -> WorkerState {
    let mut s = WorkerState::new();
    s.connection_status.insert(Engine::VoiceVox, true);
    let mut info = GhostVoiceInfo::new(2);
    info.voices[0] = Some(voice(50021, "u1", 3));
    s.ghosts_voices.insert("g".to_string(), info);
    s
}

fn ready(text: &str) -> SyncReadySegment {
    SyncReadySegment { text: text.to_string(), raw_text: text.to_string(), scope: 0, wav: vec![1, 2] }
}

#[test]
fn prediction_queue_is_first_in_first_out() {
    let mut s = WorkerState::new();
    s.push_to_prediction("a".to_string(), "g".to_string());
    s.push_to_prediction("b".to_string(), "g".to_string());
    assert!(matches!(s.next_prediction(), QueueStep::Item((t, _)) if t == "a"));
    assert!(matches!(s.next_prediction(), QueueStep::Item((t, _)) if t == "b"));
    assert!(matches!(s.next_prediction(), QueueStep::Wait));
    s.stop_queues();
    assert!(matches!(s.next_prediction(), QueueStep::Stop));
}

#[test]
fn nothing_queued_while_stopping() {
    let mut s = WorkerState::new();
    s.stop_queues();
    s.push_to_prediction("a".to_string(), "g".to_string());
    assert!(s.predict_queue.is_empty());
    s.init_queues();
    s.push_to_prediction("a".to_string(), "g".to_string());
    assert_eq!(s.predict_queue.len(), 1);
}

#[test]
fn play_queue_skips_empty_sounds() {
    let mut s = WorkerState::new();
    s.push_to_play(vec![]);
    s.push_to_play(vec![7]);
    assert!(matches!(s.next_play(), QueueStep::Skip));
    assert!(matches!(s.next_play(), QueueStep::Item(w) if w == vec![7u8]));
    assert!(matches!(s.next_play(), QueueStep::Wait));
}

#[test]
fn segments_need_a_connected_engine_and_known_ghost() {
    let mut s = ready_state();
    assert!(s.build_segments("こんにちは".to_string(), "other".to_string(), false).is_none());
    assert!(s.build_segments("こんにちは".to_string(), "g".to_string(), false).is_some());
    s.connection_status.insert(Engine::VoiceVox, false);
    assert!(s.build_segments("こんにちは".to_string(), "g".to_string(), false).is_none());
}

#[test]
fn segments_split_at_punctuation_with_voice() {
    let s = ready_state();
    let segs = s.build_segments("こんにちは。元気？".to_string(), "g".to_string(), false).unwrap();
    assert_eq!(segs.len(), 2);
    assert_eq!(segs[0].text, "こんにちは。");
    assert_eq!(segs[1].text, "元気？");
    match &segs[0].predictor {
        PredictorPlan::VoicevoxFamily { engine, text, speaker, from_ghost } => {
            assert_eq!(*engine, Engine::VoiceVox);
            assert_eq!(text, "こんにちは。");
            assert_eq!(*speaker, 3);
            assert!(*from_ghost);
        }
        _ => panic!("unexpected plan"),
    }
}

#[test]
fn segments_whole_line_without_punctuation_setting() {
    let mut s = ready_state();
    s.speak_by_punctuation = false;
    let segs = s.build_segments("こんにちは。元気？".to_string(), "g".to_string(), false).unwrap();
    assert_eq!(segs.len(), 1);
    assert_eq!(segs[0].text, "こんにちは。元気？");
}

#[test]
fn unset_character_uses_default_voice_and_no_voice_is_silent() {
    let mut s = ready_state();
    let segs = s.build_segments("\\1やあ".to_string(), "g".to_string(), false).unwrap();
    assert!(segs.is_empty());
    s.initial_voice = voice(50032, "v2", 7);
    s.connection_status.insert(Engine::CoeiroInkV2, true);
    let segs = s.build_segments("\\1やあ".to_string(), "g".to_string(), false).unwrap();
    assert_eq!(segs.len(), 1);
    assert_eq!(segs[0].scope, 1);
    match &segs[0].predictor {
        PredictorPlan::CoeiroinkV2(p) => {
            assert_eq!(p.text, "やあ");
            assert_eq!(p.speaker_uuid, "v2");
            assert_eq!(p.style_id, 7);
        }
        _ => panic!("unexpected plan"),
    }
}

#[test]
fn ellipsis_segment_gets_no_request() {
    let s = ready_state();
    let segs = s.build_segments("……".to_string(), "g".to_string(), false).unwrap();
    assert_eq!(segs.len(), 1);
    assert!(matches!(segs[0].predictor, PredictorPlan::NoOp(_)));
    let plans = s.prediction_plans("……".to_string(), "g".to_string()).unwrap();
    assert!(plans.is_empty());
}

#[test]
fn bouyomichan_speaks_whole_lines() {
    let mut s = ready_state();
    s.connection_status.insert(Engine::BouyomiChan, true);
    let mut info = GhostVoiceInfo::new(1);
    info.voices[0] = Some(voice(50001, "bouyomichan", 2));
    s.ghosts_voices.insert("b".to_string(), info);
    let segs = s.build_segments("あ。い。".to_string(), "b".to_string(), true).unwrap();
    assert_eq!(segs.len(), 1);
    assert!(matches!(&segs[0].predictor, PredictorPlan::Bouyomichan { style_id: 2, .. }));
}

#[test]
fn unknown_speaker_of_running_engine_is_skipped() {
    let mut s = ready_state();
    s.speakers_info.insert(Engine::VoiceVox, vec![]);
    let segs = s.build_segments("こんにちは".to_string(), "g".to_string(), false).unwrap();
    assert!(segs.is_empty());
}

#[test]
fn sync_start_falls_back_for_one_segment() {
    let mut s = ready_state();
    let (resp, plan) = s.handle_sync_start("こんにちは".to_string(), "g".to_string());
    assert!(matches!(resp, Response::SyncStarted { first_segment: None, has_more: false }));
    assert!(matches!(plan, SyncStartPlan::Fallback));
    assert_eq!(s.predict_queue.len(), 1);
    assert!(!s.force_stop_sink);
}

#[test]
fn paced_talk_is_shown_segment_by_segment() {
    let mut s = ready_state();
    let (resp, plan) = s.handle_sync_start("一。二。三。".to_string(), "g".to_string());
    match resp {
        Response::SyncStarted { first_segment: Some(seg), has_more } => {
            assert_eq!(seg.text, "一。");
            assert!(has_more);
        }
        _ => panic!("unexpected reply"),
    }
    match plan {
        SyncStartPlan::Paced { first, speak_first, remaining } => {
            assert_eq!(first.text, "一。");
            assert!(speak_first);
            assert_eq!(remaining.len(), 2);
        }
        _ => panic!("unexpected plan"),
    }
    let g = s.begin_sync_audio().unwrap();
    assert!(matches!(s.handle_sync_poll().0, Response::SyncStatus { state: SyncState::Playing }));
    s.finish_sync_audio(g);
    assert!(matches!(s.handle_sync_poll().0, Response::SyncStatus { state: SyncState::Waiting }));
    assert!(s.push_ready_segment(ready("二。")));
    let (r, wav) = s.handle_sync_poll();
    assert!(matches!(r, Response::SyncStatus { state: SyncState::Ready { has_more: true, .. } }));
    assert_eq!(wav, Some(vec![1, 2]));
    assert!(s.push_ready_segment(ready("三。")));
    s.mark_all_predicted();
    let (r, _) = s.handle_sync_poll();
    assert!(matches!(r, Response::SyncStatus { state: SyncState::Ready { has_more: false, .. } }));
    assert!(s.sync_state.is_none());
    assert!(matches!(s.handle_sync_poll().0, Response::SyncStatus { state: SyncState::Complete }));
    assert!(s.sync_ghost_name.is_none());
}

#[test]
fn cancelled_talk_completes() {
    let mut s = ready_state();
    let _ = s.handle_sync_start("一。二。".to_string(), "g".to_string());
    s.cancel_sync_playback();
    assert!(s.force_stop_sink);
    assert!(!s.push_ready_segment(ready("二。")));
    assert!(matches!(s.handle_sync_poll().0, Response::SyncStatus { state: SyncState::Complete }));
}

#[test]
fn silent_ready_segment_plays_nothing() {
    let mut s = ready_state();
    let _ = s.handle_sync_start("一。二。".to_string(), "g".to_string());
    assert!(s.push_ready_segment(ready("……")));
    let (r, wav) = s.handle_sync_poll();
    match r {
        Response::SyncStatus { state: SyncState::Ready { segment, .. } } => assert!(segment.is_ellipsis),
        _ => panic!("unexpected reply"),
    }
    assert!(wav.is_none());
}

#[test]
fn pool_of_another_ghost_gives_nothing() {
    let mut s = WorkerState::new();
    assert!(s.start_sync_prediction("a".to_string()));
    assert!(s.push_ready_segment(ready("x")));
    let (seg, more) = s.pop_ready_segment("b");
    assert!(seg.is_none());
    assert!(!more);
    let (seg, more) = s.pop_ready_segment("a");
    assert_eq!(seg.unwrap().text, "x");
    assert!(more);
}

#[test]
fn sound_counter() {
    let mut s = WorkerState::new();
    assert!(s.is_sync_audio_done());
    let a = s.begin_sync_audio().unwrap();
    let b = s.begin_sync_audio().unwrap();
    assert_eq!((a, b), (1, 2));
    s.finish_sync_audio(a);
    assert!(!s.is_sync_audio_done());
    s.finish_sync_audio(b);
    assert!(s.is_sync_audio_done());
    s.stop_queues();
    assert!(s.begin_sync_audio().is_none());
}

#[test]
fn connection_messages() {
    let mut s = WorkerState::new();
    s.record_speakers_found(Engine::VoiceVox, "C:\\vv\\run.exe".to_string(), vec![]);
    assert_eq!(s.pop_dialog().as_deref(), Some("VOICEVOX が接続されました"));
    assert_eq!(s.engine_path.get(Engine::VoiceVox).map(|p| p.as_str()), Some("C:\\vv\\run.exe"));
    assert_eq!(s.engine_auto_start.get(Engine::VoiceVox), Some(&false));
    s.record_speakers_found(Engine::VoiceVox, "other".to_string(), vec![]);
    assert!(s.pop_dialog().is_none());
    assert_eq!(s.failure_count(Engine::VoiceVox), 0);
    assert_eq!(s.record_speakers_failure(Engine::VoiceVox), None);
    s.record_speakers_lost(Engine::VoiceVox);
    assert_eq!(s.pop_dialog().as_deref(), Some("VOICEVOX が切断されました"));
    assert!(!s.speakers_info.contains_key(Engine::VoiceVox));
    s.record_speakers_lost(Engine::VoiceVox);
    assert!(s.pop_dialog().is_none());
}

#[test]
fn failure_backoff() {
    let mut s = WorkerState::new();
    for _ in 0..9 {
        assert_eq!(s.record_speakers_failure(Engine::Lmroid), None);
    }
    assert_eq!(s.record_speakers_failure(Engine::Lmroid), Some(4));
    for _ in 0..19 {
        s.record_speakers_failure(Engine::Lmroid);
    }
    assert_eq!(s.failure_count(Engine::Lmroid), 29);
    assert_eq!(s.record_speakers_failure(Engine::Lmroid), Some(60));
}

#[test]
fn engine_status_lists_known_engines_in_order() {
    let mut s = WorkerState::new();
    s.connection_status.insert(Engine::BouyomiChan, false);
    s.connection_status.insert(Engine::CoeiroInkV2, true);
    s.engine_path.insert(Engine::VoiceVox, "p".to_string());
    match s.engine_status() {
        Response::EngineStatus { speakers_info, connection_status, engine_paths } => {
            assert!(speakers_info.is_empty());
            assert_eq!(connection_status, vec![(Engine::CoeiroInkV2, true), (Engine::BouyomiChan, false)]);
            assert_eq!(engine_paths, vec![(Engine::VoiceVox, "p".to_string())]);
        }
        _ => panic!("unexpected reply"),
    }
}

#[test]
fn engines_started_with_the_worker() {
    let mut s = WorkerState::new();
    s.engine_auto_start.insert(Engine::ShareVox, true);
    s.engine_auto_start.insert(Engine::VoiceVox, false);
    assert_eq!(s.engines_to_boot(), vec![Engine::ShareVox]);
    assert_eq!(s.boot_path(Engine::ShareVox), Err("No path found for engine: SHAREVOX".to_string()));
    s.engine_path.insert(Engine::ShareVox, "sv.exe".to_string());
    assert_eq!(s.boot_path(Engine::ShareVox), Ok("sv.exe".to_string()));
}
