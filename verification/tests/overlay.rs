use typr_lib::overlay::{
    normalize_overlay_position, overlay_dims, position_in_work_area, preview_end, preview_tick,
    still_current, PreviewEnd, PreviewTick, WorkArea,
};
use typr_lib::pipeline::PipelineMode;
use typr_lib::recording::{
    hotkey_behaviour, parse_overlay_mode, parse_preview_recording_state, pipeline_mode_label,
    recorder_step, session_timeout_secs, timeout_error, HotkeyBehaviour, Recorder,
    RecorderAction, RecorderEvent, RecordingState,
};

#[test]
fn halo_orb_overlay_dims_fit_full_orb_chrome() {
    assert_eq!(overlay_dims("orb", "smaller"), (92, 92));
    assert_eq!(overlay_dims("orb", "small"), (112, 124));
    assert_eq!(overlay_dims("orb", "medium"), (140, 152));
    assert_eq!(overlay_dims("orb", "large"), (172, 184));
}

#[test]
fn capsule_dims_and_fallback() {
    assert_eq!(overlay_dims("capsule", "smaller"), (212, 54));
    assert_eq!(overlay_dims("capsule", "small"), (420, 56));
    assert_eq!(overlay_dims("capsule", "medium"), (520, 60));
    assert_eq!(overlay_dims("capsule", "large"), (640, 64));
    assert_eq!(overlay_dims("bar", "huge"), (520, 60));
    assert_eq!(overlay_dims("orb", "huge"), (520, 60));
}

#[test]
fn positions_normalise() {
    assert_eq!(normalize_overlay_position("top-left"), "top-left");
    assert_eq!(normalize_overlay_position("center"), "center");
    assert_eq!(normalize_overlay_position("near-cursor"), "bottom-center");
    assert_eq!(normalize_overlay_position(""), "bottom-center");
    assert_eq!(normalize_overlay_position("elsewhere"), "bottom-center");
}

#[test]
fn overlay_positions_in_work_area() {
    let work = WorkArea { left: 0, top: 0, right: 1920, bottom: 1040 };
    assert_eq!(position_in_work_area(work, 292, 60, "bottom-center"), (814, 968));
    assert_eq!(position_in_work_area(work, 292, 60, "top-left"), (18, 18));
    assert_eq!(position_in_work_area(work, 292, 60, "center-right"), (1610, 490));
    assert_eq!(position_in_work_area(work, 292, 60, "center"), (814, 490));
    let narrow = WorkArea { left: 100, top: 0, right: 201, bottom: 100 };
    assert_eq!(position_in_work_area(narrow, 292, 60, "bottom-center").0, 100 + (101 - 292) / 2);
}

#[test]
fn preview_bookkeeping() {
    assert!(still_current(3, 3));
    assert!(!still_current(4, 3));
    assert_eq!(preview_tick(4, 3, 0, true), PreviewTick::Stop);
    assert_eq!(preview_tick(3, 3, 17, true), PreviewTick::EmitLevel(1));
    assert_eq!(preview_tick(3, 3, 17, false), PreviewTick::Wait);
    assert_eq!(preview_end(3, 3, true), PreviewEnd::SwitchOff { hide: true });
    assert_eq!(preview_end(5, 3, true), PreviewEnd::LeaveAlone);
}

#[test]
fn preview_mode_parser_accepts_supported_modes_only() {
    assert_eq!(parse_overlay_mode("dictation"), Ok(PipelineMode::Dictation));
    assert_eq!(parse_overlay_mode("command"), Ok(PipelineMode::Command));
    assert!(parse_overlay_mode("../dictation").is_err());
    assert_eq!(
        parse_overlay_mode("x").unwrap_err(),
        "Unsupported overlay preview mode `x`"
    );
}

#[test]
fn preview_state_parser_accepts_recording_and_transcribing_only() {
    assert_eq!(parse_preview_recording_state("Recording"), Ok(RecordingState::Recording));
    assert_eq!(parse_preview_recording_state("Transcribing"), Ok(RecordingState::Transcribing));
    assert!(parse_preview_recording_state("Ready").is_err());
}

#[test]
fn mode_labels_and_timeouts() {
    assert_eq!(pipeline_mode_label(PipelineMode::Dictation), "dictation");
    assert_eq!(pipeline_mode_label(PipelineMode::Command), "command");
    assert_eq!(session_timeout_secs(PipelineMode::Dictation), 240);
    assert_eq!(session_timeout_secs(PipelineMode::Command), 35);
    assert_eq!(
        timeout_error(PipelineMode::Dictation).to_string(),
        "transcribe: session timed out after 240 seconds"
    );
    assert_eq!(
        timeout_error(PipelineMode::Command).to_string(),
        "draft: session timed out after 35 seconds"
    );
}

fn ready() -> Recorder {
    Recorder { state: RecordingState::Ready, active_mode: PipelineMode::Dictation }
}

#[test]
fn toggle_cycle() {
    let (r, a) = recorder_step(ready(), RecorderEvent::Toggle(PipelineMode::Command), HotkeyBehaviour::Toggle, true);
    assert_eq!(a, RecorderAction::StartAudio(PipelineMode::Command));
    let (r, a) = recorder_step(r, RecorderEvent::AudioStarted(PipelineMode::Command), HotkeyBehaviour::Toggle, true);
    assert_eq!(a, RecorderAction::Nothing);
    assert_eq!(r.state, RecordingState::Recording);
    let (r, a) = recorder_step(r, RecorderEvent::Toggle(PipelineMode::Dictation), HotkeyBehaviour::Toggle, true);
    assert_eq!(a, RecorderAction::RunPipeline(PipelineMode::Command));
    assert_eq!(r.state, RecordingState::Transcribing);
    let (r, a) = recorder_step(r, RecorderEvent::Toggle(PipelineMode::Dictation), HotkeyBehaviour::Toggle, true);
    assert_eq!(a, RecorderAction::Refuse("Currently transcribing, please wait".into()));
    let (r, _) = recorder_step(r, RecorderEvent::PipelineFinished, HotkeyBehaviour::Toggle, true);
    assert_eq!(r.state, RecordingState::Ready);
    let (_, a) = recorder_step(r, RecorderEvent::Toggle(PipelineMode::Dictation), HotkeyBehaviour::Toggle, false);
    assert_eq!(a, RecorderAction::Refuse("Finish first boot setup before recording.".into()));
}

#[test]
fn push_to_talk_release_only_stops_its_own_mode() {
    let ptt = hotkey_behaviour("push-to-talk");
    assert_eq!(ptt, HotkeyBehaviour::PushToTalk);
    assert_eq!(hotkey_behaviour("toggle"), HotkeyBehaviour::Toggle);
    assert_eq!(hotkey_behaviour("other"), HotkeyBehaviour::Inert);
    let (r, a) = recorder_step(ready(), RecorderEvent::HotkeyPressed(PipelineMode::Dictation), ptt, true);
    assert_eq!(a, RecorderAction::StartAudio(PipelineMode::Dictation));
    let (r, _) = recorder_step(r, RecorderEvent::AudioStarted(PipelineMode::Dictation), ptt, true);
    let (r, a) = recorder_step(r, RecorderEvent::HotkeyReleased(PipelineMode::Command), ptt, true);
    assert_eq!(a, RecorderAction::Nothing);
    assert_eq!(r.state, RecordingState::Recording);
    let (r, a) = recorder_step(r, RecorderEvent::HotkeyReleased(PipelineMode::Dictation), ptt, true);
    assert_eq!(a, RecorderAction::RunPipeline(PipelineMode::Dictation));
    assert_eq!(r.state, RecordingState::Transcribing);
    let (_, a) = recorder_step(ready(), RecorderEvent::HotkeyPressed(PipelineMode::Dictation), ptt, false);
    assert_eq!(a, RecorderAction::Nothing);
}

#[test]
fn cancel_only_acts_while_recording() {
    let (r, a) = recorder_step(ready(), RecorderEvent::Cancel, HotkeyBehaviour::Toggle, true);
    assert_eq!(a, RecorderAction::Nothing);
    assert_eq!(r, ready());
    let rec = Recorder { state: RecordingState::Recording, active_mode: PipelineMode::Dictation };
    let (r, a) = recorder_step(rec, RecorderEvent::Cancel, HotkeyBehaviour::Toggle, true);
    assert_eq!(a, RecorderAction::CancelAudio);
    assert_eq!(r.state, RecordingState::Ready);
}
