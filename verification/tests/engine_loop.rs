use veltrix::animation::frames::{is_finished, next_frame, play_action, PlayAction};
use veltrix::engine_core::main_loop::{after_update, loop_action, AfterUpdate, LoopAction, LoopSignal};

#[test]
fn close_request_exits_and_frames_run_after_events() {
    assert_eq!(loop_action(LoopSignal::CloseRequested), LoopAction::Exit);
    assert_eq!(loop_action(LoopSignal::AboutToWait), LoopAction::RunFrame);
    assert_eq!(loop_action(LoopSignal::Resized), LoopAction::Wait);
    assert_eq!(loop_action(LoopSignal::Other), LoopAction::Wait);
}

#[test]
fn update_returning_false_exits_without_render() {
    assert_eq!(after_update(false, 60, false), AfterUpdate::Exit);
    assert_eq!(after_update(false, 0, true), AfterUpdate::Exit);
}

#[test]
fn frame_rate_capped_only_without_vsync() {
    assert_eq!(after_update(true, 60, false), AfterUpdate::Render { cap_fps: true });
    assert_eq!(after_update(true, 60, true), AfterUpdate::Render { cap_fps: false });
    assert_eq!(after_update(true, 0, false), AfterUpdate::Render { cap_fps: false });
}

#[test]
fn looping_clip_wraps_to_first_frame() {
    assert_eq!(next_frame(0, 3, true), (1, false));
    assert_eq!(next_frame(1, 3, true), (2, false));
    assert_eq!(next_frame(2, 3, true), (0, false));
    let mut frame = 0;
    for _ in 0..7 {
        frame = next_frame(frame, 3, true).0;
    }
    assert_eq!(frame, 7 % 3);
}

#[test]
fn one_shot_clip_stops_on_last_frame() {
    assert_eq!(next_frame(1, 3, false), (2, false));
    assert_eq!(next_frame(2, 3, false), (2, true));
    assert_eq!(next_frame(9, 3, false), (2, true));
    assert_eq!(next_frame(0, 1, false), (0, true));
}

#[test]
fn finished_only_for_one_shot_clips_at_the_end() {
    assert!(!is_finished(2, 3, true));
    assert!(!is_finished(0, 0, false));
    assert!(!is_finished(1, 3, false));
    assert!(is_finished(2, 3, false));
    assert!(is_finished(0, 1, false));
}

#[test]
fn playing_the_current_clip_changes_nothing() {
    assert_eq!(play_action(Some("run"), "run", true), PlayAction::AlreadyPlaying);
    assert_eq!(play_action(Some("run"), "jump", true), PlayAction::Switch);
    assert_eq!(play_action(None, "jump", true), PlayAction::Switch);
    assert_eq!(play_action(Some("run"), "fly", false), PlayAction::Unknown);
    assert_eq!(play_action(None, "fly", false), PlayAction::Unknown);
}
