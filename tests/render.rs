use effy::output_pane::{count_lines, OutputPaneState};
use effy::render::{
    exit_event, normalize_newlines, output_event, output_file, spawn_failure_events, stop_command, CancelAction,
    RenderEvent, RenderSupervisor,
};

#[test]
fn failed_spawn_reports_error_then_failure() {
    let os_error = std::io::Error::from_raw_os_error(2).to_string();
    let events = spawn_failure_events(&os_error);
    assert_eq!(events.len(), 2);
    match &events[0] {
        RenderEvent::OutputAppended(t) => {
            assert_eq!(t, &format!("Failed to start FFmpeg: {os_error}\n"));
            assert!(t.contains("os error 2"));
        }
        _ => panic!("first event carries the error text"),
    }
    assert!(matches!(events[1], RenderEvent::Completed(false)));
    assert!(!events.iter().any(|e| matches!(e, RenderEvent::Started)));

    let mut sup = RenderSupervisor::new();
    assert!(sup.request_render());
    let msg = sup.on_completed(false);
    assert_eq!(msg, "FFmpeg encountered an error.\n\n");
    assert!(!sup.running);
    assert!(!sup.has_input);
}

#[test]
fn second_request_while_running_spawns_nothing() {
    let mut sup = RenderSupervisor::new();
    assert!(sup.request_render());
    assert!(sup.on_started());
    assert!(!sup.request_render());
    assert!(sup.running);
    assert!(sup.has_input);
    assert_eq!(sup.on_completed(true), "FFmpeg finished successfully!\n\n");
    assert!(sup.request_render());
}

#[test]
fn cancel_sends_stop_once_then_quits() {
    let mut sup = RenderSupervisor::new();
    assert_eq!(sup.on_cancel(), CancelAction::Quit);
    sup.request_render();
    assert_eq!(sup.on_cancel(), CancelAction::Quit);
    sup.on_started();
    assert_eq!(sup.on_cancel(), CancelAction::SendStop);
    assert!(sup.running);
    assert!(!sup.has_input);
    assert_eq!(sup.on_cancel(), CancelAction::Quit);
    assert_eq!(stop_command(), "q");
}

#[test]
fn late_start_after_completion_is_not_kept() {
    let mut sup = RenderSupervisor::new();
    sup.request_render();
    sup.on_completed(true);
    assert!(!sup.on_started());
    assert!(!sup.has_input);
}

#[test]
fn line_ends_are_normalised() {
    assert_eq!(normalize_newlines("a\r\nb\rc\r\r\nd"), "a\nb\nc\n\nd");
    assert_eq!(normalize_newlines(""), "");
    assert_eq!(normalize_newlines("\r"), "\n");
    match output_event("x\r\n") {
        RenderEvent::OutputAppended(t) => assert_eq!(t, "x\n"),
        _ => panic!("chunks become output"),
    }
}

#[test]
fn exit_status_decides_success() {
    assert!(matches!(exit_event(Some(true)), RenderEvent::Completed(true)));
    assert!(matches!(exit_event(Some(false)), RenderEvent::Completed(false)));
    assert!(matches!(exit_event(None), RenderEvent::Completed(false)));
}

#[test]
fn output_file_joins_parts() {
    assert_eq!(output_file("/videos", "clip_out", "mp4"), "/videos/clip_out.mp4");
}

#[test]
fn lines_are_counted_like_str_lines() {
    for s in ["", "a", "a\n", "a\nb", "\n", "\n\n", "a\r\nb\r\n"] {
        assert_eq!(count_lines(s) as usize, s.lines().count(), "{:?}", s);
    }
}

#[test]
fn output_pane_scrolls_within_the_text() {
    let mut pane = OutputPaneState::new(String::new());
    pane.scroll_up();
    assert_eq!(pane.current_line, 0);
    pane.set_output("Starting FFmpeg...\n");
    pane.add_output("line 2\nline 3\n");
    assert_eq!(pane.output, "Starting FFmpeg...\nline 2\nline 3\n");
    pane.scroll_up();
    pane.scroll_up();
    pane.scroll_up();
    pane.scroll_up();
    assert_eq!(pane.current_line, 3);
    pane.scroll_down();
    assert_eq!(pane.current_line, 2);
    pane.add_output("more");
    assert_eq!(pane.current_line, 0);
    pane.scroll_down();
    assert_eq!(pane.current_line, 0);
}
