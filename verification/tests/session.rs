use audio_visualizer::session::{ConfigPlan, SessionState, StartPlan, StopPlan};

#[test]
fn new_session_holds_nothing() {
    let s = SessionState::new();
    assert!(!s.is_running());
    assert_eq!(s.selected_output_device_id(), &None);
    assert_eq!(
        s.plan_start(),
        StartPlan { create_processor: true, create_sender: true, create_stream: true }
    );
}

#[test]
fn start_creates_everything_once() {
    let mut s = SessionState::new();
    s.complete_start(None);
    assert!(s.is_running());
    assert_eq!(
        s.plan_start(),
        StartPlan { create_processor: false, create_sender: false, create_stream: false }
    );
}

#[test]
fn start_selects_the_requested_device() {
    let mut s = SessionState::new();
    s.complete_start(Some("speakers".to_string()));
    assert_eq!(s.selected_output_device_id(), &Some("speakers".to_string()));
    s.complete_start(None);
    assert_eq!(s.selected_output_device_id(), &Some("speakers".to_string()));
    s.complete_start(Some("headset".to_string()));
    assert_eq!(s.selected_output_device_id(), &Some("headset".to_string()));
}

#[test]
fn stop_drops_the_sender_and_keeps_the_rest() {
    let mut s = SessionState::new();
    s.complete_start(None);
    assert_eq!(s.stop(), StopPlan { pause_stream: true, stop_sender: true });
    assert!(!s.is_running());
    assert_eq!(
        s.plan_start(),
        StartPlan { create_processor: false, create_sender: true, create_stream: false }
    );
    assert_eq!(s.stop(), StopPlan { pause_stream: true, stop_sender: false });
}

#[test]
fn stop_before_start_has_nothing_to_do() {
    let mut s = SessionState::new();
    assert_eq!(s.stop(), StopPlan { pause_stream: false, stop_sender: false });
    assert!(!s.is_running());
}

#[test]
fn update_config_detects_a_changed_device() {
    let mut s = SessionState::new();
    assert_eq!(s.update_config(None), ConfigPlan { update_processor: false, device_changed: false });
    assert_eq!(
        s.update_config(Some("speakers".to_string())),
        ConfigPlan { update_processor: false, device_changed: true }
    );
    s.complete_start(None);
    assert_eq!(
        s.update_config(Some("speakers".to_string())),
        ConfigPlan { update_processor: true, device_changed: false }
    );
    assert_eq!(
        s.update_config(Some("headset".to_string())),
        ConfigPlan { update_processor: true, device_changed: true }
    );
    assert_eq!(s.selected_output_device_id(), &Some("headset".to_string()));
    assert_eq!(s.update_config(None), ConfigPlan { update_processor: true, device_changed: true });
    assert_eq!(s.selected_output_device_id(), &None);
    assert!(s.is_running());
}
