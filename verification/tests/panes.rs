use can_monitor::panes::{pane_body, pane_controls, PaneBody, PaneControls, PaneToggle};

#[test]
fn single_pane_has_no_toggle_and_cannot_close() {
    assert_eq!(pane_controls(1, false, false), PaneControls { toggle: None, close_enabled: false });
    assert_eq!(pane_controls(1, true, true), PaneControls { toggle: None, close_enabled: false });
    assert_eq!(pane_controls(0, false, false), PaneControls { toggle: None, close_enabled: false });
}

#[test]
fn several_panes_toggle_and_close() {
    assert_eq!(
        pane_controls(2, false, false),
        PaneControls { toggle: Some(PaneToggle::Maximize), close_enabled: true }
    );
    assert_eq!(
        pane_controls(3, false, true),
        PaneControls { toggle: Some(PaneToggle::Restore), close_enabled: true }
    );
    assert_eq!(
        pane_controls(2, true, false),
        PaneControls { toggle: Some(PaneToggle::Maximize), close_enabled: false }
    );
}

#[test]
fn pane_bodies() {
    assert_eq!(pane_body(true, 1), PaneBody::Widget);
    assert_eq!(pane_body(true, 4), PaneBody::Widget);
    assert_eq!(pane_body(false, 1), PaneBody::Layout { close_button: false });
    assert_eq!(pane_body(false, 2), PaneBody::Layout { close_button: true });
}
