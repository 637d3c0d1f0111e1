use screen_lib::km::{
    button_label, queue_route, reached_right_edge, slave_action, slave_entry_x, CursorState,
    KMEventType, KmEvent, MouseButton, MoveOutcome, QueueRoute, SlaveAction,
};

#[test]
fn move_inside_screen_is_kept_local() {
    let mut s = CursorState::new();
    let out = s.pointer_moved(false);
    assert_eq!(out, MoveOutcome { forward: false, hide_cursor: false });
    assert!(!s.hidden);
}

#[test]
fn reaching_left_edge_hides_and_forwards() {
    let mut s = CursorState::new();
    let out = s.pointer_moved(true);
    assert_eq!(out, MoveOutcome { forward: true, hide_cursor: true });
    assert!(s.hidden);
    let out2 = s.pointer_moved(false);
    assert_eq!(out2, MoveOutcome { forward: true, hide_cursor: false });
    assert!(s.hidden);
}

#[test]
fn first_forwarded_move_is_init_then_plain_moves() {
    let mut s = CursorState::new();
    s.pointer_moved(true);
    assert_eq!(s.next_move_type(), KMEventType::InitMouseMove);
    assert_eq!(s.next_move_type(), KMEventType::MouseMove);
    assert_eq!(s.next_move_type(), KMEventType::MouseMove);
}

#[test]
fn mouse_back_restarts_handover() {
    let mut s = CursorState::new();
    s.pointer_moved(true);
    s.next_move_type();
    assert!(!s.remote_event(KMEventType::MouseMove));
    assert!(s.hidden);
    assert!(s.remote_event(KMEventType::MouseBack));
    assert_eq!(s, CursorState::new());
    assert_eq!(s.next_move_type(), KMEventType::InitMouseMove);
}

#[test]
fn buttons_only_sent_while_hidden() {
    let mut s = CursorState::new();
    assert_eq!(s.button_event(MouseButton::LeftDown), None);
    s.pointer_moved(true);
    assert_eq!(s.button_event(MouseButton::LeftDown), Some("LeftMouseDown"));
    assert_eq!(s.button_event(MouseButton::Other), Some(""));
}

#[test]
fn button_labels_as_on_the_wire() {
    assert_eq!(button_label(MouseButton::LeftDown), "LeftMouseDown");
    assert_eq!(button_label(MouseButton::LeftUp), "LeftMouseUp");
    assert_eq!(button_label(MouseButton::RightDown), "RightMouseDown");
    assert_eq!(button_label(MouseButton::RightUp), "RightMoseUp");
    assert_eq!(button_label(MouseButton::Other), "");
}

#[test]
fn queue_routes_unspecified_as_pointer_move() {
    assert_eq!(queue_route(KMEventType::Unspecified), QueueRoute::PointerMove);
    assert_eq!(queue_route(KMEventType::MouseEvent), QueueRoute::Forward);
}

#[test]
fn slave_reactions() {
    assert_eq!(slave_action(KMEventType::InitMouseMove), SlaveAction::EnterAtRightEdge);
    assert_eq!(slave_action(KMEventType::MouseMove), SlaveAction::MoveRelative);
    assert_eq!(slave_action(KMEventType::MouseEvent), SlaveAction::LogButton);
    assert_eq!(slave_action(KMEventType::Ready), SlaveAction::LogOther);
}

#[test]
fn slave_edges() {
    assert_eq!(slave_entry_x(1920), 1915);
    assert!(reached_right_edge(1917, 1920));
    assert!(!reached_right_edge(1916, 1920));
    assert!(reached_right_edge(5000, 1920));
}

#[test]
fn km_event_parts() {
    let e = KmEvent::new(KMEventType::Ready, 7u32);
    assert_eq!(e.evt_type(), KMEventType::Ready);
    assert_eq!(*e.evt_data(), 7);
    let d: KmEvent<u32> = KmEvent::default();
    assert_eq!(d.into_parts(), (KMEventType::Unspecified, 0));
}

#[test]
fn run_of_moves_forwarded_from_first_edge_on() {
    let mut s = CursorState::new();
    let edges = [false, false, true, false, false];
    let sent: Vec<bool> = edges.iter().map(|e| s.pointer_moved(*e).forward).collect();
    assert_eq!(sent, vec![false, false, true, true, true]);
}
