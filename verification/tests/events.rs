use bevy_dioxus_sync::events::{
    contains_word, does_catch_events, is_whitespace, NodeClasses, CATCH_EVENTS_CLASS,
};
use bevy_dioxus_sync::packet::{clone_info, InfoPacket, InfoUpdate, StatusUpdate};

fn node(class: Option<&str>, parent: Option<usize>) -> NodeClasses {
    NodeClasses { class: class.map(|class| class.to_string()), parent }
}

#[test]
fn class_word_is_found_between_white_space() {
    assert!(contains_word("catch-events", "catch-events"));
    assert!(contains_word("panel catch-events", "catch-events"));
    assert!(contains_word("catch-events panel", "catch-events"));
    assert!(contains_word("  a \t catch-events\nb", "catch-events"));
    assert!(contains_word("a\u{2003}catch-events", "catch-events"));
    assert!(contains_word("x y z", "y"));
}

#[test]
fn class_word_is_not_found_inside_another_word() {
    assert!(!contains_word("catch-eventsx", "catch-events"));
    assert!(!contains_word("xcatch-events", "catch-events"));
    assert!(!contains_word("catch-event", "catch-events"));
    assert!(!contains_word("catch -events", "catch-events"));
    assert!(!contains_word("", "catch-events"));
    assert!(!contains_word("   ", "catch-events"));
    assert!(!contains_word("panel", "catch-events"));
}

#[test]
fn empty_word_or_word_with_white_space_is_never_found() {
    assert!(!contains_word("a b", ""));
    assert!(!contains_word("", ""));
    assert!(!contains_word("a b", "a b"));
}

#[test]
fn node_catches_events_if_it_or_an_ancestor_has_the_class() {
    assert_eq!(CATCH_EVENTS_CLASS, "catch-events");
    let nodes = vec![
        node(Some("panel catch-events"), None),
        node(None, Some(0)),
        node(Some("button"), Some(1)),
        node(Some("other"), None),
        node(Some("deep"), Some(3)),
    ];
    assert!(does_catch_events(&nodes, 0));
    assert!(does_catch_events(&nodes, 1));
    assert!(does_catch_events(&nodes, 2));
    assert!(!does_catch_events(&nodes, 3));
    assert!(!does_catch_events(&nodes, 4));
}

#[test]
fn node_outside_the_document_catches_nothing() {
    let nodes = vec![node(Some("catch-events"), None), node(None, Some(7))];
    assert!(!does_catch_events(&nodes, 2));
    assert!(!does_catch_events(&nodes, 1));
    assert!(!does_catch_events(&Vec::new(), 0));
}

#[test]
fn search_for_the_class_ends_on_a_cycle() {
    let nodes = vec![node(Some("a"), Some(1)), node(Some("b"), Some(0))];
    assert!(!does_catch_events(&nodes, 0));
    let nodes = vec![node(Some("a"), Some(1)), node(Some("catch-events"), Some(0))];
    assert!(does_catch_events(&nodes, 0));
}

#[test]
fn packets_clone_field_by_field() {
    let update = InfoUpdate { update: "v".to_string(), index: Some(3), additional_info: Some(9u8) };
    assert_eq!(update.clone(), update);
    let packet = InfoPacket::Update(update);
    assert_eq!(packet.clone(), packet);
    let request: InfoPacket<String, u8> = InfoPacket::Request(StatusUpdate::RequestRefresh);
    assert_eq!(request.clone(), request);
    assert_eq!(clone_info(&Some(4)), Some(4));
    assert_eq!(clone_info::<u8>(&None), None);
}

use bevy_dioxus_sync::events::{
    blitz_button, buttons_of, catches_pointer, handle_mouse_events, BlitzMouseButtonEvent,
    ButtonState, MouseButton, MouseEventButton, MouseState, UiEvent,
};

fn pointer() -> MouseState<(i32, i32), char> {
    MouseState { position: (0, 0), buttons: 0, mods: 'm' }
}

#[test]
fn window_buttons_map_to_document_buttons() {
    assert_eq!(blitz_button(MouseButton::Left), Some(MouseEventButton::Main));
    assert_eq!(blitz_button(MouseButton::Right), Some(MouseEventButton::Secondary));
    assert_eq!(blitz_button(MouseButton::Middle), Some(MouseEventButton::Auxiliary));
    assert_eq!(blitz_button(MouseButton::Back), Some(MouseEventButton::Fourth));
    assert_eq!(blitz_button(MouseButton::Forward), Some(MouseEventButton::Fifth));
    assert_eq!(blitz_button(MouseButton::Other(9)), None);
    assert_eq!(buttons_of(MouseEventButton::Main), 1);
    assert_eq!(buttons_of(MouseEventButton::Secondary), 2);
    assert_eq!(buttons_of(MouseEventButton::Auxiliary), 4);
    assert_eq!(buttons_of(MouseEventButton::Fourth), 8);
    assert_eq!(buttons_of(MouseEventButton::Fifth), 16);
}

#[test]
fn pressed_and_released_buttons_are_tracked() {
    let mut state = pointer();
    let down = state.button_changed(MouseButton::Left, ButtonState::Pressed);
    assert_eq!(state.buttons, 1);
    assert_eq!(
        down,
        Some(UiEvent::MouseDown(BlitzMouseButtonEvent {
            position: (0, 0),
            button: MouseEventButton::Main,
            buttons: 1,
            mods: 'm'
        }))
    );
    state.button_changed(MouseButton::Right, ButtonState::Pressed);
    assert_eq!(state.buttons, 3);
    let up = state.button_changed(MouseButton::Left, ButtonState::Released);
    assert_eq!(state.buttons, 2);
    assert_eq!(
        up,
        Some(UiEvent::MouseUp(BlitzMouseButtonEvent {
            position: (0, 0),
            button: MouseEventButton::Main,
            buttons: 2,
            mods: 'm'
        }))
    );
    // Releasing what is not held, and a button that the document does not
    // know, changes nothing.
    state.button_changed(MouseButton::Left, ButtonState::Released);
    assert_eq!(state.buttons, 2);
    assert_eq!(state.button_changed(MouseButton::Other(7), ButtonState::Pressed), None);
    assert_eq!(state.buttons, 2);
}

#[test]
fn pointer_moves_come_before_button_changes() {
    let mut state = pointer();
    state.buttons = 4;
    let events = handle_mouse_events(
        &mut state,
        vec![(1, 1), (5, 6)],
        vec![
            (MouseButton::Forward, ButtonState::Pressed),
            (MouseButton::Other(1), ButtonState::Pressed),
            (MouseButton::Middle, ButtonState::Released),
        ],
    );
    let told = |position, button, buttons| BlitzMouseButtonEvent { position, button, buttons, mods: 'm' };
    assert_eq!(
        events,
        vec![
            UiEvent::MouseMove(told((1, 1), MouseEventButton::Main, 4)),
            UiEvent::MouseMove(told((5, 6), MouseEventButton::Main, 4)),
            UiEvent::MouseDown(told((5, 6), MouseEventButton::Fifth, 20)),
            UiEvent::MouseUp(told((5, 6), MouseEventButton::Auxiliary, 16)),
        ]
    );
    assert_eq!(state, MouseState { position: (5, 6), buttons: 16, mods: 'm' });

    let mut idle = pointer();
    assert!(handle_mouse_events(&mut idle, vec![], vec![]).is_empty());
    assert_eq!(idle, pointer());
    assert_eq!(
        idle.cursor_moved((2, 3)),
        UiEvent::MouseMove(told((2, 3), MouseEventButton::Main, 0))
    );
    assert_eq!(idle.position, (2, 3));
}

#[test]
fn pointer_is_caught_where_it_hits_a_catching_node() {
    let nodes = vec![node(Some("catch-events"), None), node(None, Some(0)), node(None, None)];
    assert!(catches_pointer(&nodes, Some(1)));
    assert!(!catches_pointer(&nodes, Some(2)));
    assert!(!catches_pointer(&nodes, None));
}

#[test]
fn white_space_is_what_the_standard_library_calls_white_space() {
    let mut spaces = 0;
    for code in 0..=0x10FFFFu32 {
        if let Some(c) = char::from_u32(code) {
            assert_eq!(is_whitespace(c), c.is_whitespace(), "code point {code:#x}");
            if is_whitespace(c) {
                spaces += 1;
            }
        }
    }
    assert_eq!(spaces, 25);
}
