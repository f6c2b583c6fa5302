use voxel_mesher::debug::{DeviceEvent, ElementState, Key, KeyboardInput, PolygonMode};
use voxel_mesher::viewer::{on_event, Step, ViewerEvent};

fn press(key: Key) -> DeviceEvent {
    DeviceEvent::Key(KeyboardInput { state: ElementState::Pressed, virtual_keycode: Some(key) })
}

fn release(key: Key) -> DeviceEvent {
    DeviceEvent::Key(KeyboardInput { state: ElementState::Released, virtual_keycode: Some(key) })
}

#[test]
fn draws_filled_while_no_key_is_held() {
    let debug = voxel_mesher::debug::Debug::new();
    assert_eq!(debug.get_draw_state(), PolygonMode::Fill);
}

#[test]
fn draws_lines_while_t_is_held() {
    let mut debug = voxel_mesher::debug::Debug::new();
    debug.parse_input(&press(Key::T));
    assert_eq!(debug.get_draw_state(), PolygonMode::Line);
    debug.parse_input(&release(Key::T));
    assert_eq!(debug.get_draw_state(), PolygonMode::Fill);
}

#[test]
fn other_keys_do_not_switch_the_draw_state() {
    let mut debug = voxel_mesher::debug::Debug::new();
    debug.parse_input(&press(Key::Other(3)));
    debug.parse_input(&press(Key::Other(29)));
    assert_eq!(debug.get_draw_state(), PolygonMode::Fill);
    debug.parse_input(&press(Key::T));
    debug.parse_input(&release(Key::Other(3)));
    assert_eq!(debug.get_draw_state(), PolygonMode::Line);
}

#[test]
fn a_key_pressed_twice_is_held_once() {
    let mut debug = voxel_mesher::debug::Debug::new();
    debug.parse_input(&press(Key::T));
    debug.parse_input(&press(Key::T));
    debug.parse_input(&release(Key::T));
    assert_eq!(debug.get_draw_state(), PolygonMode::Fill);
}

#[test]
fn releasing_a_key_that_is_not_held_changes_nothing() {
    let mut debug = voxel_mesher::debug::Debug::new();
    debug.parse_input(&release(Key::T));
    assert_eq!(debug.get_draw_state(), PolygonMode::Fill);
    debug.parse_input(&press(Key::T));
    debug.parse_input(&release(Key::Other(1)));
    assert_eq!(debug.get_draw_state(), PolygonMode::Line);
}

#[test]
fn events_of_other_devices_are_ignored() {
    let mut debug = voxel_mesher::debug::Debug::new();
    debug.parse_input(&DeviceEvent::Other);
    assert_eq!(debug.get_draw_state(), PolygonMode::Fill);
    debug.parse_input(&press(Key::T));
    debug.parse_input(&DeviceEvent::Other);
    assert_eq!(debug.get_draw_state(), PolygonMode::Line);
}

#[test]
fn t_stays_held_while_other_keys_come_and_go() {
    let mut debug = voxel_mesher::debug::Debug::new();
    debug.parse_input(&press(Key::Other(1)));
    debug.parse_input(&press(Key::T));
    debug.parse_input(&press(Key::Other(2)));
    debug.parse_input(&release(Key::Other(1)));
    assert_eq!(debug.get_draw_state(), PolygonMode::Line);
    debug.parse_input(&release(Key::Other(2)));
    assert_eq!(debug.get_draw_state(), PolygonMode::Line);
    debug.parse_input(&release(Key::T));
    assert_eq!(debug.get_draw_state(), PolygonMode::Fill);
}

#[test]
fn new_tracker_holds_no_key() {
    let debug = voxel_mesher::debug::Debug::new();
    assert!(debug.keys().is_empty());
}

#[test]
fn pressed_keys_are_held_in_the_order_they_went_down() {
    let mut debug = voxel_mesher::debug::Debug::new();
    debug.parse_input(&press(Key::Other(5)));
    debug.parse_input(&press(Key::T));
    debug.parse_input(&press(Key::Other(2)));
    debug.parse_input(&press(Key::Other(5)));
    assert_eq!(debug.keys(), &vec![Key::Other(5), Key::T, Key::Other(2)]);
}

#[test]
fn a_released_key_leaves_and_the_others_keep_their_order() {
    let mut debug = voxel_mesher::debug::Debug::new();
    debug.parse_input(&press(Key::Other(5)));
    debug.parse_input(&press(Key::T));
    debug.parse_input(&press(Key::Other(2)));
    debug.parse_input(&release(Key::T));
    assert_eq!(debug.keys(), &vec![Key::Other(5), Key::Other(2)]);
    debug.parse_input(&release(Key::Other(9)));
    assert_eq!(debug.keys(), &vec![Key::Other(5), Key::Other(2)]);
    debug.parse_input(&release(Key::Other(5)));
    debug.parse_input(&release(Key::Other(2)));
    assert!(debug.keys().is_empty());
}

#[test]
fn a_request_to_close_ends_the_loop_and_leaves_the_keys() {
    let mut debug = voxel_mesher::debug::Debug::new();
    debug.parse_input(&press(Key::T));
    assert_eq!(on_event(&mut debug, &ViewerEvent::CloseRequested), Step::Exit);
    assert_eq!(debug.keys(), &vec![Key::T]);
}

#[test]
fn a_device_event_is_followed_before_the_frame_is_drawn() {
    let mut debug = voxel_mesher::debug::Debug::new();
    assert_eq!(
        on_event(&mut debug, &ViewerEvent::Device(press(Key::Other(4)))),
        Step::Draw(PolygonMode::Fill)
    );
    assert_eq!(
        on_event(&mut debug, &ViewerEvent::Device(press(Key::T))),
        Step::Draw(PolygonMode::Line)
    );
    assert_eq!(on_event(&mut debug, &ViewerEvent::Other), Step::Draw(PolygonMode::Line));
    assert_eq!(
        on_event(&mut debug, &ViewerEvent::Device(DeviceEvent::Other)),
        Step::Draw(PolygonMode::Line)
    );
    assert_eq!(
        on_event(&mut debug, &ViewerEvent::Device(release(Key::T))),
        Step::Draw(PolygonMode::Fill)
    );
    assert_eq!(debug.keys(), &vec![Key::Other(4)]);
}
