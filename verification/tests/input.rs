use hyperbeam_launcher::config::{get_config, Config};
use hyperbeam_launcher::input::{
    get_button, get_button_down, get_button_repeat, get_button_up, Button, PadState,
};

fn pad(down: u32, up: u32, held: u32, repeat: u32) -> PadState {
    PadState { down, up, held, repeat }
}

#[test]
fn button_masks_are_the_pad_bits() {
    assert_eq!(Button::A.mask(), 1);
    assert_eq!(Button::B.mask(), 2);
    assert_eq!(Button::Select.mask(), 4);
    assert_eq!(Button::Start.mask(), 8);
    assert_eq!(Button::Right.mask(), 16);
    assert_eq!(Button::Left.mask(), 32);
    assert_eq!(Button::Up.mask(), 64);
    assert_eq!(Button::Down.mask(), 128);
    assert_eq!(Button::R.mask(), 256);
    assert_eq!(Button::L.mask(), 512);
    assert_eq!(Button::X.mask(), 1024);
    assert_eq!(Button::Y.mask(), 2028);
    assert_eq!(Button::ZR.mask(), 4096);
    assert_eq!(Button::ZL.mask(), 8192);
    assert_eq!(Button::SR.mask(), 16384);
    assert_eq!(Button::SL.mask(), 32768);
    assert_eq!(Button::All.mask(), 65535);
    assert_eq!(Button::AutoWalkCancel.mask(), 53247);
    assert_eq!(Button::Dir.mask(), 240);
    assert_eq!(Button::UpR.mask(), 262144);
    assert_eq!(Button::DownR.mask(), 524288);
    assert_eq!(Button::ShortcutRight.mask(), 1048576);
    assert_eq!(Button::ShortcutLeft.mask(), 2097152);
    assert_eq!(Button::ShortcutUp.mask(), 4194304);
    assert_eq!(Button::ShortcutDown.mask(), 8388608);
}

#[test]
fn each_query_reads_its_own_pad_word() {
    let state = pad(1, 2, 32, 16);
    assert!(get_button_down(&state, Button::A));
    assert!(!get_button_down(&state, Button::B));
    assert!(get_button_up(&state, Button::B));
    assert!(!get_button_up(&state, Button::A));
    assert!(get_button(&state, Button::Left));
    assert!(!get_button(&state, Button::Right));
    assert!(get_button_repeat(&state, Button::Right));
    assert!(!get_button_repeat(&state, Button::Left));
}

#[test]
fn a_group_is_pressed_when_any_of_its_buttons_is() {
    let state = pad(0, 0, 64, 0);
    assert!(get_button(&state, Button::Dir));
    assert!(get_button(&state, Button::All));
    assert!(get_button(&state, Button::Up));
    assert!(!get_button(&state, Button::Down));
    let idle = pad(0, 0, 0, 0);
    assert!(!get_button(&idle, Button::All));
}

#[test]
fn config_that_was_read_is_kept() {
    let read = Config { auto_launch: Some(String::from("vanilla")) };
    let config = get_config(Ok(read.clone()));
    assert_eq!(config, read);
}

#[test]
fn config_falls_back_to_default_when_reading_failed() {
    let config = get_config(Err(String::from("no such file")));
    assert_eq!(config.auto_launch, None);
    assert_eq!(Config::default().auto_launch, None);
}
