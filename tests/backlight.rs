use keyboard_configurator::backlight::{
    apply_brightness, apply_mode, color_applicable, led_index_of, Backlight, Mode,
};
use keyboard_configurator::board::BoardCommand;
use keyboard_configurator::layout::LayoutMeta;

const ALL_MODES: [Mode; 14] = [
    Mode::SolidColor,
    Mode::PerKey,
    Mode::CycleAll,
    Mode::CycleLeftRight,
    Mode::CycleUpDown,
    Mode::CycleOutIn,
    Mode::CycleOutInDual,
    Mode::RainbowMovingChevron,
    Mode::CyclePinwheel,
    Mode::CycleSpiral,
    Mode::Raindrops,
    Mode::Splash,
    Mode::Multisplash,
    Mode::ActiveKeys,
];

fn per_layer(num_layers: u8) -> LayoutMeta {
    LayoutMeta { has_mode: true, has_per_layer: true, num_layers }
}

fn global() -> LayoutMeta {
    LayoutMeta { has_mode: false, has_per_layer: false, num_layers: 2 }
}

fn backlight() -> Backlight {
    Backlight::new(per_layer(2), vec![vec![7, 8], vec![]], Some((2, 50)), Some(80))
}

#[test]
fn apply_mode_per_key() {
    assert_eq!(apply_mode(1, "PER_KEY", 10), Some(BoardCommand::SetMode { layer: 1, mode: 1, speed: 10 }));
}

#[test]
fn apply_mode_unknown_id_issues_nothing() {
    assert_eq!(apply_mode(0, "NOT_A_MODE", 10), None);
    assert_eq!(apply_mode(0, "", 10), None);
    assert_eq!(apply_mode(0, "per_key", 10), None);
}

#[test]
fn mode_catalogue_positions() {
    for (i, m) in ALL_MODES.iter().enumerate() {
        assert_eq!(m.index() as usize, i);
        assert_eq!(Mode::from_index(i as u8), Some(*m));
        assert_eq!(Mode::from_id(m.id()), Some(*m));
    }
    assert_eq!(Mode::from_index(14), None);
    assert_eq!(Mode::ActiveKeys.id(), "ACTIVE_KEYS");
    assert_eq!(Mode::from_id("RAINBOW_MOVING_CHEVRON"), Some(Mode::RainbowMovingChevron));
}

#[test]
fn color_applies_in_three_modes() {
    for m in ALL_MODES.iter() {
        let expected = matches!(m, Mode::SolidColor | Mode::PerKey | Mode::ActiveKeys);
        assert_eq!(color_applicable(Some(*m)), expected);
    }
    assert!(!color_applicable(None));
}

#[test]
fn exactly_one_color_control_visible() {
    let mut b = backlight();
    for m in ALL_MODES.iter() {
        b.set_mode(Some(*m));
        assert_ne!(b.color_visible(), b.saturation_visible());
        assert_eq!(b.color_visible(), color_applicable(Some(*m)));
    }
}

#[test]
fn brightness_fans_out_to_every_layer() {
    let w = apply_brightness(per_layer(3), 42);
    assert_eq!(
        w,
        vec![
            BoardCommand::SetBrightness { led: 0xf0, value: 42 },
            BoardCommand::SetBrightness { led: 0xf1, value: 42 },
            BoardCommand::SetBrightness { led: 0xf2, value: 42 },
        ]
    );
    assert_eq!(apply_brightness(per_layer(15), 1).len(), 15);
    assert_eq!(apply_brightness(per_layer(15), 1)[14], BoardCommand::SetBrightness { led: 0xfe, value: 1 });
}

#[test]
fn brightness_global_board_single_write() {
    assert_eq!(apply_brightness(global(), 7), vec![BoardCommand::SetBrightness { led: 0xff, value: 7 }]);
    let mut b = Backlight::new(global(), vec![], None, None);
    assert_eq!(b.set_brightness(9), vec![BoardCommand::SetBrightness { led: 0xff, value: 9 }]);
}

#[test]
fn set_brightness_writes_all_layers() {
    let mut b = backlight();
    let w = b.set_brightness(60);
    assert_eq!(
        w,
        vec![
            BoardCommand::SetBrightness { led: 0xf0, value: 60 },
            BoardCommand::SetBrightness { led: 0xf1, value: 60 },
        ]
    );
    assert_eq!(b.brightness(), 60);
}

#[test]
fn led_index_addressing() {
    assert_eq!(led_index_of(per_layer(4), 3), 0xf3);
    assert_eq!(led_index_of(global(), 1), 0xff);
}

#[test]
fn new_shows_layer_zero_as_read() {
    let b = backlight();
    assert_eq!(b.layer(), 0);
    assert_eq!(b.mode(), Some("CYCLE_ALL".to_string()));
    assert_eq!(b.speed(), 50);
    assert_eq!(b.brightness(), 80);
    assert_eq!(b.color_target(), (0xf0, true));
}

#[test]
fn refresh_issues_no_writes() {
    let mut b = backlight();
    let w = b.set_layer(1, Some((1, 200)), Some(33));
    assert!(w.is_empty());
    assert_eq!(b.layer(), 1);
    assert_eq!(b.mode(), Some("PER_KEY".to_string()));
    assert_eq!(b.speed(), 200);
    assert_eq!(b.brightness(), 33);
    assert_eq!(b.led_index(), 0xf1);
    // After the refresh the guard is released: changes write again.
    assert_eq!(b.set_speed(5), vec![BoardCommand::SetMode { layer: 1, mode: 1, speed: 5 }]);
}

#[test]
fn refresh_falls_back_on_failed_reads() {
    let mut b = backlight();
    assert!(b.set_layer(1, None, None).is_empty());
    assert_eq!(b.mode(), Some("SOLID_COLOR".to_string()));
    assert_eq!(b.speed(), 128);
    assert_eq!(b.brightness(), 0);
    // A mode number past the catalogue shows no mode.
    assert!(b.set_layer(0, Some((99, 1)), Some(5)).is_empty());
    assert_eq!(b.mode(), None);
}

#[test]
fn refresh_ignores_mode_on_board_without_modes() {
    let mut b = Backlight::new(global(), vec![], Some((5, 5)), Some(1));
    assert_eq!(b.mode(), Some("SOLID_COLOR".to_string()));
    assert_eq!(b.speed(), 128);
    assert!(b.set_layer(1, Some((3, 3)), None).is_empty());
    assert_eq!(b.speed(), 128);
}

#[test]
fn set_mode_writes_mode_of_layer() {
    let mut b = backlight();
    let w = b.set_mode(Some(Mode::Splash));
    assert_eq!(w, vec![BoardCommand::SetMode { layer: 0, mode: 11, speed: 50 }]);
    assert!(b.set_mode(None).is_empty());
}

#[test]
fn per_key_color_follows_selection() {
    let mut b = backlight();
    b.set_mode(Some(Mode::PerKey));
    assert_eq!(b.color_target(), (0xf0, false));
    b.set_selected(Some(0));
    assert_eq!(b.color_target(), (7, true));
    b.set_selected(Some(1));
    assert_eq!(b.color_target(), (7, false));
    b.set_mode(Some(Mode::SolidColor));
    assert_eq!(b.color_target(), (0xf0, true));
}

#[test]
fn saturation_writes_color_of_layer_led() {
    let mut b = backlight();
    b.set_layer(1, None, None);
    let w = b.set_saturation(40);
    assert_eq!(w, vec![BoardCommand::SetColor { led: 0xf1, hue: 0, saturation: 40 }]);
}
