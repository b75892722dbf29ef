use razer_control_secureblue::config::{BatteryHealth, PersistedState};
use razer_control_secureblue::{BoostLevel, FanMode, LightingEffect, LogoMode, Profile};

#[test]
fn round_trips_a_full_state() {
    let state = PersistedState {
        fan: Some(FanMode::Manual(3500)),
        battery_health: BatteryHealth::Limit(80),
        fan_on_ac: Some(FanMode::Manual(4000)),
        fan_on_battery: Some(FanMode::Auto),
        profile: Some(Profile::Custom {
            cpu: BoostLevel::Boost,
            gpu: BoostLevel::High,
        }),
        kbd_brightness: Some(60),
        kbd_effect: Some(LightingEffect::Static {
            red: 0x44,
            green: 0xd6,
            blue: 0x2c,
        }),
        logo: Some(LogoMode::Breathing),
        kbd_on_ac: Some(80),
        kbd_on_battery: Some(20),
    };
    assert_eq!(PersistedState::parse(&state.render()), state);
}

#[test]
fn tolerates_garbage_and_partial_files() {
    let state = PersistedState::parse("fan=manual:oops\nnonsense\nbho=75\nfuture_key=1\n");
    assert_eq!(state.fan, None);
    assert_eq!(state.battery_health, BatteryHealth::Limit(75));
    assert_eq!(PersistedState::parse(""), PersistedState::default());
}

// Rendering, and the parser's tolerance rules.

#[test]
fn renders_one_line_per_recorded_setting() {
    let state = PersistedState {
        fan: Some(FanMode::Auto),
        battery_health: BatteryHealth::Off,
        ..PersistedState::default()
    };
    assert_eq!(state.render(), "fan=auto\nbho=off\n");
    assert_eq!(PersistedState::default().render(), "\n");
}

#[test]
fn parse_trims_lines_and_accepts_crlf() {
    let state = PersistedState::parse("  fan=manual:2500  \r\nlogo=static\r\nkbd_on_ac=300\n");
    assert_eq!(state.fan, Some(FanMode::Manual(2500)));
    assert_eq!(state.logo, Some(LogoMode::Static));
    assert_eq!(state.kbd_on_ac, None);
}

#[test]
fn later_lines_win_and_bad_values_clear() {
    let state = PersistedState::parse("bho=70\nbho=off\nprofile=gaming\nprofile=warp\n");
    assert_eq!(state.battery_health, BatteryHealth::Off);
    assert_eq!(state.profile, None);
    let garbage = PersistedState::parse("bho=lots\n");
    assert_eq!(garbage.battery_health, BatteryHealth::Unset);
}

#[test]
fn round_trips_an_empty_state() {
    let state = PersistedState::default();
    assert_eq!(PersistedState::parse(&state.render()), state);
}
