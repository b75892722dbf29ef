use razer_control_secureblue::ipc::{
    describe_boost_level, describe_effect, describe_fan_mode, describe_logo, describe_profile,
    parse_boost_level, parse_effect, parse_logo, parse_operation, parse_profile, parse_request,
    parse_rgb, Request,
};
use razer_control_secureblue::{
    BoostLevel, FanMode, LightingEffect, LogoMode, Profile, RequestedOperation,
};

#[test]
fn parses_profile_operations() {
    assert_eq!(
        parse_request("profile gaming"),
        Ok(Request::Operation(RequestedOperation::Profile(Profile::Gaming)))
    );
    assert_eq!(
        parse_request("profile custom cpu boost gpu high"),
        Ok(Request::Operation(RequestedOperation::Profile(Profile::Custom {
            cpu: BoostLevel::Boost,
            gpu: BoostLevel::High,
        })))
    );
    assert!(parse_request("profile custom cpu warp gpu high").is_err());
    assert!(parse_request("profile ludicrous").is_err());
}

#[test]
fn profile_descriptions_round_trip() {
    for profile in [
        Profile::Silent,
        Profile::Balanced,
        Profile::Gaming,
        Profile::Custom {
            cpu: BoostLevel::Boost,
            gpu: BoostLevel::Low,
        },
    ] {
        assert_eq!(parse_profile(&describe_profile(profile)), Some(profile));
    }
    assert_eq!(parse_profile("custom:cpu=warp,gpu=low"), None);
    assert_eq!(parse_profile("garbage"), None);
}

#[test]
fn parses_lighting_operations() {
    assert_eq!(
        parse_request("kbd brightness 60"),
        Ok(Request::Operation(RequestedOperation::KeyboardBrightness(60)))
    );
    assert_eq!(
        parse_request("kbd effect static 44d62c"),
        Ok(Request::Operation(RequestedOperation::KeyboardEffect(
            LightingEffect::Static {
                red: 0x44,
                green: 0xd6,
                blue: 0x2c
            }
        )))
    );
    assert_eq!(
        parse_request("logo breathing"),
        Ok(Request::Operation(RequestedOperation::Logo(LogoMode::Breathing)))
    );
    assert_eq!(
        parse_request("kbd-automation battery 30"),
        Ok(Request::KbdAutomation {
            on_ac: false,
            brightness: Some(30)
        })
    );
    assert_eq!(
        parse_request("kbd-automation ac off"),
        Ok(Request::KbdAutomation {
            on_ac: true,
            brightness: None
        })
    );
    assert!(parse_request("kbd effect static zzzzzz").is_err());
    assert!(parse_request("kbd effect disco").is_err());
    assert!(parse_request("logo rainbow").is_err());
}

#[test]
fn lighting_descriptions_round_trip() {
    for effect in [
        LightingEffect::Off,
        LightingEffect::Spectrum,
        LightingEffect::Wave,
        LightingEffect::Static {
            red: 0x44,
            green: 0xd6,
            blue: 0x2c,
        },
    ] {
        assert_eq!(parse_effect(&describe_effect(effect)), Some(effect));
    }
    for mode in [LogoMode::Off, LogoMode::Static, LogoMode::Breathing] {
        assert_eq!(parse_logo(describe_logo(mode)), Some(mode));
    }
}

#[test]
fn parses_safe_operations() {
    assert_eq!(
        parse_request("fan auto"),
        Ok(Request::Operation(RequestedOperation::Fan(FanMode::Auto)))
    );
    assert_eq!(
        parse_request("  fan   manual  3000 "),
        Ok(Request::Operation(RequestedOperation::Fan(FanMode::Manual(3000))))
    );
    assert_eq!(
        parse_request("bho 75"),
        Ok(Request::Operation(RequestedOperation::BatteryHealthLimit(75)))
    );
    assert_eq!(
        parse_request("bho off"),
        Ok(Request::Operation(RequestedOperation::BatteryHealthOff))
    );
}

#[test]
fn parses_control_requests() {
    assert_eq!(parse_request("ping"), Ok(Request::Ping));
    assert_eq!(parse_request("status"), Ok(Request::Status));
    assert_eq!(parse_request("telemetry"), Ok(Request::Telemetry));
    assert_eq!(parse_request("sysinfo"), Ok(Request::SysInfo));
}

#[test]
fn parses_automation_rules() {
    assert_eq!(
        parse_request("automation ac fan manual 4000"),
        Ok(Request::Automation {
            on_ac: true,
            fan: Some(FanMode::Manual(4000))
        })
    );
    assert_eq!(
        parse_request("automation battery fan auto"),
        Ok(Request::Automation {
            on_ac: false,
            fan: Some(FanMode::Auto)
        })
    );
    assert_eq!(
        parse_request("automation ac off"),
        Ok(Request::Automation {
            on_ac: true,
            fan: None
        })
    );
    assert!(parse_request("automation solar fan auto").is_err());
    assert!(parse_request("automation ac fan manual soon").is_err());
}

#[test]
fn rejects_garbage_without_panicking() {
    assert!(parse_request("").is_err());
    assert!(parse_request("fan manual very-fast").is_err());
    assert!(parse_request("reboot now").is_err());
}

// Error texts and the smaller parsers.

#[test]
fn request_errors_carry_the_documented_text() {
    assert_eq!(
        parse_request("reboot now"),
        Err(String::from("unknown request \"reboot now\""))
    );
    assert_eq!(
        parse_request("fan manual very-fast"),
        Err(String::from("fan RPM must be an integer"))
    );
    assert_eq!(
        parse_request("automation solar fan auto"),
        Err(String::from("unknown power source \"solar\""))
    );
    assert_eq!(
        parse_request("automation ac fan"),
        Err(String::from(
            "expected: automation <ac|battery> <off|fan auto|fan manual <rpm>>"
        ))
    );
    assert_eq!(
        parse_request("kbd-automation ac 300"),
        Err(String::from("expected: kbd-automation <ac|battery> <0-100|off>"))
    );
    assert_eq!(
        parse_request("bho lots"),
        Err(String::from("battery health limit must be an integer"))
    );
    assert_eq!(
        parse_request("profile custom cpu warp gpu high"),
        Err(String::from(
            "unknown boost level \"warp\"; expected low, medium, high, or boost"
        ))
    );
    assert_eq!(
        parse_request("logo rainbow"),
        Err(String::from("expected: logo <off|static|breathing>"))
    );
    assert_eq!(
        parse_request("kbd effect static zzzzzz"),
        Err(String::from("expected: kbd effect static <rrggbb>"))
    );
}

#[test]
fn parse_operation_takes_tokens() {
    assert_eq!(
        parse_operation(&["fan", "manual", "2500"]),
        Ok(RequestedOperation::Fan(FanMode::Manual(2500)))
    );
    assert!(parse_operation(&["fan", "manual", "70000"]).is_err());
    assert_eq!(
        parse_operation(&["kbd", "effect", "wave"]),
        Ok(RequestedOperation::KeyboardEffect(LightingEffect::Wave))
    );
}

#[test]
fn rgb_and_levels_parse_exactly() {
    assert_eq!(parse_rgb("44d62c"), Some((0x44, 0xd6, 0x2c)));
    assert_eq!(parse_rgb("44D62C"), Some((0x44, 0xd6, 0x2c)));
    assert_eq!(parse_rgb("44d62"), None);
    assert_eq!(parse_rgb("+4d62c"), None);
    assert_eq!(parse_rgb("+1+2+3"), None);
    assert_eq!(parse_rgb("-4d62c"), None);
    assert_eq!(parse_boost_level("medium"), Ok(BoostLevel::Medium));
    assert_eq!(describe_boost_level(BoostLevel::High), "high");
    assert_eq!(describe_fan_mode(FanMode::Manual(3000)), "manual:3000");
    assert_eq!(describe_fan_mode(FanMode::Auto), "auto");
    assert_eq!(
        describe_effect(LightingEffect::Static { red: 1, green: 0xab, blue: 0 }),
        "static:01ab00"
    );
    assert_eq!(
        describe_profile(Profile::Custom { cpu: BoostLevel::Boost, gpu: BoostLevel::Low }),
        "custom:cpu=boost,gpu=low"
    );
}

#[test]
fn request_lines_read_as_the_operations_of_their_words() {
    for words in [
        vec!["fan", "manual", "3000"],
        vec!["profile", "custom", "cpu", "boost", "gpu", "low"],
        vec!["kbd", "effect", "static", "44d62c"],
        vec!["kbd", "effect", "static", "+1+2+3"],
        vec!["bho", "eighty"],
        vec!["frobnicate", "now"],
    ] {
        assert_eq!(
            parse_request(&words.join(" ")),
            parse_operation(&words).map(Request::Operation)
        );
    }
}
