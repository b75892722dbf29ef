use razer_control_secureblue::{
    blade_14_2023, blade_14_2023_udev_rule, find_device, runtime_directory, validate_operation,
    BoostLevel, DeviceId, FanMode, LightingEffect, LogoMode, PolicyError, Profile,
    RequestedOperation, BLADE_14_2023_PRODUCT_ID, RAZER_VENDOR_ID,
};

const DEVICE: DeviceId = DeviceId {
    vendor_id: RAZER_VENDOR_ID,
    product_id: BLADE_14_2023_PRODUCT_ID,
};

#[test]
fn recognises_blade_14_2023() {
    assert_eq!(find_device(DEVICE), Some(blade_14_2023()));
}

#[test]
fn rejects_unknown_hardware_before_any_write_layer() {
    let unknown = DeviceId {
        vendor_id: RAZER_VENDOR_ID,
        product_id: 0xffff,
    };
    assert!(matches!(
        validate_operation(unknown, RequestedOperation::Fan(FanMode::Auto), false),
        Err(PolicyError::UnsupportedDevice(_))
    ));
}

#[test]
fn allows_auto_fan_and_verified_manual_range() {
    assert!(validate_operation(DEVICE, RequestedOperation::Fan(FanMode::Auto), false).is_ok());
    assert!(
        validate_operation(DEVICE, RequestedOperation::Fan(FanMode::Manual(2000)), false).is_ok()
    );
    assert!(
        validate_operation(DEVICE, RequestedOperation::Fan(FanMode::Manual(5400)), false).is_ok()
    );
}

#[test]
fn rejects_manual_fans_outside_the_verified_range() {
    assert!(matches!(
        validate_operation(DEVICE, RequestedOperation::Fan(FanMode::Manual(1999)), false),
        Err(PolicyError::FanOutOfRange { .. })
    ));
    assert!(matches!(
        validate_operation(DEVICE, RequestedOperation::Fan(FanMode::Manual(5401)), false),
        Err(PolicyError::FanOutOfRange { .. })
    ));
}

#[test]
fn enforces_razer_battery_health_limits() {
    assert!(validate_operation(DEVICE, RequestedOperation::BatteryHealthLimit(50), false).is_ok());
    assert!(validate_operation(DEVICE, RequestedOperation::BatteryHealthLimit(80), false).is_ok());
    assert!(matches!(
        validate_operation(DEVICE, RequestedOperation::BatteryHealthLimit(81), false),
        Err(PolicyError::InvalidChargeLimit(81))
    ));
}

#[test]
fn keeps_performance_profiles_experimental() {
    assert!(matches!(
        validate_operation(DEVICE, RequestedOperation::Profile(Profile::Gaming), false),
        Err(PolicyError::ExperimentalFeatureDisabled(_))
    ));
    assert!(validate_operation(DEVICE, RequestedOperation::Profile(Profile::Gaming), true).is_ok());
    assert!(validate_operation(DEVICE, RequestedOperation::Profile(Profile::Silent), true).is_ok());
}

#[test]
fn custom_profile_boost_levels_follow_the_device_table() {
    let custom = |cpu, gpu| RequestedOperation::Profile(Profile::Custom { cpu, gpu });
    assert!(validate_operation(DEVICE, custom(BoostLevel::Boost, BoostLevel::High), true).is_ok());
    assert!(matches!(
        validate_operation(DEVICE, custom(BoostLevel::Low, BoostLevel::Boost), true),
        Err(PolicyError::FeatureUnsupported(_))
    ));
}

#[test]
fn keeps_lighting_experimental_and_validates_ranges() {
    assert!(matches!(
        validate_operation(DEVICE, RequestedOperation::KeyboardBrightness(50), false),
        Err(PolicyError::ExperimentalFeatureDisabled(_))
    ));
    assert!(validate_operation(DEVICE, RequestedOperation::KeyboardBrightness(50), true).is_ok());
    assert!(matches!(
        validate_operation(DEVICE, RequestedOperation::KeyboardBrightness(101), true),
        Err(PolicyError::InvalidBrightness(101))
    ));
    assert!(validate_operation(
        DEVICE,
        RequestedOperation::KeyboardEffect(LightingEffect::Spectrum),
        true
    )
    .is_ok());
    assert!(validate_operation(DEVICE, RequestedOperation::Logo(LogoMode::Breathing), true).is_ok());
}

#[test]
fn uses_the_user_runtime_directory_not_tmp() {
    assert_eq!(
        runtime_directory(Some("/run/user/1000")),
        Some(String::from("/run/user/1000/razer-control"))
    );
    assert_eq!(runtime_directory(None), None);
}

#[test]
fn udev_rule_never_grants_world_write_access() {
    let rule = blade_14_2023_udev_rule();
    assert!(rule.contains("TAG+=\"uaccess\""));
    assert!(!rule.contains("MODE="));
    assert!(!rule.contains("0666"));
}

// Further cases of the policy and its messages.

#[test]
fn runtime_directory_keeps_a_trailing_separator_and_an_empty_base() {
    assert_eq!(
        runtime_directory(Some("/run/user/7/")),
        Some(String::from("/run/user/7/razer-control"))
    );
    assert_eq!(runtime_directory(Some("")), Some(String::from("razer-control")));
}

#[test]
fn policy_messages_match_the_refusal() {
    let unknown = DeviceId { vendor_id: 0x1532, product_id: 0x00ab };
    assert_eq!(
        PolicyError::UnsupportedDevice(unknown).message(),
        "unsupported device 1532:00ab; refusing to send a hardware command"
    );
    let range = blade_14_2023().fan_range;
    assert_eq!(
        PolicyError::FanOutOfRange { requested: 9000, range }.message(),
        "manual fan speed 9000 RPM is outside the verified 2000\u{2013}5400 RPM range"
    );
    assert_eq!(
        PolicyError::InvalidChargeLimit(100).message(),
        "battery health limit 100% is invalid; choose a value from 50% through 80%"
    );
    assert_eq!(
        PolicyError::InvalidBrightness(101).message(),
        "brightness 101% is invalid; choose 0% through 100%"
    );
    assert_eq!(
        PolicyError::FeatureUnsupported("logo LED").message(),
        "logo LED is not supported on this device"
    );
    assert_eq!(
        PolicyError::ExperimentalFeatureDisabled("performance profiles").message(),
        "performance profiles is experimental and requires explicit opt-in"
    );
}

#[test]
fn every_policy_error_has_an_input() {
    assert!(matches!(
        validate_operation(DEVICE, RequestedOperation::BatteryHealthLimit(49), false),
        Err(PolicyError::InvalidChargeLimit(49))
    ));
    assert_eq!(
        validate_operation(DEVICE, RequestedOperation::Logo(LogoMode::Off), false),
        Err(PolicyError::ExperimentalFeatureDisabled("logo lighting"))
    );
    assert_eq!(
        validate_operation(DEVICE, RequestedOperation::KeyboardEffect(LightingEffect::Wave), false),
        Err(PolicyError::ExperimentalFeatureDisabled("keyboard lighting"))
    );
    assert!(validate_operation(DEVICE, RequestedOperation::BatteryHealthOff, false).is_ok());
}

#[test]
fn profile_and_boost_wire_values() {
    assert_eq!(BoostLevel::Boost.wire_value(), 3);
    assert_eq!(Profile::Silent.mode_wire_value(), 4);
    assert_eq!(Profile::Gaming.mode_wire_value(), 1);
    assert_eq!(Profile::Silent.boosts(), Some((BoostLevel::Low, BoostLevel::Low)));
    assert_eq!(Profile::Balanced.boosts(), None);
}
