use razer_control_secureblue::backend::BackendChoice;
use razer_control_secureblue::cli::{
    current_supported_device, device_report, parse_backend_flag, parse_device, parse_hex,
    validate_command,
};
use razer_control_secureblue::DeviceId;

fn args(values: &[&str]) -> Vec<String> {
    values.iter().map(|v| v.to_string()).collect()
}

#[test]
fn usb_ids_are_read_in_hexadecimal() {
    assert_eq!(parse_hex("1532"), Ok(0x1532));
    assert_eq!(parse_hex("0x029d"), Ok(0x029d));
    assert_eq!(parse_hex("0x0x10"), Ok(0x10));
    assert_eq!(parse_hex("+ff"), Ok(0xff));
    assert_eq!(parse_hex("FFFF"), Ok(0xffff));
    assert_eq!(
        parse_hex("10000"),
        Err(String::from("\"10000\" is not a valid hexadecimal USB ID"))
    );
    assert_eq!(
        parse_hex("0x"),
        Err(String::from("\"0x\" is not a valid hexadecimal USB ID"))
    );
    assert!(parse_hex("12g4").is_err());
}

#[test]
fn device_arguments_make_a_usb_id() {
    assert_eq!(
        parse_device(&args(&["1532", "029d"])),
        Ok(DeviceId { vendor_id: 0x1532, product_id: 0x029d })
    );
    assert_eq!(
        parse_device(&args(&["1532"])),
        Err(String::from("expected <vendor-hex> <product-hex>"))
    );
    assert_eq!(
        parse_device(&args(&["zz", "yy"])),
        Err(String::from("\"zz\" is not a valid hexadecimal USB ID"))
    );
}

#[test]
fn device_report_states_support_and_ranges() {
    assert_eq!(
        device_report(current_supported_device()),
        "supported: Razer Blade 14 (2023) (1532:029d); fan 2000\u{2013}5400 RPM; BHO=true; boost=true"
    );
    assert_eq!(
        device_report(DeviceId { vendor_id: 0x1532, product_id: 0x00ab }),
        "unsupported: 1532:00ab"
    );
}

#[test]
fn validate_reports_the_policy_verdict() {
    let accepted = Ok(String::from(
        "accepted by safety policy; no hardware command was sent",
    ));
    assert_eq!(validate_command(&["bho", "80"]), accepted);
    assert_eq!(validate_command(&["fan", "manual", "3000"]), accepted);
    assert_eq!(
        validate_command(&["profile", "gaming"]),
        Err(String::from(
            "performance profiles is experimental and requires explicit opt-in"
        ))
    );
    assert_eq!(validate_command(&["profile", "--experimental", "gaming"]), accepted);
    assert_eq!(
        validate_command(&["bho", "81"]),
        Err(String::from(
            "battery health limit 81% is invalid; choose a value from 50% through 80%"
        ))
    );
    assert_eq!(
        validate_command(&["reboot"]),
        Err(String::from("unknown request \"reboot\""))
    );
}

#[test]
fn backend_flag_defaults_to_the_dry_run() {
    assert_eq!(parse_backend_flag(&args(&["--experimental"])), Ok(BackendChoice::DryRun));
    assert_eq!(
        parse_backend_flag(&args(&["--backend", "hidraw"])),
        Ok(BackendChoice::Hidraw)
    );
    assert_eq!(
        parse_backend_flag(&args(&["--backend"])),
        Err(String::from("--backend requires a value: dry-run or hidraw"))
    );
    assert_eq!(
        parse_backend_flag(&args(&["--backend", "yolo", "--backend", "hidraw"])),
        Err(String::from(
            "unknown backend \"yolo\"; expected \"dry-run\" or \"hidraw\""
        ))
    );
}
