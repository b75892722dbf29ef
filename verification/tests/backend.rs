use razer_control_secureblue::backend::{
    check_held_device, exchange_step, probe_bho_line, probe_zone_line, select_hid_candidate,
    Backend, BackendChoice, DryRunBackend, ExchangeStep, HidCandidate, RetryState,
};
use razer_control_secureblue::protocol::{
    CrcWindow, ResponseError, ResponseStatus, ValidResponse, REPORT_LEN,
};
use razer_control_secureblue::{
    blade_14_2023, DeviceId, EcContext, FanMode, Profile, RequestedOperation, RAZER_VENDOR_ID,
};

fn blade(interface_number: i32, usage_page: u16) -> HidCandidate {
    HidCandidate {
        vendor_id: RAZER_VENDOR_ID,
        product_id: blade_14_2023().id.product_id,
        interface_number,
        usage_page,
    }
}

#[test]
fn prefers_the_expected_product_on_interface_zero() {
    let candidates = [blade(1, 0x0001), blade(0, 0x0001), blade(2, 0xff00)];
    assert_eq!(select_hid_candidate(blade_14_2023().id, &candidates), Some(1));
}

#[test]
fn falls_back_to_a_vendor_defined_usage_page() {
    let candidates = [blade(1, 0x0001), blade(2, 0xff00)];
    assert_eq!(select_hid_candidate(blade_14_2023().id, &candidates), Some(1));
}

#[test]
fn never_selects_a_razer_peripheral_instead_of_the_laptop() {
    let mouse = HidCandidate {
        vendor_id: RAZER_VENDOR_ID,
        product_id: 0x00ab,
        interface_number: 0,
        usage_page: 0x0001,
    };
    assert_eq!(select_hid_candidate(blade_14_2023().id, &[mouse]), None);
    let candidates = [mouse, blade(0, 0x0001)];
    assert_eq!(select_hid_candidate(blade_14_2023().id, &candidates), Some(1));
}

#[test]
fn backend_choice_parses_only_known_names() {
    assert_eq!(BackendChoice::parse("dry-run"), Ok(BackendChoice::DryRun));
    assert_eq!(BackendChoice::parse("hidraw"), Ok(BackendChoice::Hidraw));
    assert!(BackendChoice::parse("yolo").is_err());
}

// The refusal text, the selection edge cases and the dry run's record.

#[test]
fn backend_choice_names_the_unknown_backend() {
    assert_eq!(
        BackendChoice::parse("yolo"),
        Err(String::from(
            "unknown backend \"yolo\"; expected \"dry-run\" or \"hidraw\""
        ))
    );
    assert_eq!(
        BackendChoice::parse("say \"hi\""),
        Err(String::from(
            "unknown backend \"say \\\"hi\\\"\"; expected \"dry-run\" or \"hidraw\""
        ))
    );
}

#[test]
fn the_first_of_several_matches_wins() {
    let candidates = [blade(0, 0x0001), blade(0, 0xff00)];
    assert_eq!(select_hid_candidate(blade_14_2023().id, &candidates), Some(0));
    let vendor_pages = [blade(3, 0x0001), blade(1, 0xff01), blade(2, 0xff00)];
    assert_eq!(select_hid_candidate(blade_14_2023().id, &vendor_pages), Some(1));
    assert_eq!(select_hid_candidate(blade_14_2023().id, &[]), None);
}

#[test]
fn dry_run_records_operations_and_contexts() {
    let mut backend = DryRunBackend::default();
    assert_eq!(backend.name(), "dry-run");
    let context = EcContext { profile: Profile::Gaming, fan_manual: true };
    let operation = RequestedOperation::Fan(FanMode::Auto);
    assert_eq!(backend.apply(blade_14_2023().id, operation, context), Ok(()));
    assert_eq!(backend.applied, vec![operation]);
    assert_eq!(backend.contexts, vec![context]);
}

#[test]
fn exchange_retries_busy_once_and_malformed_once() {
    let mut state = RetryState::fresh();
    assert_eq!(exchange_step(&mut state, Ok(ValidResponse::Busy)), ExchangeStep::RetryAfterDelay);
    assert_eq!(
        exchange_step(&mut state, Err(ResponseError::Length(90))),
        ExchangeStep::RetryNow
    );
    assert_eq!(
        exchange_step(&mut state, Ok(ValidResponse::Busy)),
        ExchangeStep::Fail(String::from("EC still busy after retry"))
    );
    assert_eq!(
        exchange_step(&mut state, Err(ResponseError::Length(90))),
        ExchangeStep::Fail(String::from(
            "invalid EC response: EC response is 90 bytes, expected 91"
        ))
    );
    let mut fresh = RetryState::fresh();
    assert_eq!(
        exchange_step(&mut fresh, Err(ResponseError::Status(ResponseStatus::NotSupported))),
        ExchangeStep::Fail(String::from("EC reports this command as unsupported"))
    );
    assert_eq!(
        exchange_step(&mut fresh, Ok(ValidResponse::Success { crc_window: CrcWindow::Lineage })),
        ExchangeStep::Done(CrcWindow::Lineage)
    );
    assert_eq!(fresh, RetryState::fresh());
}

#[test]
fn a_backend_refuses_other_devices() {
    let blade = blade_14_2023().id;
    assert_eq!(check_held_device(blade, blade), Ok(()));
    assert_eq!(
        check_held_device(blade, DeviceId { vendor_id: 0x1532, product_id: 0x00ab }),
        Err(String::from("backend holds 1532:029d, not 1532:00ab"))
    );
}

#[test]
fn probe_lines_decode_the_reply_arguments() {
    let mut mode = [0u8; REPORT_LEN];
    mode[11] = 4;
    mode[12] = 1;
    let mut boost = [0u8; REPORT_LEN];
    boost[11] = 3;
    let mut setpoint = [0u8; REPORT_LEN];
    setpoint[11] = 0x36;
    assert_eq!(
        probe_zone_line("cpu", &mode, &boost, &setpoint),
        "cpu: mode=4 manual_fan=1 boost=3 fan_setpoint_rpm=5400\n"
    );
    let mut bho = [0u8; REPORT_LEN];
    bho[9] = 0xd0;
    assert_eq!(probe_bho_line(&bho), "bho: enabled=true threshold=80%");
}
