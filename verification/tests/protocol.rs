use razer_control_secureblue::protocol::{
    crc, decode_battery_health, get_battery_health, get_boost, get_fan_setpoint,
    get_keyboard_brightness, get_power_mode, operation_packets, response_status,
    validate_response, CrcWindow, Packet, ResponseError, ResponseStatus, ValidResponse, Zone,
    REPORT_LEN,
};
use razer_control_secureblue::{
    BoostLevel, EcContext, FanMode, LightingEffect, LogoMode, Profile, RequestedOperation,
};

/// The expected wire buffer written out from first principles.
fn golden(class: u8, id: u8, size: u8, args: &[u8], crc_literal: u8) -> [u8; REPORT_LEN] {
    let mut buf = [0u8; REPORT_LEN];
    buf[2] = 0x1f;
    buf[6] = size;
    buf[7] = class;
    buf[8] = id;
    buf[9..9 + args.len()].copy_from_slice(args);
    buf[89] = crc_literal;
    buf
}

fn balanced() -> EcContext {
    EcContext::default()
}

/// A successful response frame for `request`: the echoed request with the
/// status set and the given checksum.
fn golden_ok_response(request: &Packet, crc_literal: u8) -> [u8; REPORT_LEN] {
    let mut buf = request.to_feature_report();
    buf[1] = 0x02;
    buf[89] = crc_literal;
    buf
}

fn reports(packets: &[Packet]) -> Vec<[u8; REPORT_LEN]> {
    packets.iter().map(Packet::to_feature_report).collect()
}

#[test]
fn fan_auto_reverts_both_zones() {
    let packets = operation_packets(RequestedOperation::Fan(FanMode::Auto), balanced());
    assert_eq!(
        reports(&packets),
        vec![
            golden(0x0d, 0x02, 0x04, &[0x00, 0x01, 0x00, 0x00], 0x15),
            golden(0x0d, 0x02, 0x04, &[0x00, 0x02, 0x00, 0x00], 0x16),
        ]
    );
}

#[test]
fn fan_manual_3000_rpm_flips_both_zones_manual_before_any_rpm_write() {
    let packets = operation_packets(RequestedOperation::Fan(FanMode::Manual(3000)), balanced());
    assert_eq!(
        reports(&packets),
        vec![
            golden(0x0d, 0x02, 0x04, &[0x00, 0x01, 0x00, 0x01], 0x14),
            golden(0x0d, 0x02, 0x04, &[0x00, 0x02, 0x00, 0x01], 0x17),
            golden(0x0d, 0x01, 0x03, &[0x00, 0x01, 0x1e], 0x0f),
            golden(0x0d, 0x01, 0x03, &[0x00, 0x02, 0x1e], 0x0c),
        ]
    );
}

#[test]
fn fan_operations_preserve_the_active_profile_mode_byte() {
    let gaming = EcContext {
        profile: Profile::Gaming,
        fan_manual: false,
    };
    let packets = operation_packets(RequestedOperation::Fan(FanMode::Auto), gaming);
    assert_eq!(
        reports(&packets),
        vec![
            golden(0x0d, 0x02, 0x04, &[0x00, 0x01, 0x01, 0x00], 0x14),
            golden(0x0d, 0x02, 0x04, &[0x00, 0x02, 0x01, 0x00], 0x17),
        ]
    );
}

#[test]
fn fan_rpm_is_sent_in_hundreds_at_the_verified_range_edges() {
    let low = operation_packets(RequestedOperation::Fan(FanMode::Manual(2000)), balanced());
    let high = operation_packets(RequestedOperation::Fan(FanMode::Manual(5400)), balanced());
    assert_eq!(low[2].to_feature_report()[11], 0x14);
    assert_eq!(high[2].to_feature_report()[11], 0x36);
}

#[test]
fn gaming_profile_sets_mode_1_on_both_zones_and_no_boost_packets() {
    let packets = operation_packets(RequestedOperation::Profile(Profile::Gaming), balanced());
    assert_eq!(
        reports(&packets),
        vec![
            golden(0x0d, 0x02, 0x04, &[0x00, 0x01, 0x01, 0x00], 0x14),
            golden(0x0d, 0x02, 0x04, &[0x00, 0x02, 0x01, 0x00], 0x17),
        ]
    );
}

#[test]
fn silent_profile_is_custom_mode_with_both_boosts_low() {
    let packets = operation_packets(RequestedOperation::Profile(Profile::Silent), balanced());
    assert_eq!(
        reports(&packets),
        vec![
            golden(0x0d, 0x02, 0x04, &[0x00, 0x01, 0x04, 0x00], 0x11),
            golden(0x0d, 0x02, 0x04, &[0x00, 0x02, 0x04, 0x00], 0x12),
            golden(0x0d, 0x07, 0x03, &[0x00, 0x01, 0x00], 0x17),
            golden(0x0d, 0x07, 0x03, &[0x00, 0x02, 0x00], 0x14),
        ]
    );
}

#[test]
fn custom_profile_writes_mode_4_then_each_zone_boost() {
    let custom = RequestedOperation::Profile(Profile::Custom {
        cpu: BoostLevel::Boost,
        gpu: BoostLevel::High,
    });
    let packets = operation_packets(custom, balanced());
    assert_eq!(
        reports(&packets),
        vec![
            golden(0x0d, 0x02, 0x04, &[0x00, 0x01, 0x04, 0x00], 0x11),
            golden(0x0d, 0x02, 0x04, &[0x00, 0x02, 0x04, 0x00], 0x12),
            golden(0x0d, 0x07, 0x03, &[0x00, 0x01, 0x03], 0x14),
            golden(0x0d, 0x07, 0x03, &[0x00, 0x02, 0x02], 0x16),
        ]
    );
}

#[test]
fn profile_packets_preserve_the_manual_fan_flag() {
    let manual_fans = EcContext {
        profile: Profile::Balanced,
        fan_manual: true,
    };
    let packets = operation_packets(RequestedOperation::Profile(Profile::Gaming), manual_fans);
    assert_eq!(packets[0].to_feature_report()[12], 0x01);
    assert_eq!(packets[1].to_feature_report()[12], 0x01);
}

#[test]
fn perf_query_packets_use_the_read_command_ids() {
    assert_eq!(
        get_power_mode(Zone::Cpu).to_feature_report(),
        golden(0x0d, 0x82, 0x04, &[0x00, 0x01], 0x95)
    );
    assert_eq!(
        get_boost(Zone::Gpu).to_feature_report(),
        golden(0x0d, 0x87, 0x03, &[0x00, 0x02], 0x94)
    );
    assert_eq!(
        get_fan_setpoint(Zone::Cpu).to_feature_report(),
        golden(0x0d, 0x81, 0x03, &[0x00, 0x01], 0x91)
    );
}

#[test]
fn keyboard_brightness_scales_percent_to_wire_range() {
    let half = operation_packets(RequestedOperation::KeyboardBrightness(50), balanced());
    assert_eq!(
        reports(&half),
        vec![golden(0x03, 0x03, 0x03, &[0x01, 0x05, 0x7f], 0x67)]
    );
    let full = operation_packets(RequestedOperation::KeyboardBrightness(100), balanced());
    assert_eq!(full[0].to_feature_report()[11], 0xff);
    let off = operation_packets(RequestedOperation::KeyboardBrightness(0), balanced());
    assert_eq!(off[0].to_feature_report()[11], 0x00);
}

#[test]
fn keyboard_brightness_query_uses_the_read_command_id() {
    assert_eq!(
        get_keyboard_brightness().to_feature_report(),
        golden(0x03, 0x83, 0x03, &[0x01, 0x05, 0x00], 0x98)
    );
}

#[test]
fn keyboard_effects_use_the_classic_matrix_ids() {
    let effect = |effect| operation_packets(RequestedOperation::KeyboardEffect(effect), balanced());
    assert_eq!(
        effect(LightingEffect::Off)[0].to_feature_report(),
        golden(0x03, 0x0a, 0x01, &[0x00], 0x17)
    );
    assert_eq!(
        effect(LightingEffect::Wave)[0].to_feature_report(),
        golden(0x03, 0x0a, 0x02, &[0x01, 0x01], 0x14)
    );
    assert_eq!(
        effect(LightingEffect::Spectrum)[0].to_feature_report(),
        golden(0x03, 0x0a, 0x01, &[0x04], 0x13)
    );
    assert_eq!(
        effect(LightingEffect::Static {
            red: 0x44,
            green: 0xd6,
            blue: 0x2c
        })[0]
            .to_feature_report(),
        golden(0x03, 0x0a, 0x04, &[0x06, 0x44, 0xd6, 0x2c], 0xaa)
    );
}

#[test]
fn logo_modes_drive_led_state_then_effect() {
    let logo = |mode| operation_packets(RequestedOperation::Logo(mode), balanced());
    assert_eq!(
        reports(&logo(LogoMode::Off)),
        vec![golden(0x03, 0x00, 0x03, &[0x01, 0x04, 0x00], 0x1a)]
    );
    assert_eq!(
        reports(&logo(LogoMode::Breathing)),
        vec![
            golden(0x03, 0x00, 0x03, &[0x01, 0x04, 0x01], 0x1b),
            golden(0x03, 0x02, 0x03, &[0x01, 0x04, 0x02], 0x1a),
        ]
    );
    assert_eq!(
        logo(LogoMode::Static)[1].to_feature_report(),
        golden(0x03, 0x02, 0x03, &[0x01, 0x04, 0x00], 0x18)
    );
}

#[test]
fn battery_health_limit_sets_the_enable_bit_over_the_threshold() {
    let packets = operation_packets(RequestedOperation::BatteryHealthLimit(80), balanced());
    assert_eq!(reports(&packets), vec![golden(0x07, 0x12, 0x01, &[0xd0], 0xdb)]);
}

#[test]
fn battery_health_off_clears_only_the_enable_bit() {
    let packets = operation_packets(RequestedOperation::BatteryHealthOff, balanced());
    assert_eq!(reports(&packets), vec![golden(0x07, 0x12, 0x01, &[0x50], 0x5b)]);
}

#[test]
fn battery_health_query_and_decode_round_trip() {
    assert_eq!(
        get_battery_health().to_feature_report(),
        golden(0x07, 0x92, 0x01, &[], 0x8b)
    );
    assert_eq!(decode_battery_health(0xd0), (true, 80));
    assert_eq!(decode_battery_health(0x50), (false, 80));
}

#[test]
fn crc_covers_transaction_id_through_args_78_and_not_the_final_arg_byte() {
    let mut buf = golden(0x0d, 0x01, 0x03, &[0x00, 0x01, 0x1e], 0x0f);
    assert_eq!(crc(&buf), 0x0f);
    buf[88] = 0xff;
    assert_eq!(crc(&buf), 0x0f);
    buf[10] = 0xff;
    assert_ne!(crc(&buf), 0x0f);
}

#[test]
fn response_matching_requires_the_command_echo() {
    let request = get_battery_health();
    let mut response = request.to_feature_report();
    response[1] = 0x02;
    assert!(request.matches_response(&response));
    response[8] = 0x12;
    assert!(!request.matches_response(&response));
}

#[test]
fn response_status_decodes_the_lineage_status_bytes() {
    let mut report = [0u8; REPORT_LEN];
    report[1] = 0x02;
    assert_eq!(response_status(&report), Some(ResponseStatus::Success));
    report[1] = 0x01;
    assert_eq!(response_status(&report), Some(ResponseStatus::Busy));
    report[1] = 0x05;
    assert_eq!(response_status(&report), Some(ResponseStatus::NotSupported));
    report[1] = 0x99;
    assert_eq!(response_status(&report), None);
}

#[test]
fn success_response_with_lineage_crc_is_accepted() {
    let request = get_fan_setpoint(Zone::Cpu);
    let response = golden_ok_response(&request, 0x91);
    assert_eq!(
        validate_response(&request, &response),
        Ok(ValidResponse::Success {
            crc_window: CrcWindow::Lineage
        })
    );
}

#[test]
fn success_response_with_openrazer_crc_is_accepted() {
    let request = get_fan_setpoint(Zone::Cpu);
    let response = golden_ok_response(&request, 0x8e);
    assert_eq!(
        validate_response(&request, &response),
        Ok(ValidResponse::Success {
            crc_window: CrcWindow::OpenRazer
        })
    );
}

#[test]
fn coinciding_crc_windows_report_ambiguous() {
    let request = get_fan_setpoint(Zone::Cpu);
    let mut response = golden_ok_response(&request, 0x91);
    response[88] = 0x1f;
    assert_eq!(
        validate_response(&request, &response),
        Ok(ValidResponse::Success {
            crc_window: CrcWindow::Ambiguous
        })
    );
}

#[test]
fn short_or_long_buffers_are_rejected_and_retryable() {
    let request = get_fan_setpoint(Zone::Cpu);
    let response = golden_ok_response(&request, 0x91);
    let error = validate_response(&request, &response[..90]).unwrap_err();
    assert_eq!(error, ResponseError::Length(90));
    assert!(error.is_retryable());
    let mut long = [0u8; REPORT_LEN + 1];
    long[..REPORT_LEN].copy_from_slice(&response);
    assert_eq!(
        validate_response(&request, &long),
        Err(ResponseError::Length(REPORT_LEN + 1))
    );
}

#[test]
fn invalid_framing_is_rejected() {
    let request = get_fan_setpoint(Zone::Cpu);
    let good = golden_ok_response(&request, 0x91);

    let mut wrong_report_id = good;
    wrong_report_id[0] = 0x01;
    assert_eq!(
        validate_response(&request, &wrong_report_id),
        Err(ResponseError::ReportId(0x01))
    );

    let mut packets_remaining = good;
    packets_remaining[3] = 0x01;
    assert_eq!(
        validate_response(&request, &packets_remaining),
        Err(ResponseError::RemainingPackets(256))
    );
    let mut one_remaining = good;
    one_remaining[4] = 0x01;
    assert_eq!(
        validate_response(&request, &one_remaining),
        Err(ResponseError::RemainingPackets(1))
    );

    let mut wrong_protocol = good;
    wrong_protocol[5] = 0x01;
    assert_eq!(
        validate_response(&request, &wrong_protocol),
        Err(ResponseError::ProtocolType(0x01))
    );

    let mut oversized = good;
    oversized[6] = 81;
    assert_eq!(
        validate_response(&request, &oversized),
        Err(ResponseError::DataSize(81))
    );
}

#[test]
fn wrong_transaction_id_is_rejected() {
    let request = get_fan_setpoint(Zone::Cpu);
    let mut response = golden_ok_response(&request, 0xb1);
    response[2] = 0x3f;
    assert_eq!(
        validate_response(&request, &response),
        Err(ResponseError::TransactionId(0x3f))
    );
}

#[test]
fn stale_command_echo_is_rejected() {
    let request = get_fan_setpoint(Zone::Cpu);
    let mut response = golden_ok_response(&request, 0x92);
    response[8] = 0x82;
    assert_eq!(
        validate_response(&request, &response),
        Err(ResponseError::Command {
            class: 0x0d,
            id: 0x82
        })
    );
}

#[test]
fn data_size_echo_mismatch_is_rejected() {
    let request = get_fan_setpoint(Zone::Cpu);
    let mut response = golden_ok_response(&request, 0x96);
    response[6] = 0x04;
    assert_eq!(
        validate_response(&request, &response),
        Err(ResponseError::DataSizeEcho {
            got: 4,
            expected: 3
        })
    );
}

#[test]
fn crc_matching_neither_window_is_rejected() {
    let request = get_fan_setpoint(Zone::Cpu);
    let response = golden_ok_response(&request, 0x00);
    let error = validate_response(&request, &response).unwrap_err();
    assert_eq!(
        error,
        ResponseError::Checksum {
            got: 0x00,
            lineage: 0x91,
            openrazer: 0x8e
        }
    );
    assert!(error.is_retryable());
}

#[test]
fn busy_reply_without_echo_is_classified_busy() {
    let request = get_fan_setpoint(Zone::Cpu);
    let mut response = [0u8; REPORT_LEN];
    response[1] = 0x01;
    response[89] = 0xaa;
    assert_eq!(validate_response(&request, &response), Ok(ValidResponse::Busy));
}

#[test]
fn terminal_statuses_are_errors_and_only_new_is_retryable() {
    let request = get_fan_setpoint(Zone::Cpu);
    for (byte, status) in [
        (0x03, ResponseStatus::Failure),
        (0x04, ResponseStatus::Timeout),
        (0x05, ResponseStatus::NotSupported),
    ] {
        let mut response = golden_ok_response(&request, 0x91);
        response[1] = byte;
        let error = validate_response(&request, &response).unwrap_err();
        assert_eq!(error, ResponseError::Status(status));
        assert!(!error.is_retryable());
    }
    let mut unprocessed = golden_ok_response(&request, 0x91);
    unprocessed[1] = 0x00;
    let error = validate_response(&request, &unprocessed).unwrap_err();
    assert_eq!(error, ResponseError::Status(ResponseStatus::New));
    assert!(error.is_retryable());
    let mut unknown = golden_ok_response(&request, 0x91);
    unknown[1] = 0x99;
    let error = validate_response(&request, &unknown).unwrap_err();
    assert_eq!(error, ResponseError::UnknownStatus(0x99));
    assert!(error.is_retryable());
}

#[test]
fn outgoing_crc_stays_on_the_lineage_window() {
    let report = get_fan_setpoint(Zone::Cpu).to_feature_report();
    assert_eq!(report[89], 0x91);
}

// Messages, window names and the echo law on a concrete frame.

#[test]
fn response_errors_explain_themselves() {
    assert_eq!(
        ResponseError::Length(90).message(),
        "EC response is 90 bytes, expected 91"
    );
    assert_eq!(
        ResponseError::ReportId(1).message(),
        "EC response report number 0x01, expected 0x00"
    );
    assert_eq!(
        ResponseError::Status(ResponseStatus::NotSupported).message(),
        "EC reports this command as unsupported"
    );
    assert_eq!(
        ResponseError::Status(ResponseStatus::Timeout).message(),
        "EC returned Timeout"
    );
    assert_eq!(
        ResponseError::TransactionId(0x3f).message(),
        "EC response transaction id 0x3f, expected 0x1f"
    );
    assert_eq!(
        ResponseError::Checksum { got: 0, lineage: 0x91, openrazer: 0x8e }.message(),
        "EC response checksum 0x00 matches neither window (lineage 0x91, openrazer 0x8e)"
    );
}

#[test]
fn crc_windows_have_names() {
    assert_eq!(CrcWindow::Lineage.as_str(), "lineage");
    assert_eq!(CrcWindow::OpenRazer.as_str(), "openrazer");
    assert_eq!(CrcWindow::Ambiguous.as_str(), "ambiguous");
    assert_eq!(ResponseStatus::from_wire(0x04), Some(ResponseStatus::Timeout));
    assert_eq!(ResponseStatus::from_wire(0x06), None);
}

#[test]
fn every_outgoing_packet_echoed_as_success_validates() {
    let context = EcContext { profile: Profile::Gaming, fan_manual: true };
    for op in [
        RequestedOperation::Fan(FanMode::Manual(4200)),
        RequestedOperation::BatteryHealthLimit(60),
        RequestedOperation::KeyboardEffect(LightingEffect::Wave),
    ] {
        for packet in operation_packets(op, context) {
            let mut reply = packet.to_feature_report();
            reply[1] = 0x02;
            assert!(matches!(
                validate_response(&packet, &reply),
                Ok(ValidResponse::Success { .. })
            ));
        }
    }
}
