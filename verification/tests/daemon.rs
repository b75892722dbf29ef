use razer_control_secureblue::backend::DryRunBackend;
use razer_control_secureblue::client::{parse_fields, parse_sysinfo_fields};
use razer_control_secureblue::config::{BatteryHealth, PersistedState};
use razer_control_secureblue::daemon::Daemon;
use razer_control_secureblue::telemetry::{MachineFacts, Telemetry};
use razer_control_secureblue::{
    blade_14_2023, EcContext, FanMode, LightingEffect, LogoMode, Profile, RequestedOperation,
};

fn daemon(allow_experimental: bool) -> Daemon<DryRunBackend> {
    Daemon::new(blade_14_2023(), DryRunBackend::default(), allow_experimental)
}

#[test]
fn shutdown_reverts_manual_fan_to_auto() {
    let mut daemon = daemon(false);
    assert!(daemon.handle_line("fan manual 3000").starts_with("ok"));
    daemon.shutdown();
    assert_eq!(
        daemon.backend().applied,
        vec![
            RequestedOperation::Fan(FanMode::Manual(3000)),
            RequestedOperation::Fan(FanMode::Auto),
        ]
    );
}

#[test]
fn accepts_disabling_battery_health_optimizer() {
    let mut daemon = daemon(false);
    assert!(daemon.handle_line("bho off").starts_with("ok"));
    assert_eq!(daemon.backend().applied, vec![RequestedOperation::BatteryHealthOff]);
}

#[test]
fn shutdown_sends_nothing_when_fans_are_automatic() {
    let mut daemon = daemon(false);
    assert!(daemon.handle_line("bho 80").starts_with("ok"));
    daemon.shutdown();
    assert_eq!(
        daemon.backend().applied,
        vec![RequestedOperation::BatteryHealthLimit(80)]
    );
}

#[test]
fn rejected_operations_never_reach_the_backend() {
    let mut daemon = daemon(false);
    assert!(daemon.handle_line("fan manual 9000").starts_with("err"));
    assert!(daemon.handle_line("bho 100").starts_with("err"));
    assert!(daemon.handle_line("profile gaming").starts_with("err"));
    assert!(daemon.backend().applied.is_empty());
}

#[test]
fn experimental_gate_holds_over_ipc() {
    let mut locked = daemon(false);
    assert!(locked.handle_line("profile gaming").starts_with("err"));
    let mut opted_in = daemon(true);
    assert!(opted_in.handle_line("profile gaming").starts_with("ok"));
}

#[test]
fn profile_updates_status_and_rides_along_in_later_fan_contexts() {
    let mut daemon = daemon(true);
    assert!(daemon.handle_line("profile gaming").starts_with("ok"));
    assert!(daemon.handle_line("status").contains("profile=gaming"));
    assert_eq!(daemon.persisted().profile, Some(Profile::Gaming));

    assert!(daemon.handle_line("fan manual 3000").starts_with("ok"));
    assert_eq!(
        daemon.backend().contexts.last(),
        Some(&EcContext {
            profile: Profile::Gaming,
            fan_manual: false,
        })
    );

    assert!(daemon.handle_line("profile silent").starts_with("ok"));
    assert_eq!(
        daemon.backend().contexts.last(),
        Some(&EcContext {
            profile: Profile::Gaming,
            fan_manual: true,
        })
    );
}

#[test]
fn telemetry_is_a_read_only_request() {
    let mut daemon = daemon(false);
    let response = daemon.handle_line("telemetry");
    assert!(response.starts_with("ok cpu_temp="));
    assert!(response.contains("simulated=false"));
    assert!(daemon.backend().applied.is_empty());
    let mut simulated =
        Daemon::new(blade_14_2023(), DryRunBackend::default(), false).with_simulated_telemetry();
    assert!(simulated.handle_line("telemetry").contains("simulated=true"));
}

#[test]
fn automation_applies_the_configured_fan_on_power_change() {
    let mut daemon = daemon(false);
    assert!(daemon.handle_line("automation battery fan auto").starts_with("ok"));
    assert!(daemon.handle_line("automation ac fan manual 4000").starts_with("ok"));
    let action = daemon.on_power_change(true).unwrap();
    assert!(action.contains("ac"));
    assert_eq!(
        daemon.backend().applied,
        vec![RequestedOperation::Fan(FanMode::Manual(4000))]
    );
    assert!(daemon.on_power_change(true).is_none());
    assert!(daemon.on_power_change(false).is_some());
    assert_eq!(
        daemon.backend().applied.last(),
        Some(&RequestedOperation::Fan(FanMode::Auto))
    );
}

#[test]
fn automation_rules_are_validated_and_persisted() {
    let mut daemon = daemon(false);
    assert!(daemon.handle_line("automation ac fan manual 9000").starts_with("err"));
    assert!(daemon.handle_line("automation ac fan auto").starts_with("ok"));
    assert!(daemon.take_dirty());
    assert!(!daemon.take_dirty());
    assert_eq!(daemon.persisted().fan_on_ac, Some(FanMode::Auto));
}

#[test]
fn reapply_restores_persisted_settings_through_validation() {
    let mut daemon = daemon(false);
    daemon.load_state(PersistedState {
        fan: Some(FanMode::Manual(3200)),
        battery_health: BatteryHealth::Limit(80),
        ..PersistedState::default()
    });
    daemon.reapply_persisted();
    assert_eq!(
        daemon.backend().applied,
        vec![
            RequestedOperation::Fan(FanMode::Manual(3200)),
            RequestedOperation::BatteryHealthLimit(80),
        ]
    );
}

#[test]
fn reapply_restores_the_profile_before_the_fan() {
    let mut daemon = daemon(true);
    daemon.load_state(PersistedState {
        fan: Some(FanMode::Auto),
        profile: Some(Profile::Gaming),
        ..PersistedState::default()
    });
    daemon.reapply_persisted();
    assert_eq!(
        daemon.backend().applied,
        vec![
            RequestedOperation::Profile(Profile::Gaming),
            RequestedOperation::Fan(FanMode::Auto),
        ]
    );
    assert_eq!(
        daemon.backend().contexts.last(),
        Some(&EcContext {
            profile: Profile::Gaming,
            fan_manual: false,
        })
    );
}

#[test]
fn status_reports_fan_state() {
    let mut daemon = daemon(false);
    assert!(daemon.handle_line("status").contains("fan=auto"));
    daemon.handle_line("fan manual 2500");
    assert!(daemon.handle_line("status").contains("fan=manual:2500"));
}

#[test]
fn lighting_over_ipc_updates_status_and_persists() {
    let mut locked = daemon(false);
    assert!(locked.handle_line("kbd brightness 60").starts_with("err"));
    assert!(locked.handle_line("logo off").starts_with("err"));
    assert!(locked.backend().applied.is_empty());

    let mut daemon = daemon(true);
    assert!(daemon.handle_line("kbd brightness 60").starts_with("ok"));
    assert!(daemon.handle_line("kbd effect static 44d62c").starts_with("ok"));
    assert!(daemon.handle_line("logo breathing").starts_with("ok"));
    let status = daemon.handle_line("status");
    assert!(status.contains("kbd=60"));
    assert!(status.contains("kbd_effect=static:44d62c"));
    assert!(status.contains("logo=breathing"));
    assert_eq!(daemon.persisted().kbd_brightness, Some(60));
    assert_eq!(
        daemon.persisted().kbd_effect,
        Some(LightingEffect::Static {
            red: 0x44,
            green: 0xd6,
            blue: 0x2c
        })
    );
    assert_eq!(daemon.persisted().logo, Some(LogoMode::Breathing));
}

#[test]
fn kbd_automation_applies_brightness_on_power_change() {
    let mut daemon = daemon(true);
    assert!(daemon.handle_line("kbd-automation battery 20").starts_with("ok"));
    assert!(daemon.handle_line("kbd-automation ac 80").starts_with("ok"));
    let action = daemon.on_power_change(false).unwrap();
    assert!(action.contains("battery"));
    assert_eq!(
        daemon.backend().applied.last(),
        Some(&RequestedOperation::KeyboardBrightness(20))
    );
    assert!(daemon.on_power_change(false).is_none());
    let status = daemon.handle_line("status");
    assert!(status.contains("kbd_ac=80"));
    assert!(status.contains("kbd_battery=20"));
}

#[test]
fn status_reports_automation_rules() {
    let mut daemon = daemon(false);
    let before = daemon.handle_line("status");
    assert!(before.contains("automation_ac=off"));
    assert!(before.contains("automation_battery=off"));
    daemon.handle_line("automation ac fan auto");
    daemon.handle_line("automation battery fan manual 2000");
    let after = daemon.handle_line("status");
    assert!(after.contains("automation_ac=auto"));
    assert!(after.contains("automation_battery=manual:2000"));
}

// Exact replies, and the laws on concrete values.

#[test]
fn replies_are_exact_lines() {
    let mut daemon = daemon(false);
    assert_eq!(daemon.handle_line("ping"), "ok pong");
    assert_eq!(
        daemon.handle_line("status"),
        "ok device=1532:029d backend=dry-run fan=auto profile=balanced automation_ac=off \
         automation_battery=off kbd=unset kbd_effect=unset logo=unset kbd_ac=off \
         kbd_battery=off experimental=false"
    );
    assert_eq!(
        daemon.handle_line("fan manual 3000"),
        "ok applied Fan(Manual(3000)) via dry-run backend"
    );
    assert_eq!(
        daemon.handle_line("fan manual 9000"),
        "err manual fan speed 9000 RPM is outside the verified 2000\u{2013}5400 RPM range"
    );
    assert_eq!(daemon.handle_line("reboot"), "err unknown request \"reboot\"");
    assert_eq!(daemon.handle_line("automation ac off"), "ok automation ac=off");
    assert_eq!(
        daemon.handle_line("kbd-automation battery 30"),
        "err keyboard lighting is experimental and requires explicit opt-in"
    );
}

#[test]
fn applied_replies_use_the_debug_text_of_the_operation() {
    let mut daemon = daemon(true);
    for (line, operation) in [
        ("profile custom cpu boost gpu high", RequestedOperation::Profile(Profile::Custom {
            cpu: razer_control_secureblue::BoostLevel::Boost,
            gpu: razer_control_secureblue::BoostLevel::High,
        })),
        ("kbd effect static 44d62c", RequestedOperation::KeyboardEffect(LightingEffect::Static {
            red: 0x44,
            green: 0xd6,
            blue: 0x2c,
        })),
        ("logo static", RequestedOperation::Logo(LogoMode::Static)),
        ("bho 55", RequestedOperation::BatteryHealthLimit(55)),
        ("kbd brightness 7", RequestedOperation::KeyboardBrightness(7)),
        ("fan auto", RequestedOperation::Fan(FanMode::Auto)),
    ] {
        assert_eq!(
            daemon.handle_line(line),
            format!("ok applied {operation:?} via dry-run backend")
        );
    }
}

#[test]
fn a_backend_failure_is_reported_and_changes_nothing() {
    let mut daemon = daemon(true);
    let reply = daemon.conclude(
        RequestedOperation::Profile(Profile::Gaming),
        Err(String::from("EC timed out")),
    );
    assert_eq!(reply, "err backend: EC timed out");
    assert_eq!(daemon.persisted().profile, None);
    assert!(!daemon.take_dirty());
    let reply = daemon.conclude(RequestedOperation::Profile(Profile::Gaming), Ok(()));
    assert_eq!(reply, "ok applied Profile(Gaming) via dry-run backend");
    assert_eq!(daemon.persisted().profile, Some(Profile::Gaming));
    assert!(daemon.handle_line("status").contains("profile=gaming"));
}

#[test]
fn shutdown_reports_what_the_backend_answered() {
    let mut daemon = daemon(false);
    assert_eq!(daemon.shutdown(), None);
    daemon.handle_line("fan manual 2500");
    assert_eq!(daemon.shutdown(), Some(Ok(())));
    assert!(daemon.handle_line("status").contains("fan=auto"));
    assert_eq!(daemon.shutdown(), None);
}

#[test]
fn reapply_logs_one_line_per_setting_and_keeps_the_state() {
    let mut daemon = daemon(false);
    let state = PersistedState {
        profile: Some(Profile::Gaming),
        fan: Some(FanMode::Auto),
        battery_health: BatteryHealth::Off,
        ..PersistedState::default()
    };
    daemon.load_state(state);
    let log = daemon.reapply_persisted();
    assert_eq!(log.len(), 3);
    assert!(log[0].starts_with("reapply profile: err "));
    assert_eq!(log[1], "reapply fan: ok applied Fan(Auto) via dry-run backend");
    assert_eq!(log[2], "reapply bho: ok applied BatteryHealthOff via dry-run backend");
    assert_eq!(*daemon.persisted(), state);
    assert_eq!(
        daemon.backend().applied,
        vec![RequestedOperation::Fan(FanMode::Auto), RequestedOperation::BatteryHealthOff]
    );
}

#[test]
fn power_change_description_lists_each_reply() {
    let mut daemon = daemon(true);
    daemon.handle_line("automation ac fan manual 4000");
    daemon.handle_line("kbd-automation ac 80");
    assert_eq!(
        daemon.on_power_change(true),
        Some(String::from(
            "power source changed to ac: ok applied Fan(Manual(4000)) via dry-run backend; \
             ok applied KeyboardBrightness(80) via dry-run backend"
        ))
    );
}

#[test]
fn recorded_snapshots_answer_telemetry_and_sysinfo() {
    let mut daemon = daemon(false);
    let mut snapshot = Telemetry::unavailable(false);
    snapshot.fan_rpm = Some(2441);
    daemon.record_telemetry(snapshot);
    assert!(daemon.handle_line("telemetry").contains(" fan_rpm=2441 "));
    let mut facts = MachineFacts::unknown();
    facts.cpu_threads = Some(16);
    daemon.record_machine(facts);
    assert_eq!(
        daemon.handle_line("sysinfo"),
        "ok cpu_model=Unknown\tcpu_cores=16\tcpu_threads=16\tmem_total_kb=none\tgpu_dgpu=none\tgpu_igpu=none\tsimulated=false"
    );
    assert!(!daemon.simulates_telemetry());
    let simulated = daemon.with_simulated_telemetry();
    assert!(simulated.simulates_telemetry());
}

#[test]
fn restore_loads_reapplies_and_leaves_nothing_to_write() {
    let mut daemon = daemon(false);
    let saved = PersistedState {
        fan: Some(FanMode::Manual(3200)),
        ..PersistedState::default()
    };
    let log = daemon.restore(Some(saved));
    assert_eq!(log, vec![String::from(
        "reapply fan: ok applied Fan(Manual(3200)) via dry-run backend"
    )]);
    assert!(!daemon.take_dirty());
    assert_eq!(*daemon.persisted(), saved);
    let mut fresh = Daemon::new(blade_14_2023(), DryRunBackend::default(), false);
    assert!(fresh.restore(None).is_empty());
    assert_eq!(*fresh.persisted(), PersistedState::default());
}

#[test]
fn power_polls_act_only_on_a_change() {
    let mut daemon = daemon(false);
    daemon.handle_line("automation ac fan manual 4000");
    assert_eq!(daemon.power_poll(Some(true), Some(true)), None);
    assert_eq!(daemon.power_poll(Some(false), None), None);
    assert!(daemon.backend().applied.is_empty());
    assert!(daemon.power_poll(None, Some(true)).is_some());
    assert_eq!(
        daemon.backend().applied,
        vec![RequestedOperation::Fan(FanMode::Manual(4000))]
    );
    assert_eq!(daemon.power_poll(Some(false), Some(true)), None);
}

#[test]
fn clients_read_back_the_status_and_telemetry_fields() {
    let mut daemon = daemon(true);
    daemon.handle_line("profile custom cpu boost gpu low");
    daemon.handle_line("kbd effect static 44d62c");
    let status = parse_fields(&daemon.handle_line("status"));
    let field = |key: &str| {
        status
            .iter()
            .rev()
            .find(|(k, _)| k == key)
            .map(|(_, v)| v.clone())
    };
    assert_eq!(status.len(), 12);
    assert_eq!(field("device"), Some(String::from("1532:029d")));
    assert_eq!(field("profile"), Some(String::from("custom:cpu=boost,gpu=low")));
    assert_eq!(field("kbd_effect"), Some(String::from("static:44d62c")));
    assert_eq!(field("experimental"), Some(String::from("true")));
    let telemetry = parse_fields(&daemon.handle_line("telemetry"));
    assert_eq!(telemetry.len(), 13);
    assert_eq!(telemetry[0], (String::from("cpu_temp"), String::from("none")));
    assert_eq!(telemetry[12], (String::from("simulated"), String::from("false")));
}

#[test]
fn clients_read_back_the_machine_fields() {
    let mut daemon = daemon(false);
    daemon.record_machine(MachineFacts {
        cpu_model: Some(String::from("AMD Ryzen 9 7940HS w/ Radeon 780M Graphics")),
        cpu_cores: None,
        cpu_threads: Some(16),
        mem_total_kb: Some(31200000),
        dgpu_name: None,
        igpu_name: Some(String::from("AMD Radeon 780M")),
    });
    let fields = parse_sysinfo_fields(&daemon.handle_line("sysinfo"));
    let pair = |k: &str, v: &str| (String::from(k), String::from(v));
    assert_eq!(
        fields,
        vec![
            pair("cpu_model", "AMD Ryzen 9 7940HS w/ Radeon 780M Graphics"),
            pair("cpu_cores", "16"),
            pair("cpu_threads", "16"),
            pair("mem_total_kb", "31200000"),
            pair("gpu_dgpu", "none"),
            pair("gpu_igpu", "AMD Radeon 780M"),
            pair("simulated", "false"),
        ]
    );
}

#[test]
fn every_reply_is_one_line() {
    let mut daemon = daemon(true);
    for line in [
        "ping",
        "status",
        "telemetry",
        "sysinfo",
        "fan manual 3000",
        "fan manual 9000",
        "profile custom cpu turbo gpu low",
        "kbd effect static 44d62c",
        "automation ac fan manual 4000",
        "kbd-automation battery 30",
        "frobnicate\nnow",
        "",
    ] {
        let reply = daemon.handle_line(line);
        assert!(reply.starts_with("ok") || reply.starts_with("err"), "{reply}");
        assert!(!reply.contains('\n'), "{reply}");
    }
}
