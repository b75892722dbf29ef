use razer_control_secureblue::client::{
    brightness_request, brightness_rule_request, check_kde_module, describe_status,
    effect_request, effect_row, field_value, idle_step, logo_request, logo_row, mode_row,
    detected, display_mode_reply, display_output_is_simulated, switch_reply, RunOutcome,
    mode_of_lowered, parse_fields, parse_kscreen_outputs, parse_mode, parse_sysinfo_fields,
    restore_brightness,
    render_settings, setting_value, strip_ansi, supports_dedicated, swatch_row, switch_plan,
    updated_settings, DisplayMode, LogEntry, RequestLog, LOG_CAPACITY,
    IdleAction, Mode, Snapshot, SwitchPlan, Tool,
};

fn pair(k: &str, v: &str) -> (String, String) {
    (k.to_string(), v.to_string())
}

#[test]
fn reply_fields_are_split_at_the_first_equals_sign() {
    let fields = parse_fields("ok device=1532:029d fan=manual:3000 junk kbd_effect=static:44d62c a=b=c");
    assert_eq!(
        fields,
        vec![
            pair("device", "1532:029d"),
            pair("fan", "manual:3000"),
            pair("kbd_effect", "static:44d62c"),
            pair("a", "b=c"),
        ]
    );
    assert_eq!(parse_fields("ok ok x=1"), vec![pair("x", "1")]);
    assert!(parse_fields("err nope").is_empty());
}

#[test]
fn a_later_field_overrides_an_earlier_one() {
    let fields = parse_fields("ok fan=auto fan=manual:2500");
    assert_eq!(field_value(&fields, "fan"), Some(String::from("manual:2500")));
    assert_eq!(field_value(&fields, "profile"), None);
}

#[test]
fn snapshot_status_is_compares_one_field() {
    let snapshot = Snapshot {
        reachable: true,
        status: parse_fields("ok profile=gaming experimental=true"),
        telemetry: Vec::new(),
    };
    assert!(snapshot.status_is("profile", "gaming"));
    assert!(!snapshot.status_is("profile", "silent"));
    assert!(!snapshot.status_is("fan", "auto"));
}

#[test]
fn sysinfo_fields_are_tab_separated_and_trimmed() {
    let fields = parse_sysinfo_fields(
        "ok cpu_model=AMD Ryzen 9 7940HS w/ Radeon 780M Graphics\tcpu_cores=8 \tnonsense\tsimulated=true",
    );
    assert_eq!(
        fields,
        vec![
            pair("cpu_model", "AMD Ryzen 9 7940HS w/ Radeon 780M Graphics"),
            pair("cpu_cores", "8"),
            pair("simulated", "true"),
        ]
    );
}

#[test]
fn tray_summary_names_the_device_and_backend() {
    assert_eq!(
        describe_status("ok device=1532:029d backend=dry-run fan=auto"),
        "Razer Blade 14 (2023) \u{2014} dry-run backend"
    );
    assert_eq!(
        describe_status("ok device=1532:0abc backend=hidraw"),
        "1532:0abc \u{2014} hardware backend (hidraw)"
    );
    assert_eq!(describe_status("err nope"), "Unknown device \u{2014} unknown backend");
    assert_eq!(
        describe_status("ok devices=2 device=x backend=usb"),
        "x \u{2014} usb"
    );
}

#[test]
fn gpu_modes_are_recognised_case_insensitively() {
    assert_eq!(parse_mode("Graphics mode: Integrated"), Some(Mode::Integrated));
    assert_eq!(parse_mode("intel"), Some(Mode::Integrated));
    assert_eq!(parse_mode("On-Demand"), Some(Mode::Hybrid));
    assert_eq!(parse_mode("Hybrid"), Some(Mode::Hybrid));
    assert_eq!(parse_mode("NVIDIA"), Some(Mode::Dedicated));
    assert_eq!(parse_mode("AsusMuxDgpu"), Some(Mode::Dedicated));
    assert_eq!(parse_mode("vfio"), None);
    assert!(!supports_dedicated(Tool::SuperGfx));
    assert!(supports_dedicated(Tool::PrimeSelect));
    assert!(supports_dedicated(Tool::Mock));
}

#[test]
fn ansi_escapes_are_removed() {
    assert_eq!(strip_ansi("\u{1b}[01;32mOutput:\u{1b}[0m 1"), "Output: 1");
    assert_eq!(strip_ansi("plain"), "plain");
    assert_eq!(strip_ansi("cut\u{1b}[12"), "cut");
}

#[test]
fn kscreen_listing_gives_enabled_outputs_and_their_modes() {
    let listing = "\u{1b}[01;32mOutput:\u{1b}[0m 1 eDP-1 enabled connected priority 1 Panel Modes: 1:2560x1600@240*! 2:2560x1600@60 3:1920x1200@60 Geometry: 0,0 1600x1000\nOutput: 2 HDMI-1 disabled connected Modes: 1:1920x1080@60\nOutput: 3 DP-1 enabled connected Modes: Geometry: 0,0\n";
    let mode = |id: &str, label: &str, current: bool| DisplayMode {
        id: id.to_string(),
        label: label.to_string(),
        current,
    };
    assert_eq!(
        parse_kscreen_outputs(listing),
        vec![(
            String::from("eDP-1"),
            vec![
                mode("1", "2560x1600@240", true),
                mode("2", "2560x1600@60", false),
                mode("3", "1920x1200@60", false),
            ]
        )]
    );
    assert!(parse_kscreen_outputs("").is_empty());
}

#[test]
fn settings_file_lookup_takes_the_first_matching_line() {
    let text = "  refresh_rule = ignored\nrefresh_rule=ac:240\nrefresh_rule=ac:60\nother=1\n";
    assert_eq!(setting_value(text, "refresh_rule"), Some(String::from("ac:240")));
    assert_eq!(setting_value(text, "other"), Some(String::from("1")));
    assert_eq!(setting_value(text, "missing"), None);
    assert_eq!(setting_value("  k=v  \n", "k"), Some(String::from("v")));
}

#[test]
fn only_allowlisted_kde_modules_open() {
    assert_eq!(check_kde_module("kcm_kscreen"), Ok(()));
    assert_eq!(check_kde_module("kcm_colors"), Ok(()));
    assert_eq!(
        check_kde_module("kcm_users"),
        Err(String::from("module \"kcm_users\" is not on the allowlist"))
    );
}

#[test]
fn gpu_switches_run_the_right_tool() {
    assert_eq!(switch_plan(Tool::Mock, Mode::Dedicated), Ok(SwitchPlan::Simulated));
    assert_eq!(
        switch_plan(Tool::SuperGfx, Mode::Hybrid),
        Ok(SwitchPlan::Run { program: "supergfxctl", args: vec!["-m", "Hybrid"] })
    );
    assert_eq!(
        switch_plan(Tool::SuperGfx, Mode::Dedicated),
        Err(String::from("dGPU mode is not supported by supergfxctl here"))
    );
    assert_eq!(
        switch_plan(Tool::PrimeSelect, Mode::Integrated),
        Ok(SwitchPlan::Run { program: "pkexec", args: vec!["prime-select", "intel"] })
    );
    assert_eq!(
        switch_plan(Tool::EnvyControl, Mode::Dedicated),
        Ok(SwitchPlan::Run { program: "pkexec", args: vec!["envycontrol", "-s", "nvidia"] })
    );
    assert_eq!(mode_row(Mode::Hybrid), 0);
    assert_eq!(mode_row(Mode::Dedicated), 1);
    assert_eq!(mode_row(Mode::Integrated), 2);
}

#[test]
fn lighting_rows_follow_the_status_and_send_requests() {
    assert_eq!(effect_row("off"), 0);
    assert_eq!(effect_row("spectrum"), 2);
    assert_eq!(effect_row("wave"), 3);
    assert_eq!(effect_row("static:ff3a3a"), 1);
    assert_eq!(effect_row("unset"), 1);
    assert_eq!(swatch_row("static:ff3a3a"), 2);
    assert_eq!(swatch_row("static:123456"), 0);
    assert_eq!(swatch_row("wave"), 0);
    assert_eq!(effect_request(0, 4), "kbd effect off");
    assert_eq!(effect_request(1, 4), "kbd effect static a02cd6");
    assert_eq!(effect_request(3, 0), "kbd effect wave");
    assert_eq!(logo_row(Some("off")), 0);
    assert_eq!(logo_row(Some("breathing")), 2);
    assert_eq!(logo_row(None), 1);
    assert_eq!(logo_request(2), "logo breathing");
    assert_eq!(brightness_rule_request(false, 20), "kbd-automation battery 20");
    assert_eq!(brightness_request(0), "kbd brightness 0");
}

#[test]
fn idle_rule_dims_once_and_restores_once() {
    assert_eq!(idle_step(false, 600, 600), IdleAction::Dim);
    assert_eq!(idle_step(true, 900, 600), IdleAction::Stay);
    assert_eq!(idle_step(true, 5, 600), IdleAction::Restore);
    assert_eq!(idle_step(false, 5, 600), IdleAction::Stay);
    let telemetry = parse_fields("ok power=battery");
    let status = parse_fields("ok kbd_ac=80 kbd_battery=20");
    assert_eq!(restore_brightness(&telemetry, &status), 20);
    assert_eq!(restore_brightness(&parse_fields("ok power=ac"), &status), 80);
    assert_eq!(restore_brightness(&telemetry, &parse_fields("ok kbd_battery=off")), 60);
}

#[test]
fn settings_are_rewritten_sorted_with_the_new_value() {
    let text = "refresh_rule=ac:240\nkbd_idle_off=true\n  kbd_idle_minutes = 5\njunk\nkbd_idle_off=false\n";
    let settings = updated_settings(text, "kbd_idle_off", "true");
    assert_eq!(
        settings,
        vec![
            pair("kbd_idle_minutes ", " 5"),
            pair("kbd_idle_off", "true"),
            pair("refresh_rule", "ac:240"),
        ]
    );
    assert_eq!(
        render_settings(&settings),
        "kbd_idle_minutes = 5\nkbd_idle_off=true\nrefresh_rule=ac:240\n"
    );
    assert_eq!(render_settings(&updated_settings("", "a", "1")), "a=1\n");
    let mut expected = vec![pair("b", "2"), pair("a", "9"), pair("a", "10"), pair("B", "x")];
    expected.sort();
    assert_eq!(updated_settings("b=2\na=9\na=10\nB=x\n", "c", "3")[..4], expected[..]);
}

#[test]
fn request_log_keeps_the_latest_hundred_oldest_first() {
    let mut log = RequestLog::new();
    log.record(String::from("10:00:00"), "status", &Ok(String::from("ok device=1532:029d")));
    log.record(String::from("10:00:01"), "fan manual 9000", &Err(String::from("socket gone")));
    assert_eq!(
        log.log_entries(),
        vec![
            LogEntry {
                time: String::from("10:00:00"),
                request: String::from("status"),
                response: String::from("ok device=1532:029d"),
            },
            LogEntry {
                time: String::from("10:00:01"),
                request: String::from("fan manual 9000"),
                response: String::from("err socket gone"),
            },
        ]
    );
    for n in 0..150 {
        log.record(format!("t{n}"), &format!("ping {n}"), &Ok(String::from("ok pong")));
    }
    let entries = log.log_entries();
    assert_eq!(entries.len(), LOG_CAPACITY);
    assert_eq!(entries[0].request, "ping 50");
    assert_eq!(entries[LOG_CAPACITY - 1].request, "ping 149");
}

#[test]
fn lowered_mode_text_names_the_mode() {
    assert_eq!(mode_of_lowered("current mode: integrated"), Some(Mode::Integrated));
    assert_eq!(mode_of_lowered("on-demand"), Some(Mode::Hybrid));
    assert_eq!(mode_of_lowered("nvidia"), Some(Mode::Dedicated));
    assert_eq!(mode_of_lowered("NVIDIA"), None);
    assert_eq!(mode_of_lowered("unknown"), None);
}

#[test]
fn detection_tries_supergfxctl_then_prime_select_then_envycontrol() {
    assert_eq!(
        detected(None, Some("Hybrid"), Some("nvidia"), Some("integrated")),
        Some((Tool::SuperGfx, Mode::Hybrid))
    );
    assert_eq!(
        detected(None, Some("unknown"), Some("nvidia"), Some("integrated")),
        Some((Tool::PrimeSelect, Mode::Dedicated))
    );
    assert_eq!(
        detected(None, None, None, Some("Current GPU mode: integrated")),
        Some((Tool::EnvyControl, Mode::Integrated))
    );
    assert_eq!(
        detected(Some(Mode::Hybrid), Some("nvidia"), None, None),
        Some((Tool::Mock, Mode::Hybrid))
    );
    assert_eq!(detected(None, None, Some("?"), None), None);
}

#[test]
fn switch_replies_name_the_program_or_its_error() {
    let plan = switch_plan(Tool::PrimeSelect, Mode::Dedicated).unwrap();
    assert_eq!(
        switch_reply(&plan, &RunOutcome::Succeeded),
        Ok(String::from("GPU mode set \u{2014} log out or reboot to apply (pkexec)"))
    );
    assert_eq!(
        switch_reply(&plan, &RunOutcome::Failed(String::from("  not authorized\n"))),
        Err(String::from("pkexec failed: not authorized"))
    );
    assert_eq!(
        switch_reply(&plan, &RunOutcome::NotRun(String::from("No such file or directory"))),
        Err(String::from("cannot run pkexec: No such file or directory"))
    );
    let simulated = switch_plan(Tool::Mock, Mode::Integrated).unwrap();
    assert_eq!(
        switch_reply(&simulated, &RunOutcome::Succeeded),
        Ok(String::from("GPU mode set (simulated) \u{2014} log out or reboot to apply"))
    );
}

#[test]
fn display_mode_replies() {
    assert!(display_output_is_simulated("eDP-1 (simulated)"));
    assert_eq!(
        display_mode_reply("eDP-1 (simulated)", &RunOutcome::NotRun(String::from("x"))),
        Ok(String::from("Refresh rate applied (simulated)"))
    );
    assert_eq!(
        display_mode_reply("eDP-1", &RunOutcome::Succeeded),
        Ok(String::from("Refresh rate applied"))
    );
    assert_eq!(
        display_mode_reply("eDP-1", &RunOutcome::Failed(String::from("exit status: 1"))),
        Err(String::from("kscreen-doctor exited with exit status: 1"))
    );
    assert_eq!(
        display_mode_reply("eDP-1", &RunOutcome::NotRun(String::from("not found"))),
        Err(String::from("cannot run kscreen-doctor: not found"))
    );
}
