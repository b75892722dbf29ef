use razer_control_secureblue::telemetry::{
    ac_from_supplies, cpu_cores_of, cpu_model_of, cpu_threads_of, cpu_times_of, memory_of,
    simulated_telemetry, sysinfo, CpuTimes, GpuSource, MachineFacts, Telemetry, TelemetryReader,
};

fn sample() -> Telemetry {
    Telemetry {
        cpu_temp_tenths: Some(543),
        cpu_util_tenths: Some(234),
        cpu_freq_tenths: Some(43420),
        mem_used_kb: Some(25_400_000),
        mem_total_kb: Some(31_200_000),
        gpu_temp_tenths: Some(470),
        gpu_util_tenths: Some(120),
        gpu_mem_used_mb: Some(2200),
        gpu_mem_total_mb: Some(8188),
        gpu_source: GpuSource::Dedicated,
        fan_rpm: Some(2441),
        on_ac: Some(true),
        simulated: true,
    }
}

fn degrees(tenths: Option<i64>) -> f64 {
    tenths.unwrap() as f64 / 10.0
}

#[test]
fn simulated_values_stay_inside_plausible_ranges() {
    for (wave, gpu_wave) in [(0, 0), (1000, -1000), (-1000, 1000), (-1000, -1000), (1000, 1000), (317, -842)] {
        let telemetry = simulated_telemetry(wave, gpu_wave);
        assert!((40.0..=70.0).contains(&degrees(telemetry.cpu_temp_tenths)));
        assert!((0.0..=100.0).contains(&degrees(telemetry.cpu_util_tenths)));
        assert!((40.0..=60.0).contains(&degrees(telemetry.gpu_temp_tenths)));
        assert!((0.0..=100.0).contains(&degrees(telemetry.gpu_util_tenths)));
        assert_eq!(telemetry.gpu_source, GpuSource::Dedicated);
        assert!((2000..=2800).contains(&telemetry.fan_rpm.unwrap()));
        assert!(telemetry.simulated);
    }
}

#[test]
fn line_format_is_stable_for_clients() {
    assert_eq!(
        sample().to_line(),
        "cpu_temp=54.3 cpu_util=23.4 cpu_freq=4342.0 mem_used=25400000 \
         mem_total=31200000 gpu_temp=47.0 gpu_util=12.0 gpu_mem_used=2200 \
         gpu_mem_total=8188 gpu_source=dgpu fan_rpm=2441 power=ac simulated=true"
    );
    let empty = Telemetry::unavailable(false);
    assert_eq!(
        empty.to_line(),
        "cpu_temp=none cpu_util=none cpu_freq=none mem_used=none mem_total=none \
         gpu_temp=none gpu_util=none gpu_mem_used=none gpu_mem_total=none \
         gpu_source=none fan_rpm=none power=unknown simulated=false"
    );
}

#[test]
fn cpu_utilisation_is_a_delta_between_reads() {
    let mut reader = TelemetryReader {
        last_cpu: Some(CpuTimes { total: 1000, idle: 800 }),
    };
    let util = reader.cpu_util(Some(CpuTimes { total: 1100, idle: 825 }));
    assert_eq!(util.map(|tenths| tenths as f64 / 10.0), Some(75.0));
}

#[test]
fn simulated_sysinfo_names_the_machine() {
    let line = sysinfo(true, &MachineFacts::unknown());
    assert!(line.contains("cpu_model=AMD Ryzen 9 7940HS"));
    assert!(line.contains("gpu_dgpu=NVIDIA GeForce RTX 4060 Laptop GPU"));
    assert!(line.contains("simulated=true"));
}

fn supplies(entries: &[(&str, Option<&str>)]) -> Vec<(String, Option<String>)> {
    entries
        .iter()
        .map(|(kind, online)| (kind.to_string(), online.map(str::to_string)))
        .collect()
}

#[test]
fn a_later_online_adapter_is_seen_past_an_offline_mains() {
    let entries = supplies(&[("Battery", None), ("Mains", Some("0")), ("USB", Some("1"))]);
    assert_eq!(ac_from_supplies(&entries), Some(true));
}

#[test]
fn usb_pd_charging_counts_as_ac() {
    let entries = supplies(&[("Battery", None), ("USB", Some("1"))]);
    assert_eq!(ac_from_supplies(&entries), Some(true));
    let wireless = supplies(&[("Wireless", Some("1"))]);
    assert_eq!(ac_from_supplies(&wireless), Some(true));
}

#[test]
fn all_adapters_offline_means_battery() {
    let entries = supplies(&[("Battery", None), ("Mains", Some("0")), ("USB", Some("0"))]);
    assert_eq!(ac_from_supplies(&entries), Some(false));
}

#[test]
fn no_readable_adapter_means_unknown() {
    assert_eq!(ac_from_supplies(&supplies(&[("Battery", None)])), None);
    assert_eq!(ac_from_supplies(&supplies(&[])), None);
    assert_eq!(ac_from_supplies(&supplies(&[("Mains", None)])), None);
}

#[test]
fn sysfs_trailing_newlines_are_trimmed() {
    let entries = supplies(&[("Battery\n", None), ("Mains\n", Some("1\n"))]);
    assert_eq!(ac_from_supplies(&entries), Some(true));
}

// Further cases of the readings' arithmetic and the machine line.

#[test]
fn utilisation_needs_a_previous_snapshot_and_progress() {
    let mut reader = TelemetryReader::default();
    assert_eq!(reader.cpu_util(Some(CpuTimes { total: 500, idle: 400 })), None);
    assert_eq!(reader.cpu_util(None), None);
    assert_eq!(reader.last_cpu, Some(CpuTimes { total: 500, idle: 400 }));
    assert_eq!(reader.cpu_util(Some(CpuTimes { total: 500, idle: 400 })), None);
    assert_eq!(reader.cpu_util(Some(CpuTimes { total: 503, idle: 401 })), Some(667));
    assert_eq!(reader.cpu_util(Some(CpuTimes { total: 400, idle: 300 })), None);
}

#[test]
fn simulated_readings_rest_at_the_documented_values() {
    let rest = simulated_telemetry(0, 0);
    assert_eq!(rest.cpu_temp_tenths, Some(540));
    assert_eq!(rest.cpu_util_tenths, Some(220));
    assert_eq!(rest.cpu_freq_tenths, Some(43000));
    assert_eq!(rest.gpu_temp_tenths, Some(470));
    assert_eq!(rest.gpu_util_tenths, Some(120));
    assert_eq!(rest.fan_rpm, Some(2400));
}

#[test]
fn negative_and_small_tenths_print_with_one_decimal() {
    let mut t = Telemetry::unavailable(false);
    t.cpu_temp_tenths = Some(-5);
    t.gpu_temp_tenths = Some(7);
    t.on_ac = Some(false);
    t.gpu_source = GpuSource::Integrated;
    let line = t.to_line();
    assert!(line.starts_with("cpu_temp=-0.5 "));
    assert!(line.contains(" gpu_temp=0.7 "));
    assert!(line.contains(" gpu_source=igpu "));
    assert!(line.contains(" power=battery "));
}

#[test]
fn machine_line_falls_back_to_the_thread_count() {
    let facts = MachineFacts {
        cpu_model: Some(String::from("AMD Ryzen 9 7940HS")),
        cpu_cores: None,
        cpu_threads: Some(16),
        mem_total_kb: Some(31_200_000),
        dgpu_name: None,
        igpu_name: Some(String::from("AMD Radeon (integrated)")),
    };
    assert_eq!(
        sysinfo(false, &facts),
        "cpu_model=AMD Ryzen 9 7940HS\tcpu_cores=16\tcpu_threads=16\tmem_total_kb=31200000\tgpu_dgpu=none\tgpu_igpu=AMD Radeon (integrated)\tsimulated=false"
    );
    assert_eq!(
        sysinfo(false, &MachineFacts::unknown()),
        "cpu_model=Unknown\tcpu_cores=none\tcpu_threads=none\tmem_total_kb=none\tgpu_dgpu=none\tgpu_igpu=none\tsimulated=false"
    );
}

#[test]
fn proc_stat_summary_line_gives_total_and_idle_jiffies() {
    let stat = "cpu  100 5 50 800 25 3 2 0 0 0\ncpu0 50 2 25 400 12 1 1 0 0 0\n";
    assert_eq!(cpu_times_of(stat), Some(CpuTimes { total: 985, idle: 825 }));
    assert_eq!(cpu_times_of("cpu 1 2 3 4\n"), Some(CpuTimes { total: 10, idle: 4 }));
    assert_eq!(cpu_times_of("cpu 1 x 2 3 4"), Some(CpuTimes { total: 10, idle: 4 }));
    assert_eq!(cpu_times_of("cpu 1 2 3\n"), None);
    assert_eq!(cpu_times_of("intr 1 2 3 4 5\ncpu 1 2 3 4 5\n"), None);
    assert_eq!(cpu_times_of(""), None);
}

#[test]
fn meminfo_gives_used_and_total_kilobytes() {
    let meminfo = "MemTotal:       31200000 kB\nMemFree:         1000000 kB\nMemAvailable:    5800000 kB\n";
    assert_eq!(memory_of(meminfo), Some((25_400_000, 31_200_000)));
    assert_eq!(memory_of("MemTotal: 10 kB\nMemAvailable: 20 kB\n"), Some((0, 10)));
    assert_eq!(memory_of("MemTotal: 10 kB\n"), None);
    assert_eq!(memory_of("MemTotal: lots\nMemTotal: 10\nMemAvailable: 1\n"), None);
}

#[test]
fn cpuinfo_gives_model_cores_and_threads() {
    let cpuinfo = "processor\t: 0\nmodel name\t: AMD Ryzen 9 7940HS w/ Radeon 780M Graphics \ncpu cores\t: 8\n\nprocessor\t: 1\nmodel name\t: other\n";
    assert_eq!(
        cpu_model_of(cpuinfo),
        Some(String::from("AMD Ryzen 9 7940HS w/ Radeon 780M Graphics"))
    );
    assert_eq!(cpu_cores_of(cpuinfo), Some(8));
    assert_eq!(cpu_threads_of(cpuinfo), Some(2));
    assert_eq!(cpu_model_of("flags : fpu\n"), None);
    assert_eq!(cpu_cores_of("cpu cores : many\n"), None);
    assert_eq!(cpu_threads_of("model name : x\n"), None);
}

#[test]
fn utilisation_rounds_like_the_printed_figure_and_may_go_negative() {
    let mut reader = TelemetryReader { last_cpu: Some(CpuTimes { total: 0, idle: 0 }) };
    // (1 - 15/16) * 100 = 6.25, printed "6.2".
    assert_eq!(reader.cpu_util(Some(CpuTimes { total: 16, idle: 15 })), Some(62));
    // 100 more total jiffies but 200 more idle: (1 - 2) * 100 = -100.0.
    let mut reader = TelemetryReader { last_cpu: Some(CpuTimes { total: 1000, idle: 800 }) };
    assert_eq!(reader.cpu_util(Some(CpuTimes { total: 1100, idle: 1000 })), Some(-1000));
}

#[test]
fn simulated_readings_round_to_the_printed_tenth() {
    // 54 + 6 * -0.001 = 53.994, printed "54.0"; 22 + 18 * -0.001 = 21.982,
    // printed "22.0"; 4300 - 0.3 = 4299.7.
    let t = simulated_telemetry(-1, 0);
    assert_eq!(t.cpu_temp_tenths, Some(540));
    assert_eq!(t.cpu_util_tenths, Some(220));
    assert_eq!(t.cpu_freq_tenths, Some(42997));
    assert_eq!(t.fan_rpm, Some(2399));
    // 47 + 5 * 0.316 = 48.58, printed "48.6"; 12 + 10 * 0.316 = 15.16.
    let t = simulated_telemetry(0, 316);
    assert_eq!(t.gpu_temp_tenths, Some(486));
    assert_eq!(t.gpu_util_tenths, Some(152));
}
