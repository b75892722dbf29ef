//! Read-only system telemetry for the dashboard: temperatures, CPU
//! utilisation and clock, memory, and per-GPU load.  The readings come from
//! `/proc`, `/sys`, hwmon and `nvidia-smi`; this module holds what is
//! computed from them: the wire line, the utilisation delta, the AC
//! classification, the simulated readings and the machine-identity line.
//!
//! Fractional figures (degrees, percent, MHz) are carried in tenths, the
//! precision the wire line prints.

use vstd::prelude::*;
use vstd::string::*;

use crate::config::{find_char, split_lines, sub_range, text_lines, trim, trim_exec};
use crate::text::{
    chars_eq, chars_of, dec, parse_bounded, parse_unsigned, push_dec, split_words, string_of,
    strip_prefix, strip_prefix_chars, views, words,
};

verus! {

/// Which GPU the live GPU fields describe.
#[derive(Debug, Clone, Copy, PartialEq, Eq, Structural)]
pub enum GpuSource {
    /// The discrete NVIDIA GPU, read while it is already awake.
    Dedicated,
    /// The integrated AMD GPU (the dGPU was asleep or absent).
    Integrated,
    /// No GPU reading available.
    Absent,
}

pub open spec fn gpu_source_text(source: GpuSource) -> Seq<char> {
    match source {
        GpuSource::Dedicated => "dgpu"@,
        GpuSource::Integrated => "igpu"@,
        GpuSource::Absent => "none"@,
    }
}

impl GpuSource {
    /// The wire word of the source.
    pub fn wire(self) -> (r: &'static str)
        ensures
            r@ == gpu_source_text(self),
    {
        match self {
            GpuSource::Dedicated => "dgpu",
            GpuSource::Integrated => "igpu",
            GpuSource::Absent => "none",
        }
    }
}

/// One telemetry snapshot.  Temperatures are in tenths of a degree Celsius,
/// utilisation in tenths of a percent, clock in tenths of a MHz.
#[derive(Debug, Clone, Copy, PartialEq, Eq, Structural)]
pub struct Telemetry {
    pub cpu_temp_tenths: Option<i64>,
    pub cpu_util_tenths: Option<i64>,
    pub cpu_freq_tenths: Option<i64>,
    pub mem_used_kb: Option<u64>,
    pub mem_total_kb: Option<u64>,
    pub gpu_temp_tenths: Option<i64>,
    pub gpu_util_tenths: Option<i64>,
    pub gpu_mem_used_mb: Option<u64>,
    pub gpu_mem_total_mb: Option<u64>,
    pub gpu_source: GpuSource,
    pub fan_rpm: Option<u16>,
    pub on_ac: Option<bool>,
    pub simulated: bool,
}

/// A tenths value printed with one decimal, as `{:.1}` prints it.
pub open spec fn tenths_text(t: int) -> Seq<char> {
    if t < 0 {
        "-"@ + dec(((-t) / 10) as nat) + "."@ + dec(((-t) % 10) as nat)
    } else {
        dec((t / 10) as nat) + "."@ + dec((t % 10) as nat)
    }
}

pub open spec fn opt_tenths_text(o: Option<i64>) -> Seq<char> {
    match o {
        Some(t) => tenths_text(t as int),
        None => "none"@,
    }
}

pub open spec fn opt_count_text(o: Option<u64>) -> Seq<char> {
    match o {
        Some(n) => dec(n as nat),
        None => "none"@,
    }
}

pub open spec fn opt_rpm_text(o: Option<u16>) -> Seq<char> {
    match o {
        Some(n) => dec(n as nat),
        None => "none"@,
    }
}

pub open spec fn power_text(o: Option<bool>) -> Seq<char> {
    match o {
        Some(true) => "ac"@,
        Some(false) => "battery"@,
        None => "unknown"@,
    }
}

pub open spec fn bool_text(b: bool) -> Seq<char> {
    if b {
        "true"@
    } else {
        "false"@
    }
}

/// The `key=value` telemetry line that clients parse.
pub open spec fn telemetry_line(t: Telemetry) -> Seq<char> {
    "cpu_temp="@ + opt_tenths_text(t.cpu_temp_tenths) + " cpu_util="@ + opt_tenths_text(
        t.cpu_util_tenths,
    ) + " cpu_freq="@ + opt_tenths_text(t.cpu_freq_tenths) + " mem_used="@ + opt_count_text(
        t.mem_used_kb,
    ) + " mem_total="@ + opt_count_text(t.mem_total_kb) + " gpu_temp="@ + opt_tenths_text(
        t.gpu_temp_tenths,
    ) + " gpu_util="@ + opt_tenths_text(t.gpu_util_tenths) + " gpu_mem_used="@ + opt_count_text(
        t.gpu_mem_used_mb,
    ) + " gpu_mem_total="@ + opt_count_text(t.gpu_mem_total_mb) + " gpu_source="@
        + gpu_source_text(t.gpu_source) + " fan_rpm="@ + opt_rpm_text(t.fan_rpm) + " power="@
        + power_text(t.on_ac) + " simulated="@ + bool_text(t.simulated)
}

/// Appends `{:.1}` of a tenths value, or `none`.
pub fn push_tenths(s: &mut String, o: Option<i64>)
    ensures
        final(s)@ == old(s)@ + opt_tenths_text(o),
{
    match o {
        None => {
            s.append("none");
        },
        Some(t) => {
            let magnitude: u64;
            if t < 0 {
                s.append("-");
                magnitude = (0i128 - t as i128) as u64;
            } else {
                magnitude = t as u64;
            }
            push_dec(s, magnitude / 10);
            s.append(".");
            push_dec(s, magnitude % 10);
        },
    }
    proof {
        reveal_strlit("none");
        reveal_strlit("-");
        reveal_strlit(".");
    }
    assert(final(s)@ =~= old(s)@ + opt_tenths_text(o));
}

/// Appends a count, or `none`.
pub fn push_count(s: &mut String, o: Option<u64>)
    ensures
        final(s)@ == old(s)@ + opt_count_text(o),
{
    match o {
        None => {
            s.append("none");
        },
        Some(n) => {
            push_dec(s, n);
        },
    }
}

/// Appends `true` or `false`.
pub fn push_bool(s: &mut String, b: bool)
    ensures
        final(s)@ == old(s)@ + bool_text(b),
{
    if b {
        s.append("true");
    } else {
        s.append("false");
    }
}

pub open spec fn unavailable_spec(simulated: bool) -> Telemetry {
    Telemetry {
        cpu_temp_tenths: None,
        cpu_util_tenths: None,
        cpu_freq_tenths: None,
        mem_used_kb: None,
        mem_total_kb: None,
        gpu_temp_tenths: None,
        gpu_util_tenths: None,
        gpu_mem_used_mb: None,
        gpu_mem_total_mb: None,
        gpu_source: GpuSource::Absent,
        fan_rpm: None,
        on_ac: None,
        simulated,
    }
}

impl Telemetry {
    /// A snapshot with no reading at all.
    pub fn unavailable(simulated: bool) -> (r: Telemetry)
        ensures
            r == unavailable_spec(simulated),
    {
        Telemetry {
            cpu_temp_tenths: None,
            cpu_util_tenths: None,
            cpu_freq_tenths: None,
            mem_used_kb: None,
            mem_total_kb: None,
            gpu_temp_tenths: None,
            gpu_util_tenths: None,
            gpu_mem_used_mb: None,
            gpu_mem_total_mb: None,
            gpu_source: GpuSource::Absent,
            fan_rpm: None,
            on_ac: None,
            simulated,
        }
    }

    /// One `key=value` response line, `ok`-prefixed by the daemon.
    pub fn to_line(&self) -> (r: String)
        ensures
            r@ == telemetry_line(*self),
    {
        let mut s = String::from_str("cpu_temp=");
        push_tenths(&mut s, self.cpu_temp_tenths);
        s.append(" cpu_util=");
        push_tenths(&mut s, self.cpu_util_tenths);
        s.append(" cpu_freq=");
        push_tenths(&mut s, self.cpu_freq_tenths);
        s.append(" mem_used=");
        push_count(&mut s, self.mem_used_kb);
        s.append(" mem_total=");
        push_count(&mut s, self.mem_total_kb);
        s.append(" gpu_temp=");
        push_tenths(&mut s, self.gpu_temp_tenths);
        s.append(" gpu_util=");
        push_tenths(&mut s, self.gpu_util_tenths);
        s.append(" gpu_mem_used=");
        push_count(&mut s, self.gpu_mem_used_mb);
        s.append(" gpu_mem_total=");
        push_count(&mut s, self.gpu_mem_total_mb);
        s.append(" gpu_source=");
        s.append(self.gpu_source.wire());
        s.append(" fan_rpm=");
        match self.fan_rpm {
            Some(rpm) => push_dec(&mut s, rpm as u64),
            None => s.append("none"),
        }
        s.append(" power=");
        match self.on_ac {
            Some(true) => s.append("ac"),
            Some(false) => s.append("battery"),
            None => s.append("unknown"),
        }
        s.append(" simulated=");
        push_bool(&mut s, self.simulated);
        proof {
            reveal_strlit("cpu_temp=");
        }
        assert(s@ =~= telemetry_line(*self));
        s
    }
}


/// `n / d` rounded to the nearest whole number, a tie to the even one, as
/// `{:.1}` rounds an exact decimal.
pub open spec fn div_round_even(n: nat, d: nat) -> nat {
    let q = n / d;
    let r = n % d;
    if 2 * r < d {
        q
    } else if 2 * r > d {
        q + 1
    } else if q % 2 == 0 {
        q
    } else {
        q + 1
    }
}

fn div_round_even_exec(n: u128, d: u128) -> (r: u128)
    requires
        0 < d <= u64::MAX,
        n <= u64::MAX * 1000,
    ensures
        r == div_round_even(n as nat, d as nat),
{
    let q: u128 = n / d;
    let rem: u128 = n % d;
    assert(q <= n) by (nonlinear_arith)
        requires
            q == n / d,
            d > 0,
    ;
    if 2 * rem < d {
        q
    } else if 2 * rem > d {
        q + 1
    } else if q % 2 == 0 {
        q
    } else {
        q + 1
    }
}

/// A share of `d` rounded to a whole number never passes its bound.
proof fn lemma_round_even_bound(n: nat, d: nat, k: nat)
    requires
        d > 0,
        n <= k * d,
    ensures
        div_round_even(n, d) <= k,
{
    let q = n / d;
    let r = n % d;
    assert(n == q * d + r && 0 <= r < d) by (nonlinear_arith)
        requires
            d > 0,
            q == n / d,
            r == n % d,
    ;
    assert(q <= k) by (nonlinear_arith)
        requires
            n == q * d + r,
            0 <= r,
            n <= k * d,
            d > 0,
    ;
    if q == k {
        assert(r == 0) by (nonlinear_arith)
            requires
                n == q * d + r,
                q == k,
                n <= k * d,
                0 <= r,
        ;
    }
}

/// Simulated readings for a drift phase: `wave` and `gpu_wave` are the two
/// drift waves in thousandths (-1000 to 1000), the GPU on its own period so
/// the gauges never move in lockstep.  Degrees, loads and frequency are
/// `54 + 6w` °C, `22 + 18w` %, `4300 + 300w` MHz, `47 + 5g` °C and
/// `12 + 10g` %, rounded to tenths as `{:.1}` prints them; the fan is
/// `2400 + 350w` RPM, truncated.  At rest (both 0) the figures are
/// 54.0 °C, 22.0 %, 4300.0 MHz, 47.0 °C, 12.0 % and 2400 RPM.
pub open spec fn simulated_spec(wave: int, gpu_wave: int) -> Telemetry {
    let p = (wave + 1000) as nat;
    let g = (gpu_wave + 1000) as nat;
    Telemetry {
        cpu_temp_tenths: Some((480 + div_round_even(p * 60, 1000)) as i64),
        cpu_util_tenths: Some((40 + div_round_even(p * 180, 1000)) as i64),
        cpu_freq_tenths: Some((40000 + div_round_even(p * 3000, 1000)) as i64),
        mem_used_kb: Some(25_400_000),
        mem_total_kb: Some(31_200_000),
        gpu_temp_tenths: Some((420 + div_round_even(g * 50, 1000)) as i64),
        gpu_util_tenths: Some((20 + div_round_even(g * 100, 1000)) as i64),
        gpu_mem_used_mb: Some(2200),
        gpu_mem_total_mb: Some(8188),
        gpu_source: GpuSource::Dedicated,
        fan_rpm: Some((2050 + p * 350 / 1000) as u16),
        on_ac: Some(true),
        simulated: true,
    }
}

/// Tenths above `base` of `p * scale / 1000`, rounded as `{:.1}` does.
fn drift_tenths(base: i64, p: u128, scale: u128) -> (r: i64)
    requires
        p <= 2000,
        scale <= 3000,
        0 <= base <= 40000,
    ensures
        r == base + div_round_even((p * scale) as nat, 1000),
{
    assert(p * scale <= 6_000_000) by (nonlinear_arith)
        requires
            p <= 2000,
            scale <= 3000,
    ;
    let t = div_round_even_exec(p * scale, 1000);
    proof {
        lemma_round_even_bound((p * scale) as nat, 1000, 6000);
    }
    base + t as i64
}

/// Plausible readings that drift with the phase, so charts and gauges can
/// be exercised without hardware; always labelled simulated.
pub fn simulated_telemetry(wave: i32, gpu_wave: i32) -> (r: Telemetry)
    requires
        -1000 <= wave <= 1000,
        -1000 <= gpu_wave <= 1000,
    ensures
        r == simulated_spec(wave as int, gpu_wave as int),
{
    let p: u128 = (wave as i64 + 1000) as u128;
    let g: u128 = (gpu_wave as i64 + 1000) as u128;
    let fan: u128 = 2050 + p * 350 / 1000;
    Telemetry {
        cpu_temp_tenths: Some(drift_tenths(480, p, 60)),
        cpu_util_tenths: Some(drift_tenths(40, p, 180)),
        cpu_freq_tenths: Some(drift_tenths(40000, p, 3000)),
        mem_used_kb: Some(25_400_000),
        mem_total_kb: Some(31_200_000),
        gpu_temp_tenths: Some(drift_tenths(420, g, 50)),
        gpu_util_tenths: Some(drift_tenths(20, g, 100)),
        gpu_mem_used_mb: Some(2200),
        gpu_mem_total_mb: Some(8188),
        gpu_source: GpuSource::Dedicated,
        fan_rpm: Some(fan as u16),
        on_ac: Some(true),
        simulated: true,
    }
}

/// Simulated readings stay inside plausible ranges at every phase: CPU
/// 40–70 °C, GPU 40–60 °C, both loads 0–100 %, fan 2000–2800 RPM, GPU
/// source dedicated, and the snapshot is labelled simulated.
pub proof fn law_simulated_values_stay_plausible(wave: int, gpu_wave: int)
    requires
        -1000 <= wave <= 1000,
        -1000 <= gpu_wave <= 1000,
    ensures
        ({
            let t = simulated_spec(wave, gpu_wave);
            &&& t.cpu_temp_tenths matches Some(c) && 400 <= c <= 700
            &&& t.cpu_util_tenths matches Some(u) && 0 <= u <= 1000
            &&& t.gpu_temp_tenths matches Some(c) && 400 <= c <= 600
            &&& t.gpu_util_tenths matches Some(u) && 0 <= u <= 1000
            &&& t.fan_rpm matches Some(f) && 2000 <= f <= 2800
            &&& t.gpu_source == GpuSource::Dedicated
            &&& t.simulated
        }),
{
    let p = (wave + 1000) as nat;
    let g = (gpu_wave + 1000) as nat;
    assert(p * 60 <= 120 * 1000 && p * 180 <= 360 * 1000) by (nonlinear_arith)
        requires
            p <= 2000,
    ;
    assert(g * 50 <= 100 * 1000 && g * 100 <= 200 * 1000) by (nonlinear_arith)
        requires
            g <= 2000,
    ;
    lemma_round_even_bound(p * 60, 1000, 120);
    lemma_round_even_bound(p * 180, 1000, 360);
    lemma_round_even_bound(g * 50, 1000, 100);
    lemma_round_even_bound(g * 100, 1000, 200);
    assert(0 <= p * 350 / 1000 <= 700) by (nonlinear_arith)
        requires
            0 <= p <= 2000,
    ;
}

/// Aggregate jiffies of the `cpu` summary line of `/proc/stat`.
#[derive(Debug, Clone, Copy, PartialEq, Eq, Structural)]
pub struct CpuTimes {
    pub total: u64,
    pub idle: u64,
}

/// Busy share between two snapshots, in tenths of a percent:
/// `(1 - idle/total) * 100` rounded to tenths as `{:.1}` prints it (a tie to
/// the even tenth).  It is negative when more idle than total time passed.
/// No figure when the total did not advance or a counter went backwards,
/// nor when the figure does not fit in an `i64` of tenths.
pub open spec fn utilisation_spec(prev: CpuTimes, now: CpuTimes) -> Option<i64> {
    if now.total < prev.total || now.idle < prev.idle {
        None
    } else {
        let total = (now.total - prev.total) as nat;
        let idle = (now.idle - prev.idle) as nat;
        if total == 0 {
            None
        } else if idle <= total {
            Some(div_round_even((1000 * (total - idle)) as nat, total) as i64)
        } else {
            let magnitude = div_round_even((1000 * (idle - total)) as nat, total);
            if magnitude <= 0x8000_0000_0000_0000 {
                Some((0 - magnitude) as i64)
            } else {
                None
            }
        }
    }
}

/// Utilisation lies between 0 % and 100 % whenever no more idle than total
/// time passed between the snapshots.
pub proof fn law_utilisation_is_a_percentage(prev: CpuTimes, now: CpuTimes)
    requires
        now.total >= prev.total,
        now.idle >= prev.idle,
        now.idle - prev.idle <= now.total - prev.total,
    ensures
        utilisation_spec(prev, now) matches Some(u) ==> 0 <= u <= 1000,
{
    let total = (now.total - prev.total) as nat;
    let idle = (now.idle - prev.idle) as nat;
    if total != 0 {
        assert(1000 * (total - idle) <= 1000 * total) by (nonlinear_arith)
            requires
                idle <= total,
        ;
        lemma_round_even_bound((1000 * (total - idle)) as nat, total, 1000);
    }
}

/// Stateful telemetry source: keeps the previous CPU snapshot so that
/// utilisation is a delta between successive reads.
#[derive(Debug, Clone, Copy, PartialEq, Eq, Structural)]
pub struct TelemetryReader {
    pub last_cpu: Option<CpuTimes>,
}

impl Default for TelemetryReader {
    fn default() -> (r: TelemetryReader)
        ensures
            r.last_cpu is None,
    {
        TelemetryReader { last_cpu: None }
    }
}

impl TelemetryReader {
    /// Utilisation since the previous snapshot, then remembers `now`.  With
    /// no snapshot now (`/proc/stat` unreadable) nothing is remembered and
    /// there is no figure; the first snapshot has no figure either.
    pub fn cpu_util(&mut self, now: Option<CpuTimes>) -> (r: Option<i64>)
        ensures
            now is None ==> r is None && *final(self) == *old(self),
            now matches Some(n) ==> final(self).last_cpu == Some(n) && r == match old(self).last_cpu {
                Some(prev) => utilisation_spec(prev, n),
                None => None,
            },
    {
        let now = match now {
            Some(n) => n,
            None => return None,
        };
        let util = match self.last_cpu {
            None => None,
            Some(prev) => {
                if now.total < prev.total || now.idle < prev.idle {
                    None
                } else {
                    let total: u64 = now.total - prev.total;
                    let idle: u64 = now.idle - prev.idle;
                    if total == 0 {
                        None
                    } else if idle <= total {
                        let busy: u128 = (total - idle) as u128;
                        let q = div_round_even_exec(1000 * busy, total as u128);
                        proof {
                            lemma_round_even_bound((1000 * busy) as nat, total as nat, 1000);
                        }
                        Some(q as i64)
                    } else {
                        let spare: u128 = (idle - total) as u128;
                        let magnitude = div_round_even_exec(1000 * spare, total as u128);
                        if magnitude <= 0x8000_0000_0000_0000 {
                            if magnitude == 0x8000_0000_0000_0000 {
                                Some(i64::MIN)
                            } else {
                                Some(0 - (magnitude as i64))
                            }
                        } else {
                            None
                        }
                    }
                }
            },
        };
        self.last_cpu = Some(now);
        util
    }
}


/// One power supply as the classification sees it: the `type` file's text
/// and the `online` file's text when it could be read.
pub open spec fn supply_view(e: (String, Option<String>)) -> (Seq<char>, Option<Seq<char>>) {
    (
        e.0@,
        match e.1 {
            Some(o) => Some(o@),
            None => None,
        },
    )
}

/// A non-battery supply whose `online` file could be read.
pub open spec fn readable_adapter(e: (Seq<char>, Option<Seq<char>>)) -> bool {
    trim(e.0) != "Battery"@ && e.1 is Some
}

/// A non-battery supply that reports itself online.
pub open spec fn online_adapter(e: (Seq<char>, Option<Seq<char>>)) -> bool {
    &&& trim(e.0) != "Battery"@
    &&& e.1 matches Some(o) && trim(o) == "1"@
}

/// Any online non-battery supply means AC (the barrel adapter is type
/// "Mains", USB-C PD charging is type "USB"); at least one readable adapter
/// and none online means battery; no readable adapter means unknown.
pub open spec fn ac_verdict(s: Seq<(Seq<char>, Option<Seq<char>>)>) -> Option<bool> {
    if exists|i: int| 0 <= i < s.len() && online_adapter(#[trigger] s[i]) {
        Some(true)
    } else if exists|i: int| 0 <= i < s.len() && readable_adapter(#[trigger] s[i]) {
        Some(false)
    } else {
        None
    }
}

/// One online adapter means AC wherever it stands among the supplies: an
/// offline adapter before it never masks it.
pub proof fn law_any_online_adapter_means_ac(s: Seq<(Seq<char>, Option<Seq<char>>)>, i: int)
    requires
        0 <= i < s.len(),
        online_adapter(s[i]),
    ensures
        ac_verdict(s) == Some(true),
{
}

/// Battery entries never decide: adding one changes nothing.
pub proof fn law_battery_entries_never_decide(
    s: Seq<(Seq<char>, Option<Seq<char>>)>,
    battery: (Seq<char>, Option<Seq<char>>),
)
    requires
        trim(battery.0) == "Battery"@,
    ensures
        ac_verdict(s.push(battery)) == ac_verdict(s),
{
    let t = s.push(battery);
    assert forall|i: int| 0 <= i < s.len() implies t[i] == s[i] by {}
    if exists|i: int| 0 <= i < t.len() && online_adapter(#[trigger] t[i]) {
        let i = choose|i: int| 0 <= i < t.len() && online_adapter(#[trigger] t[i]);
        assert(i < s.len());
        assert(online_adapter(s[i]));
    }
    if exists|i: int| 0 <= i < t.len() && readable_adapter(#[trigger] t[i]) {
        let i = choose|i: int| 0 <= i < t.len() && readable_adapter(#[trigger] t[i]);
        assert(i < s.len());
        assert(readable_adapter(s[i]));
    }
    if exists|i: int| 0 <= i < s.len() && online_adapter(#[trigger] s[i]) {
        let i = choose|i: int| 0 <= i < s.len() && online_adapter(#[trigger] s[i]);
        assert(online_adapter(t[i]));
    }
    if exists|i: int| 0 <= i < s.len() && readable_adapter(#[trigger] s[i]) {
        let i = choose|i: int| 0 <= i < s.len() && readable_adapter(#[trigger] s[i]);
        assert(readable_adapter(t[i]));
    }
}

/// Classifies power-supply entries: each element is one supply's `type`
/// file contents and its `online` file contents when readable.
pub fn ac_from_supplies(entries: &[(String, Option<String>)]) -> (r: Option<bool>)
    ensures
        r == ac_verdict(entries@.map_values(|e: (String, Option<String>)| supply_view(e))),
{
    let ghost s = entries@.map_values(|e: (String, Option<String>)| supply_view(e));
    let mut saw_readable_adapter = false;
    let mut i: usize = 0;
    while i < entries.len()
        invariant
            i <= entries@.len(),
            s == entries@.map_values(|e: (String, Option<String>)| supply_view(e)),
            forall|j: int| 0 <= j < i ==> !online_adapter(#[trigger] s[j]),
            saw_readable_adapter <==> exists|j: int| 0 <= j < i && readable_adapter(#[trigger] s[j]),
        decreases entries.len() - i,
    {
        let kind = crate::config::trim_exec(crate::text::chars_of(entries[i].0.as_str()).as_slice());
        assert(s[i as int] == supply_view(entries@[i as int]));
        if !crate::text::chars_eq(kind.as_slice(), "Battery") {
            match &entries[i].1 {
                Some(online) => {
                    saw_readable_adapter = true;
                    let o = crate::config::trim_exec(crate::text::chars_of(online.as_str()).as_slice());
                    if crate::text::chars_eq(o.as_slice(), "1") {
                        assert(online_adapter(s[i as int]));
                        return Some(true);
                    }
                    assert(readable_adapter(s[i as int]));
                },
                None => {},
            }
        }
        i = i + 1;
    }
    if saw_readable_adapter {
        Some(false)
    } else {
        None
    }
}

/// Static machine identity for the dashboard's hardware panel.  The core
/// count is the `cpu cores` figure, which the line falls back from to the
/// logical count.
#[derive(Debug, Clone, PartialEq, Eq)]
pub struct MachineFacts {
    pub cpu_model: Option<String>,
    pub cpu_cores: Option<u32>,
    pub cpu_threads: Option<u32>,
    pub mem_total_kb: Option<u64>,
    pub dgpu_name: Option<String>,
    pub igpu_name: Option<String>,
}

pub open spec fn opt_string_text(o: Option<String>, absent: Seq<char>) -> Seq<char> {
    match o {
        Some(s) => s@,
        None => absent,
    }
}

pub open spec fn opt_u32_text(o: Option<u32>) -> Seq<char> {
    match o {
        Some(n) => dec(n as nat),
        None => "none"@,
    }
}

/// The machine line of a simulated daemon.
pub open spec fn simulated_sysinfo_text() -> Seq<char> {
    "cpu_model=AMD Ryzen 9 7940HS w/ Radeon 780M Graphics\tcpu_cores=8\tcpu_threads=16\tmem_total_kb=31200000\tgpu_dgpu=NVIDIA GeForce RTX 4060 Laptop GPU\tgpu_igpu=AMD Radeon 780M\tsimulated=true"@
}

/// One tab-separated `key=value` line (model names contain spaces).
pub open spec fn sysinfo_text(simulate: bool, f: MachineFacts) -> Seq<char> {
    if simulate {
        simulated_sysinfo_text()
    } else {
        "cpu_model="@ + opt_string_text(f.cpu_model, "Unknown"@) + "\tcpu_cores="@ + opt_u32_text(
            match f.cpu_cores {
                Some(c) => Some(c),
                None => f.cpu_threads,
            },
        ) + "\tcpu_threads="@ + opt_u32_text(f.cpu_threads) + "\tmem_total_kb="@ + opt_count_text(
            f.mem_total_kb,
        ) + "\tgpu_dgpu="@ + opt_string_text(f.dgpu_name, "none"@) + "\tgpu_igpu="@
            + opt_string_text(f.igpu_name, "none"@) + "\tsimulated=false"@
    }
}

pub open spec fn unknown_machine() -> MachineFacts {
    MachineFacts {
        cpu_model: None,
        cpu_cores: None,
        cpu_threads: None,
        mem_total_kb: None,
        dgpu_name: None,
        igpu_name: None,
    }
}

impl MachineFacts {
    /// Nothing known about the machine.
    pub fn unknown() -> (r: MachineFacts)
        ensures
            r == unknown_machine(),
    {
        MachineFacts {
            cpu_model: None,
            cpu_cores: None,
            cpu_threads: None,
            mem_total_kb: None,
            dgpu_name: None,
            igpu_name: None,
        }
    }
}

fn push_opt_string(s: &mut String, o: &Option<String>, absent: &str)
    ensures
        final(s)@ == old(s)@ + opt_string_text(*o, absent@),
{
    match o {
        Some(t) => s.append(t.as_str()),
        None => s.append(absent),
    }
}

fn push_opt_u32(s: &mut String, o: Option<u32>)
    ensures
        final(s)@ == old(s)@ + opt_u32_text(o),
{
    match o {
        Some(n) => push_dec(s, n as u64),
        None => s.append("none"),
    }
}

/// The machine-identity line; the simulated machine's line when `simulate`.
pub fn sysinfo(simulate: bool, facts: &MachineFacts) -> (r: String)
    ensures
        r@ == sysinfo_text(simulate, *facts),
{
    if simulate {
        return String::from_str(
            "cpu_model=AMD Ryzen 9 7940HS w/ Radeon 780M Graphics\tcpu_cores=8\tcpu_threads=16\tmem_total_kb=31200000\tgpu_dgpu=NVIDIA GeForce RTX 4060 Laptop GPU\tgpu_igpu=AMD Radeon 780M\tsimulated=true",
        );
    }
    let mut s = String::from_str("cpu_model=");
    push_opt_string(&mut s, &facts.cpu_model, "Unknown");
    s.append("\tcpu_cores=");
    let cores = match facts.cpu_cores {
        Some(c) => Some(c),
        None => facts.cpu_threads,
    };
    push_opt_u32(&mut s, cores);
    s.append("\tcpu_threads=");
    push_opt_u32(&mut s, facts.cpu_threads);
    s.append("\tmem_total_kb=");
    push_count(&mut s, facts.mem_total_kb);
    s.append("\tgpu_dgpu=");
    push_opt_string(&mut s, &facts.dgpu_name, "none");
    s.append("\tgpu_igpu=");
    push_opt_string(&mut s, &facts.igpu_name, "none");
    s.append("\tsimulated=false");
    proof {
        reveal_strlit("cpu_model=");
    }
    assert(s@ =~= sysinfo_text(simulate, *facts));
    s
}


// ----------------------------------------------------------------------
// The text of `/proc/stat`, `/proc/meminfo` and `/proc/cpuinfo`.
// ----------------------------------------------------------------------

/// The words of `ws` that parse as `u64`, in order; the others are skipped.
pub open spec fn parsed_values(ws: Seq<Seq<char>>) -> Seq<u64>
    decreases ws.len(),
{
    if ws.len() == 0 {
        Seq::empty()
    } else {
        let rest = parsed_values(ws.drop_last());
        match parse_unsigned(ws.last(), u64::MAX as nat) {
            Some(v) => rest.push(v as u64),
            None => rest,
        }
    }
}

/// The sum of `v`, wrapping at 2^64.
pub open spec fn wrapping_sum(v: Seq<u64>) -> u64
    decreases v.len(),
{
    if v.len() == 0 {
        0
    } else {
        wrapping_sum(v.drop_last()).wrapping_add(v.last())
    }
}

/// The aggregate jiffies of the first line of `/proc/stat` when it is the
/// `cpu` summary line with at least four counters: the total of all of its
/// counters, and idle plus iowait (the fourth and fifth) as idle time.
pub open spec fn cpu_times_spec(stat: Seq<char>) -> Option<CpuTimes> {
    let ls = text_lines(stat);
    if ls.len() == 0 {
        None
    } else {
        let ws = words(ls[0]);
        if ws.len() == 0 || ws[0] != "cpu"@ {
            None
        } else {
            let values = parsed_values(ws.drop_first());
            if values.len() < 4 {
                None
            } else {
                let iowait: u64 = if values.len() > 4 {
                    values[4]
                } else {
                    0
                };
                Some(CpuTimes { total: wrapping_sum(values), idle: values[3].wrapping_add(iowait) })
            }
        }
    }
}

/// Reads the aggregate CPU jiffies out of the text of `/proc/stat`.
pub fn cpu_times_of(stat: &str) -> (r: Option<CpuTimes>)
    ensures
        r == cpu_times_spec(stat@),
{
    let chars = chars_of(stat);
    let lines = split_lines(chars.as_slice());
    if lines.len() == 0 {
        return None;
    }
    let ws = split_words(lines[0].as_slice());
    proof {
        assert(views(lines@)[0] == lines@[0]@);
    }
    if ws.len() == 0 || !chars_eq(ws[0].as_slice(), "cpu") {
        proof {
            if ws.len() > 0 {
                assert(views(ws@)[0] == ws@[0]@);
            }
        }
        return None;
    }
    assert(views(ws@)[0] == ws@[0]@);
    let ghost tail = views(ws@).drop_first();
    let mut values: Vec<u64> = Vec::new();
    let mut i: usize = 1;
    assert(tail.subrange(0, 0) =~= Seq::<Seq<char>>::empty());
    while i < ws.len()
        invariant
            1 <= i <= ws@.len(),
            tail == views(ws@).drop_first(),
            values@ == parsed_values(tail.subrange(0, i - 1)),
        decreases ws.len() - i,
    {
        let ghost before = tail.subrange(0, i - 1);
        assert(tail.subrange(0, i as int).drop_last() =~= before);
        assert(tail.subrange(0, i as int).last() == ws@[i as int]@);
        match parse_bounded(ws[i].as_slice(), u64::MAX) {
            Some(v) => values.push(v),
            None => {},
        }
        i = i + 1;
    }
    assert(tail.subrange(0, tail.len() as int) =~= tail);
    if values.len() < 4 {
        return None;
    }
    let iowait: u64 = if values.len() > 4 {
        values[4]
    } else {
        0
    };
    let idle: u64 = values[3].wrapping_add(iowait);
    let mut total: u64 = 0;
    let mut j: usize = 0;
    assert(values@.subrange(0, 0) =~= Seq::<u64>::empty());
    while j < values.len()
        invariant
            j <= values@.len(),
            total == wrapping_sum(values@.subrange(0, j as int)),
        decreases values.len() - j,
    {
        assert(values@.subrange(0, j + 1).drop_last() =~= values@.subrange(0, j as int));
        total = total.wrapping_add(values[j]);
        j = j + 1;
    }
    assert(values@.subrange(0, values@.len() as int) =~= values@);
    Some(CpuTimes { total, idle })
}

/// The rest of the first line of `ls`, from `i` on, that starts with `key`.
pub open spec fn first_prefixed(ls: Seq<Seq<char>>, key: Seq<char>, i: int) -> Option<Seq<char>>
    decreases ls.len() - i,
{
    if i < 0 || i >= ls.len() {
        None
    } else {
        match strip_prefix(ls[i], key) {
            Some(rest) => Some(rest),
            None => first_prefixed(ls, key, i + 1),
        }
    }
}

/// A `/proc/meminfo` figure: the first word after the first line starting
/// with `key`, as a `u64`.
pub open spec fn meminfo_field(ls: Seq<Seq<char>>, key: Seq<char>) -> Option<u64> {
    match first_prefixed(ls, key, 0) {
        None => None,
        Some(rest) => {
            let ws = words(rest);
            if ws.len() == 0 {
                None
            } else {
                match parse_unsigned(ws[0], u64::MAX as nat) {
                    Some(v) => Some(v as u64),
                    None => None,
                }
            }
        },
    }
}

/// (used, total) memory in kB: total less available, never below zero.
pub open spec fn memory_spec(meminfo: Seq<char>) -> Option<(u64, u64)> {
    let ls = text_lines(meminfo);
    match (meminfo_field(ls, "MemTotal:"@), meminfo_field(ls, "MemAvailable:"@)) {
        (Some(total), Some(available)) => Some(
            (
                if total >= available {
                    (total - available) as u64
                } else {
                    0
                },
                total,
            ),
        ),
        _ => None,
    }
}

fn meminfo_field_exec(lines: &Vec<Vec<char>>, key: &str) -> (r: Option<u64>)
    ensures
        r == meminfo_field(views(lines@), key@),
{
    let ghost ls = views(lines@);
    let mut i: usize = 0;
    while i < lines.len()
        invariant
            i <= lines@.len(),
            ls == views(lines@),
            first_prefixed(ls, key@, 0) == first_prefixed(ls, key@, i as int),
        decreases lines.len() - i,
    {
        assert(ls[i as int] == lines@[i as int]@);
        match strip_prefix_chars(lines[i].as_slice(), key) {
            Some(rest) => {
                let ws = split_words(rest.as_slice());
                if ws.len() == 0 {
                    return None;
                }
                assert(views(ws@)[0] == ws@[0]@);
                return parse_bounded(ws[0].as_slice(), u64::MAX);
            },
            None => {},
        }
        i = i + 1;
    }
    None
}

/// Reads (used, total) memory in kB out of the text of `/proc/meminfo`.
pub fn memory_of(meminfo: &str) -> (r: Option<(u64, u64)>)
    ensures
        r == memory_spec(meminfo@),
{
    let chars = chars_of(meminfo);
    let lines = split_lines(chars.as_slice());
    let total = meminfo_field_exec(&lines, "MemTotal:");
    let available = meminfo_field_exec(&lines, "MemAvailable:");
    match (total, available) {
        (Some(total), Some(available)) => Some((total.saturating_sub(available), total)),
        _ => None,
    }
}

/// `line.split_once(':')`.
pub open spec fn split_colon(line: Seq<char>) -> Option<(Seq<char>, Seq<char>)> {
    match find_char(line, ':', 0) {
        Some(i) => Some((line.subrange(0, i), line.subrange(i + 1, line.len() as int))),
        None => None,
    }
}

/// The value part of the first line, from `i` on, of the form
/// `key : value` with `key` trimmed equal to `key`.
pub open spec fn first_keyed(ls: Seq<Seq<char>>, key: Seq<char>, i: int) -> Option<Seq<char>>
    decreases ls.len() - i,
{
    if i < 0 || i >= ls.len() {
        None
    } else {
        match split_colon(ls[i]) {
            Some((k, v)) => if trim(k) == key {
                Some(v)
            } else {
                first_keyed(ls, key, i + 1)
            },
            None => first_keyed(ls, key, i + 1),
        }
    }
}

fn first_keyed_exec(lines: &Vec<Vec<char>>, key: &str) -> (r: Option<Vec<char>>)
    ensures
        r matches Some(v) ==> first_keyed(views(lines@), key@, 0) == Some(v@),
        r is None ==> first_keyed(views(lines@), key@, 0) is None,
{
    let ghost ls = views(lines@);
    let mut i: usize = 0;
    while i < lines.len()
        invariant
            i <= lines@.len(),
            ls == views(lines@),
            first_keyed(ls, key@, 0) == first_keyed(ls, key@, i as int),
        decreases lines.len() - i,
    {
        let line = &lines[i];
        assert(ls[i as int] == line@);
        match crate::config::find_char_exec(line.as_slice(), ':', 0) {
            Some(at) => {
                let n: usize = line.len();
                assert(at < n);
                let k = sub_range(line.as_slice(), 0, at);
                let k = trim_exec(k.as_slice());
                if chars_eq(k.as_slice(), key) {
                    return Some(sub_range(line.as_slice(), at + 1, n));
                }
            },
            None => {},
        }
        i = i + 1;
    }
    None
}

/// The `model name` of the first processor in `/proc/cpuinfo`, trimmed.
pub open spec fn cpu_model_spec(cpuinfo: Seq<char>) -> Option<Seq<char>> {
    match first_keyed(text_lines(cpuinfo), "model name"@, 0) {
        Some(v) => Some(trim(v)),
        None => None,
    }
}

pub fn cpu_model_of(cpuinfo: &str) -> (r: Option<String>)
    ensures
        r matches Some(m) ==> cpu_model_spec(cpuinfo@) == Some(m@),
        r is None ==> cpu_model_spec(cpuinfo@) is None,
{
    let chars = chars_of(cpuinfo);
    let lines = split_lines(chars.as_slice());
    match first_keyed_exec(&lines, "model name") {
        Some(v) => {
            let t = trim_exec(v.as_slice());
            Some(string_of(t.as_slice()))
        },
        None => None,
    }
}

/// The `cpu cores` figure of the first processor in `/proc/cpuinfo`.
pub open spec fn cpu_cores_spec(cpuinfo: Seq<char>) -> Option<u32> {
    match first_keyed(text_lines(cpuinfo), "cpu cores"@, 0) {
        Some(v) => match parse_unsigned(trim(v), u32::MAX as nat) {
            Some(n) => Some(n as u32),
            None => None,
        },
        None => None,
    }
}

pub fn cpu_cores_of(cpuinfo: &str) -> (r: Option<u32>)
    ensures
        r == cpu_cores_spec(cpuinfo@),
{
    let chars = chars_of(cpuinfo);
    let lines = split_lines(chars.as_slice());
    match first_keyed_exec(&lines, "cpu cores") {
        Some(v) => {
            let t = trim_exec(v.as_slice());
            match parse_bounded(t.as_slice(), u32::MAX as u64) {
                Some(n) => Some(n as u32),
                None => None,
            }
        },
        None => None,
    }
}

/// How many lines of `ls` start with `processor`.
pub open spec fn processor_lines(ls: Seq<Seq<char>>) -> nat
    decreases ls.len(),
{
    if ls.len() == 0 {
        0
    } else {
        processor_lines(ls.drop_last()) + if strip_prefix(ls.last(), "processor"@) is Some {
            1nat
        } else {
            0nat
        }
    }
}

/// The logical CPU count: the `processor` lines of `/proc/cpuinfo`, when
/// there are any.
pub open spec fn cpu_threads_spec(cpuinfo: Seq<char>) -> Option<u32> {
    let n = processor_lines(text_lines(cpuinfo));
    if n > 0 {
        Some(n as u32)
    } else {
        None
    }
}

pub fn cpu_threads_of(cpuinfo: &str) -> (r: Option<u32>)
    ensures
        r == cpu_threads_spec(cpuinfo@),
{
    let chars = chars_of(cpuinfo);
    let lines = split_lines(chars.as_slice());
    let ghost ls = views(lines@);
    let mut count: usize = 0;
    let mut i: usize = 0;
    assert(ls.subrange(0, 0) =~= Seq::<Seq<char>>::empty());
    while i < lines.len()
        invariant
            i <= lines@.len(),
            ls == views(lines@),
            count == processor_lines(ls.subrange(0, i as int)),
            count <= i,
        decreases lines.len() - i,
    {
        assert(ls.subrange(0, i + 1).drop_last() =~= ls.subrange(0, i as int));
        assert(ls.subrange(0, i + 1).last() == lines@[i as int]@);
        if strip_prefix_chars(lines[i].as_slice(), "processor").is_some() {
            count = count + 1;
        }
        i = i + 1;
    }
    assert(ls.subrange(0, ls.len() as int) =~= ls);
    if count > 0 {
        Some(count as u32)
    } else {
        None
    }
}

} // verus!
