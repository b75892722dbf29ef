//! Line-oriented IPC protocol shared by the daemon, the `ctl` client, and the
//! `validate` CLI.  One request per line, split on whitespace; the daemon
//! answers with a single line starting with `ok` or `err`.

use vstd::prelude::*;
use vstd::string::*;

use crate::text::{
    lemma_find_from_first, lemma_hex_pair_round_trip, occurs_at,
    chars_eq, chars_of, debug_text, dec, hex_fixed, hex_pair, join_with_spaces, join_words, parse_hex_pair,
    parse_u16, parse_u8, parse_unsigned, push_dec, push_hex, split_once, split_once_chars, split_words,
    str_debug, string_of, strip_prefix, strip_prefix_chars, views, words, is_ws, ws_scan, one_line,
    lemma_one_line_concat, lemma_parse_dec, lemma_dec_digits, lemma_visible_concat, visible,
};
use crate::{BoostLevel, FanMode, LightingEffect, LogoMode, Profile, RequestedOperation};

verus! {

#[derive(Debug, Clone, Copy, PartialEq, Eq, Structural)]
pub enum Request {
    Ping,
    Status,
    Telemetry,
    SysInfo,
    /// Configure the fan choice applied when the power source changes;
    /// `None` clears the rule for that source.
    Automation { on_ac: bool, fan: Option<FanMode> },
    /// Configure the keyboard brightness applied when the power source
    /// changes; `None` clears the rule for that source.
    KbdAutomation { on_ac: bool, brightness: Option<u8> },
    Operation(RequestedOperation),
}

/// `r` is the executable rendering of the specified outcome `s`: the same
/// value, or an error carrying exactly the specified text.
pub open spec fn same_outcome<T>(r: Result<T, String>, s: Result<T, Seq<char>>) -> bool {
    match (r, s) {
        (Ok(a), Ok(b)) => a == b,
        (Err(m), Err(n)) => m@ == n,
        _ => false,
    }
}

pub open spec fn level_name(level: BoostLevel) -> Seq<char> {
    match level {
        BoostLevel::Low => "low"@,
        BoostLevel::Medium => "medium"@,
        BoostLevel::High => "high"@,
        BoostLevel::Boost => "boost"@,
    }
}

pub open spec fn boost_level_of(name: Seq<char>) -> Result<BoostLevel, Seq<char>> {
    if name == "low"@ {
        Ok(BoostLevel::Low)
    } else if name == "medium"@ {
        Ok(BoostLevel::Medium)
    } else if name == "high"@ {
        Ok(BoostLevel::High)
    } else if name == "boost"@ {
        Ok(BoostLevel::Boost)
    } else {
        Err(
            "unknown boost level "@ + str_debug(name)
                + "; expected low, medium, high, or boost"@,
        )
    }
}

fn boost_level_words(name: &[char]) -> (r: Result<BoostLevel, String>)
    ensures
        same_outcome(r, boost_level_of(name@)),
        r matches Err(m) ==> one_line(m@),
{
    if chars_eq(name, "low") {
        Ok(BoostLevel::Low)
    } else if chars_eq(name, "medium") {
        Ok(BoostLevel::Medium)
    } else if chars_eq(name, "high") {
        Ok(BoostLevel::High)
    } else if chars_eq(name, "boost") {
        Ok(BoostLevel::Boost)
    } else {
        let mut m = String::new();
        m.append("unknown boost level ");
        let text = string_of(name);
        let quoted = debug_text(text.as_str());
        m.append(quoted.as_str());
        m.append("; expected low, medium, high, or boost");
        proof {
            reveal_strlit("unknown boost level ");
            reveal_strlit("; expected low, medium, high, or boost");
            lemma_one_line_concat("unknown boost level "@, quoted@);
            lemma_one_line_concat("unknown boost level "@ + quoted@, "; expected low, medium, high, or boost"@);
        }
        assert(m@ =~= "unknown boost level "@ + str_debug(name@)
            + "; expected low, medium, high, or boost"@);
        Err(m)
    }
}

pub fn parse_boost_level(name: &str) -> (r: Result<BoostLevel, String>)
    ensures
        same_outcome(r, boost_level_of(name@)),
        r matches Err(m) ==> one_line(m@),
{
    let chars = chars_of(name);
    boost_level_words(chars.as_slice())
}

pub fn describe_boost_level(level: BoostLevel) -> (r: &'static str)
    ensures
        r@ == level_name(level),
{
    match level {
        BoostLevel::Low => "low",
        BoostLevel::Medium => "medium",
        BoostLevel::High => "high",
        BoostLevel::Boost => "boost",
    }
}

/// `rrggbb`: exactly six ASCII hex digits, two per channel.
pub open spec fn rgb_of(color: Seq<char>) -> Option<(u8, u8, u8)> {
    if color.len() != 6 {
        None
    } else {
        match (
            hex_pair(color[0], color[1]),
            hex_pair(color[2], color[3]),
            hex_pair(color[4], color[5]),
        ) {
            (Some(r), Some(g), Some(b)) => Some((r as u8, g as u8, b as u8)),
            _ => None,
        }
    }
}

fn rgb_words(color: &[char]) -> (r: Option<(u8, u8, u8)>)
    ensures
        r == rgb_of(color@),
{
    if color.len() != 6 {
        return None;
    }
    match (
        parse_hex_pair(color[0], color[1]),
        parse_hex_pair(color[2], color[3]),
        parse_hex_pair(color[4], color[5]),
    ) {
        (Some(r), Some(g), Some(b)) => Some((r, g, b)),
        _ => None,
    }
}

/// `rrggbb` hex to (r, g, b).  Every accepted character is ASCII, so the
/// six characters are also the six bytes of its UTF-8 text.
pub fn parse_rgb(color: &str) -> (r: Option<(u8, u8, u8)>)
    ensures
        r == rgb_of(color@),
{
    let chars = chars_of(color);
    rgb_words(chars.as_slice())
}

pub open spec fn effect_text(effect: LightingEffect) -> Seq<char> {
    match effect {
        LightingEffect::Off => "off"@,
        LightingEffect::Spectrum => "spectrum"@,
        LightingEffect::Wave => "wave"@,
        LightingEffect::Static { red, green, blue } => "static:"@ + hex_fixed(red as nat, 2)
            + hex_fixed(green as nat, 2) + hex_fixed(blue as nat, 2),
    }
}

pub fn describe_effect(effect: LightingEffect) -> (r: String)
    ensures
        r@ == effect_text(effect),
{
    match effect {
        LightingEffect::Off => String::from_str("off"),
        LightingEffect::Spectrum => String::from_str("spectrum"),
        LightingEffect::Wave => String::from_str("wave"),
        LightingEffect::Static { red, green, blue } => {
            let mut s = String::from_str("static:");
            push_hex(&mut s, red as u64, 2);
            push_hex(&mut s, green as u64, 2);
            push_hex(&mut s, blue as u64, 2);
            assert(s@ =~= effect_text(effect));
            s
        },
    }
}

pub open spec fn effect_of(value: Seq<char>) -> Option<LightingEffect> {
    if value == "off"@ {
        Some(LightingEffect::Off)
    } else if value == "spectrum"@ {
        Some(LightingEffect::Spectrum)
    } else if value == "wave"@ {
        Some(LightingEffect::Wave)
    } else {
        match strip_prefix(value, "static:"@) {
            Some(rest) => match rgb_of(rest) {
                Some((red, green, blue)) => Some(LightingEffect::Static { red, green, blue }),
                None => None,
            },
            None => None,
        }
    }
}

pub(crate) fn effect_words(value: &[char]) -> (r: Option<LightingEffect>)
    ensures
        r == effect_of(value@),
{
    if chars_eq(value, "off") {
        Some(LightingEffect::Off)
    } else if chars_eq(value, "spectrum") {
        Some(LightingEffect::Spectrum)
    } else if chars_eq(value, "wave") {
        Some(LightingEffect::Wave)
    } else {
        match strip_prefix_chars(value, "static:") {
            Some(rest) => match rgb_words(rest.as_slice()) {
                Some((red, green, blue)) => Some(LightingEffect::Static { red, green, blue }),
                None => None,
            },
            None => None,
        }
    }
}

pub fn parse_effect(value: &str) -> (r: Option<LightingEffect>)
    ensures
        r == effect_of(value@),
{
    let chars = chars_of(value);
    effect_words(chars.as_slice())
}

pub open spec fn logo_text(mode: LogoMode) -> Seq<char> {
    match mode {
        LogoMode::Off => "off"@,
        LogoMode::Static => "static"@,
        LogoMode::Breathing => "breathing"@,
    }
}

pub fn describe_logo(mode: LogoMode) -> (r: &'static str)
    ensures
        r@ == logo_text(mode),
{
    match mode {
        LogoMode::Off => "off",
        LogoMode::Static => "static",
        LogoMode::Breathing => "breathing",
    }
}

pub open spec fn logo_of(value: Seq<char>) -> Option<LogoMode> {
    if value == "off"@ {
        Some(LogoMode::Off)
    } else if value == "static"@ {
        Some(LogoMode::Static)
    } else if value == "breathing"@ {
        Some(LogoMode::Breathing)
    } else {
        None
    }
}

pub(crate) fn logo_words(value: &[char]) -> (r: Option<LogoMode>)
    ensures
        r == logo_of(value@),
{
    if chars_eq(value, "off") {
        Some(LogoMode::Off)
    } else if chars_eq(value, "static") {
        Some(LogoMode::Static)
    } else if chars_eq(value, "breathing") {
        Some(LogoMode::Breathing)
    } else {
        None
    }
}

pub fn parse_logo(value: &str) -> (r: Option<LogoMode>)
    ensures
        r == logo_of(value@),
{
    let chars = chars_of(value);
    logo_words(chars.as_slice())
}

/// One-token profile description, used by `status`, persistence, and the
/// GUI; [`profile_of`] is its inverse.
pub open spec fn profile_text(profile: Profile) -> Seq<char> {
    match profile {
        Profile::Silent => "silent"@,
        Profile::Balanced => "balanced"@,
        Profile::Gaming => "gaming"@,
        Profile::Custom { cpu, gpu } => "custom:cpu="@ + level_name(cpu) + ",gpu="@ + level_name(
            gpu,
        ),
    }
}

pub fn describe_profile(profile: Profile) -> (r: String)
    ensures
        r@ == profile_text(profile),
{
    match profile {
        Profile::Silent => String::from_str("silent"),
        Profile::Balanced => String::from_str("balanced"),
        Profile::Gaming => String::from_str("gaming"),
        Profile::Custom { cpu, gpu } => {
            let mut s = String::from_str("custom:cpu=");
            s.append(describe_boost_level(cpu));
            s.append(",gpu=");
            s.append(describe_boost_level(gpu));
            assert(s@ =~= profile_text(profile));
            s
        },
    }
}

pub open spec fn profile_of(value: Seq<char>) -> Option<Profile> {
    if value == "silent"@ {
        Some(Profile::Silent)
    } else if value == "balanced"@ {
        Some(Profile::Balanced)
    } else if value == "gaming"@ {
        Some(Profile::Gaming)
    } else {
        match strip_prefix(value, "custom:cpu="@) {
            None => None,
            Some(rest) => match split_once(rest, ",gpu="@) {
                None => None,
                Some((cpu, gpu)) => match (boost_level_of(cpu), boost_level_of(gpu)) {
                    (Ok(cpu), Ok(gpu)) => Some(Profile::Custom { cpu, gpu }),
                    _ => None,
                },
            },
        }
    }
}

pub(crate) fn profile_words(value: &[char]) -> (r: Option<Profile>)
    ensures
        r == profile_of(value@),
{
    if chars_eq(value, "silent") {
        return Some(Profile::Silent);
    }
    if chars_eq(value, "balanced") {
        return Some(Profile::Balanced);
    }
    if chars_eq(value, "gaming") {
        return Some(Profile::Gaming);
    }
    let rest = match strip_prefix_chars(value, "custom:cpu=") {
        Some(rest) => rest,
        None => return None,
    };
    let (cpu, gpu) = match split_once_chars(rest.as_slice(), ",gpu=") {
        Some(parts) => parts,
        None => return None,
    };
    match (boost_level_words(cpu.as_slice()), boost_level_words(gpu.as_slice())) {
        (Ok(cpu), Ok(gpu)) => Some(Profile::Custom { cpu, gpu }),
        _ => None,
    }
}

pub fn parse_profile(value: &str) -> (r: Option<Profile>)
    ensures
        r == profile_of(value@),
{
    let chars = chars_of(value);
    profile_words(chars.as_slice())
}

pub open spec fn fan_mode_text(mode: FanMode) -> Seq<char> {
    match mode {
        FanMode::Auto => "auto"@,
        FanMode::Manual(rpm) => "manual:"@ + dec(rpm as nat),
    }
}

pub fn describe_fan_mode(mode: FanMode) -> (r: String)
    ensures
        r@ == fan_mode_text(mode),
{
    match mode {
        FanMode::Auto => String::from_str("auto"),
        FanMode::Manual(rpm) => {
            let mut s = String::from_str("manual:");
            push_dec(&mut s, rpm as u64);
            assert(s@ =~= fan_mode_text(mode));
            s
        },
    }
}

// ----------------------------------------------------------------------
// Requests.
// ----------------------------------------------------------------------

pub open spec fn unknown_request(t: Seq<Seq<char>>) -> Seq<char> {
    "unknown request "@ + str_debug(join_words(t))
}

/// The operation a whitespace-split request denotes, or the error text.
pub open spec fn operation_of(t: Seq<Seq<char>>) -> Result<RequestedOperation, Seq<char>> {
    if t.len() == 2 && t[0] == "fan"@ && t[1] == "auto"@ {
        Ok(RequestedOperation::Fan(FanMode::Auto))
    } else if t.len() == 3 && t[0] == "fan"@ && t[1] == "manual"@ {
        match parse_unsigned(t[2], 65535) {
            Some(rpm) => Ok(RequestedOperation::Fan(FanMode::Manual(rpm as u16))),
            None => Err("fan RPM must be an integer"@),
        }
    } else if t.len() == 2 && t[0] == "bho"@ && t[1] == "off"@ {
        Ok(RequestedOperation::BatteryHealthOff)
    } else if t.len() == 2 && t[0] == "bho"@ {
        match parse_unsigned(t[1], 255) {
            Some(limit) => Ok(RequestedOperation::BatteryHealthLimit(limit as u8)),
            None => Err("battery health limit must be an integer"@),
        }
    } else if t.len() == 2 && t[0] == "profile"@ && t[1] == "silent"@ {
        Ok(RequestedOperation::Profile(Profile::Silent))
    } else if t.len() == 2 && t[0] == "profile"@ && t[1] == "balanced"@ {
        Ok(RequestedOperation::Profile(Profile::Balanced))
    } else if t.len() == 2 && t[0] == "profile"@ && t[1] == "gaming"@ {
        Ok(RequestedOperation::Profile(Profile::Gaming))
    } else if t.len() == 6 && t[0] == "profile"@ && t[1] == "custom"@ && t[2] == "cpu"@ && t[4]
        == "gpu"@ {
        match boost_level_of(t[3]) {
            Err(e) => Err(e),
            Ok(cpu) => match boost_level_of(t[5]) {
                Err(e) => Err(e),
                Ok(gpu) => Ok(RequestedOperation::Profile(Profile::Custom { cpu, gpu })),
            },
        }
    } else if t.len() >= 1 && t[0] == "profile"@ {
        Err(
            "expected: profile <silent|balanced|gaming> or profile custom cpu <level> gpu <level>"@,
        )
    } else if t.len() == 3 && t[0] == "kbd"@ && t[1] == "brightness"@ {
        match parse_unsigned(t[2], 255) {
            Some(p) => Ok(RequestedOperation::KeyboardBrightness(p as u8)),
            None => Err("keyboard brightness must be an integer percent"@),
        }
    } else if t.len() == 3 && t[0] == "kbd"@ && t[1] == "effect"@ && t[2] == "off"@ {
        Ok(RequestedOperation::KeyboardEffect(LightingEffect::Off))
    } else if t.len() == 3 && t[0] == "kbd"@ && t[1] == "effect"@ && t[2] == "spectrum"@ {
        Ok(RequestedOperation::KeyboardEffect(LightingEffect::Spectrum))
    } else if t.len() == 3 && t[0] == "kbd"@ && t[1] == "effect"@ && t[2] == "wave"@ {
        Ok(RequestedOperation::KeyboardEffect(LightingEffect::Wave))
    } else if t.len() == 4 && t[0] == "kbd"@ && t[1] == "effect"@ && t[2] == "static"@ {
        match rgb_of(t[3]) {
            Some((red, green, blue)) => Ok(
                RequestedOperation::KeyboardEffect(LightingEffect::Static { red, green, blue }),
            ),
            None => Err("expected: kbd effect static <rrggbb>"@),
        }
    } else if t.len() >= 1 && t[0] == "kbd"@ {
        Err(
            "expected: kbd brightness <0-100> or kbd effect <off|spectrum|wave|static <rrggbb>>"@,
        )
    } else if t.len() == 2 && t[0] == "logo"@ && t[1] == "off"@ {
        Ok(RequestedOperation::Logo(LogoMode::Off))
    } else if t.len() == 2 && t[0] == "logo"@ && t[1] == "static"@ {
        Ok(RequestedOperation::Logo(LogoMode::Static))
    } else if t.len() == 2 && t[0] == "logo"@ && t[1] == "breathing"@ {
        Ok(RequestedOperation::Logo(LogoMode::Breathing))
    } else if t.len() >= 1 && t[0] == "logo"@ {
        Err("expected: logo <off|static|breathing>"@)
    } else {
        Err(unknown_request(t))
    }
}

fn err_text(text: &str) -> (r: Result<RequestedOperation, String>)
    requires
        one_line(text@),
    ensures
        r matches Err(m) && m@ == text@,
{
    Err(String::from_str(text))
}

fn operation_words(t: &[Vec<char>]) -> (r: Result<RequestedOperation, String>)
    ensures
        same_outcome(r, operation_of(views(t@))),
        r matches Err(m) ==> one_line(m@),
{
    let ghost w = views(t@);
    let n: usize = t.len();
    assert(w.len() == n);
    assert(forall|i: int| 0 <= i < n ==> w[i] == t@[i]@);
    if n == 2 && chars_eq(&t[0], "fan") && chars_eq(&t[1], "auto") {
        return Ok(RequestedOperation::Fan(FanMode::Auto));
    }
    if n == 3 && chars_eq(&t[0], "fan") && chars_eq(&t[1], "manual") {
        return match parse_u16(&t[2]) {
            Some(rpm) => Ok(RequestedOperation::Fan(FanMode::Manual(rpm))),
            None => {
                proof {
                    reveal_strlit("fan RPM must be an integer");
                }
                err_text("fan RPM must be an integer")
            },
        };
    }
    if n == 2 && chars_eq(&t[0], "bho") && chars_eq(&t[1], "off") {
        return Ok(RequestedOperation::BatteryHealthOff);
    }
    if n == 2 && chars_eq(&t[0], "bho") {
        return match parse_u8(&t[1]) {
            Some(limit) => Ok(RequestedOperation::BatteryHealthLimit(limit)),
            None => {
                proof {
                    reveal_strlit("battery health limit must be an integer");
                }
                err_text("battery health limit must be an integer")
            },
        };
    }
    if n == 2 && chars_eq(&t[0], "profile") && chars_eq(&t[1], "silent") {
        return Ok(RequestedOperation::Profile(Profile::Silent));
    }
    if n == 2 && chars_eq(&t[0], "profile") && chars_eq(&t[1], "balanced") {
        return Ok(RequestedOperation::Profile(Profile::Balanced));
    }
    if n == 2 && chars_eq(&t[0], "profile") && chars_eq(&t[1], "gaming") {
        return Ok(RequestedOperation::Profile(Profile::Gaming));
    }
    if n == 6 && chars_eq(&t[0], "profile") && chars_eq(&t[1], "custom") && chars_eq(&t[2], "cpu")
        && chars_eq(&t[4], "gpu") {
        let cpu = match boost_level_words(&t[3]) {
            Ok(level) => level,
            Err(e) => return Err(e),
        };
        let gpu = match boost_level_words(&t[5]) {
            Ok(level) => level,
            Err(e) => return Err(e),
        };
        return Ok(RequestedOperation::Profile(Profile::Custom { cpu, gpu }));
    }
    if n >= 1 && chars_eq(&t[0], "profile") {
        proof {
            reveal_strlit("expected: profile <silent|balanced|gaming> or profile custom cpu <level> gpu <level>");
        }
        return err_text("expected: profile <silent|balanced|gaming> or profile custom cpu <level> gpu <level>");
    }
    if n == 3 && chars_eq(&t[0], "kbd") && chars_eq(&t[1], "brightness") {
        return match parse_u8(&t[2]) {
            Some(p) => Ok(RequestedOperation::KeyboardBrightness(p)),
            None => {
                proof {
                    reveal_strlit("keyboard brightness must be an integer percent");
                }
                err_text("keyboard brightness must be an integer percent")
            },
        };
    }
    if n == 3 && chars_eq(&t[0], "kbd") && chars_eq(&t[1], "effect") && chars_eq(&t[2], "off") {
        return Ok(RequestedOperation::KeyboardEffect(LightingEffect::Off));
    }
    if n == 3 && chars_eq(&t[0], "kbd") && chars_eq(&t[1], "effect") && chars_eq(
        &t[2],
        "spectrum",
    ) {
        return Ok(RequestedOperation::KeyboardEffect(LightingEffect::Spectrum));
    }
    if n == 3 && chars_eq(&t[0], "kbd") && chars_eq(&t[1], "effect") && chars_eq(&t[2], "wave") {
        return Ok(RequestedOperation::KeyboardEffect(LightingEffect::Wave));
    }
    if n == 4 && chars_eq(&t[0], "kbd") && chars_eq(&t[1], "effect") && chars_eq(&t[2], "static") {
        return match rgb_words(&t[3]) {
            Some((red, green, blue)) => Ok(
                RequestedOperation::KeyboardEffect(LightingEffect::Static { red, green, blue }),
            ),
            None => {
                proof {
                    reveal_strlit("expected: kbd effect static <rrggbb>");
                }
                err_text("expected: kbd effect static <rrggbb>")
            },
        };
    }
    if n >= 1 && chars_eq(&t[0], "kbd") {
        proof {
            reveal_strlit("expected: kbd brightness <0-100> or kbd effect <off|spectrum|wave|static <rrggbb>>");
        }
        return err_text("expected: kbd brightness <0-100> or kbd effect <off|spectrum|wave|static <rrggbb>>");
    }
    if n == 2 && chars_eq(&t[0], "logo") && chars_eq(&t[1], "off") {
        return Ok(RequestedOperation::Logo(LogoMode::Off));
    }
    if n == 2 && chars_eq(&t[0], "logo") && chars_eq(&t[1], "static") {
        return Ok(RequestedOperation::Logo(LogoMode::Static));
    }
    if n == 2 && chars_eq(&t[0], "logo") && chars_eq(&t[1], "breathing") {
        return Ok(RequestedOperation::Logo(LogoMode::Breathing));
    }
    if n >= 1 && chars_eq(&t[0], "logo") {
        proof {
            reveal_strlit("expected: logo <off|static|breathing>");
        }
        return err_text("expected: logo <off|static|breathing>");
    }
    let joined = join_with_spaces(t);
    let text = string_of(joined.as_slice());
    let quoted = debug_text(text.as_str());
    let mut m = String::from_str("unknown request ");
    m.append(quoted.as_str());
    proof {
        reveal_strlit("unknown request ");
        lemma_one_line_concat("unknown request "@, quoted@);
    }
    assert(m@ =~= unknown_request(w));
    Err(m)
}

/// Parses the words of an operation request.
pub fn parse_operation(tokens: &[&str]) -> (r: Result<RequestedOperation, String>)
    ensures
        same_outcome(r, operation_of(Seq::new(tokens@.len(), |i: int| tokens@[i]@))),
        r matches Err(m) ==> one_line(m@),
{
    let mut words: Vec<Vec<char>> = Vec::new();
    let mut i: usize = 0;
    while i < tokens.len()
        invariant
            i <= tokens@.len(),
            views(words@) == Seq::new(i as nat, |k: int| tokens@[k]@),
        decreases tokens@.len() - i,
    {
        let ghost before = views(words@);
        let word = chars_of(tokens[i]);
        assert(word@ == tokens@[i as int]@);
        words.push(word);
        assert(views(words@) =~= before.push(tokens@[i as int]@));
        i = i + 1;
        assert(views(words@) =~= Seq::new(i as nat, |k: int| tokens@[k]@));
    }
    operation_words(words.as_slice())
}

pub open spec fn power_source_of(source: Seq<char>) -> Result<bool, Seq<char>> {
    if source == "ac"@ {
        Ok(true)
    } else if source == "battery"@ {
        Ok(false)
    } else {
        Err("unknown power source "@ + str_debug(source))
    }
}

/// The request a line denotes, or the error text.
pub open spec fn request_of(line: Seq<char>) -> Result<Request, Seq<char>> {
    let t = words(line);
    if t.len() == 1 && t[0] == "ping"@ {
        Ok(Request::Ping)
    } else if t.len() == 1 && t[0] == "status"@ {
        Ok(Request::Status)
    } else if t.len() == 1 && t[0] == "telemetry"@ {
        Ok(Request::Telemetry)
    } else if t.len() == 1 && t[0] == "sysinfo"@ {
        Ok(Request::SysInfo)
    } else if t.len() >= 2 && t[0] == "automation"@ {
        match power_source_of(t[1]) {
            Err(e) => Err(e),
            Ok(on_ac) => {
                let rest = t.subrange(2, t.len() as int);
                if rest.len() == 1 && rest[0] == "off"@ {
                    Ok(Request::Automation { on_ac, fan: None })
                } else if rest.len() == 2 && rest[0] == "fan"@ && rest[1] == "auto"@ {
                    Ok(Request::Automation { on_ac, fan: Some(FanMode::Auto) })
                } else if rest.len() == 3 && rest[0] == "fan"@ && rest[1] == "manual"@ {
                    match parse_unsigned(rest[2], 65535) {
                        Some(rpm) => Ok(
                            Request::Automation { on_ac, fan: Some(FanMode::Manual(rpm as u16)) },
                        ),
                        None => Err("fan RPM must be an integer"@),
                    }
                } else {
                    Err("expected: automation <ac|battery> <off|fan auto|fan manual <rpm>>"@)
                }
            },
        }
    } else if t.len() == 3 && t[0] == "kbd-automation"@ {
        match power_source_of(t[1]) {
            Err(e) => Err(e),
            Ok(on_ac) => if t[2] == "off"@ {
                Ok(Request::KbdAutomation { on_ac, brightness: None })
            } else {
                match parse_unsigned(t[2], 255) {
                    Some(b) => Ok(Request::KbdAutomation { on_ac, brightness: Some(b as u8) }),
                    None => Err("expected: kbd-automation <ac|battery> <0-100|off>"@),
                }
            },
        }
    } else {
        match operation_of(t) {
            Ok(operation) => Ok(Request::Operation(operation)),
            Err(e) => Err(e),
        }
    }
}

fn power_source_words(source: &[char]) -> (r: Result<bool, String>)
    ensures
        same_outcome(r, power_source_of(source@)),
        r matches Err(m) ==> one_line(m@),
{
    if chars_eq(source, "ac") {
        Ok(true)
    } else if chars_eq(source, "battery") {
        Ok(false)
    } else {
        let text = string_of(source);
        let quoted = debug_text(text.as_str());
        let mut m = String::from_str("unknown power source ");
        m.append(quoted.as_str());
        proof {
            reveal_strlit("unknown power source ");
            lemma_one_line_concat("unknown power source "@, quoted@);
        }
        Err(m)
    }
}

fn req_err(text: &str) -> (r: Result<Request, String>)
    requires
        one_line(text@),
    ensures
        r matches Err(m) && m@ == text@,
{
    Err(String::from_str(text))
}

pub fn parse_request(line: &str) -> (r: Result<Request, String>)
    ensures
        same_outcome(r, request_of(line@)),
        r matches Err(m) ==> one_line(m@),
{
    let chars = chars_of(line);
    let t = split_words(chars.as_slice());
    let ghost w = words(line@);
    assert(views(t@) == w);
    let n: usize = t.len();
    assert(forall|i: int| 0 <= i < n ==> w[i] == t@[i]@);
    if n == 1 && chars_eq(&t[0], "ping") {
        return Ok(Request::Ping);
    }
    if n == 1 && chars_eq(&t[0], "status") {
        return Ok(Request::Status);
    }
    if n == 1 && chars_eq(&t[0], "telemetry") {
        return Ok(Request::Telemetry);
    }
    if n == 1 && chars_eq(&t[0], "sysinfo") {
        return Ok(Request::SysInfo);
    }
    if n >= 2 && chars_eq(&t[0], "automation") {
        let on_ac = match power_source_words(&t[1]) {
            Ok(on_ac) => on_ac,
            Err(e) => return Err(e),
        };
        let ghost rest = w.subrange(2, w.len() as int);
        assert(forall|i: int| 0 <= i < n - 2 ==> rest[i] == t@[i + 2]@);
        if n == 3 && chars_eq(&t[2], "off") {
            return Ok(Request::Automation { on_ac, fan: None });
        }
        if n == 4 && chars_eq(&t[2], "fan") && chars_eq(&t[3], "auto") {
            return Ok(Request::Automation { on_ac, fan: Some(FanMode::Auto) });
        }
        if n == 5 && chars_eq(&t[2], "fan") && chars_eq(&t[3], "manual") {
            return match parse_u16(&t[4]) {
                Some(rpm) => Ok(Request::Automation { on_ac, fan: Some(FanMode::Manual(rpm)) }),
                None => {
                    proof {
                        reveal_strlit("fan RPM must be an integer");
                    }
                    req_err("fan RPM must be an integer")
                },
            };
        }
        proof {
            reveal_strlit("expected: automation <ac|battery> <off|fan auto|fan manual <rpm>>");
        }
        return req_err("expected: automation <ac|battery> <off|fan auto|fan manual <rpm>>");
    }
    if n == 3 && chars_eq(&t[0], "kbd-automation") {
        let on_ac = match power_source_words(&t[1]) {
            Ok(on_ac) => on_ac,
            Err(e) => return Err(e),
        };
        if chars_eq(&t[2], "off") {
            return Ok(Request::KbdAutomation { on_ac, brightness: None });
        }
        return match parse_u8(&t[2]) {
            Some(b) => Ok(Request::KbdAutomation { on_ac, brightness: Some(b) }),
            None => {
                proof {
                    reveal_strlit("expected: kbd-automation <ac|battery> <0-100|off>");
                }
                req_err("expected: kbd-automation <ac|battery> <0-100|off>")
            },
        };
    }
    match operation_words(t.as_slice()) {
        Ok(operation) => Ok(Request::Operation(operation)),
        Err(e) => Err(e),
    }
}


// ----------------------------------------------------------------------
// Laws: every description parses back to what it describes.
// ----------------------------------------------------------------------

pub proof fn reveal_level_names()
    ensures
        "low"@ == seq!['l', 'o', 'w'],
        "medium"@ == seq!['m', 'e', 'd', 'i', 'u', 'm'],
        "high"@ == seq!['h', 'i', 'g', 'h'],
        "boost"@ == seq!['b', 'o', 'o', 's', 't'],
{
    reveal_strlit("low");
    assert("low"@ =~= seq!['l', 'o', 'w']);
    reveal_strlit("medium");
    assert("medium"@ =~= seq!['m', 'e', 'd', 'i', 'u', 'm']);
    reveal_strlit("high");
    assert("high"@ =~= seq!['h', 'i', 'g', 'h']);
    reveal_strlit("boost");
    assert("boost"@ =~= seq!['b', 'o', 'o', 's', 't']);
}

pub proof fn reveal_value_words()
    ensures
        "off"@ == seq!['o', 'f', 'f'],
        "static"@ == seq!['s', 't', 'a', 't', 'i', 'c'],
        "breathing"@ == seq!['b', 'r', 'e', 'a', 't', 'h', 'i', 'n', 'g'],
        "spectrum"@ == seq!['s', 'p', 'e', 'c', 't', 'r', 'u', 'm'],
        "wave"@ == seq!['w', 'a', 'v', 'e'],
        "static:"@ == seq!['s', 't', 'a', 't', 'i', 'c', ':'],
        "silent"@ == seq!['s', 'i', 'l', 'e', 'n', 't'],
        "balanced"@ == seq!['b', 'a', 'l', 'a', 'n', 'c', 'e', 'd'],
        "gaming"@ == seq!['g', 'a', 'm', 'i', 'n', 'g'],
        "custom:cpu="@ == seq!['c', 'u', 's', 't', 'o', 'm', ':', 'c', 'p', 'u', '='],
        ",gpu="@ == seq![',', 'g', 'p', 'u', '='],
{
    reveal_strlit("off");
    assert("off"@ =~= seq!['o', 'f', 'f']);
    reveal_strlit("static");
    assert("static"@ =~= seq!['s', 't', 'a', 't', 'i', 'c']);
    reveal_strlit("breathing");
    assert("breathing"@ =~= seq!['b', 'r', 'e', 'a', 't', 'h', 'i', 'n', 'g']);
    reveal_strlit("spectrum");
    assert("spectrum"@ =~= seq!['s', 'p', 'e', 'c', 't', 'r', 'u', 'm']);
    reveal_strlit("wave");
    assert("wave"@ =~= seq!['w', 'a', 'v', 'e']);
    reveal_strlit("static:");
    assert("static:"@ =~= seq!['s', 't', 'a', 't', 'i', 'c', ':']);
    reveal_strlit("silent");
    assert("silent"@ =~= seq!['s', 'i', 'l', 'e', 'n', 't']);
    reveal_strlit("balanced");
    assert("balanced"@ =~= seq!['b', 'a', 'l', 'a', 'n', 'c', 'e', 'd']);
    reveal_strlit("gaming");
    assert("gaming"@ =~= seq!['g', 'a', 'm', 'i', 'n', 'g']);
    reveal_strlit("custom:cpu=");
    assert("custom:cpu="@ =~= seq!['c', 'u', 's', 't', 'o', 'm', ':', 'c', 'p', 'u', '=']);
    reveal_strlit(",gpu=");
    assert(",gpu="@ =~= seq![',', 'g', 'p', 'u', '=']);
}

/// [`describe_boost_level`] and [`parse_boost_level`] are inverse.
pub proof fn law_boost_level_round_trip(level: BoostLevel)
    ensures
        boost_level_of(level_name(level)) == Ok::<BoostLevel, Seq<char>>(level),
{
    reveal_level_names();
}

/// [`describe_logo`] and [`parse_logo`] are inverse.
pub proof fn law_logo_round_trip(mode: LogoMode)
    ensures
        logo_of(logo_text(mode)) == Some(mode),
{
    reveal_value_words();
}

/// [`describe_effect`] and [`parse_effect`] are inverse.
pub proof fn law_effect_round_trip(effect: LightingEffect)
    ensures
        effect_of(effect_text(effect)) == Some(effect),
{
    reveal_value_words();
    match effect {
        LightingEffect::Static { red, green, blue } => {
            let h = hex_fixed(red as nat, 2) + hex_fixed(green as nat, 2) + hex_fixed(blue as nat, 2);
            lemma_hex_pair_round_trip(red as nat);
            lemma_hex_pair_round_trip(green as nat);
            lemma_hex_pair_round_trip(blue as nat);
            let t = effect_text(effect);
            assert(t == "static:"@ + h);
            assert(t.len() == 13);
            assert(t.subrange(0, 7) =~= "static:"@);
            assert(t.subrange(7, 13) =~= h);
            assert(strip_prefix(t, "static:"@) == Some(h));
            assert(h[0] == hex_fixed(red as nat, 2)[0]);
            assert(h[1] == hex_fixed(red as nat, 2)[1]);
            assert(h[2] == hex_fixed(green as nat, 2)[0]);
            assert(h[3] == hex_fixed(green as nat, 2)[1]);
            assert(h[4] == hex_fixed(blue as nat, 2)[0]);
            assert(h[5] == hex_fixed(blue as nat, 2)[1]);
            assert(rgb_of(h) == Some((red, green, blue)));
        },
        _ => {},
    }
}

#[verifier::rlimit(50)]
proof fn lemma_custom_profile_parses(cpu: BoostLevel, gpu: BoostLevel)
    ensures
        profile_of(profile_text(Profile::Custom { cpu, gpu })) == Some(
            Profile::Custom { cpu, gpu },
        ),
{
    reveal_strlit("silent");
    reveal_strlit("balanced");
    reveal_strlit("gaming");
    reveal_strlit("custom:cpu=");
    reveal_strlit(",gpu=");
    assert(",gpu="@ =~= seq![',', 'g', 'p', 'u', '=']);
    reveal_level_names();
    let c = level_name(cpu);
    let g = level_name(gpu);
    let pat = ",gpu="@;
    let rest = c + pat + g;
    let t = profile_text(Profile::Custom { cpu, gpu });
    assert(t == "custom:cpu="@ + c + pat + g);
    assert(t.len() > 8);
    assert(t != "silent"@ && t != "balanced"@ && t != "gaming"@);
    assert(t.subrange(0, 11) =~= "custom:cpu="@);
    assert(t.subrange(11, t.len() as int) =~= rest);
    assert(strip_prefix(t, "custom:cpu="@) == Some(rest));
    assert forall|k: int| 0 <= k < c.len() implies !occurs_at(rest, pat, k) by {
        assert(rest[k] == c[k]);
        if occurs_at(rest, pat, k) {
            assert(rest.subrange(k, k + 5)[0] == rest[k]);
        }
    }
    assert(rest.subrange(c.len() as int, c.len() + 5 as int) =~= pat);
    lemma_find_from_first(rest, pat, 0, c.len() as int);
    assert(rest.subrange(0, c.len() as int) =~= c);
    assert(rest.subrange(c.len() as int + 5, rest.len() as int) =~= g);
    law_boost_level_round_trip(cpu);
    law_boost_level_round_trip(gpu);
}

/// [`describe_profile`] and [`parse_profile`] are inverse.
pub proof fn law_profile_round_trip(profile: Profile)
    ensures
        profile_of(profile_text(profile)) == Some(profile),
{
    match profile {
        Profile::Custom { cpu, gpu } => {
            lemma_custom_profile_parses(cpu, gpu);
        },
        _ => {
            reveal_strlit("silent");
            reveal_strlit("balanced");
            reveal_strlit("gaming");
            assert("silent"@ =~= seq!['s', 'i', 'l', 'e', 'n', 't']);
            assert("gaming"@ =~= seq!['g', 'a', 'm', 'i', 'n', 'g']);
        },
    }
}

// ----------------------------------------------------------------------
// Requests and operations read alike.
// ----------------------------------------------------------------------

/// A word as the line protocol splits them: non-empty, no whitespace.
pub open spec fn plain_word(w: Seq<char>) -> bool {
    w.len() > 0 && forall|i: int| 0 <= i < w.len() ==> !is_ws(#[trigger] w[i])
}

proof fn lemma_scan_word(q: Seq<char>, s: Seq<char>)
    requires
        forall|i: int| 0 <= i < s.len() ==> !is_ws(#[trigger] s[i]),
    ensures
        ws_scan(q + s) == (ws_scan(q).0, ws_scan(q).1 + s),
    decreases s.len(),
{
    if s.len() == 0 {
        assert(q + s =~= q);
        assert(ws_scan(q).1 + s =~= ws_scan(q).1);
    } else {
        let init = s.drop_last();
        lemma_scan_word(q, init);
        assert((q + s).drop_last() =~= q + init);
        assert((q + s).last() == s.last());
        assert(!is_ws(s[s.len() - 1]));
        assert((ws_scan(q).1 + init).push(s.last()) =~= ws_scan(q).1 + s);
    }
}

proof fn lemma_words_join(t: Seq<Seq<char>>)
    requires
        t.len() > 0,
        forall|i: int| 0 <= i < t.len() ==> plain_word(#[trigger] t[i]),
    ensures
        words(join_words(t)) == t,
    decreases t.len(),
{
    let last = t.last();
    assert(plain_word(t[t.len() - 1]));
    if t.len() == 1 {
        lemma_scan_word(Seq::empty(), last);
        assert(Seq::<char>::empty() + last =~= last);
        assert(Seq::<char>::empty() + last =~= last);
        assert(join_words(t) == last);
        assert(seq![last] =~= t);
    } else {
        let init = t.drop_last();
        assert forall|i: int| 0 <= i < init.len() implies plain_word(#[trigger] init[i]) by {
            assert(init[i] == t[i]);
        }
        lemma_words_join(init);
        let p = join_words(init);
        let q = p + seq![' '];
        assert(q == p.push(' '));
        assert(q.drop_last() =~= p);
        assert(is_ws(' '));
        assert(ws_scan(q) == (words(p), Seq::<char>::empty()));
        lemma_scan_word(q, last);
        assert(Seq::<char>::empty() + last =~= last);
        assert(join_words(t) == q + last);
        assert(init.push(last) =~= t);
    }
}

/// The daemon and the `validate` command read an operation alike: words
/// that do not begin a control request, joined by single spaces, make the
/// request for the operation they denote, or the same error.
pub proof fn law_request_line_reads_as_the_operation(t: Seq<Seq<char>>)
    requires
        t.len() > 0,
        forall|i: int| 0 <= i < t.len() ==> plain_word(#[trigger] t[i]),
        t[0] != "ping"@,
        t[0] != "status"@,
        t[0] != "telemetry"@,
        t[0] != "sysinfo"@,
        t[0] != "automation"@,
        t[0] != "kbd-automation"@,
    ensures
        request_of(join_words(t)) == match operation_of(t) {
            Ok(operation) => Ok::<Request, Seq<char>>(Request::Operation(operation)),
            Err(e) => Err(e),
        },
{
    lemma_words_join(t);
}

// ----------------------------------------------------------------------
// Every operation can be asked for, and is read back as itself.
// ----------------------------------------------------------------------

/// The words that ask for an operation: `fan auto`, `fan manual <rpm>`,
/// `bho <limit>`, `bho off`, `profile silent|balanced|gaming`,
/// `profile custom cpu <level> gpu <level>`, `kbd brightness <percent>`,
/// `kbd effect off|spectrum|wave`, `kbd effect static <rrggbb>` and
/// `logo off|static|breathing`, numbers in decimal and colours in lowercase
/// hex.
pub open spec fn request_words(op: RequestedOperation) -> Seq<Seq<char>> {
    match op {
        RequestedOperation::Fan(FanMode::Auto) => seq!["fan"@, "auto"@],
        RequestedOperation::Fan(FanMode::Manual(rpm)) => seq!["fan"@, "manual"@, dec(rpm as nat)],
        RequestedOperation::BatteryHealthLimit(limit) => seq!["bho"@, dec(limit as nat)],
        RequestedOperation::BatteryHealthOff => seq!["bho"@, "off"@],
        RequestedOperation::Profile(Profile::Silent) => seq!["profile"@, "silent"@],
        RequestedOperation::Profile(Profile::Balanced) => seq!["profile"@, "balanced"@],
        RequestedOperation::Profile(Profile::Gaming) => seq!["profile"@, "gaming"@],
        RequestedOperation::Profile(Profile::Custom { cpu, gpu }) => seq![
            "profile"@,
            "custom"@,
            "cpu"@,
            level_word(cpu),
            "gpu"@,
            level_word(gpu),
        ],
        RequestedOperation::KeyboardBrightness(b) => seq!["kbd"@, "brightness"@, dec(b as nat)],
        RequestedOperation::KeyboardEffect(LightingEffect::Off) => seq!["kbd"@, "effect"@, "off"@],
        RequestedOperation::KeyboardEffect(LightingEffect::Spectrum) => seq![
            "kbd"@,
            "effect"@,
            "spectrum"@,
        ],
        RequestedOperation::KeyboardEffect(LightingEffect::Wave) => seq!["kbd"@, "effect"@, "wave"@],
        RequestedOperation::KeyboardEffect(LightingEffect::Static { red, green, blue }) => seq![
            "kbd"@,
            "effect"@,
            "static"@,
            hex_fixed(red as nat, 2) + hex_fixed(green as nat, 2) + hex_fixed(blue as nat, 2),
        ],
        RequestedOperation::Logo(LogoMode::Off) => seq!["logo"@, "off"@],
        RequestedOperation::Logo(LogoMode::Static) => seq!["logo"@, "static"@],
        RequestedOperation::Logo(LogoMode::Breathing) => seq!["logo"@, "breathing"@],
    }
}

/// The word of a boost level.
pub open spec fn level_word(level: BoostLevel) -> Seq<char> {
    match level {
        BoostLevel::Low => "low"@,
        BoostLevel::Medium => "medium"@,
        BoostLevel::High => "high"@,
        BoostLevel::Boost => "boost"@,
    }
}

proof fn reveal_request_words()
    ensures
        "fan"@ == seq!['f', 'a', 'n'],
        "auto"@ == seq!['a', 'u', 't', 'o'],
        "manual"@ == seq!['m', 'a', 'n', 'u', 'a', 'l'],
        "bho"@ == seq!['b', 'h', 'o'],
        "off"@ == seq!['o', 'f', 'f'],
        "profile"@ == seq!['p', 'r', 'o', 'f', 'i', 'l', 'e'],
        "silent"@ == seq!['s', 'i', 'l', 'e', 'n', 't'],
        "balanced"@ == seq!['b', 'a', 'l', 'a', 'n', 'c', 'e', 'd'],
        "gaming"@ == seq!['g', 'a', 'm', 'i', 'n', 'g'],
        "custom"@ == seq!['c', 'u', 's', 't', 'o', 'm'],
        "cpu"@ == seq!['c', 'p', 'u'],
        "gpu"@ == seq!['g', 'p', 'u'],
        "kbd"@ == seq!['k', 'b', 'd'],
        "brightness"@ == seq!['b', 'r', 'i', 'g', 'h', 't', 'n', 'e', 's', 's'],
        "effect"@ == seq!['e', 'f', 'f', 'e', 'c', 't'],
        "spectrum"@ == seq!['s', 'p', 'e', 'c', 't', 'r', 'u', 'm'],
        "wave"@ == seq!['w', 'a', 'v', 'e'],
        "static"@ == seq!['s', 't', 'a', 't', 'i', 'c'],
        "logo"@ == seq!['l', 'o', 'g', 'o'],
        "breathing"@ == seq!['b', 'r', 'e', 'a', 't', 'h', 'i', 'n', 'g'],
{
    reveal_strlit("fan");
    reveal_strlit("auto");
    reveal_strlit("manual");
    reveal_strlit("bho");
    reveal_strlit("off");
    reveal_strlit("profile");
    reveal_strlit("silent");
    reveal_strlit("balanced");
    reveal_strlit("gaming");
    reveal_strlit("custom");
    reveal_strlit("cpu");
    reveal_strlit("gpu");
    reveal_strlit("kbd");
    reveal_strlit("brightness");
    reveal_strlit("effect");
    reveal_strlit("spectrum");
    reveal_strlit("wave");
    reveal_strlit("static");
    reveal_strlit("logo");
    reveal_strlit("breathing");
    assert("fan"@ =~= seq!['f', 'a', 'n']);
    assert("auto"@ =~= seq!['a', 'u', 't', 'o']);
    assert("manual"@ =~= seq!['m', 'a', 'n', 'u', 'a', 'l']);
    assert("bho"@ =~= seq!['b', 'h', 'o']);
    assert("off"@ =~= seq!['o', 'f', 'f']);
    assert("profile"@ =~= seq!['p', 'r', 'o', 'f', 'i', 'l', 'e']);
    assert("silent"@ =~= seq!['s', 'i', 'l', 'e', 'n', 't']);
    assert("balanced"@ =~= seq!['b', 'a', 'l', 'a', 'n', 'c', 'e', 'd']);
    assert("gaming"@ =~= seq!['g', 'a', 'm', 'i', 'n', 'g']);
    assert("custom"@ =~= seq!['c', 'u', 's', 't', 'o', 'm']);
    assert("cpu"@ =~= seq!['c', 'p', 'u']);
    assert("gpu"@ =~= seq!['g', 'p', 'u']);
    assert("kbd"@ =~= seq!['k', 'b', 'd']);
    assert("brightness"@ =~= seq!['b', 'r', 'i', 'g', 'h', 't', 'n', 'e', 's', 's']);
    assert("effect"@ =~= seq!['e', 'f', 'f', 'e', 'c', 't']);
    assert("spectrum"@ =~= seq!['s', 'p', 'e', 'c', 't', 'r', 'u', 'm']);
    assert("wave"@ =~= seq!['w', 'a', 'v', 'e']);
    assert("static"@ =~= seq!['s', 't', 'a', 't', 'i', 'c']);
    assert("logo"@ =~= seq!['l', 'o', 'g', 'o']);
    assert("breathing"@ =~= seq!['b', 'r', 'e', 'a', 't', 'h', 'i', 'n', 'g']);
}

/// The colour word `rrggbb` reads back as its three channels.
proof fn lemma_rgb_word(red: u8, green: u8, blue: u8)
    ensures
        rgb_of(hex_fixed(red as nat, 2) + hex_fixed(green as nat, 2) + hex_fixed(blue as nat, 2))
            == Some((red, green, blue)),
{
    lemma_hex_pair_round_trip(red as nat);
    lemma_hex_pair_round_trip(green as nat);
    lemma_hex_pair_round_trip(blue as nat);
    let w = hex_fixed(red as nat, 2) + hex_fixed(green as nat, 2) + hex_fixed(blue as nat, 2);
    assert(w.len() == 6);
    assert(w[0] == hex_fixed(red as nat, 2)[0] && w[1] == hex_fixed(red as nat, 2)[1]);
    assert(w[2] == hex_fixed(green as nat, 2)[0] && w[3] == hex_fixed(green as nat, 2)[1]);
    assert(w[4] == hex_fixed(blue as nat, 2)[0] && w[5] == hex_fixed(blue as nat, 2)[1]);
}

/// Every operation is read back as itself from the words that ask for it:
/// the parser inverts [`request_words`], so no two operations are confused.
pub proof fn law_request_words_read_back(op: RequestedOperation)
    ensures
        operation_of(request_words(op)) == Ok::<RequestedOperation, Seq<char>>(op),
{
    reveal_request_words();
    reveal_level_names();
    match op {
        RequestedOperation::Fan(FanMode::Manual(rpm)) => {
            lemma_parse_dec(rpm as nat, 65535);
        },
        RequestedOperation::BatteryHealthLimit(limit) => {
            lemma_parse_dec(limit as nat, 255);
        },
        RequestedOperation::Profile(Profile::Custom { cpu, gpu }) => {
            assert(boost_level_of(level_word(cpu)) == Ok::<BoostLevel, Seq<char>>(cpu));
            assert(boost_level_of(level_word(gpu)) == Ok::<BoostLevel, Seq<char>>(gpu));
        },
        RequestedOperation::KeyboardBrightness(b) => {
            lemma_parse_dec(b as nat, 255);
        },
        RequestedOperation::KeyboardEffect(LightingEffect::Static { red, green, blue }) => {
            lemma_rgb_word(red, green, blue);
        },
        _ => {},
    }
}

proof fn lemma_visible_word(w: Seq<char>)
    requires
        visible(w),
        w.len() > 0,
    ensures
        plain_word(w),
{
    assert forall|i: int| 0 <= i < w.len() implies !is_ws(#[trigger] w[i]) by {
        assert(0x21 <= w[i] as u32 <= 0x7e);
    }
}

/// The request line that asks for an operation, its words joined by single
/// spaces, is read by the daemon as that operation.
pub proof fn law_request_lines_read_back(op: RequestedOperation)
    ensures
        request_of(join_words(request_words(op))) == Ok::<Request, Seq<char>>(
            Request::Operation(op),
        ),
{
    let t = request_words(op);
    reveal_request_words();
    reveal_level_names();
    reveal_strlit("ping");
    reveal_strlit("status");
    reveal_strlit("telemetry");
    reveal_strlit("sysinfo");
    reveal_strlit("automation");
    reveal_strlit("kbd-automation");
    law_request_words_read_back(op);
    match op {
        RequestedOperation::Fan(FanMode::Manual(rpm)) => {
            lemma_dec_digits(rpm as nat);
        },
        RequestedOperation::BatteryHealthLimit(limit) => {
            lemma_dec_digits(limit as nat);
        },
        RequestedOperation::KeyboardBrightness(b) => {
            lemma_dec_digits(b as nat);
        },
        RequestedOperation::KeyboardEffect(LightingEffect::Static { red, green, blue }) => {
            lemma_hex_pair_round_trip(red as nat);
            lemma_hex_pair_round_trip(green as nat);
            lemma_hex_pair_round_trip(blue as nat);
            lemma_visible_concat(hex_fixed(red as nat, 2), hex_fixed(green as nat, 2));
            lemma_visible_concat(
                hex_fixed(red as nat, 2) + hex_fixed(green as nat, 2),
                hex_fixed(blue as nat, 2),
            );
        },
        _ => {},
    }
    assert forall|i: int| 0 <= i < t.len() implies plain_word(#[trigger] t[i]) by {
        lemma_visible_word(t[i]);
    }
    assert(t[0] != "ping"@ && t[0] != "status"@ && t[0] != "telemetry"@ && t[0] != "sysinfo"@
        && t[0] != "automation"@ && t[0] != "kbd-automation"@) by {
        assert("ping"@[0] == 'p' && "ping"@.len() == 4);
        assert("status"@[0] == 's');
        assert("telemetry"@[0] == 't');
        assert("sysinfo"@[0] == 's');
        assert("automation"@[0] == 'a');
        assert("kbd-automation"@.len() == 14);
    }
    law_request_line_reads_as_the_operation(t);
}

} // verus!
