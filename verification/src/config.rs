//! Persisted daemon state: the last applied settings plus the AC/battery
//! automation choices, stored as `key=value` lines (the same shape as the
//! IPC protocol).  Unknown keys and malformed values are skipped, never
//! fatal: a stale or hand-edited file must not stop the daemon.

use vstd::prelude::*;
use vstd::string::*;

use crate::ipc::{
    describe_effect, describe_logo, describe_profile, effect_of, effect_text, effect_words, logo_of,
    logo_text, logo_words, profile_of, profile_text, profile_words,
};
use crate::text::{
    hex_fixed, is_digit, lemma_dec_digits, lemma_hex_pair_round_trip, lemma_parse_dec,
    lemma_visible_concat, visible, chars_eq, dec, is_whitespace, is_ws, parse_u16, parse_u8, parse_unsigned, push_dec,
    strip_prefix, strip_prefix_chars, views,
};
use crate::{FanMode, LightingEffect, LogoMode, Profile};

verus! {

#[derive(Debug, Clone, Copy, PartialEq, Eq, Structural)]
pub enum BatteryHealth {
    Unset,
    Off,
    Limit(u8),
}

impl Default for BatteryHealth {
    fn default() -> (r: BatteryHealth)
        ensures
            r == BatteryHealth::Unset,
    {
        BatteryHealth::Unset
    }
}

#[derive(Debug, Clone, Copy, PartialEq, Eq, Structural)]
pub struct PersistedState {
    pub fan: Option<FanMode>,
    pub battery_health: BatteryHealth,
    pub fan_on_ac: Option<FanMode>,
    pub fan_on_battery: Option<FanMode>,
    pub profile: Option<Profile>,
    pub kbd_brightness: Option<u8>,
    pub kbd_effect: Option<LightingEffect>,
    pub logo: Option<LogoMode>,
    pub kbd_on_ac: Option<u8>,
    pub kbd_on_battery: Option<u8>,
}

/// Nothing recorded yet.
pub open spec fn empty_state() -> PersistedState {
    PersistedState {
        fan: None,
        battery_health: BatteryHealth::Unset,
        fan_on_ac: None,
        fan_on_battery: None,
        profile: None,
        kbd_brightness: None,
        kbd_effect: None,
        logo: None,
        kbd_on_ac: None,
        kbd_on_battery: None,
    }
}

impl Default for PersistedState {
    fn default() -> (r: PersistedState)
        ensures
            r == empty_state(),
    {
        PersistedState {
            fan: None,
            battery_health: BatteryHealth::Unset,
            fan_on_ac: None,
            fan_on_battery: None,
            profile: None,
            kbd_brightness: None,
            kbd_effect: None,
            logo: None,
            kbd_on_ac: None,
            kbd_on_battery: None,
        }
    }
}

// ----------------------------------------------------------------------
// Rendering.
// ----------------------------------------------------------------------

pub open spec fn fan_text(mode: FanMode) -> Seq<char> {
    match mode {
        FanMode::Auto => "auto"@,
        FanMode::Manual(rpm) => "manual:"@ + dec(rpm as nat),
    }
}

pub open spec fn fan_line_if(key: Seq<char>, value: Option<FanMode>) -> Seq<Seq<char>> {
    match value {
        Some(m) => seq![key + "="@ + fan_text(m)],
        None => Seq::empty(),
    }
}

pub open spec fn byte_line_if(key: Seq<char>, value: Option<u8>) -> Seq<Seq<char>> {
    match value {
        Some(b) => seq![key + "="@ + dec(b as nat)],
        None => Seq::empty(),
    }
}

pub open spec fn profile_line_if(value: Option<Profile>) -> Seq<Seq<char>> {
    match value {
        Some(p) => seq!["profile"@ + "="@ + profile_text(p)],
        None => Seq::empty(),
    }
}

pub open spec fn effect_line_if(value: Option<LightingEffect>) -> Seq<Seq<char>> {
    match value {
        Some(e) => seq!["kbd_effect"@ + "="@ + effect_text(e)],
        None => Seq::empty(),
    }
}

pub open spec fn logo_line_if(value: Option<LogoMode>) -> Seq<Seq<char>> {
    match value {
        Some(m) => seq!["logo"@ + "="@ + logo_text(m)],
        None => Seq::empty(),
    }
}

pub open spec fn bho_lines(b: BatteryHealth) -> Seq<Seq<char>> {
    match b {
        BatteryHealth::Unset => Seq::empty(),
        BatteryHealth::Off => seq!["bho=off"@],
        BatteryHealth::Limit(limit) => seq!["bho"@ + "="@ + dec(limit as nat)],
    }
}

/// The lines of the state file, in file order, one per recorded setting.
pub open spec fn state_lines(s: PersistedState) -> Seq<Seq<char>> {
    fan_line_if("fan"@, s.fan) + bho_lines(s.battery_health) + fan_line_if(
        "fan_on_ac"@,
        s.fan_on_ac,
    ) + fan_line_if("fan_on_battery"@, s.fan_on_battery) + profile_line_if(s.profile)
        + byte_line_if("kbd_brightness"@, s.kbd_brightness) + effect_line_if(s.kbd_effect)
        + logo_line_if(s.logo) + byte_line_if("kbd_on_ac"@, s.kbd_on_ac) + byte_line_if(
        "kbd_on_battery"@,
        s.kbd_on_battery,
    )
}

/// Lines joined with `\n`, plus a final `\n`.
pub open spec fn terminated(ls: Seq<Seq<char>>) -> Seq<char>
    decreases ls.len(),
{
    if ls.len() == 0 {
        Seq::empty()
    } else {
        terminated(ls.drop_last()) + ls.last() + seq!['\n']
    }
}

/// `lines.join("\n") + "\n"`.
pub open spec fn render_text(s: PersistedState) -> Seq<char> {
    if state_lines(s).len() == 0 {
        seq!['\n']
    } else {
        terminated(state_lines(s))
    }
}

fn push_line(out: &mut String, ls: Ghost<Seq<Seq<char>>>, line: &String) -> (r: Ghost<
    Seq<Seq<char>>,
>)
    requires
        old(out)@ == terminated(ls@),
    ensures
        r@ == ls@.push(line@),
        final(out)@ == terminated(r@),
{
    out.append(line.as_str());
    out.append("\n");
    proof {
        reveal_strlit("\n");
        assert(ls@.push(line@).drop_last() =~= ls@);
        assert(final(out)@ =~= terminated(ls@.push(line@)));
    }
    Ghost(ls@.push(line@))
}

fn fan_line(key: &str, mode: FanMode) -> (r: String)
    ensures
        r@ == key@ + "="@ + fan_text(mode),
{
    let mut s = String::from_str(key);
    s.append("=");
    match mode {
        FanMode::Auto => s.append("auto"),
        FanMode::Manual(rpm) => {
            s.append("manual:");
            push_dec(&mut s, rpm as u64);
        },
    }
    assert(s@ =~= key@ + "="@ + fan_text(mode));
    s
}

fn byte_line(key: &str, b: u8) -> (r: String)
    ensures
        r@ == key@ + "="@ + dec(b as nat),
{
    let mut s = String::from_str(key);
    s.append("=");
    push_dec(&mut s, b as u64);
    assert(s@ =~= key@ + "="@ + dec(b as nat));
    s
}

fn text_line(key: &str, value: &str) -> (r: String)
    ensures
        r@ == key@ + "="@ + value@,
{
    let mut s = String::from_str(key);
    s.append("=");
    s.append(value);
    assert(s@ =~= key@ + "="@ + value@);
    s
}

// ----------------------------------------------------------------------
// Parsing.
// ----------------------------------------------------------------------

/// The first position at or after `i` holding `c`.
pub open spec fn find_char(s: Seq<char>, c: char, i: int) -> Option<int>
    decreases s.len() - i,
{
    if i < 0 || i >= s.len() {
        None
    } else if s[i] == c {
        Some(i)
    } else {
        find_char(s, c, i + 1)
    }
}

/// Where `find_char` lands: at or after the start, inside the text, on the
/// character sought.
pub proof fn lemma_find_char_bounds(s: Seq<char>, c: char, i: int)
    ensures
        find_char(s, c, i) matches Some(j) ==> i <= j < s.len() && 0 <= j && s[j] == c,
    decreases s.len() - i,
{
    if 0 <= i < s.len() && s[i] != c {
        lemma_find_char_bounds(s, c, i + 1);
    }
}

/// A line without its `\r` when it ended in `\r\n`.
pub open spec fn strip_cr(line: Seq<char>) -> Seq<char> {
    if line.len() > 0 && line.last() == '\r' {
        line.drop_last()
    } else {
        line
    }
}

/// `str::lines`: split at `\n`, a `\r` before the `\n` removed, no empty
/// line after a final `\n`.
pub open spec fn text_lines(s: Seq<char>) -> Seq<Seq<char>>
    decreases s.len(),
{
    if s.len() == 0 {
        Seq::empty()
    } else {
        match find_char(s, '\n', 0) {
            None => seq![s],
            Some(i) => {
                proof {
                    lemma_find_char_bounds(s, '\n', 0);
                }
                seq![strip_cr(s.subrange(0, i))] + text_lines(s.subrange(i + 1, s.len() as int))
            },
        }
    }
}

pub open spec fn trim_start(s: Seq<char>) -> Seq<char>
    decreases s.len(),
{
    if s.len() > 0 && is_ws(s[0]) {
        trim_start(s.drop_first())
    } else {
        s
    }
}

pub open spec fn trim_end(s: Seq<char>) -> Seq<char>
    decreases s.len(),
{
    if s.len() > 0 && is_ws(s.last()) {
        trim_end(s.drop_last())
    } else {
        s
    }
}

/// `str::trim`.
pub open spec fn trim(s: Seq<char>) -> Seq<char> {
    trim_end(trim_start(s))
}

/// `line.split_once('=')`.
pub open spec fn split_eq(line: Seq<char>) -> Option<(Seq<char>, Seq<char>)> {
    match find_char(line, '=', 0) {
        Some(i) => Some((line.subrange(0, i), line.subrange(i + 1, line.len() as int))),
        None => None,
    }
}

pub open spec fn fan_of(value: Seq<char>) -> Option<FanMode> {
    if value == "auto"@ {
        Some(FanMode::Auto)
    } else {
        match strip_prefix(value, "manual:"@) {
            Some(rpm) => match parse_unsigned(rpm, 65535) {
                Some(v) => Some(FanMode::Manual(v as u16)),
                None => None,
            },
            None => None,
        }
    }
}

pub open spec fn byte_of(value: Seq<char>) -> Option<u8> {
    match parse_unsigned(value, 255) {
        Some(v) => Some(v as u8),
        None => None,
    }
}

pub open spec fn bho_of(value: Seq<char>) -> BatteryHealth {
    if value == "off"@ {
        BatteryHealth::Off
    } else {
        match parse_unsigned(value, 255) {
            Some(v) => BatteryHealth::Limit(v as u8),
            None => BatteryHealth::Unset,
        }
    }
}

/// A recognised key sets its field from the value; other keys change nothing.
pub open spec fn apply_field(s: PersistedState, key: Seq<char>, value: Seq<char>) -> PersistedState {
    if key == "fan"@ {
        PersistedState { fan: fan_of(value), ..s }
    } else if key == "bho"@ {
        PersistedState { battery_health: bho_of(value), ..s }
    } else if key == "fan_on_ac"@ {
        PersistedState { fan_on_ac: fan_of(value), ..s }
    } else if key == "fan_on_battery"@ {
        PersistedState { fan_on_battery: fan_of(value), ..s }
    } else if key == "profile"@ {
        PersistedState { profile: profile_of(value), ..s }
    } else if key == "kbd_brightness"@ {
        PersistedState { kbd_brightness: byte_of(value), ..s }
    } else if key == "kbd_effect"@ {
        PersistedState { kbd_effect: effect_of(value), ..s }
    } else if key == "logo"@ {
        PersistedState { logo: logo_of(value), ..s }
    } else if key == "kbd_on_ac"@ {
        PersistedState { kbd_on_ac: byte_of(value), ..s }
    } else if key == "kbd_on_battery"@ {
        PersistedState { kbd_on_battery: byte_of(value), ..s }
    } else {
        s
    }
}

/// One line applied to the state: trimmed, split at the first `=`, and
/// handed to [`apply_field`]; a line without `=` changes nothing.
pub open spec fn apply_line(s: PersistedState, line: Seq<char>) -> PersistedState {
    match split_eq(trim(line)) {
        None => s,
        Some((key, value)) => apply_field(s, key, value),
    }
}

pub open spec fn apply_lines(s: PersistedState, ls: Seq<Seq<char>>) -> PersistedState
    decreases ls.len(),
{
    if ls.len() == 0 {
        s
    } else {
        apply_line(apply_lines(s, ls.drop_last()), ls.last())
    }
}

/// The state a file's text describes.
pub open spec fn parse_text(text: Seq<char>) -> PersistedState {
    apply_lines(empty_state(), text_lines(text))
}

pub(crate) fn sub_range(s: &[char], lo: usize, hi: usize) -> (r: Vec<char>)
    requires
        lo <= hi <= s@.len(),
    ensures
        r@ == s@.subrange(lo as int, hi as int),
{
    let mut out: Vec<char> = Vec::new();
    let mut k: usize = lo;
    while k < hi
        invariant
            lo <= k <= hi <= s@.len(),
            out@ == s@.subrange(lo as int, k as int),
        decreases hi - k,
    {
        out.push(s[k]);
        k = k + 1;
        assert(out@ =~= s@.subrange(lo as int, k as int));
    }
    out
}

pub(crate) fn find_char_exec(s: &[char], c: char, from: usize) -> (r: Option<usize>)
    requires
        from <= s@.len(),
    ensures
        r matches Some(i) ==> find_char(s@, c, from as int) == Some(i as int) && from <= i < s@.len()
            && s@[i as int] == c,
        r is None ==> find_char(s@, c, from as int) is None,
{
    let mut i: usize = from;
    while i < s.len()
        invariant
            from <= i <= s@.len(),
            find_char(s@, c, from as int) == find_char(s@, c, i as int),
        decreases s@.len() - i,
    {
        if s[i] == c {
            return Some(i);
        }
        i = i + 1;
    }
    None
}

fn strip_cr_exec(line: Vec<char>) -> (r: Vec<char>)
    ensures
        r@ == strip_cr(line@),
{
    let ghost orig = line@;
    let mut line = line;
    if line.len() > 0 && line[line.len() - 1] == '\r' {
        line.pop();
        assert(line@ =~= orig.drop_last());
    }
    line
}

/// `text.lines()`, each line as its characters.
pub fn split_lines(s: &[char]) -> (r: Vec<Vec<char>>)
    ensures
        views(r@) == text_lines(s@),
{
    let n: usize = s.len();
    let mut done: Vec<Vec<char>> = Vec::new();
    let mut start: usize = 0;
    assert(s@.subrange(0, n as int) =~= s@);
    assert(views(done@) + text_lines(s@) =~= text_lines(s@));
    while start < n
        invariant
            n == s@.len(),
            start <= n,
            text_lines(s@) == views(done@) + text_lines(s@.subrange(start as int, n as int)),
        decreases n - start,
    {
        let ghost rest = s@.subrange(start as int, n as int);
        let ghost before = views(done@);
        proof {
            lemma_find_char_shift(s@, '\n', start as int, 0);
        }
        match find_char_exec(s, '\n', start) {
            None => {
                let line = sub_range(s, start, n);
                done.push(line);
                assert(text_lines(rest) == seq![rest]);
                assert(views(done@) =~= before + seq![rest]);
                assert(text_lines(s@.subrange(n as int, n as int)) == Seq::<Seq<char>>::empty());
                assert(views(done@) + text_lines(s@.subrange(n as int, n as int)) =~= views(done@));
                start = n;
            },
            Some(i) => {
                let line = strip_cr_exec(sub_range(s, start, i));
                done.push(line);
                assert(rest.subrange(0, i - start) =~= s@.subrange(start as int, i as int));
                assert(rest.subrange(i - start + 1, rest.len() as int) =~= s@.subrange(
                    i + 1,
                    n as int,
                ));
                assert(views(done@) =~= before + seq![strip_cr(s@.subrange(start as int, i as int))]);
                start = i + 1;
            },
        }
    }
    assert(text_lines(s@.subrange(n as int, n as int)) == Seq::<Seq<char>>::empty());
    assert(views(done@) + Seq::<Seq<char>>::empty() =~= views(done@));
    done
}

/// Searching a suffix is searching the whole from the suffix's start.
pub(crate) proof fn lemma_find_char_shift(s: Seq<char>, c: char, start: int, i: int)
    requires
        0 <= start <= s.len(),
        0 <= i,
    ensures
        find_char(s.subrange(start, s.len() as int), c, i) == match find_char(s, c, start + i) {
            Some(j) => Some(j - start),
            None => None,
        },
    decreases s.len() - start - i,
{
    let t = s.subrange(start, s.len() as int);
    if i < t.len() {
        assert(t[i] == s[start + i]);
        if t[i] != c {
            lemma_find_char_shift(s, c, start, i + 1);
        }
    }
}

pub(crate) fn trim_exec(s: &[char]) -> (r: Vec<char>)
    ensures
        r@ == trim(s@),
{
    let n: usize = s.len();
    let mut lo: usize = 0;
    assert(s@.subrange(0, n as int) =~= s@);
    while lo < n && is_whitespace(s[lo])
        invariant
            n == s@.len(),
            lo <= n,
            trim_start(s@) == trim_start(s@.subrange(lo as int, n as int)),
        decreases n - lo,
    {
        let ghost t = s@.subrange(lo as int, n as int);
        assert(t.drop_first() =~= s@.subrange(lo + 1, n as int));
        lo = lo + 1;
    }
    let ghost started = s@.subrange(lo as int, n as int);
    assert(trim_start(started) == started);
    let mut hi: usize = n;
    while hi > lo && is_whitespace(s[hi - 1])
        invariant
            n == s@.len(),
            lo <= hi <= n,
            started == s@.subrange(lo as int, n as int),
            trim_end(started) == trim_end(s@.subrange(lo as int, hi as int)),
        decreases hi - lo,
    {
        let ghost t = s@.subrange(lo as int, hi as int);
        assert(t.drop_last() =~= s@.subrange(lo as int, hi - 1));
        hi = hi - 1;
    }
    sub_range(s, lo, hi)
}

fn split_eq_exec(line: &[char]) -> (r: Option<(Vec<char>, Vec<char>)>)
    ensures
        r matches Some((k, v)) ==> split_eq(line@) == Some((k@, v@)),
        r is None ==> split_eq(line@) is None,
{
    match find_char_exec(line, '=', 0) {
        None => None,
        Some(i) => {
            let n: usize = line.len();
            Some((sub_range(line, 0, i), sub_range(line, i + 1, n)))
        },
    }
}

fn fan_words(value: &[char]) -> (r: Option<FanMode>)
    ensures
        r == fan_of(value@),
{
    if chars_eq(value, "auto") {
        return Some(FanMode::Auto);
    }
    match strip_prefix_chars(value, "manual:") {
        Some(rpm) => match parse_u16(rpm.as_slice()) {
            Some(v) => Some(FanMode::Manual(v)),
            None => None,
        },
        None => None,
    }
}

fn byte_words(value: &[char]) -> (r: Option<u8>)
    ensures
        r == byte_of(value@),
{
    parse_u8(value)
}

fn bho_words(value: &[char]) -> (r: BatteryHealth)
    ensures
        r == bho_of(value@),
{
    if chars_eq(value, "off") {
        BatteryHealth::Off
    } else {
        match parse_u8(value) {
            Some(v) => BatteryHealth::Limit(v),
            None => BatteryHealth::Unset,
        }
    }
}

fn apply_line_exec(state: &mut PersistedState, line: &[char])
    ensures
        *final(state) == apply_line(*old(state), line@),
{
    let trimmed = trim_exec(line);
    let (key, value) = match split_eq_exec(trimmed.as_slice()) {
        Some(parts) => parts,
        None => return,
    };
    let k = key.as_slice();
    let v = value.as_slice();
    if chars_eq(k, "fan") {
        state.fan = fan_words(v);
    } else if chars_eq(k, "bho") {
        state.battery_health = bho_words(v);
    } else if chars_eq(k, "fan_on_ac") {
        state.fan_on_ac = fan_words(v);
    } else if chars_eq(k, "fan_on_battery") {
        state.fan_on_battery = fan_words(v);
    } else if chars_eq(k, "profile") {
        state.profile = profile_words(v);
    } else if chars_eq(k, "kbd_brightness") {
        state.kbd_brightness = byte_words(v);
    } else if chars_eq(k, "kbd_effect") {
        state.kbd_effect = effect_words(v);
    } else if chars_eq(k, "logo") {
        state.logo = logo_words(v);
    } else if chars_eq(k, "kbd_on_ac") {
        state.kbd_on_ac = byte_words(v);
    } else if chars_eq(k, "kbd_on_battery") {
        state.kbd_on_battery = byte_words(v);
    }
}

fn push_fan_line(out: &mut String, ls: Ghost<Seq<Seq<char>>>, key: &str, value: Option<FanMode>) -> (r: (Ghost<Seq<Seq<char>>>, bool))
    requires
        old(out)@ == terminated(ls@),
    ensures
        r.0@ == ls@ + fan_line_if(key@, value),
        final(out)@ == terminated(r.0@),
        r.1 == (value is Some),
{
    match value {
        Some(mode) => {
            let line = fan_line(key, mode);
            let g = push_line(out, ls, &line);
            assert(g@ =~= ls@ + fan_line_if(key@, value));
            (g, true)
        },
        None => {
            assert(ls@ =~= ls@ + fan_line_if(key@, value));
            (ls, false)
        },
    }
}

fn push_byte_line(out: &mut String, ls: Ghost<Seq<Seq<char>>>, key: &str, value: Option<u8>) -> (r: (Ghost<Seq<Seq<char>>>, bool))
    requires
        old(out)@ == terminated(ls@),
    ensures
        r.0@ == ls@ + byte_line_if(key@, value),
        final(out)@ == terminated(r.0@),
        r.1 == (value is Some),
{
    match value {
        Some(b) => {
            let line = byte_line(key, b);
            let g = push_line(out, ls, &line);
            assert(g@ =~= ls@ + byte_line_if(key@, value));
            (g, true)
        },
        None => {
            assert(ls@ =~= ls@ + byte_line_if(key@, value));
            (ls, false)
        },
    }
}

fn push_bho_line(out: &mut String, ls: Ghost<Seq<Seq<char>>>, value: BatteryHealth) -> (r: (Ghost<Seq<Seq<char>>>, bool))
    requires
        old(out)@ == terminated(ls@),
    ensures
        r.0@ == ls@ + bho_lines(value),
        final(out)@ == terminated(r.0@),
        r.1 == !(value is Unset),
{
    match value {
        BatteryHealth::Unset => {
            assert(ls@ =~= ls@ + bho_lines(value));
            (ls, false)
        },
        BatteryHealth::Off => {
            let line = String::from_str("bho=off");
            let g = push_line(out, ls, &line);
            assert(g@ =~= ls@ + bho_lines(value));
            (g, true)
        },
        BatteryHealth::Limit(limit) => {
            let line = byte_line("bho", limit);
            let g = push_line(out, ls, &line);
            assert(g@ =~= ls@ + bho_lines(value));
            (g, true)
        },
    }
}

fn push_profile_line(out: &mut String, ls: Ghost<Seq<Seq<char>>>, value: Option<Profile>) -> (r: (Ghost<Seq<Seq<char>>>, bool))
    requires
        old(out)@ == terminated(ls@),
    ensures
        r.0@ == ls@ + profile_line_if(value),
        final(out)@ == terminated(r.0@),
        r.1 == (value is Some),
{
    match value {
        Some(p) => {
            let text = describe_profile(p);
            let line = text_line("profile", text.as_str());
            let g = push_line(out, ls, &line);
            assert(g@ =~= ls@ + profile_line_if(value));
            (g, true)
        },
        None => {
            assert(ls@ =~= ls@ + profile_line_if(value));
            (ls, false)
        },
    }
}

fn push_effect_line(out: &mut String, ls: Ghost<Seq<Seq<char>>>, value: Option<LightingEffect>) -> (r: (Ghost<Seq<Seq<char>>>, bool))
    requires
        old(out)@ == terminated(ls@),
    ensures
        r.0@ == ls@ + effect_line_if(value),
        final(out)@ == terminated(r.0@),
        r.1 == (value is Some),
{
    match value {
        Some(e) => {
            let text = describe_effect(e);
            let line = text_line("kbd_effect", text.as_str());
            let g = push_line(out, ls, &line);
            assert(g@ =~= ls@ + effect_line_if(value));
            (g, true)
        },
        None => {
            assert(ls@ =~= ls@ + effect_line_if(value));
            (ls, false)
        },
    }
}

fn push_logo_line(out: &mut String, ls: Ghost<Seq<Seq<char>>>, value: Option<LogoMode>) -> (r: (Ghost<Seq<Seq<char>>>, bool))
    requires
        old(out)@ == terminated(ls@),
    ensures
        r.0@ == ls@ + logo_line_if(value),
        final(out)@ == terminated(r.0@),
        r.1 == (value is Some),
{
    match value {
        Some(m) => {
            let line = text_line("logo", describe_logo(m));
            let g = push_line(out, ls, &line);
            assert(g@ =~= ls@ + logo_line_if(value));
            (g, true)
        },
        None => {
            assert(ls@ =~= ls@ + logo_line_if(value));
            (ls, false)
        },
    }
}

impl PersistedState {
    /// The state file text: one `key=value` line per recorded setting, in a
    /// fixed order, each ending in a newline.
    pub fn render(&self) -> (r: String)
        ensures
            r@ == render_text(*self),
    {
        let mut out = String::new();
        let ls: Ghost<Seq<Seq<char>>> = Ghost(Seq::empty());
        let (ls, a1) = push_fan_line(&mut out, ls, "fan", self.fan);
        let (ls, a2) = push_bho_line(&mut out, ls, self.battery_health);
        let (ls, a3) = push_fan_line(&mut out, ls, "fan_on_ac", self.fan_on_ac);
        let (ls, a4) = push_fan_line(&mut out, ls, "fan_on_battery", self.fan_on_battery);
        let (ls, a5) = push_profile_line(&mut out, ls, self.profile);
        let (ls, a6) = push_byte_line(&mut out, ls, "kbd_brightness", self.kbd_brightness);
        let (ls, a7) = push_effect_line(&mut out, ls, self.kbd_effect);
        let (ls, a8) = push_logo_line(&mut out, ls, self.logo);
        let (ls, a9) = push_byte_line(&mut out, ls, "kbd_on_ac", self.kbd_on_ac);
        let (ls, a10) = push_byte_line(&mut out, ls, "kbd_on_battery", self.kbd_on_battery);
        proof {
            let f = fan_line_if("fan"@, self.fan);
            assert(Seq::<Seq<char>>::empty() + f =~= f);
        }
        assert(ls@ == state_lines(*self));
        let any = a1 || a2 || a3 || a4 || a5 || a6 || a7 || a8 || a9 || a10;
        if !any {
            // No settings: the joined text is empty, then the final newline.
            out.append("\n");
            proof {
                reveal_strlit("\n");
            }
            assert(out@ =~= render_text(*self));
        }
        out
    }

    /// The state that `text` describes; unknown keys and malformed values
    /// are skipped.
    pub fn parse(text: &str) -> (r: PersistedState)
        ensures
            r == parse_text(text@),
    {
        let chars = crate::text::chars_of(text);
        let lines = split_lines(chars.as_slice());
        let mut state = PersistedState::default();
        let mut i: usize = 0;
        while i < lines.len()
            invariant
                i <= lines@.len(),
                views(lines@) == text_lines(text@),
                state == apply_lines(empty_state(), views(lines@).subrange(0, i as int)),
            decreases lines@.len() - i,
        {
            let ghost before = views(lines@).subrange(0, i as int);
            apply_line_exec(&mut state, lines[i].as_slice());
            i = i + 1;
            assert(views(lines@).subrange(0, i as int).drop_last() =~= before);
        }
        assert(views(lines@).subrange(0, i as int) =~= views(lines@));
        state
    }
}


// ----------------------------------------------------------------------
// Law: the state file round-trips.
// ----------------------------------------------------------------------

pub(crate) proof fn lemma_find_char_first(s: Seq<char>, c: char, i: int, m: int)
    requires
        0 <= i <= m < s.len(),
        forall|k: int| i <= k < m ==> s[k] != c,
        s[m] == c,
    ensures
        find_char(s, c, i) == Some(m),
    decreases m - i,
{
    if i < m {
        lemma_find_char_first(s, c, i + 1, m);
    }
}

proof fn lemma_terminated_front(l: Seq<char>, ls: Seq<Seq<char>>)
    ensures
        terminated(seq![l] + ls) == l + seq!['\n'] + terminated(ls),
    decreases ls.len(),
{
    if ls.len() == 0 {
        assert(seq![l] + ls =~= seq![l]);
        assert(seq![l].drop_last() =~= Seq::<Seq<char>>::empty());
        assert(terminated(ls) == Seq::<char>::empty());
        assert(terminated(seq![l].drop_last()) == Seq::<char>::empty());
        assert(terminated(seq![l]) == Seq::<char>::empty() + l + seq!['\n']);
        assert(terminated(seq![l]) =~= l + seq!['\n'] + terminated(ls));
    } else {
        lemma_terminated_front(l, ls.drop_last());
        assert((seq![l] + ls).drop_last() =~= seq![l] + ls.drop_last());
        assert((seq![l] + ls).last() == ls.last());
        assert(terminated(seq![l] + ls) =~= l + seq!['\n'] + terminated(ls));
    }
}

proof fn lemma_text_lines_cons(l: Seq<char>, rest: Seq<char>)
    requires
        visible(l),
    ensures
        text_lines(l + seq!['\n'] + rest) == seq![l] + text_lines(rest),
{
    let s = l + seq!['\n'] + rest;
    assert forall|k: int| 0 <= k < l.len() implies s[k] != '\n' by {
        assert(s[k] == l[k]);
    }
    assert(s[l.len() as int] == '\n');
    lemma_find_char_first(s, '\n', 0, l.len() as int);
    assert(s.subrange(0, l.len() as int) =~= l);
    assert(s.subrange(l.len() as int + 1, s.len() as int) =~= rest);
    if l.len() > 0 {
        assert(0x21 <= l.last() as u32);
    }
    assert(strip_cr(l) == l);
}

/// Visible lines, each ended by a newline, read back as those lines.
proof fn lemma_text_lines_terminated(ls: Seq<Seq<char>>)
    requires
        forall|i: int| 0 <= i < ls.len() ==> visible(#[trigger] ls[i]),
    ensures
        text_lines(terminated(ls)) == ls,
    decreases ls.len(),
{
    if ls.len() == 0 {
        assert(terminated(ls) == Seq::<char>::empty());
    } else {
        let l = ls[0];
        let tail = ls.drop_first();
        assert(ls =~= seq![l] + tail);
        lemma_terminated_front(l, tail);
        assert forall|i: int| 0 <= i < tail.len() implies visible(#[trigger] tail[i]) by {
            assert(tail[i] == ls[i + 1]);
        }
        lemma_text_lines_terminated(tail);
        lemma_text_lines_cons(l, terminated(tail));
    }
}

proof fn lemma_apply_lines_concat(st: PersistedState, a: Seq<Seq<char>>, b: Seq<Seq<char>>)
    ensures
        apply_lines(st, a + b) == apply_lines(apply_lines(st, a), b),
    decreases b.len(),
{
    if b.len() == 0 {
        assert(a + b =~= a);
    } else {
        lemma_apply_lines_concat(st, a, b.drop_last());
        assert((a + b).drop_last() =~= a + b.drop_last());
        assert((a + b).last() == b.last());
    }
}

pub(crate) proof fn lemma_trim_visible(s: Seq<char>)
    requires
        visible(s),
    ensures
        trim(s) == s,
{
    if s.len() > 0 {
        assert(0x21 <= s[0] as u32);
        assert(0x21 <= s.last() as u32);
    }
}

/// Keys are lower-case words: visible, and never `=`.
pub open spec fn key_word(k: Seq<char>) -> bool {
    k.len() > 0 && forall|i: int|
        0 <= i < k.len() ==> (0x61 <= (#[trigger] k[i]) as u32 <= 0x7a || k[i] == '_')
}

/// A `key=value` line is applied to the field its key names.
proof fn lemma_apply_key_line(st: PersistedState, key: Seq<char>, value: Seq<char>)
    requires
        key_word(key),
        visible(value),
    ensures
        apply_line(st, key + seq!['='] + value) == apply_field(st, key, value),
        visible(key + seq!['='] + value),
{
    let l = key + seq!['='] + value;
    assert(visible(key)) by {
        assert forall|i: int| 0 <= i < key.len() implies 0x21 <= (#[trigger] key[i]) as u32 <= 0x7e by {
            assert(0x61 <= key[i] as u32 <= 0x7a || key[i] == '_');
        }
    }
    lemma_visible_concat(key, seq!['=']);
    lemma_visible_concat(key + seq!['='], value);
    lemma_trim_visible(l);
    assert forall|k: int| 0 <= k < key.len() implies l[k] != '=' by {
        assert(l[k] == key[k]);
        assert(0x61 <= key[k] as u32 <= 0x7a || key[k] == '_');
    }
    lemma_find_char_first(l, '=', 0, key.len() as int);
    assert(l.subrange(0, key.len() as int) =~= key);
    assert(l.subrange(key.len() as int + 1, l.len() as int) =~= value);
}

pub proof fn reveal_keys()
    ensures
        "fan"@ == seq!['f', 'a', 'n'],
        "bho"@ == seq!['b', 'h', 'o'],
        "fan_on_ac"@ == seq!['f', 'a', 'n', '_', 'o', 'n', '_', 'a', 'c'],
        "fan_on_battery"@ == seq!['f', 'a', 'n', '_', 'o', 'n', '_', 'b', 'a', 't', 't', 'e', 'r', 'y'],
        "profile"@ == seq!['p', 'r', 'o', 'f', 'i', 'l', 'e'],
        "kbd_brightness"@ == seq!['k', 'b', 'd', '_', 'b', 'r', 'i', 'g', 'h', 't', 'n', 'e', 's', 's'],
        "kbd_effect"@ == seq!['k', 'b', 'd', '_', 'e', 'f', 'f', 'e', 'c', 't'],
        "logo"@ == seq!['l', 'o', 'g', 'o'],
        "kbd_on_ac"@ == seq!['k', 'b', 'd', '_', 'o', 'n', '_', 'a', 'c'],
        "kbd_on_battery"@ == seq!['k', 'b', 'd', '_', 'o', 'n', '_', 'b', 'a', 't', 't', 'e', 'r', 'y'],
        "="@ == seq!['='],
{
    reveal_strlit("fan");
    reveal_strlit("bho");
    reveal_strlit("fan_on_ac");
    reveal_strlit("fan_on_battery");
    reveal_strlit("profile");
    reveal_strlit("kbd_brightness");
    reveal_strlit("kbd_effect");
    reveal_strlit("logo");
    reveal_strlit("kbd_on_ac");
    reveal_strlit("kbd_on_battery");
    reveal_strlit("=");
    assert("fan"@ =~= seq!['f', 'a', 'n']);
    assert("bho"@ =~= seq!['b', 'h', 'o']);
    assert("fan_on_ac"@ =~= seq!['f', 'a', 'n', '_', 'o', 'n', '_', 'a', 'c']);
    assert("fan_on_battery"@ =~= seq!['f', 'a', 'n', '_', 'o', 'n', '_', 'b', 'a', 't', 't', 'e', 'r', 'y']);
    assert("profile"@ =~= seq!['p', 'r', 'o', 'f', 'i', 'l', 'e']);
    assert("kbd_brightness"@ =~= seq!['k', 'b', 'd', '_', 'b', 'r', 'i', 'g', 'h', 't', 'n', 'e', 's', 's']);
    assert("kbd_effect"@ =~= seq!['k', 'b', 'd', '_', 'e', 'f', 'f', 'e', 'c', 't']);
    assert("logo"@ =~= seq!['l', 'o', 'g', 'o']);
    assert("kbd_on_ac"@ =~= seq!['k', 'b', 'd', '_', 'o', 'n', '_', 'a', 'c']);
    assert("kbd_on_battery"@ =~= seq!['k', 'b', 'd', '_', 'o', 'n', '_', 'b', 'a', 't', 't', 'e', 'r', 'y']);
    assert("="@ =~= seq!['=']);
}


pub open spec fn all_visible(ls: Seq<Seq<char>>) -> bool {
    forall|i: int| 0 <= i < ls.len() ==> visible(#[trigger] ls[i])
}

proof fn lemma_all_visible_concat(a: Seq<Seq<char>>, b: Seq<Seq<char>>)
    requires
        all_visible(a),
        all_visible(b),
    ensures
        all_visible(a + b),
{
    assert forall|i: int| 0 <= i < (a + b).len() implies visible(#[trigger] (a + b)[i]) by {
        if i < a.len() {
            assert((a + b)[i] == a[i]);
        } else {
            assert((a + b)[i] == b[i - a.len()]);
        }
    }
}

pub(crate) proof fn lemma_seq_visible(s: Seq<char>)
    requires
        forall|i: int| 0 <= i < s.len() ==> 0x21 <= (#[trigger] s[i]) as u32 <= 0x7e,
    ensures
        visible(s),
{
}

pub(crate) proof fn lemma_fan_value(m: FanMode)
    ensures
        visible(fan_text(m)),
        fan_of(fan_text(m)) == Some(m),
{
    reveal_strlit("auto");
    reveal_strlit("manual:");
    assert("auto"@ =~= seq!['a', 'u', 't', 'o']);
    assert("manual:"@ =~= seq!['m', 'a', 'n', 'u', 'a', 'l', ':']);
    match m {
        FanMode::Auto => {
            lemma_seq_visible("auto"@);
        },
        FanMode::Manual(rpm) => {
            let d = dec(rpm as nat);
            lemma_dec_digits(rpm as nat);
            lemma_parse_dec(rpm as nat, 65535);
            lemma_seq_visible("manual:"@);
            lemma_visible_concat("manual:"@, d);
            let t = fan_text(m);
            assert(t.len() > 4);
            assert(t != "auto"@);
            assert(t.subrange(0, 7) =~= "manual:"@);
            assert(t.subrange(7, t.len() as int) =~= d);
        },
    }
}

pub(crate) proof fn lemma_byte_value(b: u8)
    ensures
        visible(dec(b as nat)),
        byte_of(dec(b as nat)) == Some(b),
{
    lemma_dec_digits(b as nat);
    lemma_parse_dec(b as nat, 255);
}

proof fn lemma_bho_value(limit: u8)
    ensures
        visible("off"@),
        bho_of("off"@) == BatteryHealth::Off,
        bho_of(dec(limit as nat)) == BatteryHealth::Limit(limit),
{
    reveal_strlit("off");
    assert("off"@ =~= seq!['o', 'f', 'f']);
    lemma_seq_visible("off"@);
    lemma_dec_digits(limit as nat);
    lemma_parse_dec(limit as nat, 255);
    assert(is_digit(dec(limit as nat)[0]));
    assert(dec(limit as nat) != "off"@);
}

pub(crate) proof fn lemma_profile_value(p: Profile)
    ensures
        visible(profile_text(p)),
        profile_of(profile_text(p)) == Some(p),
{
    crate::ipc::law_profile_round_trip(p);
    crate::ipc::reveal_value_words();
    crate::ipc::reveal_level_names();
    match p {
        Profile::Custom { cpu, gpu } => {
            lemma_seq_visible("custom:cpu="@);
            lemma_seq_visible(",gpu="@);
            lemma_seq_visible(crate::ipc::level_name(cpu));
            lemma_seq_visible(crate::ipc::level_name(gpu));
            lemma_visible_concat("custom:cpu="@, crate::ipc::level_name(cpu));
            lemma_visible_concat("custom:cpu="@ + crate::ipc::level_name(cpu), ",gpu="@);
            lemma_visible_concat(
                "custom:cpu="@ + crate::ipc::level_name(cpu) + ",gpu="@,
                crate::ipc::level_name(gpu),
            );
        },
        _ => {
            lemma_seq_visible(profile_text(p));
        },
    }
}

pub(crate) proof fn lemma_effect_value(e: LightingEffect)
    ensures
        visible(effect_text(e)),
        effect_of(effect_text(e)) == Some(e),
{
    crate::ipc::law_effect_round_trip(e);
    crate::ipc::reveal_value_words();
    match e {
        LightingEffect::Static { red, green, blue } => {
            lemma_hex_pair_round_trip(red as nat);
            lemma_hex_pair_round_trip(green as nat);
            lemma_hex_pair_round_trip(blue as nat);
            lemma_seq_visible("static:"@);
            lemma_visible_concat("static:"@, hex_fixed(red as nat, 2));
            lemma_visible_concat("static:"@ + hex_fixed(red as nat, 2), hex_fixed(green as nat, 2));
            lemma_visible_concat(
                "static:"@ + hex_fixed(red as nat, 2) + hex_fixed(green as nat, 2),
                hex_fixed(blue as nat, 2),
            );
        },
        _ => {
            lemma_seq_visible(effect_text(e));
        },
    }
}

pub(crate) proof fn lemma_logo_value(m: LogoMode)
    ensures
        visible(logo_text(m)),
        logo_of(logo_text(m)) == Some(m),
{
    crate::ipc::law_logo_round_trip(m);
    crate::ipc::reveal_value_words();
    lemma_seq_visible(logo_text(m));
}

proof fn lemma_single_line(st: PersistedState, l: Seq<char>)
    ensures
        apply_lines(st, seq![l]) == apply_line(st, l),
{
    assert(seq![l].drop_last() =~= Seq::<Seq<char>>::empty());
    assert(apply_lines(st, Seq::<Seq<char>>::empty()) == st);
    assert(seq![l].last() == l);
}

proof fn lemma_part_fan(st: PersistedState, v: Option<FanMode>)
    requires
        st.fan is None,
    ensures
        apply_lines(st, fan_line_if("fan"@, v)) == (PersistedState { fan: v, ..st }),
        all_visible(fan_line_if("fan"@, v)),
{
    match v {
        None => {
            assert(fan_line_if("fan"@, v) =~= Seq::<Seq<char>>::empty());
        },
        Some(x) => {
            reveal_keys();
            lemma_fan_value(x);
            lemma_single_line(st, "fan"@ + "="@ + fan_text(x));
            assert(key_word("fan"@));
            lemma_apply_key_line(st, "fan"@, fan_text(x));
        },
    }
}

proof fn lemma_part_fan_on_ac(st: PersistedState, v: Option<FanMode>)
    requires
        st.fan_on_ac is None,
    ensures
        apply_lines(st, fan_line_if("fan_on_ac"@, v)) == (PersistedState { fan_on_ac: v, ..st }),
        all_visible(fan_line_if("fan_on_ac"@, v)),
{
    match v {
        None => {
            assert(fan_line_if("fan_on_ac"@, v) =~= Seq::<Seq<char>>::empty());
        },
        Some(x) => {
            reveal_keys();
            lemma_fan_value(x);
            lemma_single_line(st, "fan_on_ac"@ + "="@ + fan_text(x));
            assert(key_word("fan_on_ac"@));
            lemma_apply_key_line(st, "fan_on_ac"@, fan_text(x));
        },
    }
}

proof fn lemma_part_fan_on_battery(st: PersistedState, v: Option<FanMode>)
    requires
        st.fan_on_battery is None,
    ensures
        apply_lines(st, fan_line_if("fan_on_battery"@, v)) == (PersistedState { fan_on_battery: v, ..st }),
        all_visible(fan_line_if("fan_on_battery"@, v)),
{
    match v {
        None => {
            assert(fan_line_if("fan_on_battery"@, v) =~= Seq::<Seq<char>>::empty());
        },
        Some(x) => {
            reveal_keys();
            lemma_fan_value(x);
            lemma_single_line(st, "fan_on_battery"@ + "="@ + fan_text(x));
            assert(key_word("fan_on_battery"@));
            lemma_apply_key_line(st, "fan_on_battery"@, fan_text(x));
        },
    }
}

proof fn lemma_part_profile(st: PersistedState, v: Option<Profile>)
    requires
        st.profile is None,
    ensures
        apply_lines(st, profile_line_if(v)) == (PersistedState { profile: v, ..st }),
        all_visible(profile_line_if(v)),
{
    match v {
        None => {
            assert(profile_line_if(v) =~= Seq::<Seq<char>>::empty());
        },
        Some(x) => {
            reveal_keys();
            lemma_profile_value(x);
            lemma_single_line(st, "profile"@ + "="@ + profile_text(x));
            assert(key_word("profile"@));
            lemma_apply_key_line(st, "profile"@, profile_text(x));
        },
    }
}

proof fn lemma_part_kbd_brightness(st: PersistedState, v: Option<u8>)
    requires
        st.kbd_brightness is None,
    ensures
        apply_lines(st, byte_line_if("kbd_brightness"@, v)) == (PersistedState { kbd_brightness: v, ..st }),
        all_visible(byte_line_if("kbd_brightness"@, v)),
{
    match v {
        None => {
            assert(byte_line_if("kbd_brightness"@, v) =~= Seq::<Seq<char>>::empty());
        },
        Some(x) => {
            reveal_keys();
            lemma_byte_value(x);
            lemma_single_line(st, "kbd_brightness"@ + "="@ + dec(x as nat));
            assert(key_word("kbd_brightness"@));
            lemma_apply_key_line(st, "kbd_brightness"@, dec(x as nat));
        },
    }
}

proof fn lemma_part_kbd_effect(st: PersistedState, v: Option<LightingEffect>)
    requires
        st.kbd_effect is None,
    ensures
        apply_lines(st, effect_line_if(v)) == (PersistedState { kbd_effect: v, ..st }),
        all_visible(effect_line_if(v)),
{
    match v {
        None => {
            assert(effect_line_if(v) =~= Seq::<Seq<char>>::empty());
        },
        Some(x) => {
            reveal_keys();
            lemma_effect_value(x);
            lemma_single_line(st, "kbd_effect"@ + "="@ + effect_text(x));
            assert(key_word("kbd_effect"@));
            lemma_apply_key_line(st, "kbd_effect"@, effect_text(x));
        },
    }
}

proof fn lemma_part_logo(st: PersistedState, v: Option<LogoMode>)
    requires
        st.logo is None,
    ensures
        apply_lines(st, logo_line_if(v)) == (PersistedState { logo: v, ..st }),
        all_visible(logo_line_if(v)),
{
    match v {
        None => {
            assert(logo_line_if(v) =~= Seq::<Seq<char>>::empty());
        },
        Some(x) => {
            reveal_keys();
            lemma_logo_value(x);
            lemma_single_line(st, "logo"@ + "="@ + logo_text(x));
            assert(key_word("logo"@));
            lemma_apply_key_line(st, "logo"@, logo_text(x));
        },
    }
}

proof fn lemma_part_kbd_on_ac(st: PersistedState, v: Option<u8>)
    requires
        st.kbd_on_ac is None,
    ensures
        apply_lines(st, byte_line_if("kbd_on_ac"@, v)) == (PersistedState { kbd_on_ac: v, ..st }),
        all_visible(byte_line_if("kbd_on_ac"@, v)),
{
    match v {
        None => {
            assert(byte_line_if("kbd_on_ac"@, v) =~= Seq::<Seq<char>>::empty());
        },
        Some(x) => {
            reveal_keys();
            lemma_byte_value(x);
            lemma_single_line(st, "kbd_on_ac"@ + "="@ + dec(x as nat));
            assert(key_word("kbd_on_ac"@));
            lemma_apply_key_line(st, "kbd_on_ac"@, dec(x as nat));
        },
    }
}

proof fn lemma_part_kbd_on_battery(st: PersistedState, v: Option<u8>)
    requires
        st.kbd_on_battery is None,
    ensures
        apply_lines(st, byte_line_if("kbd_on_battery"@, v)) == (PersistedState { kbd_on_battery: v, ..st }),
        all_visible(byte_line_if("kbd_on_battery"@, v)),
{
    match v {
        None => {
            assert(byte_line_if("kbd_on_battery"@, v) =~= Seq::<Seq<char>>::empty());
        },
        Some(x) => {
            reveal_keys();
            lemma_byte_value(x);
            lemma_single_line(st, "kbd_on_battery"@ + "="@ + dec(x as nat));
            assert(key_word("kbd_on_battery"@));
            lemma_apply_key_line(st, "kbd_on_battery"@, dec(x as nat));
        },
    }
}

proof fn lemma_part_bho(st: PersistedState, b: BatteryHealth)
    requires
        st.battery_health is Unset,
    ensures
        apply_lines(st, bho_lines(b)) == (PersistedState { battery_health: b, ..st }),
        all_visible(bho_lines(b)),
{
    reveal_keys();
    match b {
        BatteryHealth::Unset => {
            assert(bho_lines(b) =~= Seq::<Seq<char>>::empty());
        },
        BatteryHealth::Off => {
            lemma_bho_value(0);
            reveal_strlit("bho=off");
            assert("bho=off"@ =~= seq!['b', 'h', 'o', '=', 'o', 'f', 'f']);
            reveal_strlit("off");
            assert("off"@ =~= seq!['o', 'f', 'f']);
            assert("bho=off"@ =~= "bho"@ + "="@ + "off"@);
            lemma_single_line(st, "bho=off"@);
            assert(key_word("bho"@));
            lemma_apply_key_line(st, "bho"@, "off"@);
        },
        BatteryHealth::Limit(limit) => {
            lemma_bho_value(limit);
            lemma_dec_digits(limit as nat);
            lemma_single_line(st, "bho"@ + "="@ + dec(limit as nat));
            assert(key_word("bho"@));
            lemma_apply_key_line(st, "bho"@, dec(limit as nat));
        },
    }
}

/// The state file round-trips: parsing what [`PersistedState::render`]
/// writes gives back exactly the state that was rendered.
pub proof fn law_state_file_round_trip(s: PersistedState)
    ensures
        parse_text(render_text(s)) == s,
{
    let e = empty_state();
    let p1 = fan_line_if("fan"@, s.fan);
    let p2 = bho_lines(s.battery_health);
    let p3 = fan_line_if("fan_on_ac"@, s.fan_on_ac);
    let p4 = fan_line_if("fan_on_battery"@, s.fan_on_battery);
    let p5 = profile_line_if(s.profile);
    let p6 = byte_line_if("kbd_brightness"@, s.kbd_brightness);
    let p7 = effect_line_if(s.kbd_effect);
    let p8 = logo_line_if(s.logo);
    let p9 = byte_line_if("kbd_on_ac"@, s.kbd_on_ac);
    let p10 = byte_line_if("kbd_on_battery"@, s.kbd_on_battery);
    let ls = state_lines(s);
    assert(ls == p1 + p2 + p3 + p4 + p5 + p6 + p7 + p8 + p9 + p10);
    lemma_apply_lines_concat(e, p1 + p2 + p3 + p4 + p5 + p6 + p7 + p8 + p9, p10);
    lemma_apply_lines_concat(e, p1 + p2 + p3 + p4 + p5 + p6 + p7 + p8, p9);
    lemma_apply_lines_concat(e, p1 + p2 + p3 + p4 + p5 + p6 + p7, p8);
    lemma_apply_lines_concat(e, p1 + p2 + p3 + p4 + p5 + p6, p7);
    lemma_apply_lines_concat(e, p1 + p2 + p3 + p4 + p5, p6);
    lemma_apply_lines_concat(e, p1 + p2 + p3 + p4, p5);
    lemma_apply_lines_concat(e, p1 + p2 + p3, p4);
    lemma_apply_lines_concat(e, p1 + p2, p3);
    lemma_apply_lines_concat(e, p1, p2);
    assert(apply_lines(e, Seq::<Seq<char>>::empty()) == e);
    let s1 = PersistedState { fan: s.fan, ..e };
    lemma_part_fan(e, s.fan);
    let s2 = PersistedState { battery_health: s.battery_health, ..s1 };
    lemma_part_bho(s1, s.battery_health);
    let s3 = PersistedState { fan_on_ac: s.fan_on_ac, ..s2 };
    lemma_part_fan_on_ac(s2, s.fan_on_ac);
    let s4 = PersistedState { fan_on_battery: s.fan_on_battery, ..s3 };
    lemma_part_fan_on_battery(s3, s.fan_on_battery);
    let s5 = PersistedState { profile: s.profile, ..s4 };
    lemma_part_profile(s4, s.profile);
    let s6 = PersistedState { kbd_brightness: s.kbd_brightness, ..s5 };
    lemma_part_kbd_brightness(s5, s.kbd_brightness);
    let s7 = PersistedState { kbd_effect: s.kbd_effect, ..s6 };
    lemma_part_kbd_effect(s6, s.kbd_effect);
    let s8 = PersistedState { logo: s.logo, ..s7 };
    lemma_part_logo(s7, s.logo);
    let s9 = PersistedState { kbd_on_ac: s.kbd_on_ac, ..s8 };
    lemma_part_kbd_on_ac(s8, s.kbd_on_ac);
    lemma_part_kbd_on_battery(s9, s.kbd_on_battery);
    assert(apply_lines(e, ls) == s);
    if ls.len() == 0 {
        let t = seq!['\n'];
        assert(render_text(s) == t);
        lemma_find_char_first(t, '\n', 0, 0);
        assert(t.subrange(0, 0) =~= Seq::<char>::empty());
        assert(t.subrange(1, 1) =~= Seq::<char>::empty());
        assert(strip_cr(Seq::<char>::empty()) == Seq::<char>::empty());
        assert(text_lines(Seq::<char>::empty()) == Seq::<Seq<char>>::empty());
        assert(text_lines(t) =~= seq![Seq::<char>::empty()] + Seq::<Seq<char>>::empty());
        assert(text_lines(t) =~= seq![Seq::<char>::empty()]);
        lemma_single_line(e, Seq::<char>::empty());
        assert(trim(Seq::<char>::empty()) == Seq::<char>::empty());
        assert(apply_lines(e, ls) == e);
    } else {
        lemma_all_visible_concat(p1, p2);
        lemma_all_visible_concat(p1 + p2, p3);
        lemma_all_visible_concat(p1 + p2 + p3, p4);
        lemma_all_visible_concat(p1 + p2 + p3 + p4, p5);
        lemma_all_visible_concat(p1 + p2 + p3 + p4 + p5, p6);
        lemma_all_visible_concat(p1 + p2 + p3 + p4 + p5 + p6, p7);
        lemma_all_visible_concat(p1 + p2 + p3 + p4 + p5 + p6 + p7, p8);
        lemma_all_visible_concat(p1 + p2 + p3 + p4 + p5 + p6 + p7 + p8, p9);
        lemma_all_visible_concat(p1 + p2 + p3 + p4 + p5 + p6 + p7 + p8 + p9, p10);
        lemma_text_lines_terminated(ls);
    }
}

} // verus!
