//! What the desktop clients compute from daemon replies and from the text
//! of desktop tools: reply fields, the tray's status summary, GPU-mode
//! recognition, ANSI stripping, `kscreen-doctor -o` listings, and the GUI's
//! own settings file.  Running the tools and drawing widgets is left to the
//! front ends.

use std::collections::VecDeque;
use vstd::prelude::*;
use vstd::string::*;

use crate::config::{split_lines, text_lines, trim, trim_exec};
use crate::text::{
    chars_eq, chars_of, debug_text, dec, split_once, split_once_chars, split_words, str_debug,
    string_of, strip_prefix, strip_prefix_chars, views, words,
};

verus! {

// ----------------------------------------------------------------------
// Reply fields.
// ----------------------------------------------------------------------

/// `s.trim_start_matches(p)` for a non-empty `p`: every leading copy of `p`
/// removed.
pub open spec fn strip_repeated(s: Seq<char>, p: Seq<char>) -> Seq<char>
    decreases s.len(),
{
    if p.len() > 0 && p.len() <= s.len() && s.subrange(0, p.len() as int) == p {
        strip_repeated(s.subrange(p.len() as int, s.len() as int), p)
    } else {
        s
    }
}

/// The `key=value` words of `ws`, split at their first `=`; words without
/// one are skipped.
pub open spec fn field_pairs(ws: Seq<Seq<char>>) -> Seq<(Seq<char>, Seq<char>)>
    decreases ws.len(),
{
    if ws.len() == 0 {
        Seq::empty()
    } else {
        let rest = field_pairs(ws.drop_last());
        match split_once(ws.last(), "="@) {
            Some(kv) => rest.push(kv),
            None => rest,
        }
    }
}

/// The fields of an `ok key=value key=value …` reply, in order.
pub open spec fn reply_fields(reply: Seq<char>) -> Seq<(Seq<char>, Seq<char>)> {
    field_pairs(words(strip_repeated(reply, "ok "@)))
}

pub open spec fn pairs_view(v: Seq<(String, String)>) -> Seq<(Seq<char>, Seq<char>)> {
    Seq::new(v.len(), |i: int| (v[i].0@, v[i].1@))
}

/// What a map built from `pairs` in order holds for `key`: the value of
/// its last pair with that key.
pub open spec fn last_value(pairs: Seq<(Seq<char>, Seq<char>)>, key: Seq<char>) -> Option<
    Seq<char>,
>
    decreases pairs.len(),
{
    if pairs.len() == 0 {
        None
    } else if pairs.last().0 == key {
        Some(pairs.last().1)
    } else {
        last_value(pairs.drop_last(), key)
    }
}

pub(crate) fn strip_repeated_exec(s: &[char], p: &str) -> (r: Vec<char>)
    requires
        p@.len() > 0,
    ensures
        r@ == strip_repeated(s@, p@),
{
    let mut rest: Vec<char> = crate::config::sub_range(s, 0, s.len());
    assert(s@.subrange(0, s@.len() as int) =~= s@);
    loop
        invariant
            p@.len() > 0,
            strip_repeated(s@, p@) == strip_repeated(rest@, p@),
        decreases rest@.len(),
    {
        match strip_prefix_chars(rest.as_slice(), p) {
            Some(next) => {
                rest = next;
            },
            None => {
                return rest;
            },
        }
    }
}

/// Parses an `ok key=value key=value …` reply into its fields, in order.
pub fn parse_fields(reply: &str) -> (r: Vec<(String, String)>)
    ensures
        pairs_view(r@) == reply_fields(reply@),
{
    let chars = chars_of(reply);
    proof {
        reveal_strlit("ok ");
    }
    let body = strip_repeated_exec(chars.as_slice(), "ok ");
    let ws = split_words(body.as_slice());
    let ghost wv = views(ws@);
    let mut out: Vec<(String, String)> = Vec::new();
    let mut i: usize = 0;
    assert(wv.subrange(0, 0) =~= Seq::<Seq<char>>::empty());
    assert(pairs_view(out@) =~= Seq::<(Seq<char>, Seq<char>)>::empty());
    while i < ws.len()
        invariant
            i <= ws@.len(),
            wv == views(ws@),
            wv == words(body@),
            pairs_view(out@) == field_pairs(wv.subrange(0, i as int)),
        decreases ws.len() - i,
    {
        let ghost before = pairs_view(out@);
        assert(wv.subrange(0, i + 1).drop_last() =~= wv.subrange(0, i as int));
        assert(wv.subrange(0, i + 1).last() == ws@[i as int]@);
        match split_once_chars(ws[i].as_slice(), "=") {
            Some((k, v)) => {
                out.push((string_of(k.as_slice()), string_of(v.as_slice())));
                assert(pairs_view(out@) =~= before.push((k@, v@)));
            },
            None => {},
        }
        i = i + 1;
    }
    assert(wv.subrange(0, wv.len() as int) =~= wv);
    out
}

/// The value a map of `fields` holds for `key`.
pub fn field_value(fields: &[(String, String)], key: &str) -> (r: Option<String>)
    ensures
        r matches Some(v) ==> last_value(pairs_view(fields@), key@) == Some(v@),
        r is None ==> last_value(pairs_view(fields@), key@) is None,
{
    let ghost pv = pairs_view(fields@);
    let mut i: usize = fields.len();
    assert(pv.subrange(0, pv.len() as int) =~= pv);
    while i > 0
        invariant
            i <= fields@.len(),
            pv == pairs_view(fields@),
            last_value(pv, key@) == last_value(pv.subrange(0, i as int), key@),
        decreases i,
    {
        let ghost part = pv.subrange(0, i as int);
        assert(part.last() == (fields@[i - 1].0@, fields@[i - 1].1@));
        assert(part.drop_last() =~= pv.subrange(0, i - 1));
        if chars_eq(chars_of(fields[i - 1].0.as_str()).as_slice(), key) {
            return Some(fields[i - 1].1.clone());
        }
        i = i - 1;
    }
    None
}

/// The pieces of `s` between the occurrences of `c`, as `str::split(c)`.
pub open spec fn char_pieces(s: Seq<char>, c: char) -> Seq<Seq<char>>
    decreases s.len(),
{
    match crate::config::find_char(s, c, 0) {
        None => seq![s],
        Some(i) => {
            proof {
                crate::config::lemma_find_char_bounds(s, c, 0);
            }
            seq![s.subrange(0, i)] + char_pieces(s.subrange(i + 1, s.len() as int), c)
        },
    }
}

/// The `key=value` pieces of `ps`, split at their first `=`, values trimmed.
pub open spec fn trimmed_pairs(ps: Seq<Seq<char>>) -> Seq<(Seq<char>, Seq<char>)>
    decreases ps.len(),
{
    if ps.len() == 0 {
        Seq::empty()
    } else {
        let rest = trimmed_pairs(ps.drop_last());
        match split_once(ps.last(), "="@) {
            Some((k, v)) => rest.push((k, trim(v))),
            None => rest,
        }
    }
}

/// The fields of the `sysinfo` reply, whose values (model names) contain
/// spaces and so are tab-separated.
pub open spec fn sysinfo_fields_spec(reply: Seq<char>) -> Seq<(Seq<char>, Seq<char>)> {
    trimmed_pairs(char_pieces(strip_repeated(reply, "ok "@), '\t'))
}

fn split_pieces(s: &[char], c: char) -> (r: Vec<Vec<char>>)
    ensures
        views(r@) == char_pieces(s@, c),
{
    let n: usize = s.len();
    let mut done: Vec<Vec<char>> = Vec::new();
    let mut start: usize = 0;
    assert(s@.subrange(0, n as int) =~= s@);
    assert(views(done@) + char_pieces(s@, c) =~= char_pieces(s@, c));
    loop
        invariant
            n == s@.len(),
            start <= n,
            char_pieces(s@, c) == views(done@) + char_pieces(
                s@.subrange(start as int, n as int),
                c,
            ),
        decreases n - start,
    {
        let ghost rest = s@.subrange(start as int, n as int);
        let ghost before = views(done@);
        proof {
            crate::config::lemma_find_char_shift(s@, c, start as int, 0);
        }
        match crate::config::find_char_exec(s, c, start) {
            None => {
                let piece = crate::config::sub_range(s, start, n);
                done.push(piece);
                assert(char_pieces(rest, c) == seq![rest]);
                assert(views(done@) =~= before + seq![rest]);
                return done;
            },
            Some(i) => {
                let piece = crate::config::sub_range(s, start, i);
                done.push(piece);
                assert(rest.subrange(0, i - start) =~= s@.subrange(start as int, i as int));
                assert(rest.subrange(i - start + 1, rest.len() as int) =~= s@.subrange(
                    i + 1,
                    n as int,
                ));
                assert(views(done@) =~= before + seq![s@.subrange(start as int, i as int)]);
                start = i + 1;
            },
        }
    }
}

/// Parses the tab-separated `sysinfo` reply into its fields, in order.
pub fn parse_sysinfo_fields(reply: &str) -> (r: Vec<(String, String)>)
    ensures
        pairs_view(r@) == sysinfo_fields_spec(reply@),
{
    let chars = chars_of(reply);
    proof {
        reveal_strlit("ok ");
    }
    let body = strip_repeated_exec(chars.as_slice(), "ok ");
    let ps = split_pieces(body.as_slice(), '\t');
    let ghost pv = views(ps@);
    let mut out: Vec<(String, String)> = Vec::new();
    let mut i: usize = 0;
    assert(pv.subrange(0, 0) =~= Seq::<Seq<char>>::empty());
    assert(pairs_view(out@) =~= Seq::<(Seq<char>, Seq<char>)>::empty());
    while i < ps.len()
        invariant
            i <= ps@.len(),
            pv == views(ps@),
            pairs_view(out@) == trimmed_pairs(pv.subrange(0, i as int)),
        decreases ps.len() - i,
    {
        let ghost before = pairs_view(out@);
        assert(pv.subrange(0, i + 1).drop_last() =~= pv.subrange(0, i as int));
        assert(pv.subrange(0, i + 1).last() == ps@[i as int]@);
        match split_once_chars(ps[i].as_slice(), "=") {
            Some((k, v)) => {
                let t = trim_exec(v.as_slice());
                out.push((string_of(k.as_slice()), string_of(t.as_slice())));
                assert(pairs_view(out@) =~= before.push((k@, trim(v@))));
            },
            None => {},
        }
        i = i + 1;
    }
    assert(pv.subrange(0, pv.len() as int) =~= pv);
    out
}

/// One poll of the daemon: whether it answered, and the fields of its
/// `status` and `telemetry` replies.
pub struct Snapshot {
    /// False when the daemon socket could not be reached.
    pub reachable: bool,
    pub status: Vec<(String, String)>,
    pub telemetry: Vec<(String, String)>,
}

impl Snapshot {
    /// True when the status reply's `key` field holds exactly `value`.
    pub fn status_is(&self, key: &str, value: &str) -> (r: bool)
        ensures
            r == (last_value(pairs_view(self.status@), key@) == Some(value@)),
    {
        match field_value(self.status.as_slice(), key) {
            Some(v) => chars_eq(chars_of(v.as_str()).as_slice(), value),
            None => false,
        }
    }
}

// ----------------------------------------------------------------------
// The tray's summary of a `status` reply.
// ----------------------------------------------------------------------

/// The value of the first word, from `i` on, of the form `key=value`.
pub open spec fn tagged_value(ws: Seq<Seq<char>>, key: Seq<char>, i: int) -> Option<Seq<char>>
    decreases ws.len() - i,
{
    if i < 0 || i >= ws.len() {
        None
    } else {
        match strip_prefix(ws[i], key) {
            Some(r) => match strip_prefix(r, "="@) {
                Some(v) => Some(v),
                None => tagged_value(ws, key, i + 1),
            },
            None => tagged_value(ws, key, i + 1),
        }
    }
}

fn tagged_value_exec(ws: &Vec<Vec<char>>, key: &str) -> (r: Option<Vec<char>>)
    ensures
        r matches Some(v) ==> tagged_value(views(ws@), key@, 0) == Some(v@),
        r is None ==> tagged_value(views(ws@), key@, 0) is None,
{
    let ghost wv = views(ws@);
    let mut i: usize = 0;
    while i < ws.len()
        invariant
            i <= ws@.len(),
            wv == views(ws@),
            tagged_value(wv, key@, 0) == tagged_value(wv, key@, i as int),
        decreases ws.len() - i,
    {
        assert(wv[i as int] == ws@[i as int]@);
        match strip_prefix_chars(ws[i].as_slice(), key) {
            Some(r) => match strip_prefix_chars(r.as_slice(), "=") {
                Some(v) => {
                    return Some(v);
                },
                None => {},
            },
            None => {},
        }
        i = i + 1;
    }
    None
}

pub open spec fn device_summary(v: Option<Seq<char>>) -> Seq<char> {
    match v {
        Some(d) => if d == "1532:029d"@ {
            "Razer Blade 14 (2023)"@
        } else {
            d
        },
        None => "Unknown device"@,
    }
}

pub open spec fn backend_summary(v: Option<Seq<char>>) -> Seq<char> {
    match v {
        Some(b) => if b == "dry-run"@ {
            "dry-run backend"@
        } else if b == "hidraw"@ {
            "hardware backend (hidraw)"@
        } else {
            b
        },
        None => "unknown backend"@,
    }
}

/// "device name — backend" from a `status` reply's `key=value` words.
pub open spec fn status_summary(reply: Seq<char>) -> Seq<char> {
    let ws = words(reply);
    device_summary(tagged_value(ws, "device"@, 0)) + " \u{2014} "@ + backend_summary(
        tagged_value(ws, "backend"@, 0),
    )
}

/// The tray tooltip's description of the live daemon.
pub fn describe_status(reply: &str) -> (r: String)
    ensures
        r@ == status_summary(reply@),
{
    let chars = chars_of(reply);
    let ws = split_words(chars.as_slice());
    let mut s = String::new();
    match tagged_value_exec(&ws, "device") {
        Some(d) => {
            if chars_eq(d.as_slice(), "1532:029d") {
                s.append(crate::blade_14_2023().name);
            } else {
                s = string_of(d.as_slice());
            }
        },
        None => s.append("Unknown device"),
    }
    s.append(" \u{2014} ");
    match tagged_value_exec(&ws, "backend") {
        Some(b) => {
            if chars_eq(b.as_slice(), "dry-run") {
                s.append("dry-run backend");
            } else if chars_eq(b.as_slice(), "hidraw") {
                s.append("hardware backend (hidraw)");
            } else {
                let t = string_of(b.as_slice());
                s.append(t.as_str());
            }
        },
        None => s.append("unknown backend"),
    }
    proof {
        reveal_strlit("Unknown device");
    }
    assert(s@ =~= status_summary(reply@));
    s
}

// ----------------------------------------------------------------------
// GPU modes.
// ----------------------------------------------------------------------

#[derive(Debug, Clone, Copy, PartialEq, Eq, Structural)]
pub enum Mode {
    Integrated,
    Hybrid,
    Dedicated,
}

/// The tool that switches GPU modes on this machine.
#[derive(Debug, Clone, Copy, PartialEq, Eq, Structural)]
pub enum Tool {
    SuperGfx,
    PrimeSelect,
    EnvyControl,
    Mock,
}

/// What `str::to_lowercase` produces: the Unicode lowercase mapping of each
/// character, from the standard library's tables.
pub uninterp spec fn str_lowercase(s: Seq<char>) -> Seq<char>;

/// `str::to_lowercase`.  Trusted: the result is `str_lowercase` of the
/// characters, a function of them alone; the Unicode case mapping itself is
/// left unstated.
#[verifier::external_body]
fn lowercase(text: &str) -> (r: String)
    ensures
        r@ == str_lowercase(text@),
{
    text.to_lowercase()
}

pub open spec fn contains_text(s: Seq<char>, pat: Seq<char>) -> bool {
    split_once(s, pat) is Some
}

/// The mode a tool's query output names, matched case-insensitively.
pub open spec fn mode_spec(text: Seq<char>) -> Option<Mode> {
    lowered_mode_spec(str_lowercase(text))
}

/// The mode that lowercased query output names.
pub open spec fn lowered_mode_spec(t: Seq<char>) -> Option<Mode> {
    if contains_text(t, "integrated"@) || contains_text(t, "intel"@) {
        Some(Mode::Integrated)
    } else if contains_text(t, "hybrid"@) || contains_text(t, "on-demand"@) {
        Some(Mode::Hybrid)
    } else if contains_text(t, "nvidia"@) || contains_text(t, "dgpu"@) {
        Some(Mode::Dedicated)
    } else {
        None
    }
}

fn contains_chars(s: &[char], pat: &str) -> (r: bool)
    ensures
        r == contains_text(s@, pat@),
{
    split_once_chars(s, pat).is_some()
}

/// Reads the GPU mode out of a switching tool's query output.
pub fn parse_mode(text: &str) -> (r: Option<Mode>)
    ensures
        r == mode_spec(text@),
{
    let lower = lowercase(text);
    mode_of_lowered(lower.as_str())
}

/// Reads the GPU mode out of lowercased query output.
pub fn mode_of_lowered(lower: &str) -> (r: Option<Mode>)
    ensures
        r == lowered_mode_spec(lower@),
{
    let t = chars_of(lower);
    if contains_chars(t.as_slice(), "integrated") || contains_chars(t.as_slice(), "intel") {
        Some(Mode::Integrated)
    } else if contains_chars(t.as_slice(), "hybrid") || contains_chars(t.as_slice(), "on-demand") {
        Some(Mode::Hybrid)
    } else if contains_chars(t.as_slice(), "nvidia") || contains_chars(t.as_slice(), "dgpu") {
        Some(Mode::Dedicated)
    } else {
        None
    }
}

/// supergfxctl exposes a plain dGPU mode only on ASUS MUX hardware, so the
/// dGPU option stays locked under it.
pub fn supports_dedicated(tool: Tool) -> (r: bool)
    ensures
        r == !(tool is SuperGfx),
{
    match tool {
        Tool::SuperGfx => false,
        _ => true,
    }
}


// ----------------------------------------------------------------------
// Terminal escapes and `kscreen-doctor -o`.
// ----------------------------------------------------------------------

pub open spec fn is_ascii_alpha(c: char) -> bool {
    ('a' <= c && c <= 'z') || ('A' <= c && c <= 'Z')
}

/// Left-to-right scan: the kept characters, and whether an escape sequence
/// (ESC up to and including the next ASCII letter) is open.
pub open spec fn ansi_scan(s: Seq<char>) -> (Seq<char>, bool)
    decreases s.len(),
{
    if s.len() == 0 {
        (Seq::empty(), false)
    } else {
        let (out, escaped) = ansi_scan(s.drop_last());
        let c = s.last();
        if escaped {
            (out, !is_ascii_alpha(c))
        } else if c == '\u{1b}' {
            (out, true)
        } else {
            (out.push(c), false)
        }
    }
}

/// `text` without its ANSI escape sequences.
pub fn strip_ansi(text: &str) -> (r: String)
    ensures
        r@ == ansi_scan(text@).0,
{
    let chars = chars_of(text);
    let mut out: Vec<char> = Vec::new();
    let mut escaped = false;
    let mut i: usize = 0;
    assert(chars@.subrange(0, 0) =~= Seq::<char>::empty());
    while i < chars.len()
        invariant
            i <= chars@.len(),
            chars@ == text@,
            (out@, escaped) == ansi_scan(chars@.subrange(0, i as int)),
        decreases chars.len() - i,
    {
        let c = chars[i];
        assert(chars@.subrange(0, i + 1).drop_last() =~= chars@.subrange(0, i as int));
        if escaped {
            if ('a' <= c && c <= 'z') || ('A' <= c && c <= 'Z') {
                escaped = false;
            }
        } else if c == '\u{1b}' {
            escaped = true;
        } else {
            out.push(c);
        }
        i = i + 1;
    }
    assert(chars@.subrange(0, chars@.len() as int) =~= chars@);
    string_of(out.as_slice())
}

/// One display mode of an output.
#[derive(Debug, Clone, PartialEq, Eq)]
pub struct DisplayMode {
    pub id: String,
    pub label: String,
    pub current: bool,
}

pub open spec fn mode_view(m: DisplayMode) -> (Seq<char>, Seq<char>, bool) {
    (m.id@, m.label@, m.current)
}

pub open spec fn modes_view(v: Seq<DisplayMode>) -> Seq<(Seq<char>, Seq<char>, bool)> {
    Seq::new(v.len(), |i: int| mode_view(v[i]))
}

pub open spec fn outputs_view(v: Seq<(String, Vec<DisplayMode>)>) -> Seq<
    (Seq<char>, Seq<(Seq<char>, Seq<char>, bool)>),
> {
    Seq::new(v.len(), |i: int| (v[i].0@, modes_view(v[i].1@)))
}

/// `t` without its `*` (current) and `!` (preferred) marks.
pub open spec fn without_marks(t: Seq<char>) -> Seq<char>
    decreases t.len(),
{
    if t.len() == 0 {
        Seq::empty()
    } else {
        let r = without_marks(t.drop_last());
        if t.last() == '*' || t.last() == '!' {
            r
        } else {
            r.push(t.last())
        }
    }
}

/// A mode token `id:WxH@Hz`, marks removed, with whether it was current.
pub open spec fn mode_token(t: Seq<char>) -> Option<(Seq<char>, Seq<char>, bool)> {
    match split_once(without_marks(t), ":"@) {
        Some((id, label)) => Some((id, label, contains_text(t, "*"@))),
        None => None,
    }
}

/// Left-to-right scan of an output line's words: the modes collected, and
/// whether the `Modes:` list has begun and has ended (at the first word
/// that is not an `id:mode@rate` token).
pub open spec fn mode_scan(ts: Seq<Seq<char>>) -> (Seq<(Seq<char>, Seq<char>, bool)>, bool, bool)
    decreases ts.len(),
{
    if ts.len() == 0 {
        (Seq::empty(), false, false)
    } else {
        let (ms, in_modes, ended) = mode_scan(ts.drop_last());
        let t = ts.last();
        if ended {
            (ms, in_modes, ended)
        } else if t == "Modes:"@ {
            (ms, true, false)
        } else if in_modes {
            if !contains_text(t, "@"@) || !contains_text(t, ":"@) {
                (ms, in_modes, true)
            } else {
                match mode_token(t) {
                    Some(m) => (ms.push(m), in_modes, false),
                    None => (ms, in_modes, false),
                }
            }
        } else {
            (ms, in_modes, ended)
        }
    }
}

/// An enabled output's line: its name and its modes, when it has any.
pub open spec fn output_of_line(line: Seq<char>) -> Option<
    (Seq<char>, Seq<(Seq<char>, Seq<char>, bool)>),
> {
    let ts = words(line);
    if ts.len() == 0 || ts[0] != "Output:"@ || !contains_text(line, "enabled"@) || ts.len() < 3 {
        None
    } else {
        let modes = mode_scan(ts).0;
        if modes.len() == 0 {
            None
        } else {
            Some((ts[2], modes))
        }
    }
}

pub open spec fn outputs_of_lines(ls: Seq<Seq<char>>) -> Seq<
    (Seq<char>, Seq<(Seq<char>, Seq<char>, bool)>),
>
    decreases ls.len(),
{
    if ls.len() == 0 {
        Seq::empty()
    } else {
        let rest = outputs_of_lines(ls.drop_last());
        match output_of_line(ls.last()) {
            Some(o) => rest.push(o),
            None => rest,
        }
    }
}

/// Every enabled output of a `kscreen-doctor -o` listing, with its modes.
pub open spec fn kscreen_outputs_spec(listing: Seq<char>) -> Seq<
    (Seq<char>, Seq<(Seq<char>, Seq<char>, bool)>),
> {
    outputs_of_lines(text_lines(ansi_scan(listing).0))
}

proof fn lemma_scan_ended(ts: Seq<Seq<char>>, k: int)
    requires
        0 <= k <= ts.len(),
        mode_scan(ts.subrange(0, k)).2,
    ensures
        mode_scan(ts).0 == mode_scan(ts.subrange(0, k)).0,
    decreases ts.len() - k,
{
    if k < ts.len() {
        let next = ts.subrange(0, k + 1);
        assert(next.drop_last() =~= ts.subrange(0, k));
        lemma_scan_ended(ts, k + 1);
    } else {
        assert(ts.subrange(0, k) =~= ts);
    }
}

fn without_marks_exec(t: &[char]) -> (r: Vec<char>)
    ensures
        r@ == without_marks(t@),
{
    let mut out: Vec<char> = Vec::new();
    let mut i: usize = 0;
    assert(t@.subrange(0, 0) =~= Seq::<char>::empty());
    while i < t.len()
        invariant
            i <= t@.len(),
            out@ == without_marks(t@.subrange(0, i as int)),
        decreases t.len() - i,
    {
        assert(t@.subrange(0, i + 1).drop_last() =~= t@.subrange(0, i as int));
        if t[i] != '*' && t[i] != '!' {
            out.push(t[i]);
        }
        i = i + 1;
    }
    assert(t@.subrange(0, t@.len() as int) =~= t@);
    out
}

fn scan_modes(ts: &Vec<Vec<char>>) -> (r: Vec<DisplayMode>)
    ensures
        modes_view(r@) == mode_scan(views(ts@)).0,
{
    let ghost tv = views(ts@);
    let mut modes: Vec<DisplayMode> = Vec::new();
    let mut in_modes = false;
    let mut i: usize = 0;
    assert(tv.subrange(0, 0) =~= Seq::<Seq<char>>::empty());
    assert(modes_view(modes@) =~= Seq::<(Seq<char>, Seq<char>, bool)>::empty());
    while i < ts.len()
        invariant
            i <= ts@.len(),
            tv == views(ts@),
            mode_scan(tv.subrange(0, i as int)) == (modes_view(modes@), in_modes, false),
        decreases ts.len() - i,
    {
        let ghost prefix = tv.subrange(0, i + 1);
        assert(prefix.drop_last() =~= tv.subrange(0, i as int));
        assert(prefix.last() == ts@[i as int]@);
        let t = ts[i].as_slice();
        if chars_eq(t, "Modes:") {
            in_modes = true;
        } else if in_modes {
            if !contains_chars(t, "@") || !contains_chars(t, ":") {
                proof {
                    lemma_scan_ended(tv, i + 1);
                }
                return modes;
            }
            let cleaned = without_marks_exec(t);
            match split_once_chars(cleaned.as_slice(), ":") {
                Some((id, label)) => {
                    let ghost before = modes_view(modes@);
                    let mode = DisplayMode {
                        id: string_of(id.as_slice()),
                        label: string_of(label.as_slice()),
                        current: contains_chars(t, "*"),
                    };
                    modes.push(mode);
                    assert(modes_view(modes@) =~= before.push(mode_view(mode)));
                },
                None => {},
            }
        }
        i = i + 1;
    }
    assert(tv.subrange(0, tv.len() as int) =~= tv);
    modes
}

/// Every enabled output of a `kscreen-doctor -o` listing and its modes
/// (`id:WxH@Hz` tokens, `*` marking the current mode, `!` the preferred
/// one), in listing order; terminal colour escapes are ignored.
pub fn parse_kscreen_outputs(listing: &str) -> (r: Vec<(String, Vec<DisplayMode>)>)
    ensures
        outputs_view(r@) == kscreen_outputs_spec(listing@),
{
    let plain = strip_ansi(listing);
    let chars = chars_of(plain.as_str());
    let lines = split_lines(chars.as_slice());
    let ghost lv = views(lines@);
    let mut outputs: Vec<(String, Vec<DisplayMode>)> = Vec::new();
    let mut i: usize = 0;
    assert(lv.subrange(0, 0) =~= Seq::<Seq<char>>::empty());
    assert(outputs_view(outputs@) =~= Seq::<(Seq<char>, Seq<(Seq<char>, Seq<char>, bool)>)>::empty());
    while i < lines.len()
        invariant
            i <= lines@.len(),
            lv == views(lines@),
            lv == text_lines(ansi_scan(listing@).0),
            outputs_view(outputs@) == outputs_of_lines(lv.subrange(0, i as int)),
        decreases lines.len() - i,
    {
        let ghost prefix = lv.subrange(0, i + 1);
        assert(prefix.drop_last() =~= lv.subrange(0, i as int));
        assert(prefix.last() == lines@[i as int]@);
        let line = lines[i].as_slice();
        let ts = split_words(line);
        let ghost tv = views(ts@);
        if ts.len() >= 3 && chars_eq(ts[0].as_slice(), "Output:") && contains_chars(line, "enabled") {
            assert(tv[0] == ts@[0]@);
            let modes = scan_modes(&ts);
            if modes.len() > 0 {
                let ghost before = outputs_view(outputs@);
                assert(tv[2] == ts@[2]@);
                let name = string_of(ts[2].as_slice());
                let ghost entry = (name@, modes_view(modes@));
                outputs.push((name, modes));
                assert(outputs_view(outputs@) =~= before.push(entry));
            }
        } else {
            proof {
                if ts@.len() > 0 {
                    assert(tv[0] == ts@[0]@);
                }
            }
        }
        i = i + 1;
    }
    assert(lv.subrange(0, lv.len() as int) =~= lv);
    outputs
}

// ----------------------------------------------------------------------
// The GUI's own settings file, `key=value` per line.
// ----------------------------------------------------------------------

/// The value of the first line, from `i` on, that reads `key=value` once
/// trimmed.
pub open spec fn first_setting(ls: Seq<Seq<char>>, key: Seq<char>, i: int) -> Option<Seq<char>>
    decreases ls.len() - i,
{
    if i < 0 || i >= ls.len() {
        None
    } else {
        match split_once(trim(ls[i]), "="@) {
            Some((k, v)) => if k == key {
                Some(v)
            } else {
                first_setting(ls, key, i + 1)
            },
            None => first_setting(ls, key, i + 1),
        }
    }
}

/// The value a settings file's text holds for `key`.
pub fn setting_value(text: &str, key: &str) -> (r: Option<String>)
    ensures
        r matches Some(v) ==> first_setting(text_lines(text@), key@, 0) == Some(v@),
        r is None ==> first_setting(text_lines(text@), key@, 0) is None,
{
    let chars = chars_of(text);
    let lines = split_lines(chars.as_slice());
    let ghost lv = views(lines@);
    let mut i: usize = 0;
    while i < lines.len()
        invariant
            i <= lines@.len(),
            lv == views(lines@),
            lv == text_lines(text@),
            first_setting(lv, key@, 0) == first_setting(lv, key@, i as int),
        decreases lines.len() - i,
    {
        assert(lv[i as int] == lines@[i as int]@);
        let t = trim_exec(lines[i].as_slice());
        match split_once_chars(t.as_slice(), "=") {
            Some((k, v)) => {
                if chars_eq(k.as_slice(), key) {
                    return Some(string_of(v.as_slice()));
                }
            },
            None => {},
        }
        i = i + 1;
    }
    None
}

// ----------------------------------------------------------------------
// The settings modules the web UI may open.
// ----------------------------------------------------------------------

/// Only the display and colour modules of KDE System Settings may be
/// opened from the web view.
pub open spec fn kde_module_verdict(module: Seq<char>) -> Result<(), Seq<char>> {
    if module == "kcm_kscreen"@ || module == "kcm_colors"@ {
        Ok(())
    } else {
        Err("module "@ + str_debug(module) + " is not on the allowlist"@)
    }
}

pub fn check_kde_module(module: &str) -> (r: Result<(), String>)
    ensures
        crate::ipc::same_outcome(r, kde_module_verdict(module@)),
{
    let chars = chars_of(module);
    if chars_eq(chars.as_slice(), "kcm_kscreen") || chars_eq(chars.as_slice(), "kcm_colors") {
        return Ok(());
    }
    let mut message = String::from_str("module ");
    let quoted = debug_text(module);
    message.append(quoted.as_str());
    message.append(" is not on the allowlist");
    proof {
        reveal_strlit("module ");
    }
    Err(message)
}


// ----------------------------------------------------------------------
// GPU mode switching: which tool invocation a choice means.
// ----------------------------------------------------------------------

/// How a mode switch is carried out.
#[derive(Debug, Clone, PartialEq, Eq)]
pub enum SwitchPlan {
    /// The mock: nothing runs, and the reply says so.
    Simulated,
    /// Run `program` with `args`; `pkexec` asks polkit for the tools that
    /// need root.
    Run { program: &'static str, args: Vec<&'static str> },
}

pub open spec fn strs_of(v: Seq<&'static str>) -> Seq<Seq<char>> {
    Seq::new(v.len(), |i: int| v[i]@)
}

/// The invocation for each tool and mode; supergfxctl has no plain dGPU
/// mode here.
pub open spec fn switch_plan_spec(tool: Tool, mode: Mode) -> Result<(Seq<char>, Seq<Seq<char>>), Seq<char>> {
    match tool {
        Tool::Mock => Ok((Seq::empty(), Seq::empty())),
        Tool::SuperGfx => match mode {
            Mode::Integrated => Ok(("supergfxctl"@, seq!["-m"@, "Integrated"@])),
            Mode::Hybrid => Ok(("supergfxctl"@, seq!["-m"@, "Hybrid"@])),
            Mode::Dedicated => Err("dGPU mode is not supported by supergfxctl here"@),
        },
        Tool::PrimeSelect => Ok(
            (
                "pkexec"@,
                seq![
                    "prime-select"@,
                    match mode {
                        Mode::Integrated => "intel"@,
                        Mode::Hybrid => "on-demand"@,
                        Mode::Dedicated => "nvidia"@,
                    },
                ],
            ),
        ),
        Tool::EnvyControl => Ok(
            (
                "pkexec"@,
                seq![
                    "envycontrol"@,
                    "-s"@,
                    match mode {
                        Mode::Integrated => "integrated"@,
                        Mode::Hybrid => "hybrid"@,
                        Mode::Dedicated => "nvidia"@,
                    },
                ],
            ),
        ),
    }
}

pub fn switch_plan(tool: Tool, mode: Mode) -> (r: Result<SwitchPlan, String>)
    ensures
        match (r, switch_plan_spec(tool, mode)) {
            (Ok(SwitchPlan::Simulated), Ok(_)) => tool is Mock,
            (Ok(SwitchPlan::Run { program, args }), Ok((p, a))) => !(tool is Mock) && program@ == p
                && strs_of(args@) == a,
            (Err(e), Err(m)) => e@ == m,
            _ => false,
        },
{
    match tool {
        Tool::Mock => Ok(SwitchPlan::Simulated),
        Tool::SuperGfx => {
            let name: &'static str = match mode {
                Mode::Integrated => "Integrated",
                Mode::Hybrid => "Hybrid",
                Mode::Dedicated => {
                    let m = String::from_str("dGPU mode is not supported by supergfxctl here");
                    proof {
                        reveal_strlit("dGPU mode is not supported by supergfxctl here");
                    }
                    return Err(m);
                },
            };
            let args = vec!["-m", name];
            assert(strs_of(args@) =~= seq!["-m"@, name@]);
            Ok(SwitchPlan::Run { program: "supergfxctl", args })
        },
        Tool::PrimeSelect => {
            let name: &'static str = match mode {
                Mode::Integrated => "intel",
                Mode::Hybrid => "on-demand",
                Mode::Dedicated => "nvidia",
            };
            let args = vec!["prime-select", name];
            assert(strs_of(args@) =~= seq!["prime-select"@, name@]);
            Ok(SwitchPlan::Run { program: "pkexec", args })
        },
        Tool::EnvyControl => {
            let name: &'static str = match mode {
                Mode::Integrated => "integrated",
                Mode::Hybrid => "hybrid",
                Mode::Dedicated => "nvidia",
            };
            let args = vec!["envycontrol", "-s", name];
            assert(strs_of(args@) =~= seq!["envycontrol"@, "-s"@, name@]);
            Ok(SwitchPlan::Run { program: "pkexec", args })
        },
    }
}

/// The row of each mode in the GPU page: hybrid, dedicated, integrated.
pub fn mode_row(mode: Mode) -> (r: usize)
    ensures
        r == match mode {
            Mode::Hybrid => 0usize,
            Mode::Dedicated => 1usize,
            Mode::Integrated => 2usize,
        },
{
    match mode {
        Mode::Hybrid => 0,
        Mode::Dedicated => 1,
        Mode::Integrated => 2,
    }
}

/// The tool and mode the GPU page starts from: the simulated mode under the
/// mock; otherwise the first of supergfxctl, prime-select and envycontrol,
/// in that order, whose query succeeded (`Some` of its output) and names a
/// mode.
pub open spec fn detected_spec(
    mock: Option<Mode>,
    supergfx: Option<Seq<char>>,
    prime_select: Option<Seq<char>>,
    envycontrol: Option<Seq<char>>,
) -> Option<(Tool, Mode)> {
    if let Some(m) = mock {
        Some((Tool::Mock, m))
    } else if let Some(m) = queried_spec(supergfx) {
        Some((Tool::SuperGfx, m))
    } else if let Some(m) = queried_spec(prime_select) {
        Some((Tool::PrimeSelect, m))
    } else if let Some(m) = queried_spec(envycontrol) {
        Some((Tool::EnvyControl, m))
    } else {
        None
    }
}

/// The mode a query's output names, when the query succeeded.
pub open spec fn queried_spec(output: Option<Seq<char>>) -> Option<Mode> {
    match output {
        Some(t) => mode_spec(t),
        None => None,
    }
}

pub open spec fn opt_str_view(o: Option<&str>) -> Option<Seq<char>> {
    match o {
        Some(t) => Some(t@),
        None => None,
    }
}

fn queried_mode(output: Option<&str>) -> (r: Option<Mode>)
    ensures
        r == queried_spec(opt_str_view(output)),
{
    match output {
        Some(text) => parse_mode(text),
        None => None,
    }
}

/// First installed tool and the mode it reports, from the outputs of the
/// three tools' queries (`None` where the query did not run or failed).
pub fn detected(
    mock: Option<Mode>,
    supergfx: Option<&str>,
    prime_select: Option<&str>,
    envycontrol: Option<&str>,
) -> (r: Option<(Tool, Mode)>)
    ensures
        r == detected_spec(
            mock,
            opt_str_view(supergfx),
            opt_str_view(prime_select),
            opt_str_view(envycontrol),
        ),
{
    if let Some(m) = mock {
        return Some((Tool::Mock, m));
    }
    if let Some(m) = queried_mode(supergfx) {
        return Some((Tool::SuperGfx, m));
    }
    if let Some(m) = queried_mode(prime_select) {
        return Some((Tool::PrimeSelect, m));
    }
    if let Some(m) = queried_mode(envycontrol) {
        return Some((Tool::EnvyControl, m));
    }
    None
}

/// How running a program went.
#[derive(Debug, Clone, PartialEq, Eq)]
pub enum RunOutcome {
    /// It ran and exited successfully.
    Succeeded,
    /// It ran and failed; what it reported (its standard error, or its
    /// exit status).
    Failed(String),
    /// It could not be started; the error.
    NotRun(String),
}

pub open spec fn same_reply(r: Result<String, String>, s: Result<Seq<char>, Seq<char>>) -> bool {
    match (r, s) {
        (Ok(a), Ok(b)) => a@ == b,
        (Err(a), Err(b)) => a@ == b,
        _ => false,
    }
}

/// What a GPU switch reports: the simulated switch always succeeds; a run
/// program's success names it, and its failure carries its trimmed
/// standard error.
pub open spec fn switch_reply_spec(plan: SwitchPlan, outcome: RunOutcome) -> Result<
    Seq<char>,
    Seq<char>,
> {
    match plan {
        SwitchPlan::Simulated => Ok("GPU mode set (simulated) \u{2014} log out or reboot to apply"@),
        SwitchPlan::Run { program, .. } => match outcome {
            RunOutcome::Succeeded => Ok(
                "GPU mode set \u{2014} log out or reboot to apply ("@ + program@ + ")"@,
            ),
            RunOutcome::Failed(stderr) => Err(program@ + " failed: "@ + trim(stderr@)),
            RunOutcome::NotRun(error) => Err("cannot run "@ + program@ + ": "@ + error@),
        },
    }
}

/// The reply to a GPU switch, given how its program ran.
pub fn switch_reply(plan: &SwitchPlan, outcome: &RunOutcome) -> (r: Result<String, String>)
    ensures
        same_reply(r, switch_reply_spec(*plan, *outcome)),
{
    match plan {
        SwitchPlan::Simulated => Ok(
            String::from_str("GPU mode set (simulated) \u{2014} log out or reboot to apply"),
        ),
        SwitchPlan::Run { program, .. } => match outcome {
            RunOutcome::Succeeded => {
                let mut s = String::from_str("GPU mode set \u{2014} log out or reboot to apply (");
                s.append(program);
                s.append(")");
                Ok(s)
            },
            RunOutcome::Failed(stderr) => {
                let mut s = String::from_str(program);
                s.append(" failed: ");
                let chars = chars_of(stderr.as_str());
                let t = trim_exec(chars.as_slice());
                let text = string_of(t.as_slice());
                s.append(text.as_str());
                Err(s)
            },
            RunOutcome::NotRun(error) => {
                let mut s = String::from_str("cannot run ");
                s.append(program);
                s.append(": ");
                s.append(error.as_str());
                Err(s)
            },
        },
    }
}

/// What applying a display mode reports: a simulated output always
/// succeeds without running anything; otherwise kscreen-doctor's outcome.
pub open spec fn display_mode_reply_spec(output_name: Seq<char>, outcome: RunOutcome) -> Result<
    Seq<char>,
    Seq<char>,
> {
    if contains_text(output_name, "(simulated)"@) {
        Ok("Refresh rate applied (simulated)"@)
    } else {
        match outcome {
            RunOutcome::Succeeded => Ok("Refresh rate applied"@),
            RunOutcome::Failed(status) => Err("kscreen-doctor exited with "@ + status@),
            RunOutcome::NotRun(error) => Err("cannot run kscreen-doctor: "@ + error@),
        }
    }
}

/// True when the output is simulated, so nothing is to be run.
pub fn display_output_is_simulated(output_name: &str) -> (r: bool)
    ensures
        r == contains_text(output_name@, "(simulated)"@),
{
    let chars = chars_of(output_name);
    contains_chars(chars.as_slice(), "(simulated)")
}

/// The reply to applying a display mode, given how kscreen-doctor ran.
pub fn display_mode_reply(output_name: &str, outcome: &RunOutcome) -> (r: Result<String, String>)
    ensures
        same_reply(r, display_mode_reply_spec(output_name@, *outcome)),
{
    if display_output_is_simulated(output_name) {
        return Ok(String::from_str("Refresh rate applied (simulated)"));
    }
    match outcome {
        RunOutcome::Succeeded => Ok(String::from_str("Refresh rate applied")),
        RunOutcome::Failed(status) => {
            let mut s = String::from_str("kscreen-doctor exited with ");
            s.append(status.as_str());
            Err(s)
        },
        RunOutcome::NotRun(error) => {
            let mut s = String::from_str("cannot run kscreen-doctor: ");
            s.append(error.as_str());
            Err(s)
        },
    }
}

// ----------------------------------------------------------------------
// Lighting page decisions.
// ----------------------------------------------------------------------

/// The static-colour presets, in row order.
pub open spec fn swatches() -> Seq<Seq<char>> {
    seq!["44d62c"@, "ffffff"@, "ff3a3a"@, "2c7bd6"@, "a02cd6"@, "2cd6c8"@]
}

fn swatch(index: usize) -> (r: &'static str)
    requires
        index < 6,
    ensures
        r@ == swatches()[index as int],
{
    match index {
        0 => "44d62c",
        1 => "ffffff",
        2 => "ff3a3a",
        3 => "2c7bd6",
        4 => "a02cd6",
        _ => "2cd6c8",
    }
}

/// The effect row for a status `kbd_effect` value: off 0, spectrum 2,
/// wave 3, otherwise (static or unset) 1.
pub open spec fn effect_row_spec(value: Seq<char>) -> u32 {
    if value == "off"@ {
        0
    } else if value == "spectrum"@ {
        2
    } else if value == "wave"@ {
        3
    } else {
        1
    }
}

pub fn effect_row(value: &str) -> (r: u32)
    ensures
        r == effect_row_spec(value@),
{
    let v = chars_of(value);
    if chars_eq(v.as_slice(), "off") {
        0
    } else if chars_eq(v.as_slice(), "spectrum") {
        2
    } else if chars_eq(v.as_slice(), "wave") {
        3
    } else {
        1
    }
}

/// The first preset, from `k` on, equal to `hex`; the first preset when
/// none is.
pub open spec fn swatch_from(hex: Seq<char>, k: int) -> usize
    decreases 6 - k,
{
    if k < 0 || k >= 6 {
        0
    } else if swatches()[k] == hex {
        k as usize
    } else {
        swatch_from(hex, k + 1)
    }
}

/// The preset a status `static:rrggbb` value names, else the first.
pub open spec fn swatch_row_spec(value: Seq<char>) -> usize {
    match strip_prefix(value, "static:"@) {
        Some(hex) => swatch_from(hex, 0),
        None => 0,
    }
}

pub fn swatch_row(value: &str) -> (r: usize)
    ensures
        r == swatch_row_spec(value@),
        r < 6,
{
    let v = chars_of(value);
    let hex = match strip_prefix_chars(v.as_slice(), "static:") {
        Some(h) => h,
        None => return 0,
    };
    assert(v@ == value@);
    assert(strip_prefix(value@, "static:"@) == Some(hex@));
    let mut i: usize = 0;
    while i < 6
        invariant
            i <= 6,
            strip_prefix(value@, "static:"@) == Some(hex@),
            swatch_from(hex@, 0) == swatch_from(hex@, i as int),
        decreases 6 - i,
    {
        let candidate = swatch(i);
        if chars_eq(hex.as_slice(), candidate) {
            return i;
        }
        i = i + 1;
    }
    0
}

/// The request an effect row (and, for the static row, a preset) sends.
pub open spec fn effect_request_spec(row: u32, swatch: usize) -> Seq<char> {
    if row == 0 {
        "kbd effect off"@
    } else if row == 2 {
        "kbd effect spectrum"@
    } else if row == 3 {
        "kbd effect wave"@
    } else {
        "kbd effect static "@ + swatches()[swatch as int]
    }
}

pub fn effect_request(row: u32, swatch_index: usize) -> (r: String)
    requires
        swatch_index < 6,
    ensures
        r@ == effect_request_spec(row, swatch_index),
{
    if row == 0 {
        String::from_str("kbd effect off")
    } else if row == 2 {
        String::from_str("kbd effect spectrum")
    } else if row == 3 {
        String::from_str("kbd effect wave")
    } else {
        let mut s = String::from_str("kbd effect static ");
        s.append(swatch(swatch_index));
        proof {
            reveal_strlit("kbd effect static ");
        }
        s
    }
}

/// The logo row for a status `logo` value: off 0, breathing 2, otherwise 1.
pub fn logo_row(value: Option<&str>) -> (r: u32)
    ensures
        r == match value {
            Some(v) => if v@ == "off"@ {
                0u32
            } else if v@ == "breathing"@ {
                2u32
            } else {
                1u32
            },
            None => 1u32,
        },
{
    match value {
        Some(v) => {
            let c = chars_of(v);
            if chars_eq(c.as_slice(), "off") {
                0
            } else if chars_eq(c.as_slice(), "breathing") {
                2
            } else {
                1
            }
        },
        None => 1,
    }
}

/// The request a logo row sends.
pub fn logo_request(row: u32) -> (r: &'static str)
    requires
        row < 3,
    ensures
        r@ == if row == 0 {
            "logo off"@
        } else if row == 1 {
            "logo static"@
        } else {
            "logo breathing"@
        },
{
    if row == 0 {
        "logo off"
    } else if row == 1 {
        "logo static"
    } else {
        "logo breathing"
    }
}

/// The rule request of a brightness row for one power source.
pub fn brightness_rule_request(on_ac: bool, percent: u8) -> (r: String)
    ensures
        r@ == "kbd-automation "@ + crate::daemon::source_text(on_ac) + " "@ + dec(percent as nat),
{
    let mut s = String::from_str("kbd-automation ");
    if on_ac {
        s.append("ac");
    } else {
        s.append("battery");
    }
    s.append(" ");
    crate::text::push_dec(&mut s, percent as u64);
    proof {
        reveal_strlit("kbd-automation ");
    }
    assert(s@ =~= "kbd-automation "@ + crate::daemon::source_text(on_ac) + " "@ + dec(
        percent as nat,
    ));
    s
}

/// The live brightness request.
pub fn brightness_request(percent: u8) -> (r: String)
    ensures
        r@ == "kbd brightness "@ + dec(percent as nat),
{
    let mut s = String::from_str("kbd brightness ");
    crate::text::push_dec(&mut s, percent as u64);
    proof {
        reveal_strlit("kbd brightness ");
    }
    s
}

/// What the idle rule does on one poll of the session idle time.
#[derive(Debug, Clone, Copy, PartialEq, Eq, Structural)]
pub enum IdleAction {
    /// Turn the keyboard backlight off.
    Dim,
    /// Bring back the current power source's brightness.
    Restore,
    /// Nothing to do.
    Stay,
}

/// Past the threshold the backlight goes off once; activity brings it
/// back once.
pub fn idle_step(dimmed: bool, idle_seconds: u64, threshold_seconds: u64) -> (r: IdleAction)
    ensures
        r == if idle_seconds >= threshold_seconds && !dimmed {
            IdleAction::Dim
        } else if idle_seconds < threshold_seconds && dimmed {
            IdleAction::Restore
        } else {
            IdleAction::Stay
        },
{
    if idle_seconds >= threshold_seconds && !dimmed {
        IdleAction::Dim
    } else if idle_seconds < threshold_seconds && dimmed {
        IdleAction::Restore
    } else {
        IdleAction::Stay
    }
}

/// The brightness to restore after idling: the status rule for the power
/// source the telemetry reports (battery when it says so, AC otherwise),
/// or 60 % when that rule is absent or not a `u8`.
pub open spec fn restore_brightness_spec(
    telemetry: Seq<(Seq<char>, Seq<char>)>,
    status: Seq<(Seq<char>, Seq<char>)>,
) -> u8 {
    let key = if last_value(telemetry, "power"@) == Some("battery"@) {
        "kbd_battery"@
    } else {
        "kbd_ac"@
    };
    match last_value(status, key) {
        Some(v) => match crate::text::parse_unsigned(v, 255) {
            Some(n) => n as u8,
            None => 60,
        },
        None => 60,
    }
}

pub fn restore_brightness(telemetry: &[(String, String)], status: &[(String, String)]) -> (r: u8)
    ensures
        r == restore_brightness_spec(pairs_view(telemetry@), pairs_view(status@)),
{
    let on_battery = match field_value(telemetry, "power") {
        Some(v) => chars_eq(chars_of(v.as_str()).as_slice(), "battery"),
        None => false,
    };
    let key = if on_battery {
        "kbd_battery"
    } else {
        "kbd_ac"
    };
    proof {
        reveal_strlit("kbd_battery");
        reveal_strlit("kbd_ac");
    }
    match field_value(status, key) {
        Some(v) => {
            let c = chars_of(v.as_str());
            match crate::text::parse_u8(c.as_slice()) {
                Some(n) => n,
                None => 60,
            }
        },
        None => 60,
    }
}


// ----------------------------------------------------------------------
// Writing the GUI settings file: every other setting kept, sorted.
// ----------------------------------------------------------------------

/// Text order, as `String`'s `Ord` compares (code point by code point, a
/// prefix first).
pub open spec fn text_le(a: Seq<char>, b: Seq<char>) -> bool
    decreases a.len(),
{
    if a.len() == 0 {
        true
    } else if b.len() == 0 {
        false
    } else if a[0] != b[0] {
        (a[0] as u32) < (b[0] as u32)
    } else {
        text_le(a.drop_first(), b.drop_first())
    }
}

/// Pair order: by key, then by value, as the tuple's `Ord` compares.
pub open spec fn pair_le(p: (Seq<char>, Seq<char>), q: (Seq<char>, Seq<char>)) -> bool {
    if p.0 != q.0 {
        text_le(p.0, q.0)
    } else {
        text_le(p.1, q.1)
    }
}

pub open spec fn sorted_pairs(s: Seq<(Seq<char>, Seq<char>)>) -> bool {
    forall|i: int, j: int| 0 <= i < j < s.len() ==> pair_le(#[trigger] s[i], #[trigger] s[j])
}

pub proof fn lemma_text_le_total(a: Seq<char>, b: Seq<char>)
    ensures
        text_le(a, b) || text_le(b, a),
    decreases a.len(),
{
    if a.len() > 0 && b.len() > 0 && a[0] != b[0] {
        let x: u32 = a[0] as u32;
        let y: u32 = b[0] as u32;
        vstd::utf8::char_u32_cast(a[0], x);
        vstd::utf8::char_u32_cast(b[0], y);
    }
    if a.len() > 0 && b.len() > 0 && a[0] == b[0] {
        lemma_text_le_total(a.drop_first(), b.drop_first());
    }
}

pub proof fn lemma_text_le_antisymmetric(a: Seq<char>, b: Seq<char>)
    requires
        text_le(a, b),
        text_le(b, a),
    ensures
        a == b,
    decreases a.len(),
{
    if a.len() == 0 {
        assert(b.len() == 0);
        assert(a =~= b);
    } else {
        assert(b.len() > 0);
        assert(a[0] == b[0]);
        lemma_text_le_antisymmetric(a.drop_first(), b.drop_first());
        assert(a.drop_first().len() == b.drop_first().len());
        assert(a.len() == b.len());
        assert(a =~= b) by {
            assert forall|i: int| 0 <= i < a.len() implies a[i] == b[i] by {
                if i > 0 {
                    assert(a[i] == a.drop_first()[i - 1]);
                    assert(b[i] == b.drop_first()[i - 1]);
                }
            }
        }
    }
}

pub proof fn lemma_text_le_transitive(a: Seq<char>, b: Seq<char>, c: Seq<char>)
    requires
        text_le(a, b),
        text_le(b, c),
    ensures
        text_le(a, c),
    decreases a.len(),
{
    if a.len() > 0 && b.len() > 0 && c.len() > 0 && a[0] == b[0] && b[0] == c[0] {
        lemma_text_le_transitive(a.drop_first(), b.drop_first(), c.drop_first());
    }
}

pub proof fn lemma_pair_le_total(p: (Seq<char>, Seq<char>), q: (Seq<char>, Seq<char>))
    ensures
        pair_le(p, q) || pair_le(q, p),
{
    lemma_text_le_total(p.0, q.0);
    lemma_text_le_total(p.1, q.1);
}

pub proof fn lemma_pair_le_transitive(
    p: (Seq<char>, Seq<char>),
    q: (Seq<char>, Seq<char>),
    r: (Seq<char>, Seq<char>),
)
    requires
        pair_le(p, q),
        pair_le(q, r),
    ensures
        pair_le(p, r),
{
    if p.0 != q.0 && q.0 != r.0 {
        lemma_text_le_transitive(p.0, q.0, r.0);
        if p.0 == r.0 {
            lemma_text_le_antisymmetric(q.0, r.0);
        }
    } else if p.0 == q.0 && q.0 == r.0 {
        lemma_text_le_transitive(p.1, q.1, r.1);
    }
}

pub proof fn lemma_text_le_reflexive(a: Seq<char>)
    ensures
        text_le(a, a),
    decreases a.len(),
{
    if a.len() > 0 {
        lemma_text_le_reflexive(a.drop_first());
    }
}

pub proof fn lemma_pair_le_antisymmetric(p: (Seq<char>, Seq<char>), q: (Seq<char>, Seq<char>))
    requires
        pair_le(p, q),
        pair_le(q, p),
    ensures
        p == q,
{
    if p.0 != q.0 {
        lemma_text_le_antisymmetric(p.0, q.0);
    } else {
        lemma_text_le_antisymmetric(p.1, q.1);
    }
}

/// Two sorted arrangements of the same settings are the same: the sorted
/// file is determined by the settings it holds.
pub proof fn law_sorted_settings_are_unique(
    s1: Seq<(Seq<char>, Seq<char>)>,
    s2: Seq<(Seq<char>, Seq<char>)>,
)
    requires
        sorted_pairs(s1),
        sorted_pairs(s2),
        s1.to_multiset() == s2.to_multiset(),
    ensures
        s1 == s2,
    decreases s1.len(),
{
    broadcast use vstd::seq_lib::group_to_multiset_ensures;

    if s1.len() == 0 {
        assert(s2.to_multiset().len() == 0);
        assert(s2.len() == 0);
        assert(s1 =~= s2);
    } else {
        assert(s1.to_multiset().len() == s1.len());
        assert(s2.to_multiset().len() == s2.len());
        assert(s2.len() == s1.len());
        let a = s1[0];
        let b = s2[0];
        assert(s2.contains(b));
        assert(s2.to_multiset().count(b) > 0);
        assert(s1.to_multiset().count(b) > 0);
        assert(s1.contains(b));
        let i = choose|i: int| 0 <= i < s1.len() && s1[i] == b;
        if i > 0 {
            assert(pair_le(s1[0], s1[i]));
        } else {
            lemma_text_le_reflexive(a.1);
        }
        assert(s1.contains(a));
        assert(s1.to_multiset().count(a) > 0);
        assert(s2.to_multiset().count(a) > 0);
        assert(s2.contains(a));
        let j = choose|j: int| 0 <= j < s2.len() && s2[j] == a;
        if j > 0 {
            assert(pair_le(s2[0], s2[j]));
        } else {
            lemma_text_le_reflexive(b.1);
        }
        lemma_pair_le_antisymmetric(a, b);
        vstd::seq_lib::to_multiset_remove(s1, 0);
        vstd::seq_lib::to_multiset_remove(s2, 0);
        assert(s1.remove(0) =~= s1.drop_first());
        assert(s2.remove(0) =~= s2.drop_first());
        let t1 = s1.drop_first();
        let t2 = s2.drop_first();
        assert(sorted_pairs(t1)) by {
            assert forall|x: int, y: int| 0 <= x < y < t1.len() implies pair_le(
                #[trigger] t1[x],
                #[trigger] t1[y],
            ) by {
                assert(t1[x] == s1[x + 1] && t1[y] == s1[y + 1]);
            }
        }
        assert(sorted_pairs(t2)) by {
            assert forall|x: int, y: int| 0 <= x < y < t2.len() implies pair_le(
                #[trigger] t2[x],
                #[trigger] t2[y],
            ) by {
                assert(t2[x] == s2[x + 1] && t2[y] == s2[y + 1]);
            }
        }
        law_sorted_settings_are_unique(t1, t2);
        assert(s1 =~= s2) by {
            assert forall|k: int| 0 <= k < s1.len() implies s1[k] == s2[k] by {
                if k > 0 {
                    assert(s1[k] == t1[k - 1] && s2[k] == t2[k - 1]);
                }
            }
        }
    }
}

/// The settings a file's text holds, `key=value` per trimmed line, without
/// those for `key`.
pub open spec fn kept_settings(ls: Seq<Seq<char>>, key: Seq<char>) -> Seq<(Seq<char>, Seq<char>)>
    decreases ls.len(),
{
    if ls.len() == 0 {
        Seq::empty()
    } else {
        let rest = kept_settings(ls.drop_last(), key);
        match split_once(trim(ls.last()), "="@) {
            Some((k, v)) => if k != key {
                rest.push((k, v))
            } else {
                rest
            },
            None => rest,
        }
    }
}

pub open spec fn chars_pairs_view(v: Seq<(Vec<char>, Vec<char>)>) -> Seq<(Seq<char>, Seq<char>)> {
    Seq::new(v.len(), |i: int| (v[i].0@, v[i].1@))
}

fn text_le_exec(a: &[char], b: &[char]) -> (r: bool)
    ensures
        r == text_le(a@, b@),
{
    let mut i: usize = 0;
    assert(a@.subrange(0, a@.len() as int) =~= a@);
    assert(b@.subrange(0, b@.len() as int) =~= b@);
    while i < a.len() && i < b.len()
        invariant
            i <= a@.len(),
            i <= b@.len(),
            a@.subrange(0, i as int) == b@.subrange(0, i as int),
            text_le(a@, b@) == text_le(a@.subrange(i as int, a@.len() as int), b@.subrange(
                i as int,
                b@.len() as int,
            )),
        decreases a.len() - i,
    {
        let ghost ta = a@.subrange(i as int, a@.len() as int);
        let ghost tb = b@.subrange(i as int, b@.len() as int);
        assert(ta[0] == a@[i as int]);
        assert(tb[0] == b@[i as int]);
        if a[i] != b[i] {
            let x: u32 = a[i] as u32;
            let y: u32 = b[i] as u32;
            return x < y;
        }
        assert(ta.drop_first() =~= a@.subrange(i + 1, a@.len() as int));
        assert(tb.drop_first() =~= b@.subrange(i + 1, b@.len() as int));
        assert(a@.subrange(0, i + 1) =~= a@.subrange(0, i as int).push(a@[i as int]));
        assert(b@.subrange(0, i + 1) =~= b@.subrange(0, i as int).push(b@[i as int]));
        i = i + 1;
    }
    i >= a.len()
}

fn same_chars(a: &[char], b: &[char]) -> (r: bool)
    ensures
        r == (a@ == b@),
{
    if a.len() != b.len() {
        return false;
    }
    let mut i: usize = 0;
    while i < a.len()
        invariant
            i <= a@.len(),
            a@.len() == b@.len(),
            a@.subrange(0, i as int) == b@.subrange(0, i as int),
        decreases a.len() - i,
    {
        if a[i] != b[i] {
            return false;
        }
        assert(a@.subrange(0, i + 1) =~= a@.subrange(0, i as int).push(a@[i as int]));
        assert(b@.subrange(0, i + 1) =~= b@.subrange(0, i as int).push(b@[i as int]));
        i = i + 1;
    }
    assert(a@ =~= a@.subrange(0, i as int));
    assert(b@ =~= b@.subrange(0, i as int));
    true
}

fn pair_le_exec(p: &(Vec<char>, Vec<char>), q: &(Vec<char>, Vec<char>)) -> (r: bool)
    ensures
        r == pair_le((p.0@, p.1@), (q.0@, q.1@)),
{
    if !same_chars(p.0.as_slice(), q.0.as_slice()) {
        text_le_exec(p.0.as_slice(), q.0.as_slice())
    } else {
        text_le_exec(p.1.as_slice(), q.1.as_slice())
    }
}

/// Inserts `e` after every entry that is not above it.
fn insert_sorted(out: &mut Vec<(Vec<char>, Vec<char>)>, e: (Vec<char>, Vec<char>))
    requires
        sorted_pairs(chars_pairs_view(old(out)@)),
    ensures
        sorted_pairs(chars_pairs_view(final(out)@)),
        chars_pairs_view(final(out)@).to_multiset() == chars_pairs_view(old(out)@).to_multiset().insert(
            (e.0@, e.1@),
        ),
{
    broadcast use vstd::seq_lib::group_to_multiset_ensures;

    let ghost before = chars_pairs_view(out@);
    let ghost ev = (e.0@, e.1@);
    let mut p: usize = 0;
    while p < out.len() && pair_le_exec(&out[p], &e)
        invariant
            p <= out@.len(),
            before == chars_pairs_view(out@),
            ev == (e.0@, e.1@),
            forall|i: int| 0 <= i < p ==> pair_le(#[trigger] before[i], ev),
        decreases out.len() - p,
    {
        assert(before[p as int] == (out@[p as int].0@, out@[p as int].1@));
        p = p + 1;
    }
    proof {
        if p < out@.len() {
            assert(before[p as int] == (out@[p as int].0@, out@[p as int].1@));
            assert(!pair_le(before[p as int], ev));
            lemma_pair_le_total(before[p as int], ev);
        }
    }
    out.insert(p, e);
    let ghost after = chars_pairs_view(out@);
    assert(after =~= before.insert(p as int, ev));
    assert(sorted_pairs(after)) by {
        assert forall|i: int, j: int| 0 <= i < j < after.len() implies pair_le(
            #[trigger] after[i],
            #[trigger] after[j],
        ) by {
            if j < p {
                assert(after[i] == before[i] && after[j] == before[j]);
            } else if j == p {
                assert(after[i] == before[i]);
            } else if i < p {
                assert(after[i] == before[i] && after[j] == before[j - 1]);
                assert(pair_le(before[i], ev));
                assert(pair_le(ev, before[p as int]));
                if j - 1 > p {
                    assert(pair_le(before[p as int], before[j - 1]));
                    lemma_pair_le_transitive(ev, before[p as int], before[j - 1]);
                }
                lemma_pair_le_transitive(before[i], ev, before[j - 1]);
            } else if i == p {
                assert(after[j] == before[j - 1]);
                if j - 1 > p {
                    assert(pair_le(before[p as int], before[j - 1]));
                    lemma_pair_le_transitive(ev, before[p as int], before[j - 1]);
                }
            } else {
                assert(after[i] == before[i - 1] && after[j] == before[j - 1]);
            }
        }
    }
}

/// The settings after setting `key` to `value`: the others kept, in the
/// order of the pairs.
pub fn updated_settings(text: &str, key: &str, value: &str) -> (r: Vec<(String, String)>)
    ensures
        sorted_pairs(pairs_view(r@)),
        pairs_view(r@).to_multiset() == kept_settings(text_lines(text@), key@).push(
            (key@, value@),
        ).to_multiset(),
{
    broadcast use vstd::seq_lib::group_to_multiset_ensures;

    let chars = chars_of(text);
    let lines = split_lines(chars.as_slice());
    let ghost lv = views(lines@);
    let mut out: Vec<(Vec<char>, Vec<char>)> = Vec::new();
    let mut i: usize = 0;
    assert(lv.subrange(0, 0) =~= Seq::<Seq<char>>::empty());
    assert(chars_pairs_view(out@) =~= Seq::<(Seq<char>, Seq<char>)>::empty());
    while i < lines.len()
        invariant
            i <= lines@.len(),
            lv == views(lines@),
            lv == text_lines(text@),
            sorted_pairs(chars_pairs_view(out@)),
            chars_pairs_view(out@).to_multiset() == kept_settings(
                lv.subrange(0, i as int),
                key@,
            ).to_multiset(),
        decreases lines.len() - i,
    {
        assert(lv.subrange(0, i + 1).drop_last() =~= lv.subrange(0, i as int));
        assert(lv.subrange(0, i + 1).last() == lines@[i as int]@);
        let ghost prefix = lv.subrange(0, i + 1);
        let t = trim_exec(lines[i].as_slice());
        match split_once_chars(t.as_slice(), "=") {
            Some((k, v)) => {
                if !chars_eq(k.as_slice(), key) {
                    let ghost prev = kept_settings(lv.subrange(0, i as int), key@);
                    assert(kept_settings(prefix, key@) == prev.push((k@, v@)));
                    proof {
                        vstd::seq_lib::to_multiset_build(prev, (k@, v@));
                    }
                    insert_sorted(&mut out, (k, v));
                } else {
                    assert(kept_settings(prefix, key@) == kept_settings(
                        lv.subrange(0, i as int),
                        key@,
                    ));
                }
            },
            None => {
                assert(kept_settings(prefix, key@) == kept_settings(lv.subrange(0, i as int), key@));
            },
        }
        i = i + 1;
    }
    assert(lv.subrange(0, lv.len() as int) =~= lv);
    proof {
        vstd::seq_lib::to_multiset_build(kept_settings(lv, key@), (key@, value@));
    }
    insert_sorted(&mut out, (chars_of(key), chars_of(value)));
    let mut r: Vec<(String, String)> = Vec::new();
    let mut j: usize = 0;
    while j < out.len()
        invariant
            j <= out@.len(),
            pairs_view(r@) == chars_pairs_view(out@).subrange(0, j as int),
        decreases out.len() - j,
    {
        let ghost before = pairs_view(r@);
        let k = string_of(out[j].0.as_slice());
        let v = string_of(out[j].1.as_slice());
        assert(chars_pairs_view(out@)[j as int] == (k@, v@));
        r.push((k, v));
        assert(pairs_view(r@) =~= before.push((k@, v@)));
        assert(chars_pairs_view(out@).subrange(0, j + 1) =~= chars_pairs_view(out@).subrange(
            0,
            j as int,
        ).push((k@, v@)));
        j = j + 1;
    }
    assert(pairs_view(r@) =~= chars_pairs_view(out@));
    r
}

/// One `key=value` line per setting, in order.
pub open spec fn settings_text(s: Seq<(Seq<char>, Seq<char>)>) -> Seq<char>
    decreases s.len(),
{
    if s.len() == 0 {
        Seq::empty()
    } else {
        settings_text(s.drop_last()) + s.last().0 + "="@ + s.last().1 + "\n"@
    }
}

pub fn render_settings(settings: &[(String, String)]) -> (r: String)
    ensures
        r@ == settings_text(pairs_view(settings@)),
{
    let ghost sv = pairs_view(settings@);
    let mut s = String::new();
    let mut i: usize = 0;
    assert(sv.subrange(0, 0) =~= Seq::<(Seq<char>, Seq<char>)>::empty());
    while i < settings.len()
        invariant
            i <= settings@.len(),
            sv == pairs_view(settings@),
            s@ == settings_text(sv.subrange(0, i as int)),
        decreases settings.len() - i,
    {
        let ghost prefix = sv.subrange(0, i + 1);
        assert(prefix.drop_last() =~= sv.subrange(0, i as int));
        assert(prefix.last() == (settings@[i as int].0@, settings@[i as int].1@));
        s.append(settings[i].0.as_str());
        s.append("=");
        s.append(settings[i].1.as_str());
        s.append("\n");
        assert(s@ =~= settings_text(prefix));
        i = i + 1;
    }
    assert(sv.subrange(0, sv.len() as int) =~= sv);
    s
}


// ----------------------------------------------------------------------
// The request log of the diagnostics page.
// ----------------------------------------------------------------------

/// How many requests the log remembers.
pub const LOG_CAPACITY: usize = 100;

/// One remembered request.
#[derive(Debug, Clone, PartialEq, Eq)]
pub struct LogEntry {
    pub time: String,
    pub request: String,
    pub response: String,
}

pub open spec fn entry_view(e: LogEntry) -> (Seq<char>, Seq<char>, Seq<char>) {
    (e.time@, e.request@, e.response@)
}

pub open spec fn entries_view(v: Seq<LogEntry>) -> Seq<(Seq<char>, Seq<char>, Seq<char>)> {
    Seq::new(v.len(), |i: int| entry_view(v[i]))
}

/// The last `n` items of `s` (all of them when there are fewer).
pub open spec fn keep_last<T>(s: Seq<T>, n: nat) -> Seq<T> {
    if s.len() > n {
        s.subrange(s.len() - n, s.len() as int)
    } else {
        s
    }
}

/// What the log shows for a request's outcome: the reply, or the error
/// as an `err` line.
pub open spec fn response_text(result: Result<String, String>) -> Seq<char> {
    match result {
        Ok(reply) => reply@,
        Err(error) => "err "@ + error@,
    }
}

/// The requests made, oldest first, the oldest dropped beyond the capacity.
pub struct RequestLog {
    entries: VecDeque<LogEntry>,
}

impl View for RequestLog {
    type V = Seq<(Seq<char>, Seq<char>, Seq<char>)>;

    closed spec fn view(&self) -> Seq<(Seq<char>, Seq<char>, Seq<char>)> {
        entries_view(self.entries@)
    }
}

impl RequestLog {
    #[verifier::type_invariant]
    spec fn within_capacity(self) -> bool {
        self.entries@.len() <= LOG_CAPACITY
    }

    pub fn new() -> (r: RequestLog)
        ensures
            r@ == Seq::<(Seq<char>, Seq<char>, Seq<char>)>::empty(),
    {
        let r = RequestLog { entries: VecDeque::new() };
        assert(r@ =~= Seq::<(Seq<char>, Seq<char>, Seq<char>)>::empty());
        r
    }

    /// Remembers one request and its outcome at `time`.
    pub fn record(&mut self, time: String, request: &str, result: &Result<String, String>)
        ensures
            final(self)@ == keep_last(
                old(self)@.push((time@, request@, response_text(*result))),
                LOG_CAPACITY as nat,
            ),
    {
        proof {
            use_type_invariant(&*self);
        }
        let response = match result {
            Ok(reply) => reply.clone(),
            Err(error) => {
                let mut s = String::from_str("err ");
                s.append(error.as_str());
                proof {
                    reveal_strlit("err ");
                }
                s
            },
        };
        let entry = LogEntry { time, request: String::from_str(request), response };
        let ghost before = self@;
        let ghost ev = entry_view(entry);
        let mut entries = VecDeque::new();
        std::mem::swap(&mut entries, &mut self.entries);
        let ghost old_entries = entries@;
        if entries.len() == LOG_CAPACITY {
            let _ = entries.pop_front();
        }
        let ghost mid = entries@;
        entries.push_back(entry);
        proof {
            if old_entries.len() == LOG_CAPACITY {
                assert(mid =~= old_entries.drop_first());
                assert(entries_view(entries@) =~= keep_last(before.push(ev), LOG_CAPACITY as nat));
            } else {
                assert(entries_view(entries@) =~= before.push(ev));
            }
        }
        self.entries = entries;
    }

    /// The remembered requests, oldest first.
    pub fn log_entries(&self) -> (r: Vec<LogEntry>)
        ensures
            entries_view(r@) == self@,
    {
        let mut out: Vec<LogEntry> = Vec::new();
        let mut i: usize = 0;
        while i < self.entries.len()
            invariant
                i <= self.entries@.len(),
                entries_view(out@) == entries_view(self.entries@).subrange(0, i as int),
            decreases self.entries@.len() - i,
        {
            let e = &self.entries[i];
            let copy = LogEntry {
                time: e.time.clone(),
                request: e.request.clone(),
                response: e.response.clone(),
            };
            assert(*e == self.entries@[i as int]);
            assert(entry_view(copy) == entry_view(self.entries@[i as int]));
            let ghost before = entries_view(out@);
            out.push(copy);
            assert(entries_view(out@) =~= before.push(entry_view(copy)));
            assert(entries_view(out@) =~= entries_view(self.entries@).subrange(0, i + 1));
            i = i + 1;
        }
        assert(entries_view(self.entries@).subrange(0, self.entries@.len() as int)
            =~= entries_view(self.entries@));
        out
    }
}

/// The log always shows the most recent requests, at most a capacity's
/// worth, oldest first: recording into the log of a history gives the log
/// of the longer history.
pub proof fn law_log_keeps_the_latest_requests<T>(history: Seq<T>, e: T, n: nat)
    requires
        n > 0,
    ensures
        keep_last(keep_last(history, n).push(e), n) == keep_last(history.push(e), n),
{
    let k = keep_last(history, n);
    let h2 = history.push(e);
    if history.len() > n {
        assert(k.push(e).len() == n + 1);
        assert(keep_last(k.push(e), n) =~= h2.subrange(h2.len() - n, h2.len() as int));
    } else {
        assert(k =~= history);
    }
}

} // verus!
