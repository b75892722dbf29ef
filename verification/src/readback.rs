//! What the clients read back of the daemon's replies: a line of
//! `key=value` fields, printable words joined by spaces or tidy names
//! joined by tabs, parses into exactly those fields; and every reply is
//! one line.

use vstd::prelude::*;
use vstd::string::*;

use crate::client::{field_pairs, reply_fields, strip_repeated};
use crate::client::{char_pieces, sysinfo_fields_spec, trimmed_pairs};
use crate::config::{find_char, lemma_find_char_first, lemma_seq_visible, lemma_trim_visible, trim};
use crate::daemon::{
    apply_relation, applied_text, control_reply, line_reaches_backend, effect_debug, fan_rule_reply, has_prefix, kbd_rule_reply,
    level_debug, line_relation, logo_debug, operation_debug, opt_byte_text, profile_debug,
    opt_effect_text, opt_fan_text, opt_logo_text, source_text, status_text, DaemonView,
};
use crate::ipc::{request_of, Request};
use crate::{policy_message, policy_verdict, DeviceId, PolicyError, RequestedOperation};
use crate::ipc::{effect_text, fan_mode_text, logo_text, profile_text};
use crate::telemetry::{
    bool_text, gpu_source_text, opt_count_text, opt_rpm_text, opt_string_text, opt_tenths_text,
    opt_u32_text, power_text, simulated_sysinfo_text, sysinfo_text, telemetry_line, tenths_text,
    MachineFacts, Telemetry,
};
use crate::{BoostLevel, FanMode, LightingEffect, Profile};
use crate::text::{
    dec, find_from, hex_char, hex_fixed, is_ws, lemma_dec_digits, lemma_find_from_first,
    lemma_hex_char, lemma_visible_concat,
    occurs_at, split_once,
    visible, words, ws_scan, one_line, lemma_one_line_concat,
};

verus! {

/// `key=value` fields joined by single spaces.
pub open spec fn fields_line(fs: Seq<(Seq<char>, Seq<char>)>) -> Seq<char>
    decreases fs.len(),
{
    if fs.len() == 0 {
        Seq::empty()
    } else if fs.len() == 1 {
        fs[0].0 + "="@ + fs[0].1
    } else {
        fields_line(fs.drop_last()) + " "@ + fs.last().0 + "="@ + fs.last().1
    }
}

/// Every key is a non-empty printable word without `=`, every value a
/// printable word.
pub open spec fn plain_fields(fs: Seq<(Seq<char>, Seq<char>)>) -> bool {
    forall|i: int|
        0 <= i < fs.len() ==> {
            &&& (#[trigger] fs[i]).0.len() > 0
            &&& visible(fs[i].0)
            &&& !fs[i].0.contains('=')
            &&& visible(fs[i].1)
        }
}

proof fn lemma_visible_not_ws(c: char)
    requires
        0x21 <= c as u32 <= 0x7e,
    ensures
        !is_ws(c),
{
}

proof fn lemma_scan_visible(q: Seq<char>, s: Seq<char>)
    requires
        visible(s),
    ensures
        ws_scan(q + s) == (ws_scan(q).0, ws_scan(q).1 + s),
    decreases s.len(),
{
    if s.len() == 0 {
        assert(q + s =~= q);
        assert(ws_scan(q).1 + s =~= ws_scan(q).1);
    } else {
        let init = s.drop_last();
        assert(visible(init));
        lemma_scan_visible(q, init);
        assert((q + s).drop_last() =~= q + init);
        assert((q + s).last() == s.last());
        lemma_visible_not_ws(s.last());
        assert(ws_scan(q).1 + init.push(s.last()) =~= ws_scan(q).1 + s);
        assert((ws_scan(q).1 + init).push(s.last()) =~= ws_scan(q).1 + s);
    }
}

proof fn lemma_scan_space(q: Seq<char>)
    ensures
        ws_scan(q.push(' ')) == (words(q), Seq::<char>::empty()),
{
    assert(q.push(' ').drop_last() =~= q);
    assert(is_ws(' '));
}

proof fn lemma_words_token(p: Seq<char>, t: Seq<char>)
    requires
        visible(t),
        t.len() > 0,
    ensures
        words(p + " "@ + t) == words(p).push(t),
        words(t) == seq![t],
{
    reveal_strlit(" ");
    assert(" "@ =~= seq![' ']);
    assert(p + " "@ == p.push(' '));
    lemma_scan_space(p);
    lemma_scan_visible(p.push(' '), t);
    assert(Seq::<char>::empty() + t =~= t);
    lemma_scan_visible(Seq::empty(), t);
    assert(Seq::<char>::empty() + t =~= t);
}

proof fn lemma_split_field(k: Seq<char>, v: Seq<char>)
    requires
        !k.contains('='),
    ensures
        split_once(k + "="@ + v, "="@) == Some((k, v)),
{
    reveal_strlit("=");
    let s = k + "="@ + v;
    let pat = "="@;
    assert(pat =~= seq!['=']);
    assert forall|i: int| 0 <= i < k.len() implies !occurs_at(s, pat, i) by {
        assert(s[i] == k[i]);
        if occurs_at(s, pat, i) {
            assert(s.subrange(i, i + 1)[0] == s[i]);
            assert(k.contains(k[i]));
        }
    }
    assert(s.subrange(k.len() as int, k.len() + 1 as int) =~= pat);
    lemma_find_from_first(s, pat, 0, k.len() as int);
    assert(s.subrange(0, k.len() as int) =~= k);
    assert(s.subrange(k.len() + 1 as int, s.len() as int) =~= v);
}

proof fn lemma_field_token(k: Seq<char>, v: Seq<char>)
    requires
        k.len() > 0,
        visible(k),
        visible(v),
    ensures
        visible(k + "="@ + v),
        (k + "="@ + v).len() > 0,
{
    reveal_strlit("=");
    lemma_seq_visible("="@);
    lemma_visible_concat(k, "="@);
    lemma_visible_concat(k + "="@, v);
}

/// A line of plain fields reads back as exactly those fields.
pub proof fn lemma_fields_line_read_back(fs: Seq<(Seq<char>, Seq<char>)>)
    requires
        plain_fields(fs),
    ensures
        field_pairs(words(fields_line(fs))) == fs,
    decreases fs.len(),
{
    if fs.len() == 0 {
        assert(words(Seq::<char>::empty()) =~= Seq::<Seq<char>>::empty());
        assert(field_pairs(Seq::<Seq<char>>::empty()) =~= fs);
    } else {
        let (k, v) = fs.last();
        assert(plain_fields(fs) ==> {
            &&& fs[fs.len() - 1].0.len() > 0
            &&& visible(fs[fs.len() - 1].0)
        });
        lemma_field_token(k, v);
        lemma_split_field(k, v);
        let tok = k + "="@ + v;
        let init = fs.drop_last();
        if fs.len() == 1 {
            lemma_words_token(Seq::empty(), tok);
            assert(fields_line(fs) == tok);
            let one: Seq<Seq<char>> = seq![tok];
            assert(one.drop_last() =~= Seq::<Seq<char>>::empty());
            assert(one.last() == tok);
            assert(field_pairs(Seq::<Seq<char>>::empty()) == Seq::<(Seq<char>, Seq<char>)>::empty());
            assert(field_pairs(one) == Seq::<(Seq<char>, Seq<char>)>::empty().push((k, v)));
            assert(Seq::<(Seq<char>, Seq<char>)>::empty().push((k, v)) =~= fs);
        } else {
            assert(plain_fields(init)) by {
                assert forall|i: int| 0 <= i < init.len() implies #[trigger] init[i] == fs[i] by {}
            }
            lemma_fields_line_read_back(init);
            let p = fields_line(init);
            assert(fields_line(fs) =~= p + " "@ + tok);
            lemma_words_token(p, tok);
            assert(words(p).push(tok).drop_last() =~= words(p));
            assert(field_pairs(words(p).push(tok)) =~= init.push((k, v)));
            assert(init.push((k, v)) =~= fs);
        }
    }
}

proof fn lemma_strip_ok(l: Seq<char>)
    requires
        l.len() > 0,
        l[0] != 'o',
    ensures
        strip_repeated("ok "@ + l, "ok "@) == l,
{
    reveal_strlit("ok ");
    let r = "ok "@ + l;
    assert(r.subrange(0, 3) =~= "ok "@);
    assert(r.subrange(3, r.len() as int) =~= l);
    assert("ok "@[0] == 'o');
    if 3 <= l.len() && l.subrange(0, 3) == "ok "@ {
        assert(l.subrange(0, 3)[0] == l[0]);
    }
    assert(strip_repeated(l, "ok "@) == l);
    assert(strip_repeated(r, "ok "@) == strip_repeated(r.subrange(3, r.len() as int), "ok "@));
}

proof fn lemma_fields_line_push(fs: Seq<(Seq<char>, Seq<char>)>, f: (Seq<char>, Seq<char>))
    requires
        fs.len() > 0,
    ensures
        fields_line(fs.push(f)) == fields_line(fs) + " "@ + f.0 + "="@ + f.1,
{
    assert(fs.push(f).drop_last() =~= fs);
}

proof fn lemma_fields_line_one(f: (Seq<char>, Seq<char>))
    ensures
        fields_line(Seq::empty().push(f)) == f.0 + "="@ + f.1,
{
}

/// A literal key: a non-empty printable word without `=`.
proof fn lemma_plain_key(k: Seq<char>)
    requires
        k.len() > 0,
        forall|i: int| 0 <= i < k.len() ==> 0x21 <= (#[trigger] k[i]) as u32 <= 0x7e && k[i] != '=',
    ensures
        k.len() > 0,
        visible(k),
        !k.contains('='),
{
}

proof fn lemma_tenths_visible(o: Option<i64>)
    ensures
        visible(opt_tenths_text(o)),
{
    reveal_strlit("none");
    reveal_strlit("-");
    reveal_strlit(".");
    lemma_seq_visible("none"@);
    lemma_seq_visible("-"@);
    lemma_seq_visible("."@);
    match o {
        None => {},
        Some(x) => {
            let t = x as int;
            let m: int = if t < 0 {
                -t
            } else {
                t
            };
            lemma_dec_digits((m / 10) as nat);
            lemma_dec_digits((m % 10) as nat);
            let a = dec((m / 10) as nat);
            let b = dec((m % 10) as nat);
            lemma_visible_concat(a, "."@);
            lemma_visible_concat(a + "."@, b);
            if t < 0 {
                lemma_visible_concat("-"@, a);
                lemma_visible_concat("-"@ + a, "."@);
                lemma_visible_concat("-"@ + a + "."@, b);
            }
        },
    }
}

proof fn lemma_count_visible(o: Option<u64>)
    ensures
        visible(opt_count_text(o)),
{
    reveal_strlit("none");
    lemma_seq_visible("none"@);
    if let Some(n) = o {
        lemma_dec_digits(n as nat);
    }
}

proof fn lemma_rpm_visible(o: Option<u16>)
    ensures
        visible(opt_rpm_text(o)),
{
    reveal_strlit("none");
    lemma_seq_visible("none"@);
    if let Some(n) = o {
        lemma_dec_digits(n as nat);
    }
}

// ----------------------------------------------------------------------
// The telemetry line.
// ----------------------------------------------------------------------

/// The fields of the telemetry line, in order.
pub open spec fn telemetry_fields(t: Telemetry) -> Seq<(Seq<char>, Seq<char>)> {
    seq![
        ("cpu_temp"@, opt_tenths_text(t.cpu_temp_tenths)),
        ("cpu_util"@, opt_tenths_text(t.cpu_util_tenths)),
        ("cpu_freq"@, opt_tenths_text(t.cpu_freq_tenths)),
        ("mem_used"@, opt_count_text(t.mem_used_kb)),
        ("mem_total"@, opt_count_text(t.mem_total_kb)),
        ("gpu_temp"@, opt_tenths_text(t.gpu_temp_tenths)),
        ("gpu_util"@, opt_tenths_text(t.gpu_util_tenths)),
        ("gpu_mem_used"@, opt_count_text(t.gpu_mem_used_mb)),
        ("gpu_mem_total"@, opt_count_text(t.gpu_mem_total_mb)),
        ("gpu_source"@, gpu_source_text(t.gpu_source)),
        ("fan_rpm"@, opt_rpm_text(t.fan_rpm)),
        ("power"@, power_text(t.on_ac)),
        ("simulated"@, bool_text(t.simulated)),
    ]
}

proof fn lemma_join_step(p: Seq<char>, lit: Seq<char>, key: Seq<char>, v: Seq<char>)
    requires
        lit == " "@ + key + "="@,
    ensures
        p + lit + v == p + " "@ + key + "="@ + v,
{
    assert(p + lit + v =~= p + " "@ + key + "="@ + v);
}

proof fn lemma_literal_key(lit: Seq<char>, key: Seq<char>)
    requires
        lit.len() == key.len() + 2,
        lit[0] == ' ',
        lit[lit.len() - 1] == '=',
        forall|i: int| 0 <= i < key.len() ==> lit[i + 1] == key[i],
    ensures
        lit == " "@ + key + "="@,
{
    reveal_strlit(" ");
    reveal_strlit("=");
    assert(lit =~= " "@ + key + "="@);
}

proof fn lemma_telemetry_fields_plain(t: Telemetry)
    ensures
        plain_fields(telemetry_fields(t)),
{
    let fs = telemetry_fields(t);
    reveal_strlit("cpu_temp");
    reveal_strlit("cpu_util");
    reveal_strlit("cpu_freq");
    reveal_strlit("mem_used");
    reveal_strlit("mem_total");
    reveal_strlit("gpu_temp");
    reveal_strlit("gpu_util");
    reveal_strlit("gpu_mem_used");
    reveal_strlit("gpu_mem_total");
    reveal_strlit("gpu_source");
    reveal_strlit("fan_rpm");
    reveal_strlit("power");
    reveal_strlit("simulated");
    reveal_strlit("dgpu");
    reveal_strlit("igpu");
    reveal_strlit("none");
    reveal_strlit("ac");
    reveal_strlit("battery");
    reveal_strlit("unknown");
    reveal_strlit("true");
    reveal_strlit("false");
    lemma_tenths_visible(t.cpu_temp_tenths);
    lemma_tenths_visible(t.cpu_util_tenths);
    lemma_tenths_visible(t.cpu_freq_tenths);
    lemma_tenths_visible(t.gpu_temp_tenths);
    lemma_tenths_visible(t.gpu_util_tenths);
    lemma_count_visible(t.mem_used_kb);
    lemma_count_visible(t.mem_total_kb);
    lemma_count_visible(t.gpu_mem_used_mb);
    lemma_count_visible(t.gpu_mem_total_mb);
    lemma_rpm_visible(t.fan_rpm);
    lemma_seq_visible(gpu_source_text(t.gpu_source));
    lemma_seq_visible(power_text(t.on_ac));
    lemma_seq_visible(bool_text(t.simulated));
    assert forall|i: int| 0 <= i < fs.len() implies {
        &&& (#[trigger] fs[i]).0.len() > 0
        &&& visible(fs[i].0)
        &&& !fs[i].0.contains('=')
        &&& visible(fs[i].1)
    } by {
        lemma_plain_key(fs[i].0);
    }
}

proof fn lemma_telemetry_line_fields(t: Telemetry)
    ensures
        telemetry_line(t) == fields_line(telemetry_fields(t)),
{
    let fs = telemetry_fields(t);
    let f0 = Seq::empty().push(fs[0]);
    let f1 = f0.push(fs[1]);
    let f2 = f1.push(fs[2]);
    let f3 = f2.push(fs[3]);
    let f4 = f3.push(fs[4]);
    let f5 = f4.push(fs[5]);
    let f6 = f5.push(fs[6]);
    let f7 = f6.push(fs[7]);
    let f8 = f7.push(fs[8]);
    let f9 = f8.push(fs[9]);
    let f10 = f9.push(fs[10]);
    let f11 = f10.push(fs[11]);
    let f12 = f11.push(fs[12]);
    assert(f12 =~= fs);
    reveal_strlit("cpu_temp=");
    reveal_strlit("cpu_temp");
    reveal_strlit("=");
    assert("cpu_temp="@ =~= "cpu_temp"@ + "="@);
    lemma_fields_line_one(fs[0]);
    let l0 = "cpu_temp="@ + opt_tenths_text(t.cpu_temp_tenths);
    assert(fields_line(f0) == l0);
    reveal_strlit(" cpu_util=");
    reveal_strlit("cpu_util");
    lemma_literal_key(" cpu_util="@, "cpu_util"@);
    lemma_fields_line_push(f0, fs[1]);
    let l1 = l0 + " cpu_util="@ + opt_tenths_text(t.cpu_util_tenths);
    lemma_join_step(l0, " cpu_util="@, "cpu_util"@, opt_tenths_text(t.cpu_util_tenths));
    reveal_strlit(" cpu_freq=");
    reveal_strlit("cpu_freq");
    lemma_literal_key(" cpu_freq="@, "cpu_freq"@);
    lemma_fields_line_push(f1, fs[2]);
    let l2 = l1 + " cpu_freq="@ + opt_tenths_text(t.cpu_freq_tenths);
    lemma_join_step(l1, " cpu_freq="@, "cpu_freq"@, opt_tenths_text(t.cpu_freq_tenths));
    reveal_strlit(" mem_used=");
    reveal_strlit("mem_used");
    lemma_literal_key(" mem_used="@, "mem_used"@);
    lemma_fields_line_push(f2, fs[3]);
    let l3 = l2 + " mem_used="@ + opt_count_text(t.mem_used_kb);
    lemma_join_step(l2, " mem_used="@, "mem_used"@, opt_count_text(t.mem_used_kb));
    reveal_strlit(" mem_total=");
    reveal_strlit("mem_total");
    lemma_literal_key(" mem_total="@, "mem_total"@);
    lemma_fields_line_push(f3, fs[4]);
    let l4 = l3 + " mem_total="@ + opt_count_text(t.mem_total_kb);
    lemma_join_step(l3, " mem_total="@, "mem_total"@, opt_count_text(t.mem_total_kb));
    reveal_strlit(" gpu_temp=");
    reveal_strlit("gpu_temp");
    lemma_literal_key(" gpu_temp="@, "gpu_temp"@);
    lemma_fields_line_push(f4, fs[5]);
    let l5 = l4 + " gpu_temp="@ + opt_tenths_text(t.gpu_temp_tenths);
    lemma_join_step(l4, " gpu_temp="@, "gpu_temp"@, opt_tenths_text(t.gpu_temp_tenths));
    reveal_strlit(" gpu_util=");
    reveal_strlit("gpu_util");
    lemma_literal_key(" gpu_util="@, "gpu_util"@);
    lemma_fields_line_push(f5, fs[6]);
    let l6 = l5 + " gpu_util="@ + opt_tenths_text(t.gpu_util_tenths);
    lemma_join_step(l5, " gpu_util="@, "gpu_util"@, opt_tenths_text(t.gpu_util_tenths));
    reveal_strlit(" gpu_mem_used=");
    reveal_strlit("gpu_mem_used");
    lemma_literal_key(" gpu_mem_used="@, "gpu_mem_used"@);
    lemma_fields_line_push(f6, fs[7]);
    let l7 = l6 + " gpu_mem_used="@ + opt_count_text(t.gpu_mem_used_mb);
    lemma_join_step(l6, " gpu_mem_used="@, "gpu_mem_used"@, opt_count_text(t.gpu_mem_used_mb));
    reveal_strlit(" gpu_mem_total=");
    reveal_strlit("gpu_mem_total");
    lemma_literal_key(" gpu_mem_total="@, "gpu_mem_total"@);
    lemma_fields_line_push(f7, fs[8]);
    let l8 = l7 + " gpu_mem_total="@ + opt_count_text(t.gpu_mem_total_mb);
    lemma_join_step(l7, " gpu_mem_total="@, "gpu_mem_total"@, opt_count_text(t.gpu_mem_total_mb));
    reveal_strlit(" gpu_source=");
    reveal_strlit("gpu_source");
    lemma_literal_key(" gpu_source="@, "gpu_source"@);
    lemma_fields_line_push(f8, fs[9]);
    let l9 = l8 + " gpu_source="@ + gpu_source_text(t.gpu_source);
    lemma_join_step(l8, " gpu_source="@, "gpu_source"@, gpu_source_text(t.gpu_source));
    reveal_strlit(" fan_rpm=");
    reveal_strlit("fan_rpm");
    lemma_literal_key(" fan_rpm="@, "fan_rpm"@);
    lemma_fields_line_push(f9, fs[10]);
    let l10 = l9 + " fan_rpm="@ + opt_rpm_text(t.fan_rpm);
    lemma_join_step(l9, " fan_rpm="@, "fan_rpm"@, opt_rpm_text(t.fan_rpm));
    reveal_strlit(" power=");
    reveal_strlit("power");
    lemma_literal_key(" power="@, "power"@);
    lemma_fields_line_push(f10, fs[11]);
    let l11 = l10 + " power="@ + power_text(t.on_ac);
    lemma_join_step(l10, " power="@, "power"@, power_text(t.on_ac));
    reveal_strlit(" simulated=");
    reveal_strlit("simulated");
    lemma_literal_key(" simulated="@, "simulated"@);
    lemma_fields_line_push(f11, fs[12]);
    let l12 = l11 + " simulated="@ + bool_text(t.simulated);
    lemma_join_step(l11, " simulated="@, "simulated"@, bool_text(t.simulated));
    assert(telemetry_line(t) == l12);
}

/// The client reads back every field of the daemon's telemetry reply, in
/// order, exactly as the daemon wrote it.
pub proof fn law_client_reads_back_telemetry(t: Telemetry)
    ensures
        reply_fields("ok "@ + telemetry_line(t)) == telemetry_fields(t),
{
    lemma_telemetry_fields_plain(t);
    lemma_fields_line_read_back(telemetry_fields(t));
    lemma_telemetry_line_fields(t);
    reveal_strlit("cpu_temp=");
    assert(telemetry_line(t)[0] == 'c');
    lemma_strip_ok(telemetry_line(t));
}

// ----------------------------------------------------------------------
// The status line.
// ----------------------------------------------------------------------

/// The fields of the status reply, in order.
pub open spec fn status_fields(v: DaemonView) -> Seq<(Seq<char>, Seq<char>)> {
    seq![
        ("device"@, crate::usb_id_text(v.device.id)),
        ("backend"@, v.backend_name),
        ("fan"@, fan_mode_text(v.fan_mode)),
        ("profile"@, profile_text(v.profile)),
        ("automation_ac"@, opt_fan_text(v.state.fan_on_ac)),
        ("automation_battery"@, opt_fan_text(v.state.fan_on_battery)),
        ("kbd"@, opt_byte_text(v.state.kbd_brightness, "unset"@)),
        ("kbd_effect"@, opt_effect_text(v.state.kbd_effect)),
        ("logo"@, opt_logo_text(v.state.logo)),
        ("kbd_ac"@, opt_byte_text(v.state.kbd_on_ac, "off"@)),
        ("kbd_battery"@, opt_byte_text(v.state.kbd_on_battery, "off"@)),
        ("experimental"@, bool_text(v.allow_experimental)),
    ]
}

proof fn lemma_hex_fixed_visible(n: nat, w: nat)
    ensures
        visible(hex_fixed(n, w)),
    decreases w,
{
    if w > 0 {
        lemma_hex_fixed_visible(n / 16, (w - 1) as nat);
        lemma_hex_char(n % 16);
        let h = hex_fixed(n / 16, (w - 1) as nat);
        assert(visible(seq![hex_char(n % 16)]));
        lemma_visible_concat(h, seq![hex_char(n % 16)]);
        assert(h.push(hex_char(n % 16)) =~= h + seq![hex_char(n % 16)]);
    }
}

proof fn lemma_fan_visible(o: Option<FanMode>)
    ensures
        visible(opt_fan_text(o)),
{
    reveal_strlit("off");
    lemma_seq_visible("off"@);
    if let Some(m) = o {
        crate::config::lemma_fan_value(m);
        assert(fan_mode_text(m) == crate::config::fan_text(m));
    }
}

proof fn lemma_byte_visible(o: Option<u8>, absent: Seq<char>)
    requires
        visible(absent),
    ensures
        visible(opt_byte_text(o, absent)),
{
    if let Some(b) = o {
        lemma_dec_digits(b as nat);
    }
}

proof fn lemma_status_fields_plain(v: DaemonView)
    requires
        visible(v.backend_name),
    ensures
        plain_fields(status_fields(v)),
{
    let fs = status_fields(v);
    reveal_strlit("device");
    reveal_strlit("backend");
    reveal_strlit("fan");
    reveal_strlit("profile");
    reveal_strlit("automation_ac");
    reveal_strlit("automation_battery");
    reveal_strlit("kbd");
    reveal_strlit("kbd_effect");
    reveal_strlit("logo");
    reveal_strlit("kbd_ac");
    reveal_strlit("kbd_battery");
    reveal_strlit("experimental");
    reveal_strlit("unset");
    reveal_strlit("off");
    reveal_strlit(":");
    reveal_strlit("true");
    reveal_strlit("false");
    lemma_seq_visible("unset"@);
    lemma_seq_visible("off"@);
    lemma_seq_visible(":"@);
    lemma_hex_fixed_visible(v.device.id.vendor_id as nat, 4);
    lemma_hex_fixed_visible(v.device.id.product_id as nat, 4);
    lemma_visible_concat(hex_fixed(v.device.id.vendor_id as nat, 4), seq![':']);
    lemma_visible_concat(
        hex_fixed(v.device.id.vendor_id as nat, 4) + seq![':'],
        hex_fixed(v.device.id.product_id as nat, 4),
    );
    crate::config::lemma_fan_value(v.fan_mode);
    assert(fan_mode_text(v.fan_mode) == crate::config::fan_text(v.fan_mode));
    crate::config::lemma_profile_value(v.profile);
    lemma_fan_visible(v.state.fan_on_ac);
    lemma_fan_visible(v.state.fan_on_battery);
    lemma_byte_visible(v.state.kbd_brightness, "unset"@);
    lemma_byte_visible(v.state.kbd_on_ac, "off"@);
    lemma_byte_visible(v.state.kbd_on_battery, "off"@);
    if let Some(e) = v.state.kbd_effect {
        crate::config::lemma_effect_value(e);
    }
    lemma_seq_visible(opt_effect_text(None));
    if let Some(m) = v.state.logo {
        crate::config::lemma_logo_value(m);
    }
    lemma_seq_visible(opt_logo_text(None));
    lemma_seq_visible(bool_text(v.allow_experimental));
    assert forall|i: int| 0 <= i < fs.len() implies {
        &&& (#[trigger] fs[i]).0.len() > 0
        &&& visible(fs[i].0)
        &&& !fs[i].0.contains('=')
        &&& visible(fs[i].1)
    } by {
        lemma_plain_key(fs[i].0);
    }
}

proof fn lemma_status_step(
    l: Seq<char>,
    f: Seq<(Seq<char>, Seq<char>)>,
    lit: Seq<char>,
    key: Seq<char>,
    v: Seq<char>,
)
    requires
        f.len() > 0,
        l == "ok "@ + fields_line(f),
        lit == " "@ + key + "="@,
    ensures
        l + lit + v == "ok "@ + fields_line(f.push((key, v))),
{
    lemma_fields_line_push(f, (key, v));
    assert(l + lit + v =~= "ok "@ + (fields_line(f) + " "@ + key + "="@ + v));
}

proof fn lemma_status_line_fields(v: DaemonView)
    ensures
        status_text(v) == "ok "@ + fields_line(status_fields(v)),
{
    let fs = status_fields(v);
    let f0 = Seq::empty().push(fs[0]);
    reveal_strlit("ok device=");
    reveal_strlit("ok ");
    reveal_strlit("device");
    reveal_strlit("=");
    lemma_fields_line_one(fs[0]);
    let l0 = "ok device="@ + crate::usb_id_text(v.device.id);
    assert(l0 =~= "ok "@ + fields_line(f0));
    reveal_strlit(" backend=");
    reveal_strlit("backend");
    lemma_literal_key(" backend="@, "backend"@);
    let f1 = f0.push(("backend"@, v.backend_name));
    lemma_status_step(l0, f0, " backend="@, "backend"@, v.backend_name);
    let l1 = l0 + " backend="@ + v.backend_name;
    reveal_strlit(" fan=");
    reveal_strlit("fan");
    lemma_literal_key(" fan="@, "fan"@);
    let f2 = f1.push(("fan"@, fan_mode_text(v.fan_mode)));
    lemma_status_step(l1, f1, " fan="@, "fan"@, fan_mode_text(v.fan_mode));
    let l2 = l1 + " fan="@ + fan_mode_text(v.fan_mode);
    reveal_strlit(" profile=");
    reveal_strlit("profile");
    lemma_literal_key(" profile="@, "profile"@);
    let f3 = f2.push(("profile"@, profile_text(v.profile)));
    lemma_status_step(l2, f2, " profile="@, "profile"@, profile_text(v.profile));
    let l3 = l2 + " profile="@ + profile_text(v.profile);
    reveal_strlit(" automation_ac=");
    reveal_strlit("automation_ac");
    lemma_literal_key(" automation_ac="@, "automation_ac"@);
    let f4 = f3.push(("automation_ac"@, opt_fan_text(v.state.fan_on_ac)));
    lemma_status_step(l3, f3, " automation_ac="@, "automation_ac"@, opt_fan_text(v.state.fan_on_ac));
    let l4 = l3 + " automation_ac="@ + opt_fan_text(v.state.fan_on_ac);
    reveal_strlit(" automation_battery=");
    reveal_strlit("automation_battery");
    lemma_literal_key(" automation_battery="@, "automation_battery"@);
    let f5 = f4.push(("automation_battery"@, opt_fan_text(v.state.fan_on_battery)));
    lemma_status_step(l4, f4, " automation_battery="@, "automation_battery"@, opt_fan_text(v.state.fan_on_battery));
    let l5 = l4 + " automation_battery="@ + opt_fan_text(v.state.fan_on_battery);
    reveal_strlit(" kbd=");
    reveal_strlit("kbd");
    lemma_literal_key(" kbd="@, "kbd"@);
    let f6 = f5.push(("kbd"@, opt_byte_text(v.state.kbd_brightness, "unset"@)));
    lemma_status_step(l5, f5, " kbd="@, "kbd"@, opt_byte_text(v.state.kbd_brightness, "unset"@));
    let l6 = l5 + " kbd="@ + opt_byte_text(v.state.kbd_brightness, "unset"@);
    reveal_strlit(" kbd_effect=");
    reveal_strlit("kbd_effect");
    lemma_literal_key(" kbd_effect="@, "kbd_effect"@);
    let f7 = f6.push(("kbd_effect"@, opt_effect_text(v.state.kbd_effect)));
    lemma_status_step(l6, f6, " kbd_effect="@, "kbd_effect"@, opt_effect_text(v.state.kbd_effect));
    let l7 = l6 + " kbd_effect="@ + opt_effect_text(v.state.kbd_effect);
    reveal_strlit(" logo=");
    reveal_strlit("logo");
    lemma_literal_key(" logo="@, "logo"@);
    let f8 = f7.push(("logo"@, opt_logo_text(v.state.logo)));
    lemma_status_step(l7, f7, " logo="@, "logo"@, opt_logo_text(v.state.logo));
    let l8 = l7 + " logo="@ + opt_logo_text(v.state.logo);
    reveal_strlit(" kbd_ac=");
    reveal_strlit("kbd_ac");
    lemma_literal_key(" kbd_ac="@, "kbd_ac"@);
    let f9 = f8.push(("kbd_ac"@, opt_byte_text(v.state.kbd_on_ac, "off"@)));
    lemma_status_step(l8, f8, " kbd_ac="@, "kbd_ac"@, opt_byte_text(v.state.kbd_on_ac, "off"@));
    let l9 = l8 + " kbd_ac="@ + opt_byte_text(v.state.kbd_on_ac, "off"@);
    reveal_strlit(" kbd_battery=");
    reveal_strlit("kbd_battery");
    lemma_literal_key(" kbd_battery="@, "kbd_battery"@);
    let f10 = f9.push(("kbd_battery"@, opt_byte_text(v.state.kbd_on_battery, "off"@)));
    lemma_status_step(l9, f9, " kbd_battery="@, "kbd_battery"@, opt_byte_text(v.state.kbd_on_battery, "off"@));
    let l10 = l9 + " kbd_battery="@ + opt_byte_text(v.state.kbd_on_battery, "off"@);
    reveal_strlit(" experimental=");
    reveal_strlit("experimental");
    lemma_literal_key(" experimental="@, "experimental"@);
    let f11 = f10.push(("experimental"@, bool_text(v.allow_experimental)));
    lemma_status_step(l10, f10, " experimental="@, "experimental"@, bool_text(v.allow_experimental));
    let l11 = l10 + " experimental="@ + bool_text(v.allow_experimental);
    assert(f11 =~= fs);
    assert(status_text(v) == l11);
}

/// The client reads back every field of the daemon's status reply, in
/// order, exactly as the daemon wrote it, when the backend's name is one
/// printable word.
pub proof fn law_client_reads_back_status(v: DaemonView)
    requires
        visible(v.backend_name),
    ensures
        reply_fields(status_text(v)) == status_fields(v),
{
    let fs = status_fields(v);
    lemma_status_fields_plain(v);
    lemma_fields_line_read_back(fs);
    lemma_status_line_fields(v);
    let line = fields_line(fs);
    reveal_strlit("ok device=");
    reveal_strlit("ok ");
    assert(status_text(v)[3] == 'd');
    assert(line[0] == status_text(v)[3]);
    lemma_strip_ok(line);
}

// ----------------------------------------------------------------------
// The machine line.
// ----------------------------------------------------------------------

/// `key=value` fields joined by tabs.
pub open spec fn tab_line(fs: Seq<(Seq<char>, Seq<char>)>) -> Seq<char>
    decreases fs.len(),
{
    if fs.len() == 0 {
        Seq::empty()
    } else if fs.len() == 1 {
        fs[0].0 + "="@ + fs[0].1
    } else {
        tab_line(fs.drop_last()) + "\t"@ + fs.last().0 + "="@ + fs.last().1
    }
}

/// No key holds `=` or a tab; no value holds a tab or has surrounding
/// whitespace.
pub open spec fn tab_fields(fs: Seq<(Seq<char>, Seq<char>)>) -> bool {
    forall|i: int|
        0 <= i < fs.len() ==> {
            &&& !(#[trigger] fs[i]).0.contains('=')
            &&& !fs[i].0.contains('\t')
            &&& !fs[i].1.contains('\t')
            &&& trim(fs[i].1) == fs[i].1
        }
}

proof fn lemma_find_char_result(s: Seq<char>, c: char, i: int)
    requires
        0 <= i,
    ensures
        find_char(s, c, i) matches Some(j) ==> i <= j < s.len() && s[j] == c && forall|k: int|
            i <= k < j ==> s[k] != c,
        find_char(s, c, i) is None ==> forall|k: int| i <= k < s.len() ==> s[k] != c,
    decreases s.len() - i,
{
    if i < s.len() && s[i] != c {
        lemma_find_char_result(s, c, i + 1);
    }
}

proof fn lemma_pieces_alone(b: Seq<char>, c: char)
    requires
        !b.contains(c),
    ensures
        char_pieces(b, c) == seq![b],
{
    lemma_find_char_result(b, c, 0);
    if let Some(j) = find_char(b, c, 0) {
        assert(b.contains(b[j]));
    }
}

/// Splitting at `c` a text that ends in `c` and a piece without `c` gives
/// the pieces of the text before, then that piece.
proof fn lemma_pieces_push(a: Seq<char>, b: Seq<char>, c: char)
    requires
        !b.contains(c),
    ensures
        char_pieces(a + seq![c] + b, c) == char_pieces(a, c).push(b),
    decreases a.len(),
{
    let s = a + seq![c] + b;
    lemma_find_char_result(a, c, 0);
    lemma_pieces_alone(b, c);
    match find_char(a, c, 0) {
        None => {
            assert(s[a.len() as int] == c);
            lemma_find_char_first(s, c, 0, a.len() as int);
            assert(s.subrange(0, a.len() as int) =~= a);
            assert(s.subrange(a.len() + 1 as int, s.len() as int) =~= b);
            assert(char_pieces(a, c) == seq![a]);
            assert(seq![a] + seq![b] =~= seq![a].push(b));
        },
        Some(i) => {
            assert(s[i] == a[i]);
            lemma_find_char_first(s, c, 0, i);
            let rest = a.subrange(i + 1, a.len() as int);
            lemma_pieces_push(rest, b, c);
            assert(s.subrange(0, i) =~= a.subrange(0, i));
            assert(s.subrange(i + 1, s.len() as int) =~= rest + seq![c] + b);
            assert(seq![a.subrange(0, i)] + char_pieces(rest, c).push(b) =~= (seq![
                a.subrange(0, i),
            ] + char_pieces(rest, c)).push(b));
        },
    }
}

proof fn lemma_token_no_tab(k: Seq<char>, v: Seq<char>)
    requires
        !k.contains('\t'),
        !v.contains('\t'),
    ensures
        !(k + "="@ + v).contains('\t'),
{
    reveal_strlit("=");
    let t = k + "="@ + v;
    if t.contains('\t') {
        let j = choose|j: int| 0 <= j < t.len() && t[j] == '\t';
        if j < k.len() {
            assert(t[j] == k[j]);
            assert(k.contains(k[j]));
        } else if j > k.len() {
            assert(t[j] == v[j - k.len() - 1]);
            assert(v.contains(v[j - k.len() - 1]));
        }
    }
}

/// A tab-separated line of such fields reads back as exactly those fields.
proof fn lemma_tab_line_read_back(fs: Seq<(Seq<char>, Seq<char>)>)
    requires
        fs.len() > 0,
        tab_fields(fs),
    ensures
        trimmed_pairs(char_pieces(tab_line(fs), '\t')) == fs,
    decreases fs.len(),
{
    let (k, v) = fs.last();
    assert(tab_fields(fs) ==> {
        &&& !fs[fs.len() - 1].0.contains('=')
        &&& trim(fs[fs.len() - 1].1) == fs[fs.len() - 1].1
    });
    lemma_split_field(k, v);
    lemma_token_no_tab(k, v);
    let tok = k + "="@ + v;
    let init = fs.drop_last();
    if fs.len() == 1 {
        lemma_pieces_alone(tok, '\t');
        let one: Seq<Seq<char>> = seq![tok];
        assert(one.drop_last() =~= Seq::<Seq<char>>::empty());
        assert(one.last() == tok);
        assert(trimmed_pairs(Seq::<Seq<char>>::empty()) == Seq::<(Seq<char>, Seq<char>)>::empty());
        assert(trimmed_pairs(one) == Seq::<(Seq<char>, Seq<char>)>::empty().push((k, v)));
        assert(Seq::<(Seq<char>, Seq<char>)>::empty().push((k, v)) =~= fs);
    } else {
        assert(tab_fields(init)) by {
            assert forall|i: int| 0 <= i < init.len() implies #[trigger] init[i] == fs[i] by {}
        }
        lemma_tab_line_read_back(init);
        let p = tab_line(init);
        reveal_strlit("\t");
        assert(tab_line(fs) =~= p + seq!['\t'] + tok);
        lemma_pieces_push(p, tok, '\t');
        let ps = char_pieces(p, '\t').push(tok);
        assert(ps.drop_last() =~= char_pieces(p, '\t'));
        assert(init.push((k, v)) =~= fs);
    }
}

/// A name the machine line can carry as it is: no tab, and no whitespace
/// at either end.
pub open spec fn tidy_name(o: Option<String>) -> bool {
    match o {
        Some(s) => !s@.contains('\t') && trim(s@) == s@,
        None => true,
    }
}

/// The fields of the machine line, in order.
pub open spec fn sysinfo_fields(simulate: bool, f: MachineFacts) -> Seq<(Seq<char>, Seq<char>)> {
    if simulate {
        seq![
            ("cpu_model"@, "AMD Ryzen 9 7940HS w/ Radeon 780M Graphics"@),
            ("cpu_cores"@, "8"@),
            ("cpu_threads"@, "16"@),
            ("mem_total_kb"@, "31200000"@),
            ("gpu_dgpu"@, "NVIDIA GeForce RTX 4060 Laptop GPU"@),
            ("gpu_igpu"@, "AMD Radeon 780M"@),
            ("simulated"@, "true"@),
        ]
    } else {
        seq![
            ("cpu_model"@, opt_string_text(f.cpu_model, "Unknown"@)),
            ("cpu_cores"@, opt_u32_text(
                match f.cpu_cores {
                    Some(c) => Some(c),
                    None => f.cpu_threads,
                },
            )),
            ("cpu_threads"@, opt_u32_text(f.cpu_threads)),
            ("mem_total_kb"@, opt_count_text(f.mem_total_kb)),
            ("gpu_dgpu"@, opt_string_text(f.dgpu_name, "none"@)),
            ("gpu_igpu"@, opt_string_text(f.igpu_name, "none"@)),
            ("simulated"@, "false"@),
        ]
    }
}

proof fn lemma_spaced_tidy(s: Seq<char>)
    requires
        s.len() > 0,
        forall|i: int| 0 <= i < s.len() ==> 0x20 <= (#[trigger] s[i]) as u32 <= 0x7e,
        s[0] as u32 != 0x20,
        s.last() as u32 != 0x20,
    ensures
        !s.contains('\t'),
        trim(s) == s,
{
    if s.contains('\t') {
        let j = choose|j: int| 0 <= j < s.len() && s[j] == '\t';
        assert(0x20 <= s[j] as u32);
    }
    assert(0x20 <= s[0] as u32 <= 0x7e);
    assert(0x20 <= s[s.len() - 1] as u32 <= 0x7e);
    assert(!is_ws(s[0]));
    assert(!is_ws(s.last()));
}

proof fn lemma_visible_tidy(s: Seq<char>)
    requires
        visible(s),
    ensures
        !s.contains('\t'),
        trim(s) == s,
{
    lemma_trim_visible(s);
    if s.contains('\t') {
        let j = choose|j: int| 0 <= j < s.len() && s[j] == '\t';
        assert(0x21 <= s[j] as u32);
    }
}

proof fn lemma_name_tidy(o: Option<String>, absent: Seq<char>)
    requires
        tidy_name(o),
        visible(absent),
    ensures
        !opt_string_text(o, absent).contains('\t'),
        trim(opt_string_text(o, absent)) == opt_string_text(o, absent),
{
    if o is None {
        lemma_visible_tidy(absent);
    }
}

proof fn lemma_number_tidy(o: Option<u32>)
    ensures
        !opt_u32_text(o).contains('\t'),
        trim(opt_u32_text(o)) == opt_u32_text(o),
{
    reveal_strlit("none");
    lemma_seq_visible("none"@);
    if let Some(n) = o {
        lemma_dec_digits(n as nat);
    }
    lemma_visible_tidy(opt_u32_text(o));
}

proof fn lemma_sysinfo_fields_tab(simulate: bool, f: MachineFacts)
    requires
        !simulate ==> tidy_name(f.cpu_model) && tidy_name(f.dgpu_name) && tidy_name(f.igpu_name),
    ensures
        tab_fields(sysinfo_fields(simulate, f)),
{
    let fs = sysinfo_fields(simulate, f);
    reveal_strlit("cpu_model");
    reveal_strlit("cpu_cores");
    reveal_strlit("cpu_threads");
    reveal_strlit("mem_total_kb");
    reveal_strlit("gpu_dgpu");
    reveal_strlit("gpu_igpu");
    reveal_strlit("simulated");
    reveal_strlit("Unknown");
    reveal_strlit("none");
    reveal_strlit("false");
    reveal_strlit("true");
    reveal_strlit("8");
    reveal_strlit("16");
    reveal_strlit("31200000");
    reveal_strlit("AMD Ryzen 9 7940HS w/ Radeon 780M Graphics");
    reveal_strlit("NVIDIA GeForce RTX 4060 Laptop GPU");
    reveal_strlit("AMD Radeon 780M");
    lemma_seq_visible("Unknown"@);
    lemma_seq_visible("none"@);
    lemma_seq_visible("false"@);
    lemma_seq_visible("true"@);
    lemma_seq_visible("8"@);
    lemma_seq_visible("16"@);
    lemma_seq_visible("31200000"@);
    lemma_visible_tidy("false"@);
    lemma_visible_tidy("true"@);
    lemma_visible_tidy("8"@);
    lemma_visible_tidy("16"@);
    lemma_visible_tidy("31200000"@);
    let m = "AMD Ryzen 9 7940HS w/ Radeon 780M Graphics"@;
    let d = "NVIDIA GeForce RTX 4060 Laptop GPU"@;
    let g = "AMD Radeon 780M"@;
    assert forall|i: int| 0 <= i < m.len() implies 0x20 <= (#[trigger] m[i]) as u32 <= 0x7e by {}
    assert forall|i: int| 0 <= i < d.len() implies 0x20 <= (#[trigger] d[i]) as u32 <= 0x7e by {}
    assert forall|i: int| 0 <= i < g.len() implies 0x20 <= (#[trigger] g[i]) as u32 <= 0x7e by {}
    lemma_spaced_tidy(m);
    lemma_spaced_tidy(d);
    lemma_spaced_tidy(g);
    if !simulate {
        lemma_name_tidy(f.cpu_model, "Unknown"@);
        lemma_name_tidy(f.dgpu_name, "none"@);
        lemma_name_tidy(f.igpu_name, "none"@);
        lemma_number_tidy(
            match f.cpu_cores {
                Some(c) => Some(c),
                None => f.cpu_threads,
            },
        );
        lemma_number_tidy(f.cpu_threads);
        lemma_count_visible(f.mem_total_kb);
        lemma_visible_tidy(opt_count_text(f.mem_total_kb));
    }
    assert forall|i: int| 0 <= i < fs.len() implies {
        &&& !(#[trigger] fs[i]).0.contains('=')
        &&& !fs[i].0.contains('\t')
        &&& !fs[i].1.contains('\t')
        &&& trim(fs[i].1) == fs[i].1
    } by {
        lemma_plain_key(fs[i].0);
        lemma_visible_tidy(fs[i].0);
    }
}

proof fn lemma_tab_line_push(fs: Seq<(Seq<char>, Seq<char>)>, f: (Seq<char>, Seq<char>))
    requires
        fs.len() > 0,
    ensures
        tab_line(fs.push(f)) == tab_line(fs) + "\t"@ + f.0 + "="@ + f.1,
{
    assert(fs.push(f).drop_last() =~= fs);
}

proof fn lemma_tab_key(lit: Seq<char>, key: Seq<char>)
    requires
        lit.len() == key.len() + 2,
        lit[0] == '\t',
        lit[lit.len() - 1] == '=',
        forall|i: int| 0 <= i < key.len() ==> lit[i + 1] == key[i],
    ensures
        forall|p: Seq<char>, v: Seq<char>| p + lit + v == p + "\t"@ + key + "="@ + v,
{
    reveal_strlit("\t");
    reveal_strlit("=");
    assert(lit =~= "\t"@ + key + "="@);
    assert forall|p: Seq<char>, v: Seq<char>| p + lit + v == p + "\t"@ + key + "="@ + v by {
        assert(p + lit + v =~= p + "\t"@ + key + "="@ + v);
    }
}

proof fn lemma_sysinfo_line_fields(simulate: bool, f: MachineFacts)
    ensures
        sysinfo_text(simulate, f) == tab_line(sysinfo_fields(simulate, f)),
{
    let fs = sysinfo_fields(simulate, f);
    let f0 = Seq::empty().push(fs[0]);
    let f1 = f0.push(fs[1]);
    let f2 = f1.push(fs[2]);
    let f3 = f2.push(fs[3]);
    let f4 = f3.push(fs[4]);
    let f5 = f4.push(fs[5]);
    let f6 = f5.push(fs[6]);
    assert(f6 =~= fs);
    lemma_tab_line_push(f0, fs[1]);
    lemma_tab_line_push(f1, fs[2]);
    lemma_tab_line_push(f2, fs[3]);
    lemma_tab_line_push(f3, fs[4]);
    lemma_tab_line_push(f4, fs[5]);
    lemma_tab_line_push(f5, fs[6]);
    let line = fs[0].0 + "="@ + fs[0].1 + "\t"@ + fs[1].0 + "="@ + fs[1].1 + "\t"@ + fs[2].0 + "="@
        + fs[2].1 + "\t"@ + fs[3].0 + "="@ + fs[3].1 + "\t"@ + fs[4].0 + "="@ + fs[4].1 + "\t"@
        + fs[5].0 + "="@ + fs[5].1 + "\t"@ + fs[6].0 + "="@ + fs[6].1;
    assert(tab_line(fs) == line);
    reveal_strlit("cpu_model");
    reveal_strlit("cpu_cores");
    reveal_strlit("cpu_threads");
    reveal_strlit("mem_total_kb");
    reveal_strlit("gpu_dgpu");
    reveal_strlit("gpu_igpu");
    reveal_strlit("simulated");
    reveal_strlit("=");
    reveal_strlit("\t");
    if simulate {
        reveal_strlit(
            "cpu_model=AMD Ryzen 9 7940HS w/ Radeon 780M Graphics\tcpu_cores=8\tcpu_threads=16\tmem_total_kb=31200000\tgpu_dgpu=NVIDIA GeForce RTX 4060 Laptop GPU\tgpu_igpu=AMD Radeon 780M\tsimulated=true",
        );
        reveal_strlit("AMD Ryzen 9 7940HS w/ Radeon 780M Graphics");
        reveal_strlit("8");
        reveal_strlit("16");
        reveal_strlit("31200000");
        reveal_strlit("NVIDIA GeForce RTX 4060 Laptop GPU");
        reveal_strlit("AMD Radeon 780M");
        reveal_strlit("true");
        assert(simulated_sysinfo_text() =~= line);
    } else {
        reveal_strlit("cpu_model=");
        assert("cpu_model="@ =~= "cpu_model"@ + "="@);
        reveal_strlit("\tcpu_cores=");
        lemma_tab_key("\tcpu_cores="@, "cpu_cores"@);
        reveal_strlit("\tcpu_threads=");
        lemma_tab_key("\tcpu_threads="@, "cpu_threads"@);
        reveal_strlit("\tmem_total_kb=");
        lemma_tab_key("\tmem_total_kb="@, "mem_total_kb"@);
        reveal_strlit("\tgpu_dgpu=");
        lemma_tab_key("\tgpu_dgpu="@, "gpu_dgpu"@);
        reveal_strlit("\tgpu_igpu=");
        lemma_tab_key("\tgpu_igpu="@, "gpu_igpu"@);
        reveal_strlit("\tsimulated=false");
        reveal_strlit("false");
        assert("\tsimulated=false"@ =~= "\t"@ + "simulated"@ + "="@ + "false"@);
        assert(sysinfo_text(simulate, f) =~= line);
    }
}

/// The client reads back every field of the daemon's machine line, in
/// order, exactly as the daemon wrote it, when the machine's names hold no
/// tab and no whitespace at either end.
pub proof fn law_client_reads_back_sysinfo(simulate: bool, f: MachineFacts)
    requires
        !simulate ==> tidy_name(f.cpu_model) && tidy_name(f.dgpu_name) && tidy_name(f.igpu_name),
    ensures
        sysinfo_fields_spec("ok "@ + sysinfo_text(simulate, f)) == sysinfo_fields(simulate, f),
{
    lemma_sysinfo_fields_tab(simulate, f);
    lemma_tab_line_read_back(sysinfo_fields(simulate, f));
    lemma_sysinfo_line_fields(simulate, f);
    let line = sysinfo_text(simulate, f);
    reveal_strlit("cpu_model=");
    reveal_strlit(
        "cpu_model=AMD Ryzen 9 7940HS w/ Radeon 780M Graphics\tcpu_cores=8\tcpu_threads=16\tmem_total_kb=31200000\tgpu_dgpu=NVIDIA GeForce RTX 4060 Laptop GPU\tgpu_igpu=AMD Radeon 780M\tsimulated=true",
    );
    assert(line[0] == 'c');
    lemma_strip_ok(line);
}

// ----------------------------------------------------------------------
// One line per reply.
// ----------------------------------------------------------------------

/// A name of the machine that holds no line break, where there is one.
pub open spec fn name_one_line(o: Option<String>) -> bool {
    match o {
        Some(s) => one_line(s@),
        None => true,
    }
}

/// The machine's names hold no line break.
pub open spec fn machine_one_line(f: MachineFacts) -> bool {
    &&& name_one_line(f.cpu_model)
    &&& name_one_line(f.dgpu_name)
    &&& name_one_line(f.igpu_name)
}

proof fn lemma_visible_one_line(s: Seq<char>)
    requires
        visible(s),
    ensures
        one_line(s),
{
    assert forall|i: int| 0 <= i < s.len() implies s[i] != '\n' by {
        assert(0x21 <= s[i] as u32);
    }
}

proof fn lemma_cat3(a: Seq<char>, b: Seq<char>, c: Seq<char>)
    requires
        one_line(a),
        one_line(b),
        one_line(c),
    ensures
        one_line(a + b + c),
{
    lemma_one_line_concat(a, b);
    lemma_one_line_concat(a + b, c);
}

proof fn lemma_fields_line_one_line(fs: Seq<(Seq<char>, Seq<char>)>)
    requires
        plain_fields(fs),
    ensures
        one_line(fields_line(fs)),
    decreases fs.len(),
{
    if fs.len() > 0 {
        let (k, v) = fs.last();
        assert(plain_fields(fs) ==> {
            &&& fs[fs.len() - 1].0.len() > 0
            &&& visible(fs[fs.len() - 1].0)
        });
        lemma_field_token(k, v);
        lemma_visible_one_line(k + "="@ + v);
        if fs.len() > 1 {
            let init = fs.drop_last();
            assert(plain_fields(init)) by {
                assert forall|i: int| 0 <= i < init.len() implies #[trigger] init[i] == fs[i] by {}
            }
            lemma_fields_line_one_line(init);
            reveal_strlit(" ");
            assert(one_line(" "@));
            lemma_cat3(fields_line(init), " "@, k + "="@ + v);
            assert(fields_line(fs) =~= fields_line(init) + " "@ + (k + "="@ + v));
        }
    }
}

proof fn lemma_tab_line_one_line(fs: Seq<(Seq<char>, Seq<char>)>)
    requires
        forall|i: int| 0 <= i < fs.len() ==> one_line((#[trigger] fs[i]).0) && one_line(fs[i].1),
    ensures
        one_line(tab_line(fs)),
    decreases fs.len(),
{
    if fs.len() > 0 {
        let (k, v) = fs.last();
        assert(one_line(fs[fs.len() - 1].0) && one_line(fs[fs.len() - 1].1));
        reveal_strlit("=");
        reveal_strlit("\t");
        assert(one_line("="@));
        assert(one_line("\t"@));
        lemma_cat3(k, "="@, v);
        if fs.len() > 1 {
            let init = fs.drop_last();
            assert forall|i: int| 0 <= i < init.len() implies one_line((#[trigger] init[i]).0)
                && one_line(init[i].1) by {
                assert(init[i] == fs[i]);
            }
            lemma_tab_line_one_line(init);
            lemma_cat3(tab_line(init), "\t"@, k + "="@ + v);
            assert(tab_line(fs) =~= tab_line(init) + "\t"@ + (k + "="@ + v));
        }
    }
}

proof fn lemma_dec_one_line(n: nat)
    ensures
        one_line(dec(n)),
{
    lemma_dec_digits(n);
    lemma_visible_one_line(dec(n));
}

/// Every refusal the policy gives is one line.
proof fn lemma_policy_one_line(id: DeviceId, op: RequestedOperation, allow: bool)
    ensures
        policy_verdict(id, op, allow) matches Err(e) ==> one_line(policy_message(e)),
{
    if let Err(e) = policy_verdict(id, op, allow) {
        reveal_strlit("battery health optimizer");
        reveal_strlit("keyboard lighting");
        reveal_strlit("logo LED");
        reveal_strlit("logo lighting");
        reveal_strlit("performance profiles");
        reveal_strlit("GPU boost level");
        reveal_strlit("CPU boost level");
        reveal_strlit(" is not supported on this device");
        reveal_strlit(" is experimental and requires explicit opt-in");
        match e {
            PolicyError::UnsupportedDevice(d) => {
                reveal_strlit("unsupported device ");
                reveal_strlit("; refusing to send a hardware command");
                lemma_hex_fixed_visible(d.vendor_id as nat, 4);
                lemma_hex_fixed_visible(d.product_id as nat, 4);
                lemma_visible_one_line(hex_fixed(d.vendor_id as nat, 4));
                lemma_visible_one_line(hex_fixed(d.product_id as nat, 4));
                assert(one_line(seq![':']));
                lemma_cat3(hex_fixed(d.vendor_id as nat, 4), seq![':'], hex_fixed(d.product_id as nat, 4));
                assert(one_line("unsupported device "@));
                assert(one_line("; refusing to send a hardware command"@));
                lemma_cat3("unsupported device "@, crate::usb_id_text(d), "; refusing to send a hardware command"@);
            },
            PolicyError::FanOutOfRange { requested, range } => {
                reveal_strlit("manual fan speed ");
                reveal_strlit(" RPM is outside the verified ");
                reveal_strlit("\u{2013}");
                reveal_strlit(" RPM range");
                assert(one_line("manual fan speed "@));
                assert(one_line(" RPM is outside the verified "@));
                assert(one_line("\u{2013}"@));
                assert(one_line(" RPM range"@));
                lemma_dec_one_line(requested as nat);
                lemma_dec_one_line(range.min_rpm as nat);
                lemma_dec_one_line(range.max_rpm as nat);
                lemma_cat3("manual fan speed "@, dec(requested as nat), " RPM is outside the verified "@);
                lemma_cat3("manual fan speed "@ + dec(requested as nat) + " RPM is outside the verified "@, dec(range.min_rpm as nat), "\u{2013}"@);
                lemma_cat3("manual fan speed "@ + dec(requested as nat) + " RPM is outside the verified "@ + dec(range.min_rpm as nat) + "\u{2013}"@, dec(range.max_rpm as nat), " RPM range"@);
            },
            PolicyError::InvalidChargeLimit(limit) => {
                reveal_strlit("battery health limit ");
                reveal_strlit("% is invalid; choose a value from 50% through 80%");
                assert(one_line("battery health limit "@));
                assert(one_line("% is invalid; choose a value from 50% through 80%"@));
                lemma_dec_one_line(limit as nat);
                lemma_cat3("battery health limit "@, dec(limit as nat), "% is invalid; choose a value from 50% through 80%"@);
            },
            PolicyError::InvalidBrightness(value) => {
                reveal_strlit("brightness ");
                reveal_strlit("% is invalid; choose 0% through 100%");
                assert(one_line("brightness "@));
                assert(one_line("% is invalid; choose 0% through 100%"@));
                lemma_dec_one_line(value as nat);
                lemma_cat3("brightness "@, dec(value as nat), "% is invalid; choose 0% through 100%"@);
            },
            PolicyError::FeatureUnsupported(f) => {
                assert(one_line(f@));
                assert(one_line(" is not supported on this device"@));
                lemma_one_line_concat(f@, " is not supported on this device"@);
            },
            PolicyError::ExperimentalFeatureDisabled(f) => {
                assert(one_line(f@));
                assert(one_line(" is experimental and requires explicit opt-in"@));
                lemma_one_line_concat(f@, " is experimental and requires explicit opt-in"@);
            },
        }
    }
}

proof fn lemma_level_debug_one_line(l: BoostLevel)
    ensures
        one_line(level_debug(l)),
{
    reveal_strlit("Low");
    reveal_strlit("Medium");
    reveal_strlit("High");
    reveal_strlit("Boost");
    assert(one_line(level_debug(l)));
}

proof fn lemma_operation_debug_one_line(op: RequestedOperation)
    ensures
        one_line(operation_debug(op)),
{
    reveal_strlit("Fan(Auto)");
    reveal_strlit("Fan(Manual(");
    reveal_strlit("))");
    reveal_strlit("BatteryHealthLimit(");
    reveal_strlit(")");
    reveal_strlit("BatteryHealthOff");
    reveal_strlit("Profile(");
    reveal_strlit("KeyboardBrightness(");
    reveal_strlit("KeyboardEffect(");
    reveal_strlit("Logo(");
    assert(one_line("Fan(Manual("@));
    assert(one_line("))"@));
    assert(one_line("BatteryHealthLimit("@));
    assert(one_line(")"@));
    assert(one_line("Profile("@));
    assert(one_line("KeyboardBrightness("@));
    assert(one_line("KeyboardEffect("@));
    assert(one_line("Logo("@));
    match op {
        RequestedOperation::Fan(FanMode::Auto) => {
            assert(one_line("Fan(Auto)"@));
        },
        RequestedOperation::Fan(FanMode::Manual(rpm)) => {
            lemma_dec_one_line(rpm as nat);
            lemma_cat3("Fan(Manual("@, dec(rpm as nat), "))"@);
        },
        RequestedOperation::BatteryHealthLimit(limit) => {
            lemma_dec_one_line(limit as nat);
            lemma_cat3("BatteryHealthLimit("@, dec(limit as nat), ")"@);
        },
        RequestedOperation::BatteryHealthOff => {
            assert(one_line("BatteryHealthOff"@));
        },
        RequestedOperation::Profile(p) => {
            reveal_strlit("Silent");
            reveal_strlit("Balanced");
            reveal_strlit("Gaming");
            match p {
                Profile::Custom { cpu, gpu } => {
                    reveal_strlit("Custom { cpu: ");
                    reveal_strlit(", gpu: ");
                    reveal_strlit(" }");
                    assert(one_line("Custom { cpu: "@));
                    assert(one_line(", gpu: "@));
                    assert(one_line(" }"@));
                    lemma_level_debug_one_line(cpu);
                    lemma_level_debug_one_line(gpu);
                    lemma_cat3("Custom { cpu: "@, level_debug(cpu), ", gpu: "@);
                    lemma_cat3("Custom { cpu: "@ + level_debug(cpu) + ", gpu: "@, level_debug(gpu), " }"@);
                },
                _ => {},
            }
            assert(one_line(profile_debug(p)));
            lemma_cat3("Profile("@, profile_debug(p), ")"@);
        },
        RequestedOperation::KeyboardBrightness(b) => {
            lemma_dec_one_line(b as nat);
            lemma_cat3("KeyboardBrightness("@, dec(b as nat), ")"@);
        },
        RequestedOperation::KeyboardEffect(e) => {
            reveal_strlit("Off");
            reveal_strlit("Spectrum");
            reveal_strlit("Wave");
            match e {
                LightingEffect::Static { red, green, blue } => {
                    reveal_strlit("Static { red: ");
                    reveal_strlit(", green: ");
                    reveal_strlit(", blue: ");
                    reveal_strlit(" }");
                    assert(one_line("Static { red: "@));
                    assert(one_line(", green: "@));
                    assert(one_line(", blue: "@));
                    assert(one_line(" }"@));
                    lemma_dec_one_line(red as nat);
                    lemma_dec_one_line(green as nat);
                    lemma_dec_one_line(blue as nat);
                    lemma_cat3("Static { red: "@, dec(red as nat), ", green: "@);
                    lemma_cat3("Static { red: "@ + dec(red as nat) + ", green: "@, dec(green as nat), ", blue: "@);
                    lemma_cat3("Static { red: "@ + dec(red as nat) + ", green: "@ + dec(green as nat) + ", blue: "@, dec(blue as nat), " }"@);
                },
                _ => {},
            }
            assert(one_line(effect_debug(e)));
            lemma_cat3("KeyboardEffect("@, effect_debug(e), ")"@);
        },
        RequestedOperation::Logo(m) => {
            reveal_strlit("Off");
            reveal_strlit("Static");
            reveal_strlit("Breathing");
            assert(one_line(logo_debug(m)));
            lemma_cat3("Logo("@, logo_debug(m), ")"@);
        },
    }
}

proof fn lemma_ok_prefix(lit: Seq<char>, rest: Seq<char>)
    requires
        lit.len() >= 2,
        lit[0] == 'o',
        lit[1] == 'k',
    ensures
        has_prefix(lit + rest, "ok"@),
{
    reveal_strlit("ok");
    assert((lit + rest).subrange(0, 2) =~= "ok"@);
}

proof fn lemma_err_prefix(rest: Seq<char>)
    ensures
        has_prefix("err "@ + rest, "err"@),
{
    reveal_strlit("err ");
    reveal_strlit("err");
    assert(("err "@ + rest).subrange(0, 3) =~= "err"@);
}

proof fn lemma_sysinfo_one_line(simulate: bool, f: MachineFacts)
    requires
        !simulate ==> machine_one_line(f),
    ensures
        one_line(sysinfo_text(simulate, f)),
{
    let fs = sysinfo_fields(simulate, f);
    lemma_sysinfo_line_fields(simulate, f);
    reveal_strlit("cpu_model");
    reveal_strlit("cpu_cores");
    reveal_strlit("cpu_threads");
    reveal_strlit("mem_total_kb");
    reveal_strlit("gpu_dgpu");
    reveal_strlit("gpu_igpu");
    reveal_strlit("simulated");
    reveal_strlit("Unknown");
    reveal_strlit("none");
    reveal_strlit("false");
    reveal_strlit("true");
    reveal_strlit("8");
    reveal_strlit("16");
    reveal_strlit("31200000");
    reveal_strlit("AMD Ryzen 9 7940HS w/ Radeon 780M Graphics");
    reveal_strlit("NVIDIA GeForce RTX 4060 Laptop GPU");
    reveal_strlit("AMD Radeon 780M");
    assert(one_line("Unknown"@));
    assert(one_line("none"@));
    if !simulate {
        match f.cpu_cores {
            Some(c) => lemma_dec_one_line(c as nat),
            None => if let Some(c) = f.cpu_threads {
                lemma_dec_one_line(c as nat);
            },
        }
        if let Some(c) = f.cpu_threads {
            lemma_dec_one_line(c as nat);
        }
        lemma_count_visible(f.mem_total_kb);
        lemma_visible_one_line(opt_count_text(f.mem_total_kb));
    }
    assert forall|i: int| 0 <= i < fs.len() implies one_line((#[trigger] fs[i]).0) && one_line(
        fs[i].1,
    ) by {}
    lemma_tab_line_one_line(fs);
}

proof fn lemma_status_one_line(v: DaemonView)
    ensures
        has_prefix(status_text(v), "ok"@),
        visible(v.backend_name) ==> one_line(status_text(v)),
{
    reveal_strlit("ok ");
    assert(one_line("ok "@));
    lemma_status_line_fields(v);
    lemma_ok_prefix("ok "@, fields_line(status_fields(v)));
    if visible(v.backend_name) {
        lemma_status_fields_plain(v);
        lemma_fields_line_one_line(status_fields(v));
        lemma_one_line_concat("ok "@, fields_line(status_fields(v)));
    }
}

proof fn lemma_fan_rule_one_line(v: DaemonView, on_ac: bool, fan: Option<FanMode>)
    ensures
        has_prefix(fan_rule_reply(v, on_ac, fan).0, "ok"@) || has_prefix(
            fan_rule_reply(v, on_ac, fan).0,
            "err"@,
        ),
        one_line(fan_rule_reply(v, on_ac, fan).0),
{
    reveal_strlit("ok ");
    reveal_strlit("ok device=");
    reveal_strlit("ok automation ");
    reveal_strlit("ok kbd-automation ");
    reveal_strlit("=");
    reveal_strlit("ac");
    reveal_strlit("battery");
    reveal_strlit("err ");
    assert(one_line("ok "@));
    assert(one_line("="@));
    assert(one_line("err "@));
    assert(one_line(source_text(true)));
    assert(one_line(source_text(false)));
        let refused = match fan {
            Some(FanMode::Manual(rpm)) => policy_verdict(
                v.device.id,
                RequestedOperation::Fan(FanMode::Manual(rpm)),
                v.allow_experimental,
            ),
            _ => Ok(()),
        };
        match refused {
            Err(e) => {
                lemma_err_prefix(policy_message(e));
                if let Some(FanMode::Manual(rpm)) = fan {
                    lemma_policy_one_line(
                        v.device.id,
                        RequestedOperation::Fan(FanMode::Manual(rpm)),
                        v.allow_experimental,
                    );
                }
                lemma_one_line_concat("err "@, policy_message(e));
            },
            Ok(_) => {
                let rest = source_text(on_ac) + "="@ + opt_fan_text(fan);
                assert(fan_rule_reply(v, on_ac, fan).0 =~= "ok automation "@ + rest);
                lemma_ok_prefix("ok automation "@, rest);
                lemma_fan_visible(fan);
                lemma_visible_one_line(opt_fan_text(fan));
                assert(one_line("ok automation "@));
                lemma_cat3("ok automation "@, source_text(on_ac), "="@);
                lemma_one_line_concat("ok automation "@ + source_text(on_ac) + "="@, opt_fan_text(fan));
                assert(fan_rule_reply(v, on_ac, fan).0 =~= "ok automation "@ + source_text(on_ac) + "="@ + opt_fan_text(fan));
            },
        }
}

proof fn lemma_kbd_rule_one_line(v: DaemonView, on_ac: bool, brightness: Option<u8>)
    ensures
        has_prefix(kbd_rule_reply(v, on_ac, brightness).0, "ok"@) || has_prefix(
            kbd_rule_reply(v, on_ac, brightness).0,
            "err"@,
        ),
        one_line(kbd_rule_reply(v, on_ac, brightness).0),
{
    reveal_strlit("ok ");
    reveal_strlit("ok device=");
    reveal_strlit("ok automation ");
    reveal_strlit("ok kbd-automation ");
    reveal_strlit("=");
    reveal_strlit("ac");
    reveal_strlit("battery");
    reveal_strlit("err ");
    assert(one_line("ok "@));
    assert(one_line("="@));
    assert(one_line("err "@));
    assert(one_line(source_text(true)));
    assert(one_line(source_text(false)));
        let refused = match brightness {
            Some(b) => policy_verdict(
                v.device.id,
                RequestedOperation::KeyboardBrightness(b),
                v.allow_experimental,
            ),
            None => Ok(()),
        };
        match refused {
            Err(e) => {
                lemma_err_prefix(policy_message(e));
                if let Some(b) = brightness {
                    lemma_policy_one_line(
                        v.device.id,
                        RequestedOperation::KeyboardBrightness(b),
                        v.allow_experimental,
                    );
                }
                lemma_one_line_concat("err "@, policy_message(e));
            },
            Ok(_) => {
                reveal_strlit("off");
                lemma_seq_visible("off"@);
                let t = opt_byte_text(brightness, "off"@);
                let rest = source_text(on_ac) + "="@ + t;
                assert(kbd_rule_reply(v, on_ac, brightness).0 =~= "ok kbd-automation "@ + rest);
                lemma_ok_prefix("ok kbd-automation "@, rest);
                lemma_byte_visible(brightness, "off"@);
                lemma_visible_one_line(t);
                assert(one_line("ok kbd-automation "@));
                lemma_cat3("ok kbd-automation "@, source_text(on_ac), "="@);
                lemma_one_line_concat("ok kbd-automation "@ + source_text(on_ac) + "="@, t);
                assert(kbd_rule_reply(v, on_ac, brightness).0 =~= "ok kbd-automation "@ + source_text(on_ac) + "="@ + t);
            },
        }
}

proof fn lemma_control_one_line(v: DaemonView, req: Request)
    requires
        !(req is Operation),
    ensures
        has_prefix(control_reply(v, req).0, "ok"@) || has_prefix(control_reply(v, req).0, "err"@),
        visible(v.backend_name) && machine_one_line(v.machine) ==> one_line(
            control_reply(v, req).0,
        ),
{
    reveal_strlit("ok ");
    reveal_strlit("ok pong");
    assert(one_line("ok "@));
    match req {
        Request::Ping => {
            lemma_ok_prefix("ok pong"@, Seq::empty());
            assert("ok pong"@ + Seq::<char>::empty() =~= "ok pong"@);
            assert(one_line("ok pong"@));
        },
        Request::Status => {
            lemma_status_one_line(v);
        },
        Request::Telemetry => {
            lemma_ok_prefix("ok "@, telemetry_line(v.telemetry));
            lemma_telemetry_fields_plain(v.telemetry);
            lemma_telemetry_line_fields(v.telemetry);
            lemma_fields_line_one_line(telemetry_fields(v.telemetry));
            lemma_one_line_concat("ok "@, telemetry_line(v.telemetry));
        },
        Request::SysInfo => {
            lemma_ok_prefix("ok "@, sysinfo_text(v.simulate_telemetry, v.machine));
            if machine_one_line(v.machine) {
                lemma_sysinfo_one_line(v.simulate_telemetry, v.machine);
                lemma_one_line_concat("ok "@, sysinfo_text(v.simulate_telemetry, v.machine));
            }
        },
        Request::Automation { on_ac, fan } => {
            lemma_fan_rule_one_line(v, on_ac, fan);
        },
        Request::KbdAutomation { on_ac, brightness } => {
            lemma_kbd_rule_one_line(v, on_ac, brightness);
        },
        Request::Operation(_) => {},
    }
}

proof fn lemma_applied_one_line(op: RequestedOperation, name: Seq<char>)
    requires
        visible(name),
    ensures
        has_prefix(applied_text(op, name), "ok"@),
        one_line(applied_text(op, name)),
{
    reveal_strlit("ok applied ");
    reveal_strlit(" via ");
    reveal_strlit(" backend");
    assert(one_line("ok applied "@));
    assert(one_line(" via "@));
    assert(one_line(" backend"@));
    lemma_operation_debug_one_line(op);
    lemma_visible_one_line(name);
    lemma_cat3("ok applied "@, operation_debug(op), " via "@);
    lemma_cat3("ok applied "@ + operation_debug(op) + " via "@, name, " backend"@);
    let rest = operation_debug(op) + " via "@ + name + " backend"@;
    assert(applied_text(op, name) =~= "ok applied "@ + rest);
    lemma_ok_prefix("ok applied "@, rest);
}

proof fn lemma_apply_reply_one_line(v: DaemonView, op: RequestedOperation, r: Seq<char>, w: DaemonView)
    requires
        apply_relation(v, op, r, w),
    ensures
        has_prefix(r, "ok"@) || has_prefix(r, "err"@),
        visible(v.backend_name) && (policy_verdict(v.device.id, op, v.allow_experimental) is Ok
            ==> has_prefix(r, "ok"@)) ==> one_line(r),
{
    reveal_strlit("err ");
    assert(one_line("err "@));
    reveal_strlit("ok applied ");
    match policy_verdict(v.device.id, op, v.allow_experimental) {
        Err(e) => {
            lemma_err_prefix(policy_message(e));
            lemma_policy_one_line(v.device.id, op, v.allow_experimental);
            lemma_one_line_concat("err "@, policy_message(e));
        },
        Ok(_) => {
            if r == applied_text(op, v.backend_name) {
                let rest = operation_debug(op) + " via "@ + v.backend_name + " backend"@;
                assert(applied_text(op, v.backend_name) =~= "ok applied "@ + rest);
                lemma_ok_prefix("ok applied "@, rest);
                if visible(v.backend_name) {
                    lemma_applied_one_line(op, v.backend_name);
                }
            } else {
                reveal_strlit("err backend: ");
                reveal_strlit("err");
                reveal_strlit("ok");
                assert(r.subrange(0, 13) == "err backend: "@);
                assert(r.subrange(0, 3) =~= "err"@);
                assert(r.subrange(0, 13)[0] == r[0]);
                if has_prefix(r, "ok"@) {
                    assert(r.subrange(0, 2)[0] == r[0]);
                }
            }
        },
    }
}

/// Every reply is one response line that starts with `ok` or `err`: it
/// holds no line break when the backend's name is one printable word, the
/// machine's names hold no line break, a request that does not parse is
/// answered with a one-line message, and an operation that reaches the
/// backend was accepted (a backend's own failure text is its own).
pub proof fn law_one_line_per_reply(old: DaemonView, line: Seq<char>, r: Seq<char>, new: DaemonView)
    requires
        line_relation(old, line, r, new),
    ensures
        has_prefix(r, "ok"@) || has_prefix(r, "err"@),
        visible(old.backend_name) && machine_one_line(old.machine) && (request_of(line) matches Err(
            m,
        ) ==> one_line(m)) && (line_reaches_backend(old, line) ==> has_prefix(r, "ok"@))
            ==> one_line(r),
{
    match request_of(line) {
        Err(m) => {
            reveal_strlit("err ");
            assert(one_line("err "@));
            lemma_err_prefix(m);
            if one_line(m) {
                lemma_one_line_concat("err "@, m);
            }
        },
        Ok(Request::Operation(op)) => {
            lemma_apply_reply_one_line(old, op, r, new);
        },
        Ok(req) => {
            lemma_control_one_line(old, req);
        },
    }
}

} // verus!
