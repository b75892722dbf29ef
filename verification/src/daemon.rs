//! Platform-neutral daemon core: request handling, policy enforcement, and
//! the automatic-fan failsafe.  The socket transport feeds it request lines,
//! power-source changes and fresh telemetry; everything it decides is here.
//!
//! What the daemon hands to its backend is recorded in a ghost log, so the
//! contracts can say exactly which operation, under which EC context, reached
//! the hardware layer, whatever the backend then answered.

use vstd::prelude::*;
use vstd::string::*;

use crate::backend::Backend;
use crate::config::{empty_state, BatteryHealth, PersistedState};
use crate::ipc::{
    describe_effect, describe_fan_mode, describe_logo, describe_profile, effect_text,
    fan_mode_text, logo_text, parse_request, profile_text, request_of, Request,
};
use crate::telemetry::{
    bool_text, push_bool, simulated_spec, simulated_telemetry, sysinfo, sysinfo_text,
    telemetry_line, unavailable_spec, unknown_machine, MachineFacts, Telemetry,
};
use crate::readback::{law_one_line_per_reply, machine_one_line};
use crate::text::{dec, one_line, push_dec, visible};
use crate::{
    policy_message, policy_verdict, push_usb_id, usb_id_text, validate_operation, BoostLevel,
    DeviceCapabilities, EcContext, FanMode, LightingEffect, LogoMode, Profile, RequestedOperation,
};

verus! {

// ----------------------------------------------------------------------
// The `{:?}` text of an operation, as the derived `Debug` prints it.
// ----------------------------------------------------------------------

pub open spec fn level_debug(level: BoostLevel) -> Seq<char> {
    match level {
        BoostLevel::Low => "Low"@,
        BoostLevel::Medium => "Medium"@,
        BoostLevel::High => "High"@,
        BoostLevel::Boost => "Boost"@,
    }
}

pub open spec fn profile_debug(profile: Profile) -> Seq<char> {
    match profile {
        Profile::Silent => "Silent"@,
        Profile::Balanced => "Balanced"@,
        Profile::Gaming => "Gaming"@,
        Profile::Custom { cpu, gpu } => "Custom { cpu: "@ + level_debug(cpu) + ", gpu: "@
            + level_debug(gpu) + " }"@,
    }
}

pub open spec fn effect_debug(effect: LightingEffect) -> Seq<char> {
    match effect {
        LightingEffect::Off => "Off"@,
        LightingEffect::Static { red, green, blue } => "Static { red: "@ + dec(red as nat)
            + ", green: "@ + dec(green as nat) + ", blue: "@ + dec(blue as nat) + " }"@,
        LightingEffect::Spectrum => "Spectrum"@,
        LightingEffect::Wave => "Wave"@,
    }
}

pub open spec fn logo_debug(mode: LogoMode) -> Seq<char> {
    match mode {
        LogoMode::Off => "Off"@,
        LogoMode::Static => "Static"@,
        LogoMode::Breathing => "Breathing"@,
    }
}

pub open spec fn operation_debug(op: RequestedOperation) -> Seq<char> {
    match op {
        RequestedOperation::Fan(FanMode::Auto) => "Fan(Auto)"@,
        RequestedOperation::Fan(FanMode::Manual(rpm)) => "Fan(Manual("@ + dec(rpm as nat)
            + "))"@,
        RequestedOperation::BatteryHealthLimit(limit) => "BatteryHealthLimit("@ + dec(
            limit as nat,
        ) + ")"@,
        RequestedOperation::BatteryHealthOff => "BatteryHealthOff"@,
        RequestedOperation::Profile(p) => "Profile("@ + profile_debug(p) + ")"@,
        RequestedOperation::KeyboardBrightness(b) => "KeyboardBrightness("@ + dec(b as nat)
            + ")"@,
        RequestedOperation::KeyboardEffect(e) => "KeyboardEffect("@ + effect_debug(e) + ")"@,
        RequestedOperation::Logo(m) => "Logo("@ + logo_debug(m) + ")"@,
    }
}

fn level_debug_str(level: BoostLevel) -> (r: &'static str)
    ensures
        r@ == level_debug(level),
{
    match level {
        BoostLevel::Low => "Low",
        BoostLevel::Medium => "Medium",
        BoostLevel::High => "High",
        BoostLevel::Boost => "Boost",
    }
}

fn push_profile_debug(s: &mut String, profile: Profile)
    ensures
        final(s)@ == old(s)@ + profile_debug(profile),
{
    match profile {
        Profile::Silent => s.append("Silent"),
        Profile::Balanced => s.append("Balanced"),
        Profile::Gaming => s.append("Gaming"),
        Profile::Custom { cpu, gpu } => {
            s.append("Custom { cpu: ");
            s.append(level_debug_str(cpu));
            s.append(", gpu: ");
            s.append(level_debug_str(gpu));
            s.append(" }");
            assert(final(s)@ =~= old(s)@ + profile_debug(profile));
        },
    }
}

fn push_effect_debug(s: &mut String, effect: LightingEffect)
    ensures
        final(s)@ == old(s)@ + effect_debug(effect),
{
    match effect {
        LightingEffect::Off => s.append("Off"),
        LightingEffect::Static { red, green, blue } => {
            s.append("Static { red: ");
            push_dec(s, red as u64);
            s.append(", green: ");
            push_dec(s, green as u64);
            s.append(", blue: ");
            push_dec(s, blue as u64);
            s.append(" }");
            assert(final(s)@ =~= old(s)@ + effect_debug(effect));
        },
        LightingEffect::Spectrum => s.append("Spectrum"),
        LightingEffect::Wave => s.append("Wave"),
    }
}

fn logo_debug_str(mode: LogoMode) -> (r: &'static str)
    ensures
        r@ == logo_debug(mode),
{
    match mode {
        LogoMode::Off => "Off",
        LogoMode::Static => "Static",
        LogoMode::Breathing => "Breathing",
    }
}

/// Appends the `{:?}` text of an operation.
pub fn push_operation_debug(s: &mut String, op: RequestedOperation)
    ensures
        final(s)@ == old(s)@ + operation_debug(op),
{
    match op {
        RequestedOperation::Fan(FanMode::Auto) => s.append("Fan(Auto)"),
        RequestedOperation::Fan(FanMode::Manual(rpm)) => {
            s.append("Fan(Manual(");
            push_dec(s, rpm as u64);
            s.append("))");
        },
        RequestedOperation::BatteryHealthLimit(limit) => {
            s.append("BatteryHealthLimit(");
            push_dec(s, limit as u64);
            s.append(")");
        },
        RequestedOperation::BatteryHealthOff => s.append("BatteryHealthOff"),
        RequestedOperation::Profile(p) => {
            s.append("Profile(");
            push_profile_debug(s, p);
            s.append(")");
        },
        RequestedOperation::KeyboardBrightness(b) => {
            s.append("KeyboardBrightness(");
            push_dec(s, b as u64);
            s.append(")");
        },
        RequestedOperation::KeyboardEffect(e) => {
            s.append("KeyboardEffect(");
            push_effect_debug(s, e);
            s.append(")");
        },
        RequestedOperation::Logo(m) => {
            s.append("Logo(");
            s.append(logo_debug_str(m));
            s.append(")");
        },
    }
    assert(final(s)@ =~= old(s)@ + operation_debug(op));
}

// ----------------------------------------------------------------------
// The daemon and its model.
// ----------------------------------------------------------------------

/// What a daemon is, as the contracts see it.
pub ghost struct DaemonView {
    pub device: DeviceCapabilities,
    pub backend_name: Seq<char>,
    pub allow_experimental: bool,
    pub fan_mode: FanMode,
    pub profile: Profile,
    pub simulate_telemetry: bool,
    pub state: PersistedState,
    pub dirty: bool,
    pub telemetry: Telemetry,
    pub machine: MachineFacts,
    /// Every operation handed to the backend so far, with its EC context.
    pub handed: Seq<(RequestedOperation, EcContext)>,
}

pub struct Daemon<B: Backend> {
    device: DeviceCapabilities,
    backend: B,
    backend_name: &'static str,
    allow_experimental: bool,
    fan_mode: FanMode,
    profile: Profile,
    simulate_telemetry: bool,
    state: PersistedState,
    dirty: bool,
    telemetry: Telemetry,
    machine: MachineFacts,
    handed: Ghost<Seq<(RequestedOperation, EcContext)>>,
}

impl<B: Backend> View for Daemon<B> {
    type V = DaemonView;

    closed spec fn view(&self) -> DaemonView {
        DaemonView {
            device: self.device,
            backend_name: self.backend_name@,
            allow_experimental: self.allow_experimental,
            fan_mode: self.fan_mode,
            profile: self.profile,
            simulate_telemetry: self.simulate_telemetry,
            state: self.state,
            dirty: self.dirty,
            telemetry: self.telemetry,
            machine: self.machine,
            handed: self.handed@,
        }
    }
}

/// The EC state the wire encoding needs alongside any operation.
pub open spec fn context_of(v: DaemonView) -> EcContext {
    EcContext { profile: v.profile, fan_manual: v.fan_mode is Manual }
}

/// The daemon after one more operation was handed to the backend.
pub open spec fn handing(v: DaemonView, op: RequestedOperation) -> DaemonView {
    DaemonView { handed: v.handed.push((op, context_of(v))), ..v }
}

/// What an operation the backend accepted changes: the live mode it sets
/// and the persisted setting, which is then due to be written.
pub open spec fn applied_effect(v: DaemonView, op: RequestedOperation) -> DaemonView {
    let s = v.state;
    match op {
        RequestedOperation::Fan(mode) => DaemonView {
            fan_mode: mode,
            state: PersistedState { fan: Some(mode), ..s },
            dirty: true,
            ..v
        },
        RequestedOperation::BatteryHealthLimit(limit) => DaemonView {
            state: PersistedState { battery_health: BatteryHealth::Limit(limit), ..s },
            dirty: true,
            ..v
        },
        RequestedOperation::BatteryHealthOff => DaemonView {
            state: PersistedState { battery_health: BatteryHealth::Off, ..s },
            dirty: true,
            ..v
        },
        RequestedOperation::Profile(p) => DaemonView {
            profile: p,
            state: PersistedState { profile: Some(p), ..s },
            dirty: true,
            ..v
        },
        RequestedOperation::KeyboardBrightness(b) => DaemonView {
            state: PersistedState { kbd_brightness: Some(b), ..s },
            dirty: true,
            ..v
        },
        RequestedOperation::KeyboardEffect(e) => DaemonView {
            state: PersistedState { kbd_effect: Some(e), ..s },
            dirty: true,
            ..v
        },
        RequestedOperation::Logo(m) => DaemonView {
            state: PersistedState { logo: Some(m), ..s },
            dirty: true,
            ..v
        },
    }
}

/// The reply to an operation the backend accepted.
pub open spec fn applied_text(op: RequestedOperation, backend_name: Seq<char>) -> Seq<char> {
    "ok applied "@ + operation_debug(op) + " via "@ + backend_name + " backend"@
}

pub open spec fn has_prefix(s: Seq<char>, p: Seq<char>) -> bool {
    p.len() <= s.len() && s.subrange(0, p.len() as int) == p
}

/// One operation through the daemon: refused by the policy with its
/// message and no effect; otherwise handed to the backend under the current
/// context, and then either applied (the backend accepted) or reported as a
/// backend failure with nothing else changed.
pub open spec fn apply_relation(
    old: DaemonView,
    op: RequestedOperation,
    r: Seq<char>,
    new: DaemonView,
) -> bool {
    match policy_verdict(old.device.id, op, old.allow_experimental) {
        Err(e) => r == "err "@ + policy_message(e) && new == old,
        Ok(_) => {
            let sent = handing(old, op);
            ||| new == applied_effect(sent, op) && r == applied_text(op, old.backend_name)
            ||| new == sent && has_prefix(r, "err backend: "@)
        },
    }
}


/// Where one operation leaves the daemon, given whether the backend
/// accepted it (which matters only once the policy admits it).
pub open spec fn step_view(v: DaemonView, op: RequestedOperation, accepted: bool) -> DaemonView {
    match policy_verdict(v.device.id, op, v.allow_experimental) {
        Err(_) => v,
        Ok(_) => if accepted {
            applied_effect(handing(v, op), op)
        } else {
            handing(v, op)
        },
    }
}

/// The reply to one operation, given whether the backend accepted it.
pub open spec fn step_reply(v: DaemonView, op: RequestedOperation, accepted: bool, r: Seq<char>) -> bool {
    match policy_verdict(v.device.id, op, v.allow_experimental) {
        Err(e) => r == "err "@ + policy_message(e),
        Ok(_) => if accepted {
            r == applied_text(op, v.backend_name)
        } else {
            has_prefix(r, "err backend: "@)
        },
    }
}

/// The backend's log of accepted operations after one operation.
pub open spec fn step_log(
    v: DaemonView,
    op: RequestedOperation,
    accepted: bool,
    log: (Seq<RequestedOperation>, Seq<EcContext>),
) -> (Seq<RequestedOperation>, Seq<EcContext>) {
    if policy_verdict(v.device.id, op, v.allow_experimental) is Ok && accepted {
        (log.0.push(op), log.1.push(context_of(v)))
    } else {
        log
    }
}

/// One operation through the daemon `v` and its backend `b0`, leaving
/// them as `w` and `b1`: `accepted` tells whether the backend accepted it,
/// which a backend that accepts everything always does; a refused
/// operation leaves the backend untouched.
pub open spec fn op_step<B: Backend>(
    v: DaemonView,
    b0: B,
    op: RequestedOperation,
    accepted: bool,
    r: Seq<char>,
    w: DaemonView,
    b1: B,
) -> bool {
    &&& w == step_view(v, op, accepted)
    &&& step_reply(v, op, accepted, r)
    &&& if policy_verdict(v.device.id, op, v.allow_experimental) is Ok {
        &&& b1.obeys_backend_spec() == b0.obeys_backend_spec()
        &&& b0.obeys_backend_spec() ==> {
            &&& b1.name_spec() == b0.name_spec()
            &&& b1.accepts_all() == b0.accepts_all()
            &&& b1.accepted_log() == step_log(v, op, accepted, b0.accepted_log())
            &&& (b0.accepts_all() ==> accepted)
        }
    } else {
        b1 == b0
    }
}

/// The daemon after `ops` in turn, `acc[i]` telling whether the backend
/// accepted `ops[i]`.
pub open spec fn run_view(v: DaemonView, ops: Seq<RequestedOperation>, acc: Seq<bool>) -> DaemonView
    decreases ops.len(),
{
    if ops.len() == 0 {
        v
    } else {
        step_view(run_view(v, ops.drop_last(), acc), ops.last(), acc[ops.len() - 1])
    }
}

/// The backend's log after `ops` in turn.
pub open spec fn run_log(
    v: DaemonView,
    ops: Seq<RequestedOperation>,
    acc: Seq<bool>,
    log: (Seq<RequestedOperation>, Seq<EcContext>),
) -> (Seq<RequestedOperation>, Seq<EcContext>)
    decreases ops.len(),
{
    if ops.len() == 0 {
        log
    } else {
        step_log(
            run_view(v, ops.drop_last(), acc),
            ops.last(),
            acc[ops.len() - 1],
            run_log(v, ops.drop_last(), acc, log),
        )
    }
}

/// `ops` through the daemon `v` and its backend `b0` in turn, with the
/// replies `rs`, leaving them as `w` and `b1`.
pub open spec fn ops_run<B: Backend>(
    v: DaemonView,
    b0: B,
    ops: Seq<RequestedOperation>,
    acc: Seq<bool>,
    rs: Seq<Seq<char>>,
    w: DaemonView,
    b1: B,
) -> bool {
    &&& acc.len() == ops.len()
    &&& rs.len() == ops.len()
    &&& w == run_view(v, ops, acc)
    &&& forall|i: int|
        0 <= i < ops.len() ==> step_reply(run_view(v, ops.take(i), acc), ops[i], acc[i], #[trigger] rs[i])
    &&& b1.obeys_backend_spec() == b0.obeys_backend_spec()
    &&& b0.obeys_backend_spec() ==> {
        &&& forall|i: int|
            0 <= i < ops.len() ==> (b0.accepts_all() && policy_verdict(
                v.device.id,
                ops[i],
                v.allow_experimental,
            ) is Ok ==> #[trigger] acc[i])
        &&& b1.name_spec() == b0.name_spec()
        &&& b1.accepts_all() == b0.accepts_all()
        &&& b1.accepted_log() == run_log(v, ops, acc, b0.accepted_log())
    }
}

/// Replies joined by `"; "`.
pub open spec fn joined(rs: Seq<Seq<char>>) -> Seq<char>
    decreases rs.len(),
{
    if rs.len() == 0 {
        Seq::empty()
    } else if rs.len() == 1 {
        rs[0]
    } else {
        joined(rs.drop_last()) + "; "@ + rs.last()
    }
}

/// The texts of `v`.
pub open spec fn string_views(v: Seq<String>) -> Seq<Seq<char>> {
    v.map_values(|s: String| s@)
}

/// Appends the replies, joined by `"; "`.
fn append_joined(text: &mut String, actions: &Vec<String>)
    ensures
        final(text)@ == old(text)@ + joined(string_views(actions@)),
{
    let ghost prefix: Seq<char> = text@;
    let ghost rs = string_views(actions@);
    let mut i: usize = 0;
    assert(rs.take(0) =~= Seq::<Seq<char>>::empty());
    assert(prefix + Seq::<char>::empty() =~= prefix);
    while i < actions.len()
        invariant
            i <= actions@.len(),
            rs == string_views(actions@),
            text@ == prefix + joined(rs.take(i as int)),
        decreases actions.len() - i,
    {
        if i > 0 {
            text.append("; ");
        }
        text.append(actions[i].as_str());
        proof {
            let t = rs.take(i + 1);
            assert(t.drop_last() =~= rs.take(i as int));
            assert(t.last() == rs[i as int]);
            if i == 0 {
                assert(joined(t) == rs[0]);
                assert(text@ =~= prefix + joined(t));
            } else {
                reveal_strlit("; ");
                assert(text@ =~= prefix + joined(t));
            }
        }
        i = i + 1;
    }
    assert(rs.take(rs.len() as int) =~= rs);
}

proof fn lemma_run_keeps(v: DaemonView, ops: Seq<RequestedOperation>, acc: Seq<bool>)
    ensures
        run_view(v, ops, acc).device == v.device,
        run_view(v, ops, acc).allow_experimental == v.allow_experimental,
        run_view(v, ops, acc).backend_name == v.backend_name,
    decreases ops.len(),
{
    if ops.len() > 0 {
        lemma_run_keeps(v, ops.drop_last(), acc);
    }
}

proof fn lemma_run_acc(v: DaemonView, ops: Seq<RequestedOperation>, acc: Seq<bool>, a: bool, log: (
    Seq<RequestedOperation>,
    Seq<EcContext>,
))
    requires
        acc.len() == ops.len(),
    ensures
        run_view(v, ops, acc.push(a)) == run_view(v, ops, acc),
        run_log(v, ops, acc.push(a), log) == run_log(v, ops, acc, log),
{
    lemma_run_prefix_acc(v, ops, acc.push(a), log);
    assert(acc.push(a).take(ops.len() as int) =~= acc);
}

/// A run reads only the flags of its own operations.
proof fn lemma_run_prefix_acc(
    v: DaemonView,
    ops: Seq<RequestedOperation>,
    acc: Seq<bool>,
    log: (Seq<RequestedOperation>, Seq<EcContext>),
)
    requires
        ops.len() <= acc.len(),
    ensures
        run_view(v, ops, acc) == run_view(v, ops, acc.take(ops.len() as int)),
        run_log(v, ops, acc, log) == run_log(v, ops, acc.take(ops.len() as int), log),
    decreases ops.len(),
{
    if ops.len() > 0 {
        let n = ops.len() as int;
        lemma_run_prefix_acc(v, ops.drop_last(), acc, log);
        lemma_run_prefix_acc(v, ops.drop_last(), acc.take(n), log);
        assert(acc.take(n).take(n - 1) =~= acc.take(n - 1));
    }
}

/// One more operation extends a run.
proof fn lemma_run_push<B: Backend>(
    v: DaemonView,
    b0: B,
    ops: Seq<RequestedOperation>,
    acc: Seq<bool>,
    rs: Seq<Seq<char>>,
    w: DaemonView,
    b1: B,
    op: RequestedOperation,
    a: bool,
    r: Seq<char>,
    w2: DaemonView,
    b2: B,
)
    requires
        ops_run(v, b0, ops, acc, rs, w, b1),
        op_step(w, b1, op, a, r, w2, b2),
    ensures
        ops_run(v, b0, ops.push(op), acc.push(a), rs.push(r), w2, b2),
{
    let ops2 = ops.push(op);
    let acc2 = acc.push(a);
    let rs2 = rs.push(r);
    lemma_run_acc(v, ops, acc, a, b0.accepted_log());
    lemma_run_keeps(v, ops, acc);
    assert(ops2.drop_last() =~= ops);
    assert(ops2.take(ops.len() as int) =~= ops);
    assert forall|i: int| 0 <= i < ops2.len() implies step_reply(
        run_view(v, ops2.take(i), acc2),
        ops2[i],
        acc2[i],
        #[trigger] rs2[i],
    ) by {
        if i < ops.len() {
            assert(ops2.take(i) =~= ops.take(i));
            assert(rs2[i] == rs[i]);
            lemma_run_prefix_acc(v, ops.take(i), acc2, b0.accepted_log());
            lemma_run_prefix_acc(v, ops.take(i), acc, b0.accepted_log());
            assert(acc2.take(i) =~= acc.take(i));
        }
    }
    assert forall|i: int|
        0 <= i < ops2.len() && b0.obeys_backend_spec() && b0.accepts_all() && policy_verdict(
            v.device.id,
            ops2[i],
            v.allow_experimental,
        ) is Ok implies #[trigger] acc2[i] by {
        if i < ops.len() {
            assert(acc2[i] == acc[i]);
        }
    }
    if policy_verdict(w.device.id, op, w.allow_experimental) is Err {
        assert(b2 == b1);
    }
}

/// Every flag set.
pub open spec fn all_accepted(n: nat) -> Seq<bool> {
    Seq::new(n, |i: int| true)
}

proof fn lemma_accepting_run(
    v: DaemonView,
    ops: Seq<RequestedOperation>,
    acc: Seq<bool>,
    log: (Seq<RequestedOperation>, Seq<EcContext>),
)
    requires
        ops.len() <= acc.len(),
        forall|i: int|
            0 <= i < ops.len() && policy_verdict(v.device.id, ops[i], v.allow_experimental) is Ok
                ==> #[trigger] acc[i],
    ensures
        run_view(v, ops, acc) == run_view(v, ops, all_accepted(acc.len())),
        run_log(v, ops, acc, log) == run_log(v, ops, all_accepted(acc.len()), log),
    decreases ops.len(),
{
    if ops.len() > 0 {
        let n = ops.len() - 1;
        let init = ops.drop_last();
        assert forall|i: int|
            0 <= i < init.len() && policy_verdict(v.device.id, init[i], v.allow_experimental) is Ok
                implies #[trigger] acc[i] by {
            assert(init[i] == ops[i]);
        }
        lemma_accepting_run(v, init, acc, log);
        lemma_run_keeps(v, init, acc);
        if policy_verdict(v.device.id, ops[n], v.allow_experimental) is Ok {
            assert(acc[n]);
        }
    }
}

/// With a backend that follows its specification and accepts everything,
/// a run's outcome is fixed:
/// every operation the policy admits is applied, logged by the backend
/// under the context of its turn, and answered with the applied reply.
pub proof fn law_accepting_backend_applies_every_admitted_operation<B: Backend>(
    v: DaemonView,
    b0: B,
    ops: Seq<RequestedOperation>,
    acc: Seq<bool>,
    rs: Seq<Seq<char>>,
    w: DaemonView,
    b1: B,
)
    requires
        ops_run(v, b0, ops, acc, rs, w, b1),
        b0.obeys_backend_spec(),
        b0.accepts_all(),
    ensures
        w == run_view(v, ops, all_accepted(ops.len())),
        b1.accepted_log() == run_log(v, ops, all_accepted(ops.len()), b0.accepted_log()),
        forall|i: int|
            0 <= i < ops.len() ==> step_reply(
                run_view(v, ops.take(i), all_accepted(ops.len())),
                ops[i],
                true,
                #[trigger] rs[i],
            ),
{
    lemma_accepting_run(v, ops, acc, b0.accepted_log());
    assert forall|i: int| 0 <= i < ops.len() implies step_reply(
        run_view(v, ops.take(i), all_accepted(ops.len())),
        ops[i],
        true,
        #[trigger] rs[i],
    ) by {
        let pre = ops.take(i);
        assert forall|j: int|
            0 <= j < pre.len() && policy_verdict(v.device.id, pre[j], v.allow_experimental) is Ok
                implies #[trigger] acc[j] by {
            assert(pre[j] == ops[j]);
        }
        lemma_accepting_run(v, pre, acc, b0.accepted_log());
        lemma_run_keeps(v, pre, acc);
        assert(step_reply(run_view(v, pre, acc), ops[i], acc[i], rs[i]));
    }
}

/// The empty run.
proof fn lemma_run_empty<B: Backend>(v: DaemonView, b: B)
    ensures
        ops_run(v, b, Seq::empty(), Seq::empty(), Seq::empty(), v, b),
{
}

pub open spec fn source_text(on_ac: bool) -> Seq<char> {
    if on_ac {
        "ac"@
    } else {
        "battery"@
    }
}

pub open spec fn opt_fan_text(o: Option<FanMode>) -> Seq<char> {
    match o {
        Some(m) => fan_mode_text(m),
        None => "off"@,
    }
}

pub open spec fn opt_byte_text(o: Option<u8>, absent: Seq<char>) -> Seq<char> {
    match o {
        Some(b) => dec(b as nat),
        None => absent,
    }
}

pub open spec fn opt_effect_text(o: Option<LightingEffect>) -> Seq<char> {
    match o {
        Some(e) => effect_text(e),
        None => "unset"@,
    }
}

pub open spec fn opt_logo_text(o: Option<LogoMode>) -> Seq<char> {
    match o {
        Some(m) => logo_text(m),
        None => "unset"@,
    }
}

/// The `status` reply.
pub open spec fn status_text(v: DaemonView) -> Seq<char> {
    "ok device="@ + usb_id_text(v.device.id) + " backend="@ + v.backend_name + " fan="@
        + fan_mode_text(v.fan_mode) + " profile="@ + profile_text(v.profile) + " automation_ac="@
        + opt_fan_text(v.state.fan_on_ac) + " automation_battery="@ + opt_fan_text(
        v.state.fan_on_battery,
    ) + " kbd="@ + opt_byte_text(v.state.kbd_brightness, "unset"@) + " kbd_effect="@
        + opt_effect_text(v.state.kbd_effect) + " logo="@ + opt_logo_text(v.state.logo)
        + " kbd_ac="@ + opt_byte_text(v.state.kbd_on_ac, "off"@) + " kbd_battery="@
        + opt_byte_text(v.state.kbd_on_battery, "off"@) + " experimental="@ + bool_text(
        v.allow_experimental,
    )
}

/// A fan rule for one power source: a manual speed is checked like the
/// operation it stands for; the rule is then stored and due to be written.
pub open spec fn fan_rule_reply(v: DaemonView, on_ac: bool, fan: Option<FanMode>) -> (
    Seq<char>,
    DaemonView,
) {
    let refused = match fan {
        Some(FanMode::Manual(rpm)) => policy_verdict(
            v.device.id,
            RequestedOperation::Fan(FanMode::Manual(rpm)),
            v.allow_experimental,
        ),
        _ => Ok(()),
    };
    match refused {
        Err(e) => ("err "@ + policy_message(e), v),
        Ok(_) => (
            "ok automation "@ + source_text(on_ac) + "="@ + opt_fan_text(fan),
            DaemonView {
                state: if on_ac {
                    PersistedState { fan_on_ac: fan, ..v.state }
                } else {
                    PersistedState { fan_on_battery: fan, ..v.state }
                },
                dirty: true,
                ..v
            },
        ),
    }
}

/// A keyboard-brightness rule for one power source, checked like the
/// brightness operation it stands for.
pub open spec fn kbd_rule_reply(v: DaemonView, on_ac: bool, brightness: Option<u8>) -> (
    Seq<char>,
    DaemonView,
) {
    let refused = match brightness {
        Some(b) => policy_verdict(
            v.device.id,
            RequestedOperation::KeyboardBrightness(b),
            v.allow_experimental,
        ),
        None => Ok(()),
    };
    match refused {
        Err(e) => ("err "@ + policy_message(e), v),
        Ok(_) => (
            "ok kbd-automation "@ + source_text(on_ac) + "="@ + opt_byte_text(brightness, "off"@),
            DaemonView {
                state: if on_ac {
                    PersistedState { kbd_on_ac: brightness, ..v.state }
                } else {
                    PersistedState { kbd_on_battery: brightness, ..v.state }
                },
                dirty: true,
                ..v
            },
        ),
    }
}

/// The reply to, and effect of, every request that hands nothing to the
/// backend.
pub open spec fn control_reply(v: DaemonView, req: Request) -> (Seq<char>, DaemonView) {
    match req {
        Request::Ping => ("ok pong"@, v),
        Request::Status => (status_text(v), v),
        Request::Telemetry => ("ok "@ + telemetry_line(v.telemetry), v),
        Request::SysInfo => ("ok "@ + sysinfo_text(v.simulate_telemetry, v.machine), v),
        Request::Automation { on_ac, fan } => fan_rule_reply(v, on_ac, fan),
        Request::KbdAutomation { on_ac, brightness } => kbd_rule_reply(v, on_ac, brightness),
        Request::Operation(_) => ("ok pong"@, v),
    }
}

/// One request line through the daemon.
pub open spec fn line_relation(old: DaemonView, line: Seq<char>, r: Seq<char>, new: DaemonView) -> bool {
    match request_of(line) {
        Err(m) => r == "err "@ + m && new == old,
        Ok(Request::Operation(op)) => apply_relation(old, op, r, new),
        Ok(req) => r == control_reply(old, req).0 && new == control_reply(old, req).1,
    }
}

/// The line hands an operation that the policy admits to the backend.
pub open spec fn line_reaches_backend(v: DaemonView, line: Seq<char>) -> bool {
    request_of(line) matches Ok(Request::Operation(op)) && policy_verdict(
        v.device.id,
        op,
        v.allow_experimental,
    ) is Ok
}

fn push_opt_fan(s: &mut String, o: Option<FanMode>)
    ensures
        final(s)@ == old(s)@ + opt_fan_text(o),
{
    match o {
        Some(m) => {
            let t = describe_fan_mode(m);
            s.append(t.as_str());
        },
        None => s.append("off"),
    }
}

fn push_opt_byte(s: &mut String, o: Option<u8>, absent: &str)
    ensures
        final(s)@ == old(s)@ + opt_byte_text(o, absent@),
{
    match o {
        Some(b) => push_dec(s, b as u64),
        None => s.append(absent),
    }
}

fn push_opt_effect(s: &mut String, o: Option<LightingEffect>)
    ensures
        final(s)@ == old(s)@ + opt_effect_text(o),
{
    match o {
        Some(e) => {
            let t = describe_effect(e);
            s.append(t.as_str());
        },
        None => s.append("unset"),
    }
}

fn push_opt_logo(s: &mut String, o: Option<LogoMode>)
    ensures
        final(s)@ == old(s)@ + opt_logo_text(o),
{
    match o {
        Some(m) => s.append(describe_logo(m)),
        None => s.append("unset"),
    }
}

fn push_source(s: &mut String, on_ac: bool)
    ensures
        final(s)@ == old(s)@ + source_text(on_ac),
{
    if on_ac {
        s.append("ac");
    } else {
        s.append("battery");
    }
}


/// What the failsafe does: with manual fans, it hands automatic fan
/// control to the backend under the current context, and the daemon is in
/// automatic mode afterwards unless the backend refused; with automatic
/// fans nothing happens.
pub open spec fn shutdown_relation(old: DaemonView, new: DaemonView) -> bool {
    match old.fan_mode {
        FanMode::Auto => new == old,
        FanMode::Manual(_) => {
            let sent = handing(old, RequestedOperation::Fan(FanMode::Auto));
            ||| new == (DaemonView { fan_mode: FanMode::Auto, ..sent })
            ||| new == sent
        },
    }
}

/// The operations of a handed log, without their contexts.
pub open spec fn handed_ops(h: Seq<(RequestedOperation, EcContext)>) -> Seq<RequestedOperation> {
    h.map_values(|p: (RequestedOperation, EcContext)| p.0)
}

/// The operations of `ops` that the policy admits, in order.
pub open spec fn admitted(
    id: crate::DeviceId,
    allow_experimental: bool,
    ops: Seq<RequestedOperation>,
) -> Seq<RequestedOperation>
    decreases ops.len(),
{
    if ops.len() == 0 {
        Seq::empty()
    } else {
        let rest = admitted(id, allow_experimental, ops.drop_last());
        if policy_verdict(id, ops.last(), allow_experimental) is Ok {
            rest.push(ops.last())
        } else {
            rest
        }
    }
}

pub open spec fn opt_op<T>(o: Option<T>, f: spec_fn(T) -> RequestedOperation) -> Seq<
    RequestedOperation,
> {
    match o {
        Some(x) => seq![f(x)],
        None => Seq::empty(),
    }
}

pub open spec fn bho_ops(b: BatteryHealth) -> Seq<RequestedOperation> {
    match b {
        BatteryHealth::Unset => Seq::empty(),
        BatteryHealth::Off => seq![RequestedOperation::BatteryHealthOff],
        BatteryHealth::Limit(limit) => seq![RequestedOperation::BatteryHealthLimit(limit)],
    }
}

/// The operations that restore a persisted state, profile first so that
/// the fan packets after it re-assert the right mode byte.
pub open spec fn reapply_ops(s: PersistedState) -> Seq<RequestedOperation> {
    opt_op(s.profile, |p: Profile| RequestedOperation::Profile(p)) + opt_op(
        s.fan,
        |m: FanMode| RequestedOperation::Fan(m),
    ) + bho_ops(s.battery_health) + opt_op(
        s.kbd_brightness,
        |b: u8| RequestedOperation::KeyboardBrightness(b),
    ) + opt_op(s.kbd_effect, |e: LightingEffect| RequestedOperation::KeyboardEffect(e)) + opt_op(
        s.logo,
        |m: LogoMode| RequestedOperation::Logo(m),
    )
}

/// The profile, fan and battery part of restoring a persisted state.
pub open spec fn power_settings_ops(s: PersistedState) -> Seq<RequestedOperation> {
    opt_op(s.profile, |p: Profile| RequestedOperation::Profile(p)) + opt_op(
        s.fan,
        |m: FanMode| RequestedOperation::Fan(m),
    ) + bho_ops(s.battery_health)
}

/// The log label of a restoring operation.
pub open spec fn reapply_label(op: RequestedOperation) -> Seq<char> {
    match op {
        RequestedOperation::Profile(_) => "reapply profile: "@,
        RequestedOperation::Fan(_) => "reapply fan: "@,
        RequestedOperation::BatteryHealthOff => "reapply bho: "@,
        RequestedOperation::BatteryHealthLimit(_) => "reapply bho: "@,
        RequestedOperation::KeyboardBrightness(_) => "reapply kbd brightness: "@,
        RequestedOperation::KeyboardEffect(_) => "reapply kbd effect: "@,
        RequestedOperation::Logo(_) => "reapply logo: "@,
    }
}

/// The persisted state already holds the setting that `op` applies.
pub open spec fn agrees(s: PersistedState, op: RequestedOperation) -> bool {
    match op {
        RequestedOperation::Fan(m) => s.fan == Some(m),
        RequestedOperation::BatteryHealthLimit(l) => s.battery_health == BatteryHealth::Limit(l),
        RequestedOperation::BatteryHealthOff => s.battery_health == BatteryHealth::Off,
        RequestedOperation::Profile(p) => s.profile == Some(p),
        RequestedOperation::KeyboardBrightness(b) => s.kbd_brightness == Some(b),
        RequestedOperation::KeyboardEffect(e) => s.kbd_effect == Some(e),
        RequestedOperation::Logo(m) => s.logo == Some(m),
    }
}

/// The fan change a power-source change calls for: the source's rule,
/// when it differs from the live mode.
pub open spec fn fan_action(v: DaemonView, on_ac: bool) -> Seq<RequestedOperation> {
    let rule = if on_ac {
        v.state.fan_on_ac
    } else {
        v.state.fan_on_battery
    };
    match rule {
        Some(m) => if m != v.fan_mode {
            seq![RequestedOperation::Fan(m)]
        } else {
            Seq::empty()
        },
        None => Seq::empty(),
    }
}

/// The brightness change a power-source change calls for: the source's
/// rule, when it differs from the persisted brightness.
pub open spec fn kbd_action(v: DaemonView, on_ac: bool) -> Seq<RequestedOperation> {
    let rule = if on_ac {
        v.state.kbd_on_ac
    } else {
        v.state.kbd_on_battery
    };
    match rule {
        Some(b) => if v.state.kbd_brightness != Some(b) {
            seq![RequestedOperation::KeyboardBrightness(b)]
        } else {
            Seq::empty()
        },
        None => Seq::empty(),
    }
}

pub open spec fn power_ops(v: DaemonView, on_ac: bool) -> Seq<RequestedOperation> {
    fan_action(v, on_ac) + kbd_action(v, on_ac)
}

/// Restoring so far: the settings are untouched, the log holds the
/// admitted part of the operations `done`, and one labelled line each.
pub open spec fn reapply_progress(
    origin: DaemonView,
    v: DaemonView,
    log: Seq<String>,
    done: Seq<RequestedOperation>,
) -> bool {
    &&& v.state == origin.state
    &&& v.device == origin.device
    &&& v.allow_experimental == origin.allow_experimental
    &&& reapply_log(origin, v.handed, log, done)
}

/// The handed log grew by the admitted part of `done`, and `log` holds one
/// line per operation of `done`, labelled by it.
#[verifier::opaque]
pub open spec fn reapply_log(
    origin: DaemonView,
    handed: Seq<(RequestedOperation, EcContext)>,
    log: Seq<String>,
    done: Seq<RequestedOperation>,
) -> bool {
    &&& handed_ops(handed) == handed_ops(origin.handed) + admitted(
        origin.device.id,
        origin.allow_experimental,
        done,
    )
    &&& log.len() == done.len()
    &&& forall|i: int| 0 <= i < log.len() ==> has_prefix(#[trigger] log[i]@, reapply_label(done[i]))
}

/// Restoring so far, through the backend: `done` ran in turn through the
/// daemon `origin` and the backend `b0`, leaving them as `v` and `b`, and
/// each log line is its operation's label followed by the reply.
pub open spec fn reapply_run<B: Backend>(
    origin: DaemonView,
    b0: B,
    v: DaemonView,
    b: B,
    log: Seq<String>,
    done: Seq<RequestedOperation>,
) -> bool {
    exists|acc: Seq<bool>, rs: Seq<Seq<char>>|
        {
            &&& ops_run(origin, b0, done, acc, rs, v, b)
            &&& log.len() == done.len()
            &&& forall|i: int|
                0 <= i < log.len() ==> (#[trigger] log[i])@ == reapply_label(done[i]) + rs[i]
        }
}

/// The persisted setting an operation would restore is the one recorded.
pub open spec fn restores_recorded(s: PersistedState, op: RequestedOperation) -> bool {
    match op {
        RequestedOperation::Profile(p) => s.profile == Some(p),
        RequestedOperation::Fan(m) => s.fan == Some(m),
        RequestedOperation::BatteryHealthLimit(l) => s.battery_health == BatteryHealth::Limit(l),
        RequestedOperation::BatteryHealthOff => s.battery_health == BatteryHealth::Off,
        RequestedOperation::KeyboardBrightness(b) => s.kbd_brightness == Some(b),
        RequestedOperation::KeyboardEffect(e) => s.kbd_effect == Some(e),
        RequestedOperation::Logo(m) => s.logo == Some(m),
    }
}

/// How many settings a persisted state records.
pub open spec fn recorded_count(s: PersistedState) -> nat {
    (if s.profile is Some { 1nat } else { 0nat }) + (if s.fan is Some { 1nat } else { 0nat }) + (
    if s.battery_health is Unset { 0nat } else { 1nat }) + (if s.kbd_brightness is Some {
        1nat
    } else {
        0nat
    }) + (if s.kbd_effect is Some { 1nat } else { 0nat }) + (if s.logo is Some {
        1nat
    } else {
        0nat
    })
}

proof fn lemma_contains_concat<T>(a: Seq<T>, b: Seq<T>, x: T)
    ensures
        (a + b).contains(x) <==> a.contains(x) || b.contains(x),
{
    if a.contains(x) {
        let i = choose|i: int| 0 <= i < a.len() && a[i] == x;
        assert((a + b)[i] == x);
    }
    if b.contains(x) {
        let i = choose|i: int| 0 <= i < b.len() && b[i] == x;
        assert((a + b)[a.len() + i] == x);
    }
    if (a + b).contains(x) {
        let i = choose|i: int| 0 <= i < (a + b).len() && (a + b)[i] == x;
        if i < a.len() {
            assert(a[i] == x);
        } else {
            assert(b[i - a.len()] == x);
        }
    }
}

/// Restoring a persisted state hands one operation per recorded setting:
/// an operation is among those restored exactly when it restores a setting
/// as recorded, there is one per recorded setting, and a recorded profile
/// comes first, so that the fan packets after it carry its mode byte.
pub proof fn law_reapply_restores_every_recorded_setting(s: PersistedState, op: RequestedOperation)
    ensures
        reapply_ops(s).contains(op) <==> restores_recorded(s, op),
        reapply_ops(s).len() == recorded_count(s),
        s.profile matches Some(p) ==> reapply_ops(s)[0] == RequestedOperation::Profile(p),
{
    let a = opt_op(s.profile, |p: Profile| RequestedOperation::Profile(p));
    let b = opt_op(s.fan, |m: FanMode| RequestedOperation::Fan(m));
    let c = bho_ops(s.battery_health);
    let d = opt_op(s.kbd_brightness, |x: u8| RequestedOperation::KeyboardBrightness(x));
    let e = opt_op(s.kbd_effect, |x: LightingEffect| RequestedOperation::KeyboardEffect(x));
    let f = opt_op(s.logo, |m: LogoMode| RequestedOperation::Logo(m));
    assert(reapply_ops(s) == a + b + c + d + e + f);
    lemma_contains_concat(a, b, op);
    lemma_contains_concat(a + b, c, op);
    lemma_contains_concat(a + b + c, d, op);
    lemma_contains_concat(a + b + c + d, e, op);
    lemma_contains_concat(a + b + c + d + e, f, op);
    if s.profile is Some {
        assert(a.contains(a[0]));
    }
    if s.fan is Some {
        assert(b.contains(b[0]));
    }
    if !(s.battery_health is Unset) {
        assert(c.contains(c[0]));
    }
    if s.kbd_brightness is Some {
        assert(d.contains(d[0]));
    }
    if s.kbd_effect is Some {
        assert(e.contains(e[0]));
    }
    if s.logo is Some {
        assert(f.contains(f[0]));
    }
    assert(a.contains(op) ==> a[0] == op);
    assert(b.contains(op) ==> b[0] == op);
    assert(c.contains(op) ==> c[0] == op);
    assert(d.contains(op) ==> d[0] == op);
    assert(e.contains(op) ==> e[0] == op);
    assert(f.contains(op) ==> f[0] == op);
}

/// The operations refused unless the daemon runs with the experimental
/// opt-in.
pub open spec fn is_experimental(op: RequestedOperation) -> bool {
    ||| op is Profile
    ||| op is KeyboardBrightness
    ||| op is KeyboardEffect
    ||| op is Logo
}

/// A request line whose operation the policy refuses changes nothing and
/// hands nothing to the backend; the reply is the refusal.
pub proof fn law_refused_operations_never_reach_the_backend(
    old: DaemonView,
    line: Seq<char>,
    r: Seq<char>,
    new: DaemonView,
    op: RequestedOperation,
)
    requires
        line_relation(old, line, r, new),
        request_of(line) == Ok::<Request, Seq<char>>(Request::Operation(op)),
        policy_verdict(old.device.id, op, old.allow_experimental) is Err,
    ensures
        new == old,
        new.handed == old.handed,
        has_prefix(r, "err "@),
{
    reveal_strlit("err ");
    let e = policy_verdict(old.device.id, op, old.allow_experimental)->Err_0;
    assert(r == "err "@ + policy_message(e));
    assert(r.subrange(0, 4) =~= "err "@);
}

/// Without the opt-in, no profile or lighting operation sent over the
/// socket ever reaches the backend, on any device.
pub proof fn law_experimental_gate_holds_over_ipc(
    old: DaemonView,
    line: Seq<char>,
    r: Seq<char>,
    new: DaemonView,
    op: RequestedOperation,
)
    requires
        line_relation(old, line, r, new),
        !old.allow_experimental,
        request_of(line) == Ok::<Request, Seq<char>>(Request::Operation(op)),
        is_experimental(op),
    ensures
        new == old,
        has_prefix(r, "err "@),
{
    law_refused_operations_never_reach_the_backend(old, line, r, new, op);
}

/// Whatever a request line is, the backend is handed at most one
/// operation: one the policy admits, under the EC context from before the
/// request (the live profile and whether the fans are manual).
pub proof fn law_only_admitted_operations_reach_the_backend(
    old: DaemonView,
    line: Seq<char>,
    r: Seq<char>,
    new: DaemonView,
)
    requires
        line_relation(old, line, r, new),
    ensures
        new.handed == old.handed || exists|op: RequestedOperation|
            {
                &&& request_of(line) == Ok::<Request, Seq<char>>(Request::Operation(op))
                &&& policy_verdict(old.device.id, op, old.allow_experimental) is Ok
                &&& new.handed == old.handed.push((op, context_of(old)))
            },
{
    match request_of(line) {
        Ok(Request::Operation(op)) => {
            if policy_verdict(old.device.id, op, old.allow_experimental) is Ok {
                assert(new.handed == old.handed.push((op, context_of(old))));
            }
        },
        _ => {},
    }
}

/// An operation's reply is truthful: a reply starting with `ok` means the
/// policy admitted the operation and the daemon took on its effect; any
/// other reply means nothing changed beyond the hand-over itself.
pub proof fn law_ok_reply_means_applied(
    old: DaemonView,
    op: RequestedOperation,
    r: Seq<char>,
    new: DaemonView,
)
    requires
        apply_relation(old, op, r, new),
    ensures
        has_prefix(r, "ok"@) ==> policy_verdict(old.device.id, op, old.allow_experimental) is Ok
            && new == applied_effect(handing(old, op), op),
        !has_prefix(r, "ok"@) ==> new == old || new == handing(old, op),
{
    reveal_strlit("ok");
    reveal_strlit("err ");
    reveal_strlit("err backend: ");
    reveal_strlit("ok applied ");
    if has_prefix(r, "ok"@) {
        assert(r.subrange(0, 2)[0] == r[0]);
        assert(r[0] == 'o');
    }
    match policy_verdict(old.device.id, op, old.allow_experimental) {
        Err(e) => {
            assert(r[0] == 'e');
        },
        Ok(_) => {
            let sent = handing(old, op);
            if new == applied_effect(sent, op) && r == applied_text(op, old.backend_name) {
                assert(r.subrange(0, 2) =~= "ok"@);
            } else {
                assert(r.subrange(0, 13) == "err backend: "@);
                assert(r[0] == "err backend: "@[0]);
            }
        },
    }
}

/// The failsafe hands automatic fan control to the backend exactly when
/// the fans are manual, under the current context, and the daemon then
/// reports automatic fans unless the backend refused.
pub proof fn law_shutdown_reverts_manual_fans(old: DaemonView, new: DaemonView)
    requires
        shutdown_relation(old, new),
    ensures
        old.fan_mode is Auto ==> new == old,
        old.fan_mode is Manual ==> new.handed == old.handed.push(
            (RequestedOperation::Fan(FanMode::Auto), context_of(old)),
        ) && new.state == old.state,
{
}

proof fn lemma_admitted_push(
    id: crate::DeviceId,
    allow: bool,
    ops: Seq<RequestedOperation>,
    op: RequestedOperation,
)
    ensures
        admitted(id, allow, ops.push(op)) == if policy_verdict(id, op, allow) is Ok {
            admitted(id, allow, ops).push(op)
        } else {
            admitted(id, allow, ops)
        },
{
    assert(ops.push(op).drop_last() =~= ops);
}

/// One operation through `apply`, seen from the log and the settings.
proof fn lemma_apply_step(v: DaemonView, op: RequestedOperation, r: Seq<char>, w: DaemonView)
    requires
        apply_relation(v, op, r, w),
    ensures
        w.device == v.device,
        w.allow_experimental == v.allow_experimental,
        handed_ops(w.handed) == if policy_verdict(v.device.id, op, v.allow_experimental) is Ok {
            handed_ops(v.handed).push(op)
        } else {
            handed_ops(v.handed)
        },
        agrees(v.state, op) ==> w.state == v.state,
        w.state.kbd_brightness == v.state.kbd_brightness || op is KeyboardBrightness,
        w.state.kbd_on_ac == v.state.kbd_on_ac,
        w.state.kbd_on_battery == v.state.kbd_on_battery,
{
    let p = (op, context_of(v));
    assert(handed_ops(v.handed.push(p)) =~= handed_ops(v.handed).push(op));
}

impl<B: Backend> Daemon<B> {
    /// The backend the daemon drives.
    pub closed spec fn backend_value(&self) -> B {
        self.backend
    }

    pub fn new(device: DeviceCapabilities, backend: B, allow_experimental: bool) -> (r: Self)
        ensures
            r@ == (DaemonView {
                device,
                backend_name: r@.backend_name,
                allow_experimental,
                fan_mode: FanMode::Auto,
                profile: Profile::Balanced,
                simulate_telemetry: false,
                state: empty_state(),
                dirty: false,
                telemetry: unavailable_spec(false),
                machine: unknown_machine(),
                handed: Seq::empty(),
            }),
            backend.obeys_backend_spec() ==> r@.backend_name == backend.name_spec(),
            r.backend_value() == backend,
    {
        let backend_name = backend.name();
        Daemon {
            device,
            backend,
            backend_name,
            allow_experimental,
            fan_mode: FanMode::Auto,
            profile: Profile::Balanced,
            simulate_telemetry: false,
            state: PersistedState::default(),
            dirty: false,
            telemetry: Telemetry::unavailable(false),
            machine: MachineFacts::unknown(),
            handed: Ghost(Seq::empty()),
        }
    }

    /// Used for dashboards developed on machines with no hwmon data:
    /// telemetry and machine identity are simulated and labelled so, and
    /// the snapshot starts at the simulation's resting values.
    pub fn with_simulated_telemetry(self) -> (r: Self)
        ensures
            r@ == (DaemonView {
                simulate_telemetry: true,
                telemetry: simulated_spec(0, 0),
                ..self@
            }),
            r.backend_value() == self.backend_value(),
    {
        let mut d = self;
        d.simulate_telemetry = true;
        d.telemetry = simulated_telemetry(0, 0);
        d
    }

    /// True when telemetry is simulated; the transport then records
    /// simulated snapshots.
    pub fn simulates_telemetry(&self) -> (r: bool)
        ensures
            r == self@.simulate_telemetry,
    {
        self.simulate_telemetry
    }

    /// The EC state the wire encoding needs alongside any operation.
    fn context(&self) -> (r: EcContext)
        ensures
            r == context_of(self@),
    {
        EcContext {
            profile: self.profile,
            fan_manual: match self.fan_mode {
                FanMode::Manual(_) => true,
                FanMode::Auto => false,
            },
        }
    }

    /// Records the latest telemetry snapshot, which `telemetry` requests
    /// report.
    pub fn record_telemetry(&mut self, telemetry: Telemetry)
        ensures
            final(self)@ == (DaemonView { telemetry, ..old(self)@ }),
            final(self).backend_value() == old(self).backend_value(),
    {
        self.telemetry = telemetry;
    }

    /// Records the machine identity, which `sysinfo` requests report.
    pub fn record_machine(&mut self, machine: MachineFacts)
        ensures
            final(self)@ == (DaemonView { machine, ..old(self)@ }),
            final(self).backend_value() == old(self).backend_value(),
    {
        self.machine = machine;
    }

    /// Load previously persisted state without touching hardware.
    pub fn load_state(&mut self, state: PersistedState)
        ensures
            final(self)@ == (DaemonView { state, ..old(self)@ }),
            final(self).backend_value() == old(self).backend_value(),
    {
        self.state = state;
    }

    pub fn persisted(&self) -> (r: &PersistedState)
        ensures
            *r == self@.state,
    {
        &self.state
    }

    pub fn backend(&self) -> (r: &B)
        ensures
            *r == self.backend_value(),
    {
        &self.backend
    }

    /// True when persisted state changed since the last call; the transport
    /// uses this to decide when to write the state file.
    pub fn take_dirty(&mut self) -> (r: bool)
        ensures
            r == old(self)@.dirty,
            final(self)@ == (DaemonView { dirty: false, ..old(self)@ }),
            final(self).backend_value() == old(self).backend_value(),
    {
        let r = self.dirty;
        self.dirty = false;
        r
    }

    /// Concludes an operation the policy admitted and the backend was
    /// handed, given what it answered: on success the live mode and the
    /// persisted setting take the new value; on failure nothing changes and
    /// the reply carries the backend's error.
    pub fn conclude(&mut self, operation: RequestedOperation, outcome: Result<(), String>) -> (r:
        String)
        requires
            policy_verdict(old(self)@.device.id, operation, old(self)@.allow_experimental) is Ok,
        ensures
            outcome is Ok ==> final(self)@ == applied_effect(old(self)@, operation) && r@
                == applied_text(operation, old(self)@.backend_name),
            outcome matches Err(e) ==> final(self)@ == old(self)@ && r@ == "err backend: "@
                + e@,
            final(self).backend_value() == old(self).backend_value(),
    {
        match outcome {
            Ok(()) => {
                match operation {
                    RequestedOperation::Fan(mode) => {
                        self.fan_mode = mode;
                        self.state.fan = Some(mode);
                    },
                    RequestedOperation::BatteryHealthLimit(limit) => {
                        self.state.battery_health = BatteryHealth::Limit(limit);
                    },
                    RequestedOperation::BatteryHealthOff => {
                        self.state.battery_health = BatteryHealth::Off;
                    },
                    RequestedOperation::Profile(profile) => {
                        self.profile = profile;
                        self.state.profile = Some(profile);
                    },
                    RequestedOperation::KeyboardBrightness(percent) => {
                        self.state.kbd_brightness = Some(percent);
                    },
                    RequestedOperation::KeyboardEffect(effect) => {
                        self.state.kbd_effect = Some(effect);
                    },
                    RequestedOperation::Logo(mode) => {
                        self.state.logo = Some(mode);
                    },
                }
                self.dirty = true;
                let mut s = String::from_str("ok applied ");
                push_operation_debug(&mut s, operation);
                s.append(" via ");
                s.append(self.backend_name);
                s.append(" backend");
                proof {
                    reveal_strlit("ok applied ");
                }
                assert(s@ =~= applied_text(operation, old(self)@.backend_name));
                s
            },
            Err(error) => {
                let mut s = String::from_str("err backend: ");
                s.append(error.as_str());
                proof {
                    reveal_strlit("err backend: ");
                }
                s
            },
        }
    }

    /// One operation: the policy first, then the backend under the current
    /// context.
    fn apply(&mut self, operation: RequestedOperation) -> (r: String)
        ensures
            apply_relation(old(self)@, operation, r@, final(self)@),
            op_step(
                old(self)@,
                old(self).backend_value(),
                operation,
                has_prefix(r@, "ok"@),
                r@,
                final(self)@,
                final(self).backend_value(),
            ),
            policy_verdict(old(self)@.device.id, operation, old(self)@.allow_experimental) is Err
                ==> final(self).backend_value() == old(self).backend_value(),
    {
        match validate_operation(self.device.id, operation, self.allow_experimental) {
            Err(error) => {
                let mut s = String::from_str("err ");
                let message = error.message();
                s.append(message.as_str());
                proof {
                    reveal_strlit("err ");
                }
                return s;
            },
            Ok(()) => {},
        }
        let context = self.context();
        self.handed = Ghost(self.handed@.push((operation, context)));
        assert(self@ == handing(old(self)@, operation));
        let outcome = self.backend.apply(self.device.id, operation, context);
        assert(self@ == handing(old(self)@, operation));
        let ghost accepted = outcome is Ok;
        let r = self.conclude(operation, outcome);
        proof {
            reveal_strlit("ok");
            reveal_strlit("ok applied ");
            reveal_strlit("err backend: ");
            let p: Seq<char> = "err backend: "@;
            if accepted {
                assert(r@.subrange(0, 2) =~= "ok"@);
            } else {
                assert(r@.subrange(0, p.len() as int) =~= p);
                assert(r@[0] == 'e');
            }
            assert(has_prefix(r@, "ok"@) == accepted);
        }
        r
    }

    fn status_line(&self) -> (r: String)
        ensures
            r@ == status_text(self@),
    {
        let mut s = String::from_str("ok device=");
        push_usb_id(&mut s, self.device.id);
        s.append(" backend=");
        s.append(self.backend_name);
        s.append(" fan=");
        let fan = describe_fan_mode(self.fan_mode);
        s.append(fan.as_str());
        s.append(" profile=");
        let profile = describe_profile(self.profile);
        s.append(profile.as_str());
        s.append(" automation_ac=");
        push_opt_fan(&mut s, self.state.fan_on_ac);
        s.append(" automation_battery=");
        push_opt_fan(&mut s, self.state.fan_on_battery);
        s.append(" kbd=");
        push_opt_byte(&mut s, self.state.kbd_brightness, "unset");
        s.append(" kbd_effect=");
        push_opt_effect(&mut s, self.state.kbd_effect);
        s.append(" logo=");
        push_opt_logo(&mut s, self.state.logo);
        s.append(" kbd_ac=");
        push_opt_byte(&mut s, self.state.kbd_on_ac, "off");
        s.append(" kbd_battery=");
        push_opt_byte(&mut s, self.state.kbd_on_battery, "off");
        s.append(" experimental=");
        push_bool(&mut s, self.allow_experimental);
        proof {
            reveal_strlit("ok device=");
        }
        assert(s@ =~= status_text(self@));
        s
    }

    fn set_fan_rule(&mut self, on_ac: bool, fan: Option<FanMode>) -> (r: String)
        ensures
            (r@, final(self)@) == fan_rule_reply(old(self)@, on_ac, fan),
            final(self).backend_value() == old(self).backend_value(),
    {
        if let Some(FanMode::Manual(rpm)) = fan {
            if let Err(error) = validate_operation(
                self.device.id,
                RequestedOperation::Fan(FanMode::Manual(rpm)),
                self.allow_experimental,
            ) {
                let mut s = String::from_str("err ");
                let message = error.message();
                s.append(message.as_str());
                proof {
                    reveal_strlit("err ");
                }
                return s;
            }
        }
        if on_ac {
            self.state.fan_on_ac = fan;
        } else {
            self.state.fan_on_battery = fan;
        }
        self.dirty = true;
        let mut s = String::from_str("ok automation ");
        push_source(&mut s, on_ac);
        s.append("=");
        push_opt_fan(&mut s, fan);
        proof {
            reveal_strlit("ok automation ");
        }
        assert(s@ =~= fan_rule_reply(old(self)@, on_ac, fan).0);
        s
    }

    fn set_kbd_rule(&mut self, on_ac: bool, brightness: Option<u8>) -> (r: String)
        ensures
            (r@, final(self)@) == kbd_rule_reply(old(self)@, on_ac, brightness),
            final(self).backend_value() == old(self).backend_value(),
    {
        if let Some(b) = brightness {
            if let Err(error) = validate_operation(
                self.device.id,
                RequestedOperation::KeyboardBrightness(b),
                self.allow_experimental,
            ) {
                let mut s = String::from_str("err ");
                let message = error.message();
                s.append(message.as_str());
                proof {
                    reveal_strlit("err ");
                }
                return s;
            }
        }
        if on_ac {
            self.state.kbd_on_ac = brightness;
        } else {
            self.state.kbd_on_battery = brightness;
        }
        self.dirty = true;
        let mut s = String::from_str("ok kbd-automation ");
        push_source(&mut s, on_ac);
        s.append("=");
        push_opt_byte(&mut s, brightness, "off");
        proof {
            reveal_strlit("ok kbd-automation ");
        }
        assert(s@ =~= kbd_rule_reply(old(self)@, on_ac, brightness).0);
        s
    }

    /// Failsafe: the EC must never be left in manual fan mode with no
    /// supervisor running.  Called on SIGTERM/SIGINT and normal exit.
    /// Returns `None` when the fans were automatic already, otherwise what
    /// the backend answered to the revert.
    pub fn shutdown(&mut self) -> (r: Option<Result<(), String>>)
        ensures
            shutdown_relation(old(self)@, final(self)@),
            old(self)@.fan_mode is Auto ==> r is None && final(self).backend_value() == old(
                self,
            ).backend_value(),
            old(self)@.fan_mode is Manual ==> (r matches Some(outcome) && (outcome is Ok
                <==> final(self)@.fan_mode is Auto)),
            old(self)@.fan_mode is Manual ==> ({
                let b0 = old(self).backend_value();
                let b1 = final(self).backend_value();
                &&& b1.obeys_backend_spec() == b0.obeys_backend_spec()
                &&& b0.obeys_backend_spec() ==> {
                &&& b1.name_spec() == b0.name_spec()
                &&& b1.accepts_all() == b0.accepts_all()
                &&& (b0.accepts_all() ==> r matches Some(Ok(_)))
                &&& b1.accepted_log() == if r matches Some(Ok(_)) {
                    (
                        b0.accepted_log().0.push(RequestedOperation::Fan(FanMode::Auto)),
                        b0.accepted_log().1.push(context_of(old(self)@)),
                    )
                } else {
                    b0.accepted_log()
                }
                }
            }),
    {
        match self.fan_mode {
            FanMode::Auto => None,
            FanMode::Manual(_) => {
                let context = self.context();
                let operation = RequestedOperation::Fan(FanMode::Auto);
                self.handed = Ghost(self.handed@.push((operation, context)));
                let outcome = self.backend.apply(self.device.id, operation, context);
                if outcome.is_ok() {
                    self.fan_mode = FanMode::Auto;
                }
                Some(outcome)
            },
        }
    }

    fn reapply_one(
        &mut self,
        operation: RequestedOperation,
        label: &str,
        log: &mut Vec<String>,
        Ghost(origin): Ghost<DaemonView>,
        Ghost(b0): Ghost<B>,
        Ghost(done): Ghost<Seq<RequestedOperation>>,
    )
        requires
            agrees(origin.state, operation),
            reapply_progress(origin, old(self)@, old(log)@, done),
            reapply_run(origin, b0, old(self)@, old(self).backend_value(), old(log)@, done),
            label@ == reapply_label(operation),
        ensures
            reapply_progress(origin, final(self)@, final(log)@, done.push(operation)),
            reapply_run(
                origin,
                b0,
                final(self)@,
                final(self).backend_value(),
                final(log)@,
                done.push(operation),
            ),
    {
        let ghost before = self@;
        let ghost b_before = self.backend_value();
        let ghost (acc, rs) = choose|acc: Seq<bool>, rs: Seq<Seq<char>>|
            {
                &&& ops_run(origin, b0, done, acc, rs, before, b_before)
                &&& log@.len() == done.len()
                &&& forall|i: int|
                    0 <= i < log@.len() ==> (#[trigger] log@[i])@ == reapply_label(done[i]) + rs[i]
            };
        let response = self.apply(operation);
        proof {
            lemma_run_push(
                origin,
                b0,
                done,
                acc,
                rs,
                before,
                b_before,
                operation,
                has_prefix(response@, "ok"@),
                response@,
                self@,
                self.backend_value(),
            );
        }
        proof {
            reveal(reapply_log);
            lemma_apply_step(before, operation, response@, self@);
            lemma_admitted_push(origin.device.id, origin.allow_experimental, done, operation);
        }
        let mut line = String::from_str(label);
        line.append(response.as_str());
        proof {
            assert(line@.subrange(0, label@.len() as int) =~= label@);
        }
        log.push(line);
        proof {
            let d2 = done.push(operation);
            assert forall|i: int| 0 <= i < log@.len() implies has_prefix(
                #[trigger] log@[i]@,
                reapply_label(d2[i]),
            ) by {
                if i < done.len() {
                    assert(log@[i] == old(log)@[i]);
                }
            }
            let acc2 = acc.push(has_prefix(response@, "ok"@));
            let rs2 = rs.push(response@);
            assert forall|i: int| 0 <= i < log@.len() implies (#[trigger] log@[i])@ == reapply_label(
                d2[i],
            ) + rs2[i] by {
                if i < done.len() {
                    assert(log@[i] == old(log)@[i]);
                    assert(d2[i] == done[i]);
                    assert(rs2[i] == rs[i]);
                } else {
                    assert(log@[i]@ =~= label@ + response@);
                }
            }
            assert(reapply_run(origin, b0, self@, self.backend_value(), log@, d2));
        }
    }

    /// Restores the profile, the fan mode and the battery limit.
    fn reapply_power(
        &mut self,
        log: &mut Vec<String>,
        Ghost(origin): Ghost<DaemonView>,
        Ghost(b0): Ghost<B>,
    )
        requires
            reapply_progress(origin, old(self)@, old(log)@, Seq::empty()),
            reapply_run(origin, b0, old(self)@, old(self).backend_value(), old(log)@, Seq::empty()),
        ensures
            reapply_progress(origin, final(self)@, final(log)@, power_settings_ops(origin.state)),
            reapply_run(
                origin,
                b0,
                final(self)@,
                final(self).backend_value(),
                final(log)@,
                power_settings_ops(origin.state),
            ),
    {
        let ghost mut done: Seq<RequestedOperation> = Seq::empty();
        if let Some(profile) = self.state.profile {
            let op = RequestedOperation::Profile(profile);
            self.reapply_one(op, "reapply profile: ", log, Ghost(origin), Ghost(b0), Ghost(done));
            proof {
                reveal_strlit("reapply profile: ");
                done = done.push(op);
            }
        }
        let ghost stage1 = done;
        assert(stage1 =~= opt_op(origin.state.profile, |p: Profile| RequestedOperation::Profile(p)));
        if let Some(mode) = self.state.fan {
            let op = RequestedOperation::Fan(mode);
            self.reapply_one(op, "reapply fan: ", log, Ghost(origin), Ghost(b0), Ghost(done));
            proof {
                reveal_strlit("reapply fan: ");
                done = done.push(op);
            }
        }
        let ghost stage2 = done;
        assert(stage2 =~= stage1 + opt_op(origin.state.fan, |m: FanMode| RequestedOperation::Fan(m)));
        match self.state.battery_health {
            BatteryHealth::Unset => {},
            BatteryHealth::Off => {
                let op = RequestedOperation::BatteryHealthOff;
                self.reapply_one(op, "reapply bho: ", log, Ghost(origin), Ghost(b0), Ghost(done));
                proof {
                    reveal_strlit("reapply bho: ");
                    done = done.push(op);
                }
            },
            BatteryHealth::Limit(limit) => {
                let op = RequestedOperation::BatteryHealthLimit(limit);
                self.reapply_one(op, "reapply bho: ", log, Ghost(origin), Ghost(b0), Ghost(done));
                proof {
                    reveal_strlit("reapply bho: ");
                    done = done.push(op);
                }
            },
        }
        assert(done =~= stage2 + bho_ops(origin.state.battery_health));
        assert(done =~= power_settings_ops(origin.state));
    }

    /// Restores the keyboard brightness and effect and the logo mode.
    fn reapply_lighting(
        &mut self,
        log: &mut Vec<String>,
        Ghost(origin): Ghost<DaemonView>,
        Ghost(b0): Ghost<B>,
    )
        requires
            reapply_progress(origin, old(self)@, old(log)@, power_settings_ops(origin.state)),
            reapply_run(
                origin,
                b0,
                old(self)@,
                old(self).backend_value(),
                old(log)@,
                power_settings_ops(origin.state),
            ),
        ensures
            reapply_progress(origin, final(self)@, final(log)@, reapply_ops(origin.state)),
            reapply_run(
                origin,
                b0,
                final(self)@,
                final(self).backend_value(),
                final(log)@,
                reapply_ops(origin.state),
            ),
    {
        let ghost mut done: Seq<RequestedOperation> = power_settings_ops(origin.state);
        if let Some(brightness) = self.state.kbd_brightness {
            let op = RequestedOperation::KeyboardBrightness(brightness);
            self.reapply_one(op, "reapply kbd brightness: ", log, Ghost(origin), Ghost(b0), Ghost(done));
            proof {
                reveal_strlit("reapply kbd brightness: ");
                done = done.push(op);
            }
        }
        let ghost stage4 = done;
        assert(stage4 =~= power_settings_ops(origin.state) + opt_op(
            origin.state.kbd_brightness,
            |b: u8| RequestedOperation::KeyboardBrightness(b),
        ));
        if let Some(effect) = self.state.kbd_effect {
            let op = RequestedOperation::KeyboardEffect(effect);
            self.reapply_one(op, "reapply kbd effect: ", log, Ghost(origin), Ghost(b0), Ghost(done));
            proof {
                reveal_strlit("reapply kbd effect: ");
                done = done.push(op);
            }
        }
        let ghost stage5 = done;
        assert(stage5 =~= stage4 + opt_op(
            origin.state.kbd_effect,
            |e: LightingEffect| RequestedOperation::KeyboardEffect(e),
        ));
        if let Some(logo) = self.state.logo {
            let op = RequestedOperation::Logo(logo);
            self.reapply_one(op, "reapply logo: ", log, Ghost(origin), Ghost(b0), Ghost(done));
            proof {
                reveal_strlit("reapply logo: ");
                done = done.push(op);
            }
        }
        assert(done =~= stage5 + opt_op(origin.state.logo, |m: LogoMode| RequestedOperation::Logo(m)));
        assert(done =~= reapply_ops(origin.state));
    }

    /// The operations a power-source change calls for, through the daemon
    /// in turn; returns their replies and whether the backend accepted each.
    #[verifier::rlimit(40)]
    fn power_actions(&mut self, on_ac: bool) -> (r: (Vec<String>, Ghost<Seq<bool>>))
        ensures
            power_ops(old(self)@, on_ac).len() == 0 ==> final(self).backend_value() == old(
                self,
            ).backend_value(),
            handed_ops(final(self)@.handed) == handed_ops(old(self)@.handed) + admitted(
                old(self)@.device.id,
                old(self)@.allow_experimental,
                power_ops(old(self)@, on_ac),
            ),
            ops_run(
                old(self)@,
                old(self).backend_value(),
                power_ops(old(self)@, on_ac),
                r.1@,
                string_views(r.0@),
                final(self)@,
                final(self).backend_value(),
            ),
    {
        let ghost origin = self@;
        let ghost b_origin = self.backend_value();
        let ghost mut acc: Seq<bool> = Seq::empty();
        let ghost mut rs: Seq<Seq<char>> = Seq::empty();
        proof {
            lemma_run_empty(origin, b_origin);
        }
        let ghost id = origin.device.id;
        let ghost allow = origin.allow_experimental;
        let mut actions: Vec<String> = Vec::new();
        let configured_fan = if on_ac {
            self.state.fan_on_ac
        } else {
            self.state.fan_on_battery
        };
        proof {
            lemma_admitted_push(id, allow, Seq::empty(), RequestedOperation::Fan(FanMode::Auto));
            assert(handed_ops(self@.handed) =~= handed_ops(origin.handed) + admitted(
                id,
                allow,
                Seq::empty(),
            ));
        }
        if let Some(configured) = configured_fan {
            if configured != self.fan_mode {
                let ghost before = self@;
                let ghost b_before = self.backend_value();
                let op = RequestedOperation::Fan(configured);
                let response = self.apply(op);
                proof {
                    lemma_apply_step(before, op, response@, self@);
                    lemma_admitted_push(id, allow, Seq::empty(), op);
                    assert(Seq::<RequestedOperation>::empty().push(op) =~= seq![op]);
                    lemma_run_push(
                        origin,
                        b_origin,
                        Seq::empty(),
                        acc,
                        rs,
                        before,
                        b_before,
                        op,
                        has_prefix(response@, "ok"@),
                        response@,
                        self@,
                        self.backend_value(),
                    );
                    acc = acc.push(has_prefix(response@, "ok"@));
                    rs = rs.push(response@);
                }
                actions.push(response);
            }
        }
        assert(actions@.len() == fan_action(origin, on_ac).len());
        assert(ops_run(origin, b_origin, fan_action(origin, on_ac), acc, rs, self@, self.backend_value()));
        assert(rs =~= string_views(actions@));
        assert(handed_ops(self@.handed) == handed_ops(origin.handed) + admitted(
            id,
            allow,
            fan_action(origin, on_ac),
        ));
        assert(self@.state.kbd_brightness == origin.state.kbd_brightness);
        assert(self@.state.kbd_on_ac == origin.state.kbd_on_ac);
        assert(self@.state.kbd_on_battery == origin.state.kbd_on_battery);
        let configured_kbd = if on_ac {
            self.state.kbd_on_ac
        } else {
            self.state.kbd_on_battery
        };
        if let Some(brightness) = configured_kbd {
            let differs = match self.state.kbd_brightness {
                Some(current) => current != brightness,
                None => true,
            };
            if differs {
                let ghost before = self@;
                let ghost b_before = self.backend_value();
                let op = RequestedOperation::KeyboardBrightness(brightness);
                let response = self.apply(op);
                proof {
                    lemma_run_push(
                        origin,
                        b_origin,
                        fan_action(origin, on_ac),
                        acc,
                        rs,
                        before,
                        b_before,
                        op,
                        has_prefix(response@, "ok"@),
                        response@,
                        self@,
                        self.backend_value(),
                    );
                    acc = acc.push(has_prefix(response@, "ok"@));
                    rs = rs.push(response@);
                    lemma_apply_step(before, op, response@, self@);
                    lemma_admitted_push(id, allow, fan_action(origin, on_ac), op);
                    assert(fan_action(origin, on_ac).push(op) =~= power_ops(origin, on_ac));
                    assert(handed_ops(before.handed).push(op) =~= handed_ops(origin.handed)
                        + admitted(id, allow, fan_action(origin, on_ac)).push(op));
                }
                actions.push(response);
            }
        }
        assert(power_ops(origin, on_ac) =~= fan_action(origin, on_ac) + kbd_action(origin, on_ac));
        proof {
            if kbd_action(origin, on_ac).len() == 0 {
                assert(power_ops(origin, on_ac) =~= fan_action(origin, on_ac));
            }
        }
        assert(actions@.len() == power_ops(origin, on_ac).len());
        assert(ops_run(origin, b_origin, power_ops(origin, on_ac), acc, rs, self@, self.backend_value()));
        assert(rs =~= string_views(actions@));
        (actions, Ghost(acc))
    }

    /// The power source changed: applies the configured fan mode and
    /// keyboard brightness for the new source where they differ from the
    /// current ones.  Returns a description when something was attempted.
    pub fn on_power_change(&mut self, on_ac: bool) -> (r: Option<String>)
        ensures
            r is None <==> power_ops(old(self)@, on_ac).len() == 0,
            r is None ==> final(self)@ == old(self)@ && final(self).backend_value() == old(
                self,
            ).backend_value(),
            final(self)@.device == old(self)@.device,
            final(self)@.allow_experimental == old(self)@.allow_experimental,
            handed_ops(final(self)@.handed) == handed_ops(old(self)@.handed) + admitted(
                old(self)@.device.id,
                old(self)@.allow_experimental,
                power_ops(old(self)@, on_ac),
            ),
            r matches Some(t) ==> has_prefix(
                t@,
                "power source changed to "@ + source_text(on_ac) + ": "@,
            ),
            exists|acc: Seq<bool>, rs: Seq<Seq<char>>|
                {
                    &&& ops_run(
                        old(self)@,
                        old(self).backend_value(),
                        power_ops(old(self)@, on_ac),
                        acc,
                        rs,
                        final(self)@,
                        final(self).backend_value(),
                    )
                    &&& (r matches Some(t) ==> t@ == "power source changed to "@ + source_text(
                        on_ac,
                    ) + ": "@ + joined(rs))
                },
    {
        let ghost origin = self@;
        let ghost b_origin = self.backend_value();
        let (actions, Ghost(acc)) = self.power_actions(on_ac);
        let ghost rs = string_views(actions@);
        proof {
            lemma_run_keeps(origin, power_ops(origin, on_ac), acc);
        }
        if actions.len() == 0 {
            assert(power_ops(origin, on_ac) =~= Seq::<RequestedOperation>::empty());
            return None;
        }
        let mut text = String::from_str("power source changed to ");
        push_source(&mut text, on_ac);
        text.append(": ");
        let ghost prefix: Seq<char> = text@;
        proof {
            reveal_strlit("power source changed to ");
            assert(prefix =~= "power source changed to "@ + source_text(on_ac) + ": "@);
        }
        append_joined(&mut text, &actions);
        assert(text@.subrange(0, prefix.len() as int) =~= prefix);
        Some(text)
    }

    /// One poll of the power source: the automation runs when a reading is
    /// available and differs from the previous poll's.
    pub fn power_poll(&mut self, previous: Option<bool>, current: Option<bool>) -> (r: Option<
        String,
    >)
        ensures
            !(current is Some && previous != current) ==> r is None && final(self)@ == old(self)@
                && final(self).backend_value() == old(self).backend_value(),
            current is Some && previous != current ==> (r is None <==> power_ops(
                old(self)@,
                current->0,
            ).len() == 0) && handed_ops(final(self)@.handed) == handed_ops(old(self)@.handed)
                + admitted(
                old(self)@.device.id,
                old(self)@.allow_experimental,
                power_ops(old(self)@, current->0),
            ),
            current is Some && previous != current ==> exists|acc: Seq<bool>, rs: Seq<Seq<char>>|
                {
                    &&& ops_run(
                        old(self)@,
                        old(self).backend_value(),
                        power_ops(old(self)@, current->0),
                        acc,
                        rs,
                        final(self)@,
                        final(self).backend_value(),
                    )
                    &&& (r matches Some(t) ==> t@ == "power source changed to "@ + source_text(
                        current->0,
                    ) + ": "@ + joined(rs))
                },
    {
        match current {
            Some(now) => {
                let changed = match previous {
                    Some(before) => before != now,
                    None => true,
                };
                if changed {
                    self.on_power_change(now)
                } else {
                    None
                }
            },
            None => None,
        }
    }

    /// Daemon start-up: loads the saved state (nothing saved means an empty
    /// state), restores it through the normal validation path, and starts
    /// with nothing left to write.  Returns the restore log.
    pub fn restore(&mut self, saved: Option<PersistedState>) -> (r: Vec<String>)
        ensures
            ({
                let state = match saved {
                    Some(s) => s,
                    None => empty_state(),
                };
                reapply_progress(
                    DaemonView { state, ..old(self)@ },
                    final(self)@,
                    r@,
                    reapply_ops(state),
                )
            }),
            !final(self)@.dirty,
            ({
                let state = match saved {
                    Some(s) => s,
                    None => empty_state(),
                };
                exists|w: DaemonView|
                    {
                        &&& reapply_run(
                            DaemonView { state, ..old(self)@ },
                            old(self).backend_value(),
                            w,
                            final(self).backend_value(),
                            r@,
                            reapply_ops(state),
                        )
                        &&& final(self)@ == (DaemonView { dirty: false, ..w })
                    }
            }),
    {
        let state = match saved {
            Some(s) => s,
            None => PersistedState::default(),
        };
        self.load_state(state);
        let log = self.reapply_persisted();
        let ghost after = self@;
        self.take_dirty();
        assert(self@ == (DaemonView { dirty: false, ..after }));
        assert(reapply_log(after, self@.handed, log@, reapply_ops(state)) == reapply_log(
            after,
            after.handed,
            log@,
            reapply_ops(state),
        ));
        log
    }

    /// Re-apply the persisted profile, fan, battery and lighting settings
    /// through the normal validation path; called once at daemon startup.
    /// Returns one labelled log line per restored setting.
    pub fn reapply_persisted(&mut self) -> (r: Vec<String>)
        ensures
            reapply_progress(old(self)@, final(self)@, r@, reapply_ops(old(self)@.state)),
            reapply_run(
                old(self)@,
                old(self).backend_value(),
                final(self)@,
                final(self).backend_value(),
                r@,
                reapply_ops(old(self)@.state),
            ),
    {
        let ghost origin = self@;
        let ghost b0 = self.backend_value();
        let mut log: Vec<String> = Vec::new();
        proof {
            lemma_run_empty(origin, b0);
            let e: Seq<bool> = Seq::empty();
            let er: Seq<Seq<char>> = Seq::empty();
            assert(ops_run(origin, b0, Seq::empty(), e, er, self@, self.backend_value()));
        }
        assert(reapply_progress(origin, self@, log@, Seq::empty())) by {
            reveal(reapply_log);
            assert(handed_ops(self@.handed) =~= handed_ops(origin.handed) + admitted(
                origin.device.id,
                origin.allow_experimental,
                Seq::empty(),
            ));
        }
        self.reapply_power(&mut log, Ghost(origin), Ghost(b0));
        self.reapply_lighting(&mut log, Ghost(origin), Ghost(b0));
        log
    }

    /// Handle one request line and return the response line.
    pub fn handle_line(&mut self, line: &str) -> (r: String)
        ensures
            line_relation(old(self)@, line@, r@, final(self)@),
            !line_reaches_backend(old(self)@, line@) ==> final(self).backend_value() == old(
                self,
            ).backend_value(),
            request_of(line@) matches Ok(Request::Operation(op)) ==> op_step(
                old(self)@,
                old(self).backend_value(),
                op,
                has_prefix(r@, "ok"@),
                r@,
                final(self)@,
                final(self).backend_value(),
            ),
            has_prefix(r@, "ok"@) || has_prefix(r@, "err"@),
            visible(old(self)@.backend_name) && machine_one_line(old(self)@.machine) && (
            line_reaches_backend(old(self)@, line@) ==> old(self).backend_value().obeys_backend_spec()
                && old(self).backend_value().accepts_all()) ==> !r@.contains('\n'),
    {
        let ghost before = self@;
        let ghost b_before = self.backend_value();
        let r = self.answer_line(line);
        proof {
            law_one_line_per_reply(before, line@, r@, self@);
            if line_reaches_backend(before, line@) && b_before.obeys_backend_spec()
                && b_before.accepts_all() {
                assert(has_prefix(r@, "ok"@));
            }
            if one_line(r@) && r@.contains('\n') {
                let k = choose|k: int| 0 <= k < r@.len() && r@[k] == '\n';
                assert(r@[k] != '\n');
            }
        }
        r
    }

    /// One request line, answered.
    fn answer_line(&mut self, line: &str) -> (r: String)
        ensures
            line_relation(old(self)@, line@, r@, final(self)@),
            !line_reaches_backend(old(self)@, line@) ==> final(self).backend_value() == old(
                self,
            ).backend_value(),
            request_of(line@) matches Ok(Request::Operation(op)) ==> op_step(
                old(self)@,
                old(self).backend_value(),
                op,
                has_prefix(r@, "ok"@),
                r@,
                final(self)@,
                final(self).backend_value(),
            ),
            request_of(line@) matches Err(m) ==> one_line(m),
    {
        let request = match parse_request(line) {
            Ok(request) => request,
            Err(error) => {
                let mut s = String::from_str("err ");
                s.append(error.as_str());
                proof {
                    reveal_strlit("err ");
                }
                return s;
            },
        };
        match request {
            Request::Ping => {
                let r = String::from_str("ok pong");
                proof {
                    reveal_strlit("ok pong");
                }
                r
            },
            Request::Status => self.status_line(),
            Request::Telemetry => {
                let mut s = String::from_str("ok ");
                let t = self.telemetry.to_line();
                s.append(t.as_str());
                proof {
                    reveal_strlit("ok ");
                }
                s
            },
            Request::SysInfo => {
                let mut s = String::from_str("ok ");
                let t = sysinfo(self.simulate_telemetry, &self.machine);
                s.append(t.as_str());
                proof {
                    reveal_strlit("ok ");
                }
                s
            },
            Request::Automation { on_ac, fan } => self.set_fan_rule(on_ac, fan),
            Request::KbdAutomation { on_ac, brightness } => self.set_kbd_rule(on_ac, brightness),
            Request::Operation(operation) => self.apply(operation),
        }
    }
}

} // verus!
