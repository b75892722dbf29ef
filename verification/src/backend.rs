//! Hardware backends.  The daemon core only talks to the [`Backend`] trait.
//! The built-in implementation is a dry run that records what it would have
//! sent; the hidraw backend lives with the transport and is chosen
//! explicitly on the command line.

use vstd::prelude::*;
use vstd::string::*;

use crate::protocol::{
    response_error_message, CrcWindow, ResponseError, ResponseStatus, ValidResponse,
    RESPONSE_ARGS_OFFSET, REPORT_LEN,
};
use crate::text::{debug_text, dec, push_dec, str_debug};
use crate::{push_usb_id, usb_id_text, DeviceId, EcContext, RequestedOperation};

verus! {

/// Which backend the daemon drives, chosen on the command line.
#[derive(Debug, Clone, Copy, PartialEq, Eq, Structural)]
pub enum BackendChoice {
    DryRun,
    Hidraw,
}

/// The answer to a backend name: the two known names, or the refusal text.
pub open spec fn backend_choice_of(name: Seq<char>) -> Result<BackendChoice, Seq<char>> {
    if name == "dry-run"@ {
        Ok(BackendChoice::DryRun)
    } else if name == "hidraw"@ {
        Ok(BackendChoice::Hidraw)
    } else {
        Err("unknown backend "@ + str_debug(name) + "; expected \"dry-run\" or \"hidraw\""@)
    }
}

impl BackendChoice {
    pub fn parse(name: &str) -> (r: Result<BackendChoice, String>)
        ensures
            crate::ipc::same_outcome(r, backend_choice_of(name@)),
    {
        if crate::text::chars_eq(crate::text::chars_of(name).as_slice(), "dry-run") {
            return Ok(BackendChoice::DryRun);
        }
        if crate::text::chars_eq(crate::text::chars_of(name).as_slice(), "hidraw") {
            return Ok(BackendChoice::Hidraw);
        }
        let mut message = String::from_str("unknown backend ");
        let quoted = debug_text(name);
        message.append(quoted.as_str());
        message.append("; expected \"dry-run\" or \"hidraw\"");
        proof {
            reveal_strlit("unknown backend ");
        }
        Err(message)
    }
}

/// The facts about one enumerated HID interface that the laptop-vs-peripheral
/// decision needs, held as plain values so the selection logic does not
/// depend on the enumeration library.
#[derive(Debug, Clone, Copy, PartialEq, Eq, Structural)]
pub struct HidCandidate {
    pub vendor_id: u16,
    pub product_id: u16,
    pub interface_number: i32,
    pub usage_page: u16,
}

/// The candidate is the expected product on interface 0 (`zero`), or on a
/// vendor-defined usage page of at least 0xff00 (`!zero`).
pub open spec fn picks(candidate: HidCandidate, expected: DeviceId, zero: bool) -> bool {
    &&& candidate.vendor_id == expected.vendor_id
    &&& candidate.product_id == expected.product_id
    &&& if zero {
        candidate.interface_number == 0
    } else {
        candidate.usage_page >= 0xff00
    }
}

/// `i` is the first index of `s` that `picks` accepts.
pub open spec fn first_pick(s: Seq<HidCandidate>, expected: DeviceId, zero: bool, i: int) -> bool {
    &&& 0 <= i < s.len()
    &&& picks(s[i], expected, zero)
    &&& forall|j: int| 0 <= j < i ==> !picks(#[trigger] s[j], expected, zero)
}

/// No element of `s` is accepted by `picks`.
pub open spec fn no_pick(s: Seq<HidCandidate>, expected: DeviceId, zero: bool) -> bool {
    forall|j: int| 0 <= j < s.len() ==> !picks(#[trigger] s[j], expected, zero)
}

fn position(candidates: &[HidCandidate], expected: DeviceId, zero: bool) -> (r: Option<usize>)
    ensures
        r matches Some(i) ==> first_pick(candidates@, expected, zero, i as int),
        r is None ==> no_pick(candidates@, expected, zero),
{
    let mut i: usize = 0;
    while i < candidates.len()
        invariant
            i <= candidates@.len(),
            forall|j: int| 0 <= j < i ==> !picks(#[trigger] candidates@[j], expected, zero),
        decreases candidates.len() - i,
    {
        let c = candidates[i];
        let hit = c.vendor_id == expected.vendor_id && c.product_id == expected.product_id && (
        if zero {
            c.interface_number == 0
        } else {
            c.usage_page >= 0xff00
        });
        if hit {
            return Some(i);
        }
        i = i + 1;
    }
    None
}

/// Picks the EC interface for `expected` from an enumeration snapshot: the
/// exact product on interface 0 wins; otherwise the exact product on a
/// vendor-defined usage page (>= 0xff00).  Another product id (a plugged-in
/// Razer mouse or keyboard) is never selected.
pub fn select_hid_candidate(expected: DeviceId, candidates: &[HidCandidate]) -> (r: Option<usize>)
    ensures
        r matches Some(i) ==> first_pick(candidates@, expected, true, i as int) || (no_pick(
            candidates@,
            expected,
            true,
        ) && first_pick(candidates@, expected, false, i as int)),
        r is None ==> no_pick(candidates@, expected, true) && no_pick(
            candidates@,
            expected,
            false,
        ),
{
    match position(candidates, expected, true) {
        Some(i) => Some(i),
        None => position(candidates, expected, false),
    }
}

/// Whatever is enumerated, the interface chosen is the expected product's:
/// another product of the same vendor is never mistaken for the EC.
pub proof fn law_selection_never_picks_another_product(
    expected: DeviceId,
    candidates: Seq<HidCandidate>,
    i: int,
)
    requires
        first_pick(candidates, expected, true, i) || (no_pick(candidates, expected, true)
            && first_pick(candidates, expected, false, i)),
    ensures
        0 <= i < candidates.len(),
        candidates[i].vendor_id == expected.vendor_id,
        candidates[i].product_id == expected.product_id,
{
}

/// A hardware backend.  `context` is the daemon's current EC state; the
/// wire encoding of fan and profile operations each re-asserts part of the
/// other's state.
pub trait Backend {
    /// Whether the backend follows the specification functions below; a
    /// backend that does not is only held to its signatures.
    open spec fn obeys_backend_spec(&self) -> bool {
        false
    }

    /// The name the backend reports.
    open spec fn name_spec(&self) -> Seq<char> {
        Seq::empty()
    }

    /// The operations the backend has accepted, and the context of each,
    /// index-aligned.
    open spec fn accepted_log(&self) -> (Seq<RequestedOperation>, Seq<EcContext>) {
        (Seq::empty(), Seq::empty())
    }

    /// The backend accepts every operation it is handed.
    open spec fn accepts_all(&self) -> bool {
        false
    }

    fn name(&self) -> (r: &'static str)
        ensures
            self.obeys_backend_spec() ==> r@ == self.name_spec(),
    ;

    /// Sends one operation.  For a backend that follows its specification,
    /// an accepted operation is added to the log, a refused one leaves the
    /// log as it was, and only a backend that does not accept everything
    /// refuses.
    fn apply(&mut self, device: DeviceId, operation: RequestedOperation, context: EcContext) -> (r:
        Result<(), String>)
        ensures
            final(self).obeys_backend_spec() == old(self).obeys_backend_spec(),
            old(self).obeys_backend_spec() ==> {
                &&& final(self).name_spec() == old(self).name_spec()
                &&& final(self).accepts_all() == old(self).accepts_all()
                &&& (old(self).accepts_all() ==> r is Ok)
                &&& (r is Ok ==> final(self).accepted_log() == (
                    old(self).accepted_log().0.push(operation),
                    old(self).accepted_log().1.push(context),
                ))
                &&& (r is Err ==> final(self).accepted_log() == old(self).accepted_log())
            },
    ;
}

/// Records every accepted operation instead of touching hardware.
#[derive(Debug)]
pub struct DryRunBackend {
    pub applied: Vec<RequestedOperation>,
    /// The context each operation was applied under, index-aligned with
    /// `applied`.
    pub contexts: Vec<EcContext>,
}

impl Default for DryRunBackend {
    fn default() -> (r: DryRunBackend)
        ensures
            r.applied@ == Seq::<RequestedOperation>::empty(),
            r.contexts@ == Seq::<EcContext>::empty(),
    {
        DryRunBackend { applied: Vec::new(), contexts: Vec::new() }
    }
}

impl Backend for DryRunBackend {
    open spec fn obeys_backend_spec(&self) -> bool {
        true
    }

    open spec fn name_spec(&self) -> Seq<char> {
        "dry-run"@
    }

    open spec fn accepted_log(&self) -> (Seq<RequestedOperation>, Seq<EcContext>) {
        (self.applied@, self.contexts@)
    }

    open spec fn accepts_all(&self) -> bool {
        true
    }

    fn name(&self) -> (r: &'static str)
        ensures
            r@ == "dry-run"@,
    {
        "dry-run"
    }

    fn apply(&mut self, device: DeviceId, operation: RequestedOperation, context: EcContext) -> (r:
        Result<(), String>)
        ensures
            r is Ok,
            final(self).applied@ == old(self).applied@.push(operation),
            final(self).contexts@ == old(self).contexts@.push(context),
    {
        self.applied.push(operation);
        self.contexts.push(context);
        Ok(())
    }
}


// ----------------------------------------------------------------------
// The hidraw exchange: send a feature report, read the reply, decide.
// ----------------------------------------------------------------------

/// The retries one exchange has used: one after a BUSY verdict, and one
/// immediate re-send after a malformed or stale frame.
#[derive(Debug, Clone, Copy, PartialEq, Eq, Structural)]
pub struct RetryState {
    pub busy_retried: bool,
    pub malformed_retried: bool,
}

impl RetryState {
    pub fn fresh() -> (r: RetryState)
        ensures
            r == (RetryState { busy_retried: false, malformed_retried: false }),
    {
        RetryState { busy_retried: false, malformed_retried: false }
    }
}

/// What the exchange does after one reply.
#[derive(Debug, Clone, PartialEq, Eq)]
pub enum ExchangeStep {
    /// A fully validated successful frame, and the checksum window it met.
    Done(CrcWindow),
    /// Back off, then send again.
    RetryAfterDelay,
    /// Send again at once.
    RetryNow,
    /// Give up with this error.
    Fail(String),
}

pub open spec fn retryable(e: ResponseError) -> bool {
    match e {
        ResponseError::Status(status) => status == ResponseStatus::New,
        _ => true,
    }
}

/// The decision after one reply, given the retries used so far.
pub open spec fn step_relation(
    old: RetryState,
    new: RetryState,
    verdict: Result<ValidResponse, ResponseError>,
    r: ExchangeStep,
) -> bool {
    match verdict {
        Ok(ValidResponse::Success { crc_window }) => r == ExchangeStep::Done(crc_window) && new
            == old,
        Ok(ValidResponse::Busy) => if !old.busy_retried {
            r == ExchangeStep::RetryAfterDelay && new == (RetryState { busy_retried: true, ..old })
        } else {
            new == old && (r matches ExchangeStep::Fail(m) && m@ == "EC still busy after retry"@)
        },
        Err(e) => if retryable(e) && !old.malformed_retried {
            r == ExchangeStep::RetryNow && new == (RetryState { malformed_retried: true, ..old })
        } else if retryable(e) {
            new == old && (r matches ExchangeStep::Fail(m) && m@ == "invalid EC response: "@
                + response_error_message(e))
        } else {
            new == old && (r matches ExchangeStep::Fail(m) && m@ == response_error_message(e))
        },
    }
}

/// Only a successful frame ends the exchange well; a BUSY verdict earns one
/// delayed retry and a malformed or stale frame one immediate re-send, each
/// at most once, independently; the EC's own verdicts end it with their
/// own text.
pub fn exchange_step(state: &mut RetryState, verdict: Result<ValidResponse, ResponseError>) -> (r:
    ExchangeStep)
    ensures
        step_relation(*old(state), *final(state), verdict, r),
{
    match verdict {
        Ok(ValidResponse::Success { crc_window }) => ExchangeStep::Done(crc_window),
        Ok(ValidResponse::Busy) => {
            if !state.busy_retried {
                state.busy_retried = true;
                ExchangeStep::RetryAfterDelay
            } else {
                ExchangeStep::Fail(String::from_str("EC still busy after retry"))
            }
        },
        Err(error) => {
            if error.is_retryable() && !state.malformed_retried {
                state.malformed_retried = true;
                ExchangeStep::RetryNow
            } else if error.is_retryable() {
                let mut m = String::from_str("invalid EC response: ");
                let text = error.message();
                m.append(text.as_str());
                proof {
                    reveal_strlit("invalid EC response: ");
                }
                ExchangeStep::Fail(m)
            } else {
                ExchangeStep::Fail(error.message())
            }
        },
    }
}

/// The retries left: each decision that asks for another send uses one up,
/// so an exchange sends at most three times.
pub open spec fn retries_left(s: RetryState) -> nat {
    (if s.busy_retried {
        0nat
    } else {
        1nat
    }) + (if s.malformed_retried {
        0nat
    } else {
        1nat
    })
}

/// Every decision to send again uses up one of the retries, so the
/// exchange ends after at most three sends whatever the EC answers.
pub proof fn law_exchange_retries_are_bounded(
    old: RetryState,
    new: RetryState,
    verdict: Result<ValidResponse, ResponseError>,
    step: ExchangeStep,
)
    requires
        step_relation(old, new, verdict, step),
    ensures
        (step is RetryAfterDelay || step is RetryNow) ==> retries_left(new) + 1 == retries_left(
            old,
        ),
        !(step is RetryAfterDelay || step is RetryNow) ==> new == old,
        step is Done <==> verdict matches Ok(ValidResponse::Success { .. }),
{
}

/// The backend serves one device only: an operation for another one is
/// refused with both ids.
pub open spec fn held_device_verdict(held: DeviceId, requested: DeviceId) -> Result<(), Seq<char>> {
    if held == requested {
        Ok(())
    } else {
        Err("backend holds "@ + usb_id_text(held) + ", not "@ + usb_id_text(requested))
    }
}

pub fn check_held_device(held: DeviceId, requested: DeviceId) -> (r: Result<(), String>)
    ensures
        crate::ipc::same_outcome(r, held_device_verdict(held, requested)),
{
    if held.vendor_id == requested.vendor_id && held.product_id == requested.product_id {
        return Ok(());
    }
    let mut m = String::from_str("backend holds ");
    push_usb_id(&mut m, held);
    m.append(", not ");
    push_usb_id(&mut m, requested);
    proof {
        reveal_strlit("backend holds ");
    }
    assert(m@ =~= "backend holds "@ + usb_id_text(held) + ", not "@ + usb_id_text(requested));
    Err(m)
}

// ----------------------------------------------------------------------
// The read-only probe's report.
// ----------------------------------------------------------------------

/// One zone's line of the probe: mode byte, manual-fan flag, boost level
/// and fan setpoint (the setpoint byte is hundreds of RPM).
pub open spec fn probe_zone_text(name: Seq<char>, mode: Seq<u8>, boost: Seq<u8>, setpoint: Seq<u8>) -> Seq<
    char,
> {
    name + ": mode="@ + dec(mode[RESPONSE_ARGS_OFFSET + 2] as nat) + " manual_fan="@ + dec(
        mode[RESPONSE_ARGS_OFFSET + 3] as nat,
    ) + " boost="@ + dec(boost[RESPONSE_ARGS_OFFSET + 2] as nat) + " fan_setpoint_rpm="@ + dec(
        setpoint[RESPONSE_ARGS_OFFSET + 2] as nat * 100,
    ) + "\n"@
}

pub fn probe_zone_line(
    name: &str,
    mode: &[u8; REPORT_LEN],
    boost: &[u8; REPORT_LEN],
    setpoint: &[u8; REPORT_LEN],
) -> (r: String)
    ensures
        r@ == probe_zone_text(name@, mode@, boost@, setpoint@),
{
    let mut s = String::from_str(name);
    s.append(": mode=");
    push_dec(&mut s, mode[RESPONSE_ARGS_OFFSET + 2] as u64);
    s.append(" manual_fan=");
    push_dec(&mut s, mode[RESPONSE_ARGS_OFFSET + 3] as u64);
    s.append(" boost=");
    push_dec(&mut s, boost[RESPONSE_ARGS_OFFSET + 2] as u64);
    s.append(" fan_setpoint_rpm=");
    push_dec(&mut s, setpoint[RESPONSE_ARGS_OFFSET + 2] as u64 * 100);
    s.append("\n");
    assert(s@ =~= probe_zone_text(name@, mode@, boost@, setpoint@));
    s
}

/// The probe's battery line, from the first argument byte of the reply.
pub open spec fn probe_bho_text(bho: Seq<u8>) -> Seq<char> {
    let (enabled, threshold) = crate::protocol::decode_bho(bho[RESPONSE_ARGS_OFFSET as int]);
    "bho: enabled="@ + crate::telemetry::bool_text(enabled) + " threshold="@ + dec(
        threshold as nat,
    ) + "%"@
}

pub fn probe_bho_line(bho: &[u8; REPORT_LEN]) -> (r: String)
    ensures
        r@ == probe_bho_text(bho@),
{
    let (enabled, threshold) = crate::protocol::decode_battery_health(bho[RESPONSE_ARGS_OFFSET]);
    let mut s = String::from_str("bho: enabled=");
    crate::telemetry::push_bool(&mut s, enabled);
    s.append(" threshold=");
    push_dec(&mut s, threshold as u64);
    s.append("%");
    proof {
        reveal_strlit("bho: enabled=");
    }
    assert(s@ =~= probe_bho_text(bho@));
    s
}

} // verus!
