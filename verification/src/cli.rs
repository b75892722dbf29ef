//! What the command-line tool decides: USB ids in hexadecimal, the device
//! report, the `validate` verdict and the `--backend` flag.

use vstd::prelude::*;
use vstd::string::*;

use crate::backend::{backend_choice_of, BackendChoice};
use crate::ipc::{operation_of, parse_operation, same_outcome};
use crate::telemetry::{bool_text, push_bool};
use crate::text::{
    chars_eq, chars_of, debug_text, dec, hex_digit, hex_digit_value, push_dec, str_debug,
    unsigned_body,
};
use crate::client::strip_repeated;
use crate::{
    find_device, find_device_spec, policy_message, policy_verdict, push_usb_id, usb_id_text,
    validate_operation, DeviceId, BLADE_14_2023_PRODUCT_ID, RAZER_VENDOR_ID,
};

verus! {

pub open spec fn all_hex(s: Seq<char>) -> bool {
    forall|i: int| 0 <= i < s.len() ==> #[trigger] hex_digit(s[i]) is Some
}

/// The number that a string of hexadecimal digits denotes.
pub open spec fn hex_value(s: Seq<char>) -> nat
    decreases s.len(),
{
    if s.len() == 0 {
        0
    } else {
        hex_value(s.drop_last()) * 16 + match hex_digit(s.last()) {
            Some(d) => d,
            None => 0,
        }
    }
}

/// `u16::from_str_radix(s, 16)`: an optional `+`, then at least one hex
/// digit and nothing else, with the value in range.
pub open spec fn hex_u16(s: Seq<char>) -> Option<u16> {
    let body = unsigned_body(s);
    if body.len() > 0 && all_hex(body) && hex_value(body) <= 0xffff {
        Some(hex_value(body) as u16)
    } else {
        None
    }
}

/// A USB id written in hexadecimal, with any number of leading `0x`.
pub open spec fn usb_id_part(value: Seq<char>) -> Result<u16, Seq<char>> {
    match hex_u16(strip_repeated(value, "0x"@)) {
        Some(v) => Ok(v),
        None => Err(str_debug(value) + " is not a valid hexadecimal USB ID"@),
    }
}

fn hex_u16_exec(s: &[char]) -> (r: Option<u16>)
    ensures
        r == hex_u16(s@),
{
    let ghost body = unsigned_body(s@);
    let start: usize = if s.len() > 0 && s[0] == '+' {
        1
    } else {
        0
    };
    assert(body =~= s@.subrange(start as int, s@.len() as int));
    if start >= s.len() {
        return None;
    }
    let mut acc: u32 = 0;
    let mut i: usize = start;
    assert(s@.subrange(start as int, start as int) =~= Seq::<char>::empty());
    while i < s.len()
        invariant
            start <= i <= s@.len(),
            start < s@.len(),
            body == s@.subrange(start as int, s@.len() as int),
            body == unsigned_body(s@),
            all_hex(s@.subrange(start as int, i as int)),
            acc == if hex_value(s@.subrange(start as int, i as int)) <= 0xffff {
                hex_value(s@.subrange(start as int, i as int))
            } else {
                0x10000
            },
        decreases s@.len() - i,
    {
        let c = s[i];
        let ghost before = s@.subrange(start as int, i as int);
        let ghost after = s@.subrange(start as int, i + 1);
        assert(after.drop_last() =~= before);
        assert(after.last() == c);
        match hex_digit_value(c) {
            None => {
                assert(body[i - start] == c);
                return None;
            },
            Some(d) => {
                if acc > 0xffff {
                    acc = 0x10000;
                } else {
                    let next: u32 = acc * 16 + d as u32;
                    if next > 0xffff {
                        acc = 0x10000;
                    } else {
                        acc = next;
                    }
                }
                proof {
                    if hex_value(before) > 0xffff {
                        assert(hex_value(after) >= hex_value(before) * 16);
                    }
                }
                assert(all_hex(after)) by {
                    assert forall|j: int| 0 <= j < after.len() implies #[trigger] hex_digit(
                        after[j],
                    ) is Some by {
                        if j < before.len() {
                            assert(after[j] == before[j]);
                        }
                    }
                }
            },
        }
        i = i + 1;
    }
    assert(s@.subrange(start as int, i as int) == body);
    if acc > 0xffff {
        None
    } else {
        Some(acc as u16)
    }
}

/// Reads one half of a USB id, `1532` or `0x1532`.
pub fn parse_hex(value: &str) -> (r: Result<u16, String>)
    ensures
        same_outcome(r, usb_id_part(value@)),
{
    let chars = chars_of(value);
    proof {
        reveal_strlit("0x");
    }
    let digits = crate::client::strip_repeated_exec(chars.as_slice(), "0x");
    match hex_u16_exec(digits.as_slice()) {
        Some(v) => Ok(v),
        None => {
            let mut m = debug_text(value);
            m.append(" is not a valid hexadecimal USB ID");
            Err(m)
        },
    }
}

/// The `device` command's two arguments as a USB id; the vendor is read
/// first.
pub open spec fn device_of(args: Seq<Seq<char>>) -> Result<DeviceId, Seq<char>> {
    if args.len() != 2 {
        Err("expected <vendor-hex> <product-hex>"@)
    } else {
        match usb_id_part(args[0]) {
            Err(e) => Err(e),
            Ok(vendor_id) => match usb_id_part(args[1]) {
                Err(e) => Err(e),
                Ok(product_id) => Ok(DeviceId { vendor_id, product_id }),
            },
        }
    }
}

pub open spec fn strings_view(v: Seq<String>) -> Seq<Seq<char>> {
    Seq::new(v.len(), |i: int| v[i]@)
}

pub fn parse_device(args: &[String]) -> (r: Result<DeviceId, String>)
    ensures
        same_outcome(r, device_of(strings_view(args@))),
{
    if args.len() != 2 {
        let m = String::from_str("expected <vendor-hex> <product-hex>");
        proof {
            reveal_strlit("expected <vendor-hex> <product-hex>");
        }
        return Err(m);
    }
    let ghost av = strings_view(args@);
    assert(av[0] == args@[0]@ && av[1] == args@[1]@);
    let vendor_id = match parse_hex(args[0].as_str()) {
        Ok(v) => v,
        Err(e) => return Err(e),
    };
    let product_id = match parse_hex(args[1].as_str()) {
        Ok(v) => v,
        Err(e) => return Err(e),
    };
    Ok(DeviceId { vendor_id, product_id })
}

/// The device the command-line tool validates against.
pub fn current_supported_device() -> (r: DeviceId)
    ensures
        r == crate::blade_14_2023_id(),
{
    DeviceId { vendor_id: RAZER_VENDOR_ID, product_id: BLADE_14_2023_PRODUCT_ID }
}

/// The `device` command's report.
pub open spec fn device_report_text(id: DeviceId) -> Seq<char> {
    match find_device_spec(id) {
        Some(d) => "supported: "@ + d.name@ + " ("@ + usb_id_text(id) + "); fan "@ + dec(
            d.fan_range.min_rpm as nat,
        ) + "\u{2013}"@ + dec(d.fan_range.max_rpm as nat) + " RPM; BHO="@ + bool_text(
            d.supports_battery_health_optimizer,
        ) + "; boost="@ + bool_text(d.supports_boost),
        None => "unsupported: "@ + usb_id_text(id),
    }
}

pub fn device_report(id: DeviceId) -> (r: String)
    ensures
        r@ == device_report_text(id),
{
    match find_device(id) {
        Some(device) => {
            let mut s = String::from_str("supported: ");
            s.append(device.name);
            s.append(" (");
            push_usb_id(&mut s, id);
            s.append("); fan ");
            push_dec(&mut s, device.fan_range.min_rpm as u64);
            s.append("\u{2013}");
            push_dec(&mut s, device.fan_range.max_rpm as u64);
            s.append(" RPM; BHO=");
            push_bool(&mut s, device.supports_battery_health_optimizer);
            s.append("; boost=");
            push_bool(&mut s, device.supports_boost);
            proof {
                reveal_strlit("supported: ");
            }
            assert(s@ =~= device_report_text(id));
            s
        },
        None => {
            let mut s = String::from_str("unsupported: ");
            push_usb_id(&mut s, id);
            proof {
                reveal_strlit("unsupported: ");
            }
            assert(s@ =~= device_report_text(id));
            s
        },
    }
}

/// The arguments other than `--experimental`, in order.
pub open spec fn without_flag(args: Seq<Seq<char>>) -> Seq<Seq<char>>
    decreases args.len(),
{
    if args.len() == 0 {
        Seq::empty()
    } else {
        let rest = without_flag(args.drop_last());
        if args.last() == "--experimental"@ {
            rest
        } else {
            rest.push(args.last())
        }
    }
}

pub open spec fn has_experimental_flag(args: Seq<Seq<char>>) -> bool {
    exists|i: int| 0 <= i < args.len() && args[i] == "--experimental"@
}

/// The `validate` command: the operation the other arguments spell,
/// checked against the supported device, with the experimental opt-in when
/// `--experimental` is among the arguments.
pub open spec fn validate_verdict(args: Seq<Seq<char>>) -> Result<Seq<char>, Seq<char>> {
    match operation_of(without_flag(args)) {
        Err(e) => Err(e),
        Ok(op) => match policy_verdict(
            crate::blade_14_2023_id(),
            op,
            has_experimental_flag(args),
        ) {
            Err(e) => Err(policy_message(e)),
            Ok(_) => Ok("accepted by safety policy; no hardware command was sent"@),
        },
    }
}

pub open spec fn strs_view(v: Seq<&str>) -> Seq<Seq<char>> {
    Seq::new(v.len(), |i: int| v[i]@)
}

pub fn validate_command(args: &[&str]) -> (r: Result<String, String>)
    ensures
        match (r, validate_verdict(strs_view(args@))) {
            (Ok(a), Ok(b)) => a@ == b,
            (Err(a), Err(b)) => a@ == b,
            _ => false,
        },
{
    let ghost av = strs_view(args@);
    let mut tokens: Vec<&str> = Vec::new();
    let mut experimental = false;
    let mut i: usize = 0;
    assert(av.subrange(0, 0) =~= Seq::<Seq<char>>::empty());
    assert(strs_view(tokens@) =~= Seq::<Seq<char>>::empty());
    while i < args.len()
        invariant
            i <= args@.len(),
            av == strs_view(args@),
            strs_view(tokens@) == without_flag(av.subrange(0, i as int)),
            experimental == exists|j: int| 0 <= j < i && av[j] == "--experimental"@,
        decreases args.len() - i,
    {
        let ghost before = strs_view(tokens@);
        assert(av.subrange(0, i + 1).drop_last() =~= av.subrange(0, i as int));
        assert(av.subrange(0, i + 1).last() == av[i as int]);
        assert(av[i as int] == args@[i as int]@);
        if chars_eq(chars_of(args[i]).as_slice(), "--experimental") {
            experimental = true;
        } else {
            tokens.push(args[i]);
            assert(strs_view(tokens@) =~= before.push(args@[i as int]@));
        }
        i = i + 1;
    }
    assert(av.subrange(0, av.len() as int) =~= av);
    let operation = match parse_operation(tokens.as_slice()) {
        Ok(op) => op,
        Err(e) => {
            assert(strs_view(tokens@) == without_flag(av));
            return Err(e);
        },
    };
    match validate_operation(current_supported_device(), operation, experimental) {
        Err(e) => Err(e.message()),
        Ok(()) => {
            let m = String::from_str("accepted by safety policy; no hardware command was sent");
            proof {
                reveal_strlit("accepted by safety policy; no hardware command was sent");
            }
            Ok(m)
        },
    }
}

/// `--backend <name>`, defaulting to the dry run: hardware access is opt-in
/// per invocation, never ambient.
pub open spec fn backend_flag_verdict(args: Seq<Seq<char>>) -> Result<BackendChoice, Seq<char>> {
    if exists|i: int| 0 <= i < args.len() && args[i] == "--backend"@ {
        let i = choose|i: int|
            0 <= i < args.len() && args[i] == "--backend"@ && forall|j: int|
                0 <= j < i ==> args[j] != "--backend"@;
        if i + 1 < args.len() {
            backend_choice_of(args[i + 1])
        } else {
            Err("--backend requires a value: dry-run or hidraw"@)
        }
    } else {
        Ok(BackendChoice::DryRun)
    }
}

pub fn parse_backend_flag(args: &[String]) -> (r: Result<BackendChoice, String>)
    ensures
        same_outcome(r, backend_flag_verdict(strings_view(args@))),
{
    let ghost av = strings_view(args@);
    let mut i: usize = 0;
    while i < args.len()
        invariant
            i <= args@.len(),
            av == strings_view(args@),
            forall|j: int| 0 <= j < i ==> av[j] != "--backend"@,
        decreases args.len() - i,
    {
        assert(av[i as int] == args@[i as int]@);
        if chars_eq(chars_of(args[i].as_str()).as_slice(), "--backend") {
            proof {
                assert(0 <= i < av.len() && av[i as int] == "--backend"@ && forall|j: int|
                    0 <= j < i ==> av[j] != "--backend"@);
                let k = choose|k: int|
                    0 <= k < av.len() && av[k] == "--backend"@ && forall|j: int|
                        0 <= j < k ==> av[j] != "--backend"@;
                if k < i {
                    assert(av[k] != "--backend"@);
                } else if k > i {
                    assert(av[i as int] != "--backend"@);
                }
            }
            if i + 1 < args.len() {
                assert(av[i + 1] == args@[i + 1]@);
                return BackendChoice::parse(args[i + 1].as_str());
            }
            let m = String::from_str("--backend requires a value: dry-run or hidraw");
            proof {
                reveal_strlit("--backend requires a value: dry-run or hidraw");
            }
            return Err(m);
        }
        i = i + 1;
    }
    Ok(BackendChoice::DryRun)
}

} // verus!
