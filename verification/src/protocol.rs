//! Razer Blade EC wire protocol: pure packet construction and response
//! validation, no I/O.
//!
//! A report is 91 bytes: the HID report number, the status byte, the
//! transaction id, two remaining-packet bytes, the protocol type, the data
//! size, the command class and id, 80 argument bytes, the checksum and a
//! reserved byte.

use vstd::prelude::*;
use vstd::string::*;

use crate::text::{hex_fixed, push_dec, push_hex, dec};
use crate::{BoostLevel, EcContext, FanMode, LightingEffect, LogoMode, Profile, RequestedOperation};

verus! {

/// Feature-report buffer length, including the leading HID report number.
pub const REPORT_LEN: usize = 91;

pub const ARGS_LEN: usize = 80;

/// Transaction id used by the Blade laptop EC.
pub const TRANSACTION_ID: u8 = 0x1f;

pub const OFFSET_TRANSACTION_ID: usize = 2;

pub const OFFSET_DATA_SIZE: usize = 6;

pub const OFFSET_COMMAND_CLASS: usize = 7;

pub const OFFSET_COMMAND_ID: usize = 8;

pub const OFFSET_ARGS: usize = 9;

pub const OFFSET_CRC: usize = 89;

/// Offset of args[0] within a wire report (args[i] = report[9 + i]).
pub const RESPONSE_ARGS_OFFSET: usize = 9;

/// The EC's fan/performance commands address two zones.
#[derive(Debug, Clone, Copy, PartialEq, Eq, Structural)]
pub enum Zone {
    Cpu,
    Gpu,
}

impl Zone {
    pub open spec fn wire(self) -> u8 {
        match self {
            Zone::Cpu => 0x01,
            Zone::Gpu => 0x02,
        }
    }

    pub fn wire_value(self) -> (r: u8)
        ensures
            r == self.wire(),
    {
        match self {
            Zone::Cpu => 0x01,
            Zone::Gpu => 0x02,
        }
    }
}

/// Status byte of a response report.
#[derive(Debug, Clone, Copy, PartialEq, Eq, Structural)]
pub enum ResponseStatus {
    New,
    Busy,
    Success,
    Failure,
    Timeout,
    NotSupported,
}

pub open spec fn status_from_wire(byte: u8) -> Option<ResponseStatus> {
    if byte == 0x00 {
        Some(ResponseStatus::New)
    } else if byte == 0x01 {
        Some(ResponseStatus::Busy)
    } else if byte == 0x02 {
        Some(ResponseStatus::Success)
    } else if byte == 0x03 {
        Some(ResponseStatus::Failure)
    } else if byte == 0x04 {
        Some(ResponseStatus::Timeout)
    } else if byte == 0x05 {
        Some(ResponseStatus::NotSupported)
    } else {
        None
    }
}

impl ResponseStatus {
    pub fn from_wire(byte: u8) -> (r: Option<ResponseStatus>)
        ensures
            r == status_from_wire(byte),
    {
        match byte {
            0x00 => Some(ResponseStatus::New),
            0x01 => Some(ResponseStatus::Busy),
            0x02 => Some(ResponseStatus::Success),
            0x03 => Some(ResponseStatus::Failure),
            0x04 => Some(ResponseStatus::Timeout),
            0x05 => Some(ResponseStatus::NotSupported),
            _ => None,
        }
    }
}

/// Reads the status byte out of a response buffer.
pub fn response_status(report: &[u8; REPORT_LEN]) -> (r: Option<ResponseStatus>)
    ensures
        r == status_from_wire(report@[1]),
{
    ResponseStatus::from_wire(report[1])
}

/// Which XOR window the checksum of a successful response satisfied.
#[derive(Debug, Clone, Copy, PartialEq, Eq, Structural)]
pub enum CrcWindow {
    /// XOR of wire bytes 2..88: transaction id through args[78].
    Lineage,
    /// XOR of wire bytes 3..=88: remaining-packets through args[79].
    OpenRazer,
    /// The two windows coincide on this frame and both matched.
    Ambiguous,
}

impl CrcWindow {
    pub fn as_str(self) -> (r: &'static str)
        ensures
            r@ == match self {
                CrcWindow::Lineage => "lineage"@,
                CrcWindow::OpenRazer => "openrazer"@,
                CrcWindow::Ambiguous => "ambiguous"@,
            },
    {
        match self {
            CrcWindow::Lineage => "lineage",
            CrcWindow::OpenRazer => "openrazer",
            CrcWindow::Ambiguous => "ambiguous",
        }
    }
}

/// Why a response buffer was rejected.
#[derive(Debug, Clone, Copy, PartialEq, Eq, Structural)]
pub enum ResponseError {
    /// Not exactly 91 bytes.
    Length(usize),
    /// Leading HID report number was not 0x00.
    ReportId(u8),
    /// A multi-packet response.
    RemainingPackets(u16),
    /// Protocol-type byte was not 0x00.
    ProtocolType(u8),
    /// Declared data size exceeds the 80 args bytes a report can carry.
    DataSize(u8),
    /// Status byte outside the known set.
    UnknownStatus(u8),
    /// A well-formed frame carrying the EC's own non-success verdict.
    Status(ResponseStatus),
    /// Success frame whose transaction id is not the one we send.
    TransactionId(u8),
    /// Success frame answering some other command: a stale reply.
    Command { class: u8, id: u8 },
    /// Success frame not echoing the request's data size.
    DataSizeEcho { got: u8, expected: u8 },
    /// Success frame whose checksum matches neither window.
    Checksum { got: u8, lineage: u8, openrazer: u8 },
}

/// `format!("{:#04x}", byte)`: `0x` and two lowercase hex digits.
pub open spec fn alt_hex(byte: u8) -> Seq<char> {
    "0x"@ + hex_fixed(byte as nat, 2)
}

pub open spec fn status_name(s: ResponseStatus) -> Seq<char> {
    match s {
        ResponseStatus::New => "New"@,
        ResponseStatus::Busy => "Busy"@,
        ResponseStatus::Success => "Success"@,
        ResponseStatus::Failure => "Failure"@,
        ResponseStatus::Timeout => "Timeout"@,
        ResponseStatus::NotSupported => "NotSupported"@,
    }
}

/// The text reported for a rejected response.
pub open spec fn response_error_message(e: ResponseError) -> Seq<char> {
    match e {
        ResponseError::Length(actual) => "EC response is "@ + dec(actual as nat)
            + " bytes, expected 91"@,
        ResponseError::ReportId(actual) => "EC response report number "@ + alt_hex(actual)
            + ", expected 0x00"@,
        ResponseError::RemainingPackets(remaining) => "multi-packet EC response ("@ + dec(
            remaining as nat,
        ) + " remaining)"@,
        ResponseError::ProtocolType(actual) => "EC response protocol type "@ + alt_hex(actual)
            + ", expected 0x00"@,
        ResponseError::DataSize(actual) => "EC response data size "@ + dec(actual as nat)
            + " exceeds 80"@,
        ResponseError::UnknownStatus(byte) => "EC returned an unknown status byte ("@ + alt_hex(
            byte,
        ) + ")"@,
        ResponseError::Status(status) => if status == ResponseStatus::NotSupported {
            "EC reports this command as unsupported"@
        } else {
            "EC returned "@ + status_name(status)
        },
        ResponseError::TransactionId(actual) => "EC response transaction id "@ + alt_hex(actual)
            + ", expected "@ + alt_hex(TRANSACTION_ID),
        ResponseError::Command { .. } => "EC answered a different command"@,
        ResponseError::DataSizeEcho { got, expected } => "EC response data size "@ + dec(
            got as nat,
        ) + ", expected "@ + dec(expected as nat),
        ResponseError::Checksum { got, lineage, openrazer } => "EC response checksum "@
            + alt_hex(got) + " matches neither window (lineage "@ + alt_hex(lineage)
            + ", openrazer "@ + alt_hex(openrazer) + ")"@,
    }
}

fn push_alt_hex(s: &mut String, byte: u8)
    ensures
        final(s)@ == old(s)@ + alt_hex(byte),
{
    s.append("0x");
    push_hex(s, byte as u64, 2);
    assert(final(s)@ =~= old(s)@ + alt_hex(byte));
}

fn push_status_name(s: &mut String, status: ResponseStatus)
    ensures
        final(s)@ == old(s)@ + status_name(status),
{
    match status {
        ResponseStatus::New => s.append("New"),
        ResponseStatus::Busy => s.append("Busy"),
        ResponseStatus::Success => s.append("Success"),
        ResponseStatus::Failure => s.append("Failure"),
        ResponseStatus::Timeout => s.append("Timeout"),
        ResponseStatus::NotSupported => s.append("NotSupported"),
    }
}

impl ResponseError {
    /// Whether one re-send is worth attempting: everything malformed or
    /// stale is; the EC's own verdicts are terminal, except NEW.
    pub fn is_retryable(self) -> (r: bool)
        ensures
            r == match self {
                ResponseError::Status(status) => status == ResponseStatus::New,
                _ => true,
            },
    {
        match self {
            ResponseError::Status(status) => status == ResponseStatus::New,
            _ => true,
        }
    }

    /// The human-readable description of the rejection.
    pub fn message(&self) -> (r: String)
        ensures
            r@ == response_error_message(*self),
    {
        let mut s = String::new();
        match *self {
            ResponseError::Length(actual) => {
                s.append("EC response is ");
                push_dec(&mut s, actual as u64);
                s.append(" bytes, expected 91");
            },
            ResponseError::ReportId(actual) => {
                s.append("EC response report number ");
                push_alt_hex(&mut s, actual);
                s.append(", expected 0x00");
            },
            ResponseError::RemainingPackets(remaining) => {
                s.append("multi-packet EC response (");
                push_dec(&mut s, remaining as u64);
                s.append(" remaining)");
            },
            ResponseError::ProtocolType(actual) => {
                s.append("EC response protocol type ");
                push_alt_hex(&mut s, actual);
                s.append(", expected 0x00");
            },
            ResponseError::DataSize(actual) => {
                s.append("EC response data size ");
                push_dec(&mut s, actual as u64);
                s.append(" exceeds 80");
            },
            ResponseError::UnknownStatus(byte) => {
                s.append("EC returned an unknown status byte (");
                push_alt_hex(&mut s, byte);
                s.append(")");
            },
            ResponseError::Status(status) => {
                if status == ResponseStatus::NotSupported {
                    s.append("EC reports this command as unsupported");
                } else {
                    s.append("EC returned ");
                    push_status_name(&mut s, status);
                }
            },
            ResponseError::TransactionId(actual) => {
                s.append("EC response transaction id ");
                push_alt_hex(&mut s, actual);
                s.append(", expected ");
                push_alt_hex(&mut s, TRANSACTION_ID);
            },
            ResponseError::Command { .. } => {
                s.append("EC answered a different command");
            },
            ResponseError::DataSizeEcho { got, expected } => {
                s.append("EC response data size ");
                push_dec(&mut s, got as u64);
                s.append(", expected ");
                push_dec(&mut s, expected as u64);
            },
            ResponseError::Checksum { got, lineage, openrazer } => {
                s.append("EC response checksum ");
                push_alt_hex(&mut s, got);
                s.append(" matches neither window (lineage ");
                push_alt_hex(&mut s, lineage);
                s.append(", openrazer ");
                push_alt_hex(&mut s, openrazer);
                s.append(")");
            },
        }
        assert(s@ =~= response_error_message(*self));
        s
    }
}

/// A response frame the backend may act on.
#[derive(Debug, Clone, Copy, PartialEq, Eq, Structural)]
pub enum ValidResponse {
    /// EC busy; only the frame and status were checked.  Retry.
    Busy,
    /// Fully validated successful reply, and the checksum window it
    /// satisfied.
    Success { crc_window: CrcWindow },
}

/// XOR of `buf[lo..hi]`.
pub open spec fn xor_range(buf: Seq<u8>, lo: int, hi: int) -> u8
    decreases hi - lo,
{
    if hi <= lo {
        0
    } else {
        xor_range(buf, lo, hi - 1) ^ buf[hi - 1]
    }
}

/// The lineage checksum window: wire bytes 2..88.
pub open spec fn lineage_crc(buf: Seq<u8>) -> u8 {
    xor_range(buf, 2, 88)
}

/// The OpenRazer checksum window: wire bytes 3..=88.
pub open spec fn openrazer_crc(buf: Seq<u8>) -> u8 {
    xor_range(buf, 3, 89)
}

/// The abstract content of one EC command.
pub struct PacketView {
    pub class: u8,
    pub id: u8,
    pub size: u8,
    pub args: Seq<u8>,
}

/// One EC command, not yet serialised.
#[derive(Debug, Clone, Copy, PartialEq, Eq)]
pub struct Packet {
    command_class: u8,
    command_id: u8,
    data_size: u8,
    args: [u8; ARGS_LEN],
}

impl View for Packet {
    type V = PacketView;

    closed spec fn view(&self) -> PacketView {
        PacketView {
            class: self.command_class,
            id: self.command_id,
            size: self.data_size,
            args: self.args@,
        }
    }
}

/// The packet with the given header and leading argument bytes, the
/// remaining argument bytes zero.
pub open spec fn packet_spec(class: u8, id: u8, size: u8, args: Seq<u8>) -> PacketView {
    PacketView {
        class,
        id,
        size,
        args: Seq::new(80, |i: int| if i < args.len() { args[i] } else { 0u8 }),
    }
}

/// Every wire byte of the request except the checksum.
pub open spec fn frame(p: PacketView) -> Seq<u8> {
    Seq::new(
        91,
        |i: int|
            if i == 2 {
                TRANSACTION_ID
            } else if i == 6 {
                p.size
            } else if i == 7 {
                p.class
            } else if i == 8 {
                p.id
            } else if 9 <= i < 89 {
                p.args[i - 9]
            } else {
                0u8
            },
    )
}

/// The exact buffer `send_feature_report` receives for a packet: report
/// number and status zero, the header, the args, and the lineage checksum.
pub open spec fn report_of(p: PacketView) -> Seq<u8> {
    frame(p).update(89, lineage_crc(frame(p)))
}

/// Outcome of validating `buf` as the reply to `request`.
pub open spec fn response_verdict(request: PacketView, buf: Seq<u8>) -> Result<
    ValidResponse,
    ResponseError,
> {
    if buf.len() != 91 {
        Err(ResponseError::Length(buf.len() as usize))
    } else if buf[0] != 0 {
        Err(ResponseError::ReportId(buf[0]))
    } else if buf[3] != 0 || buf[4] != 0 {
        Err(ResponseError::RemainingPackets((buf[3] as nat * 256 + buf[4] as nat) as u16))
    } else if buf[5] != 0 {
        Err(ResponseError::ProtocolType(buf[5]))
    } else if buf[6] > 80 {
        Err(ResponseError::DataSize(buf[6]))
    } else {
        match status_from_wire(buf[1]) {
            None => Err(ResponseError::UnknownStatus(buf[1])),
            Some(ResponseStatus::Busy) => Ok(ValidResponse::Busy),
            Some(ResponseStatus::Success) => {
                if buf[2] != TRANSACTION_ID {
                    Err(ResponseError::TransactionId(buf[2]))
                } else if !(buf[7] == request.class && buf[8] == request.id) {
                    Err(ResponseError::Command { class: buf[7], id: buf[8] })
                } else if buf[6] != request.size {
                    Err(ResponseError::DataSizeEcho { got: buf[6], expected: request.size })
                } else {
                    let lineage = lineage_crc(buf);
                    let openrazer = openrazer_crc(buf);
                    let got = buf[89];
                    if got == lineage && got == openrazer {
                        Ok(ValidResponse::Success { crc_window: CrcWindow::Ambiguous })
                    } else if got == lineage {
                        Ok(ValidResponse::Success { crc_window: CrcWindow::Lineage })
                    } else if got == openrazer {
                        Ok(ValidResponse::Success { crc_window: CrcWindow::OpenRazer })
                    } else {
                        Err(ResponseError::Checksum { got, lineage, openrazer })
                    }
                }
            },
            Some(status) => Err(ResponseError::Status(status)),
        }
    }
}

fn xor_bytes(buf: &[u8], lo: usize, hi: usize) -> (r: u8)
    requires
        lo <= hi <= buf@.len(),
    ensures
        r == xor_range(buf@, lo as int, hi as int),
{
    let mut acc: u8 = 0;
    let mut i: usize = lo;
    while i < hi
        invariant
            lo <= i <= hi <= buf@.len(),
            acc == xor_range(buf@, lo as int, i as int),
        decreases hi - i,
    {
        acc = acc ^ buf[i];
        i = i + 1;
    }
    acc
}

/// XOR checksum over wire bytes 2..88: transaction id through args[78].
/// The final args byte (wire offset 88) is not covered.
pub fn crc(buf: &[u8; REPORT_LEN]) -> (r: u8)
    ensures
        r == lineage_crc(buf@),
{
    xor_bytes(buf.as_slice(), 2, 88)
}

/// XOR checksum over wire bytes 3..=88: the OpenRazer window.
fn crc_openrazer(buf: &[u8]) -> (r: u8)
    requires
        buf@.len() == 91,
    ensures
        r == openrazer_crc(buf@),
{
    xor_bytes(buf, 3, 89)
}

/// Validates `buf` as the EC's reply to `request`: structural frame checks,
/// then the status byte (BUSY returns early, the EC's other verdicts are
/// errors), then for successful frames the transaction id, the command and
/// data-size echoes, and the checksum against both windows.
pub fn validate_response(request: &Packet, buf: &[u8]) -> (r: Result<ValidResponse, ResponseError>)
    ensures
        r == response_verdict(request@, buf@),
{
    if buf.len() != REPORT_LEN {
        return Err(ResponseError::Length(buf.len()));
    }
    if buf[0] != 0 {
        return Err(ResponseError::ReportId(buf[0]));
    }
    let remaining: u16 = buf[3] as u16 * 256 + buf[4] as u16;
    if remaining != 0 {
        return Err(ResponseError::RemainingPackets(remaining));
    }
    if buf[5] != 0 {
        return Err(ResponseError::ProtocolType(buf[5]));
    }
    let data_size: u8 = buf[OFFSET_DATA_SIZE];
    if data_size as usize > ARGS_LEN {
        return Err(ResponseError::DataSize(data_size));
    }
    match ResponseStatus::from_wire(buf[1]) {
        None => {
            return Err(ResponseError::UnknownStatus(buf[1]));
        },
        Some(ResponseStatus::Busy) => {
            return Ok(ValidResponse::Busy);
        },
        Some(ResponseStatus::Success) => {},
        Some(status) => {
            return Err(ResponseError::Status(status));
        },
    }
    if buf[OFFSET_TRANSACTION_ID] != TRANSACTION_ID {
        return Err(ResponseError::TransactionId(buf[OFFSET_TRANSACTION_ID]));
    }
    if !(buf[OFFSET_COMMAND_CLASS] == request.command_class && buf[OFFSET_COMMAND_ID]
        == request.command_id) {
        return Err(
            ResponseError::Command { class: buf[OFFSET_COMMAND_CLASS], id: buf[OFFSET_COMMAND_ID] },
        );
    }
    if data_size != request.data_size {
        return Err(ResponseError::DataSizeEcho { got: data_size, expected: request.data_size });
    }
    let lineage: u8 = xor_bytes(buf, 2, 88);
    let openrazer: u8 = crc_openrazer(buf);
    let got: u8 = buf[OFFSET_CRC];
    if got == lineage && got == openrazer {
        Ok(ValidResponse::Success { crc_window: CrcWindow::Ambiguous })
    } else if got == lineage {
        Ok(ValidResponse::Success { crc_window: CrcWindow::Lineage })
    } else if got == openrazer {
        Ok(ValidResponse::Success { crc_window: CrcWindow::OpenRazer })
    } else {
        Err(ResponseError::Checksum { got, lineage, openrazer })
    }
}

impl Packet {
    fn new(command_class: u8, command_id: u8, data_size: u8, arg_values: &[u8]) -> (r: Packet)
        requires
            arg_values@.len() <= 80,
        ensures
            r@ == packet_spec(command_class, command_id, data_size, arg_values@),
    {
        let mut args = [0u8; ARGS_LEN];
        let mut i: usize = 0;
        while i < arg_values.len()
            invariant
                i <= arg_values@.len() <= 80,
                args@.len() == 80,
                forall|j: int|
                    0 <= j < 80 ==> #[trigger] args@[j] == if j < i {
                        arg_values@[j]
                    } else {
                        0u8
                    },
            decreases arg_values@.len() - i,
        {
            args[i] = arg_values[i];
            i = i + 1;
        }
        let r = Packet { command_class, command_id, data_size, args };
        assert(r@.args =~= packet_spec(command_class, command_id, data_size, arg_values@).args);
        r
    }

    /// True when `report` carries the EC's answer to this command: the
    /// response echoes the command class and id at the same wire offsets.
    pub fn matches_response(&self, report: &[u8; REPORT_LEN]) -> (r: bool)
        ensures
            r == (report@[7] == self@.class && report@[8] == self@.id),
    {
        report[OFFSET_COMMAND_CLASS] == self.command_class && report[OFFSET_COMMAND_ID]
            == self.command_id
    }

    /// Serialises to the exact buffer `send_feature_report` expects.
    pub fn to_feature_report(&self) -> (r: [u8; REPORT_LEN])
        ensures
            r@ == report_of(self@),
    {
        let mut buf = [0u8; REPORT_LEN];
        buf[OFFSET_TRANSACTION_ID] = TRANSACTION_ID;
        buf[OFFSET_DATA_SIZE] = self.data_size;
        buf[OFFSET_COMMAND_CLASS] = self.command_class;
        buf[OFFSET_COMMAND_ID] = self.command_id;
        let mut i: usize = 0;
        while i < ARGS_LEN
            invariant
                i <= 80,
                buf@.len() == 91,
                self.args@.len() == 80,
                forall|j: int|
                    0 <= j < 91 ==> #[trigger] buf@[j] == if j == 2 {
                        TRANSACTION_ID
                    } else if j == 6 {
                        self.data_size
                    } else if j == 7 {
                        self.command_class
                    } else if j == 8 {
                        self.command_id
                    } else if 9 <= j < 9 + i {
                        self.args@[j - 9]
                    } else {
                        0u8
                    },
            decreases 80 - i,
        {
            buf[OFFSET_ARGS + i] = self.args[i];
            i = i + 1;
        }
        assert(buf@ =~= frame(self@));
        let c: u8 = crc(&buf);
        buf[OFFSET_CRC] = c;
        assert(buf@ =~= report_of(self@));
        buf
    }
}

/// The combined performance-mode/fan-state command:
/// args [0x00, zone, mode, manual_flag].
pub open spec fn power_mode_packet(zone: Zone, mode: u8, manual: bool) -> PacketView {
    packet_spec(0x0d, 0x02, 0x04, seq![0x00, zone.wire(), mode, if manual { 1u8 } else { 0u8 }])
}

/// CPU/GPU power level for the Custom profile: args [0x00, zone, level].
pub open spec fn boost_packet(zone: Zone, level: BoostLevel) -> PacketView {
    packet_spec(0x0d, 0x07, 0x03, seq![0x00, zone.wire(), level.wire()])
}

/// Manual fan target in hundreds of RPM: args [0x00, zone, rpm / 100].
pub open spec fn fan_rpm_packet(zone: Zone, rpm: u16) -> PacketView {
    packet_spec(0x0d, 0x01, 0x03, seq![0x00, zone.wire(), (rpm / 100) as u8])
}

pub open spec fn keyboard_brightness_packet(value: u8) -> PacketView {
    packet_spec(0x03, 0x03, 0x03, seq![0x01, 0x05, value])
}

pub open spec fn logo_state_packet(on: bool) -> PacketView {
    packet_spec(0x03, 0x00, 0x03, seq![0x01, 0x04, if on { 1u8 } else { 0u8 }])
}

pub open spec fn logo_effect_packet(effect: u8) -> PacketView {
    packet_spec(0x03, 0x02, 0x03, seq![0x01, 0x04, effect])
}

pub open spec fn matrix_effect_packet(args: Seq<u8>) -> PacketView {
    packet_spec(0x03, 0x0a, args.len() as u8, args)
}

/// Battery Health Optimizer byte: bit 7 the enable flag, bits 0..=6 the
/// charge threshold.
pub open spec fn bho_byte(enabled: bool, threshold: u8) -> u8 {
    (threshold & 0x7fu8) | ((if enabled { 1u8 } else { 0u8 }) << 7u8)
}

pub open spec fn battery_health_packet(enabled: bool, threshold: u8) -> PacketView {
    packet_spec(0x07, 0x12, 0x01, seq![bho_byte(enabled, threshold)])
}

fn set_power_mode(zone: Zone, mode: u8, manual: bool) -> (r: Packet)
    ensures
        r@ == power_mode_packet(zone, mode, manual),
{
    let flag: u8 = if manual {
        1
    } else {
        0
    };
    Packet::new(0x0d, 0x02, 0x04, &[0x00, zone.wire_value(), mode, flag])
}

fn set_boost(zone: Zone, level: BoostLevel) -> (r: Packet)
    ensures
        r@ == boost_packet(zone, level),
{
    Packet::new(0x0d, 0x07, 0x03, &[0x00, zone.wire_value(), level.wire_value()])
}

/// Query for the current mode and manual flag of one zone.
pub fn get_power_mode(zone: Zone) -> (r: Packet)
    ensures
        r@ == packet_spec(0x0d, 0x82, 0x04, seq![0x00, zone.wire()]),
{
    Packet::new(0x0d, 0x82, 0x04, &[0x00, zone.wire_value()])
}

/// Query for one zone's boost level.
pub fn get_boost(zone: Zone) -> (r: Packet)
    ensures
        r@ == packet_spec(0x0d, 0x87, 0x03, seq![0x00, zone.wire()]),
{
    Packet::new(0x0d, 0x87, 0x03, &[0x00, zone.wire_value()])
}

/// Query for one zone's stored manual fan setpoint (RPM/100 in args[2]).
pub fn get_fan_setpoint(zone: Zone) -> (r: Packet)
    ensures
        r@ == packet_spec(0x0d, 0x81, 0x03, seq![0x00, zone.wire()]),
{
    Packet::new(0x0d, 0x81, 0x03, &[0x00, zone.wire_value()])
}

fn set_fan_rpm(zone: Zone, rpm: u16) -> (r: Packet)
    requires
        rpm <= 25_500,
    ensures
        r@ == fan_rpm_packet(zone, rpm),
{
    Packet::new(0x0d, 0x01, 0x03, &[0x00, zone.wire_value(), (rpm / 100) as u8])
}

fn set_keyboard_brightness(value: u8) -> (r: Packet)
    ensures
        r@ == keyboard_brightness_packet(value),
{
    Packet::new(0x03, 0x03, 0x03, &[0x01, 0x05, value])
}

/// Query for the current keyboard brightness (0-255 in args[2]).
pub fn get_keyboard_brightness() -> (r: Packet)
    ensures
        r@ == packet_spec(0x03, 0x83, 0x03, seq![0x01, 0x05, 0x00]),
{
    Packet::new(0x03, 0x83, 0x03, &[0x01, 0x05, 0x00])
}

fn set_logo_state(on: bool) -> (r: Packet)
    ensures
        r@ == logo_state_packet(on),
{
    let flag: u8 = if on {
        1
    } else {
        0
    };
    Packet::new(0x03, 0x00, 0x03, &[0x01, 0x04, flag])
}

fn set_logo_effect(effect: u8) -> (r: Packet)
    ensures
        r@ == logo_effect_packet(effect),
{
    Packet::new(0x03, 0x02, 0x03, &[0x01, 0x04, effect])
}

fn matrix_effect(args: &[u8]) -> (r: Packet)
    requires
        args@.len() <= 80,
    ensures
        r@ == matrix_effect_packet(args@),
{
    Packet::new(0x03, 0x0a, args.len() as u8, args)
}

fn set_battery_health(enabled: bool, threshold: u8) -> (r: Packet)
    ensures
        r@ == battery_health_packet(enabled, threshold),
{
    let flag: u8 = if enabled {
        1
    } else {
        0
    };
    let byte: u8 = (threshold & 0x7fu8) | (flag << 7u8);
    assert(byte == bho_byte(enabled, threshold));
    assert([byte]@ =~= seq![bho_byte(enabled, threshold)]);
    Packet::new(0x07, 0x12, 0x01, &[byte])
}

/// Query packet for the current Battery Health Optimizer state.
pub fn get_battery_health() -> (r: Packet)
    ensures
        r@ == packet_spec(0x07, 0x92, 0x01, Seq::empty()),
{
    let empty: [u8; 0] = [];
    assert(empty@ =~= Seq::<u8>::empty());
    Packet::new(0x07, 0x92, 0x01, &empty)
}

pub open spec fn decode_bho(byte: u8) -> (bool, u8) {
    (byte & 0x80 != 0, byte & 0x7f)
}

/// Decodes a BHO response arg byte into (enabled, threshold).
pub fn decode_battery_health(byte: u8) -> (r: (bool, u8))
    ensures
        r == decode_bho(byte),
{
    (byte & 0x80 != 0, byte & 0x7f)
}

/// Keyboard brightness on the wire: percent scaled to 0-255, truncated.
pub open spec fn brightness_wire(percent: u8) -> u8 {
    ((percent as nat * 255 / 100) % 256) as u8
}

/// The packet sequence implementing one accepted operation under the EC
/// state `context`.
pub open spec fn operation_packets_spec(operation: RequestedOperation, context: EcContext) -> Seq<
    PacketView,
> {
    let mode = context.profile.mode_wire();
    match operation {
        RequestedOperation::Fan(FanMode::Auto) => seq![
            power_mode_packet(Zone::Cpu, mode, false),
            power_mode_packet(Zone::Gpu, mode, false),
        ],
        RequestedOperation::Fan(FanMode::Manual(rpm)) => seq![
            power_mode_packet(Zone::Cpu, mode, true),
            power_mode_packet(Zone::Gpu, mode, true),
            fan_rpm_packet(Zone::Cpu, rpm),
            fan_rpm_packet(Zone::Gpu, rpm),
        ],
        RequestedOperation::BatteryHealthLimit(threshold) => seq![
            battery_health_packet(true, threshold),
        ],
        RequestedOperation::BatteryHealthOff => seq![battery_health_packet(false, 80)],
        RequestedOperation::Profile(profile) => {
            let new_mode = profile.mode_wire();
            let modes = seq![
                power_mode_packet(Zone::Cpu, new_mode, context.fan_manual),
                power_mode_packet(Zone::Gpu, new_mode, context.fan_manual),
            ];
            match profile.boosts_spec() {
                Some((cpu, gpu)) => modes + seq![
                    boost_packet(Zone::Cpu, cpu),
                    boost_packet(Zone::Gpu, gpu),
                ],
                None => modes,
            }
        },
        RequestedOperation::KeyboardBrightness(percent) => seq![
            keyboard_brightness_packet(brightness_wire(percent)),
        ],
        RequestedOperation::KeyboardEffect(effect) => seq![
            match effect {
                LightingEffect::Off => matrix_effect_packet(seq![0x00]),
                LightingEffect::Wave => matrix_effect_packet(seq![0x01, 0x01]),
                LightingEffect::Spectrum => matrix_effect_packet(seq![0x04]),
                LightingEffect::Static { red, green, blue } => matrix_effect_packet(
                    seq![0x06, red, green, blue],
                ),
            },
        ],
        RequestedOperation::Logo(mode) => match mode {
            LogoMode::Off => seq![logo_state_packet(false)],
            LogoMode::Static => seq![logo_state_packet(true), logo_effect_packet(0x00)],
            LogoMode::Breathing => seq![logo_state_packet(true), logo_effect_packet(0x02)],
        },
    }
}

pub open spec fn packet_views(v: Seq<Packet>) -> Seq<PacketView> {
    Seq::new(v.len(), |i: int| v[i]@)
}

/// The manual fan target must fit the hundreds-of-RPM wire byte.
pub open spec fn encodable(operation: RequestedOperation) -> bool {
    match operation {
        RequestedOperation::Fan(FanMode::Manual(rpm)) => rpm <= 25_500,
        _ => true,
    }
}

/// The packet sequence implementing one accepted operation.  Fan
/// operations re-assert the active profile's mode byte and the profile
/// operation re-asserts the manual-fan flag; turning fans manual flips both
/// zones before writing either RPM.
pub fn operation_packets(operation: RequestedOperation, context: EcContext) -> (r: Vec<Packet>)
    requires
        encodable(operation),
    ensures
        packet_views(r@) == operation_packets_spec(operation, context),
{
    let mode: u8 = context.profile.mode_wire_value();
    let mut packets: Vec<Packet> = Vec::new();
    let ghost expected = operation_packets_spec(operation, context);
    match operation {
        RequestedOperation::Fan(FanMode::Auto) => {
            packets.push(set_power_mode(Zone::Cpu, mode, false));
            packets.push(set_power_mode(Zone::Gpu, mode, false));
            assert(packet_views(packets@) =~= expected);
        },
        RequestedOperation::Fan(FanMode::Manual(rpm)) => {
            packets.push(set_power_mode(Zone::Cpu, mode, true));
            packets.push(set_power_mode(Zone::Gpu, mode, true));
            packets.push(set_fan_rpm(Zone::Cpu, rpm));
            packets.push(set_fan_rpm(Zone::Gpu, rpm));
            assert(packet_views(packets@) =~= expected);
        },
        RequestedOperation::BatteryHealthLimit(threshold) => {
            packets.push(set_battery_health(true, threshold));
            assert(packet_views(packets@) =~= expected);
        },
        RequestedOperation::BatteryHealthOff => {
            packets.push(set_battery_health(false, 80));
            assert(packet_views(packets@) =~= expected);
        },
        RequestedOperation::Profile(profile) => {
            let new_mode: u8 = profile.mode_wire_value();
            packets.push(set_power_mode(Zone::Cpu, new_mode, context.fan_manual));
            packets.push(set_power_mode(Zone::Gpu, new_mode, context.fan_manual));
            match profile.boosts() {
                Some((cpu, gpu)) => {
                    packets.push(set_boost(Zone::Cpu, cpu));
                    packets.push(set_boost(Zone::Gpu, gpu));
                    assert(packet_views(packets@) =~= expected);
                },
                None => {
                    assert(packet_views(packets@) =~= expected);
                },
            }
        },
        RequestedOperation::KeyboardBrightness(percent) => {
            let wide: u16 = (percent as u16 * 255) / 100;
            let value: u8 = (wide % 256) as u8;
            packets.push(set_keyboard_brightness(value));
            assert(packet_views(packets@) =~= expected);
        },
        RequestedOperation::KeyboardEffect(effect) => {
            let packet = match effect {
                LightingEffect::Off => {
                    let a: [u8; 1] = [0x00];
                    assert(a@ =~= seq![0x00u8]);
                    matrix_effect(&a)
                },
                LightingEffect::Wave => {
                    let a: [u8; 2] = [0x01, 0x01];
                    assert(a@ =~= seq![0x01u8, 0x01u8]);
                    matrix_effect(&a)
                },
                LightingEffect::Spectrum => {
                    let a: [u8; 1] = [0x04];
                    assert(a@ =~= seq![0x04u8]);
                    matrix_effect(&a)
                },
                LightingEffect::Static { red, green, blue } => {
                    let a: [u8; 4] = [0x06, red, green, blue];
                    assert(a@ =~= seq![0x06u8, red, green, blue]);
                    matrix_effect(&a)
                },
            };
            packets.push(packet);
            assert(packet_views(packets@) =~= expected);
        },
        RequestedOperation::Logo(mode) => {
            match mode {
                LogoMode::Off => {
                    packets.push(set_logo_state(false));
                },
                LogoMode::Static => {
                    packets.push(set_logo_state(true));
                    packets.push(set_logo_effect(0x00));
                },
                LogoMode::Breathing => {
                    packets.push(set_logo_state(true));
                    packets.push(set_logo_effect(0x02));
                },
            }
            assert(packet_views(packets@) =~= expected);
        },
    }
    packets
}


// ----------------------------------------------------------------------
// Laws of the wire format.
// ----------------------------------------------------------------------

proof fn lemma_xor_front(buf: Seq<u8>, lo: int, hi: int)
    requires
        lo < hi,
    ensures
        xor_range(buf, lo, hi) == buf[lo] ^ xor_range(buf, lo + 1, hi),
    decreases hi - lo,
{
    if hi - 1 > lo {
        lemma_xor_front(buf, lo, hi - 1);
        let a = buf[lo];
        let x = xor_range(buf, lo + 1, hi - 1);
        let b = buf[hi - 1];
        assert((a ^ x) ^ b == a ^ (x ^ b)) by (bit_vector);
        assert(xor_range(buf, lo, hi) == xor_range(buf, lo, hi - 1) ^ b);
        assert(xor_range(buf, lo + 1, hi) == x ^ b);
    } else {
        let a = buf[lo];
        assert(0u8 ^ a == a ^ 0u8) by (bit_vector);
        assert(xor_range(buf, lo, hi) == xor_range(buf, lo, lo) ^ a);
        assert(xor_range(buf, lo, lo) == 0);
        assert(xor_range(buf, lo + 1, hi) == 0);
    }
}

/// A byte outside `[lo, hi)` does not take part in the XOR of that range.
proof fn lemma_xor_ignores_outside(buf: Seq<u8>, lo: int, hi: int, k: int, v: u8)
    requires
        0 <= k < buf.len(),
        0 <= lo,
        hi <= buf.len(),
        k < lo || k >= hi,
    ensures
        xor_range(buf.update(k, v), lo, hi) == xor_range(buf, lo, hi),
    decreases hi - lo,
{
    if hi > lo {
        lemma_xor_ignores_outside(buf, lo, hi - 1, k, v);
        assert(buf.update(k, v)[hi - 1] == buf[hi - 1]);
    }
}

/// The lineage checksum does not depend on any byte outside wire offsets
/// 2..88: not the status byte, not the checksum byte, and not the final
/// args byte at offset 88.
pub proof fn law_lineage_crc_ignores_bytes_outside_window(buf: Seq<u8>, k: int, v: u8)
    requires
        0 <= k < buf.len(),
        buf.len() >= 88,
        k < 2 || k >= 88,
    ensures
        lineage_crc(buf.update(k, v)) == lineage_crc(buf),
{
    lemma_xor_ignores_outside(buf, 2, 88, k, v);
}

proof fn lemma_xor_agree(a: Seq<u8>, b: Seq<u8>, lo: int, hi: int)
    requires
        0 <= lo,
        hi <= a.len(),
        hi <= b.len(),
        forall|k: int| lo <= k < hi ==> a[k] == b[k],
    ensures
        xor_range(a, lo, hi) == xor_range(b, lo, hi),
    decreases hi - lo,
{
    if hi > lo {
        lemma_xor_agree(a, b, lo, hi - 1);
        assert(a[hi - 1] == b[hi - 1]);
    }
}

/// The lineage checksum depends on wire bytes 2..88 alone: two frames that
/// agree there carry the same checksum, however many other bytes differ.
pub proof fn law_lineage_crc_depends_only_on_window(a: Seq<u8>, b: Seq<u8>)
    requires
        a.len() >= 88,
        b.len() >= 88,
        forall|k: int| 2 <= k < 88 ==> a[k] == b[k],
    ensures
        lineage_crc(a) == lineage_crc(b),
{
    lemma_xor_agree(a, b, 2, 88);
}

/// The two checksum windows differ exactly by the transaction-id byte
/// (wire 2) and the final args byte (wire 88).
pub proof fn law_crc_windows_differ_by_edge_bytes(buf: Seq<u8>)
    requires
        buf.len() >= 89,
    ensures
        lineage_crc(buf) ^ openrazer_crc(buf) == buf[2] ^ buf[88],
{
    lemma_xor_front(buf, 2, 88);
    let a = buf[2];
    let x = xor_range(buf, 3, 88);
    let b = buf[88];
    assert(xor_range(buf, 3, 89) == x ^ b);
    assert((a ^ x) ^ (x ^ b) == a ^ b) by (bit_vector);
}

/// Every packet we send carries the lineage checksum of its own bytes.
pub proof fn law_outgoing_crc_is_lineage(p: PacketView)
    ensures
        report_of(p).len() == 91,
        report_of(p)[89] == lineage_crc(report_of(p)),
{
    law_lineage_crc_ignores_bytes_outside_window(frame(p), 89, lineage_crc(frame(p)));
}

/// A packet's own serialisation with the status byte set to SUCCESS is
/// accepted as the reply to that packet; the checksum window is Lineage,
/// or Ambiguous exactly when the final args byte equals the transaction id.
pub proof fn law_echoed_reply_validates(p: PacketView)
    requires
        p.size <= 80,
        p.args.len() == 80,
    ensures
        response_verdict(p, report_of(p).update(1, 0x02)) == Ok::<ValidResponse, ResponseError>(
            ValidResponse::Success {
                crc_window: if p.args[79] == TRANSACTION_ID {
                    CrcWindow::Ambiguous
                } else {
                    CrcWindow::Lineage
                },
            },
        ),
{
    let f = frame(p);
    let r = report_of(p);
    let reply = r.update(1, 0x02);
    law_lineage_crc_ignores_bytes_outside_window(f, 89, lineage_crc(f));
    law_lineage_crc_ignores_bytes_outside_window(r, 1, 0x02);
    assert(lineage_crc(reply) == lineage_crc(f));
    assert(reply[89] == lineage_crc(f));
    law_crc_windows_differ_by_edge_bytes(reply);
    assert(reply[2] == TRANSACTION_ID);
    assert(reply[88] == p.args[79]);
    let l = lineage_crc(reply);
    let o = openrazer_crc(reply);
    let a = reply[2];
    let b = reply[88];
    assert(l ^ o == a ^ b ==> (l == o <==> a == b)) by (bit_vector);
    assert(status_from_wire(reply[1]) == Some(ResponseStatus::Success));
}

/// A faithful success echo of a packet built from a header and fewer than
/// 80 argument bytes validates, in the lineage window: its last argument
/// byte is zero, never the transaction id.
pub proof fn law_built_packet_echo_validates(class: u8, id: u8, size: u8, args: Seq<u8>)
    requires
        size <= 80,
        args.len() < 80,
    ensures
        response_verdict(
            packet_spec(class, id, size, args),
            report_of(packet_spec(class, id, size, args)).update(1, 0x02),
        ) == Ok::<ValidResponse, ResponseError>(
            ValidResponse::Success { crc_window: CrcWindow::Lineage },
        ),
{
    let p = packet_spec(class, id, size, args);
    assert(p.args[79] == 0);
    law_echoed_reply_validates(p);
}

/// A faithful success echo of every packet an operation is sent as
/// validates, in the lineage window.
pub proof fn law_operation_packet_echoes_validate(
    operation: RequestedOperation,
    context: EcContext,
    i: int,
)
    requires
        0 <= i < operation_packets_spec(operation, context).len(),
    ensures
        response_verdict(
            operation_packets_spec(operation, context)[i],
            report_of(operation_packets_spec(operation, context)[i]).update(1, 0x02),
        ) == Ok::<ValidResponse, ResponseError>(
            ValidResponse::Success { crc_window: CrcWindow::Lineage },
        ),
{
    let p = operation_packets_spec(operation, context)[i];
    assert(p.size <= 80 && p.args.len() == 80 && p.args[79] == 0);
    law_echoed_reply_validates(p);
}

/// Battery Health Optimizer encoding round-trips through the decoder: the
/// enable flag and the low seven bits of the threshold come back.
pub proof fn law_battery_health_round_trip(enabled: bool, threshold: u8)
    ensures
        decode_bho(bho_byte(enabled, threshold)) == (enabled, threshold & 0x7f),
{
    let flag: u8 = if enabled {
        1
    } else {
        0
    };
    assert(((threshold & 0x7fu8) | (flag << 7u8)) & 0x80 != 0 <==> flag == 1) by (bit_vector)
        requires
            flag == 0 || flag == 1,
    ;
    assert(((threshold & 0x7fu8) | (flag << 7u8)) & 0x7f == threshold & 0x7f) by (bit_vector)
        requires
            flag == 0 || flag == 1,
    ;
}

/// Every operation the policy accepts can be encoded.
pub proof fn law_accepted_operations_are_encodable(
    id: crate::DeviceId,
    operation: RequestedOperation,
    allow_experimental: bool,
)
    requires
        crate::policy_verdict(id, operation, allow_experimental) is Ok,
    ensures
        encodable(operation),
{
}

/// A fan operation never changes the EC's performance mode: every
/// power-mode packet it emits re-asserts the active profile's mode byte.
pub proof fn law_fan_operations_keep_the_profile_mode(mode: FanMode, context: EcContext)
    ensures
        forall|i: int|
            0 <= i < operation_packets_spec(RequestedOperation::Fan(mode), context).len() && (
            #[trigger] operation_packets_spec(RequestedOperation::Fan(mode), context)[i]).class
                == 0x0d && operation_packets_spec(RequestedOperation::Fan(mode), context)[i].id
                == 0x02 ==> operation_packets_spec(RequestedOperation::Fan(mode), context)[i].args[2]
                == context.profile.mode_wire(),
{
}

/// A profile change never changes the fan mode: every power-mode packet it
/// emits re-asserts the current manual-fan flag.
pub proof fn law_profile_operations_keep_the_fan_flag(profile: crate::Profile, context: EcContext)
    ensures
        forall|i: int|
            0 <= i < operation_packets_spec(RequestedOperation::Profile(profile), context).len() && (
            #[trigger] operation_packets_spec(RequestedOperation::Profile(profile), context)[i]).class
                == 0x0d && operation_packets_spec(RequestedOperation::Profile(profile), context)[i].id
                == 0x02 ==> operation_packets_spec(RequestedOperation::Profile(profile), context)[i].args[3]
                == (if context.fan_manual {
                1u8
            } else {
                0u8
            }),
{
}

// ----------------------------------------------------------------------
// What goes on the wire, byte by byte.
// ----------------------------------------------------------------------

/// `p` is command `class`/`id` with data size `size`, whose argument bytes
/// are `lead` and then zeros.
pub open spec fn sent(p: PacketView, class: u8, id: u8, size: u8, lead: Seq<u8>) -> bool {
    &&& p.class == class
    &&& p.id == id
    &&& p.size == size
    &&& p.args.len() == 80
    &&& forall|i: int| 0 <= i < lead.len() ==> p.args[i] == lead[i]
    &&& forall|i: int| lead.len() <= i < 80 ==> p.args[i] == 0
}

/// A reply is taken as a success only when it is a 91-byte SUCCESS frame
/// that echoes the request: the transaction id, the command class and id,
/// and the data size, with a checksum that matches one of the two windows.
pub proof fn law_success_echoes_the_request(request: PacketView, buf: Seq<u8>)
    ensures
        response_verdict(request, buf) matches Ok(ValidResponse::Success { .. }) ==> {
            &&& buf.len() == 91
            &&& buf[1] == 0x02
            &&& buf[2] == 0x1f
            &&& buf[7] == request.class
            &&& buf[8] == request.id
            &&& buf[6] == request.size
            &&& (buf[89] == lineage_crc(buf) || buf[89] == openrazer_crc(buf))
        },
{
}

/// A well-framed SUCCESS reply that names another command than the request
/// (class or id) is stale, and is refused with the command it names.
pub proof fn law_reply_to_another_command_is_refused(request: PacketView, buf: Seq<u8>)
    requires
        buf.len() == 91,
        buf[0] == 0,
        buf[3] == 0,
        buf[4] == 0,
        buf[5] == 0,
        buf[6] <= 80,
        buf[1] == 0x02,
        buf[2] == 0x1f,
        buf[7] != request.class || buf[8] != request.id,
    ensures
        response_verdict(request, buf) == Err::<ValidResponse, ResponseError>(
            ResponseError::Command { class: buf[7], id: buf[8] },
        ),
{
}

/// The logo on the wire: the first packet switches the LED (class 0x03,
/// id 0x00, arguments 0x01 0x04 and then 1 for on, 0 for off), on for the
/// static and breathing modes; those then set the effect (class 0x03,
/// id 0x02, arguments 0x01 0x04 and then 0x00 static or 0x02 breathing).
pub proof fn law_logo_packets(mode: LogoMode, context: EcContext)
    ensures
        ({
            let ps = operation_packets_spec(RequestedOperation::Logo(mode), context);
            match mode {
                LogoMode::Off => ps.len() == 1 && sent(ps[0], 0x03, 0x00, 0x03, seq![0x01, 0x04, 0x00]),
                LogoMode::Static => ps.len() == 2 && sent(ps[0], 0x03, 0x00, 0x03, seq![0x01, 0x04, 0x01])
                    && sent(ps[1], 0x03, 0x02, 0x03, seq![0x01, 0x04, 0x00]),
                LogoMode::Breathing => ps.len() == 2 && sent(
                    ps[0],
                    0x03,
                    0x00,
                    0x03,
                    seq![0x01, 0x04, 0x01],
                ) && sent(ps[1], 0x03, 0x02, 0x03, seq![0x01, 0x04, 0x02]),
            }
        }),
{
}

/// Keyboard lighting on the wire: brightness is command 0x03/0x03 with
/// arguments 0x01 0x05 and the percentage scaled to 0–255; an effect is
/// command 0x03/0x0a whose arguments are 0x00 off, 0x01 0x01 wave, 0x04
/// spectrum, or 0x06 and the colour's red, green and blue.
pub proof fn law_keyboard_packets(percent: u8, effect: LightingEffect, context: EcContext)
    requires
        percent <= 100,
    ensures
        ({
            let ps = operation_packets_spec(RequestedOperation::KeyboardBrightness(percent), context);
            ps.len() == 1 && sent(ps[0], 0x03, 0x03, 0x03, seq![0x01, 0x05, (percent * 255 / 100) as u8])
        }),
        ({
            let ps = operation_packets_spec(RequestedOperation::KeyboardEffect(effect), context);
            ps.len() == 1 && match effect {
                LightingEffect::Off => sent(ps[0], 0x03, 0x0a, 1, seq![0x00]),
                LightingEffect::Wave => sent(ps[0], 0x03, 0x0a, 2, seq![0x01, 0x01]),
                LightingEffect::Spectrum => sent(ps[0], 0x03, 0x0a, 1, seq![0x04]),
                LightingEffect::Static { red, green, blue } => sent(
                    ps[0],
                    0x03,
                    0x0a,
                    4,
                    seq![0x06, red, green, blue],
                ),
            }
        }),
{
    assert(percent * 255 / 100 < 256) by (nonlinear_arith)
        requires
            percent <= 100,
    ;
}

/// The Battery Health Optimizer on the wire: command 0x07/0x12 with one
/// argument byte, bit 7 set and the limit in bits 0–6 for a limit, and
/// 0x50 (disabled, 80 %) to turn it off.
pub proof fn law_battery_health_packets(limit: u8, context: EcContext)
    requires
        limit <= 100,
    ensures
        ({
            let ps = operation_packets_spec(RequestedOperation::BatteryHealthLimit(limit), context);
            ps.len() == 1 && sent(ps[0], 0x07, 0x12, 0x01, seq![(0x80 + limit) as u8])
        }),
        ({
            let ps = operation_packets_spec(RequestedOperation::BatteryHealthOff, context);
            ps.len() == 1 && sent(ps[0], 0x07, 0x12, 0x01, seq![0x50u8])
        }),
{
    assert((limit & 0x7fu8) | (1u8 << 7u8) == (0x80 + limit) as u8) by (bit_vector)
        requires
            limit <= 100,
    ;
    assert((80u8 & 0x7fu8) | (0u8 << 7u8) == 0x50u8) by (bit_vector);
}

/// The mode byte of each profile: balanced 0, gaming 1, silent and custom 4.
pub open spec fn mode_byte(profile: Profile) -> u8 {
    match profile {
        Profile::Balanced => 0,
        Profile::Gaming => 1,
        Profile::Silent => 4,
        Profile::Custom { .. } => 4,
    }
}

/// Fans on the wire: both zones' power-mode packets (command 0x0d/0x02,
/// arguments 0x00, the zone 1 for the CPU or 2 for the GPU, the active
/// profile's mode byte, and 1 for manual or 0 for automatic), and for a
/// manual speed then both zones' targets (command 0x0d/0x01, arguments
/// 0x00, the zone, the speed in hundreds of RPM).
pub proof fn law_fan_packets(mode: FanMode, context: EcContext)
    requires
        mode matches FanMode::Manual(rpm) ==> rpm <= 25_500,
    ensures
        ({
            let ps = operation_packets_spec(RequestedOperation::Fan(mode), context);
            let m = mode_byte(context.profile);
            match mode {
                FanMode::Auto => ps.len() == 2 && sent(ps[0], 0x0d, 0x02, 0x04, seq![0x00, 0x01, m, 0x00])
                    && sent(ps[1], 0x0d, 0x02, 0x04, seq![0x00, 0x02, m, 0x00]),
                FanMode::Manual(rpm) => ps.len() == 4 && sent(
                    ps[0],
                    0x0d,
                    0x02,
                    0x04,
                    seq![0x00, 0x01, m, 0x01],
                ) && sent(ps[1], 0x0d, 0x02, 0x04, seq![0x00, 0x02, m, 0x01]) && sent(
                    ps[2],
                    0x0d,
                    0x01,
                    0x03,
                    seq![0x00, 0x01, (rpm / 100) as u8],
                ) && sent(ps[3], 0x0d, 0x01, 0x03, seq![0x00, 0x02, (rpm / 100) as u8]),
            }
        }),
{
}

/// A profile on the wire: both zones' power-mode packets with the new
/// profile's mode byte and the current manual-fan flag, and for silent and
/// custom profiles then both zones' boost levels (command 0x0d/0x07,
/// arguments 0x00, the zone, the level: low 0, medium 1, high 2, boost 3;
/// silent is low on both).
pub proof fn law_profile_packets(profile: Profile, context: EcContext)
    ensures
        ({
            let ps = operation_packets_spec(RequestedOperation::Profile(profile), context);
            let m = mode_byte(profile);
            let f: u8 = if context.fan_manual { 1 } else { 0 };
            &&& sent(ps[0], 0x0d, 0x02, 0x04, seq![0x00, 0x01, m, f])
            &&& sent(ps[1], 0x0d, 0x02, 0x04, seq![0x00, 0x02, m, f])
            &&& match profile {
                Profile::Balanced | Profile::Gaming => ps.len() == 2,
                Profile::Silent => ps.len() == 4 && sent(ps[2], 0x0d, 0x07, 0x03, seq![0x00, 0x01, 0x00])
                    && sent(ps[3], 0x0d, 0x07, 0x03, seq![0x00, 0x02, 0x00]),
                Profile::Custom { cpu, gpu } => ps.len() == 4 && sent(
                    ps[2],
                    0x0d,
                    0x07,
                    0x03,
                    seq![0x00, 0x01, level_byte(cpu)],
                ) && sent(ps[3], 0x0d, 0x07, 0x03, seq![0x00, 0x02, level_byte(gpu)]),
            }
        }),
{
}

/// The level byte: low 0, medium 1, high 2, boost 3.
pub open spec fn level_byte(level: BoostLevel) -> u8 {
    match level {
        BoostLevel::Low => 0,
        BoostLevel::Medium => 1,
        BoostLevel::High => 2,
        BoostLevel::Boost => 3,
    }
}

} // verus!
