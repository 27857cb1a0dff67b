//! The controller's raw input report and its configuration commands.
//!
//! One input report is a fixed 64-byte little-endian record: a three-byte
//! header, a frame counter, seven bytes of packed button bits, then the pad,
//! accelerometer, gyro, trigger, stick and force readings. Parsing is exact
//! byte arithmetic; a malformed length or header is rejected before parsing.

use vstd::prelude::*;
use crate::state::{Buttons, LR, MyState};
use crate::zone::XY;

verus! {

/// Bit `i` of a packed button byte.
pub open spec fn bit(b: u8, i: int) -> bool {
    b / (pow2_u8(i) as u8) % 2 == 1
}

/// The power of two that masks bit `i` of a byte.
pub open spec fn pow2_u8(i: int) -> int {
    if i == 0 {
        1
    } else if i == 1 {
        2
    } else if i == 2 {
        4
    } else if i == 3 {
        8
    } else if i == 4 {
        16
    } else if i == 5 {
        32
    } else if i == 6 {
        64
    } else {
        128
    }
}

/// The unsigned 16-bit value of two little-endian bytes.
pub open spec fn le16(b0: u8, b1: u8) -> int {
    b0 + 256 * b1
}

/// The signed 16-bit value of two little-endian bytes.
pub open spec fn le16_signed(b0: u8, b1: u8) -> int {
    if le16(b0, b1) < 32768 {
        le16(b0, b1)
    } else {
        le16(b0, b1) - 65536
    }
}

/// The unsigned 32-bit value of four little-endian bytes.
pub open spec fn le32(b0: u8, b1: u8, b2: u8, b3: u8) -> int {
    b0 + 256 * b1 + 65536 * b2 + 16777216 * b3
}

/// Reads two little-endian bytes as an unsigned 16-bit value.
pub fn u16_le(b0: u8, b1: u8) -> (r: u16)
    ensures
        r as int == le16(b0, b1),
{
    b0 as u16 + (b1 as u16) * 256
}

/// Reads two little-endian bytes as a signed 16-bit value.
pub fn i16_le(b0: u8, b1: u8) -> (r: i16)
    ensures
        r as int == le16_signed(b0, b1),
{
    let v = u16_le(b0, b1);
    if v < 32768 {
        v as i16
    } else {
        ((v as i32) - 65536) as i16
    }
}

/// Reads four little-endian bytes as an unsigned 32-bit value.
pub fn u32_le(b0: u8, b1: u8, b2: u8, b3: u8) -> (r: u32)
    ensures
        r as int == le32(b0, b1, b2, b3),
{
    b0 as u32 + (b1 as u32) * 256 + (b2 as u32) * 65536 + (b3 as u32) * 16777216
}

/// One decoded input report.
#[derive(Debug, Copy, Clone, PartialEq, Eq, Hash)]
pub struct InputReport {
    pub unk_header: [u8; 3],
    pub size: u8,
    pub frame: u32,
    /// Bits 0 through 7: r2, l2, r1, l1, y, b, x, a.
    pub b08: u8,
    /// Bits 0 through 3: dpad north, west, east, south.
    pub b09: u8,
    pub b10: u8,
    pub b11: u8,
    pub b12: u8,
    pub b13: u8,
    pub b14: u8,
    pub b15: u8,
    pub l_pad_x: i16,
    pub l_pad_y: i16,
    pub r_pad_x: i16,
    pub r_pad_y: i16,
    pub accel_x: i16,
    pub accel_y: i16,
    pub accel_z: i16,
    pub pitch: i16,
    pub yaw: i16,
    pub roll: i16,
    pub unk_gyro: [u8; 8],
    pub l_trig: u16,
    pub r_trig: u16,
    pub l_stick_x: i16,
    pub l_stick_y: i16,
    pub r_stick_x: i16,
    pub r_stick_y: i16,
    pub l_pad_force: u16,
    pub r_pad_force: u16,
    pub l_stick_force: u16,
    pub r_stick_force: u16,
}

/// Tests one bit of a packed button byte.
fn get_bit(b: u8, i: u8) -> (r: bool)
    requires
        i < 8,
    ensures
        r == bit(b, i as int),
{
    let mask: u8 = if i == 0 {
        1
    } else if i == 1 {
        2
    } else if i == 2 {
        4
    } else if i == 3 {
        8
    } else if i == 4 {
        16
    } else if i == 5 {
        32
    } else if i == 6 {
        64
    } else {
        128
    };
    b / mask % 2 == 1
}

impl InputReport {
    pub fn get_r2(&self) -> (r: bool)
        ensures
            r == bit(self.b08, 0),
    {
        get_bit(self.b08, 0)
    }

    pub fn get_l2(&self) -> (r: bool)
        ensures
            r == bit(self.b08, 1),
    {
        get_bit(self.b08, 1)
    }

    pub fn get_r1(&self) -> (r: bool)
        ensures
            r == bit(self.b08, 2),
    {
        get_bit(self.b08, 2)
    }

    pub fn get_l1(&self) -> (r: bool)
        ensures
            r == bit(self.b08, 3),
    {
        get_bit(self.b08, 3)
    }

    pub fn get_y(&self) -> (r: bool)
        ensures
            r == bit(self.b08, 4),
    {
        get_bit(self.b08, 4)
    }

    pub fn get_b(&self) -> (r: bool)
        ensures
            r == bit(self.b08, 5),
    {
        get_bit(self.b08, 5)
    }

    pub fn get_x(&self) -> (r: bool)
        ensures
            r == bit(self.b08, 6),
    {
        get_bit(self.b08, 6)
    }

    pub fn get_a(&self) -> (r: bool)
        ensures
            r == bit(self.b08, 7),
    {
        get_bit(self.b08, 7)
    }

    pub fn get_n(&self) -> (r: bool)
        ensures
            r == bit(self.b09, 0),
    {
        get_bit(self.b09, 0)
    }

    pub fn get_w(&self) -> (r: bool)
        ensures
            r == bit(self.b09, 1),
    {
        get_bit(self.b09, 1)
    }

    pub fn get_e(&self) -> (r: bool)
        ensures
            r == bit(self.b09, 2),
    {
        get_bit(self.b09, 2)
    }

    pub fn get_s(&self) -> (r: bool)
        ensures
            r == bit(self.b09, 3),
    {
        get_bit(self.b09, 3)
    }

    /// The two button quads: the directional pad on the left, the face
    /// buttons (y north, b east, a south, x west) on the right.
    pub fn quads(self) -> (r: LR<Buttons>)
        ensures
            r.l == (Buttons { n: bit(self.b09, 0), e: bit(self.b09, 2), s: bit(self.b09, 3), w: bit(self.b09, 1) }),
            r.r == (Buttons { n: bit(self.b08, 4), e: bit(self.b08, 5), s: bit(self.b08, 7), w: bit(self.b08, 6) }),
    {
        LR {
            l: Buttons { n: self.get_n(), e: self.get_e(), s: self.get_s(), w: self.get_w() },
            r: Buttons { n: self.get_y(), e: self.get_b(), s: self.get_a(), w: self.get_x() },
        }
    }

    /// The two stick deflections.
    pub fn sticks(self) -> (r: LR<XY>)
        ensures
            r == (LR {
                l: XY { x: self.l_stick_x, y: self.l_stick_y },
                r: XY { x: self.r_stick_x, y: self.r_stick_y },
            }),
    {
        LR {
            l: XY { x: self.l_stick_x, y: self.l_stick_y },
            r: XY { x: self.r_stick_x, y: self.r_stick_y },
        }
    }

    /// The two touchpad positions.
    pub fn pads(self) -> (r: LR<XY>)
        ensures
            r == (LR {
                l: XY { x: self.l_pad_x, y: self.l_pad_y },
                r: XY { x: self.r_pad_x, y: self.r_pad_y },
            }),
    {
        LR {
            l: XY { x: self.l_pad_x, y: self.l_pad_y },
            r: XY { x: self.r_pad_x, y: self.r_pad_y },
        }
    }

    /// The logical snapshot the engine samples: sticks, both quads, and the
    /// four shoulder/trigger modifiers.
    pub fn state(self) -> (r: MyState)
        ensures
            r.sticks == (LR {
                l: XY { x: self.l_stick_x, y: self.l_stick_y },
                r: XY { x: self.r_stick_x, y: self.r_stick_y },
            }),
            r.buttons.l == (Buttons { n: bit(self.b09, 0), e: bit(self.b09, 2), s: bit(self.b09, 3), w: bit(self.b09, 1) }),
            r.buttons.r == (Buttons { n: bit(self.b08, 4), e: bit(self.b08, 5), s: bit(self.b08, 7), w: bit(self.b08, 6) }),
            r.l1 == bit(self.b08, 3),
            r.l2 == bit(self.b08, 1),
            r.r1 == bit(self.b08, 2),
            r.r2 == bit(self.b08, 0),
    {
        MyState {
            sticks: self.sticks(),
            buttons: self.quads(),
            l1: self.get_l1(),
            l2: self.get_l2(),
            r1: self.get_r1(),
            r2: self.get_r2(),
        }
    }
}

/// The bytes are a well-formed input report: 64 bytes with the input-data
/// header.
pub open spec fn report_header_ok(s: Seq<u8>) -> bool {
    s.len() == 64 && s[0] == 1 && s[1] == 0 && s[2] == 9
}

/// The decoded report carries exactly the fields of the raw bytes.
pub open spec fn parsed_report(rep: InputReport, s: Seq<u8>) -> bool {
    &&& rep.unk_header@ == seq![s[0], s[1], s[2]]
    &&& rep.size == s[3]
    &&& rep.frame as int == le32(s[4], s[5], s[6], s[7])
    &&& rep.b08 == s[8]
    &&& rep.b09 == s[9]
    &&& rep.b10 == s[10]
    &&& rep.b11 == s[11]
    &&& rep.b12 == s[12]
    &&& rep.b13 == s[13]
    &&& rep.b14 == s[14]
    &&& rep.b15 == s[15]
    &&& rep.l_pad_x as int == le16_signed(s[16], s[17])
    &&& rep.l_pad_y as int == le16_signed(s[18], s[19])
    &&& rep.r_pad_x as int == le16_signed(s[20], s[21])
    &&& rep.r_pad_y as int == le16_signed(s[22], s[23])
    &&& rep.accel_x as int == le16_signed(s[24], s[25])
    &&& rep.accel_y as int == le16_signed(s[26], s[27])
    &&& rep.accel_z as int == le16_signed(s[28], s[29])
    &&& rep.pitch as int == le16_signed(s[30], s[31])
    &&& rep.yaw as int == le16_signed(s[32], s[33])
    &&& rep.roll as int == le16_signed(s[34], s[35])
    &&& rep.unk_gyro@ == s.subrange(36, 44)
    &&& rep.l_trig as int == le16(s[44], s[45])
    &&& rep.r_trig as int == le16(s[46], s[47])
    &&& rep.l_stick_x as int == le16_signed(s[48], s[49])
    &&& rep.l_stick_y as int == le16_signed(s[50], s[51])
    &&& rep.r_stick_x as int == le16_signed(s[52], s[53])
    &&& rep.r_stick_y as int == le16_signed(s[54], s[55])
    &&& rep.l_pad_force as int == le16(s[56], s[57])
    &&& rep.r_pad_force as int == le16(s[58], s[59])
    &&& rep.l_stick_force as int == le16(s[60], s[61])
    &&& rep.r_stick_force as int == le16(s[62], s[63])
}

/// Decodes a well-formed 64-byte input report.
pub fn parse_input_report(r: &[u8]) -> (rep: InputReport)
    requires
        report_header_ok(r@),
    ensures
        parsed_report(rep, r@),
{
    let rep = InputReport {
        unk_header: [r[0], r[1], r[2]],
        size: r[3],
        frame: u32_le(r[4], r[5], r[6], r[7]),
        b08: r[8],
        b09: r[9],
        b10: r[10],
        b11: r[11],
        b12: r[12],
        b13: r[13],
        b14: r[14],
        b15: r[15],
        l_pad_x: i16_le(r[16], r[17]),
        l_pad_y: i16_le(r[18], r[19]),
        r_pad_x: i16_le(r[20], r[21]),
        r_pad_y: i16_le(r[22], r[23]),
        accel_x: i16_le(r[24], r[25]),
        accel_y: i16_le(r[26], r[27]),
        accel_z: i16_le(r[28], r[29]),
        pitch: i16_le(r[30], r[31]),
        yaw: i16_le(r[32], r[33]),
        roll: i16_le(r[34], r[35]),
        unk_gyro: [r[36], r[37], r[38], r[39], r[40], r[41], r[42], r[43]],
        l_trig: u16_le(r[44], r[45]),
        r_trig: u16_le(r[46], r[47]),
        l_stick_x: i16_le(r[48], r[49]),
        l_stick_y: i16_le(r[50], r[51]),
        r_stick_x: i16_le(r[52], r[53]),
        r_stick_y: i16_le(r[54], r[55]),
        l_pad_force: u16_le(r[56], r[57]),
        r_pad_force: u16_le(r[58], r[59]),
        l_stick_force: u16_le(r[60], r[61]),
        r_stick_force: u16_le(r[62], r[63]),
    };
    proof {
        assert(rep.unk_header@ =~= seq![r@[0], r@[1], r@[2]]);
        assert(rep.unk_gyro@ =~= r@.subrange(36, 44));
    }
    rep
}

/// Decodes an input report, rejecting anything that is not a 64-byte record
/// with the input-data header.
pub fn try_parse_input_report(r: &[u8]) -> (rep: Option<InputReport>)
    ensures
        match rep {
            Some(v) => report_header_ok(r@) && parsed_report(v, r@),
            None => !report_header_ok(r@),
        },
{
    if r.len() != 64 {
        return None;
    }
    if !(r[0] == 1 && r[1] == 0 && r[2] == 9) {
        return None;
    }
    Some(parse_input_report(r))
}

/// The report kinds of the controller's configuration protocol.
#[derive(Debug, Copy, Clone, PartialEq, Eq, Hash, Structural)]
pub enum Report {
    InputData,
    SetMappings,
    ClearMappings,
    GetMappings,
    GetAttrib,
    GetAttribLabel,
    DefaultMappings,
    FactoryReset,
    WriteRegister,
    ClearRegister,
    ReadRegister,
    GetRegisterLabel,
    GetRegisterMax,
    GetRegisterDefault,
    SetMode,
    DefaultMouse,
    ForceFeedback,
    RequestCommStatus,
    GetSerial,
    HapticPulse,
}

/// The wire code of each report kind.
pub open spec fn report_code(r: Report) -> u8 {
    match r {
        Report::InputData => 0x09,
        Report::SetMappings => 0x80,
        Report::ClearMappings => 0x81,
        Report::GetMappings => 0x82,
        Report::GetAttrib => 0x83,
        Report::GetAttribLabel => 0x84,
        Report::DefaultMappings => 0x85,
        Report::FactoryReset => 0x86,
        Report::WriteRegister => 0x87,
        Report::ClearRegister => 0x88,
        Report::ReadRegister => 0x89,
        Report::GetRegisterLabel => 0x8a,
        Report::GetRegisterMax => 0x8b,
        Report::GetRegisterDefault => 0x8c,
        Report::SetMode => 0x8d,
        Report::DefaultMouse => 0x8e,
        Report::ForceFeedback => 0x8f,
        Report::RequestCommStatus => 0xb4,
        Report::GetSerial => 0xae,
        Report::HapticPulse => 0xea,
    }
}

impl Report {
    /// The wire code of this report kind.
    pub fn code(self) -> (r: u8)
        ensures
            r == report_code(self),
    {
        match self {
            Report::InputData => 0x09,
            Report::SetMappings => 0x80,
            Report::ClearMappings => 0x81,
            Report::GetMappings => 0x82,
            Report::GetAttrib => 0x83,
            Report::GetAttribLabel => 0x84,
            Report::DefaultMappings => 0x85,
            Report::FactoryReset => 0x86,
            Report::WriteRegister => 0x87,
            Report::ClearRegister => 0x88,
            Report::ReadRegister => 0x89,
            Report::GetRegisterLabel => 0x8a,
            Report::GetRegisterMax => 0x8b,
            Report::GetRegisterDefault => 0x8c,
            Report::SetMode => 0x8d,
            Report::DefaultMouse => 0x8e,
            Report::ForceFeedback => 0x8f,
            Report::RequestCommStatus => 0xb4,
            Report::GetSerial => 0xae,
            Report::HapticPulse => 0xea,
        }
    }
}

/// The controller's writable configuration registers.
#[derive(Debug, Copy, Clone, PartialEq, Eq, Hash, Structural)]
pub enum Register {
    LpadMode,
    RpadMode,
    RpadMargin,
    GyroMode,
}

/// The wire code of each register.
pub open spec fn register_code(r: Register) -> u8 {
    match r {
        Register::LpadMode => 0x07,
        Register::RpadMode => 0x08,
        Register::RpadMargin => 0x18,
        Register::GyroMode => 0x30,
    }
}

impl Register {
    /// The wire code of this register.
    pub fn code(self) -> (r: u8)
        ensures
            r == register_code(self),
    {
        match self {
            Register::LpadMode => 0x07,
            Register::RpadMode => 0x08,
            Register::RpadMargin => 0x18,
            Register::GyroMode => 0x30,
        }
    }
}

/// Builds the 64-byte write-register command: the write-register report
/// code, a payload length of three, the register code, then the value in
/// little-endian order, zero-padded to the record size.
pub fn register_command(register: Register, value: u16) -> (buf: Vec<u8>)
    ensures
        buf@.len() == 64,
        buf@[0] == 0x87,
        buf@[1] == 3,
        buf@[2] == register_code(register),
        buf@[3] as int == value as int % 256,
        buf@[4] as int == value as int / 256,
        forall|i: int| 5 <= i < 64 ==> buf@[i] == 0,
{
    let mut buf: Vec<u8> = Vec::new();
    buf.push(0x87);
    buf.push(3);
    buf.push(register.code());
    buf.push((value % 256) as u8);
    buf.push((value / 256) as u8);
    while buf.len() < 64
        invariant
            5 <= buf@.len() <= 64,
            buf@[0] == 0x87,
            buf@[1] == 3,
            buf@[2] == register_code(register),
            buf@[3] as int == value as int % 256,
            buf@[4] as int == value as int / 256,
            forall|i: int| 5 <= i < buf@.len() ==> buf@[i] == 0,
        decreases 64 - buf.len(),
    {
        buf.push(0);
    }
    buf
}

} // verus!
