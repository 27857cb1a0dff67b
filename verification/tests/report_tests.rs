use padtype::report::{InputReport, Register, Report, parse_input_report, register_command,
    try_parse_input_report};

fn raw_report() -> [u8; 64] {
    let mut r = [0u8; 64];
    r[0] = 0x01;
    r[1] = 0x00;
    r[2] = 0x09;
    r[3] = 64;
    // frame counter 0x04030201
    r[4] = 0x01;
    r[5] = 0x02;
    r[6] = 0x03;
    r[7] = 0x04;
    // buttons: a (bit 7) and l1 (bit 3) held; dpad north (bit 0 of byte 9)
    r[8] = 0x88;
    r[9] = 0x01;
    // left stick: x = -2 (0xfffe), y = 300 (0x012c)
    r[48] = 0xfe;
    r[49] = 0xff;
    r[50] = 0x2c;
    r[51] = 0x01;
    // right trigger: 0x0201
    r[46] = 0x01;
    r[47] = 0x02;
    r
}

#[test]
fn parse_decodes_fields() {
    let rep = parse_input_report(&raw_report());
    assert_eq!(rep.size, 64);
    assert_eq!(rep.frame, 0x04030201);
    assert_eq!(rep.l_stick_x, -2);
    assert_eq!(rep.l_stick_y, 300);
    assert_eq!(rep.r_trig, 0x0201);
    assert!(rep.get_a());
    assert!(rep.get_l1());
    assert!(!rep.get_y());
    assert!(rep.get_n());
    assert!(!rep.get_s());
}

#[test]
fn parsed_state_maps_buttons() {
    let rep = parse_input_report(&raw_report());
    let state = rep.state();
    assert_eq!(state.sticks.l.x, -2);
    assert_eq!(state.sticks.l.y, 300);
    assert!(state.buttons.r.s); // a is the south face button
    assert!(state.buttons.l.n); // dpad north
    assert!(state.l1);
    assert!(!state.r2);
    let quads = rep.quads();
    assert_eq!(quads, state.buttons);
    let sticks = rep.sticks();
    assert_eq!(sticks, state.sticks);
    let pads = rep.pads();
    assert_eq!(pads.l.x, 0);
}

#[test]
fn try_parse_rejects_malformed() {
    assert!(try_parse_input_report(&[0u8; 63]).is_none());
    let mut bad_header = raw_report();
    bad_header[2] = 0x08;
    assert!(try_parse_input_report(&bad_header).is_none());
    assert!(try_parse_input_report(&raw_report()).is_some());
}

#[test]
fn report_and_register_codes() {
    assert_eq!(Report::InputData.code(), 0x09);
    assert_eq!(Report::ClearMappings.code(), 0x81);
    assert_eq!(Report::WriteRegister.code(), 0x87);
    assert_eq!(Report::HapticPulse.code(), 0xea);
    assert_eq!(Register::RpadMode.code(), 0x08);
    assert_eq!(Register::RpadMargin.code(), 0x18);
}

#[test]
fn write_register_command_bytes() {
    let buf = register_command(Register::RpadMode, 0x0107);
    assert_eq!(buf.len(), 64);
    assert_eq!(buf[0], 0x87);
    assert_eq!(buf[1], 3);
    assert_eq!(buf[2], 0x08);
    assert_eq!(buf[3], 0x07);
    assert_eq!(buf[4], 0x01);
    assert!(buf[5..].iter().all(|&b| b == 0));
}

#[test]
fn negative_stick_roundtrip() {
    let mut r = raw_report();
    // y = -32768
    r[50] = 0x00;
    r[51] = 0x80;
    let rep: InputReport = parse_input_report(&r);
    assert_eq!(rep.l_stick_y, -32768);
}
