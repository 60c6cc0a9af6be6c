use eink_waveshare_rs::epd4in2::{Command, DriverError, IdleWait, PowerState, Step, EPD4in2};
use eink_waveshare_rs::lut::Lut;

/// What a bus that always succeeds records: (is_data, bytes) per transfer.
fn transcript(plan: &[Step], frame: &[u8]) -> Vec<(bool, Vec<u8>)> {
    let mut out = Vec::new();
    for step in plan {
        match step {
            Step::Command(c) => out.push((false, vec![c.address()])),
            Step::Data(b) => out.push((true, vec![*b])),
            Step::Frame => out.push((true, frame.to_vec())),
            Step::Lut(l) => out.push((true, l.bytes().to_vec())),
            _ => {}
        }
    }
    out
}

fn active() -> EPD4in2 {
    let mut epd = EPD4in2::new();
    let _ = epd.init();
    epd
}

#[test]
fn new_is_uninitialized_400_by_300() {
    let epd = EPD4in2::new();
    assert_eq!(epd.get_width(), 400);
    assert_eq!(epd.get_height(), 300);
    assert_eq!(epd.state(), PowerState::Uninitialized);
    assert_eq!(epd.display_frame(), Err(DriverError::NotInitialized));
}

#[test]
fn init_transcript() {
    let mut epd = EPD4in2::new();
    let plan = epd.init();
    assert_eq!(&plan[..4], &[Step::ResetLow, Step::DelayMs(200), Step::ResetHigh, Step::DelayMs(200)]);
    let t = transcript(&plan, &[]);
    let expected: Vec<(bool, Vec<u8>)> = vec![
        (false, vec![0x01]),
        (true, vec![0x03]),
        (true, vec![0x00]),
        (true, vec![0x2b]),
        (true, vec![0x2b]),
        (true, vec![0xff]),
        (false, vec![0x06]),
        (true, vec![0x17]),
        (true, vec![0x17]),
        (true, vec![0x17]),
        (false, vec![0x04]),
        (false, vec![0x00]),
        (true, vec![0x3F]),
        (false, vec![0x30]),
        (true, vec![0x3A]),
    ];
    assert_eq!(t, expected);
    assert_eq!(plan[15], Step::WaitIdle);
    assert_eq!(epd.state(), PowerState::Active);
}

#[test]
fn partial_window_addressing() {
    let epd = active();
    let buffer = vec![0u8; 2 * 4];
    let plan = epd.set_partial_window(&buffer, 13, 5, 16, 4, false).unwrap();
    let t = transcript(&plan, &buffer);
    let expected: Vec<(bool, Vec<u8>)> = vec![
        (false, vec![0x91]),
        (false, vec![0x90]),
        (true, vec![0x00]),
        (true, vec![0x08]),
        (true, vec![0x00]),
        (true, vec![0x17]),
        (true, vec![0x00]),
        (true, vec![0x05]),
        (true, vec![0x00]),
        (true, vec![0x08]),
        (true, vec![0x01]),
        (false, vec![0x13]),
        (true, buffer.clone()),
        (false, vec![0x92]),
    ];
    assert_eq!(t, expected);
}

#[test]
fn partial_window_high_coordinates() {
    let epd = active();
    let buffer = vec![0u8; 4 * 2];
    let plan = epd.set_partial_window(&buffer, 300, 290, 32, 2, true).unwrap();
    assert_eq!(
        &plan[2..10],
        &[Step::Data(0x01), Step::Data(0x28), Step::Data(0x01), Step::Data(0x47), Step::Data(0x01), Step::Data(0x22), Step::Data(0x01), Step::Data(0x23)]
    );
    assert_eq!(plan[11], Step::Command(Command::DATA_START_TRANSMISSION_1));
}

#[test]
fn partial_window_refusals() {
    let epd = active();
    assert_eq!(epd.set_partial_window(&[0u8; 3], 0, 0, 16, 2, true), Err(DriverError::BufferSize));
    assert_eq!(epd.set_partial_window(&[], 0, 0, 0, 2, true), Err(DriverError::Window));
    assert_eq!(epd.set_partial_window(&[0u8; 2], 0xfff8, 0, 16, 1, true), Err(DriverError::Window));
    assert_eq!(epd.set_partial_window(&[0u8; 2], 0, 0xffff, 8, 2, true), Err(DriverError::Window));
    let fresh = EPD4in2::new();
    assert_eq!(fresh.set_partial_window(&[0u8; 2], 0, 0, 8, 2, true), Err(DriverError::NotInitialized));
}

#[test]
fn display_and_transfer_frame_sequence() {
    let epd = active();
    let buffer = vec![0x0fu8; 15000];
    let plan = epd.display_and_transfer_frame(&buffer, None).unwrap();
    assert_eq!(
        &plan[..10],
        &[
            Step::Command(Command::RESOLUTION_SETTING),
            Step::Data(0x01),
            Step::Data(0x90),
            Step::Data(0x01),
            Step::Data(0x2C),
            Step::Command(Command::VCM_DC_SETTING),
            Step::Data(0x12),
            Step::Command(Command::VCOM_AND_DATA_INTERVAL_SETTING),
            Step::Data(0x97),
            Step::Command(Command::DATA_START_TRANSMISSION_1),
        ]
    );
    assert!(plan[10..15010].iter().all(|s| *s == Step::Data(0xff)));
    assert_eq!(
        &plan[15010..15014],
        &[Step::DelayMs(2), Step::Command(Command::DATA_START_TRANSMISSION_2), Step::Frame, Step::DelayMs(2)]
    );
    assert_eq!(plan[15014], Step::Command(Command::LUT_FOR_VCOM));
    assert_eq!(plan[15015], Step::Lut(Lut::Vcom0));
    assert_eq!(&plan[plan.len() - 3..], &[Step::Command(Command::DISPLAY_REFRESH), Step::DelayMs(10), Step::WaitIdle]);
    assert_eq!(plan.len(), 15027);
    let plan = epd.display_and_transfer_frame(&buffer, Some(0x00)).unwrap();
    assert_eq!(plan[10], Step::Data(0x00));
    assert_eq!(epd.display_and_transfer_frame(&buffer[..100], None), Err(DriverError::BufferSize));
}

#[test]
fn display_frame_and_quick_luts() {
    let epd = active();
    let full = epd.display_frame().unwrap();
    let quick = epd.display_frame_quick().unwrap();
    assert_eq!(full.len(), 13);
    assert_eq!(full[1], Step::Lut(Lut::Vcom0));
    assert_eq!(full[11], Step::DelayMs(100));
    assert_eq!(quick[1], Step::Lut(Lut::Vcom0Quick));
    assert_eq!(quick[9], Step::Lut(Lut::BlackToBlackQuick));
    assert_eq!(quick[11], Step::DelayMs(1));
    assert_eq!(quick[12], Step::WaitIdle);
}

#[test]
fn lut_tables() {
    assert_eq!(Lut::Vcom0.bytes().len(), 44);
    assert_eq!(Lut::WhiteToWhite.bytes().len(), 42);
    assert_eq!(Lut::WhiteToWhite.bytes()[..2], [0x40, 0x17]);
    assert_eq!(Lut::BlackToBlackQuick.bytes()[..2], [0x50, 0x0E]);
}

#[test]
fn clear_frame_fills_both_planes() {
    let epd = active();
    let plan = epd.clear_frame(Some(0x00)).unwrap();
    assert_eq!(plan.len(), 5 + 2 + 15000 + 3 + 15000);
    assert_eq!(plan[5], Step::Command(Command::DATA_START_TRANSMISSION_1));
    assert_eq!(plan[7], Step::Data(0x00));
    assert_eq!(plan[15008], Step::Command(Command::DATA_START_TRANSMISSION_2));
    let plan = epd.clear_frame(None).unwrap();
    assert_eq!(plan[plan.len() - 1], Step::Data(0xff));
}

#[test]
fn sleep_sequence_and_refusals() {
    let mut epd = active();
    let plan = epd.sleep().unwrap();
    assert_eq!(plan.len(), 15);
    assert_eq!(&plan[13..], &[Step::Command(Command::DEEP_SLEEP), Step::Data(0xA5)]);
    assert_eq!(plan[12], Step::WaitIdle);
    assert_eq!(epd.state(), PowerState::Sleeping);
    assert_eq!(epd.display_frame(), Err(DriverError::Asleep));
    assert_eq!(epd.display_frame_quick(), Err(DriverError::Asleep));
    assert_eq!(epd.clear_frame(None), Err(DriverError::Asleep));
    assert_eq!(epd.display_and_transfer_frame(&vec![0u8; 15000], None), Err(DriverError::Asleep));
    assert_eq!(epd.set_partial_window(&[0u8; 2], 0, 0, 8, 2, true), Err(DriverError::Asleep));
    assert_eq!(epd.sleep(), Err(DriverError::Asleep));
    let _ = epd.reset();
    assert_eq!(epd.display_frame(), Err(DriverError::NotInitialized));
    let _ = epd.init();
    assert!(epd.display_frame().is_ok());
}

#[test]
fn transfer_failure_needs_init() {
    let mut epd = active();
    epd.transfer_failed();
    assert_eq!(epd.state(), PowerState::Uninitialized);
    assert_eq!(epd.clear_frame(None), Err(DriverError::NotInitialized));
}

#[test]
fn busy_wait_is_bounded() {
    let epd = active();
    assert_eq!(epd.wait_until_idle(0, false), IdleWait::Idle);
    assert_eq!(epd.wait_until_idle(0, true), IdleWait::Poll(10));
    assert_eq!(epd.wait_until_idle(2999, true), IdleWait::Poll(10));
    assert_eq!(epd.wait_until_idle(3000, true), IdleWait::TimedOut);
    assert_eq!(epd.wait_until_idle(3000, false), IdleWait::Idle);
}
