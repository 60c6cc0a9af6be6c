//! Protocol of the Waveshare 4.2" e-ink display.
//!
//! The driver does not touch the bus itself: each operation returns the plan
//! of steps that drive the pins, the bus and the delay, in order. Whoever owns
//! the hardware runs the plan and stops at the first failing transfer.
use vstd::prelude::*;
use crate::lut::Lut;

verus! {

/// Commands of the 4.2" controller; the opcode of each is given by `address`.
#[allow(non_camel_case_types)]
#[derive(Copy, Clone, Debug, PartialEq, Eq, Structural)]
pub enum Command {
    PANEL_SETTING,
    POWER_SETTING,
    POWER_OFF,
    POWER_ON,
    BOOSTER_SOFT_START,
    DEEP_SLEEP,
    DATA_START_TRANSMISSION_1,
    DISPLAY_REFRESH,
    DATA_START_TRANSMISSION_2,
    LUT_FOR_VCOM,
    LUT_WHITE_TO_WHITE,
    LUT_BLACK_TO_WHITE,
    LUT_WHITE_TO_BLACK,
    LUT_BLACK_TO_BLACK,
    PLL_CONTROL,
    VCOM_AND_DATA_INTERVAL_SETTING,
    RESOLUTION_SETTING,
    VCM_DC_SETTING,
    PARTIAL_WINDOW,
    PARTIAL_IN,
    PARTIAL_OUT,
}

impl Command {
    /// The one-byte opcode of a command.
    pub open spec fn spec_address(self) -> u8 {
        match self {
            Command::PANEL_SETTING => 0x00,
            Command::POWER_SETTING => 0x01,
            Command::POWER_OFF => 0x02,
            Command::POWER_ON => 0x04,
            Command::BOOSTER_SOFT_START => 0x06,
            Command::DEEP_SLEEP => 0x07,
            Command::DATA_START_TRANSMISSION_1 => 0x10,
            Command::DISPLAY_REFRESH => 0x12,
            Command::DATA_START_TRANSMISSION_2 => 0x13,
            Command::LUT_FOR_VCOM => 0x20,
            Command::LUT_WHITE_TO_WHITE => 0x21,
            Command::LUT_BLACK_TO_WHITE => 0x22,
            Command::LUT_WHITE_TO_BLACK => 0x23,
            Command::LUT_BLACK_TO_BLACK => 0x24,
            Command::PLL_CONTROL => 0x30,
            Command::VCOM_AND_DATA_INTERVAL_SETTING => 0x50,
            Command::RESOLUTION_SETTING => 0x61,
            Command::VCM_DC_SETTING => 0x82,
            Command::PARTIAL_WINDOW => 0x90,
            Command::PARTIAL_IN => 0x91,
            Command::PARTIAL_OUT => 0x92,
        }
    }

    /// Returns the opcode of the command.
    pub fn address(self) -> (r: u8)
        ensures
            r == self.spec_address(),
    {
        match self {
            Command::PANEL_SETTING => 0x00,
            Command::POWER_SETTING => 0x01,
            Command::POWER_OFF => 0x02,
            Command::POWER_ON => 0x04,
            Command::BOOSTER_SOFT_START => 0x06,
            Command::DEEP_SLEEP => 0x07,
            Command::DATA_START_TRANSMISSION_1 => 0x10,
            Command::DISPLAY_REFRESH => 0x12,
            Command::DATA_START_TRANSMISSION_2 => 0x13,
            Command::LUT_FOR_VCOM => 0x20,
            Command::LUT_WHITE_TO_WHITE => 0x21,
            Command::LUT_BLACK_TO_WHITE => 0x22,
            Command::LUT_WHITE_TO_BLACK => 0x23,
            Command::LUT_BLACK_TO_BLACK => 0x24,
            Command::PLL_CONTROL => 0x30,
            Command::VCOM_AND_DATA_INTERVAL_SETTING => 0x50,
            Command::RESOLUTION_SETTING => 0x61,
            Command::VCM_DC_SETTING => 0x82,
            Command::PARTIAL_WINDOW => 0x90,
            Command::PARTIAL_IN => 0x91,
            Command::PARTIAL_OUT => 0x92,
        }
    }
}

/// One step of a plan. Each of `Command`, `Data`, `Frame` and `Lut` is one
/// framed transfer: chip-select low, data/command pin set (low for a
/// command, high for data), the bytes written, chip-select high.
#[derive(Copy, Clone, Debug, PartialEq, Eq, Structural)]
pub enum Step {
    /// Drive the reset pin low.
    ResetLow,
    /// Drive the reset pin high.
    ResetHigh,
    /// Block for the given number of milliseconds.
    DelayMs(u16),
    /// Send a command byte.
    Command(Command),
    /// Send one data byte.
    Data(u8),
    /// Send the caller's frame buffer as one data transfer.
    Frame,
    /// Send a waveform table as one data transfer.
    Lut(Lut),
    /// Poll the busy pin until the controller reports idle.
    WaitIdle,
}

/// What to do after one read of the busy pin.
#[derive(Copy, Clone, Debug, PartialEq, Eq, Structural)]
pub enum IdleWait {
    /// The controller is idle: the wait is over.
    Idle,
    /// Still busy: sleep for the given milliseconds, then read again.
    Poll(u16),
    /// Still busy after the largest number of reads: give up.
    TimedOut,
}

/// Where the controller stands in its life cycle.
#[derive(Copy, Clone, Debug, PartialEq, Eq, Structural)]
pub enum PowerState {
    /// Not initialised since construction, a reset or a failed transfer.
    Uninitialized,
    /// Powered up and initialised.
    Active,
    /// In deep sleep: only `reset` and `init` may follow.
    Sleeping,
}

/// Why the driver refused an operation.
#[derive(Copy, Clone, Debug, PartialEq, Eq, Structural)]
pub enum DriverError {
    /// The controller is in deep sleep.
    Asleep,
    /// The controller has not been initialised.
    NotInitialized,
    /// The buffer does not hold the number of bytes that the frame or window needs.
    BufferSize,
    /// The partial window is empty or reaches past the 16-bit coordinate range.
    Window,
}

/// Milliseconds between two reads of the busy pin.
pub const BUSY_POLL_MS: u16 = 10;

/// Reads of the busy pin before a wait gives up.
pub const MAX_BUSY_POLLS: u32 = 3000;

/// Width of the panel in pixels.
pub const WIDTH: u16 = 400;

/// Height of the panel in pixels.
pub const HEIGHT: u16 = 300;

/// Default background byte (all pixels white).
pub const DEFAULT_COLOR: u8 = 0xff;

/// Sequence of `n` data steps that all send `byte`.
pub open spec fn repeated_data(byte: u8, n: nat) -> Seq<Step> {
    Seq::new(n, |i: int| Step::Data(byte))
}

/// High byte of a 16-bit value.
pub open spec fn hi(v: int) -> u8 {
    (v / 256) as u8
}

/// Low byte of a 16-bit value.
pub open spec fn lo(v: int) -> u8 {
    (v % 256) as u8
}

/// The electrical reset: reset pin low, settle, high, settle.
pub open spec fn reset_steps() -> Seq<Step> {
    seq![Step::ResetLow, Step::DelayMs(200), Step::ResetHigh, Step::DelayMs(200)]
}

/// Reset, then power settings, booster soft start, power on (and wait),
/// panel settings and PLL frequency.
pub open spec fn init_steps() -> Seq<Step> {
    reset_steps() + seq![
        Step::Command(Command::POWER_SETTING),
        Step::Data(0x03),
        Step::Data(0x00),
        Step::Data(0x2b),
        Step::Data(0x2b),
        Step::Data(0xff),
        Step::Command(Command::BOOSTER_SOFT_START),
        Step::Data(0x17),
        Step::Data(0x17),
        Step::Data(0x17),
        Step::Command(Command::POWER_ON),
        Step::WaitIdle,
        Step::Command(Command::PANEL_SETTING),
        Step::Data(0x3F),
        Step::Command(Command::PLL_CONTROL),
        Step::Data(0x3A),
    ]
}

/// The resolution command with width and height, each big-endian.
pub open spec fn resolution_steps(width: u16, height: u16) -> Seq<Step> {
    seq![
        Step::Command(Command::RESOLUTION_SETTING),
        Step::Data(hi(width as int)),
        Step::Data(lo(width as int)),
        Step::Data(hi(height as int)),
        Step::Data(lo(height as int)),
    ]
}

/// The five waveform tables, each after its command: VCOM, white to white,
/// black to white, white to black, black to black.
pub open spec fn lut_steps(quick: bool) -> Seq<Step> {
    if quick {
        seq![
            Step::Command(Command::LUT_FOR_VCOM),
            Step::Lut(Lut::Vcom0Quick),
            Step::Command(Command::LUT_WHITE_TO_WHITE),
            Step::Lut(Lut::WhiteToWhiteQuick),
            Step::Command(Command::LUT_BLACK_TO_WHITE),
            Step::Lut(Lut::BlackToWhiteQuick),
            Step::Command(Command::LUT_WHITE_TO_BLACK),
            Step::Lut(Lut::WhiteToBlackQuick),
            Step::Command(Command::LUT_BLACK_TO_BLACK),
            Step::Lut(Lut::BlackToBlackQuick),
        ]
    } else {
        seq![
            Step::Command(Command::LUT_FOR_VCOM),
            Step::Lut(Lut::Vcom0),
            Step::Command(Command::LUT_WHITE_TO_WHITE),
            Step::Lut(Lut::WhiteToWhite),
            Step::Command(Command::LUT_BLACK_TO_WHITE),
            Step::Lut(Lut::BlackToWhite),
            Step::Command(Command::LUT_WHITE_TO_BLACK),
            Step::Lut(Lut::WhiteToBlack),
            Step::Command(Command::LUT_BLACK_TO_BLACK),
            Step::Lut(Lut::BlackToBlack),
        ]
    }
}

/// First column of a partial window: `x` rounded down to a multiple of 8.
pub open spec fn window_x_start(x: int) -> int {
    x - x % 8
}

/// Last column of a partial window: the end of the window of width `w`
/// from `window_x_start(x)`, with its low three bits set.
pub open spec fn window_x_end(x: int, w: int) -> int {
    let e = window_x_start(x) + w - 1;
    e - e % 8 + 7
}

/// Whether a partial window can be addressed: it is not empty and its last
/// column and row fit in 16 bits.
pub open spec fn window_fits(x: int, y: int, w: int, l: int) -> bool {
    w >= 1 && l >= 1 && window_x_start(x) + w - 1 <= 0xffff && y + l - 1 <= 0xffff
}

/// Bytes of a buffer for a window of `w` by `l` pixels.
pub open spec fn window_len(w: int, l: int) -> int {
    (w + 7) / 8 * l
}

/// Partial-in, the window block (X start, X end, Y start, Y end, each
/// big-endian, then the scan mode), the plane selection, the buffer,
/// partial-out.
pub open spec fn partial_window_steps(x: int, y: int, w: int, l: int, is_dtm1: bool) -> Seq<Step> {
    seq![
        Step::Command(Command::PARTIAL_IN),
        Step::Command(Command::PARTIAL_WINDOW),
        Step::Data(hi(window_x_start(x))),
        Step::Data(lo(window_x_start(x))),
        Step::Data(hi(window_x_end(x, w))),
        Step::Data(lo(window_x_end(x, w))),
        Step::Data(hi(y)),
        Step::Data(lo(y)),
        Step::Data(hi(y + l - 1)),
        Step::Data(lo(y + l - 1)),
        Step::Data(0x01),
        Step::Command(
            if is_dtm1 {
                Command::DATA_START_TRANSMISSION_1
            } else {
                Command::DATA_START_TRANSMISSION_2
            },
        ),
        Step::Frame,
        Step::Command(Command::PARTIAL_OUT),
    ]
}

/// Waveform tables, refresh, a settle delay, and the wait for idle.
pub open spec fn refresh_steps(quick: bool, delay: u16) -> Seq<Step> {
    lut_steps(quick) + seq![Step::Command(Command::DISPLAY_REFRESH), Step::DelayMs(delay), Step::WaitIdle]
}

/// The full update: resolution, VCOM and interval settings, the old plane
/// filled with `color`, the new plane from the buffer, then a full refresh.
pub open spec fn transfer_frame_steps(width: u16, height: u16, len: nat, color: u8) -> Seq<Step> {
    resolution_steps(width, height)
        + seq![
            Step::Command(Command::VCM_DC_SETTING),
            Step::Data(0x12),
            Step::Command(Command::VCOM_AND_DATA_INTERVAL_SETTING),
            Step::Data(0x97),
            Step::Command(Command::DATA_START_TRANSMISSION_1),
        ]
        + repeated_data(color, len)
        + seq![
            Step::DelayMs(2),
            Step::Command(Command::DATA_START_TRANSMISSION_2),
            Step::Frame,
            Step::DelayMs(2),
        ]
        + refresh_steps(false, 10)
}

/// Resolution, then both image planes filled with `color`.
pub open spec fn clear_steps(width: u16, height: u16, color: u8) -> Seq<Step> {
    let n = window_len(width - width % 8, height as int) as nat;
    resolution_steps(width, height)
        + seq![Step::Command(Command::DATA_START_TRANSMISSION_1), Step::DelayMs(2)]
        + repeated_data(color, n)
        + seq![
            Step::DelayMs(2),
            Step::Command(Command::DATA_START_TRANSMISSION_2),
            Step::DelayMs(2),
        ]
        + repeated_data(color, n)
}

/// Border floating, VCOM to 0V, panel setting, power rails to 0V, power off
/// (and wait), deep sleep with its check byte.
pub open spec fn sleep_steps() -> Seq<Step> {
    seq![
        Step::Command(Command::VCOM_AND_DATA_INTERVAL_SETTING),
        Step::Data(0x17),
        Step::Command(Command::VCM_DC_SETTING),
        Step::Command(Command::PANEL_SETTING),
        Step::DelayMs(100),
        Step::Command(Command::POWER_SETTING),
        Step::Data(0x00),
        Step::Data(0x00),
        Step::Data(0x00),
        Step::Data(0x00),
        Step::DelayMs(100),
        Step::Command(Command::POWER_OFF),
        Step::WaitIdle,
        Step::Command(Command::DEEP_SLEEP),
        Step::Data(0xA5),
    ]
}

fn send_command(plan: &mut Vec<Step>, command: Command)
    ensures
        final(plan)@ == old(plan)@.push(Step::Command(command)),
{
    plan.push(Step::Command(command));
}

fn send_data(plan: &mut Vec<Step>, val: u8)
    ensures
        final(plan)@ == old(plan)@.push(Step::Data(val)),
{
    plan.push(Step::Data(val));
}

fn send_repeated_data(plan: &mut Vec<Step>, val: u8, n: usize)
    ensures
        final(plan)@ == old(plan)@ + repeated_data(val, n as nat),
{
    let ghost start = plan@;
    let mut i: usize = 0;
    while i < n
        invariant
            i <= n,
            plan@ == start + repeated_data(val, i as nat),
        decreases n - i,
    {
        plan.push(Step::Data(val));
        i = i + 1;
        assert(plan@ =~= start + repeated_data(val, i as nat));
    }
}

fn set_lut_helper(plan: &mut Vec<Step>, quick: bool)
    ensures
        final(plan)@ == old(plan)@ + lut_steps(quick),
{
    let ghost start = plan@;
    let (vcom, ww, bw, wb, bb) = if quick {
        (Lut::Vcom0Quick, Lut::WhiteToWhiteQuick, Lut::BlackToWhiteQuick, Lut::WhiteToBlackQuick,
        Lut::BlackToBlackQuick)
    } else {
        (Lut::Vcom0, Lut::WhiteToWhite, Lut::BlackToWhite, Lut::WhiteToBlack, Lut::BlackToBlack)
    };
    send_command(plan, Command::LUT_FOR_VCOM);
    plan.push(Step::Lut(vcom));
    send_command(plan, Command::LUT_WHITE_TO_WHITE);
    plan.push(Step::Lut(ww));
    send_command(plan, Command::LUT_BLACK_TO_WHITE);
    plan.push(Step::Lut(bw));
    send_command(plan, Command::LUT_WHITE_TO_BLACK);
    plan.push(Step::Lut(wb));
    send_command(plan, Command::LUT_BLACK_TO_BLACK);
    plan.push(Step::Lut(bb));
    assert(plan@ =~= start + lut_steps(quick));
}

fn hi_byte(v: u16) -> (r: u8)
    ensures
        r == hi(v as int),
{
    (v / 256) as u8
}

fn lo_byte(v: u16) -> (r: u8)
    ensures
        r == lo(v as int),
{
    (v % 256) as u8
}

fn byte_count(w: u16, l: u16) -> (r: usize)
    ensures
        r == window_len(w as int, l as int),
{
    let row: usize = (w as usize + 7) / 8;
    assert(row * (l as usize) <= 8192 * 65535) by (nonlinear_arith)
        requires
            row <= 8192,
    ;
    row * l as usize
}

fn send_resolution(plan: &mut Vec<Step>, width: u16, height: u16)
    ensures
        final(plan)@ == old(plan)@ + resolution_steps(width, height),
{
    let ghost start = plan@;
    send_command(plan, Command::RESOLUTION_SETTING);
    send_data(plan, hi_byte(width));
    send_data(plan, lo_byte(width));
    send_data(plan, hi_byte(height));
    send_data(plan, lo_byte(height));
    assert(plan@ =~= start + resolution_steps(width, height));
}

fn refresh(plan: &mut Vec<Step>, quick: bool, delay: u16)
    ensures
        final(plan)@ == old(plan)@ + refresh_steps(quick, delay),
{
    let ghost start = plan@;
    set_lut_helper(plan, quick);
    send_command(plan, Command::DISPLAY_REFRESH);
    plan.push(Step::DelayMs(delay));
    plan.push(Step::WaitIdle);
    assert(plan@ =~= start + refresh_steps(quick, delay));
}

/// The refusal owed to an operation in a state other than `Active`.
pub open spec fn state_error(state: PowerState) -> DriverError {
    if state == PowerState::Sleeping {
        DriverError::Asleep
    } else {
        DriverError::NotInitialized
    }
}

/// What one read of the busy pin leads to, after `polls` reads that found
/// the controller busy.
pub open spec fn idle_decision(polls: u32, busy: bool) -> IdleWait {
    if !busy {
        IdleWait::Idle
    } else if polls >= MAX_BUSY_POLLS {
        IdleWait::TimedOut
    } else {
        IdleWait::Poll(BUSY_POLL_MS)
    }
}

/// Driver state of a 4.2" display: its fixed size and where the controller
/// stands in its life cycle.
pub struct EPD4in2 {
    width: u16,
    height: u16,
    state: PowerState,
}

impl EPD4in2 {
    /// Width of the panel in pixels.
    pub closed spec fn spec_width(&self) -> u16 {
        self.width
    }

    /// Height of the panel in pixels.
    pub closed spec fn spec_height(&self) -> u16 {
        self.height
    }

    /// Life-cycle state of the controller.
    pub closed spec fn spec_state(&self) -> PowerState {
        self.state
    }

    /// Bytes of a full frame buffer.
    pub open spec fn frame_len(&self) -> int {
        window_len(self.spec_width() as int, self.spec_height() as int)
    }

    /// Get the width of the display.
    pub fn get_width(&self) -> (r: u16)
        ensures
            r == self.spec_width(),
    {
        self.width
    }

    /// Get the height of the display.
    pub fn get_height(&self) -> (r: u16)
        ensures
            r == self.spec_height(),
    {
        self.height
    }

    /// Returns the life-cycle state of the controller.
    pub fn state(&self) -> (r: PowerState)
        ensures
            r == self.spec_state(),
    {
        self.state
    }

    /// A driver for the 400 x 300 panel, not yet initialised: `init` comes next.
    pub fn new() -> (r: Self)
        ensures
            r.spec_width() == WIDTH,
            r.spec_height() == HEIGHT,
            r.spec_state() == PowerState::Uninitialized,
    {
        EPD4in2 { width: WIDTH, height: HEIGHT, state: PowerState::Uninitialized }
    }

    /// Resets and powers up the controller. Allowed in every state, and the
    /// only way, after `reset`, out of deep sleep.
    pub fn init(&mut self) -> (plan: Vec<Step>)
        ensures
            plan@ == init_steps(),
            final(self).spec_state() == PowerState::Active,
            final(self).spec_width() == old(self).spec_width(),
            final(self).spec_height() == old(self).spec_height(),
    {
        let mut plan = self.reset();
        send_command(&mut plan, Command::POWER_SETTING);
        send_data(&mut plan, 0x03);
        send_data(&mut plan, 0x00);
        send_data(&mut plan, 0x2b);
        send_data(&mut plan, 0x2b);
        send_data(&mut plan, 0xff);
        send_command(&mut plan, Command::BOOSTER_SOFT_START);
        let mut i: usize = 0;
        while i < 3
            invariant
                i <= 3,
                plan@ == init_steps().take(11 + i),
            decreases 3 - i,
        {
            send_data(&mut plan, 0x17);
            i = i + 1;
            assert(plan@ =~= init_steps().take(11 + i));
        }
        send_command(&mut plan, Command::POWER_ON);
        plan.push(Step::WaitIdle);
        send_command(&mut plan, Command::PANEL_SETTING);
        send_data(&mut plan, 0x3F);
        send_command(&mut plan, Command::PLL_CONTROL);
        send_data(&mut plan, 0x3A);
        assert(plan@ =~= init_steps());
        self.state = PowerState::Active;
        plan
    }

    /// Hardware reset. It wakes the controller from deep sleep, which then
    /// needs `init` before anything else.
    pub fn reset(&mut self) -> (plan: Vec<Step>)
        ensures
            plan@ == reset_steps(),
            final(self).spec_state() == PowerState::Uninitialized,
            final(self).spec_width() == old(self).spec_width(),
            final(self).spec_height() == old(self).spec_height(),
    {
        let mut plan: Vec<Step> = Vec::new();
        plan.push(Step::ResetLow);
        plan.push(Step::DelayMs(200));
        plan.push(Step::ResetHigh);
        plan.push(Step::DelayMs(200));
        assert(plan@ =~= reset_steps());
        self.state = PowerState::Uninitialized;
        plan
    }

    /// Records that a transfer of a plan failed: the controller is in an
    /// unknown state until the next `init`.
    pub fn transfer_failed(&mut self)
        ensures
            final(self).spec_state() == PowerState::Uninitialized,
            final(self).spec_width() == old(self).spec_width(),
            final(self).spec_height() == old(self).spec_height(),
    {
        self.state = PowerState::Uninitialized;
    }

    fn check_active(&self) -> (r: Result<(), DriverError>)
        ensures
            r is Ok <==> self.spec_state() == PowerState::Active,
            r matches Err(e) ==> e == state_error(self.spec_state()),
    {
        match self.state {
            PowerState::Active => Ok(()),
            PowerState::Sleeping => Err(DriverError::Asleep),
            PowerState::Uninitialized => Err(DriverError::NotInitialized),
        }
    }

    /// Stages `buffer` in one of the two image planes (the first when
    /// `is_dtm1`) for the window of `w` by `l` pixels at (`x`, `y`), without
    /// a refresh. The window's columns start at `x` rounded down to a
    /// multiple of 8 and end on the last column of a byte.
    pub fn set_partial_window(&self, buffer: &[u8], x: u16, y: u16, w: u16, l: u16, is_dtm1: bool) -> (r: Result<Vec<Step>, DriverError>)
        ensures
            r is Ok <==> self.spec_state() == PowerState::Active
                && window_fits(x as int, y as int, w as int, l as int)
                && buffer@.len() == window_len(w as int, l as int),
            self.spec_state() != PowerState::Active ==> r == Err::<Vec<Step>, DriverError>(state_error(self.spec_state())),
            self.spec_state() == PowerState::Active && !window_fits(x as int, y as int, w as int, l as int)
                ==> r == Err::<Vec<Step>, DriverError>(DriverError::Window),
            self.spec_state() == PowerState::Active && window_fits(x as int, y as int, w as int, l as int)
                && buffer@.len() != window_len(w as int, l as int)
                ==> r == Err::<Vec<Step>, DriverError>(DriverError::BufferSize),
            r matches Ok(plan) ==> plan@ == partial_window_steps(x as int, y as int, w as int, l as int, is_dtm1),
    {
        self.check_active()?;
        if w == 0 || l == 0 {
            return Err(DriverError::Window);
        }
        let x_start: u16 = x & 0xfff8;
        assert(x & 0xfff8u16 == x - x % 8) by (bit_vector);
        if x_start as u32 + w as u32 - 1 > 0xffff || y as u32 + l as u32 - 1 > 0xffff {
            return Err(DriverError::Window);
        }
        if buffer.len() != byte_count(w, l) {
            return Err(DriverError::BufferSize);
        }
        let mut plan: Vec<Step> = Vec::new();
        send_command(&mut plan, Command::PARTIAL_IN);
        send_command(&mut plan, Command::PARTIAL_WINDOW);
        send_data(&mut plan, hi_byte(x_start));
        send_data(&mut plan, lo_byte(x_start));
        let x_last: u16 = x_start + (w - 1);
        let x_end: u16 = x_last | 0x07;
        assert(x_last | 0x07u16 == x_last - x_last % 8 + 7) by (bit_vector);
        send_data(&mut plan, hi_byte(x_end));
        send_data(&mut plan, lo_byte(x_end));
        send_data(&mut plan, hi_byte(y));
        send_data(&mut plan, lo_byte(y));
        let y_end: u16 = y + (l - 1);
        send_data(&mut plan, hi_byte(y_end));
        send_data(&mut plan, lo_byte(y_end));
        send_data(&mut plan, 0x01);
        if is_dtm1 {
            send_command(&mut plan, Command::DATA_START_TRANSMISSION_1);
        } else {
            send_command(&mut plan, Command::DATA_START_TRANSMISSION_2);
        }
        plan.push(Step::Frame);
        send_command(&mut plan, Command::PARTIAL_OUT);
        assert(plan@ =~= partial_window_steps(x as int, y as int, w as int, l as int, is_dtm1));
        Ok(plan)
    }

    /// Full update: the old image plane is filled with `color` (0xff when
    /// `None`), the new one is `buffer`, then the slow full refresh runs.
    pub fn display_and_transfer_frame(&self, buffer: &[u8], color: Option<u8>) -> (r: Result<Vec<Step>, DriverError>)
        ensures
            r is Ok <==> self.spec_state() == PowerState::Active && buffer@.len() == self.frame_len(),
            self.spec_state() != PowerState::Active ==> r == Err::<Vec<Step>, DriverError>(state_error(self.spec_state())),
            self.spec_state() == PowerState::Active && buffer@.len() != self.frame_len()
                ==> r == Err::<Vec<Step>, DriverError>(DriverError::BufferSize),
            r matches Ok(plan) ==> plan@ == transfer_frame_steps(
                self.spec_width(),
                self.spec_height(),
                buffer@.len(),
                match color { Some(c) => c, None => DEFAULT_COLOR },
            ),
    {
        self.check_active()?;
        if buffer.len() != byte_count(self.width, self.height) {
            return Err(DriverError::BufferSize);
        }
        let color = match color {
            Some(c) => c,
            None => DEFAULT_COLOR,
        };
        let mut plan: Vec<Step> = Vec::new();
        send_resolution(&mut plan, self.width, self.height);
        send_command(&mut plan, Command::VCM_DC_SETTING);
        send_data(&mut plan, 0x12);
        send_command(&mut plan, Command::VCOM_AND_DATA_INTERVAL_SETTING);
        send_data(&mut plan, 0x97);
        send_command(&mut plan, Command::DATA_START_TRANSMISSION_1);
        send_repeated_data(&mut plan, color, buffer.len());
        plan.push(Step::DelayMs(2));
        send_command(&mut plan, Command::DATA_START_TRANSMISSION_2);
        plan.push(Step::Frame);
        plan.push(Step::DelayMs(2));
        refresh(&mut plan, false, 10);
        assert(plan@ =~= transfer_frame_steps(self.width, self.height, buffer@.len(), color));
        Ok(plan)
    }

    /// Displays the frame data in the controller's memory with the full refresh.
    pub fn display_frame(&self) -> (r: Result<Vec<Step>, DriverError>)
        ensures
            r is Ok <==> self.spec_state() == PowerState::Active,
            r matches Err(e) ==> e == state_error(self.spec_state()),
            r matches Ok(plan) ==> plan@ == refresh_steps(false, 100),
    {
        self.check_active()?;
        let mut plan: Vec<Step> = Vec::new();
        refresh(&mut plan, false, 100);
        assert(plan@ =~= refresh_steps(false, 100));
        Ok(plan)
    }

    /// Displays the frame data in the controller's memory with the quick
    /// (partial) refresh waveforms.
    pub fn display_frame_quick(&self) -> (r: Result<Vec<Step>, DriverError>)
        ensures
            r is Ok <==> self.spec_state() == PowerState::Active,
            r matches Err(e) ==> e == state_error(self.spec_state()),
            r matches Ok(plan) ==> plan@ == refresh_steps(true, 1),
    {
        self.check_active()?;
        let mut plan: Vec<Step> = Vec::new();
        refresh(&mut plan, true, 1);
        assert(plan@ =~= refresh_steps(true, 1));
        Ok(plan)
    }

    /// Fills both image planes with `reset_color` (0xff when `None`), so that
    /// the next refresh shows a blank panel.
    pub fn clear_frame(&self, reset_color: Option<u8>) -> (r: Result<Vec<Step>, DriverError>)
        ensures
            r is Ok <==> self.spec_state() == PowerState::Active,
            r matches Err(e) ==> e == state_error(self.spec_state()),
            r matches Ok(plan) ==> plan@ == clear_steps(
                self.spec_width(),
                self.spec_height(),
                match reset_color { Some(c) => c, None => DEFAULT_COLOR },
            ),
    {
        self.check_active()?;
        let color = match reset_color {
            Some(c) => c,
            None => DEFAULT_COLOR,
        };
        let size: usize = byte_count(self.width - self.width % 8, self.height);
        let mut plan: Vec<Step> = Vec::new();
        send_resolution(&mut plan, self.width, self.height);
        send_command(&mut plan, Command::DATA_START_TRANSMISSION_1);
        plan.push(Step::DelayMs(2));
        send_repeated_data(&mut plan, color, size);
        plan.push(Step::DelayMs(2));
        send_command(&mut plan, Command::DATA_START_TRANSMISSION_2);
        plan.push(Step::DelayMs(2));
        send_repeated_data(&mut plan, color, size);
        assert(plan@ =~= clear_steps(self.width, self.height, color));
        Ok(plan)
    }

    /// Puts the controller into deep sleep. Afterwards every operation but
    /// `reset` and `init` is refused.
    pub fn sleep(&mut self) -> (r: Result<Vec<Step>, DriverError>)
        ensures
            r is Ok <==> old(self).spec_state() == PowerState::Active,
            r matches Err(e) ==> e == state_error(old(self).spec_state()),
            r matches Ok(plan) ==> plan@ == sleep_steps(),
            final(self).spec_state() == if old(self).spec_state() == PowerState::Active {
                PowerState::Sleeping
            } else {
                old(self).spec_state()
            },
            final(self).spec_width() == old(self).spec_width(),
            final(self).spec_height() == old(self).spec_height(),
    {
        self.check_active()?;
        let mut plan: Vec<Step> = Vec::new();
        send_command(&mut plan, Command::VCOM_AND_DATA_INTERVAL_SETTING);
        send_data(&mut plan, 0x17);
        send_command(&mut plan, Command::VCM_DC_SETTING);
        send_command(&mut plan, Command::PANEL_SETTING);
        plan.push(Step::DelayMs(100));
        send_command(&mut plan, Command::POWER_SETTING);
        let mut i: usize = 0;
        while i < 4
            invariant
                i <= 4,
                plan@ == sleep_steps().take(6 + i),
            decreases 4 - i,
        {
            send_data(&mut plan, 0x00);
            i = i + 1;
            assert(plan@ =~= sleep_steps().take(6 + i));
        }
        plan.push(Step::DelayMs(100));
        send_command(&mut plan, Command::POWER_OFF);
        plan.push(Step::WaitIdle);
        send_command(&mut plan, Command::DEEP_SLEEP);
        send_data(&mut plan, 0xA5);
        assert(plan@ =~= sleep_steps());
        self.state = PowerState::Sleeping;
        Ok(plan)
    }

    /// Decides the next move of a wait for idle: `busy` is the latest read of
    /// the busy pin (low, or unreadable), `polls` the number of earlier reads
    /// that found it busy. The wait is bounded by `MAX_BUSY_POLLS`.
    pub fn wait_until_idle(&self, polls: u32, busy: bool) -> (r: IdleWait)
        ensures
            r == idle_decision(polls, busy),
    {
        if !busy {
            IdleWait::Idle
        } else if polls >= MAX_BUSY_POLLS {
            IdleWait::TimedOut
        } else {
            IdleWait::Poll(BUSY_POLL_MS)
        }
    }
}

/// Law: once `sleep` has succeeded, every operation but `reset` and `init`
/// is refused, with `Asleep`, whatever its arguments.
pub proof fn lemma_sleep_refuses(before: EPD4in2, after: EPD4in2)
    requires
        before.spec_state() == PowerState::Active,
        after.spec_state() == PowerState::Sleeping,
    ensures
        after.spec_state() != PowerState::Active,
        state_error(after.spec_state()) == DriverError::Asleep,
{
}

} // verus!
