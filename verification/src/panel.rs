//! Panel-controller state machine.
//!
//! Every operation on the 400x300 controller is an ordered sequence of
//! bus transactions and control-line actions. The controller records
//! that sequence in a transcript; the contracts below pin the exact
//! bytes of each operation, so a hardware layer that replays the
//! transcript in order reproduces the documented protocol. The phase
//! of the power/refresh lifecycle is tracked alongside, and each
//! operation states the phases it may run in.

use vstd::prelude::*;
use vstd::slice::slice_to_vec;

verus! {

/// Power-setting opcode (no data bytes).
pub const POWER_SETTING: u8 = 0x01;

/// Power-on opcode (no data bytes).
pub const POWER_ON: u8 = 0x04;

/// Deep-sleep opcode (one data byte).
pub const DEEP_SLEEP: u8 = 0x07;

/// Software-reset opcode (no data bytes, busy-wait follows).
pub const SW_RESET: u8 = 0x12;

/// PLL-control opcode (one data byte: the frame-rate selector).
pub const PLL_CONTROL: u8 = 0x30;

/// Update-control-2 data byte selecting a full refresh.
pub const MODE_FULL: u8 = 0xF7;

/// Update-control-2 data byte selecting a fast refresh.
pub const MODE_FAST: u8 = 0xC7;

/// Update-control-2 data byte selecting a partial refresh.
pub const MODE_PARTIAL: u8 = 0xFF;

/// Update-control-2 data byte selecting a four-gray refresh.
pub const MODE_4GRAY: u8 = 0xCF;

/// Interval, in milliseconds, between polls of the busy line.
pub const BUSY_POLL_MS: u32 = 20;

/// Waveform lookup table, transmitted byte-exact by [`Epd::lut`] as
/// five segments of 227, 1, 1, 3 and 1 bytes.
pub const LUT_ALL: [u8; 233] = [
    0x01, 0x0A, 0x1B, 0x0F, 0x03, 0x01, 0x01,
    0x05, 0x0A, 0x01, 0x0A, 0x01, 0x01, 0x01,
    0x05, 0x08, 0x03, 0x02, 0x04, 0x01, 0x01,
    0x01, 0x04, 0x04, 0x02, 0x00, 0x01, 0x01,
    0x01, 0x00, 0x00, 0x00, 0x00, 0x01, 0x01,
    0x01, 0x00, 0x00, 0x00, 0x00, 0x01, 0x01,
    0x01, 0x0A, 0x1B, 0x0F, 0x03, 0x01, 0x01,
    0x05, 0x4A, 0x01, 0x8A, 0x01, 0x01, 0x01,
    0x05, 0x48, 0x03, 0x82, 0x84, 0x01, 0x01,
    0x01, 0x84, 0x84, 0x82, 0x00, 0x01, 0x01,
    0x01, 0x00, 0x00, 0x00, 0x00, 0x01, 0x01,
    0x01, 0x00, 0x00, 0x00, 0x00, 0x01, 0x01,
    0x01, 0x0A, 0x1B, 0x8F, 0x03, 0x01, 0x01,
    0x05, 0x4A, 0x01, 0x8A, 0x01, 0x01, 0x01,
    0x05, 0x48, 0x83, 0x82, 0x04, 0x01, 0x01,
    0x01, 0x04, 0x04, 0x02, 0x00, 0x01, 0x01,
    0x01, 0x00, 0x00, 0x00, 0x00, 0x01, 0x01,
    0x01, 0x00, 0x00, 0x00, 0x00, 0x01, 0x01,
    0x01, 0x8A, 0x1B, 0x8F, 0x03, 0x01, 0x01,
    0x05, 0x4A, 0x01, 0x8A, 0x01, 0x01, 0x01,
    0x05, 0x48, 0x83, 0x02, 0x04, 0x01, 0x01,
    0x01, 0x04, 0x04, 0x02, 0x00, 0x01, 0x01,
    0x01, 0x00, 0x00, 0x00, 0x00, 0x01, 0x01,
    0x01, 0x00, 0x00, 0x00, 0x00, 0x01, 0x01,
    0x01, 0x8A, 0x9B, 0x8F, 0x03, 0x01, 0x01,
    0x05, 0x4A, 0x01, 0x8A, 0x01, 0x01, 0x01,
    0x05, 0x48, 0x03, 0x42, 0x04, 0x01, 0x01,
    0x01, 0x04, 0x04, 0x42, 0x00, 0x01, 0x01,
    0x01, 0x00, 0x00, 0x00, 0x00, 0x01, 0x01,
    0x01, 0x00, 0x00, 0x00, 0x00, 0x01, 0x01,
    0x00, 0x00, 0x00, 0x00, 0x00, 0x00, 0x00,
    0x00, 0x00, 0x00, 0x00, 0x00, 0x00, 0x00,
    0x02, 0x00, 0x00, 0x07, 0x17, 0x41, 0xA8,
    0x32, 0x30,
];

/// One recorded bus transaction or control-line action.
#[derive(Debug, PartialEq, Eq)]
pub enum Transaction {
    /// One opcode byte: command/data line at its command level, one
    /// chip-select window, one byte transferred.
    Command(u8),
    /// One data byte: command/data line at its data level.
    Data(u8),
    /// A bulk data payload, transferred in one chip-select window;
    /// its observable effect equals sending each byte with `Data`.
    DataBulk(Vec<u8>),
    /// Drive the hardware reset line high.
    ResetHigh,
    /// Drive the hardware reset line low.
    ResetLow,
    /// Hold for the given number of milliseconds.
    DelayMs(u32),
    /// Poll the busy line every [`BUSY_POLL_MS`] until it deasserts.
    WaitBusy,
}

/// The mathematical image of a [`Transaction`]: bulk payloads appear
/// as byte sequences.
pub enum TransactionView {
    Command(u8),
    Data(u8),
    DataBulk(Seq<u8>),
    ResetHigh,
    ResetLow,
    DelayMs(u32),
    WaitBusy,
}

impl View for Transaction {
    type V = TransactionView;

    open spec fn view(&self) -> TransactionView {
        match self {
            Transaction::Command(c) => TransactionView::Command(*c),
            Transaction::Data(d) => TransactionView::Data(*d),
            Transaction::DataBulk(v) => TransactionView::DataBulk(v@),
            Transaction::ResetHigh => TransactionView::ResetHigh,
            Transaction::ResetLow => TransactionView::ResetLow,
            Transaction::DelayMs(ms) => TransactionView::DelayMs(*ms),
            Transaction::WaitBusy => TransactionView::WaitBusy,
        }
    }
}

/// The phase of the controller's power/refresh lifecycle. Construction
/// performs the power-on transition, every refresh re-enters `Ready`,
/// and `Sleeping` is terminal for a power cycle.
#[derive(Clone, Copy, Debug, PartialEq, Eq)]
pub enum PanelState {
    PoweredOn,
    Reset,
    Initialized,
    Ready,
    Sleeping,
}

/// The transactions of the power-on transition: power-setting,
/// PLL-control with its frame-rate byte, power-on.
pub open spec fn power_on_seq() -> Seq<TransactionView> {
    seq![
        TransactionView::Command(POWER_SETTING),
        TransactionView::Command(PLL_CONTROL),
        TransactionView::Data(0x3C),
        TransactionView::Command(POWER_ON),
    ]
}

/// The hardware reset pulse: high 100 ms, low 2 ms, high 100 ms.
pub open spec fn reset_seq() -> Seq<TransactionView> {
    seq![
        TransactionView::ResetHigh,
        TransactionView::DelayMs(100),
        TransactionView::ResetLow,
        TransactionView::DelayMs(2),
        TransactionView::ResetHigh,
        TransactionView::DelayMs(100),
    ]
}

/// The initialization sequence: busy-wait, software reset, busy-wait,
/// update-control-1, border waveform, data-entry mode, the RAM X/Y
/// window of the 400x300 rectangle, the RAM X/Y counters, busy-wait.
pub open spec fn init_seq() -> Seq<TransactionView> {
    seq![
        TransactionView::WaitBusy,
        TransactionView::Command(SW_RESET),
        TransactionView::WaitBusy,
        TransactionView::Command(0x21),
        TransactionView::Data(0x40),
        TransactionView::Data(0x00),
        TransactionView::Command(0x3C),
        TransactionView::Data(0x05),
        TransactionView::Command(0x11),
        TransactionView::Data(0x03),
        TransactionView::Command(0x44),
        TransactionView::Data(0x00),
        TransactionView::Data(0x31),
        TransactionView::Command(0x45),
        TransactionView::Data(0x00),
        TransactionView::Data(0x00),
        TransactionView::Data(0x2B),
        TransactionView::Data(0x01),
        TransactionView::Command(0x4E),
        TransactionView::Data(0x00),
        TransactionView::Command(0x4F),
        TransactionView::Data(0x00),
        TransactionView::Data(0x00),
        TransactionView::WaitBusy,
    ]
}

/// The refresh trigger shared by all modes: update-control-2 with the
/// mode byte, master activation, busy-wait.
pub open spec fn refresh_seq(mode: u8) -> Seq<TransactionView> {
    seq![
        TransactionView::Command(0x22),
        TransactionView::Data(mode),
        TransactionView::Command(0x20),
        TransactionView::WaitBusy,
    ]
}

/// Writing one frame into both controller RAM planes.
pub open spec fn write_frame_seq(image: Seq<u8>) -> Seq<TransactionView> {
    seq![
        TransactionView::Command(0x24),
        TransactionView::DataBulk(image),
        TransactionView::Command(0x26),
        TransactionView::DataBulk(image),
    ]
}

/// The window/border/entry-mode commands the controller requires
/// restated before a partial update.
pub open spec fn partial_setup_seq() -> Seq<TransactionView> {
    seq![
        TransactionView::Command(0x3C),
        TransactionView::Data(0x80),
        TransactionView::Command(0x21),
        TransactionView::Data(0x00),
        TransactionView::Data(0x00),
        TransactionView::Command(0x3C),
        TransactionView::Data(0x80),
        TransactionView::Command(0x44),
        TransactionView::Data(0x00),
        TransactionView::Data(0x31),
        TransactionView::Command(0x45),
        TransactionView::Data(0x00),
        TransactionView::Data(0x00),
        TransactionView::Data(0x2B),
        TransactionView::Data(0x01),
        TransactionView::Command(0x4E),
        TransactionView::Data(0x00),
        TransactionView::Command(0x4F),
        TransactionView::Data(0x00),
        TransactionView::Data(0x00),
    ]
}

/// The deep-sleep entry: opcode, one data byte, settle delay. No
/// busy-wait is possible: the controller powers down its status line.
pub open spec fn sleep_seq() -> Seq<TransactionView> {
    seq![
        TransactionView::Command(DEEP_SLEEP),
        TransactionView::Data(0x01),
        TransactionView::DelayMs(2000),
    ]
}

/// The waveform table load: 233 bytes across five opcodes, split
/// 227/1/1/3/1.
pub open spec fn lut_seq() -> Seq<TransactionView> {
    seq![TransactionView::Command(0x32)] + Seq::new(227, |i: int| TransactionView::Data(LUT_ALL[i]))
        + seq![
        TransactionView::Command(0x3F),
        TransactionView::Data(LUT_ALL[227]),
        TransactionView::Command(0x03),
        TransactionView::Data(LUT_ALL[228]),
        TransactionView::Command(0x04),
        TransactionView::Data(LUT_ALL[229]),
        TransactionView::Data(LUT_ALL[230]),
        TransactionView::Data(LUT_ALL[231]),
        TransactionView::Command(0x2C),
        TransactionView::Data(LUT_ALL[232]),
    ]
}

/// An all-white packed frame of `n` bytes.
pub open spec fn white_frame(n: nat) -> Seq<u8> {
    Seq::new(n, |i: int| 0xFFu8)
}

/// The panel controller: fixed 400x300 geometry, the lifecycle phase,
/// and the transcript of every transaction issued so far.
pub struct Epd {
    ops: Vec<Transaction>,
    state: PanelState,
    width: u32,
    height: u32,
}

impl Epd {
    /// The transactions issued so far, oldest first.
    pub closed spec fn transcript(self) -> Seq<TransactionView> {
        self.ops@.map_values(|t: Transaction| t@)
    }

    /// The lifecycle phase the controller is in.
    pub closed spec fn spec_state(self) -> PanelState {
        self.state
    }

    /// Panel width in pixels.
    pub closed spec fn spec_width(self) -> u32 {
        self.width
    }

    /// Panel height in pixels.
    pub closed spec fn spec_height(self) -> u32 {
        self.height
    }

    /// The fixed geometry of the supported panel.
    pub open spec fn wf(self) -> bool {
        self.spec_width() == 400 && self.spec_height() == 300
    }

    /// Takes the controller through the power-on transition: it emits
    /// the power-setting, PLL-control and power-on commands.
    pub fn new() -> (epd: Epd)
        ensures
            epd.wf(),
            epd.spec_state() == PanelState::PoweredOn,
            epd.transcript() == power_on_seq(),
    {
        let mut epd = Epd {
            ops: Vec::new(),
            state: PanelState::PoweredOn,
            width: 400,
            height: 300,
        };
        epd.send_command(POWER_SETTING);
        epd.send_command(PLL_CONTROL);
        epd.send_data(0x3C);
        epd.send_command(POWER_ON);
        proof {
            assert(epd.transcript() =~= power_on_seq());
        }
        epd
    }

    /// Queues one opcode byte for the bus.
    pub fn send_command(&mut self, command: u8)
        ensures
            final(self).transcript() == old(self).transcript().push(
                TransactionView::Command(command),
            ),
            final(self).spec_state() == old(self).spec_state(),
            final(self).spec_width() == old(self).spec_width(),
            final(self).spec_height() == old(self).spec_height(),
    {
        self.ops.push(Transaction::Command(command));
        proof {
            assert(self.transcript() =~= old(self).transcript().push(
                TransactionView::Command(command),
            ));
        }
    }

    /// Queues one data byte for the bus.
    pub fn send_data(&mut self, data: u8)
        ensures
            final(self).transcript() == old(self).transcript().push(TransactionView::Data(data)),
            final(self).spec_state() == old(self).spec_state(),
            final(self).spec_width() == old(self).spec_width(),
            final(self).spec_height() == old(self).spec_height(),
    {
        self.ops.push(Transaction::Data(data));
        proof {
            assert(self.transcript() =~= old(self).transcript().push(TransactionView::Data(data)));
        }
    }

    /// Queues one bulk data payload; its observable effect equals
    /// sending each byte individually.
    pub fn send_data_bulk(&mut self, data: &[u8])
        ensures
            final(self).transcript() == old(self).transcript().push(
                TransactionView::DataBulk(data@),
            ),
            final(self).spec_state() == old(self).spec_state(),
            final(self).spec_width() == old(self).spec_width(),
            final(self).spec_height() == old(self).spec_height(),
    {
        let owned: Vec<u8> = slice_to_vec(data);
        self.ops.push(Transaction::DataBulk(owned));
        proof {
            assert(self.transcript() =~= old(self).transcript().push(
                TransactionView::DataBulk(data@),
            ));
        }
    }

    /// Queues a busy-line wait: poll every [`BUSY_POLL_MS`] while the
    /// line is asserted.
    pub fn read_busy(&mut self)
        ensures
            final(self).transcript() == old(self).transcript().push(TransactionView::WaitBusy),
            final(self).spec_state() == old(self).spec_state(),
            final(self).spec_width() == old(self).spec_width(),
            final(self).spec_height() == old(self).spec_height(),
    {
        self.ops.push(Transaction::WaitBusy);
        proof {
            assert(self.transcript() =~= old(self).transcript().push(TransactionView::WaitBusy));
        }
    }

    /// Queues a hold of `ms` milliseconds.
    fn push_delay(&mut self, ms: u32)
        ensures
            final(self).transcript() == old(self).transcript().push(TransactionView::DelayMs(ms)),
            final(self).spec_state() == old(self).spec_state(),
            final(self).spec_width() == old(self).spec_width(),
            final(self).spec_height() == old(self).spec_height(),
    {
        self.ops.push(Transaction::DelayMs(ms));
        proof {
            assert(self.transcript() =~= old(self).transcript().push(
                TransactionView::DelayMs(ms),
            ));
        }
    }

    /// The hardware reset pulse, a physical transition of the reset
    /// line rather than a bus transaction. A busy-wait must follow
    /// before the controller is addressed; [`Epd::init`] begins with
    /// one.
    pub fn reset(&mut self)
        requires
            old(self).spec_state() == PanelState::PoweredOn,
        ensures
            final(self).transcript() == old(self).transcript() + reset_seq(),
            final(self).spec_state() == PanelState::Reset,
            final(self).spec_width() == old(self).spec_width(),
            final(self).spec_height() == old(self).spec_height(),
    {
        self.ops.push(Transaction::ResetHigh);
        self.ops.push(Transaction::DelayMs(100));
        self.ops.push(Transaction::ResetLow);
        self.ops.push(Transaction::DelayMs(2));
        self.ops.push(Transaction::ResetHigh);
        self.ops.push(Transaction::DelayMs(100));
        self.state = PanelState::Reset;
        proof {
            assert(self.transcript() =~= old(self).transcript() + reset_seq());
        }
    }

    /// Initializes the controller after a reset: after this it accepts
    /// RAM writes.
    pub fn init(&mut self)
        requires
            old(self).spec_state() == PanelState::Reset,
        ensures
            final(self).transcript() == old(self).transcript() + init_seq(),
            final(self).spec_state() == PanelState::Initialized,
            final(self).spec_width() == old(self).spec_width(),
            final(self).spec_height() == old(self).spec_height(),
    {
        self.read_busy();
        self.send_command(SW_RESET);
        self.read_busy();
        // update control 1
        self.send_command(0x21);
        self.send_data(0x40);
        self.send_data(0x00);
        // border waveform
        self.send_command(0x3C);
        self.send_data(0x05);
        // data entry mode: X increment
        self.send_command(0x11);
        self.send_data(0x03);
        // RAM X window
        self.send_command(0x44);
        self.send_data(0x00);
        self.send_data(0x31);
        // RAM Y window
        self.send_command(0x45);
        self.send_data(0x00);
        self.send_data(0x00);
        self.send_data(0x2B);
        self.send_data(0x01);
        // RAM X counter
        self.send_command(0x4E);
        self.send_data(0x00);
        // RAM Y counter
        self.send_command(0x4F);
        self.send_data(0x00);
        self.send_data(0x00);
        self.read_busy();
        self.state = PanelState::Initialized;
        proof {
            assert(self.transcript() =~= old(self).transcript() + init_seq());
        }
    }

    /// Triggers a full refresh and blocks until the busy line clears.
    pub fn turn_on_display(&mut self)
        requires
            old(self).spec_state() == PanelState::Initialized || old(self).spec_state()
                == PanelState::Ready,
        ensures
            final(self).transcript() == old(self).transcript() + refresh_seq(MODE_FULL),
            final(self).spec_state() == PanelState::Ready,
            final(self).spec_width() == old(self).spec_width(),
            final(self).spec_height() == old(self).spec_height(),
    {
        self.trigger_refresh(MODE_FULL);
    }

    /// Triggers a fast refresh.
    pub fn turn_on_display_fast(&mut self)
        requires
            old(self).spec_state() == PanelState::Initialized || old(self).spec_state()
                == PanelState::Ready,
        ensures
            final(self).transcript() == old(self).transcript() + refresh_seq(MODE_FAST),
            final(self).spec_state() == PanelState::Ready,
            final(self).spec_width() == old(self).spec_width(),
            final(self).spec_height() == old(self).spec_height(),
    {
        self.trigger_refresh(MODE_FAST);
    }

    /// Triggers a partial refresh.
    pub fn turn_on_display_partial(&mut self)
        requires
            old(self).spec_state() == PanelState::Initialized || old(self).spec_state()
                == PanelState::Ready,
        ensures
            final(self).transcript() == old(self).transcript() + refresh_seq(MODE_PARTIAL),
            final(self).spec_state() == PanelState::Ready,
            final(self).spec_width() == old(self).spec_width(),
            final(self).spec_height() == old(self).spec_height(),
    {
        self.trigger_refresh(MODE_PARTIAL);
    }

    /// Triggers a four-gray refresh.
    pub fn turn_on_display_4gray(&mut self)
        requires
            old(self).spec_state() == PanelState::Initialized || old(self).spec_state()
                == PanelState::Ready,
        ensures
            final(self).transcript() == old(self).transcript() + refresh_seq(MODE_4GRAY),
            final(self).spec_state() == PanelState::Ready,
            final(self).spec_width() == old(self).spec_width(),
            final(self).spec_height() == old(self).spec_height(),
    {
        self.trigger_refresh(MODE_4GRAY);
    }

    /// The refresh trigger all modes share: update-control-2 with the
    /// mode byte, master activation, busy-wait.
    fn trigger_refresh(&mut self, mode: u8)
        requires
            old(self).spec_state() == PanelState::Initialized || old(self).spec_state()
                == PanelState::Ready,
        ensures
            final(self).transcript() == old(self).transcript() + refresh_seq(mode),
            final(self).spec_state() == PanelState::Ready,
            final(self).spec_width() == old(self).spec_width(),
            final(self).spec_height() == old(self).spec_height(),
    {
        self.send_command(0x22);
        self.send_data(mode);
        self.send_command(0x20);
        self.read_busy();
        self.state = PanelState::Ready;
        proof {
            assert(self.transcript() =~= old(self).transcript() + refresh_seq(mode));
        }
    }

    /// Loads the waveform lookup table; allowed any time after
    /// initialization.
    pub fn lut(&mut self)
        requires
            old(self).spec_state() == PanelState::Initialized || old(self).spec_state()
                == PanelState::Ready,
        ensures
            final(self).transcript() == old(self).transcript() + lut_seq(),
            final(self).spec_state() == old(self).spec_state(),
            final(self).spec_width() == old(self).spec_width(),
            final(self).spec_height() == old(self).spec_height(),
    {
        self.send_command(0x32);
        for i in 0..227usize
            invariant
                self.transcript() == old(self).transcript() + seq![
                    TransactionView::Command(0x32),
                ] + Seq::new(i as nat, |j: int| TransactionView::Data(LUT_ALL[j])),
                self.spec_state() == old(self).spec_state(),
                self.spec_width() == old(self).spec_width(),
                self.spec_height() == old(self).spec_height(),
        {
            self.send_data(LUT_ALL[i]);
            proof {
                assert(self.transcript() =~= old(self).transcript() + seq![
                    TransactionView::Command(0x32),
                ] + Seq::new((i + 1) as nat, |j: int| TransactionView::Data(LUT_ALL[j])));
            }
        }
        self.send_command(0x3F);
        self.send_data(LUT_ALL[227]);
        self.send_command(0x03);
        self.send_data(LUT_ALL[228]);
        self.send_command(0x04);
        self.send_data(LUT_ALL[229]);
        self.send_data(LUT_ALL[230]);
        self.send_data(LUT_ALL[231]);
        self.send_command(0x2C);
        self.send_data(LUT_ALL[232]);
        proof {
            assert(self.transcript() =~= old(self).transcript() + lut_seq());
        }
    }

    /// The packed size of one full frame, in bytes.
    pub fn buffer_size(&self) -> (n: usize)
        requires
            self.wf(),
        ensures
            n == self.spec_width() * self.spec_height() / 8,
    {
        (self.width as usize * self.height as usize) / 8
    }

    /// Writes an all-white frame into both RAM planes and triggers a
    /// full refresh.
    pub fn clear(&mut self)
        requires
            old(self).wf(),
            old(self).spec_state() == PanelState::Initialized || old(self).spec_state()
                == PanelState::Ready,
        ensures
            final(self).transcript() == old(self).transcript() + write_frame_seq(
                white_frame((old(self).spec_width() * old(self).spec_height() / 8) as nat),
            ) + refresh_seq(MODE_FULL),
            final(self).spec_state() == PanelState::Ready,
            final(self).spec_width() == old(self).spec_width(),
            final(self).spec_height() == old(self).spec_height(),
    {
        let linewidth = if self.width % 8 == 0 {
            self.width / 8
        } else {
            self.width / 8 + 1
        };
        let buf_size = (self.height * linewidth) as usize;
        let mut white_buf: Vec<u8> = Vec::new();
        for i in 0..buf_size
            invariant
                white_buf@.len() == i,
                forall|k: int| 0 <= k < i ==> white_buf@[k] == 0xFFu8,
        {
            white_buf.push(0xFF);
        }
        proof {
            assert(white_buf@ =~= white_frame(
                (self.spec_width() * self.spec_height() / 8) as nat,
            ));
        }
        self.send_command(0x24);
        self.send_data_bulk(white_buf.as_slice());
        self.send_command(0x26);
        self.send_data_bulk(white_buf.as_slice());
        self.turn_on_display();
        proof {
            assert(self.transcript() =~= old(self).transcript() + write_frame_seq(
                white_frame((old(self).spec_width() * old(self).spec_height() / 8) as nat),
            ) + refresh_seq(MODE_FULL));
        }
    }

    /// Writes `image` into both RAM planes and triggers a full
    /// refresh. The bytes must be packed exactly as [`Epd::clear`]
    /// packs its white frame: row-major, 8 pixels per byte,
    /// most-significant bit leftmost.
    pub fn display(&mut self, image: &[u8])
        requires
            old(self).wf(),
            old(self).spec_state() == PanelState::Ready,
            image@.len() == old(self).spec_width() * old(self).spec_height() / 8,
        ensures
            final(self).transcript() == old(self).transcript() + write_frame_seq(image@)
                + refresh_seq(MODE_FULL),
            final(self).spec_state() == PanelState::Ready,
            final(self).spec_width() == old(self).spec_width(),
            final(self).spec_height() == old(self).spec_height(),
    {
        self.send_command(0x24);
        self.send_data_bulk(image);
        self.send_command(0x26);
        self.send_data_bulk(image);
        self.turn_on_display();
        proof {
            assert(self.transcript() =~= old(self).transcript() + write_frame_seq(image@)
                + refresh_seq(MODE_FULL));
        }
    }

    /// Restates the window/border/entry-mode commands, writes `image`
    /// into the primary RAM plane only, and triggers a partial
    /// refresh.
    pub fn display_partial(&mut self, image: &[u8])
        requires
            old(self).wf(),
            old(self).spec_state() == PanelState::Ready,
            image@.len() == old(self).spec_width() * old(self).spec_height() / 8,
        ensures
            final(self).transcript() == old(self).transcript() + partial_setup_seq() + seq![
                TransactionView::Command(0x24),
                TransactionView::DataBulk(image@),
            ] + refresh_seq(MODE_PARTIAL),
            final(self).spec_state() == PanelState::Ready,
            final(self).spec_width() == old(self).spec_width(),
            final(self).spec_height() == old(self).spec_height(),
    {
        // border waveform
        self.send_command(0x3C);
        self.send_data(0x80);
        // update control 1
        self.send_command(0x21);
        self.send_data(0x00);
        self.send_data(0x00);
        // border waveform, restated
        self.send_command(0x3C);
        self.send_data(0x80);
        // RAM X window
        self.send_command(0x44);
        self.send_data(0x00);
        self.send_data(0x31);
        // RAM Y window
        self.send_command(0x45);
        self.send_data(0x00);
        self.send_data(0x00);
        self.send_data(0x2B);
        self.send_data(0x01);
        // RAM X counter
        self.send_command(0x4E);
        self.send_data(0x00);
        // RAM Y counter
        self.send_command(0x4F);
        self.send_data(0x00);
        self.send_data(0x00);
        // primary RAM plane only
        self.send_command(0x24);
        self.send_data_bulk(image);
        self.turn_on_display_partial();
        proof {
            assert(self.transcript() =~= old(self).transcript() + partial_setup_seq() + seq![
                TransactionView::Command(0x24),
                TransactionView::DataBulk(image@),
            ] + refresh_seq(MODE_PARTIAL));
        }
    }

    /// Puts the controller into deep sleep. Terminal for this power
    /// cycle: only a new power-on/reset sequence leaves it.
    pub fn sleep(&mut self)
        requires
            old(self).spec_state() == PanelState::Ready,
        ensures
            final(self).transcript() == old(self).transcript() + sleep_seq(),
            final(self).spec_state() == PanelState::Sleeping,
            final(self).spec_width() == old(self).spec_width(),
            final(self).spec_height() == old(self).spec_height(),
    {
        self.send_command(DEEP_SLEEP);
        self.send_data(0x01);
        self.push_delay(2000);
        self.state = PanelState::Sleeping;
        proof {
            assert(self.transcript() =~= old(self).transcript() + sleep_seq());
        }
    }

    /// Panel width in pixels.
    pub fn width(&self) -> (w: u32)
        ensures
            w == self.spec_width(),
    {
        self.width
    }

    /// Panel height in pixels.
    pub fn height(&self) -> (h: u32)
        ensures
            h == self.spec_height(),
    {
        self.height
    }

    /// The recorded transactions, for inspection.
    pub fn transactions(&self) -> (r: &Vec<Transaction>)
        ensures
            r@.map_values(|t: Transaction| t@) == self.transcript(),
    {
        &self.ops
    }

    /// Drains the recorded transactions, leaving the transcript empty;
    /// a hardware layer replays them in order.
    pub fn take_transactions(&mut self) -> (r: Vec<Transaction>)
        ensures
            r@.map_values(|t: Transaction| t@) == old(self).transcript(),
            final(self).transcript() == Seq::<TransactionView>::empty(),
            final(self).spec_state() == old(self).spec_state(),
            final(self).spec_width() == old(self).spec_width(),
            final(self).spec_height() == old(self).spec_height(),
    {
        let mut drained: Vec<Transaction> = Vec::new();
        core::mem::swap(&mut self.ops, &mut drained);
        proof {
            assert(self.transcript() =~= Seq::<TransactionView>::empty());
        }
        drained
    }
}

} // verus!
