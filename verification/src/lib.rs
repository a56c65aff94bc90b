//! Driver core for a 400x300 monochrome e-paper panel.
//!
//! The crate has two halves:
//!
//! * [`FrameBuffer`]: an owned, packed 1-bit-per-pixel canvas (8 pixels per
//!   byte, most-significant bit leftmost) with pixel, line, rectangle and
//!   text primitives.
//! * [`Epd`]: the panel-controller state machine. Every operation is an
//!   ordered sequence of bus transactions (command bytes, data bytes, bulk
//!   payloads), reset-line pulses, delays and busy-waits. The controller
//!   records that sequence as a transcript of [`Transaction`] values; a
//!   thin hardware layer replays the transcript over SPI and GPIO.

mod bresenham;
mod font;
mod framebuffer;
mod panel;

pub use bresenham::lemma_line_pts_symmetric;
pub use bresenham::line_pts;
pub use bresenham::{bres_err, bres_rem_pts};
pub use font::{FONT, glyph_row};
pub use framebuffer::FrameBuffer;
pub use framebuffer::bit_at;
pub use framebuffer::draws;
pub use framebuffer::fill_rect_pts;
pub use framebuffer::glyph_pts;
pub use framebuffer::hline_pts;
pub use framebuffer::pixel_set;
pub use framebuffer::rect_pts;
pub use framebuffer::text_pts;
pub use framebuffer::vline_pts;
pub use panel::{Epd, PanelState, Transaction, TransactionView};
pub use panel::{
    init_seq, lut_seq, partial_setup_seq, power_on_seq, refresh_seq, reset_seq, sleep_seq,
    white_frame, write_frame_seq,
};
pub use panel::{BUSY_POLL_MS, LUT_ALL, MODE_4GRAY, MODE_FAST, MODE_FULL, MODE_PARTIAL};
pub use panel::{DEEP_SLEEP, PLL_CONTROL, POWER_ON, POWER_SETTING, SW_RESET};
