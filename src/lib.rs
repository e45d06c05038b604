//! A text console over a fixed 25 x 80 grid of character cells, with a
//! cursor on the bottom line, wrapping and scroll-on-overflow, and the
//! decision logic of a sequential self-test harness.
pub mod harness;
pub mod vga_buffer;
