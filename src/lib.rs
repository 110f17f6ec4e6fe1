//! Interactive console core of a small bare-metal machine: keyboard decoding,
//! a periodic clock, interrupt-controller and timer programming, a line shell
//! and a pixel text console. Hardware access is described as data (port writes,
//! console operations) that the caller performs.

pub mod keyboard;
pub mod time;
pub mod pic;
pub mod pit;
pub mod console;
pub mod output;
pub mod shell;
pub mod dispatch;
