//! A verified model of a small 8-bit processor emulator: hexadecimal program
//! images, the arithmetic/logic unit, the instruction cycle, a keyboard FIFO
//! and the screen's character decoder.

pub mod alu;
pub mod cpu;
pub mod hex;
pub mod keyboard;
pub mod screen;

pub use alu::{
    add_inst, and_inst, bic, biz, bnc, bnz, impl_inst, nand_inst, nimpl_inst, nor_inst, or_inst,
    sub_inst, xnor_inst, xor_inst,
};
pub use cpu::{get_inst, program_well_formed, Cpu, Target, RAM_SIZE};
pub use hex::{
    chars_from_bytes, get_len, header_length, hex_to_dec, is_hex_digit_char, to_hex_text,
};
pub use keyboard::{key_to_ascii, Key, KeyboardController, FIFO_CAPACITY};
pub use screen::{screen_reply, ScreenReply};
