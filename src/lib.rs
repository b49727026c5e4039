//! An interpreter for the CHIP-8 virtual machine: memory, registers, call
//! stack, timers, a monochrome frame buffer and the fetch-decode-execute step.
pub mod error;
pub mod memory;
pub mod framebuffer;
pub mod keypad;
pub mod instruction;
pub mod semantics;
pub mod cpu;
pub mod screen;
pub mod display;
