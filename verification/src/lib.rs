//! A Super Mario Bros (mapper 0 / NROM) NES emulator core for reinforcement
//! learning: a 6502 CPU interpreter, a simplified PPU with grayscale and RGB
//! frame writers, SMB RAM decoding, and the batch-environment helpers that
//! turn frames into stacked observations.
pub mod area;
pub mod bits;
pub mod cpu;
pub mod cpu_laws;
pub mod emulator;
pub mod fceu;
pub mod instructions;
pub mod palette;
pub mod ppu;
pub mod ppu_laws;
pub mod profiler;
pub mod render;
pub mod step_laws;
pub mod vec_env;

pub use palette::{build_nes_gray_palette, nes_gray, nes_rgb};
