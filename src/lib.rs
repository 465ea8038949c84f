pub mod chip;
pub mod cpu;
pub mod keyboard;
pub mod mmu;
