//! PaperDOS kernel library: the `.pdb` application format, the image loader,
//! the SSD1677 e-paper display pipeline, the button input pipeline, the
//! launcher and the kernel's syscall table, each with its contract.

pub mod abi;
pub mod pdb;
pub mod loader;
pub mod display;
pub mod syscall;
pub mod input;
pub mod launcher;
pub mod platform;
pub mod boot;
pub mod storage;
pub mod boot_app;
pub mod device;
pub mod screens;
