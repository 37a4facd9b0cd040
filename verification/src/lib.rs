//! Hosted-mode process plumbing for a message-passing microkernel, and the
//! small services that exercise it.
pub mod error;
pub mod hexcode;
pub mod launch;
pub mod le;
pub mod process;
pub mod wire;
pub mod syscall;
pub mod thread_table;
pub mod usb_test;
pub mod test_stub;
