//! Userland startup runtime: loads a relocatable application image into its
//! memory region, and drives the scoped syscall protocol of the console
//! driver.

pub mod address;
pub mod words;
pub mod header;
pub mod loader;
pub mod load_facts;
pub mod console;
pub mod session_facts;
