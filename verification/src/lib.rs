//! Queue state machine of a zero-copy USB high-speed DMA pipe.

pub mod address;
pub mod bufmap;
pub mod calls;
pub mod calls_db;
pub mod calls_endpoint;
pub mod calls_hw;
pub mod calls_probe;
pub mod calls_queue;
pub mod calls_registry;
pub mod calls_rx;
pub mod calls_tx;
pub mod endpoint;
pub mod hw;
pub mod laws;
pub mod laws_db;
pub mod laws_rx;
pub mod laws_tx;
pub mod pac;
pub mod pipe;
pub mod regs;
pub mod ring;
pub mod rx;
pub mod slots;
pub mod tx;
