//! Verified core of a user-mode interface to Tenstorrent accelerator chips
//! (Grayskull, Wormhole, Blackhole).
//!
//! The library holds the decisions and data formats of the interface: how
//! register fields and address tables are read, how the ARC firmware's
//! mailbox, the SPI flash controller and the ethernet command queues are
//! driven (as state machines or register programs that the caller runs),
//! how TLB windows and DMA requests are packed, how telemetry is decoded,
//! and how chip initialization and discovery move on.  Performing the
//! accesses against a device is left to the caller.

// Bits, bytes and text.
pub mod bits;
pub mod bytes;
pub mod text;

// Register addressing and access.
pub mod axi;
pub mod field;
pub mod mmio;
pub mod bar;

// The kernel driver's interface.
pub mod kmd;
pub mod ioctl;
pub mod tlb;
pub mod wh_tlb;
pub mod comms;

// The ARC firmware.
pub mod arc_msg;
pub mod arc_ready;
pub mod telemetry;
pub mod spi;
pub mod spirom;

// Chips, their initialization and discovery.
pub mod error;
pub mod chip;
pub mod status;
pub mod init_state;
pub mod remote;
pub mod eth_queue;
pub mod detect;
pub mod capi;
