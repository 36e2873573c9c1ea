//! Verified core of a TD payload: the DMA block allocator used by the
//! virtio transport, the identity-mapping plan of the TD shim, and the
//! small register computations of the platform bring-up.

pub mod misc;
pub mod bitmap;
pub mod virtio_impl;
pub mod memory;
pub mod platform;
pub mod build_support;
