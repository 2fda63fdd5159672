//! Blocking API: bulk operations built from blocking single-word primitives.

pub mod spi;
pub mod spi_with_cs;
pub mod transfer;
pub mod write;
pub mod write_iter;
