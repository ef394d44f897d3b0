//! A decoder for the External Data Representation (XDR, RFC 4506).
//!
//! XDR is a big-endian binary encoding in which every item occupies a whole
//! number of four-byte words. [`Xdr`] owns a byte buffer and a read cursor and
//! offers typed `unpack_*` operations; each one is verified against a
//! mathematical description of the bytes it reads and of the cursor it leaves
//! behind.
pub mod error;
pub mod wire;
pub mod decoder;
pub mod primitive;
pub mod reads;
pub mod laws;

pub use crate::decoder::{Xdr, XdrState};
pub use crate::error::{DecodeError, XdrResult};
pub use crate::primitive::XdrPrimitive;
