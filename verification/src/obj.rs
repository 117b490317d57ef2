//! Loading a text mesh description into compact vertex stores and an index
//! list for indexed triangle rendering.
//!
//! A description lists positions, texture coordinates and normals in streams
//! of their own, and names them corner by corner in its faces. Loading turns
//! every distinct combination of attributes into one compact vertex and every
//! corner into the index of its vertex.

pub mod compact;
pub mod data;
pub mod dedup;
pub mod laws;
pub mod parse;
pub mod record;
pub mod store;
pub mod stream;

pub use self::data::{IndexWidth, LoadError, ObjData};
pub use self::record::{Corner, Record};
pub use self::store::{Dimension, VertexAttribs};
pub use self::stream::{Layout, Warning, WarningKind};
