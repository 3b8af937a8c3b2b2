//! A verified model of a multiple-interface, intrusively reference-counted
//! binary object convention: interface identities, the layout of the
//! composite header, the pointer arithmetic between the views of one
//! allocation, and the discipline of its single shared hold count.

pub mod class;
pub mod generator;
pub mod guid;
pub mod interface;
pub mod layout;
pub mod protocol;
pub mod ptr;
pub mod wrapper;

pub use class::{Class, ClassError, Implements};
pub use generator::{rust_to_clang_target, Generator, GeneratorOptions};
pub use guid::{guid_eq, tuid_as_guid, uid, uid_com, Guid, TUID};
pub use interface::Interface;
pub use layout::{layout_record, LayoutError, Record, Shape};
pub use protocol::Op;
pub use ptr::{ComPtr, ComRef};
pub use wrapper::{ComWrapper, Object, Unknown};
