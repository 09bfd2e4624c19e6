//! A singly linked list that keeps its nodes in a growable arena and links
//! them by slot index. Payloads are reference counted, so a value can be
//! held by the list and by outside owners at the same time.
//!
//! The list is modelled as a `Seq<T>` (its view), together with the order of
//! its arena slots and the queue of free slots. Every operation states how it
//! changes these.
//!
//! - [`list`]: the list and its operations.
//! - [`list::list_pos`], [`list::list_pos_mut`]: the read-only and the
//!   exclusive cursor.
//! - [`list::slots`]: the bookkeeping of used and free slots.
//! - [`list::laws`]: what holds of every list, cursor and history.

pub mod list;

pub use list::{List, ListPos, MutListPos};
