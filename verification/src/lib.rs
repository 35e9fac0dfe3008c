//! An append-only, pop-from-front log of string-valued entries: a FIFO queue
//! backed by a singly linked chain of nodes, with a running length counter.

pub mod fifo;
pub mod linked_list;

pub use linked_list::TransactionLog;
