//! Two singly-linked sequence containers with contrasting ownership
//! disciplines: an exclusively-owned LIFO list ([`linked::LinkedList`])
//! and an immutable, structurally-shared cons list
//! ([`persistent::PersistentList`]), together with a one-way conversion
//! from the owned list to the shared one.

pub mod linked;
pub mod persistent;
