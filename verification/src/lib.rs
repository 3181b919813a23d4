//! A bridge runtime for host-defined custom elements: a component registry
//! that hands out stable integer handles, a callback table that routes
//! host-issued event identifiers to deferred behavior, and a dispatch
//! controller that owns both together with the single tag-to-component
//! factory installed at startup.

use vstd::prelude::*;

pub mod callbacks;
pub mod controller;
pub mod registry;

pub use callbacks::CallbackTable;
pub use callbacks::RoutingError;
pub use controller::Behavior;
pub use controller::CustomElements;
pub use controller::Factory;
pub use registry::Registry;
pub use registry::TypeKey;

verus! {

/// An opaque identifier the host assigns to a listener or timer; the key
/// under which deferred behavior is registered and later routed.
pub type Callback = i32;

/// A host-side element handle, passed through to component code untouched.
pub type Element = i32;

/// A handle to one stored component instance: its index in the arena of its
/// kind. Handles are issued in order of insertion and stay valid for the
/// life of the process.
pub type CustomElement = usize;

} // verus!
