//! Guest-side marshalling and invocation layer between sandboxed program code
//! and the host runtime that executes it.
//!
//! The host is reached through the [`host::Host`] capability, whose
//! primitives take and return bytes and numbers only. Every typed operation
//! in [`runtime`] encodes its inputs, lends the bytes to the host for one
//! call, interprets the numeric status that comes back and decodes the bytes
//! that the host wrote. The end of an execution (revert, return or fault) is
//! a value of [`host::Exit`] that a caller can only hand on.
//!
//! * [`error`]: the status codes of the host and the kinds they stand for.
//! * [`bytesrepr`], [`text`], [`sequence`], [`list`]: the byte encoding.
//! * [`uref`], [`key`], [`value`], [`cl_value`], [`args`], [`purse`]: the
//!   values that cross the boundary.
//! * [`namespace`]: the named keys as a mathematical value.
//! * [`host`]: the primitives and what each of them does to the host's state.
//! * [`sim`]: a host in memory.
//! * [`runtime`]: the typed operations.
//! * [`bonding`]: a program written against the typed operations.
//!
//! The modules are declared in the order in which they build on one another.

pub mod error;
pub mod bytesrepr;
pub mod text;
pub mod sequence;
pub mod list;
pub mod uref;
pub mod key;
pub mod value;
pub mod namespace;
pub mod cl_value;
pub mod args;
pub mod purse;
pub mod host;
pub mod sim;
pub mod runtime;
pub mod bonding;
