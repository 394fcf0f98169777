//! Building blocks for combinators over reactive signals.
//!
//! Every combinator is a small state machine: a value arrives, a closure is asked, a result is
//! published, a task is started or dropped. The machines live here, with contracts that say what
//! each step hands to the closures, what it publishes and what it keeps. Subscribing a machine to
//! a signal and awaiting its tasks is left to the program around the library.

pub mod bag;
pub mod clock;
pub mod defer;
pub mod double_bind;
pub mod filter;
pub mod load;
pub mod map;
pub mod observe;
pub mod output;
pub mod rate_limit;
pub mod release;
pub mod tasks;
pub mod util;
pub mod write;

pub use load::Load;
pub use util::{Memory, SharedBox};
