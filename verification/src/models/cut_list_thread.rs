//! Vocabulary of the cutting worker: the directions of a first cut and
//! the sink for its progress messages.
use vstd::prelude::*;

verus! {

/// Directions in which a first cut may be made.
#[derive(Debug, Clone, Copy, PartialEq, Eq, Structural)]
pub enum CutDirection {
    Both,
    Horizontal,
    Vertical,
}

/// A sink for progress messages; users supply their own.
pub trait CutListLogger: Send + Sync + std::fmt::Debug {
    /// Records one message.
    fn log(&self, message: &str);
}

} // verus!
