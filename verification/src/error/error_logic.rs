//! Reporting an error together with its causes.
use vstd::prelude::*;

verus! {

/// An error that can report its chain of causes as text.
pub trait ErrorLogic {
    /// The error's own text followed by the texts of its sources, nearest first.
    spec fn chain(&self) -> Seq<Seq<char>>;

    /// The error's own text followed by the texts of its sources, nearest first.
    fn report_chain(&self) -> (r: Vec<String>)
        ensures
            r@.map_values(|s: String| s@) == self.chain(),
    ;
}

} // verus!
