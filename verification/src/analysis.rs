//! Classification of analysis outcomes and of the analyses themselves.

use vstd::prelude::*;

verus! {

/// How severe an analysis-internal error is: a broken invariant, a
/// pattern the algorithm does not handle yet, or something excluded by
/// design. None of them aborts a run; failures are scoped to the
/// smallest unit of work.
#[derive(Clone, Copy, Debug, PartialEq, Eq, Structural)]
pub enum AnalysisErrorKind {
    /// An error that should never happen: an assumption or invariant
    /// of the analysis is broken.
    Unreachable,
    /// A pattern the algorithm does not handle yet.
    Unimplemented,
    /// An expected failure, excluded by design but worth recording.
    OutOfScope,
}

/// Which analysis produced a result.
#[derive(Clone, Copy, Debug, PartialEq, Eq, Structural)]
pub enum AnalysisKind {
    LifetimeChecker,
}

impl AnalysisKind {
    /// The analysis's name, as reports label it.
    pub fn name(&self) -> (r: String)
        ensures
            r@ == "LifetimeChecker"@,
    {
        String::from_str("LifetimeChecker")
    }
}

/// One inclusion constraint of a points-to solver, naming the other
/// location involved.
#[derive(Clone, Copy, Debug, PartialEq, Eq, Structural)]
pub enum Constraint {
    /// The location's set contains the named location.
    AddrOf(usize),
    /// The location's set includes the named location's set.
    Copy(usize),
    /// The location's set includes everything the named location's
    /// pointees point to.
    Load(usize),
    /// Everything the location points to includes the named location's
    /// set.
    Store(usize),
    /// Everything the location points to contains the named location.
    StoreAddr(usize),
}

/// A set of inclusion constraints over numbered locations, as a
/// points-to solver consumes them. Implementors hand the constraints
/// out as a vector rather than an iterator.
pub trait ConstraintSet {
    /// How many locations the constraints range over.
    fn num_locations(&self) -> usize;

    /// Every constraint, paired with the location it applies to.
    fn constraints(&self) -> Vec<(usize, Constraint)>;
}

} // verus!
