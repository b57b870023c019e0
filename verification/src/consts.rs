use vstd::prelude::*;

verus! {

/// How an element hands the items it has finished over to one of its next elements.
#[derive(Clone, Copy, Debug, PartialEq, Eq, Structural)]
pub enum NextElementType {
    /// To the next element with the fewest free places (queue minus busy workers).
    Balanced,
    /// In turn; the counter remembers the position handed out last.
    RoundRobin(usize),
    /// To a next element picked at random.
    Random,
}

/// The distribution that an element draws its service delays from.
#[derive(Clone, Copy, Debug, PartialEq, Eq, Structural)]
pub enum DistributionType {
    Exponential,
    Normal,
    Uniform,
    Erlang,
    Constant,
}

/// The role of an element in the network.
#[derive(Clone, Copy, Debug, PartialEq, Eq, Structural)]
pub enum ElementType {
    /// Brings new items into the network.
    Create,
    /// Serves items with a number of workers.
    Process,
    /// Takes items out of the network.
    Dispose,
}

} // verus!
