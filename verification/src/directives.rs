//! Post-processing directives carried by a route: how the results coming
//! back from several shards are sorted, aggregated, limited and deduplicated
//! before a single logical result is returned to the client.

use vstd::prelude::*;

verus! {

/// Sort direction of one `ORDER BY` entry.
#[derive(Debug, Clone, Copy, PartialEq, Eq)]
pub enum Direction {
    Ascending,
    Descending,
}

/// Where a sort places NULL values.
#[derive(Debug, Clone, Copy, PartialEq, Eq)]
pub enum NullsPlacement {
    Default,
    First,
    Last,
}

/// A result column referenced by a directive: by name or by 1-based position.
#[derive(Debug, Clone, PartialEq, Eq)]
pub enum ColumnTarget {
    Name(String),
    Position(usize),
}

/// One `ORDER BY` entry.
#[derive(Debug, Clone)]
pub struct OrderBy {
    pub target: ColumnTarget,
    pub direction: Direction,
    pub nulls: NullsPlacement,
}

/// Aggregate function applied to one result column.
#[derive(Debug, Clone, Copy, PartialEq, Eq)]
pub enum AggregateFunction {
    Count,
    Sum,
    Min,
    Max,
}

/// One aggregated result column.
#[derive(Debug, Clone)]
pub struct AggregateTarget {
    pub column: usize,
    pub function: AggregateFunction,
}

/// Per-statement aggregation plan: aggregated columns and group-by columns.
#[derive(Debug, Clone)]
pub struct Aggregate {
    pub targets: Vec<AggregateTarget>,
    pub group_by: Vec<usize>,
}

impl Aggregate {
    /// True when the plan computes nothing.
    pub open spec fn spec_is_empty(&self) -> bool {
        self.targets@.len() == 0 && self.group_by@.len() == 0
    }

    pub fn is_empty(&self) -> (r: bool)
        ensures
            r == self.spec_is_empty(),
    {
        self.targets.len() == 0 && self.group_by.len() == 0
    }
}

impl Default for Aggregate {
    /// A plan with nothing to compute.
    fn default() -> (r: Self)
        ensures
            r.spec_is_empty(),
    {
        Aggregate { targets: Vec::new(), group_by: Vec::new() }
    }
}

/// `LIMIT` / `OFFSET` values of a statement, when present.
#[derive(Debug, Clone)]
pub struct Limit {
    pub limit: Option<usize>,
    pub offset: Option<usize>,
}

impl Limit {
    /// True when the statement carries neither `LIMIT` nor `OFFSET`.
    pub open spec fn spec_is_empty(&self) -> bool {
        self.limit is None && self.offset is None
    }
}

impl Default for Limit {
    fn default() -> (r: Self)
        ensures
            r.spec_is_empty(),
    {
        Limit { limit: None, offset: None }
    }
}

/// Distinct-by directive: the columns results are deduplicated on.
#[derive(Debug, Clone)]
pub struct DistinctBy {
    pub columns: Vec<ColumnTarget>,
}

/// Whether a called function pins the client session to one backend.
#[derive(Debug, Clone, Copy, PartialEq, Eq)]
pub enum LockingBehavior {
    Unlocked,
    Lock,
}

/// Write and locking behaviour of a function referenced by a statement.
#[derive(Debug, Clone, Copy)]
pub struct FunctionBehavior {
    pub writes: bool,
    pub locking_behavior: LockingBehavior,
}

} // verus!
