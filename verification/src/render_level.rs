use vstd::prelude::*;

verus! {

/// How much detail a rendered type shows, from the most to the least.
#[derive(Debug, Clone, Copy, PartialEq, Eq, Structural)]
pub enum RenderLevel {
    Documentation,
    // do not set more than 255
    CustomDetailed(u8),
    Detailed,
    Simple,
    Normal,
    Brief,
    Minimal,
}

/// The level used for the parts nested inside a type rendered at `l`.
pub open spec fn level_after(l: RenderLevel) -> RenderLevel {
    match l {
        RenderLevel::Documentation => RenderLevel::Simple,
        RenderLevel::CustomDetailed(_) => RenderLevel::Simple,
        RenderLevel::Detailed => RenderLevel::Simple,
        RenderLevel::Simple => RenderLevel::Normal,
        RenderLevel::Normal => RenderLevel::Brief,
        RenderLevel::Brief => RenderLevel::Minimal,
        RenderLevel::Minimal => RenderLevel::Minimal,
    }
}

/// How many items of a tuple, object, list ... are shown at `l`.
pub open spec fn items_at(l: RenderLevel) -> nat {
    match l {
        RenderLevel::Documentation => 500,
        RenderLevel::CustomDetailed(n) => n as nat,
        RenderLevel::Detailed => 10,
        RenderLevel::Simple => 8,
        RenderLevel::Normal => 4,
        RenderLevel::Brief => 2,
        RenderLevel::Minimal => 2,
    }
}

/// How many members of a union are shown at `l`.
pub open spec fn union_items_at(l: RenderLevel) -> nat {
    match l {
        RenderLevel::Documentation => 500,
        RenderLevel::CustomDetailed(n) => n as nat,
        RenderLevel::Detailed => 8,
        RenderLevel::Simple => 6,
        RenderLevel::Normal => 4,
        RenderLevel::Brief => 2,
        RenderLevel::Minimal => 2,
    }
}

/// How many fields of a named type are expanded at `l` (none: not expanded).
pub open spec fn display_count_at(l: RenderLevel) -> Option<nat> {
    match l {
        RenderLevel::Documentation => Some(500),
        RenderLevel::CustomDetailed(n) => Some(n as nat),
        RenderLevel::Detailed => Some(12),
        _ => None,
    }
}

/// The number of steps from `l` down to `Minimal`.
pub open spec fn detail_rank(l: RenderLevel) -> nat {
    match l {
        RenderLevel::Documentation => 4,
        RenderLevel::CustomDetailed(_) => 4,
        RenderLevel::Detailed => 4,
        RenderLevel::Simple => 3,
        RenderLevel::Normal => 2,
        RenderLevel::Brief => 1,
        RenderLevel::Minimal => 0,
    }
}

impl RenderLevel {
    /// The level for nested parts: one step less detailed, `Minimal` stays.
    pub fn next_level(self) -> (r: RenderLevel)
        ensures
            r == level_after(self),
    {
        match self {
            RenderLevel::Documentation => RenderLevel::Simple,
            RenderLevel::CustomDetailed(_) => RenderLevel::Simple,
            RenderLevel::Detailed => RenderLevel::Simple,
            RenderLevel::Simple => RenderLevel::Normal,
            RenderLevel::Normal => RenderLevel::Brief,
            RenderLevel::Brief => RenderLevel::Minimal,
            RenderLevel::Minimal => RenderLevel::Minimal,
        }
    }

    pub fn max_items(self) -> (r: usize)
        ensures
            r == items_at(self),
    {
        match self {
            RenderLevel::Documentation => 500,
            RenderLevel::CustomDetailed(n) => n as usize,
            RenderLevel::Detailed => 10,
            RenderLevel::Simple => 8,
            RenderLevel::Normal => 4,
            RenderLevel::Brief => 2,
            RenderLevel::Minimal => 2,
        }
    }

    pub fn max_union_items(self) -> (r: usize)
        ensures
            r == union_items_at(self),
    {
        match self {
            RenderLevel::Documentation => 500,
            RenderLevel::CustomDetailed(n) => n as usize,
            RenderLevel::Detailed => 8,
            RenderLevel::Simple => 6,
            RenderLevel::Normal => 4,
            RenderLevel::Brief => 2,
            RenderLevel::Minimal => 2,
        }
    }

    pub fn max_display_count(self) -> (r: Option<usize>)
        ensures
            r matches Some(n) ==> display_count_at(self) == Some(n as nat),
            r is None <==> display_count_at(self) is None,
    {
        match self {
            RenderLevel::Documentation => Some(500),
            RenderLevel::CustomDetailed(n) => Some(n as usize),
            RenderLevel::Detailed => Some(12),
            _ => None,
        }
    }
}

/// Each step to the nested level loses detail until `Minimal`, which stays.
pub proof fn lemma_next_level_descends(l: RenderLevel)
    ensures
        l != RenderLevel::Minimal ==> detail_rank(level_after(l)) < detail_rank(l),
        l == RenderLevel::Minimal ==> level_after(l) == RenderLevel::Minimal,
{
}

/// Four steps from any level reach `Minimal`.
pub proof fn lemma_next_level_reaches_minimal(l: RenderLevel)
    ensures
        level_after(level_after(level_after(level_after(l)))) == RenderLevel::Minimal,
{
}

/// A less detailed level never shows more items.
pub proof fn lemma_next_level_shows_no_more(l: RenderLevel)
    requires
        !(l is CustomDetailed),
    ensures
        items_at(level_after(l)) <= items_at(l),
        union_items_at(level_after(l)) <= union_items_at(l),
{
}

} // verus!
