//! Performance states and the number each one is published as.

use vstd::prelude::*;

verus! {

/// Published value of the fastest performance state.
pub const HIGHEST_LEVEL: i64 = 0;

/// Published value of the slowest performance state.
pub const LOWEST_LEVEL: i64 = 15;

/// Published value of a performance state that the driver could not name.
pub const UNKNOWN_LEVEL: i64 = -1;

/// The performance state of a device: sixteen numbered states, from `Zero`
/// (maximum performance) to `Fifteen` (minimum performance), and `Unknown`.
#[derive(Clone, Copy, Debug, PartialEq, Eq, Structural)]
pub enum PerformanceState {
    Zero,
    One,
    Two,
    Three,
    Four,
    Five,
    Six,
    Seven,
    Eight,
    Nine,
    Ten,
    Eleven,
    Twelve,
    Thirteen,
    Fourteen,
    Fifteen,
    Unknown,
}

impl PerformanceState {
    /// The integer a state is published as: its number for a numbered state,
    /// `-1` for `Unknown`.
    pub open spec fn level(self) -> int {
        match self {
            PerformanceState::Zero => 0,
            PerformanceState::One => 1,
            PerformanceState::Two => 2,
            PerformanceState::Three => 3,
            PerformanceState::Four => 4,
            PerformanceState::Five => 5,
            PerformanceState::Six => 6,
            PerformanceState::Seven => 7,
            PerformanceState::Eight => 8,
            PerformanceState::Nine => 9,
            PerformanceState::Ten => 10,
            PerformanceState::Eleven => 11,
            PerformanceState::Twelve => 12,
            PerformanceState::Thirteen => 13,
            PerformanceState::Fourteen => 14,
            PerformanceState::Fifteen => 15,
            PerformanceState::Unknown => -1,
        }
    }

    /// Whether the state is one of the sixteen numbered ones.
    pub open spec fn is_numbered(self) -> bool {
        self != PerformanceState::Unknown
    }

    /// The numbered state published as `level`; `Unknown` for every integer
    /// outside `0..=15`.
    pub open spec fn with_level(level: int) -> PerformanceState {
        if level == 0 {
            PerformanceState::Zero
        } else if level == 1 {
            PerformanceState::One
        } else if level == 2 {
            PerformanceState::Two
        } else if level == 3 {
            PerformanceState::Three
        } else if level == 4 {
            PerformanceState::Four
        } else if level == 5 {
            PerformanceState::Five
        } else if level == 6 {
            PerformanceState::Six
        } else if level == 7 {
            PerformanceState::Seven
        } else if level == 8 {
            PerformanceState::Eight
        } else if level == 9 {
            PerformanceState::Nine
        } else if level == 10 {
            PerformanceState::Ten
        } else if level == 11 {
            PerformanceState::Eleven
        } else if level == 12 {
            PerformanceState::Twelve
        } else if level == 13 {
            PerformanceState::Thirteen
        } else if level == 14 {
            PerformanceState::Fourteen
        } else if level == 15 {
            PerformanceState::Fifteen
        } else {
            PerformanceState::Unknown
        }
    }

    /// The integer this state is published as.
    pub fn value(self) -> (v: i64)
        ensures
            v == self.level(),
    {
        match self {
            PerformanceState::Zero => 0,
            PerformanceState::One => 1,
            PerformanceState::Two => 2,
            PerformanceState::Three => 3,
            PerformanceState::Four => 4,
            PerformanceState::Five => 5,
            PerformanceState::Six => 6,
            PerformanceState::Seven => 7,
            PerformanceState::Eight => 8,
            PerformanceState::Nine => 9,
            PerformanceState::Ten => 10,
            PerformanceState::Eleven => 11,
            PerformanceState::Twelve => 12,
            PerformanceState::Thirteen => 13,
            PerformanceState::Fourteen => 14,
            PerformanceState::Fifteen => 15,
            PerformanceState::Unknown => -1,
        }
    }
}

/// Every state has a level; a numbered state's level lies in `0..=15` and the
/// level of `Unknown` is `-1`, which no numbered state shares.
pub proof fn lemma_level_is_total(state: PerformanceState)
    ensures
        state.is_numbered() ==> HIGHEST_LEVEL <= state.level() <= LOWEST_LEVEL,
        !state.is_numbered() <==> state.level() == UNKNOWN_LEVEL,
{
}

/// Two states with the same level are the same state.
pub proof fn lemma_level_is_injective(a: PerformanceState, b: PerformanceState)
    requires
        a.level() == b.level(),
    ensures
        a == b,
{
}

/// Every integer in `0..=15` is the level of exactly one state, which is a
/// numbered one: on the numbered states the mapping is a bijection onto
/// `0..=15`.
pub proof fn lemma_level_is_onto_numbered(level: int)
    requires
        HIGHEST_LEVEL <= level <= LOWEST_LEVEL,
    ensures
        PerformanceState::with_level(level).is_numbered(),
        PerformanceState::with_level(level).level() == level,
        forall|s: PerformanceState| s.level() == level ==> s == PerformanceState::with_level(level),
{
}

/// `with_level` undoes `level` on every state.
pub proof fn lemma_with_level_inverts_level(state: PerformanceState)
    ensures
        PerformanceState::with_level(state.level()) == state,
{
}

} // verus!
