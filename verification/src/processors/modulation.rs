//! The stage counts of the phaser.
use vstd::prelude::*;

verus! {

/// How many all-pass stages a phaser chains.
#[derive(Clone, Copy, Debug, PartialEq, Eq, Structural)]
pub enum PhaserStages {
    One,
    Two,
    Three,
    Four,
    Six,
    Eight,
    Twelve,
    Sixteen,
    Twenty,
}

/// The number of stages each choice stands for.
pub open spec fn stage_count_spec(s: PhaserStages) -> i32 {
    match s {
        PhaserStages::One => 1,
        PhaserStages::Two => 2,
        PhaserStages::Three => 3,
        PhaserStages::Four => 4,
        PhaserStages::Six => 6,
        PhaserStages::Eight => 8,
        PhaserStages::Twelve => 12,
        PhaserStages::Sixteen => 16,
        PhaserStages::Twenty => 20,
    }
}

impl PhaserStages {
    /// The number of stages.
    pub fn stage_count(&self) -> (r: i32)
        ensures
            r == stage_count_spec(*self),
    {
        match self {
            PhaserStages::One => 1,
            PhaserStages::Two => 2,
            PhaserStages::Three => 3,
            PhaserStages::Four => 4,
            PhaserStages::Six => 6,
            PhaserStages::Eight => 8,
            PhaserStages::Twelve => 12,
            PhaserStages::Sixteen => 16,
            PhaserStages::Twenty => 20,
        }
    }
}

/// Every stage count, in increasing order.
pub fn all_phaser_stages() -> (r: Vec<PhaserStages>)
    ensures
        r@ == seq![
            PhaserStages::One,
            PhaserStages::Two,
            PhaserStages::Three,
            PhaserStages::Four,
            PhaserStages::Six,
            PhaserStages::Eight,
            PhaserStages::Twelve,
            PhaserStages::Sixteen,
            PhaserStages::Twenty,
        ],
{
    let r = vec![
        PhaserStages::One,
        PhaserStages::Two,
        PhaserStages::Three,
        PhaserStages::Four,
        PhaserStages::Six,
        PhaserStages::Eight,
        PhaserStages::Twelve,
        PhaserStages::Sixteen,
        PhaserStages::Twenty,
    ];
    assert(r@ =~= seq![
        PhaserStages::One,
        PhaserStages::Two,
        PhaserStages::Three,
        PhaserStages::Four,
        PhaserStages::Six,
        PhaserStages::Eight,
        PhaserStages::Twelve,
        PhaserStages::Sixteen,
        PhaserStages::Twenty,
    ]);
    r
}

} // verus!
