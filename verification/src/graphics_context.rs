//! The slots of a WIPI-C graphics context.
use vstd::prelude::*;

verus! {

/// `WIPICGraphicsContextIdx`: which slot of a graphics context a WIPI-C
/// call reads or writes. Numbers outside the known slots are `Invalid`.
#[derive(Debug, Clone, Copy, PartialEq, Eq, Structural)]
pub enum WIPICGraphicsContextIdx {
    ClipIdx,
    FgPixelIdx,
    BgPixelIdx,
    TransPixelIdx,
    AlphaIdx,
    PixelopIdx,
    PixelParam1Idx,
    FontIdx,
    StyleIdx,
    XorModeIdx,
    OffsetIdx,
    OutlineIdx,
    Invalid,
}

/// The number of each slot; `Invalid` stands for 0xff, which no slot has.
pub open spec fn context_index_number(i: WIPICGraphicsContextIdx) -> u32 {
    match i {
        WIPICGraphicsContextIdx::ClipIdx => 0,
        WIPICGraphicsContextIdx::FgPixelIdx => 1,
        WIPICGraphicsContextIdx::BgPixelIdx => 2,
        WIPICGraphicsContextIdx::TransPixelIdx => 3,
        WIPICGraphicsContextIdx::AlphaIdx => 4,
        WIPICGraphicsContextIdx::PixelopIdx => 5,
        WIPICGraphicsContextIdx::PixelParam1Idx => 6,
        WIPICGraphicsContextIdx::FontIdx => 7,
        WIPICGraphicsContextIdx::StyleIdx => 8,
        WIPICGraphicsContextIdx::XorModeIdx => 9,
        WIPICGraphicsContextIdx::OffsetIdx => 10,
        WIPICGraphicsContextIdx::OutlineIdx => 11,
        WIPICGraphicsContextIdx::Invalid => 0xff,
    }
}

impl WIPICGraphicsContextIdx {
    /// The slot a raw word names: 0 through 11 name the slots, anything
    /// else is `Invalid`.
    pub fn convert(raw: u32) -> (r: Self)
        ensures
            raw <= 11 ==> context_index_number(r) == raw,
            raw > 11 ==> r == WIPICGraphicsContextIdx::Invalid,
    {
        match raw {
            0 => WIPICGraphicsContextIdx::ClipIdx,
            1 => WIPICGraphicsContextIdx::FgPixelIdx,
            2 => WIPICGraphicsContextIdx::BgPixelIdx,
            3 => WIPICGraphicsContextIdx::TransPixelIdx,
            4 => WIPICGraphicsContextIdx::AlphaIdx,
            5 => WIPICGraphicsContextIdx::PixelopIdx,
            6 => WIPICGraphicsContextIdx::PixelParam1Idx,
            7 => WIPICGraphicsContextIdx::FontIdx,
            8 => WIPICGraphicsContextIdx::StyleIdx,
            9 => WIPICGraphicsContextIdx::XorModeIdx,
            10 => WIPICGraphicsContextIdx::OffsetIdx,
            11 => WIPICGraphicsContextIdx::OutlineIdx,
            _ => WIPICGraphicsContextIdx::Invalid,
        }
    }

    /// The slot's number.
    pub fn number(&self) -> (r: u32)
        ensures
            r == context_index_number(*self),
    {
        match self {
            WIPICGraphicsContextIdx::ClipIdx => 0,
            WIPICGraphicsContextIdx::FgPixelIdx => 1,
            WIPICGraphicsContextIdx::BgPixelIdx => 2,
            WIPICGraphicsContextIdx::TransPixelIdx => 3,
            WIPICGraphicsContextIdx::AlphaIdx => 4,
            WIPICGraphicsContextIdx::PixelopIdx => 5,
            WIPICGraphicsContextIdx::PixelParam1Idx => 6,
            WIPICGraphicsContextIdx::FontIdx => 7,
            WIPICGraphicsContextIdx::StyleIdx => 8,
            WIPICGraphicsContextIdx::XorModeIdx => 9,
            WIPICGraphicsContextIdx::OffsetIdx => 10,
            WIPICGraphicsContextIdx::OutlineIdx => 11,
            WIPICGraphicsContextIdx::Invalid => 0xff,
        }
    }
}

/// Converting a slot's number gives the slot back, for every slot.
pub proof fn lemma_context_index_round_trip(i: WIPICGraphicsContextIdx)
    requires
        i != WIPICGraphicsContextIdx::Invalid,
    ensures
        context_index_number(i) <= 11,
        forall|j: WIPICGraphicsContextIdx|
            j != WIPICGraphicsContextIdx::Invalid && context_index_number(j) == context_index_number(i)
                ==> j == i,
{
}

} // verus!
