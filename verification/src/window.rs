//! The parts of the window layout that are chosen rather than computed.

use vstd::prelude::*;

verus! {

/// `200.0`: the extent of a hint area along the side it lies on.
pub const HINT_SPAN: u64 = 0x4069_0000_0000_0000;

/// How a line of text is set in its field.
#[derive(Debug, Copy, Clone, PartialEq, Eq, Structural)]
pub enum ALIGN {
    LEFT,
    CENTER,
    RIGHT,
}

/// The windows that an area or a set of parameters can belong to.
#[derive(Debug, Copy, Clone, PartialEq, Eq, Structural)]
pub enum WINDOWS {
    MAIN,
    SCENE,
}

impl WINDOWS {
    /// The number that stands for the window: 0 for the main window, 1 for
    /// the scene window.
    pub fn number(self) -> (id: u16)
        ensures
            id == match self {
                WINDOWS::MAIN => 0u16,
                WINDOWS::SCENE => 1u16,
            },
    {
        match self {
            WINDOWS::MAIN => 0,
            WINDOWS::SCENE => 1,
        }
    }
}

/// The side of a window that a hint area lies on.
#[derive(Debug, Copy, Clone, PartialEq, Eq, Structural)]
pub enum HintAlign {
    LEFT,
    RIGHT,
    TOP,
    BOTTOM,
}

/// A strip along one side of a window that shows where a dragged window
/// would dock.
#[derive(Debug, Copy, Clone)]
pub struct HintArea {
    pub w: u64,
    pub h: u64,
    pub align: HintAlign,
    pub busy: bool,
    pub visible: bool,
}

impl HintArea {
    /// The idle, hidden area on the given side: `side` deep, and `HINT_SPAN`
    /// long.
    pub fn new(side: u64, align: HintAlign) -> (area: HintArea)
        ensures
            area == (HintArea {
                w: if align == HintAlign::LEFT || align == HintAlign::RIGHT {
                    side
                } else {
                    HINT_SPAN
                },
                h: if align == HintAlign::TOP || align == HintAlign::BOTTOM {
                    side
                } else {
                    HINT_SPAN
                },
                align,
                busy: false,
                visible: false,
            }),
    {
        HintArea {
            w: match align {
                HintAlign::LEFT => side,
                HintAlign::RIGHT => side,
                _ => HINT_SPAN,
            },
            h: match align {
                HintAlign::BOTTOM => side,
                HintAlign::TOP => side,
                _ => HINT_SPAN,
            },
            align,
            busy: false,
            visible: false,
        }
    }
}

} // verus!
