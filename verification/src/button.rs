//! Buttons as far as the editor's decisions read them: where they are
//! anchored, what they do, and whether they are hovered or active.

use vstd::prelude::*;

verus! {

/// The corner or side of its container that a button is placed from.
#[derive(Debug, Copy, Clone, PartialEq, Eq, Structural)]
pub enum Align {
    Middle,
    TopLeft,
    TopRight,
    TopCenter,
    BottomLeft,
    BottomRight,
    BottomCenter,
}

/// What a button stands for.
#[derive(Debug, Copy, Clone, PartialEq, Eq, Structural)]
pub enum ButtonType {
    CreateTesseract,
    CreateSphere3D,
    SelectionType,
    Settings,
    Import,
    Export,
    Close,
    Info,
}

/// A button that stays checked until it is unchecked.
#[derive(Debug, Copy, Clone)]
pub struct CheckButton {
    pub x: u64,
    pub y: u64,
    pub w: u64,
    pub h: u64,
    pub hover: bool,
    pub checked: bool,
    pub align: Align,
    pub btype: ButtonType,
}

/// A button that is held while the pointer presses it.
#[derive(Debug, Copy, Clone)]
pub struct ClickButton {
    pub x: u64,
    pub y: u64,
    pub w: u64,
    pub h: u64,
    pub hover: bool,
    pub hold: bool,
    pub align: Align,
    pub btype: ButtonType,
}

#[derive(Debug, Copy, Clone)]
pub enum Button {
    Check(CheckButton),
    Click(ClickButton),
}

impl CheckButton {
    /// An unchecked button at the offset `(x, y)` of size `(w, h)`.
    pub fn new(x: u64, y: u64, w: u64, h: u64, align: Align, btype: ButtonType) -> (b: CheckButton)
        ensures
            b == (CheckButton { x, y, w, h, hover: false, checked: false, align, btype }),
    {
        CheckButton { x, y, w, h, hover: false, checked: false, align, btype }
    }
}

impl ClickButton {
    /// A released button at the offset `(x, y)` of size `(w, h)`.
    pub fn new(x: u64, y: u64, w: u64, h: u64, align: Align, btype: ButtonType) -> (b: ClickButton)
        ensures
            b == (ClickButton { x, y, w, h, hover: false, hold: false, align, btype }),
    {
        ClickButton { x, y, w, h, hover: false, hold: false, align, btype }
    }
}

impl Button {
    /// Whether the button is checked or held.
    pub open spec fn active(self) -> bool {
        match self {
            Button::Check(btn) => btn.checked,
            Button::Click(btn) => btn.hold,
        }
    }

    /// Whether the pointer is over the button.
    pub open spec fn hovered(self) -> bool {
        match self {
            Button::Check(btn) => btn.hover,
            Button::Click(btn) => btn.hover,
        }
    }

    /// What the button stands for.
    pub open spec fn kind(self) -> ButtonType {
        match self {
            Button::Check(btn) => btn.btype,
            Button::Click(btn) => btn.btype,
        }
    }

    /// The button checked or held as `a` says.
    pub open spec fn with_active(self, a: bool) -> Button {
        match self {
            Button::Check(btn) => Button::Check(CheckButton { checked: a, ..btn }),
            Button::Click(btn) => Button::Click(ClickButton { hold: a, ..btn }),
        }
    }

    /// The button hovered as `h` says.
    pub open spec fn with_hover(self, h: bool) -> Button {
        match self {
            Button::Check(btn) => Button::Check(CheckButton { hover: h, ..btn }),
            Button::Click(btn) => Button::Click(ClickButton { hover: h, ..btn }),
        }
    }

    pub fn offset(&self) -> (r: (u64, u64))
        ensures
            r == match *self {
                Button::Check(btn) => (btn.x, btn.y),
                Button::Click(btn) => (btn.x, btn.y),
            },
    {
        match self {
            Button::Check(btn) => (btn.x, btn.y),
            Button::Click(btn) => (btn.x, btn.y),
        }
    }

    pub fn size(&self) -> (r: (u64, u64))
        ensures
            r == match *self {
                Button::Check(btn) => (btn.w, btn.h),
                Button::Click(btn) => (btn.w, btn.h),
            },
    {
        match self {
            Button::Check(btn) => (btn.w, btn.h),
            Button::Click(btn) => (btn.w, btn.h),
        }
    }

    pub fn is_hover(&self) -> (r: bool)
        ensures
            r == self.hovered(),
    {
        match self {
            Button::Check(btn) => btn.hover,
            Button::Click(btn) => btn.hover,
        }
    }

    pub fn is_active(&self) -> (r: bool)
        ensures
            r == self.active(),
    {
        match self {
            Button::Check(btn) => btn.checked,
            Button::Click(btn) => btn.hold,
        }
    }

    pub fn set_hover(&mut self, h: bool)
        ensures
            *final(self) == old(self).with_hover(h),
    {
        match self {
            Button::Check(btn) => btn.hover = h,
            Button::Click(btn) => btn.hover = h,
        }
    }

    pub fn set_active(&mut self, a: bool)
        ensures
            *final(self) == old(self).with_active(a),
    {
        match self {
            Button::Check(btn) => btn.checked = a,
            Button::Click(btn) => btn.hold = a,
        }
    }

    pub fn align(&self) -> (r: Align)
        ensures
            r == match *self {
                Button::Check(btn) => btn.align,
                Button::Click(btn) => btn.align,
            },
    {
        match self {
            Button::Check(btn) => btn.align,
            Button::Click(btn) => btn.align,
        }
    }

    pub fn get_type(&self) -> (r: ButtonType)
        ensures
            r == self.kind(),
    {
        match self {
            Button::Check(btn) => btn.btype,
            Button::Click(btn) => btn.btype,
        }
    }

    pub fn is_check_button(&self) -> (r: bool)
        ensures
            r == (*self is Check),
    {
        match self {
            Button::Check(_) => true,
            _ => false,
        }
    }

    pub fn is_click_button(&self) -> (r: bool)
        ensures
            r == (*self is Click),
    {
        match self {
            Button::Click(_) => true,
            _ => false,
        }
    }
}

} // verus!
