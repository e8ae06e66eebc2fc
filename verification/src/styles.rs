//! Sizes of texts and buttons.

use vstd::prelude::*;

verus! {

/// A size that widgets of different kinds understand in their own way.
#[derive(Debug, Copy, Clone, PartialEq, Eq, Structural)]
pub enum GenericSize {
    M,
    L,
    XL,
}

/// The size of a text.
#[derive(Debug, Copy, Clone, PartialEq, Eq, Structural)]
pub enum TextSize {
    L,
    XL,
}

impl TextSize {
    /// The height of the text in points.
    pub fn points(&self) -> (points: u32)
        ensures
            points == match *self {
                TextSize::L => 20u32,
                TextSize::XL => 30u32,
            },
    {
        match self {
            TextSize::L => 20,
            TextSize::XL => 30,
        }
    }

    /// The text size that goes with a generic size; there is none for the
    /// medium size.
    pub fn from_generic(value: GenericSize) -> (size: Self)
        requires
            value != GenericSize::M,
        ensures
            size == match value {
                GenericSize::XL => TextSize::XL,
                _ => TextSize::L,
            },
    {
        match value {
            GenericSize::XL => TextSize::XL,
            _ => TextSize::L,
        }
    }
}

/// The size of a button.
#[derive(Debug, Copy, Clone, PartialEq, Eq, Structural)]
pub enum ButtonSize {
    L,
    XL,
}

impl ButtonSize {
    /// The height of the button in points.
    pub fn points(&self) -> (points: u32)
        ensures
            points == match *self {
                ButtonSize::L => 30u32,
                ButtonSize::XL => 40u32,
            },
    {
        match self {
            ButtonSize::L => 30,
            ButtonSize::XL => 40,
        }
    }

    /// The button size that goes with a generic size; there is none for the
    /// medium size.
    pub fn from_generic(value: GenericSize) -> (size: Self)
        requires
            value != GenericSize::M,
        ensures
            size == match value {
                GenericSize::XL => ButtonSize::XL,
                _ => ButtonSize::L,
            },
    {
        match value {
            GenericSize::XL => ButtonSize::XL,
            _ => ButtonSize::L,
        }
    }
}

} // verus!
