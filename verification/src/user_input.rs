//! What a user hands to a turn.
use vstd::prelude::*;

verus! {

/// A range of bytes in a text.
#[derive(Clone, Copy, Debug, PartialEq, Eq)]
pub struct ByteRange {
    pub start: usize,
    pub end: usize,
}

/// A part of a text that stands for something else.
#[derive(Clone, Debug, PartialEq, Eq)]
pub struct TextElement {
    pub byte_range: ByteRange,
    pub placeholder: Option<String>,
}

impl TextElement {
    pub fn new(byte_range: ByteRange, placeholder: Option<String>) -> (element: Self)
        ensures
            element.byte_range == byte_range,
            element.placeholder == placeholder,
    {
        TextElement { byte_range, placeholder }
    }
}

/// One item of what a user hands to a turn.
#[derive(Clone, Debug, PartialEq, Eq)]
pub enum UserInput {
    /// A text, with the parts of it that stand for something else.
    Text { text: String, text_elements: Vec<TextElement> },
    /// An image by its address.
    Image { image_url: String },
    /// A skill by its name and file.
    Skill { name: String, path: String },
    /// An item of any other kind, by the number under which the caller keeps it.
    Other { number: u64 },
}

} // verus!
