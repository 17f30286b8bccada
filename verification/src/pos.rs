//! A value together with the place in the text that it was read from.

use core::ops::Range;
use vstd::prelude::*;

verus! {

/// A value with its span, in bytes and in lines.
///
/// The byte span is half-open: `byte_pos.end` is the offset of the first byte
/// after the value. The line span is closed: `line_pos.start` is the line on
/// which the value begins and `line_pos.end` the line that reading has reached
/// when the value ends. Lines and bytes are counted from zero.
#[derive(Debug, PartialEq)]
pub struct WithPos<T> {
    pub value: T,
    pub byte_pos: Range<usize>,
    pub line_pos: Range<usize>,
}

impl<T> WithPos<T> {
    /// The offset of the first byte.
    pub open spec fn byte_start(&self) -> nat {
        self.byte_pos.start as nat
    }

    /// The offset just past the last byte.
    pub open spec fn byte_end(&self) -> nat {
        self.byte_pos.end as nat
    }

    /// The line on which the value begins.
    pub open spec fn line_start(&self) -> nat {
        self.line_pos.start as nat
    }

    /// The line that reading has reached when the value ends.
    pub open spec fn line_end(&self) -> nat {
        self.line_pos.end as nat
    }

    /// A span does not end before it starts.
    pub open spec fn wf(&self) -> bool {
        self.byte_start() <= self.byte_end() && self.line_start() <= self.line_end()
    }

    /// Wraps `value` with the empty span at the start of the text.
    pub fn new(value: T) -> (r: Self)
        ensures
            r.value == value,
            r.byte_start() == 0,
            r.byte_end() == 0,
            r.line_start() == 0,
            r.line_end() == 0,
            r.wf(),
    {
        Self { value, byte_pos: 0..0, line_pos: 0..0 }
    }

    /// Replaces the byte span.
    pub fn set_byte_pos(self, pos: Range<usize>) -> (r: Self)
        ensures
            r.value == self.value,
            r.byte_start() == pos.start,
            r.byte_end() == pos.end,
            r.line_start() == self.line_start(),
            r.line_end() == self.line_end(),
    {
        Self { value: self.value, byte_pos: pos, line_pos: self.line_pos }
    }

    /// Replaces the line span.
    pub fn set_line_pos(self, pos: Range<usize>) -> (r: Self)
        ensures
            r.value == self.value,
            r.byte_start() == self.byte_start(),
            r.byte_end() == self.byte_end(),
            r.line_start() == pos.start,
            r.line_end() == pos.end,
    {
        Self { value: self.value, byte_pos: self.byte_pos, line_pos: pos }
    }

    /// The byte span.
    pub fn get_byte_pos(&self) -> (r: Range<usize>)
        ensures
            r.start == self.byte_start(),
            r.end == self.byte_end(),
    {
        self.byte_pos.start..self.byte_pos.end
    }

    /// The line span.
    pub fn get_line_pos(&self) -> (r: Range<usize>)
        ensures
            r.start == self.line_start(),
            r.end == self.line_end(),
    {
        self.line_pos.start..self.line_pos.end
    }
}

} // verus!
