use vstd::prelude::*;

verus! {

/// Viewport size (columns x rows) that a completion trial runs in.
///
/// Immutable once passed to an operation; built by chaining `width` and
/// `height` on the default 120x60 value.
#[derive(Debug, Clone, Copy, PartialEq, Eq, Structural)]
pub struct Term {
    width: u16,
    height: u16,
}

impl Term {
    /// The viewport width in columns.
    pub closed spec fn spec_width(self) -> u16 {
        self.width
    }

    /// The viewport height in rows.
    pub closed spec fn spec_height(self) -> u16 {
        self.height
    }

    /// The default viewport: 120 columns by 60 rows.
    pub fn new() -> (t: Term)
        ensures
            t.spec_width() == 120,
            t.spec_height() == 60,
    {
        Term { width: 120, height: 60 }
    }

    /// The same viewport with the width replaced.
    pub fn width(self, width: u16) -> (t: Term)
        ensures
            t.spec_width() == width,
            t.spec_height() == self.spec_height(),
    {
        Term { width, height: self.height }
    }

    /// The same viewport with the height replaced.
    pub fn height(self, height: u16) -> (t: Term)
        ensures
            t.spec_width() == self.spec_width(),
            t.spec_height() == height,
    {
        Term { width: self.width, height }
    }

    /// The width in columns.
    pub fn get_width(&self) -> (w: u16)
        ensures
            w == self.spec_width(),
    {
        self.width
    }

    /// The height in rows.
    pub fn get_height(&self) -> (h: u16)
        ensures
            h == self.spec_height(),
    {
        self.height
    }
}

impl core::default::Default for Term {
    /// The default viewport equals `Term::new()`.
    fn default() -> (t: Term)
        ensures
            t.spec_width() == 120,
            t.spec_height() == 60,
    {
        Term::new()
    }
}

} // verus!
