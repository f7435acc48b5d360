//! The indentation tracker: nesting depth, the indentation unit, and whether
//! the next markup event starts on a fresh line.

use vstd::prelude::*;

verus! {

/// `depth` copies of the unit, each unit being `width` copies of `fill`.
pub open spec fn indent_bytes(fill: u8, width: nat, depth: nat) -> Seq<u8> {
    Seq::new(depth * width, |_i: int| fill)
}

/// The abstract state of an [`Indentation`].
pub ghost struct IndentView {
    pub should_line_break: bool,
    pub fill: u8,
    pub width: nat,
    pub depth: nat,
}

impl IndentView {
    /// The indentation for the current depth.
    pub open spec fn current(self) -> Seq<u8> {
        indent_bytes(self.fill, self.width, self.depth)
    }

    /// One level deeper.
    pub open spec fn grown(self) -> IndentView {
        IndentView { depth: self.depth + 1, ..self }
    }

    /// One level shallower; a tracker already at the outermost level stays there.
    pub open spec fn shrunk(self) -> IndentView {
        IndentView { depth: if self.depth == 0 { 0 } else { (self.depth - 1) as nat }, ..self }
    }

    pub open spec fn with_line_break(self, b: bool) -> IndentView {
        IndentView { should_line_break: b, ..self }
    }
}

/// Tracks nesting depth for pretty-printed output.
pub struct Indentation {
    should_line_break: bool,
    fill: u8,
    width: usize,
    depth: usize,
}

impl View for Indentation {
    type V = IndentView;

    closed spec fn view(&self) -> IndentView {
        IndentView {
            should_line_break: self.should_line_break,
            fill: self.fill,
            width: self.width as nat,
            depth: self.depth as nat,
        }
    }
}

impl Indentation {
    /// A tracker at depth zero whose unit is `width` copies of `fill`.
    pub fn new(fill: u8, width: usize) -> (r: Indentation)
        ensures
            r@ == (IndentView { should_line_break: false, fill, width: width as nat, depth: 0 }),
    {
        Indentation { should_line_break: false, fill, width, depth: 0 }
    }

    pub fn depth(&self) -> (r: usize)
        ensures
            r as nat == self@.depth,
    {
        self.depth
    }

    pub fn should_line_break(&self) -> (r: bool)
        ensures
            r == self@.should_line_break,
    {
        self.should_line_break
    }

    pub fn set_line_break(&mut self, b: bool)
        ensures
            final(self)@ == old(self)@.with_line_break(b),
    {
        self.should_line_break = b;
    }

    /// Enters one more level of nesting.
    pub fn grow(&mut self)
        requires
            old(self)@.depth < usize::MAX,
        ensures
            final(self)@ == old(self)@.grown(),
    {
        self.depth = self.depth + 1;
    }

    /// Leaves one level of nesting; at depth zero the depth stays zero.
    pub fn shrink(&mut self)
        ensures
            final(self)@ == old(self)@.shrunk(),
    {
        if self.depth > 0 {
            self.depth = self.depth - 1;
        }
    }

    /// The indentation bytes for the current depth.
    pub fn current(&self) -> (r: Vec<u8>)
        ensures
            r@ == self@.current(),
    {
        let mut out: Vec<u8> = Vec::new();
        let mut d: usize = 0;
        while d < self.depth
            invariant
                d <= self.depth,
                out@ == indent_bytes(self.fill, self.width as nat, d as nat),
            decreases self.depth - d,
        {
            let mut k: usize = 0;
            while k < self.width
                invariant
                    d < self.depth,
                    k <= self.width,
                    out@ == indent_bytes(self.fill, self.width as nat, d as nat) + Seq::new(
                        k as nat,
                        |_i: int| self.fill,
                    ),
                decreases self.width - k,
            {
                out.push(self.fill);
                proof {
                    assert(out@ =~= indent_bytes(self.fill, self.width as nat, d as nat) + Seq::new(
                        (k + 1) as nat,
                        |_i: int| self.fill,
                    ));
                }
                k = k + 1;
            }
            proof {
                assert((d + 1) * self.width == d * self.width + self.width) by (nonlinear_arith);
                assert(out@ =~= indent_bytes(self.fill, self.width as nat, (d + 1) as nat));
            }
            d = d + 1;
        }
        out
    }
}

} // verus!
