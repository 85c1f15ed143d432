//! The output text with its current indentation level.
use vstd::prelude::*;
use vstd::string::*;

verus! {

/// Four spaces for each indentation level.
pub open spec fn indent(level: nat) -> Seq<char>
    decreases level,
{
    if level == 0 {
        seq![]
    } else {
        indent((level - 1) as nat) + seq![' ', ' ', ' ', ' ']
    }
}

/// A line break followed by the indentation of `level`.
pub open spec fn brk(level: nat) -> Seq<char> {
    seq!['\n'] + indent(level)
}

/// An append-only text sink that indents every new line to its current level.
pub struct Buffer {
    inner: String,
    indentation: usize,
}

impl Buffer {
    /// The text written so far.
    pub closed spec fn text(&self) -> Seq<char> {
        self.inner@
    }

    /// The current indentation level.
    pub closed spec fn level(&self) -> nat {
        self.indentation as nat
    }

    pub fn new() -> (r: Buffer)
        ensures
            r.text() == Seq::<char>::empty(),
            r.level() == 0,
    {
        Buffer { inner: String::new(), indentation: 0 }
    }

    pub fn indentation(&self) -> (r: usize)
        ensures
            r == self.level(),
    {
        self.indentation
    }

    pub fn as_str(&self) -> (r: &str)
        ensures
            r@ == self.text(),
    {
        self.inner.as_str()
    }

    /// Appends `s` as it is.
    pub fn push_str(&mut self, s: &str)
        ensures
            final(self).text() == old(self).text() + s@,
            final(self).level() == old(self).level(),
    {
        self.inner.append(s);
    }

    /// Appends one space.
    pub fn push_whitespace(&mut self)
        ensures
            final(self).text() == old(self).text() + seq![' '],
            final(self).level() == old(self).level(),
    {
        proof {
            reveal_strlit(" ");
        }
        self.inner.append(" ");
    }

    /// Starts a new line at the current indentation level.
    pub fn line_break(&mut self)
        ensures
            final(self).text() == old(self).text() + brk(old(self).level()),
            final(self).level() == old(self).level(),
    {
        proof {
            reveal_strlit("\n");
        }
        self.inner.append("\n");
        assert("\n"@ =~= seq!['\n']);
        let mut i: usize = 0;
        while i < self.indentation
            invariant
                i <= self.indentation,
                self.indentation == old(self).indentation,
                self.inner@ == old(self).inner@ + seq!['\n'] + indent(i as nat),
            decreases self.indentation - i,
        {
            let ghost before = self.inner@;
            proof {
                reveal_strlit("    ");
            }
            self.inner.append("    ");
            assert("    "@ =~= seq![' ', ' ', ' ', ' ']);
            assert(self.inner@ =~= before + seq![' ', ' ', ' ', ' ']);
            i = i + 1;
            assert(indent(i as nat) == indent((i - 1) as nat) + seq![' ', ' ', ' ', ' ']);
            assert(self.inner@ =~= old(self).inner@ + seq!['\n'] + indent(i as nat));
        }
        assert(self.inner@ =~= old(self).inner@ + brk(old(self).level()));
    }

    /// Raises the indentation level of the lines that follow by one.
    pub fn increase_indent(&mut self)
        requires
            old(self).level() < usize::MAX,
        ensures
            final(self).text() == old(self).text(),
            final(self).level() == old(self).level() + 1,
    {
        self.indentation = self.indentation + 1;
    }

    /// Lowers the indentation level of the lines that follow by one.
    pub fn decrease_indent(&mut self)
        requires
            old(self).level() > 0,
        ensures
            final(self).text() == old(self).text(),
            final(self).level() == old(self).level() - 1,
    {
        self.indentation = self.indentation - 1;
    }
}

} // verus!
