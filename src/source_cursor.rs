use vstd::prelude::*;
use vstd::std_specs::iter::IteratorSpec;

verus! {

/// The character at the front of `s`, if any.
pub open spec fn first(s: Seq<char>) -> Option<char> {
    if s.len() > 0 {
        Some(s[0])
    } else {
        None
    }
}

/// A read position in a source text.
pub struct SourceCodeCursor {
    contents: Vec<char>,
    index: usize,
}

impl SourceCodeCursor {
    #[verifier::type_invariant]
    spec fn inv(&self) -> bool {
        self.index <= self.contents@.len()
    }

    /// The text not consumed yet.
    pub closed spec fn rest(&self) -> Seq<char> {
        self.contents@.skip(self.index as int)
    }

    pub fn new(contents: String) -> (r: Self)
        ensures
            r.rest() == contents@,
    {
        let text = contents.as_str();
        let mut chars: Vec<char> = Vec::new();
        let mut iter = text.chars();
        proof {
            broadcast use vstd::string::axiom_spec_iter, vstd::string::next_postcondition;
        }
        loop
            invariant
                iter.remaining() == text@.skip(chars@.len() as int),
                chars@ == text@.take(chars@.len() as int),
                chars@.len() <= text@.len(),
                iter.obeys_prophetic_iter_laws(),
            ensures
                chars@ == text@,
            decreases text@.len() - chars@.len(),
        {
            proof {
                broadcast use vstd::string::next_postcondition;
            }
            match iter.next() {
                Some(c) => {
                    assert(text@.take(chars@.len() as int + 1) =~= chars@.push(c));
                    chars.push(c);
                    assert(text@.skip(chars@.len() as int) =~= text@.skip(
                        chars@.len() - 1,
                    ).drop_first());
                },
                None => {
                    assert(chars@ =~= text@);
                    break ;
                },
            }
        }
        SourceCodeCursor { contents: chars, index: 0 }
    }

    /// A second cursor at the same position, for lookahead.
    pub(crate) fn duplicate(&self) -> (r: Self)
        ensures
            r.rest() == self.rest(),
    {
        proof {
            use_type_invariant(self);
        }
        let contents = self.contents.clone();
        assert(contents@ =~= self.contents@);
        SourceCodeCursor { contents, index: self.index }
    }

    pub fn peek(&self) -> (r: Option<char>)
        ensures
            r == first(self.rest()),
    {
        proof {
            use_type_invariant(self);
        }
        if self.index < self.contents.len() {
            Some(self.contents[self.index])
        } else {
            None
        }
    }

    /// The `n`-th character not consumed yet, counting from one.
    pub fn peek_nth(&self, n: usize) -> (r: Option<char>)
        requires
            n >= 1,
        ensures
            r == (if n <= self.rest().len() {
                Some(self.rest()[n - 1])
            } else {
                None::<char>
            }),
    {
        proof {
            use_type_invariant(self);
        }
        if n - 1 < self.contents.len() - self.index {
            Some(self.contents[self.index + n - 1])
        } else {
            None
        }
    }

    /// Whether the text not consumed yet starts with `s`.
    pub fn begins_with(&self, s: &str) -> (r: bool)
        ensures
            r == (s@.len() <= self.rest().len() && self.rest().take(s@.len() as int) == s@),
    {
        proof {
            use_type_invariant(self);
        }
        let len = s.unicode_len();
        if len > self.contents.len() - self.index {
            return false;
        }
        let mut i: usize = 0;
        while i < len
            invariant
                len == s@.len(),
                len <= self.rest().len(),
                self.index + len <= self.contents.len(),
                i <= len,
                self.rest().take(i as int) == s@.take(i as int),
            decreases len - i,
        {
            if self.contents[self.index + i] != s.get_char(i) {
                assert(self.rest()[i as int] == self.contents@[self.index + i]);
                assert(self.rest().take(len as int)[i as int] != s@[i as int]);
                return false;
            }
            assert(self.rest()[i as int] == self.contents@[self.index + i]);
            assert(self.rest().take(i + 1) =~= s@.take(i + 1));
            i += 1;
        }
        assert(s@.take(len as int) =~= s@);
        true
    }

    pub fn next(&mut self) -> (r: Option<char>)
        ensures
            r == first(old(self).rest()),
            final(self).rest() == (if old(self).rest().len() > 0 {
                old(self).rest().drop_first()
            } else {
                old(self).rest()
            }),
    {
        proof {
            use_type_invariant(&*self);
        }
        if self.index < self.contents.len() {
            let c = self.contents[self.index];
            self.index = self.index + 1;
            assert(self.rest() =~= old(self).rest().drop_first());
            Some(c)
        } else {
            None
        }
    }
}

} // verus!
