use crate::text::chars_of;
use vstd::prelude::*;

verus! {

/// What `char::is_whitespace` from std answers for `c`: whether `c` has the
/// Unicode property `White_Space`.
pub uninterp spec fn is_whitespace(c: char) -> bool;

/// `char::is_whitespace` from std, whose answer depends on the character
/// alone.
pub assume_specification[ char::is_whitespace ](c: char) -> (r: bool)
    ensures
        r == is_whitespace(c),
;

/// A cursor over a text, for parsers that read it from left to right.
pub struct Parser {
    pos: usize,
    input: Vec<char>,
}

impl Parser {
    #[verifier::type_invariant]
    spec fn within_input(&self) -> bool {
        self.pos <= self.input@.len()
    }

    /// The whole text.
    pub closed spec fn text(&self) -> Seq<char> {
        self.input@
    }

    /// How many characters have been consumed.
    pub closed spec fn position(&self) -> nat {
        self.pos as nat
    }

    /// The characters that have not been consumed.
    pub open spec fn remaining(&self) -> Seq<char> {
        self.text().skip(self.position() as int)
    }

    /// A parser at the beginning of `input`.
    pub fn new(input: String) -> (p: Parser)
        ensures
            p.text() == input@,
            p.position() == 0,
    {
        Parser { pos: 0, input: chars_of(input.as_str()) }
    }

    /// Reads the current character without consuming it.
    pub fn next_char(&self) -> (c: char)
        requires
            self.remaining().len() > 0,
        ensures
            c == self.remaining()[0],
    {
        proof {
            use_type_invariant(self);
        }
        self.input[self.pos]
    }

    /// Do the next characters start with the given string?
    pub fn starts_with(&self, s: &str) -> (r: bool)
        ensures
            r == s@.is_prefix_of(self.remaining()),
    {
        proof {
            use_type_invariant(self);
        }
        let wanted = chars_of(s);
        if wanted.len() > self.input.len() - self.pos {
            return false;
        }
        let mut i: usize = 0;
        while i < wanted.len()
            invariant
                i <= wanted@.len(),
                wanted@ == s@,
                self.pos + wanted@.len() <= self.input.len(),
                forall|j: int| 0 <= j < i ==> wanted@[j] == self.remaining()[j],
            decreases wanted@.len() - i,
        {
            if wanted[i] != self.input[self.pos + i] {
                assert(s@[i as int] != self.remaining()[i as int]);
                return false;
            }
            i += 1;
        }
        assert(s@ =~= self.remaining().subrange(0, s@.len() as int));
        true
    }

    /// Returns true if all input is consumed.
    pub fn eof(&self) -> (r: bool)
        ensures
            r == (self.remaining().len() == 0),
    {
        proof {
            use_type_invariant(self);
        }
        self.pos >= self.input.len()
    }

    /// Returns the current character, and advances to the next one.
    pub fn consume_char(&mut self) -> (c: char)
        requires
            old(self).remaining().len() > 0,
        ensures
            c == old(self).remaining()[0],
            final(self).text() == old(self).text(),
            final(self).position() == old(self).position() + 1,
            final(self).remaining() == old(self).remaining().skip(1),
    {
        proof {
            use_type_invariant(&*self);
        }
        assert(self.pos < self.input.len());
        let cur_char = self.input[self.pos];
        self.pos += 1;
        assert(self.remaining() =~= old(self).remaining().skip(1));
        cur_char
    }

    /// Consumes and discards zero or more whitespace characters: all up to
    /// the first that is none.
    pub fn consume_whitespace(&mut self)
        ensures
            final(self).text() == old(self).text(),
            old(self).position() <= final(self).position() <= final(self).text().len(),
            forall|i: int|
                old(self).position() <= i < final(self).position() ==> is_whitespace(
                    #[trigger] final(self).text()[i],
                ),
            final(self).remaining().len() > 0 ==> !is_whitespace(final(self).remaining()[0]),
    {
        let skipped = self.consume_while(char::is_whitespace);
        proof {
            use_type_invariant(&*self);
            assert forall|i: int| old(self).position() <= i < self.position() implies is_whitespace(
                #[trigger] self.text()[i],
            ) by {
                assert(self.text()[i] == skipped@[i - old(self).position()]);
            }
        }
    }

    /// Consumes characters for as long as `test` accepts them, and returns
    /// them: the longest run of accepted characters at the current
    /// position.
    pub fn consume_while<F>(&mut self, test: F) -> (result: String) where F: Fn(char) -> bool
        requires
            forall|c: char| #[trigger] test.requires((c,)),
        ensures
            final(self).text() == old(self).text(),
            final(self).position() == old(self).position() + result@.len(),
            result@ == old(self).remaining().take(result@.len() as int),
            result@.len() <= old(self).remaining().len(),
            forall|i: int| 0 <= i < result@.len() ==> test.ensures((#[trigger] result@[i],), true),
            final(self).remaining().len() > 0 ==> test.ensures(
                (final(self).remaining()[0],),
                false,
            ),
    {
        let mut result = String::new();
        proof {
            use_type_invariant(&*self);
        }
        loop
            invariant
                self.text() == old(self).text(),
                self.position() == old(self).position() + result@.len(),
                self.position() <= self.text().len(),
                result@ == old(self).remaining().take(result@.len() as int),
                forall|i: int| 0 <= i < result@.len() ==> test.ensures((#[trigger] result@[i],), true),
                forall|c: char| #[trigger] test.requires((c,)),
            ensures
                self.remaining().len() > 0 ==> test.ensures((self.remaining()[0],), false),
            decreases self.text().len() - self.position(),
        {
            if self.eof() {
                break ;
            }
            if !test(self.next_char()) {
                break ;
            }
            let c = self.consume_char();
            result.push(c);
            proof {
                use_type_invariant(&*self);
                assert(result@ =~= old(self).remaining().take(result@.len() as int));
            }
        }
        result
    }
}

} // verus!
