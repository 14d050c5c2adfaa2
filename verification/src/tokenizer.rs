//! The tokenizer: a cursor over the characters of the input that hands out
//! one [`Token`] at a time.
//!
//! The view of a [`Tokenizer`] is the text it has not handed out yet.  What
//! `next` returns and leaves behind is a function of that text alone.

use vstd::prelude::*;
use crate::text::chars_of;
use crate::tokens::{Operator, Token, token_of_char, token_text};

verus! {

/// Whether `s` starts with one of the two-character operators `&&` and `||`.
pub open spec fn starts_doubled(s: Seq<char>) -> bool {
    s.len() >= 2 && s[0] == s[1] && (s[0] == '&' || s[0] == '|')
}

/// How many characters the first token of the non-empty text `s` spans.
pub open spec fn first_width(s: Seq<char>) -> int {
    if starts_doubled(s) {
        2
    } else {
        1
    }
}

/// The first token of the non-empty text `s`.
pub open spec fn first_token(s: Seq<char>) -> Token {
    if starts_doubled(s) {
        if s[0] == '&' {
            Token::Operator(Operator::AndIf)
        } else {
            Token::Operator(Operator::Or)
        }
    } else {
        token_of_char(s[0])
    }
}

/// The class of the first character of `s`, or `EOF` where `s` is empty.
pub open spec fn peek_token(s: Seq<char>) -> Token {
    if s.len() == 0 {
        Token::EOF
    } else {
        token_of_char(s[0])
    }
}

/// All tokens of the text `s`, in order.
pub open spec fn lex(s: Seq<char>) -> Seq<Token>
    decreases s.len(),
{
    if s.len() == 0 {
        Seq::empty()
    } else {
        seq![first_token(s)] + lex(s.skip(first_width(s)))
    }
}

/// The spellings of `tokens`, one after the other.
pub open spec fn tokens_text(tokens: Seq<Token>) -> Seq<char>
    decreases tokens.len(),
{
    if tokens.len() == 0 {
        Seq::empty()
    } else {
        token_text(tokens[0]) + tokens_text(tokens.skip(1))
    }
}

/// What a tokenizer holds after `source` has been fed to one that held
/// `before`: the character under the cursor stays, the rest is replaced.
pub open spec fn fed(before: Seq<char>, source: Seq<char>) -> Seq<char> {
    if before.len() == 0 {
        source
    } else {
        before.take(1) + source
    }
}

/// A cursor over the characters of a source text.
pub struct Tokenizer {
    chars: Vec<char>,
    pos: usize,
}

impl View for Tokenizer {
    type V = Seq<char>;

    /// The text that has not been handed out yet.
    closed spec fn view(&self) -> Seq<char> {
        self.chars@.skip(self.pos as int)
    }
}

impl Tokenizer {
    #[verifier::type_invariant]
    spec fn in_bounds(self) -> bool {
        self.pos <= self.chars.len()
    }

    /// A tokenizer at the start of `source`.
    pub fn new(source: &str) -> (tokenizer: Tokenizer)
        ensures
            tokenizer@ == source@,
    {
        let chars = chars_of(source);
        assert(chars@.skip(0) == chars@);
        Tokenizer { chars, pos: 0 }
    }

    /// Replaces the text after the character under the cursor with `source`.
    /// A tokenizer that has run out starts afresh on `source`.
    pub fn feed(&mut self, source: &str)
        ensures
            final(self)@ == fed(old(self)@, source@),
    {
        proof {
            use_type_invariant(&*self);
        }
        let mut chars: Vec<char> = Vec::new();
        if self.pos < self.chars.len() {
            chars.push(self.chars[self.pos]);
        }
        let ghost kept = chars@;
        assert(kept == if old(self)@.len() == 0 {
            Seq::<char>::empty()
        } else {
            old(self)@.take(1)
        });
        let mut more = chars_of(source);
        chars.append(&mut more);
        assert(chars@ == kept + source@);
        assert(chars@.skip(0) == chars@);
        self.pos = 0;
        self.chars = chars;
    }

    /// The class of the character under the cursor, `EOF` at the end.  This
    /// is a look at what comes next; it hands nothing out.
    pub fn current(&self) -> (token: Token)
        ensures
            token == peek_token(self@),
    {
        proof {
            use_type_invariant(self);
        }
        if self.pos < self.chars.len() {
            Token::from(self.chars[self.pos])
        } else {
            Token::EOF
        }
    }

    /// Whether every character has been handed out.
    pub fn is_empty(&self) -> (empty: bool)
        ensures
            empty == (self@.len() == 0),
    {
        proof {
            use_type_invariant(self);
        }
        self.pos >= self.chars.len()
    }

    /// How many characters have not been handed out yet.
    pub fn remaining(&self) -> (n: usize)
        ensures
            n == self@.len(),
    {
        proof {
            use_type_invariant(self);
        }
        self.chars.len() - self.pos
    }

    /// Hands out the next token, or `None` at the end of the text.  `&&` and
    /// `||` come out as one token each.
    pub fn next(&mut self) -> (token: Option<Token>)
        ensures
            old(self)@.len() == 0 ==> token is None && final(self)@ == old(self)@,
            old(self)@.len() > 0 ==> token == Some(first_token(old(self)@)) && final(self)@ == old(
                self,
            )@.skip(first_width(old(self)@)),
    {
        proof {
            use_type_invariant(&*self);
        }
        if self.pos >= self.chars.len() {
            return None;
        }
        let ghost before = self@;
        let ch = self.chars[self.pos];
        assert(before[0] == ch);
        let doubled = (ch == '&' || ch == '|') && self.pos + 1 < self.chars.len()
            && self.chars[self.pos + 1] == ch;
        assert(doubled ==> before[1] == ch);
        assert(doubled == starts_doubled(before));
        if doubled {
            self.pos = self.pos + 2;
            assert(self@ == before.skip(2));
            if ch == '&' {
                Some(Token::Operator(Operator::AndIf))
            } else {
                Some(Token::Operator(Operator::Or))
            }
        } else {
            self.pos = self.pos + 1;
            assert(self@ == before.skip(1));
            Some(Token::from(ch))
        }
    }
}

impl Tokenizer {
    /// Hands out all tokens that are left.
    pub fn tokens(&mut self) -> (tokens: Vec<Token>)
        ensures
            tokens@ == lex(old(self)@),
            final(self)@.len() == 0,
    {
        let mut tokens: Vec<Token> = Vec::new();
        let ghost start = self@;
        assert(Seq::<Token>::empty() + lex(start) =~= lex(start));
        loop
            invariant_except_break
                lex(start) == tokens@ + lex(self@),
            invariant
                start == old(self)@,
            ensures
                tokens@ == lex(start),
                self@.len() == 0,
            decreases self@.len(),
        {
            let ghost before = self@;
            let ghost done = tokens@;
            match self.next() {
                Some(token) => {
                    tokens.push(token);
                    assert(done + (seq![token] + lex(self@)) =~= done.push(token) + lex(self@));
                },
                None => {
                    assert(done + Seq::<Token>::empty() =~= done);
                    break ;
                },
            }
        }
        tokens
    }
}

/// Spelling distributes over concatenation of token sequences.
pub proof fn lemma_tokens_text_concat(a: Seq<Token>, b: Seq<Token>)
    ensures
        tokens_text(a + b) == tokens_text(a) + tokens_text(b),
    decreases a.len(),
{
    if a.len() == 0 {
        assert(a + b == b);
        assert(tokens_text(a) + tokens_text(b) == tokens_text(b));
    } else {
        assert((a + b)[0] == a[0]);
        assert((a + b).skip(1) == a.skip(1) + b);
        lemma_tokens_text_concat(a.skip(1), b);
        assert(tokens_text(a + b) == token_text(a[0]) + (tokens_text(a.skip(1)) + tokens_text(b)));
        assert(token_text(a[0]) + (tokens_text(a.skip(1)) + tokens_text(b)) == (token_text(a[0])
            + tokens_text(a.skip(1))) + tokens_text(b));
    }
}

/// Lexing loses nothing: the spellings of the tokens of a text, put one
/// after the other, are the text itself.
pub proof fn lemma_lex_round_trip(s: Seq<char>)
    ensures
        tokens_text(lex(s)) == s,
    decreases s.len(),
{
    if s.len() == 0 {
        assert(tokens_text(lex(s)) == Seq::<char>::empty());
        assert(s == Seq::<char>::empty());
    } else {
        let w = first_width(s);
        let rest = s.skip(w);
        lemma_lex_round_trip(rest);
        let head = seq![first_token(s)];
        lemma_tokens_text_concat(head, lex(rest));
        assert(head.skip(1) == Seq::<Token>::empty());
        assert(tokens_text(head.skip(1)) == Seq::<char>::empty());
        assert(tokens_text(head) == token_text(first_token(s)) + Seq::<char>::empty());
        assert(token_text(first_token(s)) == s.take(w));
        assert(s.take(w) + Seq::<char>::empty() == s.take(w));
        assert(s.take(w) + s.skip(w) == s);
    }
}

} // verus!
