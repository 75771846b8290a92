//! The token cursor: a position in a sequence of tokens, with lookahead,
//! matching of one token or of a sequence of tokens, and rewinding.
//!
//! The sequence ends with the end-of-input token, which is never
//! consumed: the cursor stops on it.

use vstd::prelude::*;
use vstd::string::*;
use crate::error::parser_error::ParserError;
use crate::error::{BasicError, ErrorType};
use crate::scanner::{Literal, Token, TokenType};

verus! {

/// A cursor over a sequence of tokens.
#[derive(Debug)]
pub struct TokenIter {
    pub current: usize,
    pub vec_token: Vec<Token>,
}

/// Whether the token at position `pos` is of the kind `kind`. The
/// end-of-input token matches no kind.
pub open spec fn kind_at(tokens: Seq<Token>, pos: int, kind: TokenType) -> bool {
    0 <= pos < tokens.len() && tokens[pos].token_type != TokenType::EOF && tokens[pos].token_type
        == kind
}

/// Whether the token at position `pos` is of one of the kinds `kinds`.
pub open spec fn any_kind_at(tokens: Seq<Token>, pos: int, kinds: Seq<TokenType>) -> bool {
    exists|i: int| 0 <= i < kinds.len() && kind_at(tokens, pos, #[trigger] kinds[i])
}

/// Whether the tokens from position `pos` on are of the kinds `kinds`,
/// one after the other.
pub open spec fn kinds_at(tokens: Seq<Token>, pos: int, kinds: Seq<TokenType>) -> bool {
    forall|j: int| 0 <= j < kinds.len() ==> kind_at(tokens, pos + j, #[trigger] kinds[j])
}

/// The first of the alternatives from `i` on whose kinds the tokens from
/// position `pos` on are of.
pub open spec fn first_match(
    tokens: Seq<Token>,
    pos: int,
    alternatives: Seq<Vec<TokenType>>,
    i: int,
) -> Option<int>
    decreases alternatives.len() - i,
{
    if i < 0 || i >= alternatives.len() {
        None
    } else if kinds_at(tokens, pos, alternatives[i]@) {
        Some(i)
    } else {
        first_match(tokens, pos, alternatives, i + 1)
    }
}

/// The error of a token that the grammar does not allow where it stands:
/// it carries the token's line, column and text.
pub open spec fn is_error_at(e: ErrorType, token: Token) -> bool {
    e matches ErrorType::ParserError(p) && p.basic_error.lineno == token.lineno
        && p.basic_error.col_offset == token.col_offset && p.basic_error.lexeme@ == token.lexeme@
}

/// Whether `token` is the end-of-input token that closes a list which
/// lacks one: it has no text, no value, and the first place.
pub open spec fn is_closing_token(token: Token) -> bool {
    token.token_type == TokenType::EOF && token.lineno == 0 && token.col_offset == 0
        && token.literal is Nil && token.lexeme@ == Seq::<char>::empty()
}

/// Whether `closed` is the list `tokens`, with an end-of-input token put
/// at its end where it does not end with one.
pub open spec fn is_closed_list(closed: Vec<Token>, tokens: Vec<Token>) -> bool {
    if tokens@.len() > 0 && tokens@[tokens@.len() - 1].token_type == TokenType::EOF {
        closed == tokens
    } else {
        closed@.len() == tokens@.len() + 1 && closed@.subrange(0, tokens@.len() as int)
            == tokens@ && is_closing_token(closed@[tokens@.len() as int])
    }
}

impl TokenIter {
    /// The cursor is well formed: it stands on a token, and the sequence
    /// ends with the end-of-input token.
    pub open spec fn wf(&self) -> bool {
        &&& self.current < self.vec_token@.len()
        &&& self.vec_token@[self.vec_token@.len() - 1].token_type == TokenType::EOF
    }

    /// The cursor at the start of `token_list`. An end-of-input token is
    /// put at the end of a list that does not end with one.
    pub fn new(token_list: Vec<Token>) -> (r: TokenIter)
        ensures
            r.wf(),
            r.current == 0,
            is_closed_list(r.vec_token, token_list),
    {
        let mut tokens = token_list;
        let n = tokens.len();
        let closed = n > 0 && match tokens[n - 1].token_type {
            TokenType::EOF => true,
            _ => false,
        };
        if !closed {
            tokens.push(
                Token {
                    token_type: TokenType::EOF,
                    lineno: 0,
                    col_offset: 0,
                    literal: Literal::Nil,
                    lexeme: String::new(),
                },
            );
            assert(tokens@.subrange(0, n as int) =~= token_list@);
        }
        TokenIter { current: 0, vec_token: tokens }
    }

    /// Whether the cursor stands on the end-of-input token.
    pub fn is_at_end(&self) -> (r: bool)
        requires
            self.wf(),
        ensures
            r == (self.vec_token@[self.current as int].token_type == TokenType::EOF),
    {
        match self.vec_token[self.current].token_type {
            TokenType::EOF => true,
            _ => false,
        }
    }

    /// Consumes the token that the cursor stands on, unless it is the
    /// end-of-input token, and gives that token.
    pub fn advance(&mut self) -> (r: Token)
        requires
            old(self).wf(),
        ensures
            final(self).wf(),
            final(self).vec_token == old(self).vec_token,
            r == old(self).vec_token@[old(self).current as int],
            final(self).current == if r.token_type == TokenType::EOF {
                old(self).current as int
            } else {
                old(self).current + 1
            },
    {
        let token = self.vec_token[self.current].clone();
        let n = self.vec_token.len();
        if !self.is_at_end() {
            self.current += 1;
        }
        token
    }

    /// The token that stands `offset` tokens before the cursor.
    pub fn previous(&self, offset: usize) -> (r: Token)
        requires
            self.wf(),
            offset <= self.current,
        ensures
            r == self.vec_token@[self.current - offset],
    {
        self.vec_token[self.current - offset].clone()
    }

    /// The token that the cursor stands on.
    pub fn peek(&self) -> (r: Token)
        requires
            self.wf(),
        ensures
            r == self.vec_token@[self.current as int],
    {
        self.vec_token[self.current].clone()
    }

    /// Moves the cursor back by `offset` tokens and gives the token it
    /// then stands on. Where that would lead before the first token, the
    /// cursor stays and the result is an error.
    pub fn back(&mut self, offset: usize) -> (r: Result<Token, bool>)
        requires
            old(self).wf(),
        ensures
            final(self).wf(),
            final(self).vec_token == old(self).vec_token,
            offset <= old(self).current ==> final(self).current == old(self).current - offset && r
                == Ok::<Token, bool>(final(self).vec_token@[final(self).current as int]),
            offset > old(self).current ==> final(self).current == old(self).current && r == Err::<
                Token,
                bool,
            >(false),
    {
        if offset > self.current {
            return Err(false);
        }
        self.current -= offset;
        Ok(self.vec_token[self.current].clone())
    }

    /// Whether the cursor stands on a token of the kind `token_type`.
    pub fn check(&self, token_type: TokenType) -> (r: bool)
        requires
            self.wf(),
        ensures
            r == kind_at(self.vec_token@, self.current as int, token_type),
    {
        if self.is_at_end() {
            false
        } else {
            self.vec_token[self.current].token_type == token_type
        }
    }

    /// Consumes the token that the cursor stands on if it is of the kind
    /// `token_type`, and says whether it did.
    pub fn catch_kind(&mut self, token_type: TokenType) -> (r: bool)
        requires
            old(self).wf(),
        ensures
            final(self).wf(),
            final(self).vec_token == old(self).vec_token,
            r == kind_at(old(self).vec_token@, old(self).current as int, token_type),
            final(self).current == if r {
                old(self).current + 1
            } else {
                old(self).current as int
            },
    {
        if self.check(token_type) {
            self.advance();
            true
        } else {
            false
        }
    }

    /// Consumes the token that the cursor stands on if it is of one of the
    /// kinds `token_list`, and says whether it did.
    pub fn catch(&mut self, token_list: &[TokenType]) -> (r: bool)
        requires
            old(self).wf(),
        ensures
            final(self).wf(),
            final(self).vec_token == old(self).vec_token,
            r == any_kind_at(old(self).vec_token@, old(self).current as int, token_list@),
            final(self).current == if r {
                old(self).current + 1
            } else {
                old(self).current as int
            },
    {
        let mut i: usize = 0;
        while i < token_list.len()
            invariant
                i <= token_list.len(),
                *self == *old(self),
                self.wf(),
                forall|j: int|
                    0 <= j < i ==> !kind_at(
                        self.vec_token@,
                        self.current as int,
                        #[trigger] token_list@[j],
                    ),
            decreases token_list.len() - i,
        {
            if self.check(token_list[i]) {
                self.advance();
                return true;
            }
            i += 1;
        }
        false
    }

    /// Whether the tokens from the cursor on are of the kinds `kinds`, one
    /// after the other. The cursor stays.
    fn check_multi(&self, kinds: &Vec<TokenType>) -> (r: bool)
        requires
            self.wf(),
        ensures
            r == kinds_at(self.vec_token@, self.current as int, kinds@),
    {
        let mut j: usize = 0;
        let n = self.vec_token.len();
        while j < kinds.len()
            invariant
                j <= kinds.len(),
                self.wf(),
                n == self.vec_token@.len(),
                self.current + j < self.vec_token@.len(),
                forall|k: int|
                    0 <= k < j ==> kind_at(
                        self.vec_token@,
                        self.current + k,
                        #[trigger] kinds@[k],
                    ),
            decreases kinds.len() - j,
        {
            let token_type = self.vec_token[self.current + j].token_type;
            let at_end = match token_type {
                TokenType::EOF => true,
                _ => false,
            };
            if at_end || token_type != kinds[j] {
                assert(!kind_at(self.vec_token@, self.current + j, kinds@[j as int]));
                return false;
            }
            j += 1;
        }
        true
    }

    /// Tries the alternatives of `token_lists` in turn, each a sequence
    /// of kinds. The first one that the tokens from the cursor on are of
    /// is consumed; where there is none, the cursor stays where it was.
    pub fn catch_multi(&mut self, token_lists: &Vec<Vec<TokenType>>) -> (r: bool)
        requires
            old(self).wf(),
        ensures
            final(self).wf(),
            final(self).vec_token == old(self).vec_token,
            match first_match(old(self).vec_token@, old(self).current as int, token_lists@, 0) {
                Some(i) => r && final(self).current == old(self).current + token_lists@[i]@.len(),
                None => !r && final(self).current == old(self).current,
            },
    {
        let mut i: usize = 0;
        while i < token_lists.len()
            invariant
                i <= token_lists.len(),
                *self == *old(self),
                self.wf(),
                first_match(self.vec_token@, self.current as int, token_lists@, 0) == first_match(
                    self.vec_token@,
                    self.current as int,
                    token_lists@,
                    i as int,
                ),
            decreases token_lists.len() - i,
        {
            if self.check_multi(&token_lists[i]) {
                let n = token_lists[i].len();
                let total = self.vec_token.len();
                proof {
                    if n > 0 {
                        assert(kind_at(
                            self.vec_token@,
                            self.current + (n - 1),
                            token_lists@[i as int]@[n - 1],
                        ));
                    }
                }
                self.current += n;
                return true;
            }
            i += 1;
        }
        false
    }

    /// The error that names the token the cursor stands on.
    pub fn error_here(&self) -> (e: ErrorType)
        requires
            self.wf(),
        ensures
            is_error_at(e, self.vec_token@[self.current as int]),
    {
        let token = &self.vec_token[self.current];
        ParserError::new(
            BasicError {
                lexeme: token.lexeme.clone(),
                col_offset: token.col_offset as u64,
                lineno: token.lineno as u64,
            },
        )
    }

    /// Consumes the token that the cursor stands on if it is of the kind
    /// `token_type`, and gives it; else the cursor stays, and the error
    /// names the token that stands there.
    pub fn consume(&mut self, token_type: TokenType, _err: String) -> (r: Result<
        Token,
        ErrorType,
    >)
        requires
            old(self).wf(),
        ensures
            final(self).wf(),
            final(self).vec_token == old(self).vec_token,
            match r {
                Ok(t) => kind_at(old(self).vec_token@, old(self).current as int, token_type)
                    && final(self).current == old(self).current + 1 && t == old(
                    self,
                ).vec_token@[final(self).current - 1],
                Err(e) => !kind_at(old(self).vec_token@, old(self).current as int, token_type)
                    && final(self).current == old(self).current && is_error_at(
                    e,
                    old(self).vec_token@[old(self).current as int],
                ),
            },
    {
        if self.check(token_type) {
            return Ok(self.advance());
        }
        Err(self.error_here())
    }

    /// The tokens from the cursor on.
    pub fn return_surplus(&self) -> (r: Vec<Token>)
        requires
            self.wf(),
        ensures
            r@ == self.vec_token@.subrange(self.current as int, self.vec_token@.len() as int),
    {
        let mut r: Vec<Token> = Vec::new();
        let mut i: usize = self.current;
        while i < self.vec_token.len()
            invariant
                self.current <= i <= self.vec_token.len(),
                r@ == self.vec_token@.subrange(self.current as int, i as int),
            decreases self.vec_token.len() - i,
        {
            r.push(self.vec_token[i].clone());
            i += 1;
            assert(self.vec_token@.subrange(self.current as int, i as int)
                =~= self.vec_token@.subrange(self.current as int, i - 1).push(
                self.vec_token@[i - 1],
            ));
        }
        r
    }
}

} // verus!
