//! The parser of statements and blocks.
//!
//! One parser walks the whole program. It carries the indentation width
//! of the block it is in and the widths of the blocks around it; for a
//! nested block it takes the width of the block's first line and puts its
//! own width among those of the enclosing blocks, and takes both back
//! when the block ends.

use vstd::prelude::*;
use vstd::string::*;
use crate::ast_struct::{views_of, If, Print, PyCtx, PyRootNode, Type, TypeView, While};
use crate::expression::lemma_views_push;
use crate::error::ErrorType;
use crate::grammar::{
    ended, measured, parse_block, parse_body, parse_else, parse_if, parse_line, parse_statement,
    parse_sub_type, parse_tail, parse_while, Indent, Parsed, ParsedBlock,
};
use crate::scanner::{Scanner, Token, TokenType};
use crate::token_iter::{is_closed_list, is_error_at, kind_at, TokenIter};

verus! {

/// The parser: the tokens and the place reached in them, the indentation
/// width of the block that is being parsed, and the widths of the blocks
/// around it, from the outside in.
#[derive(Debug)]
pub struct Parser {
    pub ast_list: PyRootNode,
    pub token_iter: TokenIter,
    pub indent: u64,
    pub parent_indent: Vec<u64>,
}

impl Parser {
    /// The tokens that the parser reads.
    #[verifier::inline]
    pub open spec fn stream(&self) -> Seq<Token> {
        self.token_iter.vec_token@
    }

    /// The indentation in which the parser parses.
    pub open spec fn ind(&self) -> Indent {
        Indent { width: self.indent, parents: self.parent_indent@ }
    }

    /// Whether the parser is the parser `pre` but for the place of its
    /// cursor, and its cursor is well formed.
    pub open spec fn kept(&self, pre: Parser) -> bool {
        &&& self.token_iter.wf()
        &&& self.token_iter.vec_token == pre.token_iter.vec_token
        &&& self.indent == pre.indent
        &&& self.parent_indent@ == pre.parent_indent@
        &&& self.ast_list == pre.ast_list
    }
}

/// Whether the token at `pos` is an identifier that carries its name.
pub open spec fn identifier_at(t: Seq<Token>, pos: int) -> bool {
    kind_at(t, pos, TokenType::IDENTIFIER) && t[pos].literal is Identifier
}

/// Whether a parser that was `pre` and is `post`, with the result `r`, has
/// parsed as `expected` says: with the tree and the number of tokens
/// consumed, or with the error that names the offending token, on which
/// the cursor then stands. Only the cursor of the parser has changed.
pub open spec fn parsed_as(
    pre: Parser,
    post: Parser,
    r: Result<Type, ErrorType>,
    expected: Parsed,
) -> bool {
    &&& post.kept(pre)
    &&& match expected {
        Parsed::Done(v, n) => r matches Ok(node) && node@ == v && post.token_iter.current
            == pre.token_iter.current + n,
        Parsed::Failed(at) => r matches Err(e) && 0 <= at < pre.stream().len() && is_error_at(
            e,
            pre.stream()[at],
        ) && post.token_iter.current == at,
    }
}

/// The same for a block.
pub open spec fn parsed_block_as(
    pre: Parser,
    post: Parser,
    r: Result<Vec<Type>, ErrorType>,
    expected: ParsedBlock,
) -> bool {
    &&& post.kept(pre)
    &&& match expected {
        ParsedBlock::Done(v, n) => r matches Ok(nodes) && views_of(nodes@) == v
            && post.token_iter.current == pre.token_iter.current + n,
        ParsedBlock::Failed(at) => r matches Err(e) && 0 <= at < pre.stream().len()
            && is_error_at(e, pre.stream()[at]) && post.token_iter.current == at,
    }
}

/// The statements `acc`, for which `used` tokens were consumed, followed
/// by what parsing the rest of the block gives.
pub open spec fn block_after(acc: Seq<TypeView>, used: nat, rest: ParsedBlock) -> ParsedBlock {
    match rest {
        ParsedBlock::Done(more, n) => ParsedBlock::Done(acc + more, used + n),
        ParsedBlock::Failed(at) => ParsedBlock::Failed(at),
    }
}

/// Whether a list of widths holds `width`.
fn contains_width(widths: &Vec<u64>, width: u128) -> (r: bool)
    ensures
        r == (width <= u64::MAX && widths@.contains(width as u64)),
{
    if width > 0xffff_ffff_ffff_ffff {
        return false;
    }
    let w = width as u64;
    let mut i: usize = 0;
    while i < widths.len()
        invariant
            i <= widths.len(),
            w == width,
            forall|k: int| 0 <= k < i ==> widths@[k] != w,
        decreases widths.len() - i,
    {
        if widths[i] == w {
            assert(widths@[i as int] == w);
            return true;
        }
        i += 1;
    }
    false
}

/// The parser for the tokens that `scanner` has made, at the top level of
/// a program.
pub fn build_parser(scanner: Scanner) -> (r: Parser)
    ensures
        r.token_iter.wf(),
        r.token_iter.current == 0,
        r.indent == 0,
        r.parent_indent@ == seq![0u64],
        is_closed_list(r.token_iter.vec_token, scanner.token),
        r.ast_list.body@.len() == 0,
        r.ast_list.lineno == scanner.lineno,
        r.ast_list.end_lineno == scanner.end_lineno,
        r.ast_list.col_offset == scanner.col_offset,
        r.ast_list.end_col_offset == scanner.end_col_offset,
{
    let mut parents: Vec<u64> = Vec::new();
    parents.push(0);
    Parser {
        ast_list: PyRootNode {
            body: Vec::new(),
            lineno: scanner.lineno,
            end_lineno: scanner.end_lineno,
            col_offset: scanner.col_offset,
            end_col_offset: scanner.end_col_offset,
        },
        token_iter: TokenIter::new(scanner.token),
        indent: 0,
        parent_indent: parents,
    }
}

impl Default for Parser {
    /// The parser without tokens, at the top level of a program.
    fn default() -> (r: Self)
        ensures
            r.token_iter.wf(),
            r.token_iter.current == 0,
            r.token_iter.vec_token@.len() == 1,
            r.indent == 0,
            r.parent_indent@ == seq![0u64],
    {
        let mut parents: Vec<u64> = Vec::new();
        parents.push(0);
        Parser {
            ast_list: PyRootNode::default(),
            token_iter: TokenIter::new(Vec::new()),
            indent: 0,
            parent_indent: parents,
        }
    }
}

impl Parser {
    /// Sets the part of the source text that the program spans.
    pub fn position(
        self,
        lineno: u64,
        end_lineno: u64,
        col_offset: u64,
        end_col_offset: u64,
    ) -> (r: Parser)
        requires
            lineno <= usize::MAX,
            end_lineno <= usize::MAX,
            col_offset <= usize::MAX,
            end_col_offset <= usize::MAX,
        ensures
            r.token_iter == self.token_iter,
            r.indent == self.indent,
            r.parent_indent == self.parent_indent,
            r.ast_list.body == self.ast_list.body,
            r.ast_list.lineno == lineno,
            r.ast_list.end_lineno == end_lineno,
            r.ast_list.col_offset == col_offset,
            r.ast_list.end_col_offset == end_col_offset,
    {
        let mut parser = self;
        parser.ast_list.lineno = lineno as usize;
        parser.ast_list.end_lineno = end_lineno as usize;
        parser.ast_list.col_offset = col_offset as usize;
        parser.ast_list.end_col_offset = end_col_offset as usize;
        parser
    }

    /// Sets the tokens, and puts the cursor at their start. An
    /// end-of-input token is put at the end of a list that does not end
    /// with one.
    pub fn tokens(self, tokens: Vec<Token>) -> (r: Parser)
        ensures
            r.token_iter.wf(),
            r.token_iter.current == 0,
            is_closed_list(r.token_iter.vec_token, tokens),
            r.indent == self.indent,
            r.parent_indent == self.parent_indent,
            r.ast_list == self.ast_list,
    {
        let mut parser = self;
        parser.token_iter = TokenIter::new(tokens);
        parser
    }

    /// Sets the indentation width of the block to parse, and the widths of
    /// the blocks around it.
    pub fn indent(self, indent: usize, parent_indent: Vec<u64>) -> (r: Parser)
        ensures
            r.indent == indent,
            r.parent_indent == parent_indent,
            r.token_iter == self.token_iter,
            r.ast_list == self.ast_list,
    {
        let mut parser = self;
        parser.indent = indent as u64;
        parser.parent_indent = parent_indent;
        parser
    }

    /// The error that names the token at the cursor.
    pub fn return_err(&self) -> (e: ErrorType)
        requires
            self.token_iter.wf(),
        ensures
            is_error_at(e, self.stream()[self.token_iter.current as int]),
    {
        self.token_iter.error_here()
    }

    /// Measures and consumes the indentation that stands at the cursor,
    /// as [`measured`] says: gives the width of the next line that is not
    /// empty, and the number of tokens consumed.
    pub fn test_indent(&mut self) -> (r: (u128, usize))
        requires
            old(self).token_iter.wf(),
        ensures
            final(self).kept(*old(self)),
            (r.0 as nat, r.1 as nat) == measured(
                old(self).stream(),
                old(self).token_iter.current as int,
                0,
            ),
            final(self).token_iter.current == old(self).token_iter.current + r.1,
    {
        let ghost t = self.stream();
        let ghost start = self.token_iter.current as int;
        let total = self.token_iter.vec_token.len();
        let mut width: u128 = 0;
        let mut times: usize = 0;
        loop
            invariant
                self.kept(*old(self)),
                t == self.stream(),
                total == t.len(),
                start == old(self).token_iter.current,
                self.token_iter.current == start + times,
                width <= 4 * times,
                measured(t, start, 0).0 == measured(t, self.token_iter.current as int, width as nat).0,
                measured(t, start, 0).1 == measured(
                    t,
                    self.token_iter.current as int,
                    width as nat,
                ).1 + times,
            ensures
                measured(t, start, 0).0 == width,
                measured(t, start, 0).1 == times,
            decreases total - self.token_iter.current,
        {
            if self.token_iter.catch_kind(TokenType::LineBreak) {
                width = 0;
            } else if self.token_iter.catch_kind(TokenType::SPACE) {
                width += 1;
            } else if self.token_iter.catch_kind(TokenType::TAB) {
                width += 4;
            } else {
                assert(measured(t, self.token_iter.current as int, width as nat) == (
                    width as nat,
                    0nat,
                ));
                break ;
            }
            times += 1;
        }
        assert(measured(t, start, 0) == (width as nat, times as nat));
        (width, times)
    }

    /// Makes a name used as `ctx` of the identifier at the cursor, and
    /// consumes it; an error that names the token at the cursor, and the
    /// cursor stays, where no identifier stands there.
    pub fn identifier_statement(&mut self, ctx: PyCtx) -> (r: Result<Type, ErrorType>)
        requires
            old(self).token_iter.wf(),
        ensures
            final(self).kept(*old(self)),
            if identifier_at(old(self).stream(), old(self).token_iter.current as int) {
                r matches Ok(node) && final(self).token_iter.current == old(
                    self,
                ).token_iter.current + 1 && node@ == TypeView::Name(
                    old(self).stream()[old(self).token_iter.current as int].literal->Identifier_0@,
                    ctx,
                )
            } else {
                r matches Err(e) && final(self).token_iter.current == old(self).token_iter.current
                    && is_error_at(e, old(self).stream()[old(self).token_iter.current as int])
            },
    {
        if !self.token_iter.catch_kind(TokenType::IDENTIFIER) {
            return Err(self.token_iter.error_here());
        }
        let token = self.token_iter.previous(1);
        match token.literal {
            crate::scanner::Literal::Identifier(x) => Ok(
                Type::Name(crate::ast_struct::Name { id: x, ctx }),
            ),
            _ => {
                let _ = self.token_iter.back(1);
                Err(self.token_iter.error_here())
            },
        }
    }

    /// Consumes one token, and says whether the input goes on after it.
    pub fn synchronize(&mut self) -> (r: bool)
        requires
            old(self).token_iter.wf(),
        ensures
            final(self).kept(*old(self)),
            final(self).token_iter.current == if ended(
                old(self).stream(),
                old(self).token_iter.current as int,
            ) {
                old(self).token_iter.current as int
            } else {
                old(self).token_iter.current + 1
            },
            r == !ended(final(self).stream(), final(self).token_iter.current as int),
    {
        self.token_iter.advance();
        !self.token_iter.is_at_end()
    }

    /// Parses a `print` statement: the keyword, an expression, and the end
    /// of the line. Gives no node, and consumes nothing, where the cursor
    /// does not stand on `print`.
    pub fn print_statement(&mut self) -> (r: Result<Type, ErrorType>)
        requires
            old(self).token_iter.wf(),
        ensures
            parsed_as(
                *old(self),
                *final(self),
                r,
                if kind_at(
                    old(self).stream(),
                    old(self).token_iter.current as int,
                    TokenType::PRINT,
                ) {
                    parse_statement(
                        old(self).stream(),
                        old(self).token_iter.current as int,
                        old(self).ind(),
                    )
                } else {
                    Parsed::Done(TypeView::Nil, 0)
                },
            ),
    {
        if !self.token_iter.catch_kind(TokenType::PRINT) {
            return Ok(Type::Nil);
        }
        let arg = match self.expression() {
            Ok(x) => x,
            Err(e) => {
                return Err(e);
            },
        };
        match self.token_iter.consume(TokenType::LineBreak, String::new()) {
            Ok(_) => {},
            Err(e) => {
                return Err(e);
            },
        }
        Ok(Type::Print(Box::new(Print::builder().arg(arg).build())))
    }

    /// Parses a statement, as [`parse_statement`] says.
    pub fn statement(&mut self) -> (r: Result<Type, ErrorType>)
        requires
            old(self).token_iter.wf(),
        ensures
            parsed_as(
                *old(self),
                *final(self),
                r,
                parse_statement(
                    old(self).stream(),
                    old(self).token_iter.current as int,
                    old(self).ind(),
                ),
            ),
        decreases old(self).stream().len() - old(self).token_iter.current, 1int,
    {
        if self.token_iter.check(TokenType::PRINT) {
            return self.print_statement();
        }
        if self.token_iter.catch_kind(TokenType::IF) {
            return self.if_statement();
        }
        if self.token_iter.catch_kind(TokenType::WHILE) {
            return self.while_statement();
        }
        self.expression()
    }

    /// Parses a statement.
    pub fn parser(&mut self) -> (r: Result<Type, ErrorType>)
        requires
            old(self).token_iter.wf(),
        ensures
            parsed_as(
                *old(self),
                *final(self),
                r,
                parse_statement(
                    old(self).stream(),
                    old(self).token_iter.current as int,
                    old(self).ind(),
                ),
            ),
    {
        self.statement()
    }

    /// Parses one line of the block, as [`parse_line`] says: a statement,
    /// or no node where the line belongs to an enclosing block.
    pub fn parser_without_panic(&mut self) -> (r: Result<Type, ErrorType>)
        requires
            old(self).token_iter.wf(),
        ensures
            parsed_as(
                *old(self),
                *final(self),
                r,
                parse_line(
                    old(self).stream(),
                    old(self).token_iter.current as int,
                    old(self).ind(),
                ),
            ),
    {
        let (width, times) = self.test_indent();
        if width == self.indent as u128 {
            self.statement()
        } else if contains_width(&self.parent_indent, width) {
            let _ = self.token_iter.back(times);
            Ok(Type::Nil)
        } else {
            Err(self.return_err())
        }
    }

    /// Parses the statements of a block, as [`parse_block`] says.
    pub fn create_vec(&mut self) -> (r: Result<Vec<Type>, ErrorType>)
        requires
            old(self).token_iter.wf(),
        ensures
            parsed_block_as(
                *old(self),
                *final(self),
                r,
                parse_block(
                    old(self).stream(),
                    old(self).token_iter.current as int,
                    old(self).ind(),
                ),
            ),
        decreases old(self).stream().len() - old(self).token_iter.current, 2int,
    {
        let ghost t = self.stream();
        let ghost start = self.token_iter.current as int;
        let ghost ind = self.ind();
        let total = self.token_iter.vec_token.len();
        let mut nodes: Vec<Type> = Vec::new();
        assert(views_of(nodes@) =~= Seq::<TypeView>::empty());
        assert(parse_block(t, start, ind) == block_after(
            views_of(nodes@),
            0,
            parse_block(t, start, ind),
        )) by {
            match parse_block(t, start, ind) {
                ParsedBlock::Done(more, n) => {
                    assert(Seq::<TypeView>::empty() + more =~= more);
                },
                ParsedBlock::Failed(_) => {},
            }
        }
        loop
            invariant
                self.kept(*old(self)),
                t == self.stream(),
                total == t.len(),
                ind == self.ind(),
                start == old(self).token_iter.current,
                start <= self.token_iter.current,
                parse_block(t, start, ind) == block_after(
                    views_of(nodes@),
                    (self.token_iter.current - start) as nat,
                    parse_block(t, self.token_iter.current as int, ind),
                ),
            decreases total - self.token_iter.current,
        {
            let ghost here = self.token_iter.current as int;
            let ghost before = views_of(nodes@);
            let (width, times) = self.test_indent();
            if self.token_iter.is_at_end() {
                assert(before + Seq::<TypeView>::empty() =~= before);
                return Ok(nodes);
            }
            if width != self.indent as u128 {
                if contains_width(&self.parent_indent, width) {
                    let _ = self.token_iter.back(times);
                    assert(before + Seq::<TypeView>::empty() =~= before);
                    return Ok(nodes);
                }
                return Err(self.return_err());
            }
            proof {
                crate::grammar::lemma_statement_in_order(t, self.token_iter.current as int, ind);
            }
            let node = match self.statement() {
                Ok(x) => x,
                Err(e) => {
                    return Err(e);
                },
            };
            proof {
                lemma_views_push(nodes@, node);
                match parse_block(t, self.token_iter.current as int, ind) {
                    ParsedBlock::Done(more, n) => {
                        assert(before + (seq![node@] + more) =~= before.push(node@) + more);
                    },
                    ParsedBlock::Failed(_) => {},
                }
            }
            nodes.push(node);
        }
    }

    /// Parses an indented block, as [`parse_sub_type`] says: the block
    /// takes its width from its first line, which has to be wider than the
    /// block around it.
    pub fn sub_type(&mut self) -> (r: Result<Vec<Type>, ErrorType>)
        requires
            old(self).token_iter.wf(),
        ensures
            parsed_block_as(
                *old(self),
                *final(self),
                r,
                parse_sub_type(
                    old(self).stream(),
                    old(self).token_iter.current as int,
                    old(self).ind(),
                ),
            ),
        decreases old(self).stream().len() - old(self).token_iter.current, 3int,
    {
        let (width, times) = self.test_indent();
        let _ = self.token_iter.back(times);
        let outer = self.indent;
        if width <= outer as u128 || width > 0xffff_ffff_ffff_ffff {
            return Err(self.return_err());
        }
        let ghost parents = self.parent_indent@;
        self.parent_indent.push(outer);
        self.indent = width as u64;
        let body = self.create_vec();
        self.indent = outer;
        self.parent_indent.pop();
        assert(self.parent_indent@ =~= parents);
        body
    }

    /// Parses the body of a clause, as [`parse_body`] says: one statement
    /// on the line of the colon, or an indented block.
    pub fn body(&mut self) -> (r: Result<Vec<Type>, ErrorType>)
        requires
            old(self).token_iter.wf(),
        ensures
            parsed_block_as(
                *old(self),
                *final(self),
                r,
                parse_body(
                    old(self).stream(),
                    old(self).token_iter.current as int,
                    old(self).ind(),
                ),
            ),
        decreases old(self).stream().len() - old(self).token_iter.current, 4int,
    {
        if self.token_iter.catch_kind(TokenType::LineBreak) {
            return self.sub_type();
        }
        let start = self.token_iter.current;
        let node = match self.statement() {
            Ok(x) => x,
            Err(e) => {
                return Err(e);
            },
        };
        let ended = self.token_iter.current > start && match self.token_iter.previous(
            1,
        ).token_type {
            TokenType::LineBreak => true,
            _ => false,
        };
        if !ended {
            match self.token_iter.consume(TokenType::LineBreak, String::new()) {
                Ok(_) => {},
                Err(e) => {
                    return Err(e);
                },
            }
        }
        let mut nodes: Vec<Type> = Vec::new();
        let ghost v = node@;
        nodes.push(node);
        assert(views_of(nodes@) =~= seq![v]);
        Ok(nodes)
    }

    /// Parses the `else` clause at the cursor, as [`parse_else`] says;
    /// gives nothing, and the cursor stays, where there is none.
    pub fn else_statement(&mut self) -> (r: Result<Vec<Type>, ErrorType>)
        requires
            old(self).token_iter.wf(),
        ensures
            parsed_block_as(
                *old(self),
                *final(self),
                r,
                parse_else(
                    old(self).stream(),
                    old(self).token_iter.current as int,
                    old(self).ind(),
                ),
            ),
        decreases old(self).stream().len() - old(self).token_iter.current, 5int,
    {
        if !self.token_iter.catch_kind(TokenType::ELSE) {
            let nodes: Vec<Type> = Vec::new();
            assert(views_of(nodes@) =~= Seq::<TypeView>::empty());
            return Ok(nodes);
        }
        if !self.token_iter.catch_kind(TokenType::COLON) {
            return Err(self.return_err());
        }
        self.body()
    }

    /// Parses what follows the block of an `if` or of a `while`, as
    /// [`parse_tail`] says.
    pub fn tail(&mut self, with_elif: bool) -> (r: Result<Vec<Type>, ErrorType>)
        requires
            old(self).token_iter.wf(),
        ensures
            parsed_block_as(
                *old(self),
                *final(self),
                r,
                parse_tail(
                    old(self).stream(),
                    old(self).token_iter.current as int,
                    old(self).ind(),
                    with_elif,
                ),
            ),
        decreases old(self).stream().len() - old(self).token_iter.current, 6int,
    {
        let total = self.token_iter.vec_token.len();
        let (width, times) = self.test_indent();
        if width == self.indent as u128 {
            if with_elif && self.token_iter.catch_kind(TokenType::ELIF) {
                let nested = match self.if_statement() {
                    Ok(x) => x,
                    Err(e) => {
                        return Err(e);
                    },
                };
                let mut nodes: Vec<Type> = Vec::new();
                let ghost v = nested@;
                nodes.push(nested);
                assert(views_of(nodes@) =~= seq![v]);
                return Ok(nodes);
            }
            let at = self.token_iter.current;
            let orelse = match self.else_statement() {
                Ok(x) => x,
                Err(e) => {
                    return Err(e);
                },
            };
            if self.token_iter.current == at {
                let _ = self.token_iter.back(times);
                let nodes: Vec<Type> = Vec::new();
                assert(views_of(nodes@) =~= Seq::<TypeView>::empty());
                return Ok(nodes);
            }
            Ok(orelse)
        } else if contains_width(&self.parent_indent, width) || self.token_iter.is_at_end() {
            let _ = self.token_iter.back(times);
            let nodes: Vec<Type> = Vec::new();
            assert(views_of(nodes@) =~= Seq::<TypeView>::empty());
            Ok(nodes)
        } else {
            Err(self.return_err())
        }
    }

    /// Parses an `if` statement from the token after `if` on, as
    /// [`parse_if`] says.
    pub fn if_statement(&mut self) -> (r: Result<Type, ErrorType>)
        requires
            old(self).token_iter.wf(),
        ensures
            parsed_as(
                *old(self),
                *final(self),
                r,
                parse_if(
                    old(self).stream(),
                    old(self).token_iter.current as int,
                    old(self).ind(),
                ),
            ),
        decreases old(self).stream().len() - old(self).token_iter.current, 7int,
    {
        let total = self.token_iter.vec_token.len();
        let test = match self.expression() {
            Ok(x) => x,
            Err(e) => {
                return Err(e);
            },
        };
        if !self.token_iter.catch_kind(TokenType::COLON) {
            return Err(self.return_err());
        }
        let block = self.token_iter.check(TokenType::LineBreak);
        let body = match self.body() {
            Ok(x) => x,
            Err(e) => {
                return Err(e);
            },
        };
        let orelse = if block {
            match self.tail(true) {
                Ok(x) => x,
                Err(e) => {
                    return Err(e);
                },
            }
        } else {
            let nodes: Vec<Type> = Vec::new();
            assert(views_of(nodes@) =~= Seq::<TypeView>::empty());
            nodes
        };
        Ok(Type::If(Box::new(If { test: Box::new(test), body, orelse })))
    }

    /// Parses a `while` statement from the token after `while` on, as
    /// [`parse_while`] says.
    pub fn while_statement(&mut self) -> (r: Result<Type, ErrorType>)
        requires
            old(self).token_iter.wf(),
        ensures
            parsed_as(
                *old(self),
                *final(self),
                r,
                parse_while(
                    old(self).stream(),
                    old(self).token_iter.current as int,
                    old(self).ind(),
                ),
            ),
        decreases old(self).stream().len() - old(self).token_iter.current, 7int,
    {
        let total = self.token_iter.vec_token.len();
        let test = match self.expression() {
            Ok(x) => x,
            Err(e) => {
                return Err(e);
            },
        };
        if !self.token_iter.catch_kind(TokenType::COLON) {
            return Err(self.return_err());
        }
        let block = self.token_iter.check(TokenType::LineBreak);
        let body = match self.body() {
            Ok(x) => x,
            Err(e) => {
                return Err(e);
            },
        };
        let orelse = if block {
            match self.tail(false) {
                Ok(x) => x,
                Err(e) => {
                    return Err(e);
                },
            }
        } else {
            let nodes: Vec<Type> = Vec::new();
            assert(views_of(nodes@) =~= Seq::<TypeView>::empty());
            nodes
        };
        Ok(Type::While(Box::new(While { test: Box::new(test), body, orelse })))
    }
}

} // verus!
