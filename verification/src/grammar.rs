//! The grammar of the language, as a function from tokens to trees.
//!
//! Expressions, from the tightest binding to the loosest: a literal, a
//! name or a parenthesized expression; a sign; `*` and `/`; `+` and `-`;
//! a comparison; `not`; `and` and `or`. Every binary level groups to the
//! right. A chain of comparisons becomes one node, and so does a chain of
//! one and the same logical operator.
//!
//! Statements: `print`, assignment, `if` and `while`. A block is the run
//! of statements at one indentation width; it ends where a line with the
//! width of an enclosing block follows.

use vstd::prelude::*;
use crate::ast_struct::{Operator, PyCtx, TypeView};
use crate::core_type::object_of;
use crate::data_type::DataTypeView;
use crate::scanner::{Literal, Token, TokenType};
use crate::token_iter::kind_at;

verus! {

/// What parsing from one position gives.
pub enum Parsed {
    /// A tree, and the number of tokens that were consumed for it.
    Done(TypeView, nat),
    /// The position of the token that the grammar does not allow.
    Failed(int),
}

/// What parsing a block from one position gives.
pub enum ParsedBlock {
    /// The statements, and the number of tokens that were consumed.
    Done(Seq<TypeView>, nat),
    /// The position of the token that the grammar does not allow.
    Failed(int),
}

/// The indentation in which a block is parsed: the width of the block,
/// and the widths of the blocks around it, from the outside in.
pub struct Indent {
    pub width: u64,
    pub parents: Seq<u64>,
}

/// The constant that a literal token stands for.
pub open spec fn literal_value(token: Token) -> TypeView {
    match token.literal {
        Literal::Str(s) => TypeView::Constant(object_of(DataTypeView::Str(s@)), Seq::empty()),
        Literal::Float(f) => TypeView::Constant(object_of(DataTypeView::Float(f@)), Seq::empty()),
        Literal::Int(i) => TypeView::Constant(object_of(DataTypeView::Int(i)), Seq::empty()),
        _ => TypeView::Constant(object_of(DataTypeView::Int(0)), Seq::empty()),
    }
}

/// The operator of a comparison that starts at position `pos`, and the
/// number of tokens that spell it.
pub open spec fn comparison_at(t: Seq<Token>, pos: int) -> Option<(Operator, nat)> {
    if kind_at(t, pos, TokenType::BangEqual) {
        Some((Operator::NotEq, 1nat))
    } else if kind_at(t, pos, TokenType::EqualEqual) {
        Some((Operator::Eq, 1nat))
    } else if kind_at(t, pos, TokenType::GreaterEqual) {
        Some((Operator::GtE, 1nat))
    } else if kind_at(t, pos, TokenType::LessEqual) {
        Some((Operator::LtE, 1nat))
    } else if kind_at(t, pos, TokenType::LESS) {
        Some((Operator::Lt, 1nat))
    } else if kind_at(t, pos, TokenType::GREATER) {
        Some((Operator::Gt, 1nat))
    } else if kind_at(t, pos, TokenType::NOT) && kind_at(t, pos + 1, TokenType::In) {
        Some((Operator::NotIn, 2nat))
    } else if kind_at(t, pos, TokenType::Is) && kind_at(t, pos + 1, TokenType::NOT) {
        Some((Operator::IsNot, 2nat))
    } else {
        None
    }
}

/// The chain of comparisons that starts with `left`, then `op`, then
/// `right`: one node, in which a chain on the right is taken up.
pub open spec fn chained(left: TypeView, op: Operator, right: TypeView) -> TypeView {
    match right {
        TypeView::Compare { left: next, ops, comparators } => TypeView::Compare {
            left: Box::new(left),
            ops: seq![op] + ops,
            comparators: seq![*next] + comparators,
        },
        _ => TypeView::Compare { left: Box::new(left), ops: seq![op], comparators: seq![right] },
    }
}

/// The logical operation `op` on `left` and `right`: one node, in which
/// an operation with the same operator on the right is taken up.
pub open spec fn joined(left: TypeView, op: Operator, right: TypeView) -> TypeView {
    match right {
        TypeView::BoolOp { op: inner, values } => if inner == op {
            TypeView::BoolOp { op, values: seq![left] + values }
        } else {
            TypeView::BoolOp { op, values: seq![left, right] }
        },
        _ => TypeView::BoolOp { op, values: seq![left, right] },
    }
}

/// A name and, where `=` follows it, the assignment of an expression to
/// it, which ends with its line. The token at `pos` is an identifier.
pub open spec fn parse_assign(t: Seq<Token>, pos: int) -> Parsed
    decreases t.len() - pos, 0int,
{
    if !kind_at(t, pos, TokenType::IDENTIFIER) {
        Parsed::Failed(pos)
    } else {
        match t[pos].literal {
            Literal::Identifier(id) => if kind_at(t, pos + 1, TokenType::EQUAL) {
                match parse_bool(t, pos + 2) {
                    Parsed::Done(value, n) => if kind_at(t, pos + 2 + n, TokenType::LineBreak) {
                        Parsed::Done(
                            TypeView::Assign {
                                target: Box::new(TypeView::Name(id@, PyCtx::Store)),
                                value: Box::new(value),
                                type_comment: Seq::empty(),
                            },
                            n + 3,
                        )
                    } else {
                        Parsed::Failed(pos + 2 + n)
                    },
                    Parsed::Failed(at) => Parsed::Failed(at),
                }
            } else {
                Parsed::Done(TypeView::Name(id@, PyCtx::Load), 1)
            },
            _ => Parsed::Failed(pos),
        }
    }
}

/// A literal, `break`, `continue`, a name or an assignment, or an
/// expression in parentheses.
pub open spec fn parse_primary(t: Seq<Token>, pos: int) -> Parsed
    decreases t.len() - pos, 1int,
{
    if kind_at(t, pos, TokenType::TRUE) {
        Parsed::Done(TypeView::Constant(object_of(DataTypeView::Bool(true)), Seq::empty()), 1)
    } else if kind_at(t, pos, TokenType::FALSE) {
        Parsed::Done(TypeView::Constant(object_of(DataTypeView::Bool(false)), Seq::empty()), 1)
    } else if kind_at(t, pos, TokenType::Break) {
        Parsed::Done(TypeView::Break, 1)
    } else if kind_at(t, pos, TokenType::Continue) {
        Parsed::Done(TypeView::Continue, 1)
    } else if kind_at(t, pos, TokenType::STRING) || kind_at(t, pos, TokenType::NUMBER) {
        Parsed::Done(literal_value(t[pos]), 1)
    } else if kind_at(t, pos, TokenType::IDENTIFIER) {
        parse_assign(t, pos)
    } else if kind_at(t, pos, TokenType::LeftParen) {
        match parse_bool(t, pos + 1) {
            Parsed::Done(inner, n) => if kind_at(t, pos + 1 + n, TokenType::RightParen) {
                Parsed::Done(inner, n + 2)
            } else {
                Parsed::Failed(pos + 1 + n)
            },
            Parsed::Failed(at) => Parsed::Failed(at),
        }
    } else {
        Parsed::Failed(pos)
    }
}

/// A primary with any number of signs before it.
pub open spec fn parse_unary(t: Seq<Token>, pos: int) -> Parsed
    decreases t.len() - pos, 2int,
{
    if kind_at(t, pos, TokenType::Minus) || kind_at(t, pos, TokenType::Plus) {
        match parse_unary(t, pos + 1) {
            Parsed::Done(operand, n) => Parsed::Done(
                TypeView::UnaryOp {
                    op: if kind_at(t, pos, TokenType::Plus) {
                        Operator::UAdd
                    } else {
                        Operator::USub
                    },
                    operand: Box::new(operand),
                },
                n + 1,
            ),
            Parsed::Failed(at) => Parsed::Failed(at),
        }
    } else {
        parse_primary(t, pos)
    }
}

/// A product or a quotient.
pub open spec fn parse_factor(t: Seq<Token>, pos: int) -> Parsed
    decreases t.len() - pos, 3int,
{
    match parse_unary(t, pos) {
        Parsed::Done(left, n) => if kind_at(t, pos + n, TokenType::Star) || kind_at(
            t,
            pos + n,
            TokenType::Slash,
        ) {
            match parse_factor(t, pos + n + 1) {
                Parsed::Done(right, m) => Parsed::Done(
                    TypeView::BinOp {
                        left: Box::new(left),
                        op: if kind_at(t, pos + n, TokenType::Star) {
                            Operator::Mult
                        } else {
                            Operator::Div
                        },
                        right: Box::new(right),
                    },
                    n + 1 + m,
                ),
                Parsed::Failed(at) => Parsed::Failed(at),
            }
        } else {
            Parsed::Done(left, n)
        },
        Parsed::Failed(at) => Parsed::Failed(at),
    }
}

/// A sum or a difference.
pub open spec fn parse_term(t: Seq<Token>, pos: int) -> Parsed
    decreases t.len() - pos, 4int,
{
    match parse_factor(t, pos) {
        Parsed::Done(left, n) => if kind_at(t, pos + n, TokenType::Minus) || kind_at(
            t,
            pos + n,
            TokenType::Plus,
        ) {
            match parse_term(t, pos + n + 1) {
                Parsed::Done(right, m) => Parsed::Done(
                    TypeView::BinOp {
                        left: Box::new(left),
                        op: if kind_at(t, pos + n, TokenType::Minus) {
                            Operator::Sub
                        } else {
                            Operator::Add
                        },
                        right: Box::new(right),
                    },
                    n + 1 + m,
                ),
                Parsed::Failed(at) => Parsed::Failed(at),
            }
        } else {
            Parsed::Done(left, n)
        },
        Parsed::Failed(at) => Parsed::Failed(at),
    }
}

/// A comparison, or a chain of comparisons.
pub open spec fn parse_comparison(t: Seq<Token>, pos: int) -> Parsed
    decreases t.len() - pos, 5int,
{
    match parse_term(t, pos) {
        Parsed::Done(left, n) => match comparison_at(t, pos + n) {
            Some((op, width)) => match parse_comparison(t, pos + n + width) {
                Parsed::Done(right, m) => Parsed::Done(chained(left, op, right), n + width + m),
                Parsed::Failed(at) => Parsed::Failed(at),
            },
            None => Parsed::Done(left, n),
        },
        Parsed::Failed(at) => Parsed::Failed(at),
    }
}

/// A comparison with any number of `not` before it.
pub open spec fn parse_not(t: Seq<Token>, pos: int) -> Parsed
    decreases t.len() - pos, 6int,
{
    if kind_at(t, pos, TokenType::NOT) {
        match parse_not(t, pos + 1) {
            Parsed::Done(operand, n) => Parsed::Done(
                TypeView::UnaryOp { op: Operator::Not, operand: Box::new(operand) },
                n + 1,
            ),
            Parsed::Failed(at) => Parsed::Failed(at),
        }
    } else {
        parse_comparison(t, pos)
    }
}

/// An expression: operands joined by `and` and `or`.
pub open spec fn parse_bool(t: Seq<Token>, pos: int) -> Parsed
    decreases t.len() - pos, 7int,
{
    match parse_not(t, pos) {
        Parsed::Done(left, n) => if kind_at(t, pos + n, TokenType::AND) || kind_at(
            t,
            pos + n,
            TokenType::OR,
        ) {
            match parse_bool(t, pos + n + 1) {
                Parsed::Done(right, m) => Parsed::Done(
                    joined(
                        left,
                        if kind_at(t, pos + n, TokenType::AND) {
                            Operator::And
                        } else {
                            Operator::Or
                        },
                        right,
                    ),
                    n + 1 + m,
                ),
                Parsed::Failed(at) => Parsed::Failed(at),
            }
        } else {
            Parsed::Done(left, n)
        },
        Parsed::Failed(at) => Parsed::Failed(at),
    }
}

/// The indentation that is measured from position `pos` on: the width of
/// the blanks at the head of the first line that is not empty, a space
/// counting 1 and a tab 4, and the number of tokens up to the first token
/// of that line. `width` is the width of the blanks passed on the line so
/// far.
pub open spec fn measured(t: Seq<Token>, pos: int, width: nat) -> (nat, nat)
    decreases t.len() - pos,
{
    if kind_at(t, pos, TokenType::LineBreak) {
        let rest = measured(t, pos + 1, 0);
        (rest.0, rest.1 + 1)
    } else if kind_at(t, pos, TokenType::SPACE) {
        let rest = measured(t, pos + 1, width + 1);
        (rest.0, rest.1 + 1)
    } else if kind_at(t, pos, TokenType::TAB) {
        let rest = measured(t, pos + 1, width + 4);
        (rest.0, rest.1 + 1)
    } else {
        (width, 0)
    }
}

/// Whether the token at position `pos` ends the input, or lies beyond it.
pub open spec fn ended(t: Seq<Token>, pos: int) -> bool {
    !(0 <= pos < t.len()) || t[pos].token_type == TokenType::EOF
}

/// A statement: `print`, `if`, `while`, or an expression.
pub open spec fn parse_statement(t: Seq<Token>, pos: int, ind: Indent) -> Parsed
    decreases t.len() - pos, 1int,
{
    if kind_at(t, pos, TokenType::PRINT) {
        match parse_bool(t, pos + 1) {
            Parsed::Done(arg, n) => if kind_at(t, pos + 1 + n, TokenType::LineBreak) {
                Parsed::Done(TypeView::Print(Box::new(arg)), n + 2)
            } else {
                Parsed::Failed(pos + 1 + n)
            },
            Parsed::Failed(at) => Parsed::Failed(at),
        }
    } else if kind_at(t, pos, TokenType::IF) {
        match parse_if(t, pos + 1, ind) {
            Parsed::Done(node, n) => Parsed::Done(node, n + 1),
            Parsed::Failed(at) => Parsed::Failed(at),
        }
    } else if kind_at(t, pos, TokenType::WHILE) {
        match parse_while(t, pos + 1, ind) {
            Parsed::Done(node, n) => Parsed::Done(node, n + 1),
            Parsed::Failed(at) => Parsed::Failed(at),
        }
    } else {
        parse_bool(t, pos)
    }
}

/// The body of a clause, from the token after its colon on: one statement
/// on the line of the colon, or an indented block on the lines that
/// follow. The one statement ends with its line: the line break is
/// consumed after it, unless the statement has consumed it itself.
pub open spec fn parse_body(t: Seq<Token>, pos: int, ind: Indent) -> ParsedBlock
    decreases t.len() - pos, 4int,
{
    if kind_at(t, pos, TokenType::LineBreak) {
        match parse_sub_type(t, pos + 1, ind) {
            ParsedBlock::Done(body, n) => ParsedBlock::Done(body, n + 1),
            ParsedBlock::Failed(at) => ParsedBlock::Failed(at),
        }
    } else {
        match parse_statement(t, pos, ind) {
            Parsed::Done(node, n) => if n >= 1 && kind_at(t, pos + n - 1, TokenType::LineBreak) {
                ParsedBlock::Done(seq![node], n)
            } else if kind_at(t, pos + n, TokenType::LineBreak) {
                ParsedBlock::Done(seq![node], n + 1)
            } else {
                ParsedBlock::Failed(pos + n)
            },
            Parsed::Failed(at) => ParsedBlock::Failed(at),
        }
    }
}

/// The `else` clause at position `pos`, where there is one: nothing, and
/// no token consumed, where the token there is not `else`.
pub open spec fn parse_else(t: Seq<Token>, pos: int, ind: Indent) -> ParsedBlock
    decreases t.len() - pos, 5int,
{
    if kind_at(t, pos, TokenType::ELSE) {
        if kind_at(t, pos + 1, TokenType::COLON) {
            match parse_body(t, pos + 2, ind) {
                ParsedBlock::Done(body, n) => ParsedBlock::Done(body, n + 2),
                ParsedBlock::Failed(at) => ParsedBlock::Failed(at),
            }
        } else {
            ParsedBlock::Failed(pos + 1)
        }
    } else {
        ParsedBlock::Done(Seq::empty(), 0)
    }
}

/// What follows the block of an `if` or of a `while`, from position `pos`
/// on: the clause that belongs to the statement, where the next line
/// that is not empty has the statement's own width and starts with
/// `else` or, if `with_elif` says so, with `elif`. Where there is no such
/// clause, no token is consumed. A line whose width is neither the
/// statement's nor that of an enclosing block is not allowed.
pub open spec fn parse_tail(t: Seq<Token>, pos: int, ind: Indent, with_elif: bool) -> ParsedBlock
    decreases t.len() - pos, 6int,
{
    let m = measured(t, pos, 0);
    if pos + m.1 > t.len() {
        ParsedBlock::Failed(pos)
    } else if m.0 == ind.width {
        if with_elif && kind_at(t, pos + m.1, TokenType::ELIF) {
            match parse_if(t, pos + m.1 + 1, ind) {
                Parsed::Done(nested, n) => ParsedBlock::Done(seq![nested], m.1 + 1 + n),
                Parsed::Failed(at) => ParsedBlock::Failed(at),
            }
        } else {
            match parse_else(t, pos + m.1, ind) {
                ParsedBlock::Done(orelse, n) => if n == 0 {
                    ParsedBlock::Done(Seq::empty(), 0)
                } else {
                    ParsedBlock::Done(orelse, m.1 + n)
                },
                ParsedBlock::Failed(at) => ParsedBlock::Failed(at),
            }
        }
    } else if (m.0 <= u64::MAX && ind.parents.contains(m.0 as u64)) || ended(t, pos + m.1) {
        ParsedBlock::Done(Seq::empty(), 0)
    } else {
        ParsedBlock::Failed(pos + m.1)
    }
}

/// An `if` statement, from the token after `if` on: the test, a colon,
/// the body, and what follows the body.
pub open spec fn parse_if(t: Seq<Token>, pos: int, ind: Indent) -> Parsed
    decreases t.len() - pos, 7int,
{
    match parse_bool(t, pos) {
        Parsed::Done(test, n) => if kind_at(t, pos + n, TokenType::COLON) {
            let block = kind_at(t, pos + n + 1, TokenType::LineBreak);
            match parse_body(t, pos + n + 1, ind) {
                ParsedBlock::Done(body, b) => if pos + n + 1 + b > t.len() {
                    Parsed::Failed(pos)
                } else if block {
                    match parse_tail(t, pos + n + 1 + b, ind, true) {
                        ParsedBlock::Done(orelse, e) => Parsed::Done(
                            TypeView::If { test: Box::new(test), body, orelse },
                            n + 1 + b + e,
                        ),
                        ParsedBlock::Failed(at) => Parsed::Failed(at),
                    }
                } else {
                    Parsed::Done(
                        TypeView::If { test: Box::new(test), body, orelse: Seq::empty() },
                        n + 1 + b,
                    )
                },
                ParsedBlock::Failed(at) => Parsed::Failed(at),
            }
        } else {
            Parsed::Failed(pos + n)
        },
        Parsed::Failed(at) => Parsed::Failed(at),
    }
}

/// A `while` statement, from the token after `while` on: the test, a
/// colon, the body, and what follows the body.
pub open spec fn parse_while(t: Seq<Token>, pos: int, ind: Indent) -> Parsed
    decreases t.len() - pos, 7int,
{
    match parse_bool(t, pos) {
        Parsed::Done(test, n) => if kind_at(t, pos + n, TokenType::COLON) {
            let block = kind_at(t, pos + n + 1, TokenType::LineBreak);
            match parse_body(t, pos + n + 1, ind) {
                ParsedBlock::Done(body, b) => if pos + n + 1 + b > t.len() {
                    Parsed::Failed(pos)
                } else if block {
                    match parse_tail(t, pos + n + 1 + b, ind, false) {
                        ParsedBlock::Done(orelse, e) => Parsed::Done(
                            TypeView::While { test: Box::new(test), body, orelse },
                            n + 1 + b + e,
                        ),
                        ParsedBlock::Failed(at) => Parsed::Failed(at),
                    }
                } else {
                    Parsed::Done(
                        TypeView::While { test: Box::new(test), body, orelse: Seq::empty() },
                        n + 1 + b,
                    )
                },
                ParsedBlock::Failed(at) => Parsed::Failed(at),
            }
        } else {
            Parsed::Failed(pos + n)
        },
        Parsed::Failed(at) => Parsed::Failed(at),
    }
}

/// An indented block, from position `pos` on: its first line that is not
/// empty has to be wider than the block around it, and gives the block
/// its width.
pub open spec fn parse_sub_type(t: Seq<Token>, pos: int, ind: Indent) -> ParsedBlock
    decreases t.len() - pos, 3int,
{
    let m = measured(t, pos, 0);
    if m.0 <= ind.width || m.0 > u64::MAX {
        ParsedBlock::Failed(pos)
    } else {
        parse_block(
            t,
            pos,
            Indent { width: m.0 as u64, parents: ind.parents.push(ind.width) },
        )
    }
}

/// The statements of a block, from position `pos` on. Empty lines are
/// passed over. The block ends at the end of the input, and before a line
/// that has the width of an enclosing block, which is left unconsumed. A
/// line of any other width than the block's is not allowed.
pub open spec fn parse_block(t: Seq<Token>, pos: int, ind: Indent) -> ParsedBlock
    decreases t.len() - pos, 2int,
{
    let m = measured(t, pos, 0);
    if ended(t, pos + m.1) {
        ParsedBlock::Done(Seq::empty(), m.1)
    } else if m.0 == ind.width {
        match parse_statement(t, pos + m.1, ind) {
            Parsed::Done(node, n) => if n == 0 || pos + m.1 + n > t.len() {
                ParsedBlock::Failed(pos + m.1)
            } else {
                match parse_block(t, pos + m.1 + n, ind) {
                    ParsedBlock::Done(rest, r) => ParsedBlock::Done(seq![node] + rest, m.1 + n + r),
                    ParsedBlock::Failed(at) => ParsedBlock::Failed(at),
                }
            },
            Parsed::Failed(at) => ParsedBlock::Failed(at),
        }
    } else if m.0 <= u64::MAX && ind.parents.contains(m.0 as u64) {
        ParsedBlock::Done(Seq::empty(), 0)
    } else {
        ParsedBlock::Failed(pos + m.1)
    }
}

/// One line of a block, from position `pos` on: the statement on the
/// next line that is not empty, where that line has the width of the
/// block; no node, and no token consumed, where it has the width of an
/// enclosing block. A line of any other width is not allowed.
pub open spec fn parse_line(t: Seq<Token>, pos: int, ind: Indent) -> Parsed {
    let m = measured(t, pos, 0);
    if m.0 == ind.width {
        match parse_statement(t, pos + m.1, ind) {
            Parsed::Done(node, n) => Parsed::Done(node, m.1 + n),
            Parsed::Failed(at) => Parsed::Failed(at),
        }
    } else if m.0 <= u64::MAX && ind.parents.contains(m.0 as u64) {
        Parsed::Done(TypeView::Nil, 0)
    } else {
        Parsed::Failed(pos + m.1)
    }
}

/// The indentation of a whole program: width 0, inside a block of width
/// 0.
pub open spec fn top_level() -> Indent {
    Indent { width: 0, parents: seq![0u64] }
}

/// The statements of the program that the tokens `t` spell.
pub open spec fn parse_program(t: Seq<Token>) -> ParsedBlock {
    parse_block(t, 0, top_level())
}

// ---------------------------------------------------------------------
// Laws of the grammar
// ---------------------------------------------------------------------

/// A nested block is wider than the block around it: its first line has
/// an indentation of more than nothing.
pub proof fn lemma_nested_block_is_wider(t: Seq<Token>, pos: int, ind: Indent)
    requires
        parse_sub_type(t, pos, ind) is Done,
    ensures
        measured(t, pos, 0).0 > ind.width,
        measured(t, pos, 0).0 > 0,
{
}

/// A block ends at the end of the input, or before a line whose width is
/// not the block's but that of an enclosing block; that line is left
/// unconsumed.
pub proof fn lemma_block_end(t: Seq<Token>, pos: int, ind: Indent)
    ensures
        parse_block(t, pos, ind) matches ParsedBlock::Done(nodes, n) ==> ended(
            t,
            pos + n + measured(t, pos + n, 0).1,
        ) || (measured(t, pos + n, 0).0 != ind.width && measured(t, pos + n, 0).0 <= u64::MAX
            && ind.parents.contains(measured(t, pos + n, 0).0 as u64)),
    decreases t.len() - pos,
{
    let m = measured(t, pos, 0);
    if ended(t, pos + m.1) {
        assert(measured(t, pos + m.1, 0) == (0nat, 0nat));
    } else if m.0 == ind.width {
        match parse_statement(t, pos + m.1, ind) {
            Parsed::Done(node, n) => {
                if n > 0 && pos + m.1 + n <= t.len() {
                    lemma_block_end(t, pos + m.1 + n, ind);
                }
            },
            Parsed::Failed(_) => {},
        }
    }
}

/// Where a line that is not empty has the width of the block around a
/// nested block, the nested block ends before it without consuming it,
/// and the block around goes on with the statement of that line.
pub proof fn lemma_outer_block_resumes(t: Seq<Token>, pos: int, outer: Indent, inner: Indent)
    requires
        !ended(t, pos + measured(t, pos, 0).1),
        measured(t, pos, 0).0 == outer.width,
        inner.width != outer.width,
        inner.parents.contains(outer.width),
    ensures
        parse_block(t, pos, inner) == ParsedBlock::Done(Seq::empty(), 0),
        parse_line(t, pos, inner) == Parsed::Done(TypeView::Nil, 0),
        parse_line(t, pos, outer) == (match parse_statement(
            t,
            pos + measured(t, pos, 0).1,
            outer,
        ) {
            Parsed::Done(node, n) => Parsed::Done(node, measured(t, pos, 0).1 + n),
            Parsed::Failed(at) => Parsed::Failed(at),
        }),
{
}

/// Whether a tree, where it is a chain of comparisons, has as many
/// operators as operands after the first, and at least one.
pub open spec fn is_chain(v: TypeView) -> bool {
    v matches TypeView::Compare { ops, comparators, .. } ==> ops.len() == comparators.len()
        && ops.len() >= 1
}

/// Whether a tree, where it is a logical operation, has at least two
/// operands, the last of which is no operation with the same operator.
pub open spec fn is_flat(v: TypeView) -> bool {
    v matches TypeView::BoolOp { op, values } ==> values.len() >= 2 && !(values.last()
        matches TypeView::BoolOp { op: inner, .. } && inner == op)
}

/// Whether the result of an expression is in order: it is a node, for
/// which at least one token is consumed, within the tokens; a chain of
/// comparisons is one node with as many operators as operands after the
/// first; and a chain of one logical operator is one node, whose last
/// operand is not such a chain again.
pub open spec fn in_order(t: Seq<Token>, pos: int, p: Parsed) -> bool {
    p matches Parsed::Done(v, n) ==> n >= 1 && 0 <= pos && pos + n <= t.len() && is_chain(v)
        && is_flat(v) && !(v is Nil)
}

/// The result of a name or an assignment is in order.
pub proof fn lemma_assign_in_order(t: Seq<Token>, pos: int)
    ensures
        in_order(t, pos, parse_assign(t, pos)),
    decreases t.len() - pos, 0int,
{
    if kind_at(t, pos, TokenType::IDENTIFIER) && kind_at(t, pos + 1, TokenType::EQUAL) {
        lemma_bool_in_order(t, pos + 2);
    }
}

/// The result of a primary is in order.
pub proof fn lemma_primary_in_order(t: Seq<Token>, pos: int)
    ensures
        in_order(t, pos, parse_primary(t, pos)),
    decreases t.len() - pos, 1int,
{
    if kind_at(t, pos, TokenType::TRUE) || kind_at(t, pos, TokenType::FALSE) || kind_at(
        t,
        pos,
        TokenType::Break,
    ) || kind_at(t, pos, TokenType::Continue) || kind_at(t, pos, TokenType::STRING) || kind_at(
        t,
        pos,
        TokenType::NUMBER,
    ) {
    } else if kind_at(t, pos, TokenType::IDENTIFIER) {
        lemma_assign_in_order(t, pos);
    } else if kind_at(t, pos, TokenType::LeftParen) {
        lemma_bool_in_order(t, pos + 1);
    }
}

/// The result of a signed primary is in order.
pub proof fn lemma_unary_in_order(t: Seq<Token>, pos: int)
    ensures
        in_order(t, pos, parse_unary(t, pos)),
    decreases t.len() - pos, 2int,
{
    if kind_at(t, pos, TokenType::Minus) || kind_at(t, pos, TokenType::Plus) {
        lemma_unary_in_order(t, pos + 1);
    } else {
        lemma_primary_in_order(t, pos);
    }
}

/// The result of a product or a quotient is in order.
pub proof fn lemma_factor_in_order(t: Seq<Token>, pos: int)
    ensures
        in_order(t, pos, parse_factor(t, pos)),
    decreases t.len() - pos, 3int,
{
    lemma_unary_in_order(t, pos);
    match parse_unary(t, pos) {
        Parsed::Done(left, n) => {
            if kind_at(t, pos + n, TokenType::Star) || kind_at(t, pos + n, TokenType::Slash) {
                lemma_factor_in_order(t, pos + n + 1);
            }
        },
        Parsed::Failed(_) => {},
    }
}

/// The result of a sum or a difference is in order.
pub proof fn lemma_term_in_order(t: Seq<Token>, pos: int)
    ensures
        in_order(t, pos, parse_term(t, pos)),
    decreases t.len() - pos, 4int,
{
    lemma_factor_in_order(t, pos);
    match parse_factor(t, pos) {
        Parsed::Done(left, n) => {
            if kind_at(t, pos + n, TokenType::Minus) || kind_at(t, pos + n, TokenType::Plus) {
                lemma_term_in_order(t, pos + n + 1);
            }
        },
        Parsed::Failed(_) => {},
    }
}

/// The result of a comparison is in order: a chain of comparisons is one
/// node, with as many operators as operands after the first.
pub proof fn lemma_comparison_in_order(t: Seq<Token>, pos: int)
    ensures
        in_order(t, pos, parse_comparison(t, pos)),
    decreases t.len() - pos, 5int,
{
    lemma_term_in_order(t, pos);
    match parse_term(t, pos) {
        Parsed::Done(left, n) => {
            match comparison_at(t, pos + n) {
                Some((op, width)) => {
                    lemma_comparison_in_order(t, pos + n + width);
                },
                None => {},
            }
        },
        Parsed::Failed(_) => {},
    }
}

/// The result of a negated comparison is in order.
pub proof fn lemma_not_in_order(t: Seq<Token>, pos: int)
    ensures
        in_order(t, pos, parse_not(t, pos)),
    decreases t.len() - pos, 6int,
{
    if kind_at(t, pos, TokenType::NOT) {
        lemma_not_in_order(t, pos + 1);
    } else {
        lemma_comparison_in_order(t, pos);
    }
}

/// The result of an expression is in order: a chain of one logical
/// operator is one node, whose last operand is not such a chain again.
pub proof fn lemma_bool_in_order(t: Seq<Token>, pos: int)
    ensures
        in_order(t, pos, parse_bool(t, pos)),
    decreases t.len() - pos, 7int,
{
    lemma_not_in_order(t, pos);
    match parse_not(t, pos) {
        Parsed::Done(left, n) => {
            if kind_at(t, pos + n, TokenType::AND) || kind_at(t, pos + n, TokenType::OR) {
                lemma_bool_in_order(t, pos + n + 1);
            }
        },
        Parsed::Failed(_) => {},
    }
}

/// Whether the result of a statement is in order: it is a node, for
/// which at least one token is consumed, within the tokens.
pub open spec fn statement_in_order(t: Seq<Token>, pos: int, p: Parsed) -> bool {
    p matches Parsed::Done(v, n) ==> n >= 1 && pos + n <= t.len() && !(v is Nil)
}

/// Whether the result of a block stays within the tokens, and holds a
/// node for every statement: none of them stands for "no node".
pub open spec fn block_within(t: Seq<Token>, pos: int, p: ParsedBlock) -> bool {
    p matches ParsedBlock::Done(v, n) ==> pos + n <= t.len() && forall|i: int|
        0 <= i < v.len() ==> !((#[trigger] v[i]) is Nil)
}

/// Measuring indentation stays within the tokens.
pub proof fn lemma_measured_within(t: Seq<Token>, pos: int, width: nat)
    requires
        0 <= pos <= t.len(),
    ensures
        pos + measured(t, pos, width).1 <= t.len(),
    decreases t.len() - pos,
{
    if kind_at(t, pos, TokenType::LineBreak) {
        lemma_measured_within(t, pos + 1, 0);
    } else if kind_at(t, pos, TokenType::SPACE) {
        lemma_measured_within(t, pos + 1, width + 1);
    } else if kind_at(t, pos, TokenType::TAB) {
        lemma_measured_within(t, pos + 1, width + 4);
    }
}

/// A statement consumes at least one token and stays within the tokens.
pub proof fn lemma_statement_in_order(t: Seq<Token>, pos: int, ind: Indent)
    requires
        0 <= pos <= t.len(),
    ensures
        statement_in_order(t, pos, parse_statement(t, pos, ind)),
    decreases t.len() - pos, 1int,
{
    if kind_at(t, pos, TokenType::PRINT) {
        lemma_bool_in_order(t, pos + 1);
    } else if kind_at(t, pos, TokenType::IF) {
        lemma_if_within(t, pos + 1, ind);
    } else if kind_at(t, pos, TokenType::WHILE) {
        lemma_while_within(t, pos + 1, ind);
    } else {
        lemma_bool_in_order(t, pos);
    }
}

/// A block stays within the tokens and holds no placeholder.
pub proof fn lemma_block_within(t: Seq<Token>, pos: int, ind: Indent)
    requires
        0 <= pos <= t.len(),
    ensures
        block_within(t, pos, parse_block(t, pos, ind)),
    decreases t.len() - pos, 2int,
{
    let m = measured(t, pos, 0);
    lemma_measured_within(t, pos, 0);
    if !ended(t, pos + m.1) && m.0 == ind.width {
        lemma_statement_in_order(t, pos + m.1, ind);
        match parse_statement(t, pos + m.1, ind) {
            Parsed::Done(node, n) => {
                lemma_block_within(t, pos + m.1 + n, ind);
            },
            Parsed::Failed(_) => {},
        }
    }
}

/// A nested block stays within the tokens.
pub proof fn lemma_sub_type_within(t: Seq<Token>, pos: int, ind: Indent)
    requires
        0 <= pos <= t.len(),
    ensures
        block_within(t, pos, parse_sub_type(t, pos, ind)),
    decreases t.len() - pos, 3int,
{
    let m = measured(t, pos, 0);
    if !(m.0 <= ind.width || m.0 > u64::MAX) {
        lemma_block_within(
            t,
            pos,
            Indent { width: m.0 as u64, parents: ind.parents.push(ind.width) },
        );
    }
}

/// The body of a clause stays within the tokens.
pub proof fn lemma_body_within(t: Seq<Token>, pos: int, ind: Indent)
    requires
        0 <= pos <= t.len(),
    ensures
        block_within(t, pos, parse_body(t, pos, ind)),
    decreases t.len() - pos, 4int,
{
    if kind_at(t, pos, TokenType::LineBreak) {
        lemma_sub_type_within(t, pos + 1, ind);
    } else {
        lemma_statement_in_order(t, pos, ind);
    }
}

/// An `else` clause stays within the tokens.
pub proof fn lemma_else_within(t: Seq<Token>, pos: int, ind: Indent)
    requires
        0 <= pos <= t.len(),
    ensures
        block_within(t, pos, parse_else(t, pos, ind)),
    decreases t.len() - pos, 5int,
{
    if kind_at(t, pos, TokenType::ELSE) && kind_at(t, pos + 1, TokenType::COLON) {
        lemma_body_within(t, pos + 2, ind);
    }
}

/// What follows a block stays within the tokens.
pub proof fn lemma_tail_within(t: Seq<Token>, pos: int, ind: Indent, with_elif: bool)
    requires
        0 <= pos <= t.len(),
    ensures
        block_within(t, pos, parse_tail(t, pos, ind, with_elif)),
    decreases t.len() - pos, 6int,
{
    let m = measured(t, pos, 0);
    lemma_measured_within(t, pos, 0);
    if m.0 == ind.width {
        if with_elif && kind_at(t, pos + m.1, TokenType::ELIF) {
            lemma_if_within(t, pos + m.1 + 1, ind);
        } else {
            lemma_else_within(t, pos + m.1, ind);
        }
    }
}

/// An `if` statement stays within the tokens.
pub proof fn lemma_if_within(t: Seq<Token>, pos: int, ind: Indent)
    requires
        0 <= pos <= t.len(),
    ensures
        parse_if(t, pos, ind) matches Parsed::Done(v, n) ==> pos + n <= t.len() && !(v is Nil),
    decreases t.len() - pos, 7int,
{
    lemma_bool_in_order(t, pos);
    match parse_bool(t, pos) {
        Parsed::Done(test, n) => {
            if kind_at(t, pos + n, TokenType::COLON) {
                lemma_body_within(t, pos + n + 1, ind);
                match parse_body(t, pos + n + 1, ind) {
                    ParsedBlock::Done(body, b) => {
                        lemma_tail_within(t, pos + n + 1 + b, ind, true);
                    },
                    ParsedBlock::Failed(_) => {},
                }
            }
        },
        Parsed::Failed(_) => {},
    }
}

/// A `while` statement stays within the tokens.
pub proof fn lemma_while_within(t: Seq<Token>, pos: int, ind: Indent)
    requires
        0 <= pos <= t.len(),
    ensures
        parse_while(t, pos, ind) matches Parsed::Done(v, n) ==> pos + n <= t.len() && !(v
            is Nil),
    decreases t.len() - pos, 7int,
{
    lemma_bool_in_order(t, pos);
    match parse_bool(t, pos) {
        Parsed::Done(test, n) => {
            if kind_at(t, pos + n, TokenType::COLON) {
                lemma_body_within(t, pos + n + 1, ind);
                match parse_body(t, pos + n + 1, ind) {
                    ParsedBlock::Done(body, b) => {
                        lemma_tail_within(t, pos + n + 1 + b, ind, false);
                    },
                    ParsedBlock::Failed(_) => {},
                }
            }
        },
        Parsed::Failed(_) => {},
    }
}

} // verus!
