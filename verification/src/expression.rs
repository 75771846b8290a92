//! The parser of expressions: one method for each level of the grammar.

use vstd::prelude::*;
use vstd::string::*;
use crate::ast_struct::{
    views_of, Assign, BinOp, BoolOp, Compare, Constant, Name, Operator, PyCtx, Type, TypeView,
    UnaryOp,
};
use crate::core_type::{obj_bool, obj_float, obj_int, obj_str};
use crate::error::ErrorType;
use crate::grammar::{
    comparison_at, joined, parse_assign, parse_bool, parse_comparison, parse_factor, parse_not,
    parse_primary, parse_term, parse_unary,
};
use crate::parser::{parsed_as, Parser};
use crate::scanner::{Literal, Token, TokenType};
use crate::token_iter::{first_match, kind_at, kinds_at};

verus! {

/// The values of a list with one more node at its end.
pub proof fn lemma_views_push(nodes: Seq<Type>, node: Type)
    ensures
        views_of(nodes.push(node)) == views_of(nodes).push(node@),
{
    assert(views_of(nodes.push(node)) =~= views_of(nodes).push(node@));
}

/// The values of two lists, one after the other.
pub proof fn lemma_views_concat(a: Seq<Type>, b: Seq<Type>)
    ensures
        views_of(a + b) == views_of(a) + views_of(b),
{
    assert(views_of(a + b) =~= views_of(a) + views_of(b));
}

/// The tokens from a position on are of two given kinds exactly where
/// the token there is of the first and the next one of the second.
proof fn lemma_two_kinds(t: Seq<Token>, pos: int, kinds: Seq<TokenType>)
    requires
        kinds.len() == 2,
    ensures
        kinds_at(t, pos, kinds) == (kind_at(t, pos, kinds[0]) && kind_at(t, pos + 1, kinds[1])),
{
    if kinds_at(t, pos, kinds) {
        assert(kind_at(t, pos + 0, kinds[0]));
        assert(kind_at(t, pos + 1, kinds[1]));
    }
}

impl Parser {
    /// Parses a name or an assignment, as [`parse_assign`] says.
    pub fn assign_statement(&mut self) -> (r: Result<Type, ErrorType>)
        requires
            old(self).token_iter.wf(),
        ensures
            parsed_as(
                *old(self),
                *final(self),
                r,
                parse_assign(old(self).stream(), old(self).token_iter.current as int),
            ),
        decreases old(self).stream().len() - old(self).token_iter.current, 0int,
    {
        if !self.token_iter.catch_kind(TokenType::IDENTIFIER) {
            return Err(self.token_iter.error_here());
        }
        let token = self.token_iter.previous(1);
        let id = match token.literal {
            Literal::Identifier(x) => x,
            _ => {
                let _ = self.token_iter.back(1);
                return Err(self.token_iter.error_here());
            },
        };
        if self.token_iter.catch_kind(TokenType::EQUAL) {
            let right = match self.expression() {
                Ok(x) => x,
                Err(e) => {
                    return Err(e);
                },
            };
            match self.token_iter.consume(TokenType::LineBreak, String::new()) {
                Ok(_) => {},
                Err(e) => {
                    return Err(e);
                },
            }
            let ghost name = id@;
            let target = Type::Name(Name { id, ctx: PyCtx::Store });
            assert(target@ == TypeView::Name(name, PyCtx::Store));
            let node = Type::Assign(
                Box::new(
                    Assign {
                        target: Box::new(target),
                        value: Box::new(right),
                        type_comment: String::new(),
                    },
                ),
            );
            assert(node@ == TypeView::Assign {
                target: Box::new(TypeView::Name(name, PyCtx::Store)),
                value: Box::new(right@),
                type_comment: Seq::empty(),
            });
            Ok(node)
        } else {
            Ok(Type::Name(Name { id, ctx: PyCtx::Load }))
        }
    }

    /// Parses a primary, as [`parse_primary`] says.
    pub fn primary(&mut self) -> (r: Result<Type, ErrorType>)
        requires
            old(self).token_iter.wf(),
        ensures
            parsed_as(
                *old(self),
                *final(self),
                r,
                parse_primary(old(self).stream(), old(self).token_iter.current as int),
            ),
        decreases old(self).stream().len() - old(self).token_iter.current, 1int,
    {
        if self.token_iter.catch_kind(TokenType::TRUE) {
            return Ok(Type::Constant(Constant::new(obj_bool(true))));
        }
        if self.token_iter.catch_kind(TokenType::FALSE) {
            return Ok(Type::Constant(Constant::new(obj_bool(false))));
        }
        if self.token_iter.catch_kind(TokenType::Break) {
            return Ok(Type::Break);
        }
        if self.token_iter.catch_kind(TokenType::Continue) {
            return Ok(Type::Continue);
        }
        if self.token_iter.catch_kind(TokenType::STRING) || self.token_iter.catch_kind(
            TokenType::NUMBER,
        ) {
            let token = self.token_iter.previous(1);
            let value = match token.literal {
                Literal::Str(s) => obj_str(s),
                Literal::Float(f) => obj_float(f),
                Literal::Int(i) => obj_int(i),
                _ => obj_int(0),
            };
            return Ok(Type::Constant(Constant::new(value)));
        }
        if self.token_iter.check(TokenType::IDENTIFIER) {
            return self.assign_statement();
        }
        if self.token_iter.catch_kind(TokenType::LeftParen) {
            let expr = match self.expression() {
                Ok(x) => x,
                Err(e) => {
                    return Err(e);
                },
            };
            return match self.token_iter.consume(TokenType::RightParen, String::new()) {
                Ok(_) => Ok(expr),
                Err(e) => Err(e),
            };
        }
        Err(self.token_iter.error_here())
    }

    /// Parses a signed primary, as [`parse_unary`] says.
    pub fn unary(&mut self) -> (r: Result<Type, ErrorType>)
        requires
            old(self).token_iter.wf(),
        ensures
            parsed_as(
                *old(self),
                *final(self),
                r,
                parse_unary(old(self).stream(), old(self).token_iter.current as int),
            ),
        decreases old(self).stream().len() - old(self).token_iter.current, 2int,
    {
        let plus = self.token_iter.check(TokenType::Plus);
        if self.token_iter.catch_kind(TokenType::Minus) || self.token_iter.catch_kind(
            TokenType::Plus,
        ) {
            let token = if plus {
                Operator::UAdd
            } else {
                Operator::USub
            };
            return match self.unary() {
                Ok(operand) => Ok(Type::UnaryOp(UnaryOp { op: token, operand: Box::new(operand) })),
                Err(e) => Err(e),
            };
        }
        self.primary()
    }

    /// Parses a product or a quotient, as [`parse_factor`] says.
    pub fn factor(&mut self) -> (r: Result<Type, ErrorType>)
        requires
            old(self).token_iter.wf(),
        ensures
            parsed_as(
                *old(self),
                *final(self),
                r,
                parse_factor(old(self).stream(), old(self).token_iter.current as int),
            ),
        decreases old(self).stream().len() - old(self).token_iter.current, 3int,
    {
        let expr = match self.unary() {
            Ok(x) => x,
            Err(e) => {
                return Err(e);
            },
        };
        let star = self.token_iter.check(TokenType::Star);
        if self.token_iter.catch_kind(TokenType::Star) || self.token_iter.catch_kind(
            TokenType::Slash,
        ) {
            let token = if star {
                Operator::Mult
            } else {
                Operator::Div
            };
            return match self.factor() {
                Ok(right) => Ok(
                    Type::BinOp(BinOp { left: Box::new(expr), op: token, right: Box::new(right) }),
                ),
                Err(e) => Err(e),
            };
        }
        Ok(expr)
    }

    /// Parses a sum or a difference, as [`parse_term`] says.
    pub fn term(&mut self) -> (r: Result<Type, ErrorType>)
        requires
            old(self).token_iter.wf(),
        ensures
            parsed_as(
                *old(self),
                *final(self),
                r,
                parse_term(old(self).stream(), old(self).token_iter.current as int),
            ),
        decreases old(self).stream().len() - old(self).token_iter.current, 4int,
    {
        let expr = match self.factor() {
            Ok(x) => x,
            Err(e) => {
                return Err(e);
            },
        };
        let minus = self.token_iter.check(TokenType::Minus);
        if self.token_iter.catch_kind(TokenType::Minus) || self.token_iter.catch_kind(
            TokenType::Plus,
        ) {
            let token = if minus {
                Operator::Sub
            } else {
                Operator::Add
            };
            return match self.term() {
                Ok(right) => Ok(
                    Type::BinOp(BinOp { left: Box::new(expr), op: token, right: Box::new(right) }),
                ),
                Err(e) => Err(e),
            };
        }
        Ok(expr)
    }

    /// Consumes the operator of a comparison, where one stands at the
    /// cursor, and gives it.
    fn comparison_operator(&mut self) -> (r: Option<Operator>)
        requires
            old(self).token_iter.wf(),
        ensures
            final(self).token_iter.wf(),
            *final(self) == (Parser { token_iter: final(self).token_iter, ..*old(self) }),
            final(self).token_iter.vec_token == old(self).token_iter.vec_token,
            match comparison_at(old(self).stream(), old(self).token_iter.current as int) {
                Some((op, width)) => r == Some(op) && final(self).token_iter.current == old(
                    self,
                ).token_iter.current + width,
                None => r is None && final(self).token_iter.current == old(
                    self,
                ).token_iter.current,
            },
    {
        if self.token_iter.catch_kind(TokenType::BangEqual) {
            return Some(Operator::NotEq);
        }
        if self.token_iter.catch_kind(TokenType::EqualEqual) {
            return Some(Operator::Eq);
        }
        if self.token_iter.catch_kind(TokenType::GreaterEqual) {
            return Some(Operator::GtE);
        }
        if self.token_iter.catch_kind(TokenType::LessEqual) {
            return Some(Operator::LtE);
        }
        if self.token_iter.catch_kind(TokenType::LESS) {
            return Some(Operator::Lt);
        }
        if self.token_iter.catch_kind(TokenType::GREATER) {
            return Some(Operator::Gt);
        }
        let mut words: Vec<Vec<TokenType>> = Vec::new();
        let mut not_in: Vec<TokenType> = Vec::new();
        not_in.push(TokenType::NOT);
        not_in.push(TokenType::In);
        let mut is_not: Vec<TokenType> = Vec::new();
        is_not.push(TokenType::Is);
        is_not.push(TokenType::NOT);
        words.push(not_in);
        words.push(is_not);
        proof {
            let t = self.stream();
            let pos = self.token_iter.current as int;
            lemma_two_kinds(t, pos, words@[0]@);
            lemma_two_kinds(t, pos, words@[1]@);
            assert(first_match(t, pos, words@, 2) is None);
            assert(first_match(t, pos, words@, 1) == if kinds_at(t, pos, words@[1]@) {
                Some(1int)
            } else {
                None
            });
        }
        if self.token_iter.catch_multi(&words) {
            let last = self.token_iter.previous(1);
            match last.token_type {
                TokenType::In => Some(Operator::NotIn),
                _ => Some(Operator::IsNot),
            }
        } else {
            None
        }
    }

    /// Parses a comparison or a chain of comparisons, as
    /// [`parse_comparison`] says: the chain becomes one node.
    pub fn comparison(&mut self) -> (r: Result<Type, ErrorType>)
        requires
            old(self).token_iter.wf(),
        ensures
            parsed_as(
                *old(self),
                *final(self),
                r,
                parse_comparison(old(self).stream(), old(self).token_iter.current as int),
            ),
        decreases old(self).stream().len() - old(self).token_iter.current, 5int,
    {
        let expr = match self.term() {
            Ok(x) => x,
            Err(e) => {
                return Err(e);
            },
        };
        let token = match self.comparison_operator() {
            Some(op) => op,
            None => {
                return Ok(expr);
            },
        };
        let comparator = match self.comparison() {
            Ok(x) => x,
            Err(e) => {
                return Err(e);
            },
        };
        let ghost left = expr@;
        let ghost right = comparator@;
        let mut comparators: Vec<Type> = Vec::new();
        let mut ops: Vec<Operator> = Vec::new();
        ops.push(token);
        match comparator {
            Type::Compare(compare) => {
                let mut more = compare.comparators;
                let mut more_ops = compare.ops;
                proof {
                    lemma_views_concat(seq![*compare.left], more@);
                    assert(views_of(seq![*compare.left]) =~= seq![compare.left@]);
                }
                comparators.push(*compare.left);
                comparators.append(&mut more);
                ops.append(&mut more_ops);
                assert(comparators@ =~= seq![*compare.left] + compare.comparators@);
                assert(ops@ =~= seq![token] + compare.ops@);
            },
            other => {
                comparators.push(other);
                assert(views_of(comparators@) =~= seq![right]);
                assert(ops@ =~= seq![token]);
            },
        }
        Ok(Type::Compare(Compare { left: Box::new(expr), ops, comparators }))
    }

    /// Parses a negated comparison, as [`parse_not`] says.
    pub fn not_operate(&mut self) -> (r: Result<Type, ErrorType>)
        requires
            old(self).token_iter.wf(),
        ensures
            parsed_as(
                *old(self),
                *final(self),
                r,
                parse_not(old(self).stream(), old(self).token_iter.current as int),
            ),
        decreases old(self).stream().len() - old(self).token_iter.current, 6int,
    {
        if self.token_iter.catch_kind(TokenType::NOT) {
            return match self.not_operate() {
                Ok(operand) => Ok(
                    Type::UnaryOp(UnaryOp { op: Operator::Not, operand: Box::new(operand) }),
                ),
                Err(e) => Err(e),
            };
        }
        self.comparison()
    }

    /// Parses operands joined by `and` and `or`, as [`parse_bool`] says: a
    /// chain of one and the same operator becomes one node.
    pub fn bool_operate(&mut self) -> (r: Result<Type, ErrorType>)
        requires
            old(self).token_iter.wf(),
        ensures
            parsed_as(
                *old(self),
                *final(self),
                r,
                parse_bool(old(self).stream(), old(self).token_iter.current as int),
            ),
        decreases old(self).stream().len() - old(self).token_iter.current, 7int,
    {
        let expr = match self.not_operate() {
            Ok(x) => x,
            Err(e) => {
                return Err(e);
            },
        };
        let and = self.token_iter.check(TokenType::AND);
        if !(self.token_iter.catch_kind(TokenType::AND) || self.token_iter.catch_kind(TokenType::OR)) {
            return Ok(expr);
        }
        let operator = if and {
            Operator::And
        } else {
            Operator::Or
        };
        let value = match self.bool_operate() {
            Ok(x) => x,
            Err(e) => {
                return Err(e);
            },
        };
        let ghost left = expr@;
        let ghost right = value@;
        let mut values: Vec<Type> = Vec::new();
        values.push(expr);
        match value {
            Type::BoolOp(inner) => {
                if inner.op == operator {
                    let mut more = inner.values;
                    proof {
                        lemma_views_concat(values@, more@);
                        assert(views_of(values@) =~= seq![left]);
                    }
                    values.append(&mut more);
                } else {
                    proof {
                        lemma_views_push(values@, Type::BoolOp(inner));
                        assert(views_of(values@) =~= seq![left]);
                    }
                    values.push(Type::BoolOp(inner));
                    assert(views_of(values@) =~= seq![left, right]);
                }
            },
            other => {
                values.push(other);
                assert(views_of(values@) =~= seq![left, right]);
            },
        }
        Ok(Type::BoolOp(BoolOp { op: operator, values }))
    }

    /// Parses an expression.
    pub fn expression(&mut self) -> (r: Result<Type, ErrorType>)
        requires
            old(self).token_iter.wf(),
        ensures
            parsed_as(
                *old(self),
                *final(self),
                r,
                parse_bool(old(self).stream(), old(self).token_iter.current as int),
            ),
        decreases old(self).stream().len() - old(self).token_iter.current, 8int,
    {
        self.bool_operate()
    }
}

} // verus!
