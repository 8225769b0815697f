//! The parser: recursive descent over the token sequence, guided by an
//! explicit operator-precedence grammar, producing one abstract syntax tree
//! per statement.
//!
//! Grammar, in descending precedence (each level parses its operands at the
//! next level):
//!
//! ```text
//! program    = stmt*
//! stmt       = expr ";"
//! expr       = assign
//! assign     = equality ( "=" assign )?              // right-associative
//! equality   = relational ( ("==" | "!=") relational )*
//! relational = add ( ("<" | "<=" | ">" | ">=") add )*
//! add        = mul ( ("+" | "-") mul )*
//! mul        = unary ( ("*" | "/") unary )*
//! unary      = ("+" | "-")? unary | primary
//! primary    = "(" expr ")" | ident | num
//! ```
//!
//! The left-associative levels fold iteratively into left-leaning trees.
//! `>` and `>=` are not node kinds of their own: `x > y` parses as `y < x`
//! (a `Lt` node with swapped operands), and likewise `x >= y` as `Le`.
//! Unary minus desugars to `0 - x`; unary plus is a no-op.  A one-letter
//! identifier maps to the fixed slot offset `(letter index, 1-based) * 8`.
//! The first syntax error aborts the whole parse.

use crate::lexer::{
    eof_token, ident_token, is_ident_text, is_lower_char, num_token, reserved_token, toks_view,
    token_seq_wf, Token, TokenKind, TokenModel,
};
use vstd::prelude::*;

verus! {

broadcast use vstd::std_specs::vec::axiom_spec_len;

#[derive(Debug, PartialEq, Eq, Structural, Clone, Copy)]
pub enum NodeKind {
    Add,
    Sub,
    Mul,
    Div,
    Num,
    Eq,
    Ne,
    Lt,
    Le,
    Assign,
    Lvar,
}

/// One syntactic construct.  Binary kinds own both children; `Num` holds a
/// literal value; `Lvar` holds a slot offset.
#[derive(Debug, PartialEq)]
pub struct Node {
    pub kind: NodeKind,
    pub lhs: Option<Box<Node>>,
    pub rhs: Option<Box<Node>>,
    pub val: Option<i32>,
    pub offset: Option<u32>,
}

/// A variable slot offset: a 1-based letter index times 8, so `a` is 8 and
/// `z` is 208.
pub open spec fn valid_offset(off: u32) -> bool {
    8 <= off <= 208 && off % 8 == 0
}

/// Shape invariant of a node: exactly one of literal value, slot offset, or
/// both children is present, as its kind demands.
pub open spec fn node_wf(n: Node) -> bool
    decreases n,
{
    match n.kind {
        NodeKind::Num => n.lhs is None && n.rhs is None && n.val is Some && n.offset is None,
        NodeKind::Lvar => n.lhs is None && n.rhs is None && n.val is None && match n.offset {
            Some(off) => valid_offset(off),
            None => false,
        },
        _ => {
            &&& n.val is None
            &&& n.offset is None
            &&& match n.lhs {
                Some(l) => node_wf(*l),
                None => false,
            }
            &&& match n.rhs {
                Some(r) => node_wf(*r),
                None => false,
            }
        },
    }
}

pub open spec fn num_node(v: i32) -> Node {
    Node { kind: NodeKind::Num, lhs: None, rhs: None, val: Some(v), offset: None }
}

pub open spec fn lvar_node(off: u32) -> Node {
    Node { kind: NodeKind::Lvar, lhs: None, rhs: None, val: None, offset: Some(off) }
}

pub open spec fn bin_node(k: NodeKind, l: Node, r: Node) -> Node {
    Node { kind: k, lhs: Some(Box::new(l)), rhs: Some(Box::new(r)), val: None, offset: None }
}

/// The fixed storage slot of a one-letter identifier.
pub open spec fn ident_offset(text: Seq<char>) -> u32 {
    (((text[0] as int) - ('a' as int) + 1) * 8) as u32
}

/// The parse error taxonomy, over mathematical text.
pub enum ParseErrorModel {
    /// A required punctuation token is missing; holds the expected text.
    Expected(Seq<char>),
    /// A numeric literal was required but not found.
    ExpectedNumber,
}

/// The parse error taxonomy.
#[derive(Debug, PartialEq, Eq, Clone)]
pub enum ParseError {
    /// A required punctuation token is missing; holds the expected text.
    Expected(String),
    /// A numeric literal was required but not found.
    ExpectedNumber,
}

impl View for ParseError {
    type V = ParseErrorModel;

    open spec fn view(&self) -> ParseErrorModel {
        match self {
            ParseError::Expected(t) => ParseErrorModel::Expected(t@),
            ParseError::ExpectedNumber => ParseErrorModel::ExpectedNumber,
        }
    }
}

/// One step of the mathematical parser: a node and the position after it, or
/// an error.
pub type ParseStep = Result<(Node, int), ParseErrorModel>;

/// Whether token `t` is the reserved token with the given text.
pub open spec fn is_res(t: TokenModel, text: Seq<char>) -> bool {
    t.kind == TokenKind::Reserved && t.text == text
}

// The mathematical parser below mirrors the grammar one spec function per
// precedence level, each returning the parsed node and the position after
// it.  Termination is by the pair (tokens left, grammar level); the guards
// `pos < p < ts.len() + 1` on continuation positions make the lexicographic
// measure evident.  Sub-parsers always advance on success (every successful
// `spec_primary` consumes at least one token), so the guards' `Err` arms are
// never reached on the positions the executable parser supplies.
pub open spec fn spec_primary(ts: Seq<TokenModel>, pos: int) -> ParseStep
    decreases ts.len() - pos, 1int
    when 0 <= pos
{
    if pos < ts.len() && is_res(ts[pos], seq!['(']) {
        match spec_expr(ts, pos + 1) {
            Ok((n, p2)) => if p2 < ts.len() && is_res(ts[p2], seq![')']) {
                Ok((n, p2 + 1))
            } else {
                Err(ParseErrorModel::Expected(seq![')']))
            },
            Err(e) => Err(e),
        }
    } else if pos < ts.len() && ts[pos].kind == TokenKind::Ident {
        Ok((lvar_node(ident_offset(ts[pos].text)), pos + 1))
    } else if pos < ts.len() && ts[pos].kind == TokenKind::Num {
        match ts[pos].val {
            Some(v) => Ok((num_node(v), pos + 1)),
            None => Err(ParseErrorModel::ExpectedNumber),
        }
    } else {
        Err(ParseErrorModel::ExpectedNumber)
    }
}

pub open spec fn spec_unary(ts: Seq<TokenModel>, pos: int) -> ParseStep
    decreases ts.len() - pos, 2int
    when 0 <= pos
{
    if pos < ts.len() && is_res(ts[pos], seq!['+']) {
        spec_unary(ts, pos + 1)
    } else if pos < ts.len() && is_res(ts[pos], seq!['-']) {
        match spec_unary(ts, pos + 1) {
            Ok((n, p2)) => Ok((bin_node(NodeKind::Sub, num_node(0), n), p2)),
            Err(e) => Err(e),
        }
    } else {
        spec_primary(ts, pos)
    }
}

pub open spec fn spec_mul(ts: Seq<TokenModel>, pos: int) -> ParseStep
    decreases ts.len() - pos, 3int
    when 0 <= pos
{
    match spec_unary(ts, pos) {
        Ok((n, p2)) => if pos < p2 <= ts.len() {
            spec_mul_tail(ts, p2, n)
        } else {
            Err(ParseErrorModel::ExpectedNumber)
        },
        Err(e) => Err(e),
    }
}

pub open spec fn spec_mul_tail(ts: Seq<TokenModel>, pos: int, acc: Node) -> ParseStep
    decreases ts.len() - pos, 0int
    when 0 <= pos
{
    if pos < ts.len() && is_res(ts[pos], seq!['*']) {
        match spec_unary(ts, pos + 1) {
            Ok((n, p2)) => if pos < p2 <= ts.len() {
                spec_mul_tail(ts, p2, bin_node(NodeKind::Mul, acc, n))
            } else {
                Err(ParseErrorModel::ExpectedNumber)
            },
            Err(e) => Err(e),
        }
    } else if pos < ts.len() && is_res(ts[pos], seq!['/']) {
        match spec_unary(ts, pos + 1) {
            Ok((n, p2)) => if pos < p2 <= ts.len() {
                spec_mul_tail(ts, p2, bin_node(NodeKind::Div, acc, n))
            } else {
                Err(ParseErrorModel::ExpectedNumber)
            },
            Err(e) => Err(e),
        }
    } else {
        Ok((acc, pos))
    }
}

pub open spec fn spec_add(ts: Seq<TokenModel>, pos: int) -> ParseStep
    decreases ts.len() - pos, 4int
    when 0 <= pos
{
    match spec_mul(ts, pos) {
        Ok((n, p2)) => if pos < p2 <= ts.len() {
            spec_add_tail(ts, p2, n)
        } else {
            Err(ParseErrorModel::ExpectedNumber)
        },
        Err(e) => Err(e),
    }
}

pub open spec fn spec_add_tail(ts: Seq<TokenModel>, pos: int, acc: Node) -> ParseStep
    decreases ts.len() - pos, 0int
    when 0 <= pos
{
    if pos < ts.len() && is_res(ts[pos], seq!['+']) {
        match spec_mul(ts, pos + 1) {
            Ok((n, p2)) => if pos < p2 <= ts.len() {
                spec_add_tail(ts, p2, bin_node(NodeKind::Add, acc, n))
            } else {
                Err(ParseErrorModel::ExpectedNumber)
            },
            Err(e) => Err(e),
        }
    } else if pos < ts.len() && is_res(ts[pos], seq!['-']) {
        match spec_mul(ts, pos + 1) {
            Ok((n, p2)) => if pos < p2 <= ts.len() {
                spec_add_tail(ts, p2, bin_node(NodeKind::Sub, acc, n))
            } else {
                Err(ParseErrorModel::ExpectedNumber)
            },
            Err(e) => Err(e),
        }
    } else {
        Ok((acc, pos))
    }
}

pub open spec fn spec_relational(ts: Seq<TokenModel>, pos: int) -> ParseStep
    decreases ts.len() - pos, 5int
    when 0 <= pos
{
    match spec_add(ts, pos) {
        Ok((n, p2)) => if pos < p2 <= ts.len() {
            spec_relational_tail(ts, p2, n)
        } else {
            Err(ParseErrorModel::ExpectedNumber)
        },
        Err(e) => Err(e),
    }
}

/// The comparison level canonicalizes as it folds: `acc > rhs` becomes
/// `Lt(rhs, acc)` and `acc >= rhs` becomes `Le(rhs, acc)`, so only `Lt` and
/// `Le` nodes exist.
pub open spec fn spec_relational_tail(ts: Seq<TokenModel>, pos: int, acc: Node) -> ParseStep
    decreases ts.len() - pos, 0int
    when 0 <= pos
{
    if pos < ts.len() && is_res(ts[pos], seq!['<']) {
        match spec_add(ts, pos + 1) {
            Ok((n, p2)) => if pos < p2 <= ts.len() {
                spec_relational_tail(ts, p2, bin_node(NodeKind::Lt, acc, n))
            } else {
                Err(ParseErrorModel::ExpectedNumber)
            },
            Err(e) => Err(e),
        }
    } else if pos < ts.len() && is_res(ts[pos], seq!['<', '=']) {
        match spec_add(ts, pos + 1) {
            Ok((n, p2)) => if pos < p2 <= ts.len() {
                spec_relational_tail(ts, p2, bin_node(NodeKind::Le, acc, n))
            } else {
                Err(ParseErrorModel::ExpectedNumber)
            },
            Err(e) => Err(e),
        }
    } else if pos < ts.len() && is_res(ts[pos], seq!['>']) {
        match spec_add(ts, pos + 1) {
            Ok((n, p2)) => if pos < p2 <= ts.len() {
                spec_relational_tail(ts, p2, bin_node(NodeKind::Lt, n, acc))
            } else {
                Err(ParseErrorModel::ExpectedNumber)
            },
            Err(e) => Err(e),
        }
    } else if pos < ts.len() && is_res(ts[pos], seq!['>', '=']) {
        match spec_add(ts, pos + 1) {
            Ok((n, p2)) => if pos < p2 <= ts.len() {
                spec_relational_tail(ts, p2, bin_node(NodeKind::Le, n, acc))
            } else {
                Err(ParseErrorModel::ExpectedNumber)
            },
            Err(e) => Err(e),
        }
    } else {
        Ok((acc, pos))
    }
}

pub open spec fn spec_equality(ts: Seq<TokenModel>, pos: int) -> ParseStep
    decreases ts.len() - pos, 6int
    when 0 <= pos
{
    match spec_relational(ts, pos) {
        Ok((n, p2)) => if pos < p2 <= ts.len() {
            spec_equality_tail(ts, p2, n)
        } else {
            Err(ParseErrorModel::ExpectedNumber)
        },
        Err(e) => Err(e),
    }
}

pub open spec fn spec_equality_tail(ts: Seq<TokenModel>, pos: int, acc: Node) -> ParseStep
    decreases ts.len() - pos, 0int
    when 0 <= pos
{
    if pos < ts.len() && is_res(ts[pos], seq!['=', '=']) {
        match spec_relational(ts, pos + 1) {
            Ok((n, p2)) => if pos < p2 <= ts.len() {
                spec_equality_tail(ts, p2, bin_node(NodeKind::Eq, acc, n))
            } else {
                Err(ParseErrorModel::ExpectedNumber)
            },
            Err(e) => Err(e),
        }
    } else if pos < ts.len() && is_res(ts[pos], seq!['!', '=']) {
        match spec_relational(ts, pos + 1) {
            Ok((n, p2)) => if pos < p2 <= ts.len() {
                spec_equality_tail(ts, p2, bin_node(NodeKind::Ne, acc, n))
            } else {
                Err(ParseErrorModel::ExpectedNumber)
            },
            Err(e) => Err(e),
        }
    } else {
        Ok((acc, pos))
    }
}

/// Assignment is right-associative: `a = b = 1` parses as `a = (b = 1)`.
pub open spec fn spec_assign(ts: Seq<TokenModel>, pos: int) -> ParseStep
    decreases ts.len() - pos, 7int
    when 0 <= pos
{
    match spec_equality(ts, pos) {
        Ok((n, p2)) => if pos < p2 <= ts.len() {
            if p2 < ts.len() && is_res(ts[p2], seq!['=']) {
                match spec_assign(ts, p2 + 1) {
                    Ok((r, p3)) => Ok((bin_node(NodeKind::Assign, n, r), p3)),
                    Err(e) => Err(e),
                }
            } else {
                Ok((n, p2))
            }
        } else {
            Err(ParseErrorModel::ExpectedNumber)
        },
        Err(e) => Err(e),
    }
}

pub open spec fn spec_expr(ts: Seq<TokenModel>, pos: int) -> ParseStep
    decreases ts.len() - pos, 8int
    when 0 <= pos
{
    spec_assign(ts, pos)
}

pub open spec fn spec_stmt(ts: Seq<TokenModel>, pos: int) -> ParseStep
    decreases ts.len() - pos, 9int
    when 0 <= pos
{
    match spec_expr(ts, pos) {
        Ok((n, p2)) => if p2 < ts.len() && is_res(ts[p2], seq![';']) {
            Ok((n, p2 + 1))
        } else {
            Err(ParseErrorModel::Expected(seq![';']))
        },
        Err(e) => Err(e),
    }
}

/// The statements of the whole program, ending at the `EOF` token.
pub open spec fn spec_program(ts: Seq<TokenModel>, pos: int) -> Result<Seq<Node>, ParseErrorModel>
    decreases ts.len() - pos, 10int
    when 0 <= pos
{
    if pos < ts.len() && ts[pos].kind == TokenKind::EOF {
        Ok(Seq::empty())
    } else {
        match spec_stmt(ts, pos) {
            Ok((n, p2)) => if pos < p2 <= ts.len() {
                match spec_program(ts, p2) {
                    Ok(nodes) => Ok(seq![n] + nodes),
                    Err(e) => Err(e),
                }
            } else {
                Err(ParseErrorModel::ExpectedNumber)
            },
            Err(e) => Err(e),
        }
    }
}

pub struct Parser {
    tokens: Vec<Token>,
    position: usize,
}

/// Relates one executable descent step to its mathematical counterpart: on
/// success the same node at the parser's new position (always strictly past
/// the old one), on failure the same error.
pub open spec fn matches_step(pre: Parser, post: Parser, r: Result<Node, ParseError>, sr: ParseStep) -> bool {
    &&& post.wf()
    &&& post.toks() == pre.toks()
    &&& match r {
        Ok(n) => {
            &&& sr == Ok::<(Node, int), ParseErrorModel>((n, post.pos()))
            &&& node_wf(n)
            &&& pre.pos() < post.pos()
        },
        Err(e) => sr == Err::<(Node, int), ParseErrorModel>(e@),
    }
}

impl Parser {
    /// The token models this parser walks.
    pub closed spec fn toks(self) -> Seq<TokenModel> {
        toks_view(self.tokens@)
    }

    /// The cursor position.
    pub closed spec fn pos(self) -> int {
        self.position as int
    }

    /// The parser invariant: well-formed tokens, cursor inside the sequence.
    pub open spec fn wf(self) -> bool {
        &&& token_seq_wf(self.toks())
        &&& 0 <= self.pos() < self.toks().len()
    }

    pub fn new(tokens: Vec<Token>) -> (p: Parser)
        ensures
            p.toks() == toks_view(tokens@),
            p.pos() == 0,
            token_seq_wf(toks_view(tokens@)) ==> p.wf(),
    {
        Parser { tokens, position: 0 }
    }

    fn current_token(&self) -> (t: &Token)
        requires
            self.wf(),
        ensures
            t@ == self.toks()[self.pos()],
    {
        &self.tokens[self.position]
    }

    fn at_eof(&self) -> (r: bool)
        requires
            self.wf(),
        ensures
            r == (self.toks()[self.pos()].kind == TokenKind::EOF),
    {
        self.current_token().kind == TokenKind::EOF
    }

    /// Advances past the reserved token `op` when it is current; reports
    /// whether it did.
    fn consume(&mut self, op: String) -> (r: bool)
        requires
            old(self).wf(),
        ensures
            final(self).wf(),
            final(self).toks() == old(self).toks(),
            if is_res(old(self).toks()[old(self).pos()], op@) {
                r && final(self).pos() == old(self).pos() + 1
            } else {
                !r && final(self).pos() == old(self).pos()
            },
    {
        if self.current_token().kind != TokenKind::Reserved || !self.current_token().str.eq(&op) {
            false
        } else {
            proof {
                vstd::std_specs::vec::axiom_spec_len(&self.tokens);
            }
            self.position = self.position + 1;
            true
        }
    }

    /// Advances past the reserved token `op`, or fails with `Expected(op)`.
    fn expect(&mut self, op: String) -> (r: Result<(), ParseError>)
        requires
            old(self).wf(),
        ensures
            final(self).wf(),
            final(self).toks() == old(self).toks(),
            match r {
                Ok(_) => {
                    &&& is_res(old(self).toks()[old(self).pos()], op@)
                    &&& final(self).pos() == old(self).pos() + 1
                },
                Err(e) => {
                    &&& !is_res(old(self).toks()[old(self).pos()], op@)
                    &&& e@ == ParseErrorModel::Expected(op@)
                    &&& final(self).pos() == old(self).pos()
                },
            },
    {
        if self.current_token().kind != TokenKind::Reserved || !self.current_token().str.eq(&op) {
            Err(ParseError::Expected(op))
        } else {
            proof {
                vstd::std_specs::vec::axiom_spec_len(&self.tokens);
            }
            self.position = self.position + 1;
            Ok(())
        }
    }

    /// Advances past an identifier token and hands its text out, when one is
    /// current.
    fn consume_ident(&mut self) -> (r: Option<String>)
        requires
            old(self).wf(),
        ensures
            final(self).wf(),
            final(self).toks() == old(self).toks(),
            match r {
                Some(text) => {
                    &&& old(self).toks()[old(self).pos()].kind == TokenKind::Ident
                    &&& text@ == old(self).toks()[old(self).pos()].text
                    &&& is_ident_text(text@)
                    &&& final(self).pos() == old(self).pos() + 1
                },
                None => {
                    &&& old(self).toks()[old(self).pos()].kind != TokenKind::Ident
                    &&& final(self).pos() == old(self).pos()
                },
            },
    {
        if self.current_token().kind != TokenKind::Ident {
            None
        } else {
            let val = self.current_token().str.clone();
            proof {
                vstd::std_specs::vec::axiom_spec_len(&self.tokens);
            }
            self.position = self.position + 1;
            Some(val)
        }
    }

    /// Advances past a numeric token and hands its value out, or fails with
    /// `ExpectedNumber`.
    fn expect_number(&mut self) -> (r: Result<i32, ParseError>)
        requires
            old(self).wf(),
        ensures
            final(self).wf(),
            final(self).toks() == old(self).toks(),
            match r {
                Ok(v) => {
                    &&& old(self).toks()[old(self).pos()].kind == TokenKind::Num
                    &&& old(self).toks()[old(self).pos()].val == Some(v)
                    &&& final(self).pos() == old(self).pos() + 1
                },
                Err(e) => {
                    &&& old(self).toks()[old(self).pos()].kind != TokenKind::Num
                    &&& e@ == ParseErrorModel::ExpectedNumber
                    &&& final(self).pos() == old(self).pos()
                },
            },
    {
        if self.current_token().kind != TokenKind::Num {
            Err(ParseError::ExpectedNumber)
        } else {
            let val = self.current_token().val;
            proof {
                vstd::std_specs::vec::axiom_spec_len(&self.tokens);
            }
            self.position = self.position + 1;
            match val {
                Some(v) => Ok(v),
                None => Err(ParseError::ExpectedNumber),
            }
        }
    }

    fn new_num(&mut self, num: i32) -> (n: Node)
        ensures
            n == num_node(num),
            *final(self) == *old(self),
    {
        Node { kind: NodeKind::Num, lhs: None, rhs: None, val: Some(num), offset: None }
    }

    fn primary(&mut self) -> (r: Result<Node, ParseError>)
        requires
            old(self).wf(),
        ensures
            matches_step(*old(self), *final(self), r, spec_primary(old(self).toks(), old(self).pos())),
        decreases self.toks().len() - self.pos(), 1int,
    {
        proof {
            reveal_strlit("(");
            assert("("@ =~= seq!['(']);
            reveal_strlit(")");
            assert(")"@ =~= seq![')']);
        }
        if self.consume(String::from_str("(")) {
            let inner = self.expr();
            match inner {
                Ok(n) => {
                    match self.expect(String::from_str(")")) {
                        Ok(u) => Ok(n),
                        Err(e) => Err(e),
                    }
                },
                Err(e) => Err(e),
            }
        } else if let Some(s) = self.consume_ident() {
            let c = s.as_str().get_char(0);
            let off: u32 = (c as u32 - 97 + 1) * 8;
            Ok(Node { kind: NodeKind::Lvar, lhs: None, rhs: None, val: None, offset: Some(off) })
        } else {
            match self.expect_number() {
                Ok(v) => Ok(self.new_num(v)),
                Err(e) => Err(e),
            }
        }
    }

    fn unary(&mut self) -> (r: Result<Node, ParseError>)
        requires
            old(self).wf(),
        ensures
            matches_step(*old(self), *final(self), r, spec_unary(old(self).toks(), old(self).pos())),
        decreases self.toks().len() - self.pos(), 2int,
    {
        proof {
            reveal_strlit("+");
            assert("+"@ =~= seq!['+']);
            reveal_strlit("-");
            assert("-"@ =~= seq!['-']);
        }
        let ghost ts = self.toks();
        let ghost pos0 = self.pos();
        if self.consume(String::from_str("+")) {
            proof {
                assert(spec_unary(ts, pos0) == spec_unary(ts, pos0 + 1));
            }
            self.unary()
        } else if self.consume(String::from_str("-")) {
            let inner = self.unary();
            proof {
                assert(node_wf(num_node(0)));
            }
            match inner {
                Ok(v) => Ok(
                    Node {
                        kind: NodeKind::Sub,
                        lhs: Some(Box::new(self.new_num(0))),
                        rhs: Some(Box::new(v)),
                        val: None,
                        offset: None,
                    },
                ),
                Err(e) => Err(e),
            }
        } else {
            self.primary()
        }
    }

    #[verifier::loop_isolation(false)]
    fn mul(&mut self) -> (r: Result<Node, ParseError>)
        requires
            old(self).wf(),
        ensures
            matches_step(*old(self), *final(self), r, spec_mul(old(self).toks(), old(self).pos())),
        decreases self.toks().len() - self.pos(), 3int,
    {
        proof {
            reveal_strlit("*");
            assert("*"@ =~= seq!['*']);
            reveal_strlit("/");
            assert("/"@ =~= seq!['/']);
        }
        let ghost ts = self.toks();
        let ghost pos0 = self.pos();
        let first = self.unary();
        let mut ret = match first {
            Ok(v) => v,
            Err(e) => {
                return Err(e);
            },
        };
        loop
            invariant
                self.wf(),
                self.toks() == ts,
                node_wf(ret),
                pos0 < self.pos(),
                spec_mul(ts, pos0) == spec_mul_tail(ts, self.pos(), ret),
            decreases ts.len() - self.pos(),
        {
            if self.consume(String::from_str("*")) {
                let next = self.unary();
                match next {
                    Ok(v) => {
                        ret = Node {
                            kind: NodeKind::Mul,
                            lhs: Some(Box::new(ret)),
                            rhs: Some(Box::new(v)),
                            val: None,
                            offset: None,
                        };
                    },
                    Err(e) => {
                        return Err(e);
                    },
                }
            } else if self.consume(String::from_str("/")) {
                let next = self.unary();
                match next {
                    Ok(v) => {
                        ret = Node {
                            kind: NodeKind::Div,
                            lhs: Some(Box::new(ret)),
                            rhs: Some(Box::new(v)),
                            val: None,
                            offset: None,
                        };
                    },
                    Err(e) => {
                        return Err(e);
                    },
                }
            } else {
                return Ok(ret);
            }
        }
    }

    #[verifier::loop_isolation(false)]
    fn add(&mut self) -> (r: Result<Node, ParseError>)
        requires
            old(self).wf(),
        ensures
            matches_step(*old(self), *final(self), r, spec_add(old(self).toks(), old(self).pos())),
        decreases self.toks().len() - self.pos(), 4int,
    {
        proof {
            reveal_strlit("+");
            assert("+"@ =~= seq!['+']);
            reveal_strlit("-");
            assert("-"@ =~= seq!['-']);
        }
        let ghost ts = self.toks();
        let ghost pos0 = self.pos();
        let first = self.mul();
        let mut ret = match first {
            Ok(v) => v,
            Err(e) => {
                return Err(e);
            },
        };
        loop
            invariant
                self.wf(),
                self.toks() == ts,
                node_wf(ret),
                pos0 < self.pos(),
                spec_add(ts, pos0) == spec_add_tail(ts, self.pos(), ret),
            decreases ts.len() - self.pos(),
        {
            if self.consume(String::from_str("+")) {
                let next = self.mul();
                match next {
                    Ok(v) => {
                        ret = Node {
                            kind: NodeKind::Add,
                            lhs: Some(Box::new(ret)),
                            rhs: Some(Box::new(v)),
                            val: None,
                            offset: None,
                        };
                    },
                    Err(e) => {
                        return Err(e);
                    },
                }
            } else if self.consume(String::from_str("-")) {
                let next = self.mul();
                match next {
                    Ok(v) => {
                        ret = Node {
                            kind: NodeKind::Sub,
                            lhs: Some(Box::new(ret)),
                            rhs: Some(Box::new(v)),
                            val: None,
                            offset: None,
                        };
                    },
                    Err(e) => {
                        return Err(e);
                    },
                }
            } else {
                return Ok(ret);
            }
        }
    }

    #[verifier::loop_isolation(false)]
    #[verifier::rlimit(60)]
    fn relational(&mut self) -> (r: Result<Node, ParseError>)
        requires
            old(self).wf(),
        ensures
            matches_step(
                *old(self),
                *final(self),
                r,
                spec_relational(old(self).toks(), old(self).pos()),
            ),
        decreases self.toks().len() - self.pos(), 5int,
    {
        proof {
            reveal_strlit("<");
            assert("<"@ =~= seq!['<']);
            reveal_strlit("<=");
            assert("<="@ =~= seq!['<', '=']);
            reveal_strlit(">");
            assert(">"@ =~= seq!['>']);
            reveal_strlit(">=");
            assert(">="@ =~= seq!['>', '=']);
        }
        let ghost ts = self.toks();
        let ghost pos0 = self.pos();
        let first = self.add();
        let mut ret = match first {
            Ok(v) => v,
            Err(e) => {
                return Err(e);
            },
        };
        loop
            invariant
                self.wf(),
                self.toks() == ts,
                node_wf(ret),
                pos0 < self.pos(),
                spec_relational(ts, pos0) == spec_relational_tail(ts, self.pos(), ret),
            decreases ts.len() - self.pos(),
        {
            if self.consume(String::from_str("<")) {
                let next = self.add();
                match next {
                    Ok(v) => {
                        ret = Node {
                            kind: NodeKind::Lt,
                            lhs: Some(Box::new(ret)),
                            rhs: Some(Box::new(v)),
                            val: None,
                            offset: None,
                        };
                    },
                    Err(e) => {
                        return Err(e);
                    },
                }
            } else if self.consume(String::from_str("<=")) {
                let next = self.add();
                match next {
                    Ok(v) => {
                        ret = Node {
                            kind: NodeKind::Le,
                            lhs: Some(Box::new(ret)),
                            rhs: Some(Box::new(v)),
                            val: None,
                            offset: None,
                        };
                    },
                    Err(e) => {
                        return Err(e);
                    },
                }
            } else if self.consume(String::from_str(">")) {
                let next = self.add();
                match next {
                    Ok(v) => {
                        ret = Node {
                            kind: NodeKind::Lt,
                            lhs: Some(Box::new(v)),
                            rhs: Some(Box::new(ret)),
                            val: None,
                            offset: None,
                        };
                    },
                    Err(e) => {
                        return Err(e);
                    },
                }
            } else if self.consume(String::from_str(">=")) {
                let next = self.add();
                match next {
                    Ok(v) => {
                        ret = Node {
                            kind: NodeKind::Le,
                            lhs: Some(Box::new(v)),
                            rhs: Some(Box::new(ret)),
                            val: None,
                            offset: None,
                        };
                    },
                    Err(e) => {
                        return Err(e);
                    },
                }
            } else {
                return Ok(ret);
            }
        }
    }

    #[verifier::loop_isolation(false)]
    #[verifier::rlimit(60)]
    fn equality(&mut self) -> (r: Result<Node, ParseError>)
        requires
            old(self).wf(),
        ensures
            matches_step(
                *old(self),
                *final(self),
                r,
                spec_equality(old(self).toks(), old(self).pos()),
            ),
        decreases self.toks().len() - self.pos(), 6int,
    {
        proof {
            reveal_strlit("==");
            assert("=="@ =~= seq!['=', '=']);
            reveal_strlit("!=");
            assert("!="@ =~= seq!['!', '=']);
        }
        let ghost ts = self.toks();
        let ghost pos0 = self.pos();
        let first = self.relational();
        let mut ret = match first {
            Ok(v) => v,
            Err(e) => {
                return Err(e);
            },
        };
        loop
            invariant
                self.wf(),
                self.toks() == ts,
                node_wf(ret),
                pos0 < self.pos(),
                spec_equality(ts, pos0) == spec_equality_tail(ts, self.pos(), ret),
            decreases ts.len() - self.pos(),
        {
            if self.consume(String::from_str("==")) {
                let next = self.relational();
                match next {
                    Ok(v) => {
                        ret = Node {
                            kind: NodeKind::Eq,
                            lhs: Some(Box::new(ret)),
                            rhs: Some(Box::new(v)),
                            val: None,
                            offset: None,
                        };
                    },
                    Err(e) => {
                        return Err(e);
                    },
                }
            } else if self.consume(String::from_str("!=")) {
                let next = self.relational();
                match next {
                    Ok(v) => {
                        ret = Node {
                            kind: NodeKind::Ne,
                            lhs: Some(Box::new(ret)),
                            rhs: Some(Box::new(v)),
                            val: None,
                            offset: None,
                        };
                    },
                    Err(e) => {
                        return Err(e);
                    },
                }
            } else {
                return Ok(ret);
            }
        }
    }

    fn assign(&mut self) -> (r: Result<Node, ParseError>)
        requires
            old(self).wf(),
        ensures
            matches_step(*old(self), *final(self), r, spec_assign(old(self).toks(), old(self).pos())),
        decreases self.toks().len() - self.pos(), 7int,
    {
        proof {
            reveal_strlit("=");
            assert("="@ =~= seq!['=']);
        }
        let first = self.equality();
        let ret = match first {
            Ok(v) => v,
            Err(e) => {
                return Err(e);
            },
        };
        if self.consume(String::from_str("=")) {
            let rhs = self.assign();
            match rhs {
                Ok(v) => Ok(
                    Node {
                        kind: NodeKind::Assign,
                        lhs: Some(Box::new(ret)),
                        rhs: Some(Box::new(v)),
                        val: None,
                        offset: None,
                    },
                ),
                Err(e) => Err(e),
            }
        } else {
            Ok(ret)
        }
    }

    fn expr(&mut self) -> (r: Result<Node, ParseError>)
        requires
            old(self).wf(),
        ensures
            matches_step(*old(self), *final(self), r, spec_expr(old(self).toks(), old(self).pos())),
        decreases self.toks().len() - self.pos(), 8int,
    {
        self.assign()
    }

    fn stmt(&mut self) -> (r: Result<Node, ParseError>)
        requires
            old(self).wf(),
        ensures
            matches_step(*old(self), *final(self), r, spec_stmt(old(self).toks(), old(self).pos())),
    {
        proof {
            reveal_strlit(";");
            assert(";"@ =~= seq![';']);
        }
        let ret = self.expr();
        match ret {
            Ok(n) => {
                match self.expect(String::from_str(";")) {
                    Ok(u) => Ok(n),
                    Err(e) => Err(e),
                }
            },
            Err(e) => Err(e),
        }
    }

    #[verifier::loop_isolation(false)]
    fn program(&mut self) -> (r: Result<Vec<Node>, ParseError>)
        requires
            old(self).wf(),
        ensures
            final(self).wf(),
            final(self).toks() == old(self).toks(),
            match r {
                Ok(nodes) => {
                    &&& spec_program(old(self).toks(), old(self).pos()) == Ok::<
                        Seq<Node>,
                        ParseErrorModel,
                    >(nodes@)
                    &&& forall|k: int| 0 <= k < nodes@.len() ==> node_wf(#[trigger] nodes@[k])
                },
                Err(e) => spec_program(old(self).toks(), old(self).pos()) == Err::<
                    Seq<Node>,
                    ParseErrorModel,
                >(e@),
            },
    {
        let ghost ts = self.toks();
        let ghost pos0 = self.pos();
        let mut nodes: Vec<Node> = Vec::new();
        proof {
            match spec_program(ts, pos0) {
                Ok(rest) => {
                    assert(nodes@ + rest =~= rest);
                },
                Err(_) => {},
            }
        }
        while !self.at_eof()
            invariant
                self.wf(),
                self.toks() == ts,
                forall|k: int| 0 <= k < nodes@.len() ==> node_wf(#[trigger] nodes@[k]),
                match spec_program(ts, self.pos()) {
                    Ok(rest) => spec_program(ts, pos0) == Ok::<Seq<Node>, ParseErrorModel>(
                        nodes@ + rest,
                    ),
                    Err(e) => spec_program(ts, pos0) == Err::<Seq<Node>, ParseErrorModel>(e),
                },
            decreases ts.len() - self.pos(),
        {
            let res = self.stmt();
            match res {
                Ok(v) => {
                    proof {
                        match spec_program(ts, self.pos()) {
                            Ok(rest2) => {
                                assert(nodes@ + (seq![v] + rest2) =~= (nodes@ + seq![v]) + rest2);
                                assert(nodes@.push(v) =~= nodes@ + seq![v]);
                            },
                            Err(_) => {},
                        }
                    }
                    nodes.push(v);
                },
                Err(e) => {
                    return Err(e);
                },
            }
        }
        proof {
            assert(nodes@ + Seq::<Node>::empty() =~= nodes@);
        }
        Ok(nodes)
    }

    /// Parses the whole token sequence into its statements.
    ///
    /// Succeeds exactly when the mathematical parser [`spec_program`] does,
    /// and then yields its statement trees, all well-formed; fails with the
    /// same error it gives otherwise.
    pub fn parse(&mut self) -> (r: Result<Vec<Node>, ParseError>)
        requires
            old(self).wf(),
        ensures
            final(self).wf(),
            final(self).toks() == old(self).toks(),
            match r {
                Ok(nodes) => {
                    &&& spec_program(old(self).toks(), old(self).pos()) == Ok::<
                        Seq<Node>,
                        ParseErrorModel,
                    >(nodes@)
                    &&& forall|k: int| 0 <= k < nodes@.len() ==> node_wf(#[trigger] nodes@[k])
                },
                Err(e) => spec_program(old(self).toks(), old(self).pos()) == Err::<
                    Seq<Node>,
                    ParseErrorModel,
                >(e@),
            },
    {
        self.program()
    }
}

} // verus!
