//! End-to-end tests of the lexer → parser → generator pipeline, running the
//! emitted instructions on the stack machine.

use rust_9cc::generator::compile;
use rust_9cc::lexer::{tokenize, LexError, Token, TokenKind};
use rust_9cc::machine::{Instr, Machine};
use rust_9cc::parser::{Node, NodeKind, ParseError, Parser};

fn parse_source(src: &str) -> Result<Vec<Node>, ParseError> {
    let tokens = tokenize(src).expect("lex failure");
    let mut parser = Parser::new(tokens);
    parser.parse()
}

/// Runs a whole program: each statement's code, then a discard, as the
/// driver does; returns the machine for inspection, with the last
/// statement's value left on the stack (its discard is skipped).
fn run_program(src: &str) -> (Machine, i64) {
    let nodes = parse_source(src).expect("parse failure");
    let mut m = Machine::new();
    let count = nodes.len();
    for (k, node) in nodes.iter().enumerate() {
        let code = compile(node).expect("codegen failure");
        assert!(m.run(&code), "machine fault");
        if k + 1 < count {
            assert!(m.step(&Instr::Discard));
        }
    }
    let top = *m.stack.last().expect("empty stack");
    (m, top)
}

#[test]
fn lexes_single_number() {
    let toks: Vec<Token> = tokenize("1234").unwrap();
    assert_eq!(toks.len(), 2);
    assert_eq!(toks[0].kind, TokenKind::Num);
    assert_eq!(toks[0].val, Some(1234));
    assert_eq!(toks[0].str, "1234");
    assert_eq!(toks[1].kind, TokenKind::EOF);
}

#[test]
fn lexes_operators_and_idents() {
    let toks = tokenize("a <= 10 == b != 2 >= 1 > 0 < 3;").unwrap();
    let texts: Vec<&str> = toks.iter().map(|t| t.str.as_str()).collect();
    assert_eq!(
        texts,
        vec!["a", "<=", "10", "==", "b", "!=", "2", ">=", "1", ">", "0", "<", "3", ";", ""]
    );
}

#[test]
fn lex_rejects_lone_bang_and_unknown() {
    assert_eq!(tokenize("1 ! 2"), Err(LexError::InvalidCharacter));
    assert_eq!(tokenize("1 @ 2"), Err(LexError::InvalidCharacter));
    let eq = tokenize("=").unwrap();
    assert_eq!(eq[0].kind, TokenKind::Reserved);
    assert_eq!(eq[0].str, "=");
}

#[test]
fn adjacent_letters_are_separate_idents() {
    let toks = tokenize("ab").unwrap();
    assert_eq!(toks.len(), 3);
    assert_eq!(toks[0].str, "a");
    assert_eq!(toks[1].str, "b");
}

#[test]
fn assignment_is_right_associative() {
    let nodes = parse_source("a=b=1;").unwrap();
    assert_eq!(nodes.len(), 1);
    let outer = &nodes[0];
    assert_eq!(outer.kind, NodeKind::Assign);
    let lhs = outer.lhs.as_ref().unwrap();
    assert_eq!(lhs.kind, NodeKind::Lvar);
    assert_eq!(lhs.offset, Some(8));
    let inner = outer.rhs.as_ref().unwrap();
    assert_eq!(inner.kind, NodeKind::Assign);
    assert_eq!(inner.lhs.as_ref().unwrap().offset, Some(16));
    assert_eq!(inner.rhs.as_ref().unwrap().val, Some(1));
}

#[test]
fn greater_than_parses_as_swapped_less_than() {
    assert_eq!(parse_source("x>y;").unwrap(), parse_source("y<x;").unwrap());
    assert_eq!(parse_source("x>=y;").unwrap(), parse_source("y<=x;").unwrap());
    let nodes = parse_source("x>y;").unwrap();
    assert_eq!(nodes[0].kind, NodeKind::Lt);
}

#[test]
fn canonical_form_reparses_to_same_tree() {
    // The canonical print of the tree for `x>y;` is `y<x;`; re-parsing it
    // gives the same tree, and that tree is already canonical.
    let original = parse_source("x>y;").unwrap();
    let reparsed = parse_source("y<x;").unwrap();
    assert_eq!(original, reparsed);
    let original = parse_source("x>=y;").unwrap();
    let reparsed = parse_source("y<=x;").unwrap();
    assert_eq!(original, reparsed);
}

#[test]
fn precedence_mul_before_add() {
    let nodes = parse_source("1+2*3;").unwrap();
    let root = &nodes[0];
    assert_eq!(root.kind, NodeKind::Add);
    assert_eq!(root.lhs.as_ref().unwrap().val, Some(1));
    let mul = root.rhs.as_ref().unwrap();
    assert_eq!(mul.kind, NodeKind::Mul);
    assert_eq!(mul.lhs.as_ref().unwrap().val, Some(2));
    assert_eq!(mul.rhs.as_ref().unwrap().val, Some(3));
}

#[test]
fn missing_operand_is_expected_number() {
    assert_eq!(parse_source("1+;"), Err(ParseError::ExpectedNumber));
}

#[test]
fn missing_semicolon_is_expected() {
    assert_eq!(parse_source("1+2"), Err(ParseError::Expected(";".to_string())));
}

#[test]
fn number_round_trip() {
    let (_, top) = run_program("42;");
    assert_eq!(top, 42);
}

#[test]
fn store_then_load_round_trip() {
    let (m, top) = run_program("a=3;a+2;");
    assert_eq!(top, 5);
    // slot of `a` is offset 8, index 0
    assert_eq!(m.slots[0], 3);
}

#[test]
fn scenario_add_mul() {
    assert_eq!(run_program("1+2*3;").1, 7);
}

#[test]
fn scenario_paren() {
    assert_eq!(run_program("(1+2)*3;").1, 9);
}

#[test]
fn scenario_equality() {
    assert_eq!(run_program("1==1;").1, 1);
    assert_eq!(run_program("1==2;").1, 0);
    assert_eq!(run_program("1!=2;").1, 1);
    assert_eq!(run_program("2<=1;").1, 0);
    assert_eq!(run_program("2>=1;").1, 1);
}

#[test]
fn scenario_unary_minus() {
    assert_eq!(run_program("-5+8;").1, 3);
}

#[test]
fn division_truncates_toward_zero() {
    assert_eq!(run_program("(0-7)/2;").1, -3);
    assert_eq!(run_program("7/2;").1, 3);
}

#[test]
fn division_by_zero_faults() {
    let nodes = parse_source("1/0;").unwrap();
    let code = compile(&nodes[0]).unwrap();
    let mut m = Machine::new();
    assert!(!m.run(&code));
}

#[test]
fn assignment_to_non_variable_is_codegen_error() {
    let nodes = parse_source("1=2;").unwrap();
    assert!(compile(&nodes[0]).is_err());
}

#[test]
fn generated_text_for_number() {
    let nodes = parse_source("5;").unwrap();
    let lines = rust_9cc::generator::generate(&nodes[0]).unwrap();
    assert_eq!(lines, vec!["  push 5".to_string()]);
}

#[test]
fn generated_text_for_variable_store() {
    let nodes = parse_source("a=7;").unwrap();
    let lines = rust_9cc::generator::generate(&nodes[0]).unwrap();
    assert_eq!(
        lines,
        vec![
            "  mov rax, rbp",
            "  sub rax, 8",
            "  push rax",
            "  push 7",
            "  pop rdi",
            "  pop rax",
            "  mov [rax], rdi",
            "  push rdi",
        ]
    );
}

#[test]
fn negative_literal_text() {
    // wraparound during lexing can only come from overflow; plain negative
    // results come from unary minus at evaluation time
    let nodes = parse_source("0-2147483647;").unwrap();
    let code = compile(&nodes[0]).unwrap();
    let mut m = Machine::new();
    assert!(m.run(&code));
    assert_eq!(*m.stack.last().unwrap(), -2147483647);
}

#[test]
fn wraparound_number_literal() {
    // 2^31 wraps to i32::MIN under the lexer's wrapping accumulation
    let toks = tokenize("2147483648").unwrap();
    assert_eq!(toks[0].val, Some(i32::MIN));
}

#[test]
fn whole_alphabet_slots() {
    let (m, top) = run_program("z=9;z;");
    assert_eq!(top, 9);
    assert_eq!(m.slots[25], 9);
}
