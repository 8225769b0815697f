//! The lexer: turns source text into an ordered token sequence.
//!
//! Scanning goes left to right with one character of lookahead.  Whitespace
//! (ASCII space, tab, newline, carriage return) is skipped.  A maximal run of
//! decimal digits becomes one `Num` token, accumulated left to right as
//! `value * 10 + digit` with two's-complement wraparound (no overflow
//! detection, matching native signed-integer semantics).  A lowercase letter
//! becomes one `Ident` token; adjacent letters lex as separate one-letter
//! identifiers.  `==`, `!=`, `<=`, `>=` are recognized by lookahead; a `!`
//! not followed by `=` is an error, while `=`, `<` and `>` alone fall back
//! to the one-character operator (a lone `=` is the assignment operator the
//! grammar needs).  `+ - * / ( ) ;` each give one `Reserved` token.  The
//! sequence always ends with exactly one `EOF` token.

use crate::decimal::{dec_str, i32_dec};
use vstd::prelude::*;

verus! {

#[derive(Debug, PartialEq, Eq, Structural, Clone, Copy)]
pub enum TokenKind {
    Reserved,
    Num,
    Ident,
    EOF,
}

#[derive(Debug, PartialEq)]
pub struct Token {
    pub kind: TokenKind,
    pub val: Option<i32>,
    pub str: String,
}

/// The mathematical content of one token: its kind, numeric value and text.
pub struct TokenModel {
    pub kind: TokenKind,
    pub val: Option<i32>,
    pub text: Seq<char>,
}

impl View for Token {
    type V = TokenModel;

    open spec fn view(&self) -> TokenModel {
        TokenModel { kind: self.kind, val: self.val, text: self.str@ }
    }
}

/// The token models of a token sequence.
pub open spec fn toks_view(ts: Seq<Token>) -> Seq<TokenModel> {
    ts.map_values(|t: Token| t@)
}

pub open spec fn is_digit_char(c: char) -> bool {
    '0' <= c && c <= '9'
}

pub open spec fn is_lower_char(c: char) -> bool {
    'a' <= c && c <= 'z'
}

/// ASCII whitespace, the only whitespace the language accepts.
pub open spec fn is_space_char(c: char) -> bool {
    c == ' ' || c == '\t' || c == '\n' || c == '\r'
}

/// The one-character operators and punctuation.
pub open spec fn is_single_op_char(c: char) -> bool {
    c == '+' || c == '-' || c == '*' || c == '/' || c == '(' || c == ')' || c == ';'
}

/// The numeric value of a digit character.
pub open spec fn digit_val(c: char) -> nat {
    (c as int - '0' as int) as nat
}

/// The first position at or after `i` holding a non-digit (or the end).
pub open spec fn digit_run_end(s: Seq<char>, i: int) -> int
    decreases s.len() - i
    when 0 <= i <= s.len()
{
    if i < s.len() && is_digit_char(s[i]) {
        digit_run_end(s, i + 1)
    } else {
        i
    }
}

/// The base-10 value of the digits `s[i..j)`, accumulated left to right.
pub open spec fn digits_val(s: Seq<char>, i: int, j: int) -> nat
    decreases j - i
    when 0 <= i <= j <= s.len()
{
    if i >= j {
        0
    } else {
        digits_val(s, i, j - 1) * 10 + digit_val(s[j - 1])
    }
}

/// The two's-complement `i32` that accumulating `n` with wraparound yields.
pub open spec fn wrap_i32(n: int) -> i32 {
    vstd::wrapping::i32_specs::signed_crop(n)
}

pub open spec fn num_token(v: i32) -> TokenModel {
    TokenModel { kind: TokenKind::Num, val: Some(v), text: dec_str(v as int) }
}

pub open spec fn reserved_token(text: Seq<char>) -> TokenModel {
    TokenModel { kind: TokenKind::Reserved, val: None, text }
}

pub open spec fn ident_token(c: char) -> TokenModel {
    TokenModel { kind: TokenKind::Ident, val: None, text: seq![c] }
}

pub open spec fn eof_token() -> TokenModel {
    TokenModel { kind: TokenKind::EOF, val: None, text: Seq::empty() }
}

/// The tokens of `s` from position `i` on, or `None` on an invalid character
/// (including a `=` or `!` not followed by `=`).
#[verifier::opaque]
pub open spec fn spec_tokenize(s: Seq<char>, i: int) -> Option<Seq<TokenModel>>
    decreases s.len() - i
    when 0 <= i <= s.len()
{
    if i >= s.len() {
        Some(seq![eof_token()])
    } else {
        let c = s[i];
        if is_space_char(c) {
            spec_tokenize(s, i + 1)
        } else if is_digit_char(c) {
            let j = digit_run_end(s, i + 1);
            if i + 1 <= j <= s.len() {
                match spec_tokenize(s, j) {
                    Some(rest) => Some(
                        seq![num_token(wrap_i32(digits_val(s, i, j) as int))] + rest,
                    ),
                    None => None,
                }
            } else {
                None
            }
        } else if c == '!' {
            if i + 1 < s.len() && s[i + 1] == '=' {
                match spec_tokenize(s, i + 2) {
                    Some(rest) => Some(seq![reserved_token(seq![c, '='])] + rest),
                    None => None,
                }
            } else {
                None
            }
        } else if c == '=' || c == '<' || c == '>' {
            if i + 1 < s.len() && s[i + 1] == '=' {
                match spec_tokenize(s, i + 2) {
                    Some(rest) => Some(seq![reserved_token(seq![c, '='])] + rest),
                    None => None,
                }
            } else {
                match spec_tokenize(s, i + 1) {
                    Some(rest) => Some(seq![reserved_token(seq![c])] + rest),
                    None => None,
                }
            }
        } else if is_single_op_char(c) {
            match spec_tokenize(s, i + 1) {
                Some(rest) => Some(seq![reserved_token(seq![c])] + rest),
                None => None,
            }
        } else if is_lower_char(c) {
            match spec_tokenize(s, i + 1) {
                Some(rest) => Some(seq![ident_token(c)] + rest),
                None => None,
            }
        } else {
            None
        }
    }
}

/// The text of an identifier token: a single lowercase letter.
pub open spec fn is_ident_text(text: Seq<char>) -> bool {
    text.len() == 1 && is_lower_char(text[0])
}

pub open spec fn token_model_wf(t: TokenModel) -> bool {
    &&& t.kind == TokenKind::Ident ==> is_ident_text(t.text)
    &&& t.kind == TokenKind::Num ==> t.val is Some
}

/// The invariant of a lexed token sequence: it ends with exactly one `EOF`
/// token, identifier tokens hold one lowercase letter, and numeric tokens
/// hold a value.
pub open spec fn token_seq_wf(ts: Seq<TokenModel>) -> bool {
    &&& ts.len() >= 1
    &&& ts[ts.len() - 1].kind == TokenKind::EOF
    &&& forall|k: int| 0 <= k < ts.len() - 1 ==> (#[trigger] ts[k].kind) != TokenKind::EOF
    &&& forall|k: int| 0 <= k < ts.len() ==> token_model_wf(#[trigger] ts[k])
}

/// The lex error taxonomy: an unrecognized character, or an incomplete
/// two-character operator (`=` or `!` not followed by `=`).
#[derive(Debug, PartialEq, Eq, Structural, Clone, Copy)]
pub enum LexError {
    InvalidCharacter,
}

/// Splices the tokens lexed so far before whatever the rest of the input
/// lexes to.
pub open spec fn lex_compose(prefix: Seq<TokenModel>, rest: Option<Seq<TokenModel>>) -> Option<
    Seq<TokenModel>,
> {
    match rest {
        Some(ts) => Some(prefix + ts),
        None => None,
    }
}

proof fn lemma_step_eof(s: Seq<char>, i: int)
    requires
        i == s.len(),
    ensures
        spec_tokenize(s, i) == Some(seq![eof_token()]),
{
    reveal(spec_tokenize);
}

proof fn lemma_step_space(s: Seq<char>, i: int)
    requires
        0 <= i < s.len(),
        is_space_char(s[i]),
    ensures
        spec_tokenize(s, i) == spec_tokenize(s, i + 1),
{
    reveal(spec_tokenize);
}

proof fn lemma_step_num(s: Seq<char>, i: int, j: int)
    requires
        0 <= i < s.len(),
        is_digit_char(s[i]),
        i + 1 <= j <= s.len(),
        j == digit_run_end(s, i + 1),
    ensures
        spec_tokenize(s, i) == lex_compose(
            seq![num_token(wrap_i32(digits_val(s, i, j) as int))],
            spec_tokenize(s, j),
        ),
{
    reveal(spec_tokenize);
}

proof fn lemma_step_two_char(s: Seq<char>, i: int)
    requires
        0 <= i,
        i + 1 < s.len(),
        s[i] == '=' || s[i] == '!' || s[i] == '<' || s[i] == '>',
        s[i + 1] == '=',
    ensures
        spec_tokenize(s, i) == lex_compose(
            seq![reserved_token(seq![s[i], '='])],
            spec_tokenize(s, i + 2),
        ),
{
    reveal(spec_tokenize);
}

proof fn lemma_step_eq_err(s: Seq<char>, i: int)
    requires
        0 <= i < s.len(),
        s[i] == '!',
        i + 1 >= s.len() || s[i + 1] != '=',
    ensures
        spec_tokenize(s, i) is None,
{
    reveal(spec_tokenize);
}

proof fn lemma_step_single(s: Seq<char>, i: int)
    requires
        0 <= i < s.len(),
        is_single_op_char(s[i]) || ((s[i] == '=' || s[i] == '<' || s[i] == '>') && (i + 1
            >= s.len() || s[i + 1] != '=')),
    ensures
        spec_tokenize(s, i) == lex_compose(
            seq![reserved_token(seq![s[i]])],
            spec_tokenize(s, i + 1),
        ),
{
    reveal(spec_tokenize);
}

proof fn lemma_step_ident(s: Seq<char>, i: int)
    requires
        0 <= i < s.len(),
        is_lower_char(s[i]),
    ensures
        spec_tokenize(s, i) == lex_compose(seq![ident_token(s[i])], spec_tokenize(s, i + 1)),
{
    reveal(spec_tokenize);
}

proof fn lemma_step_bad_char(s: Seq<char>, i: int)
    requires
        0 <= i < s.len(),
        !is_space_char(s[i]),
        !is_digit_char(s[i]),
        s[i] != '=' && s[i] != '!' && s[i] != '<' && s[i] != '>',
        !is_single_op_char(s[i]),
        !is_lower_char(s[i]),
    ensures
        spec_tokenize(s, i) is None,
{
    reveal(spec_tokenize);
}

proof fn lemma_crop_value(v: int)
    ensures
        wrap_i32(v) as int % 0x1_0000_0000 == v % 0x1_0000_0000,
{
    let m = 0x1_0000_0000int;
    vstd::arithmetic::div_mod::lemma_mod_bound(v, m);
    if v % m > i32::MAX {
        vstd::arithmetic::div_mod::lemma_mod_multiples_vanish(-1, v % m, m);
        vstd::arithmetic::div_mod::lemma_small_mod((v % m) as nat, m as nat);
    } else {
        vstd::arithmetic::div_mod::lemma_small_mod((v % m) as nat, m as nat);
    }
}

proof fn lemma_crop_congruent(a: int, b: int)
    requires
        a % 0x1_0000_0000 == b % 0x1_0000_0000,
    ensures
        wrap_i32(a) == wrap_i32(b),
{
}

proof fn lemma_wrapping_add_is_crop(x: i32, y: i32)
    ensures
        vstd::wrapping::i32_specs::wrapping_add(x, y) == wrap_i32(x as int + y as int),
{
    let m = 0x1_0000_0000int;
    let v = x as int + y as int;
    if v >= 0 {
        if v <= i32::MAX {
            vstd::arithmetic::div_mod::lemma_small_mod(v as nat, m as nat);
        } else {
            vstd::arithmetic::div_mod::lemma_small_mod(v as nat, m as nat);
        }
    } else {
        vstd::arithmetic::div_mod::lemma_mod_multiples_vanish(1, v, m);
        vstd::arithmetic::div_mod::lemma_small_mod((v + m) as nat, m as nat);
    }
}

/// Wrapping accumulation of one more digit agrees with cropping the exact
/// mathematical accumulation.
proof fn lemma_wrap_step(v: int, d: int)
    requires
        0 <= d < 10,
    ensures
        wrap_i32(wrap_i32(wrap_i32(v) as int * 10) as int + d) == wrap_i32(v * 10 + d),
{
    let m = 0x1_0000_0000int;
    let c = wrap_i32(v) as int;
    lemma_crop_value(v);
    vstd::arithmetic::div_mod::lemma_mul_mod_noop_left(c, 10, m);
    vstd::arithmetic::div_mod::lemma_mul_mod_noop_left(v, 10, m);
    let w = wrap_i32(c * 10) as int;
    lemma_crop_value(c * 10);
    vstd::arithmetic::div_mod::lemma_add_mod_noop(w, d, m);
    vstd::arithmetic::div_mod::lemma_add_mod_noop(c * 10, d, m);
    vstd::arithmetic::div_mod::lemma_add_mod_noop(v * 10, d, m);
    lemma_crop_congruent(w + d, v * 10 + d);
}

fn ch_is_space(c: char) -> (r: bool)
    ensures
        r == is_space_char(c),
{
    c == ' ' || c == '\t' || c == '\n' || c == '\r'
}

fn ch_is_digit(c: char) -> (r: bool)
    ensures
        r == is_digit_char(c),
{
    let u = c as u32;
    48 <= u && u <= 57
}

fn ch_is_lower(c: char) -> (r: bool)
    ensures
        r == is_lower_char(c),
{
    let u = c as u32;
    97 <= u && u <= 122
}

/// Whether the character at `i` is a decimal digit.
fn digit_at(s: &str, i: usize) -> (r: bool)
    requires
        i < s@.len(),
    ensures
        r == is_digit_char(s@[i as int]),
{
    ch_is_digit(s.get_char(i))
}

/// Relies on `String::push`: appends exactly the given character at the end.
#[verifier::external_body]
fn char_to_string(c: char) -> (s: String)
    ensures
        s@ == seq![c],
{
    let mut s = String::new();
    s.push(c);
    s
}

/// A `Reserved` token holding `text`.
fn res_token(text: &str) -> (t: Token)
    ensures
        t@ == reserved_token(text@),
{
    Token { kind: TokenKind::Reserved, val: None, str: String::from_str(text) }
}

/// Turns source text into tokens.
///
/// Succeeds exactly when every character is recognized, and then yields the
/// token sequence of [`spec_tokenize`], which always ends with one `EOF`
/// token; otherwise the whole input is rejected with
/// [`LexError::InvalidCharacter`].
#[verifier::rlimit(100)]
pub fn tokenize(input: &str) -> (r: Result<Vec<Token>, LexError>)
    ensures
        match r {
            Ok(tokens) => {
                &&& spec_tokenize(input@, 0) == Some(toks_view(tokens@))
                &&& token_seq_wf(toks_view(tokens@))
            },
            Err(e) => {
                &&& spec_tokenize(input@, 0) is None
                &&& e == LexError::InvalidCharacter
            },
        },
{
    let ghost s = input@;
    let len = input.unicode_len();
    let mut tokens: Vec<Token> = Vec::new();
    let mut i: usize = 0;
    while i < len
        invariant
            i <= len,
            len == s.len(),
            s == input@,
            spec_tokenize(s, 0) == lex_compose(toks_view(tokens@), spec_tokenize(s, i as int)),
            forall|k: int|
                0 <= k < tokens@.len() ==> (#[trigger] tokens@[k]@.kind) != TokenKind::EOF,
            forall|k: int| 0 <= k < tokens@.len() ==> token_model_wf(#[trigger] tokens@[k]@),
        decreases len - i,
    {
        let ghost i0 = i as int;
        let ghost prefix = toks_view(tokens@);
        let c = input.get_char(i);
        if ch_is_space(c) {
            proof {
                lemma_step_space(s, i0);
            }
            i = i + 1;
        } else if ch_is_digit(c) {
            let ghost start = i as int;
            let mut ret: i32 = 0;
            while i < len && digit_at(input, i)
                invariant
                    0 <= start <= i as int <= len,
                    len == s.len(),
                    s == input@,
                    start < s.len() && is_digit_char(s[start]),
                    forall|k: int| start <= k < i as int ==> is_digit_char(s[k]),
                    ret == wrap_i32(digits_val(s, start, i as int) as int),
                decreases len - i,
            {
                let c2 = input.get_char(i);
                let d: u32 = c2 as u32 - 48;
                let ghost v0 = digits_val(s, start, i as int) as int;
                let next = ret.wrapping_mul(10).wrapping_add(d as i32);
                proof {
                    lemma_wrapping_add_is_crop(
                        vstd::wrapping::i32_specs::wrapping_mul(ret, 10),
                        d as i32,
                    );
                    lemma_wrap_step(v0, d as int);
                    assert(digits_val(s, start, i as int + 1) == v0 * 10 + digit_val(s[i as int]));
                }
                ret = next;
                i = i + 1;
            }
            proof {
                assert(i as int == digit_run_end(s, start + 1)) by {
                    lemma_digit_run_end_exact(s, start + 1, i as int);
                }
                lemma_step_num(s, start, i as int);
            }
            let text = i32_dec(ret);
            let t = Token { kind: TokenKind::Num, val: Some(ret), str: text };
            proof {
                assert(t@ == num_token(ret));
                lemma_push_token(s, i0, i as int, prefix, tokens@, t);
            }
            tokens.push(t);
        } else if c == '!' {
            if i + 1 < len && input.get_char(i + 1) == '=' {
                let t = res_token("!=");
                proof {
                    reveal_strlit("!=");
                    assert("!="@ =~= seq!['!', '=']);
                    lemma_step_two_char(s, i0);
                    lemma_push_token(s, i0, i as int + 2, prefix, tokens@, t);
                }
                tokens.push(t);
                i = i + 2;
            } else {
                proof {
                    lemma_step_eq_err(s, i0);
                }
                return Err(LexError::InvalidCharacter);
            }
        } else if c == '=' {
            if i + 1 < len && input.get_char(i + 1) == '=' {
                let t = res_token("==");
                proof {
                    reveal_strlit("==");
                    assert("=="@ =~= seq!['=', '=']);
                    lemma_step_two_char(s, i0);
                    lemma_push_token(s, i0, i as int + 2, prefix, tokens@, t);
                }
                tokens.push(t);
                i = i + 2;
            } else {
                let t = res_token("=");
                proof {
                    reveal_strlit("=");
                    assert("="@ =~= seq!['=']);
                    lemma_step_single(s, i0);
                    lemma_push_token(s, i0, i as int + 1, prefix, tokens@, t);
                }
                tokens.push(t);
                i = i + 1;
            }
        } else if c == '<' || c == '>' {
            if i + 1 < len && input.get_char(i + 1) == '=' {
                let t = if c == '<' {
                    let t = res_token("<=");
                    proof {
                        reveal_strlit("<=");
                        assert("<="@ =~= seq!['<', '=']);
                    }
                    t
                } else {
                    let t = res_token(">=");
                    proof {
                        reveal_strlit(">=");
                        assert(">="@ =~= seq!['>', '=']);
                    }
                    t
                };
                proof {
                    lemma_step_two_char(s, i0);
                    lemma_push_token(s, i0, i as int + 2, prefix, tokens@, t);
                }
                tokens.push(t);
                i = i + 2;
            } else {
                let t = if c == '<' {
                    let t = res_token("<");
                    proof {
                        reveal_strlit("<");
                        assert("<"@ =~= seq!['<']);
                    }
                    t
                } else {
                    let t = res_token(">");
                    proof {
                        reveal_strlit(">");
                        assert(">"@ =~= seq!['>']);
                    }
                    t
                };
                proof {
                    lemma_step_single(s, i0);
                    lemma_push_token(s, i0, i as int + 1, prefix, tokens@, t);
                }
                tokens.push(t);
                i = i + 1;
            }
        } else if c == '+' {
            let t = res_token("+");
            proof {
                reveal_strlit("+");
                assert("+"@ =~= seq!['+']);
                lemma_step_single(s, i0);
                lemma_push_token(s, i0, i as int + 1, prefix, tokens@, t);
            }
            tokens.push(t);
            i = i + 1;
        } else if c == '-' {
            let t = res_token("-");
            proof {
                reveal_strlit("-");
                assert("-"@ =~= seq!['-']);
                lemma_step_single(s, i0);
                lemma_push_token(s, i0, i as int + 1, prefix, tokens@, t);
            }
            tokens.push(t);
            i = i + 1;
        } else if c == '*' {
            let t = res_token("*");
            proof {
                reveal_strlit("*");
                assert("*"@ =~= seq!['*']);
                lemma_step_single(s, i0);
                lemma_push_token(s, i0, i as int + 1, prefix, tokens@, t);
            }
            tokens.push(t);
            i = i + 1;
        } else if c == '/' {
            let t = res_token("/");
            proof {
                reveal_strlit("/");
                assert("/"@ =~= seq!['/']);
                lemma_step_single(s, i0);
                lemma_push_token(s, i0, i as int + 1, prefix, tokens@, t);
            }
            tokens.push(t);
            i = i + 1;
        } else if c == '(' {
            let t = res_token("(");
            proof {
                reveal_strlit("(");
                assert("("@ =~= seq!['(']);
                lemma_step_single(s, i0);
                lemma_push_token(s, i0, i as int + 1, prefix, tokens@, t);
            }
            tokens.push(t);
            i = i + 1;
        } else if c == ')' {
            let t = res_token(")");
            proof {
                reveal_strlit(")");
                assert(")"@ =~= seq![')']);
                lemma_step_single(s, i0);
                lemma_push_token(s, i0, i as int + 1, prefix, tokens@, t);
            }
            tokens.push(t);
            i = i + 1;
        } else if c == ';' {
            let t = res_token(";");
            proof {
                reveal_strlit(";");
                assert(";"@ =~= seq![';']);
                lemma_step_single(s, i0);
                lemma_push_token(s, i0, i as int + 1, prefix, tokens@, t);
            }
            tokens.push(t);
            i = i + 1;
        } else if ch_is_lower(c) {
            let t = Token { kind: TokenKind::Ident, val: None, str: char_to_string(c) };
            proof {
                assert(t@ == ident_token(c));
                lemma_step_ident(s, i0);
                lemma_push_token(s, i0, i as int + 1, prefix, tokens@, t);
            }
            tokens.push(t);
            i = i + 1;
        } else {
            proof {
                lemma_step_bad_char(s, i0);
            }
            return Err(LexError::InvalidCharacter);
        }
    }
    let eof = Token { kind: TokenKind::EOF, val: None, str: String::new() };
    proof {
        lemma_step_eof(s, i as int);
        assert(eof@ == eof_token());
        assert(toks_view(tokens@.push(eof)) =~= toks_view(tokens@) + seq![eof_token()]);
        assert(spec_tokenize(s, i as int) == Some(seq![eof_token()]));
    }
    tokens.push(eof);
    proof {
        let ts = toks_view(tokens@);
        assert(ts[ts.len() - 1].kind == TokenKind::EOF);
    }
    Ok(tokens)
}

/// Law: a digit string whose base-10 value fits the positive `i32` range
/// lexes to exactly one `Num` token holding that value, then the `EOF`
/// token.
pub proof fn lemma_tokenize_digits(s: Seq<char>)
    requires
        s.len() >= 1,
        forall|k: int| 0 <= k < s.len() ==> is_digit_char(#[trigger] s[k]),
        digits_val(s, 0, s.len() as int) <= i32::MAX,
    ensures
        spec_tokenize(s, 0) == Some(
            seq![num_token(digits_val(s, 0, s.len() as int) as i32), eof_token()],
        ),
{
    reveal(spec_tokenize);
    lemma_digit_run_end_exact(s, 1, s.len() as int);
    assert(spec_tokenize(s, s.len() as int) == Some(seq![eof_token()]));
    let v = digits_val(s, 0, s.len() as int);
    vstd::arithmetic::div_mod::lemma_small_mod(v, 0x1_0000_0000nat);
    assert(wrap_i32(v as int) == v as i32);
    assert(seq![num_token(wrap_i32(v as int))] + seq![eof_token()] =~= seq![
        num_token(v as i32),
        eof_token(),
    ]);
}

/// A digit run over `s[i..j)` with `j` at the end of input or at a non-digit
/// ends exactly at `j`.
proof fn lemma_digit_run_end_exact(s: Seq<char>, i: int, j: int)
    requires
        0 <= i <= j <= s.len(),
        forall|k: int| i <= k < j ==> is_digit_char(s[k]),
        j == s.len() || !is_digit_char(s[j]),
    ensures
        digit_run_end(s, i) == j,
    decreases j - i,
{
    if i < j {
        lemma_digit_run_end_exact(s, i + 1, j);
    }
}

/// Pushing the token that `spec_tokenize` yields at `i0` keeps the
/// composition invariant, with the rest of the input starting at `i1`.
proof fn lemma_push_token(
    s: Seq<char>,
    i0: int,
    i1: int,
    prefix: Seq<TokenModel>,
    tokens: Seq<Token>,
    t: Token,
)
    requires
        prefix == toks_view(tokens),
        spec_tokenize(s, 0) == lex_compose(prefix, spec_tokenize(s, i0)),
        0 <= i0,
        0 <= i1 <= s.len(),
        spec_tokenize(s, i0) == lex_compose(seq![t@], spec_tokenize(s, i1)),
    ensures
        spec_tokenize(s, 0) == lex_compose(toks_view(tokens.push(t)), spec_tokenize(s, i1)),
{
    assert(toks_view(tokens.push(t)) =~= prefix + seq![t@]);
    match spec_tokenize(s, i1) {
        Some(rest) => {
            assert(prefix + (seq![t@] + rest) =~= (prefix + seq![t@]) + rest);
        },
        None => {},
    }
}

} // verus!
