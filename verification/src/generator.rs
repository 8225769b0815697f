//! The generator: walks one statement tree in post-order and emits
//! stack-machine instructions, then renders them as assembly text lines.
//!
//! Every node's code leaves exactly one value on the operand stack.  A
//! `Num` pushes its literal; an `Lvar` pushes its slot address and loads
//! through it; an `Assign` pushes the left side's address, evaluates the
//! right side, stores, and pushes the stored value back (assignment is
//! expression-valued); the other binary kinds evaluate left then right and
//! fold the two topmost values.  An `Assign` whose left side is not a
//! variable is a generator error, not a user error: the grammar cannot
//! produce it.

use crate::decimal::{dec_str, i64_dec, u64_dec};
use crate::machine::{
    addr_slot, lemma_run_unfold, machine_wf, spec_run, spec_step, Instr, MachineModel,
};
use crate::parser::{bin_node, lvar_node, node_wf, num_node, valid_offset, Node, NodeKind};
use vstd::prelude::*;

verus! {

broadcast use vstd::std_specs::vec::axiom_spec_len;

/// The code generation error taxonomy: a node shape no case handles.
/// Defensive; unreachable on trees the parser produced.
#[derive(Debug, PartialEq, Eq, Structural, Clone, Copy)]
pub enum CodegenError {
    UnexpectedNode,
}

/// Whether every `Assign` in the tree has a variable as its left operand:
/// exactly the well-formed trees code generation accepts.
pub open spec fn assignable(n: Node) -> bool
    decreases n,
{
    match n.kind {
        NodeKind::Num => true,
        NodeKind::Lvar => true,
        NodeKind::Assign => {
            &&& match n.lhs {
                Some(l) => l.kind == NodeKind::Lvar,
                None => false,
            }
            &&& match n.rhs {
                Some(r) => assignable(*r),
                None => false,
            }
        },
        _ => {
            &&& match n.lhs {
                Some(l) => assignable(*l),
                None => false,
            }
            &&& match n.rhs {
                Some(r) => assignable(*r),
                None => false,
            }
        },
    }
}

/// The address-pushing instruction for the left side of an assignment, when
/// that side is a variable.
pub open spec fn spec_gen_lval(n: Node) -> Option<Instr> {
    if n.kind == NodeKind::Lvar {
        match n.offset {
            Some(off) => Some(Instr::PushAddr(off)),
            None => None,
        }
    } else {
        None
    }
}

/// The instructions of one statement tree, in post-order; `None` on any
/// shape outside the grammar (a missing payload or child, or an `Assign`
/// with a non-variable left side).
pub open spec fn spec_gen(n: Node) -> Option<Seq<Instr>>
    decreases n,
{
    match n.kind {
        NodeKind::Num => match n.val {
            Some(v) => Some(seq![Instr::Push(v as i64)]),
            None => None,
        },
        NodeKind::Lvar => match n.offset {
            Some(off) => Some(seq![Instr::PushAddr(off), Instr::Load]),
            None => None,
        },
        NodeKind::Assign => match (n.lhs, n.rhs) {
            (Some(l), Some(r)) => match spec_gen_lval(*l) {
                Some(addr) => match spec_gen(*r) {
                    Some(code_r) => Some(seq![addr] + code_r + seq![Instr::Store]),
                    None => None,
                },
                None => None,
            },
            _ => None,
        },
        _ => match (n.lhs, n.rhs) {
            (Some(l), Some(r)) => match (spec_gen(*l), spec_gen(*r)) {
                (Some(cl), Some(cr)) => Some(cl + cr + seq![Instr::Binary(n.kind)]),
                _ => None,
            },
            _ => None,
        },
    }
}

/// On well-formed trees, code generation succeeds exactly on assignable
/// ones.
pub proof fn lemma_gen_some_iff_assignable(n: Node)
    requires
        node_wf(n),
    ensures
        spec_gen(n) is Some <==> assignable(n),
    decreases n,
{
    match n.kind {
        NodeKind::Num => {},
        NodeKind::Lvar => {},
        NodeKind::Assign => {
            match (n.lhs, n.rhs) {
                (Some(l), Some(r)) => {
                    lemma_gen_some_iff_assignable(*r);
                    assert(node_wf(*l));
                    if l.kind == NodeKind::Lvar {
                        assert(l.offset is Some);
                        assert(spec_gen_lval(*l) is Some);
                    } else {
                        assert(spec_gen_lval(*l) is None);
                    }
                },
                _ => {},
            }
        },
        _ => {
            match (n.lhs, n.rhs) {
                (Some(l), Some(r)) => {
                    lemma_gen_some_iff_assignable(*l);
                    lemma_gen_some_iff_assignable(*r);
                },
                _ => {},
            }
        },
    }
}

fn gen_lval(node: &Node, out: &mut Vec<Instr>) -> (r: bool)
    ensures
        match spec_gen_lval(*node) {
            Some(addr) => r && final(out)@ == old(out)@ + seq![addr],
            None => !r && final(out)@ == old(out)@,
        },
{
    if node.kind == NodeKind::Lvar {
        match node.offset {
            Some(off) => {
                out.push(Instr::PushAddr(off));
                proof {
                    assert(out@ =~= old(out)@ + seq![Instr::PushAddr(off)]);
                }
                true
            },
            None => false,
        }
    } else {
        false
    }
}

fn gen_node(node: &Node, out: &mut Vec<Instr>) -> (r: bool)
    ensures
        match spec_gen(*node) {
            Some(code) => r && final(out)@ == old(out)@ + code,
            None => !r,
        },
    decreases *node,
{
    if node.kind == NodeKind::Num {
        match node.val {
            Some(v) => {
                out.push(Instr::Push(v as i64));
                proof {
                    assert(out@ =~= old(out)@ + seq![Instr::Push(v as i64)]);
                }
                true
            },
            None => false,
        }
    } else if node.kind == NodeKind::Lvar {
        if !gen_lval(node, out) {
            return false;
        }
        out.push(Instr::Load);
        proof {
            match node.offset {
                Some(off) => {
                    assert(out@ =~= old(out)@ + seq![Instr::PushAddr(off), Instr::Load]);
                },
                None => {},
            }
        }
        true
    } else if node.kind == NodeKind::Assign {
        match (&node.lhs, &node.rhs) {
            (Some(l), Some(r)) => {
                let ghost o0 = out@;
                if !gen_lval(&**l, out) {
                    return false;
                }
                if !gen_node(&**r, out) {
                    return false;
                }
                out.push(Instr::Store);
                proof {
                    match (spec_gen_lval(**l), spec_gen(**r)) {
                        (Some(addr), Some(code_r)) => {
                            assert(out@ =~= o0 + (seq![addr] + code_r + seq![Instr::Store]));
                        },
                        _ => {},
                    }
                }
                true
            },
            _ => false,
        }
    } else {
        match (&node.lhs, &node.rhs) {
            (Some(l), Some(r)) => {
                let ghost o0 = out@;
                if !gen_node(&**l, out) {
                    return false;
                }
                if !gen_node(&**r, out) {
                    return false;
                }
                out.push(Instr::Binary(node.kind));
                proof {
                    match (spec_gen(**l), spec_gen(**r)) {
                        (Some(cl), Some(cr)) => {
                            assert(out@ =~= o0 + (cl + cr + seq![Instr::Binary(node.kind)]));
                        },
                        _ => {},
                    }
                }
                true
            },
            _ => false,
        }
    }
}

/// Compiles one statement tree to stack-machine instructions.
///
/// Succeeds exactly when every `Assign` in the tree has a variable on its
/// left; any other tree is `UnexpectedNode`.
pub fn compile(node: &Node) -> (r: Result<Vec<Instr>, CodegenError>)
    requires
        node_wf(*node),
    ensures
        match r {
            Ok(code) => {
                &&& spec_gen(*node) == Some(code@)
                &&& assignable(*node)
            },
            Err(e) => {
                &&& spec_gen(*node) is None
                &&& !assignable(*node)
                &&& e == CodegenError::UnexpectedNode
            },
        },
{
    proof {
        lemma_gen_some_iff_assignable(*node);
    }
    let mut out: Vec<Instr> = Vec::new();
    if gen_node(node, &mut out) {
        proof {
            match spec_gen(*node) {
                Some(code) => {
                    assert(Seq::<Instr>::empty() + code =~= code);
                },
                None => {},
            }
        }
        Ok(out)
    } else {
        Err(CodegenError::UnexpectedNode)
    }
}

/// Law (round trip): the generated code for `Num(v)`, run on any state,
/// leaves exactly `v` as the one new stack value and the slots untouched.
pub proof fn lemma_number_round_trip(v: i32, m: MachineModel)
    requires
        machine_wf(m),
    ensures
        spec_gen(num_node(v)) == Some(seq![Instr::Push(v as i64)]),
        spec_run(m, seq![Instr::Push(v as i64)]) == Some(
            MachineModel { stack: m.stack.push(v as i64), slots: m.slots },
        ),
{
    let prog = seq![Instr::Push(v as i64)];
    let mf = MachineModel { stack: m.stack.push(v as i64), slots: m.slots };
    lemma_run_unfold(m, prog, mf);
    assert(prog.subrange(1, 1) =~= Seq::<Instr>::empty());
}

/// Law (store/load consistency): the generated code for
/// `Assign(Lvar(off), Num(v))`, the per-statement discard, then the
/// generated code for `Lvar(off)`, leaves exactly `v` on the stack: the
/// value read back is the value stored.
pub proof fn lemma_store_load_round_trip(off: u32, v: i32, m: MachineModel)
    requires
        machine_wf(m),
        valid_offset(off),
    ensures
        spec_gen(bin_node(NodeKind::Assign, lvar_node(off), num_node(v))) == Some(
            seq![Instr::PushAddr(off), Instr::Push(v as i64), Instr::Store],
        ),
        spec_gen(lvar_node(off)) == Some(seq![Instr::PushAddr(off), Instr::Load]),
        spec_run(
            m,
            seq![
                Instr::PushAddr(off),
                Instr::Push(v as i64),
                Instr::Store,
                Instr::Discard,
                Instr::PushAddr(off),
                Instr::Load,
            ],
        ) == Some(
            MachineModel {
                stack: m.stack.push(v as i64),
                slots: m.slots.update(addr_slot(off as i64), v as i64),
            },
        ),
{
    assert(spec_gen(num_node(v)) == Some(seq![Instr::Push(v as i64)]));
    assert(seq![Instr::PushAddr(off)] + seq![Instr::Push(v as i64)] + seq![Instr::Store] =~= seq![
        Instr::PushAddr(off),
        Instr::Push(v as i64),
        Instr::Store,
    ]);
    let a = off as i64;
    assert(1 <= a / 8 <= 26) by (nonlinear_arith)
        requires
            8 <= a <= 208,
    ;
    let prog = seq![
        Instr::PushAddr(off),
        Instr::Push(v as i64),
        Instr::Store,
        Instr::Discard,
        Instr::PushAddr(off),
        Instr::Load,
    ];
    let upd = m.slots.update(addr_slot(a), v as i64);
    let m1 = MachineModel { stack: m.stack.push(a), slots: m.slots };
    let m2 = MachineModel { stack: m1.stack.push(v as i64), slots: m.slots };
    let m3 = MachineModel { stack: m.stack.push(v as i64), slots: upd };
    let m4 = MachineModel { stack: m.stack, slots: upd };
    let m5 = MachineModel { stack: m.stack.push(a), slots: upd };
    let mf = MachineModel { stack: m.stack.push(v as i64), slots: upd };
    lemma_run_unfold(m, prog, m1);
    assert(prog.subrange(1, 6) =~= seq![
        Instr::Push(v as i64),
        Instr::Store,
        Instr::Discard,
        Instr::PushAddr(off),
        Instr::Load,
    ]);
    let p2 = seq![
        Instr::Push(v as i64),
        Instr::Store,
        Instr::Discard,
        Instr::PushAddr(off),
        Instr::Load,
    ];
    lemma_run_unfold(m1, p2, m2);
    assert(p2.subrange(1, 5) =~= seq![
        Instr::Store,
        Instr::Discard,
        Instr::PushAddr(off),
        Instr::Load,
    ]);
    let p3 = seq![Instr::Store, Instr::Discard, Instr::PushAddr(off), Instr::Load];
    assert(m2.stack[m2.stack.len() - 2] == a && m2.stack.last() == v as i64);
    assert(m2.stack.drop_last().drop_last().push(v as i64) =~= m.stack.push(v as i64));
    assert(spec_step(m2, Instr::Store) == Some(m3));
    lemma_run_unfold(m2, p3, m3);
    assert(p3.subrange(1, 4) =~= seq![Instr::Discard, Instr::PushAddr(off), Instr::Load]);
    let p4 = seq![Instr::Discard, Instr::PushAddr(off), Instr::Load];
    assert(m3.stack.drop_last() =~= m.stack);
    assert(spec_step(m3, Instr::Discard) == Some(m4));
    lemma_run_unfold(m3, p4, m4);
    assert(p4.subrange(1, 3) =~= seq![Instr::PushAddr(off), Instr::Load]);
    let p5 = seq![Instr::PushAddr(off), Instr::Load];
    lemma_run_unfold(m4, p5, m5);
    assert(p5.subrange(1, 2) =~= seq![Instr::Load]);
    let p6 = seq![Instr::Load];
    assert(upd[addr_slot(a)] == v as i64);
    assert(m5.stack.drop_last().push(v as i64) =~= m.stack.push(v as i64));
    assert(spec_step(m5, Instr::Load) == Some(mf));
    lemma_run_unfold(m5, p6, mf);
    assert(p6.subrange(1, 1) =~= Seq::<Instr>::empty());
    assert(spec_run(mf, Seq::<Instr>::empty()) == Some(mf));
}

/// The views of rendered lines.
pub open spec fn lines_view(v: Seq<String>) -> Seq<Seq<char>> {
    v.map_values(|s: String| s@)
}

/// The assembly operation lines of one binary node kind.
pub open spec fn spec_render_op(k: NodeKind) -> Seq<Seq<char>> {
    match k {
        NodeKind::Add => seq!["  add rax, rdi"@],
        NodeKind::Sub => seq!["  sub rax, rdi"@],
        NodeKind::Mul => seq!["  imul rax, rdi"@],
        NodeKind::Div => seq!["  cqo"@, "  idiv rdi"@],
        NodeKind::Eq => seq!["  cmp rax, rdi"@, "  sete al"@, "  movzb rax, al"@],
        NodeKind::Ne => seq!["  cmp rax, rdi"@, "  setne al"@, "  movzb rax, al"@],
        NodeKind::Lt => seq!["  cmp rax, rdi"@, "  setl al"@, "  movzb rax, al"@],
        NodeKind::Le => seq!["  cmp rax, rdi"@, "  setle al"@, "  movzb rax, al"@],
        _ => Seq::empty(),
    }
}

/// The assembly text of one instruction, line by line.
pub open spec fn spec_render(i: Instr) -> Seq<Seq<char>> {
    match i {
        Instr::Push(v) => seq!["  push "@ + dec_str(v as int)],
        Instr::PushAddr(off) => seq![
            "  mov rax, rbp"@,
            "  sub rax, "@ + dec_str(off as int),
            "  push rax"@,
        ],
        Instr::Load => seq!["  pop rax"@, "  mov rax, [rax]"@, "  push rax"@],
        Instr::Store => seq!["  pop rdi"@, "  pop rax"@, "  mov [rax], rdi"@, "  push rdi"@],
        Instr::Binary(k) => seq!["  pop rdi"@, "  pop rax"@] + spec_render_op(k) + seq![
            "  push rax"@,
        ],
        Instr::Discard => seq!["  pop rax"@],
    }
}

/// The assembly text of an instruction sequence.
pub open spec fn spec_render_all(code: Seq<Instr>) -> Seq<Seq<char>>
    decreases code.len(),
{
    if code.len() == 0 {
        Seq::empty()
    } else {
        spec_render(code[0]) + spec_render_all(code.subrange(1, code.len() as int))
    }
}

fn push_line(out: &mut Vec<String>, s: String)
    ensures
        lines_view(final(out)@) == lines_view(old(out)@) + seq![s@],
{
    let ghost pre = out@;
    let ghost sv = s@;
    out.push(s);
    proof {
        assert(lines_view(out@) =~= lines_view(pre) + seq![sv]);
    }
}

fn push_lit(out: &mut Vec<String>, s: &str)
    ensures
        lines_view(final(out)@) == lines_view(old(out)@) + seq![s@],
{
    push_line(out, String::from_str(s));
}

/// Renders one instruction, appending its assembly lines.
fn render_instr(i: &Instr, out: &mut Vec<String>)
    ensures
        lines_view(final(out)@) == lines_view(old(out)@) + spec_render(*i),
{
    let ghost pre = lines_view(out@);
    match *i {
        Instr::Push(v) => {
            let mut s = String::from_str("  push ");
            let d = i64_dec(v);
            s.append(d.as_str());
            push_line(out, s);
            proof {
                assert(lines_view(out@) =~= pre + spec_render(*i));
            }
        },
        Instr::PushAddr(off) => {
            push_lit(out, "  mov rax, rbp");
            let mut s = String::from_str("  sub rax, ");
            let d = u64_dec(off as u64);
            s.append(d.as_str());
            push_line(out, s);
            push_lit(out, "  push rax");
            proof {
                assert(lines_view(out@) =~= pre + spec_render(*i));
            }
        },
        Instr::Load => {
            push_lit(out, "  pop rax");
            push_lit(out, "  mov rax, [rax]");
            push_lit(out, "  push rax");
            proof {
                assert(lines_view(out@) =~= pre + spec_render(*i));
            }
        },
        Instr::Store => {
            push_lit(out, "  pop rdi");
            push_lit(out, "  pop rax");
            push_lit(out, "  mov [rax], rdi");
            push_lit(out, "  push rdi");
            proof {
                assert(lines_view(out@) =~= pre + spec_render(*i));
            }
        },
        Instr::Binary(k) => {
            push_lit(out, "  pop rdi");
            push_lit(out, "  pop rax");
            match k {
                NodeKind::Add => {
                    push_lit(out, "  add rax, rdi");
                },
                NodeKind::Sub => {
                    push_lit(out, "  sub rax, rdi");
                },
                NodeKind::Mul => {
                    push_lit(out, "  imul rax, rdi");
                },
                NodeKind::Div => {
                    push_lit(out, "  cqo");
                    push_lit(out, "  idiv rdi");
                },
                NodeKind::Eq => {
                    push_lit(out, "  cmp rax, rdi");
                    push_lit(out, "  sete al");
                    push_lit(out, "  movzb rax, al");
                },
                NodeKind::Ne => {
                    push_lit(out, "  cmp rax, rdi");
                    push_lit(out, "  setne al");
                    push_lit(out, "  movzb rax, al");
                },
                NodeKind::Lt => {
                    push_lit(out, "  cmp rax, rdi");
                    push_lit(out, "  setl al");
                    push_lit(out, "  movzb rax, al");
                },
                NodeKind::Le => {
                    push_lit(out, "  cmp rax, rdi");
                    push_lit(out, "  setle al");
                    push_lit(out, "  movzb rax, al");
                },
                _ => {},
            }
            push_lit(out, "  push rax");
            proof {
                assert(lines_view(out@) =~= pre + spec_render(*i));
            }
        },
        Instr::Discard => {
            push_lit(out, "  pop rax");
            proof {
                assert(lines_view(out@) =~= pre + spec_render(*i));
            }
        },
    }
}

/// Generates the assembly lines for one statement tree: the instruction
/// sequence of [`compile`], rendered line by line.
///
/// Succeeds exactly when [`compile`] does.
#[verifier::loop_isolation(false)]
pub fn generate(node: &Node) -> (r: Result<Vec<String>, CodegenError>)
    requires
        node_wf(*node),
    ensures
        match r {
            Ok(lines) => {
                &&& assignable(*node)
                &&& match spec_gen(*node) {
                    Some(code) => lines_view(lines@) == spec_render_all(code),
                    None => false,
                }
            },
            Err(e) => {
                &&& !assignable(*node)
                &&& e == CodegenError::UnexpectedNode
            },
        },
{
    let code = match compile(node) {
        Ok(c) => c,
        Err(e) => {
            return Err(e);
        },
    };
    let mut lines: Vec<String> = Vec::new();
    proof {
        assert(code@.subrange(0, code@.len() as int) =~= code@);
        assert(lines_view(lines@) + spec_render_all(code@) =~= spec_render_all(code@));
    }
    let mut k: usize = 0;
    while k < code.len()
        invariant
            k <= code@.len(),
            spec_render_all(code@) == lines_view(lines@) + spec_render_all(
                code@.subrange(k as int, code@.len() as int),
            ),
        decreases code@.len() - k,
    {
        let ghost rest = code@.subrange(k as int, code@.len() as int);
        let ghost lv0 = lines_view(lines@);
        render_instr(&code[k], &mut lines);
        proof {
            assert(rest[0] == code@[k as int]);
            assert(rest.subrange(1, rest.len() as int) =~= code@.subrange(
                k as int + 1,
                code@.len() as int,
            ));
            assert(lv0 + (spec_render(code@[k as int]) + spec_render_all(
                code@.subrange(k as int + 1, code@.len() as int),
            )) =~= (lv0 + spec_render(code@[k as int])) + spec_render_all(
                code@.subrange(k as int + 1, code@.len() as int),
            ));
        }
        k = k + 1;
    }
    proof {
        assert(code@.subrange(code@.len() as int, code@.len() as int) =~= Seq::<Instr>::empty());
        assert(lines_view(lines@) + Seq::<Seq<char>>::empty() =~= lines_view(lines@));
    }
    Ok(lines)
}

} // verus!
