//! The stack machine that emitted code runs on: an operand stack plus the
//! 26 fixed variable slots, addressed by their frame offsets.
//!
//! [`spec_step`] is the meaning of one instruction and [`spec_run`] of an
//! instruction sequence; [`Machine`] is a verified evaluator for them.  The
//! machine reports division by zero and 64-bit signed overflow as a fault
//! (the real hardware would fault on the former and wrap on the latter;
//! this evaluator upgrades both to a reported fault).  Slots start at zero.

use crate::parser::{valid_offset, NodeKind};
use vstd::prelude::*;

verus! {

broadcast use vstd::std_specs::vec::axiom_spec_len;

/// One stack-machine instruction.
#[derive(Debug, PartialEq, Eq, Structural, Clone, Copy)]
pub enum Instr {
    /// Push an immediate value.
    Push(i64),
    /// Push the address of the variable slot at the given frame offset.
    PushAddr(u32),
    /// Pop an address; push the value stored in its slot.
    Load,
    /// Pop a value, then an address; store the value in the slot and push
    /// the value back.
    Store,
    /// Pop the right operand, then the left; apply the binary operation of
    /// the given node kind; push the result.
    Binary(NodeKind),
    /// Pop and discard the top of the stack.
    Discard,
}

/// The machine state: operand stack and the 26 variable slots.
pub struct MachineModel {
    pub stack: Seq<i64>,
    pub slots: Seq<i64>,
}

pub open spec fn machine_wf(m: MachineModel) -> bool {
    m.slots.len() == 26
}

/// Signed division truncating toward zero, as the hardware divide does.
pub open spec fn trunc_div(x: int, d: int) -> int {
    if x == 0 {
        0
    } else if x > 0 && d > 0 {
        x / d
    } else if x < 0 && d < 0 {
        (x * -1) / (d * -1)
    } else if x < 0 {
        ((x * -1) / d) * -1
    } else {
        (x / (d * -1)) * -1
    }
}

/// The result of one binary operation; `None` on division by zero, overflow
/// of the 64-bit signed range, or a kind that is not a binary operator.
pub open spec fn spec_binop(k: NodeKind, a: i64, b: i64) -> Option<i64> {
    match k {
        NodeKind::Add => if i64::MIN <= a + b <= i64::MAX {
            Some((a + b) as i64)
        } else {
            None
        },
        NodeKind::Sub => if i64::MIN <= a - b <= i64::MAX {
            Some((a - b) as i64)
        } else {
            None
        },
        NodeKind::Mul => if i64::MIN <= a * b <= i64::MAX {
            Some((a * b) as i64)
        } else {
            None
        },
        NodeKind::Div => if b == 0 {
            None
        } else {
            let q = trunc_div(a as int, b as int);
            if i64::MIN <= q <= i64::MAX {
                Some(q as i64)
            } else {
                None
            }
        },
        NodeKind::Eq => Some(
            if a == b {
                1
            } else {
                0
            },
        ),
        NodeKind::Ne => Some(
            if a != b {
                1
            } else {
                0
            },
        ),
        NodeKind::Lt => Some(
            if a < b {
                1
            } else {
                0
            },
        ),
        NodeKind::Le => Some(
            if a <= b {
                1
            } else {
                0
            },
        ),
        _ => None,
    }
}

/// Whether a stack value names a variable slot.
pub open spec fn is_addr(a: i64) -> bool {
    8 <= a <= 208 && a % 8 == 0
}

/// The slot index a valid address names.
pub open spec fn addr_slot(a: i64) -> int {
    a / 8 - 1
}

/// One machine step; `None` on a fault: stack underflow, a bad address, or
/// a failing binary operation.
pub open spec fn spec_step(m: MachineModel, i: Instr) -> Option<MachineModel> {
    match i {
        Instr::Push(v) => Some(MachineModel { stack: m.stack.push(v), slots: m.slots }),
        Instr::PushAddr(off) => if valid_offset(off) {
            Some(MachineModel { stack: m.stack.push(off as i64), slots: m.slots })
        } else {
            None
        },
        Instr::Load => if m.stack.len() >= 1 && is_addr(m.stack.last()) {
            Some(
                MachineModel {
                    stack: m.stack.drop_last().push(m.slots[addr_slot(m.stack.last())]),
                    slots: m.slots,
                },
            )
        } else {
            None
        },
        Instr::Store => if m.stack.len() >= 2 && is_addr(m.stack[m.stack.len() - 2]) {
            Some(
                MachineModel {
                    stack: m.stack.drop_last().drop_last().push(m.stack.last()),
                    slots: m.slots.update(addr_slot(m.stack[m.stack.len() - 2]), m.stack.last()),
                },
            )
        } else {
            None
        },
        Instr::Binary(k) => if m.stack.len() >= 2 {
            match spec_binop(k, m.stack[m.stack.len() - 2], m.stack.last()) {
                Some(v) => Some(
                    MachineModel { stack: m.stack.drop_last().drop_last().push(v), slots: m.slots },
                ),
                None => None,
            }
        } else {
            None
        },
        Instr::Discard => if m.stack.len() >= 1 {
            Some(MachineModel { stack: m.stack.drop_last(), slots: m.slots })
        } else {
            None
        },
    }
}

/// Runs the instructions in order; `None` as soon as one step faults.
pub open spec fn spec_run(m: MachineModel, prog: Seq<Instr>) -> Option<MachineModel>
    decreases prog.len(),
{
    if prog.len() == 0 {
        Some(m)
    } else {
        match spec_step(m, prog[0]) {
            Some(m2) => spec_run(m2, prog.subrange(1, prog.len() as int)),
            None => None,
        }
    }
}

/// One step of `spec_run`, unfolded at the head of a program.
pub proof fn lemma_run_unfold(m: MachineModel, prog: Seq<Instr>, m2: MachineModel)
    requires
        prog.len() >= 1,
        spec_step(m, prog[0]) == Some(m2),
    ensures
        spec_run(m, prog) == spec_run(m2, prog.subrange(1, prog.len() as int)),
{
}

/// Law: for mixed-sign operands the quotient truncates toward zero: its
/// magnitude is the floor quotient of the magnitudes, negated.
pub proof fn lemma_division_truncates_toward_zero(x: int, d: int)
    requires
        (x < 0 && d > 0) || (x > 0 && d < 0),
    ensures
        trunc_div(x, d) == -((if x < 0 {
            -x
        } else {
            x
        }) / (if d < 0 {
            -d
        } else {
            d
        })),
{
}

/// Law: running `[Push a, Push b, Div]` pushes exactly the toward-zero
/// quotient of `a` and `b` and touches nothing else.  The excluded pair
/// (`i64::MIN`, `-1`) is the one whose quotient overflows and faults.
pub proof fn lemma_division_instruction(a: i64, b: i64, m: MachineModel)
    requires
        machine_wf(m),
        b != 0,
        !(a == i64::MIN && b == -1),
    ensures
        spec_run(
            m,
            seq![Instr::Push(a), Instr::Push(b), Instr::Binary(NodeKind::Div)],
        ) == Some(
            MachineModel { stack: m.stack.push(trunc_div(a as int, b as int) as i64), slots: m.slots },
        ),
{
    let q = trunc_div(a as int, b as int);
    let xa: int = if a < 0 {
        -(a as int)
    } else {
        a as int
    };
    let xb: int = if b < 0 {
        -(b as int)
    } else {
        b as int
    };
    assert(xa / xb <= xa) by (nonlinear_arith)
        requires
            xa >= 0,
            xb >= 1,
    ;
    if a == i64::MIN && b != 1 {
        assert(xb >= 2);
        assert(xa / xb <= xa / 2) by (nonlinear_arith)
            requires
                xa >= 0,
                xb >= 2,
        ;
    }
    assert(i64::MIN <= q <= i64::MAX);
    let prog = seq![Instr::Push(a), Instr::Push(b), Instr::Binary(NodeKind::Div)];
    let p2 = seq![Instr::Push(b), Instr::Binary(NodeKind::Div)];
    let p3 = seq![Instr::Binary(NodeKind::Div)];
    let m1 = MachineModel { stack: m.stack.push(a), slots: m.slots };
    let m2 = MachineModel { stack: m1.stack.push(b), slots: m.slots };
    let mf = MachineModel { stack: m.stack.push(q as i64), slots: m.slots };
    assert(m2.stack[m2.stack.len() - 2] == a && m2.stack.last() == b);
    assert(spec_binop(NodeKind::Div, a, b) == Some(q as i64));
    assert(m2.stack.drop_last().drop_last().push(q as i64) =~= m.stack.push(q as i64));
    assert(spec_step(m2, Instr::Binary(NodeKind::Div)) == Some(mf));
    lemma_run_unfold(m, prog, m1);
    assert(prog.subrange(1, 3) =~= p2);
    lemma_run_unfold(m1, p2, m2);
    assert(p2.subrange(1, 2) =~= p3);
    lemma_run_unfold(m2, p3, mf);
    assert(p3.subrange(1, 1) =~= Seq::<Instr>::empty());
    assert(spec_run(mf, Seq::<Instr>::empty()) == Some(mf));
}

/// The evaluator: a real operand stack and slot array, verified to follow
/// [`spec_step`] and [`spec_run`] exactly.
#[derive(Debug)]
pub struct Machine {
    pub stack: Vec<i64>,
    pub slots: Vec<i64>,
}

impl View for Machine {
    type V = MachineModel;

    open spec fn view(&self) -> MachineModel {
        MachineModel { stack: self.stack@, slots: self.slots@ }
    }
}

impl Machine {
    pub open spec fn wf(self) -> bool {
        machine_wf(self@)
    }

    /// A fresh machine: empty stack, every slot zero.
    pub fn new() -> (m: Machine)
        ensures
            m.wf(),
            m@.stack == Seq::<i64>::empty(),
            forall|k: int| 0 <= k < 26 ==> m@.slots[k] == 0i64,
    {
        let mut slots: Vec<i64> = Vec::new();
        let mut k: usize = 0;
        while k < 26
            invariant
                k <= 26,
                slots@.len() == k as int,
                forall|j: int| 0 <= j < k as int ==> slots@[j] == 0i64,
            decreases 26 - k,
    {
            slots.push(0);
            k = k + 1;
        }
        Machine { stack: Vec::new(), slots }
    }

    /// Performs one instruction; reports whether it stepped.  On a fault the
    /// machine is left unchanged.
    pub fn step(&mut self, i: &Instr) -> (r: bool)
        requires
            old(self).wf(),
        ensures
            final(self).wf(),
            match spec_step(old(self)@, *i) {
                Some(m2) => r && final(self)@ == m2,
                None => !r && final(self)@ == old(self)@,
            },
    {
        match *i {
            Instr::Push(v) => {
                self.stack.push(v);
                true
            },
            Instr::PushAddr(off) => {
                if 8 <= off && off <= 208 && off % 8 == 0 {
                    self.stack.push(off as i64);
                    true
                } else {
                    false
                }
            },
            Instr::Load => {
                if self.stack.len() >= 1 {
                    let a = self.stack[self.stack.len() - 1];
                    if 8 <= a && a <= 208 && (a as u64) % 8 == 0 {
                        let idx = (a as u64 / 8 - 1) as usize;
                        let v = self.slots[idx];
                        self.stack.pop();
                        self.stack.push(v);
                        proof {
                            assert(self@.stack =~= old(self)@.stack.drop_last().push(v));
                        }
                        true
                    } else {
                        false
                    }
                } else {
                    false
                }
            },
            Instr::Store => {
                if self.stack.len() >= 2 {
                    let v = self.stack[self.stack.len() - 1];
                    let a = self.stack[self.stack.len() - 2];
                    if 8 <= a && a <= 208 && (a as u64) % 8 == 0 {
                        let idx = (a as u64 / 8 - 1) as usize;
                        self.stack.pop();
                        self.stack.pop();
                        self.stack.push(v);
                        self.slots[idx] = v;
                        proof {
                            assert(self@.stack =~= old(self)@.stack.drop_last().drop_last().push(
                                v,
                            ));
                            assert(self@.slots =~= old(self)@.slots.update(addr_slot(a), v));
                        }
                        true
                    } else {
                        false
                    }
                } else {
                    false
                }
            },
            Instr::Binary(k) => {
                if self.stack.len() >= 2 {
                    let b = self.stack[self.stack.len() - 1];
                    let a = self.stack[self.stack.len() - 2];
                    let res: Option<i64> = match k {
                        NodeKind::Add => a.checked_add(b),
                        NodeKind::Sub => a.checked_sub(b),
                        NodeKind::Mul => a.checked_mul(b),
                        NodeKind::Div => a.checked_div(b),
                        NodeKind::Eq => Some(
                            if a == b {
                                1
                            } else {
                                0
                            },
                        ),
                        NodeKind::Ne => Some(
                            if a != b {
                                1
                            } else {
                                0
                            },
                        ),
                        NodeKind::Lt => Some(
                            if a < b {
                                1
                            } else {
                                0
                            },
                        ),
                        NodeKind::Le => Some(
                            if a <= b {
                                1
                            } else {
                                0
                            },
                        ),
                        _ => None,
                    };
                    proof {
                        assert(res == spec_binop(k, a, b));
                    }
                    match res {
                        Some(v) => {
                            self.stack.pop();
                            self.stack.pop();
                            self.stack.push(v);
                            proof {
                                assert(self@.stack =~= old(self)@.stack.drop_last().drop_last()
                                    .push(v));
                            }
                            true
                        },
                        None => false,
                    }
                } else {
                    false
                }
            },
            Instr::Discard => {
                if self.stack.len() >= 1 {
                    self.stack.pop();
                    proof {
                        assert(self@.stack =~= old(self)@.stack.drop_last());
                    }
                    true
                } else {
                    false
                }
            },
        }
    }

    /// Runs a whole instruction sequence; reports whether every step went
    /// through.  On a fault the machine stays at the faulting state and the
    /// rest is not attempted.
    #[verifier::loop_isolation(false)]
    pub fn run(&mut self, prog: &Vec<Instr>) -> (r: bool)
        requires
            old(self).wf(),
        ensures
            final(self).wf(),
            match spec_run(old(self)@, prog@) {
                Some(m2) => r && final(self)@ == m2,
                None => !r,
            },
    {
        let ghost m0 = self@;
        proof {
            assert(prog@.subrange(0, prog@.len() as int) =~= prog@);
        }
        let mut k: usize = 0;
        while k < prog.len()
            invariant
                self.wf(),
                k <= prog@.len(),
                spec_run(m0, prog@) == spec_run(self@, prog@.subrange(k as int, prog@.len() as int)),
            decreases prog@.len() - k,
        {
            let ghost rest = prog@.subrange(k as int, prog@.len() as int);
            let ok = self.step(&prog[k]);
            proof {
                assert(rest[0] == prog@[k as int]);
                assert(rest.subrange(1, rest.len() as int) =~= prog@.subrange(
                    k as int + 1,
                    prog@.len() as int,
                ));
            }
            if !ok {
                return false;
            }
            k = k + 1;
        }
        proof {
            assert(prog@.subrange(k as int, prog@.len() as int) =~= Seq::<Instr>::empty());
        }
        true
    }
}

} // verus!
