//! The bytecode virtual machine: header validation, fetch, decode,
//! dispatch, and the exact semantics of every opcode.
//!
//! Execution is specified as a step function over the machine state, so
//! `run_once` and `run` are pinned down completely. Faults the image
//! format leaves undefined — truncated instructions, register indices
//! past the register file, division by zero — stop the machine with
//! exit code 1 instead of faulting the host. Float opcodes consume
//! their operands and advance the counter; the float register bank
//! itself lives with the embedder, outside this crate.

use crate::ext::{emit_utf8, le_u32, logical_core_count, new_vm_id, read_u32_le};
use crate::instruction::{code_opcode, Opcode};
use vstd::prelude::*;

verus! {

/// A lifecycle event of one VM run.
#[derive(Debug, Clone, Copy, PartialEq, Eq, Structural)]
pub enum VMEventType {
    /// The machine began a run.
    Start,
    /// The machine stopped on its own: 0 after `HLT`, 1 otherwise.
    GracefulStop { code: u32 },
    /// The machine could not run the image at all.
    Crash { code: u32 },
}

/// A lifecycle event together with the identifier of the machine that
/// emitted it.
#[derive(Debug, Clone)]
pub struct VMEvent {
    pub event: VMEventType,
    pub application_id: uuid::Uuid,
}

impl View for VMEvent {
    type V = VMEventType;

    open spec fn view(&self) -> VMEventType {
        self.event
    }
}

/// The mathematical state of the machine.
#[verifier::ext_equal]
pub struct GVm {
    pub registers: Seq<i32>,
    pub pc: int,
    pub program: Seq<u8>,
    pub heap: Seq<u8>,
    pub remainder: int,
    pub equal_flag: bool,
    pub ro_data: Seq<u8>,
    pub events: Seq<VMEventType>,
    pub logical_cores: int,
}

/// The virtual machine.
#[derive(Debug, Clone)]
pub struct VM {
    /// The integer register file; always 32 registers.
    pub registers: Vec<i32>,
    /// The program counter: the next byte to execute.
    pub pc: usize,
    /// The bytecode image being run.
    pub program: Vec<u8>,
    /// Heap memory, grown by `ALOC`.
    pub heap: Vec<u8>,
    /// The remainder of the last `DIV`.
    pub remainder: usize,
    /// The result of the last comparison opcode.
    pub equal_flag: bool,
    /// The read-only data section of the loaded image.
    pub ro_data: Vec<u8>,
    /// How many logical cores the host machine offers.
    pub logical_cores: usize,
    /// A unique identifier for this machine.
    id: uuid::Uuid,
    /// The events of the current run.
    events: Vec<VMEventType>,
}

impl View for VM {
    type V = GVm;

    closed spec fn view(&self) -> GVm {
        GVm {
            registers: self.registers@,
            pc: self.pc as int,
            program: self.program@,
            heap: self.heap@,
            remainder: self.remainder as int,
            equal_flag: self.equal_flag,
            ro_data: self.ro_data@,
            events: self.events@,
            logical_cores: self.logical_cores as int,
        }
    }
}

impl GVm {
    /// The register file has exactly 32 registers.
    pub open spec fn wf(self) -> bool {
        self.registers.len() == 32
    }
}

/// The 16-bit big-endian immediate held by two operand bytes.
pub open spec fn spec_imm16(hi: u8, lo: u8) -> u16 {
    ((hi as u16) << 8) | (lo as u16)
}

/// The heap after an `ALOC` of `b` bytes: grown with zeroes, or shrunk,
/// by the signed request.
pub open spec fn spec_aloc_heap(heap: Seq<u8>, b: i32) -> Seq<u8> {
    if b >= 0 {
        heap + Seq::new(b as nat, |i: int| 0u8)
    } else if heap.len() + b >= 0 {
        heap.take(heap.len() + b)
    } else {
        Seq::<u8>::empty()
    }
}

/// One fetch-decode-dispatch step of the machine.
///
/// The returned option is `None` while execution continues, `Some(0)`
/// after `HLT`, and `Some(1)` when the program ends or cannot go on: the
/// counter has left the program, the instruction is truncated, a
/// register index is 32 or more, the opcode is illegal, or a division
/// is undefined. A fault leaves the state unchanged.
pub open spec fn spec_step(v: GVm) -> (GVm, Option<u32>) {
    let len = v.program.len() as int;
    if v.pc < 0 || v.pc >= len {
        (v, Option::Some(1u32))
    } else {
        let op = code_opcode(v.program[v.pc]);
        match op {
            Opcode::HLT => (GVm { pc: v.pc + 1, ..v }, Option::Some(0u32)),
            Opcode::IGL => (GVm { pc: v.pc + 1, ..v }, Option::Some(1u32)),
            Opcode::JMP => if v.pc + 2 <= len && (v.program[v.pc + 1] as int) < 32 {
                (
                    GVm {
                        pc: (v.registers[v.program[v.pc + 1] as int] as usize) as int,
                        ..v
                    },
                    Option::None,
                )
            } else {
                (v, Option::Some(1u32))
            },
            Opcode::JMPF => if v.pc + 2 <= len && (v.program[v.pc + 1] as int) < 32 {
                (
                    GVm {
                        pc: ((v.pc + 2) as usize).wrapping_add(
                            v.registers[v.program[v.pc + 1] as int] as usize,
                        ) as int,
                        ..v
                    },
                    Option::None,
                )
            } else {
                (v, Option::Some(1u32))
            },
            Opcode::JMPB => if v.pc + 2 <= len && (v.program[v.pc + 1] as int) < 32 {
                (
                    GVm {
                        pc: ((v.pc + 2) as usize).wrapping_sub(
                            v.registers[v.program[v.pc + 1] as int] as usize,
                        ) as int,
                        ..v
                    },
                    Option::None,
                )
            } else {
                (v, Option::Some(1u32))
            },
            _ => if v.pc + 4 <= len {
                spec_step_wide(v, op)
            } else {
                (v, Option::Some(1u32))
            },
        }
    }
}

/// The step of every opcode that consumes three operand bytes; the
/// counter has already been checked to have four bytes in reach.
pub open spec fn spec_step_wide(v: GVm, op: Opcode) -> (GVm, Option<u32>) {
    let b1 = v.program[v.pc + 1] as int;
    let b2 = v.program[v.pc + 2] as int;
    let b3 = v.program[v.pc + 3] as int;
    let pc4 = v.pc + 4;
    match op {
        Opcode::LOAD => if b1 < 32 {
            (
                GVm {
                    registers: v.registers.update(
                        b1,
                        spec_imm16(v.program[v.pc + 2], v.program[v.pc + 3]) as i32,
                    ),
                    pc: pc4,
                    ..v
                },
                Option::None,
            )
        } else {
            (v, Option::Some(1u32))
        },
        Opcode::ADD => if b1 < 32 && b2 < 32 && b3 < 32 {
            (
                GVm {
                    registers: v.registers.update(
                        b3,
                        v.registers[b1].wrapping_add(v.registers[b2]),
                    ),
                    pc: pc4,
                    ..v
                },
                Option::None,
            )
        } else {
            (v, Option::Some(1u32))
        },
        Opcode::SUB => if b1 < 32 && b2 < 32 && b3 < 32 {
            (
                GVm {
                    registers: v.registers.update(
                        b3,
                        v.registers[b1].wrapping_sub(v.registers[b2]),
                    ),
                    pc: pc4,
                    ..v
                },
                Option::None,
            )
        } else {
            (v, Option::Some(1u32))
        },
        Opcode::MUL => if b1 < 32 && b2 < 32 && b3 < 32 {
            (
                GVm {
                    registers: v.registers.update(
                        b3,
                        v.registers[b1].wrapping_mul(v.registers[b2]),
                    ),
                    pc: pc4,
                    ..v
                },
                Option::None,
            )
        } else {
            (v, Option::Some(1u32))
        },
        Opcode::DIV => if b1 < 32 && b2 < 32 && b3 < 32 {
            match (
                v.registers[b1].checked_div(v.registers[b2]),
                v.registers[b1].checked_rem(v.registers[b2]),
            ) {
                (Option::Some(q), Option::Some(rm)) => (
                    GVm {
                        registers: v.registers.update(b3, q),
                        remainder: (rm as usize) as int,
                        pc: pc4,
                        ..v
                    },
                    Option::None,
                ),
                _ => (v, Option::Some(1u32)),
            }
        } else {
            (v, Option::Some(1u32))
        },
        Opcode::EQ => if b1 < 32 && b2 < 32 {
            (
                GVm { equal_flag: v.registers[b1] == v.registers[b2], pc: pc4, ..v },
                Option::None,
            )
        } else {
            (v, Option::Some(1u32))
        },
        Opcode::NEQ => if b1 < 32 && b2 < 32 {
            (
                GVm { equal_flag: v.registers[b1] != v.registers[b2], pc: pc4, ..v },
                Option::None,
            )
        } else {
            (v, Option::Some(1u32))
        },
        Opcode::GT => if b1 < 32 && b2 < 32 {
            (
                GVm { equal_flag: v.registers[b1] > v.registers[b2], pc: pc4, ..v },
                Option::None,
            )
        } else {
            (v, Option::Some(1u32))
        },
        Opcode::LT => if b1 < 32 && b2 < 32 {
            (
                GVm { equal_flag: v.registers[b1] < v.registers[b2], pc: pc4, ..v },
                Option::None,
            )
        } else {
            (v, Option::Some(1u32))
        },
        Opcode::GTE => if b1 < 32 && b2 < 32 {
            (
                GVm { equal_flag: v.registers[b1] >= v.registers[b2], pc: pc4, ..v },
                Option::None,
            )
        } else {
            (v, Option::Some(1u32))
        },
        Opcode::LTE => if b1 < 32 && b2 < 32 {
            (
                GVm { equal_flag: v.registers[b1] <= v.registers[b2], pc: pc4, ..v },
                Option::None,
            )
        } else {
            (v, Option::Some(1u32))
        },
        Opcode::JMPE => if b1 < 32 {
            if v.equal_flag {
                (GVm { pc: (v.registers[b1] as usize) as int, ..v }, Option::None)
            } else {
                (GVm { pc: pc4, ..v }, Option::None)
            }
        } else {
            (v, Option::Some(1u32))
        },
        Opcode::NOP => (GVm { pc: pc4, ..v }, Option::None),
        Opcode::ALOC => if b1 < 32 {
            if v.registers[b1] >= 0 && v.heap.len() + v.registers[b1] > usize::MAX {
                (v, Option::Some(1u32))
            } else {
                (
                    GVm { heap: spec_aloc_heap(v.heap, v.registers[b1]), pc: pc4, ..v },
                    Option::None,
                )
            }
        } else {
            (v, Option::Some(1u32))
        },
        Opcode::INC => if b1 < 32 {
            (
                GVm {
                    registers: v.registers.update(b1, v.registers[b1].wrapping_add(1)),
                    pc: pc4,
                    ..v
                },
                Option::None,
            )
        } else {
            (v, Option::Some(1u32))
        },
        Opcode::DEC => if b1 < 32 {
            (
                GVm {
                    registers: v.registers.update(b1, v.registers[b1].wrapping_sub(1)),
                    pc: pc4,
                    ..v
                },
                Option::None,
            )
        } else {
            (v, Option::Some(1u32))
        },
        Opcode::DJMPE => if v.equal_flag {
            (
                GVm {
                    pc: spec_imm16(v.program[v.pc + 1], v.program[v.pc + 2]) as int,
                    ..v
                },
                Option::None,
            )
        } else {
            (GVm { pc: pc4, ..v }, Option::None)
        },
        Opcode::PRTS => (GVm { pc: pc4, ..v }, Option::None),
        _ => (GVm { pc: pc4, ..v }, Option::None),
    }
}

/// Whether the image opens with the magic prefix and holds a length
/// field.
pub open spec fn spec_header_ok(p: Seq<u8>) -> bool {
    p.len() >= 8 && p.subrange(0, 4) == crate::pie_prefix()
}

/// How many steps one `run` will take at most. The bound only makes the
/// interpreter loop provably finite; a program this long-running is
/// stopped with a crash event.
pub open spec fn step_limit() -> nat {
    0xFFFF_FFFF_FFFF_FFFF as nat
}

/// The machine stepped until it stops or the fuel runs out.
pub open spec fn spec_run_loop(v: GVm, fuel: nat) -> (GVm, Option<u32>)
    decreases fuel,
{
    if fuel == 0 {
        (v, Option::None)
    } else {
        let s = spec_step(v);
        match s.1 {
            Option::Some(c) => (s.0, Option::Some(c)),
            Option::None => spec_run_loop(s.0, (fuel - 1) as nat),
        }
    }
}

/// The read-only data a run loads: the `l` bytes after the header, or
/// as many of them as the image holds.
pub open spec fn spec_loaded_ro(p: Seq<u8>, l: int) -> Seq<u8> {
    if 64 + l <= p.len() {
        p.subrange(64, 64 + l)
    } else if p.len() >= 64 {
        p.subrange(64, p.len() as int)
    } else {
        Seq::<u8>::empty()
    }
}

/// A whole run: the start event; a crash event when the header is bad;
/// otherwise the counter moves past header and read-only data, the
/// machine steps until it stops, and the stop code becomes the final
/// event.
pub open spec fn spec_run(v: GVm) -> GVm {
    let v1 = GVm { events: v.events.push(VMEventType::Start), ..v };
    if !spec_header_ok(v1.program) {
        GVm { events: v1.events.push(VMEventType::Crash { code: 1u32 }), ..v1 }
    } else {
        let l = le_u32(v1.program.subrange(4, 8)) as int;
        let start = if 64 + l <= usize::MAX {
            64 + l
        } else {
            usize::MAX as int
        };
        let v2 = GVm { pc: start, ro_data: spec_loaded_ro(v1.program, l), ..v1 };
        let s = spec_run_loop(v2, step_limit());
        match s.1 {
            Option::Some(c) => GVm {
                events: s.0.events.push(VMEventType::GracefulStop { code: c }),
                ..s.0
            },
            Option::None => GVm {
                events: s.0.events.push(VMEventType::Crash { code: 1u32 }),
                ..s.0
            },
        }
    }
}

impl VM {
    /// Creates a machine with zeroed registers and an empty program.
    pub fn new() -> (r: VM)
        ensures
            r@.registers == Seq::new(32, |i: int| 0i32),
            r@.pc == 0,
            r@.program == Seq::<u8>::empty(),
            r@.heap == Seq::<u8>::empty(),
            r@.remainder == 0,
            r@.equal_flag == false,
            r@.ro_data == Seq::<u8>::empty(),
            r@.events == Seq::<VMEventType>::empty(),
            r@.logical_cores >= 1,
            r@.wf(),
    {
        let mut registers: Vec<i32> = Vec::new();
        while registers.len() < 32
            invariant
                registers@.len() <= 32,
                forall|j: int| 0 <= j < registers@.len() ==> registers@[j] == 0,
            decreases 32 - registers@.len(),
        {
            registers.push(0);
        }
        let r = VM {
            registers,
            pc: 0,
            program: Vec::new(),
            heap: Vec::new(),
            remainder: 0,
            equal_flag: false,
            ro_data: Vec::new(),
            logical_cores: logical_core_count(),
            id: new_vm_id(),
            events: Vec::new(),
        };
        proof {
            assert(r@.registers =~= Seq::new(32, |i: int| 0i32));
        }
        r
    }

    /// Appends one byte to the machine's program.
    pub fn add_byte(&mut self, b: u8)
        ensures
            final(self)@ == (GVm { program: old(self)@.program.push(b), ..old(self)@ }),
    {
        self.program.push(b);
        proof {
            assert(self@ =~= (GVm { program: old(self)@.program.push(b), ..old(self)@ }));
        }
    }

    /// Appends bytes to the machine's program.
    pub fn add_bytes(&mut self, b: Vec<u8>)
        ensures
            final(self)@ == (GVm { program: old(self)@.program + b@, ..old(self)@ }),
    {
        let mut bytes = b;
        self.program.append(&mut bytes);
        proof {
            assert(self@ =~= (GVm { program: old(self)@.program + b@, ..old(self)@ }));
        }
    }

    /// Whether the loaded image opens with the magic prefix.
    fn verify_header(&self) -> (r: bool)
        ensures
            r == spec_header_ok(self@.program),
    {
        if self.program.len() < 8 {
            return false;
        }
        let ok = self.program[0] == 0x45 && self.program[1] == 0x50 && self.program[2] == 0x49
            && self.program[3] == 0x45;
        proof {
            if ok {
                assert(self@.program.subrange(0, 4) =~= crate::pie_prefix());
            } else {
                assert(self@.program.subrange(0, 4) != crate::pie_prefix()) by {
                    if self@.program.subrange(0, 4) == crate::pie_prefix() {
                        assert(self@.program.subrange(0, 4)[0] == 0x45u8);
                        assert(self@.program.subrange(0, 4)[1] == 0x50u8);
                        assert(self@.program.subrange(0, 4)[2] == 0x49u8);
                        assert(self@.program.subrange(0, 4)[3] == 0x45u8);
                    }
                }
            }
        }
        ok
    }

    /// Reads the length of the read-only data out of the header.
    fn get_starting_offset(&self) -> (r: u32)
        requires
            self@.program.len() >= 8,
        ensures
            r == le_u32(self@.program.subrange(4, 8)),
    {
        let sl = vstd::slice::slice_subrange(self.program.as_slice(), 4, 8);
        read_u32_le(sl)
    }

    /// Executes one instruction; `None` means execution continues.
    fn execute_instruction(&mut self) -> (r: Option<u32>)
        requires
            old(self)@.wf(),
        ensures
            final(self)@ == spec_step(old(self)@).0,
            r == spec_step(old(self)@).1,
            final(self)@.wf(),
            final(self)@.program == old(self)@.program,
    {
        if self.pc >= self.program.len() {
            return Option::Some(1);
        }
        let op = Opcode::from_byte(self.program[self.pc]);
        match op {
            Opcode::HLT => {
                self.pc = self.pc + 1;
                proof {
                    assert(self@ =~= spec_step(old(self)@).0);
                }
                Option::Some(0)
            },
            Opcode::IGL => {
                self.pc = self.pc + 1;
                proof {
                    assert(self@ =~= spec_step(old(self)@).0);
                }
                Option::Some(1)
            },
            Opcode::JMP => {
                if self.program.len() - self.pc < 2 {
                    return Option::Some(1);
                }
                let r1 = self.program[self.pc + 1] as usize;
                if r1 >= 32 {
                    return Option::Some(1);
                }
                let target = self.registers[r1];
                self.pc = #[verifier::truncate] (target as usize);
                proof {
                    assert(self@ =~= spec_step(old(self)@).0);
                }
                Option::None
            },
            Opcode::JMPF => {
                if self.program.len() - self.pc < 2 {
                    return Option::Some(1);
                }
                let r1 = self.program[self.pc + 1] as usize;
                if r1 >= 32 {
                    return Option::Some(1);
                }
                let value = #[verifier::truncate] (self.registers[r1] as usize);
                self.pc = (self.pc + 2).wrapping_add(value);
                proof {
                    assert(self@ =~= spec_step(old(self)@).0);
                }
                Option::None
            },
            Opcode::JMPB => {
                if self.program.len() - self.pc < 2 {
                    return Option::Some(1);
                }
                let r1 = self.program[self.pc + 1] as usize;
                if r1 >= 32 {
                    return Option::Some(1);
                }
                let value = #[verifier::truncate] (self.registers[r1] as usize);
                self.pc = (self.pc + 2).wrapping_sub(value);
                proof {
                    assert(self@ =~= spec_step(old(self)@).0);
                }
                Option::None
            },
            _ => {
                if self.program.len() - self.pc < 4 {
                    return Option::Some(1);
                }
                self.step_wide(op)
            },
        }
    }

    /// Executes one opcode that consumes three operand bytes.
    #[verifier::rlimit(100)]
    #[verifier::loop_isolation(false)]
    fn step_wide(&mut self, op: Opcode) -> (r: Option<u32>)
        requires
            old(self)@.wf(),
            old(self)@.pc + 4 <= old(self)@.program.len(),
            op == code_opcode(old(self)@.program[old(self)@.pc]),
            !matches!(
                op,
                Opcode::HLT | Opcode::IGL | Opcode::JMP | Opcode::JMPF | Opcode::JMPB
            ),
        ensures
            final(self)@ == spec_step(old(self)@).0,
            r == spec_step(old(self)@).1,
            final(self)@.wf(),
            final(self)@.program == old(self)@.program,
    {
        let n = self.program.len();
        proof {
            assert(self.pc as int + 4 <= n);
        }
        let b1 = self.program[self.pc + 1] as usize;
        let b2 = self.program[self.pc + 2] as usize;
        let b3 = self.program[self.pc + 3] as usize;
        match op {
            Opcode::LOAD => {
                if b1 >= 32 {
                    return Option::Some(1);
                }
                let hi = self.program[self.pc + 2];
                let lo = self.program[self.pc + 3];
                let number: u16 = ((hi as u16) << 8) | (lo as u16);
                self.registers.set(b1, number as i32);
                self.pc = self.pc + 4;
                proof {
                    assert(self@ =~= spec_step(old(self)@).0);
                }
                Option::None
            },
            Opcode::ADD => {
                if b1 >= 32 || b2 >= 32 || b3 >= 32 {
                    return Option::Some(1);
                }
                let value = self.registers[b1].wrapping_add(self.registers[b2]);
                self.registers.set(b3, value);
                self.pc = self.pc + 4;
                proof {
                    assert(self@ =~= spec_step(old(self)@).0);
                }
                Option::None
            },
            Opcode::SUB => {
                if b1 >= 32 || b2 >= 32 || b3 >= 32 {
                    return Option::Some(1);
                }
                let value = self.registers[b1].wrapping_sub(self.registers[b2]);
                self.registers.set(b3, value);
                self.pc = self.pc + 4;
                proof {
                    assert(self@ =~= spec_step(old(self)@).0);
                }
                Option::None
            },
            Opcode::MUL => {
                if b1 >= 32 || b2 >= 32 || b3 >= 32 {
                    return Option::Some(1);
                }
                let value = self.registers[b1].wrapping_mul(self.registers[b2]);
                self.registers.set(b3, value);
                self.pc = self.pc + 4;
                proof {
                    assert(self@ =~= spec_step(old(self)@).0);
                }
                Option::None
            },
            Opcode::DIV => {
                if b1 >= 32 || b2 >= 32 || b3 >= 32 {
                    return Option::Some(1);
                }
                let a = self.registers[b1];
                let d = self.registers[b2];
                match (a.checked_div(d), a.checked_rem(d)) {
                    (Option::Some(q), Option::Some(rm)) => {
                        self.registers.set(b3, q);
                        self.remainder = #[verifier::truncate] (rm as usize);
                        self.pc = self.pc + 4;
                        proof {
                            assert(self@ =~= spec_step(old(self)@).0);
                        }
                        Option::None
                    },
                    _ => Option::Some(1),
                }
            },
            Opcode::EQ => {
                if b1 >= 32 || b2 >= 32 {
                    return Option::Some(1);
                }
                self.equal_flag = self.registers[b1] == self.registers[b2];
                self.pc = self.pc + 4;
                proof {
                    assert(self@ =~= spec_step(old(self)@).0);
                }
                Option::None
            },
            Opcode::NEQ => {
                if b1 >= 32 || b2 >= 32 {
                    return Option::Some(1);
                }
                self.equal_flag = self.registers[b1] != self.registers[b2];
                self.pc = self.pc + 4;
                proof {
                    assert(self@ =~= spec_step(old(self)@).0);
                }
                Option::None
            },
            Opcode::GT => {
                if b1 >= 32 || b2 >= 32 {
                    return Option::Some(1);
                }
                self.equal_flag = self.registers[b1] > self.registers[b2];
                self.pc = self.pc + 4;
                proof {
                    assert(self@ =~= spec_step(old(self)@).0);
                }
                Option::None
            },
            Opcode::LT => {
                if b1 >= 32 || b2 >= 32 {
                    return Option::Some(1);
                }
                self.equal_flag = self.registers[b1] < self.registers[b2];
                self.pc = self.pc + 4;
                proof {
                    assert(self@ =~= spec_step(old(self)@).0);
                }
                Option::None
            },
            Opcode::GTE => {
                if b1 >= 32 || b2 >= 32 {
                    return Option::Some(1);
                }
                self.equal_flag = self.registers[b1] >= self.registers[b2];
                self.pc = self.pc + 4;
                proof {
                    assert(self@ =~= spec_step(old(self)@).0);
                }
                Option::None
            },
            Opcode::LTE => {
                if b1 >= 32 || b2 >= 32 {
                    return Option::Some(1);
                }
                self.equal_flag = self.registers[b1] <= self.registers[b2];
                self.pc = self.pc + 4;
                proof {
                    assert(self@ =~= spec_step(old(self)@).0);
                }
                Option::None
            },
            Opcode::JMPE => {
                if b1 >= 32 {
                    return Option::Some(1);
                }
                if self.equal_flag {
                    let target = self.registers[b1];
                    self.pc = #[verifier::truncate] (target as usize);
                } else {
                    self.pc = self.pc + 4;
                }
                proof {
                    assert(self@ =~= spec_step(old(self)@).0);
                }
                Option::None
            },
            Opcode::NOP => {
                self.pc = self.pc + 4;
                proof {
                    assert(self@ =~= spec_step(old(self)@).0);
                }
                Option::None
            },
            Opcode::ALOC => {
                if b1 >= 32 {
                    return Option::Some(1);
                }
                let bytes = self.registers[b1];
                if bytes >= 0 {
                    let add = bytes as usize;
                    match self.heap.len().checked_add(add) {
                        Option::None => Option::Some(1),
                        Option::Some(new_len) => {
                            let ghost h0 = self.heap@;
                            while self.heap.len() < new_len
                                invariant
                                    h0.len() <= self.heap@.len() <= new_len,
                                    self.heap@.take(h0.len() as int) == h0,
                                    forall|j: int|
                                        h0.len() <= j < self.heap@.len() ==> self.heap@[j] == 0,
                                    self@ == (GVm { heap: self.heap@, ..old(self)@ }),
                                decreases new_len - self.heap@.len(),
                            {
                                self.heap.push(0);
                            }
                            self.pc = self.pc + 4;
                            proof {
                                assert(self.heap@ =~= h0 + Seq::new(
                                    (new_len - h0.len()) as nat,
                                    |i: int| 0u8,
                                ));
                                assert(self@ =~= spec_step(old(self)@).0);
                            }
                            Option::None
                        },
                    }
                } else {
                    let m = (-(bytes as i64)) as usize;
                    let new_len: usize = if m <= self.heap.len() {
                        self.heap.len() - m
                    } else {
                        0
                    };
                    self.heap.truncate(new_len);
                    self.pc = self.pc + 4;
                    proof {
                        assert(self.heap@ =~= spec_aloc_heap(old(self)@.heap, bytes));
                        assert(self@ =~= spec_step(old(self)@).0);
                    }
                    Option::None
                }
            },
            Opcode::INC => {
                if b1 >= 32 {
                    return Option::Some(1);
                }
                let value = self.registers[b1].wrapping_add(1);
                self.registers.set(b1, value);
                self.pc = self.pc + 4;
                proof {
                    assert(self@ =~= spec_step(old(self)@).0);
                }
                Option::None
            },
            Opcode::DEC => {
                if b1 >= 32 {
                    return Option::Some(1);
                }
                let value = self.registers[b1].wrapping_sub(1);
                self.registers.set(b1, value);
                self.pc = self.pc + 4;
                proof {
                    assert(self@ =~= spec_step(old(self)@).0);
                }
                Option::None
            },
            Opcode::DJMPE => {
                if self.equal_flag {
                    let hi = self.program[self.pc + 1];
                    let lo = self.program[self.pc + 2];
                    let destination: u16 = ((hi as u16) << 8) | (lo as u16);
                    self.pc = destination as usize;
                } else {
                    self.pc = self.pc + 4;
                }
                proof {
                    assert(self@ =~= spec_step(old(self)@).0);
                }
                Option::None
            },
            Opcode::PRTS => {
                let hi = self.program[self.pc + 1];
                let lo = self.program[self.pc + 2];
                let starting_offset = (((hi as u16) << 8) | (lo as u16)) as usize;
                let mut ending_offset = starting_offset;
                while ending_offset < self.ro_data.len() && self.ro_data[ending_offset] != 0
                    invariant
                        starting_offset <= ending_offset,
                        self.ro_data@.len() == old(self).ro_data@.len(),
                        self@ == old(self)@,
                        ending_offset <= self.ro_data@.len() || ending_offset
                            == starting_offset,
                    decreases self.ro_data@.len() - ending_offset,
                {
                    ending_offset = ending_offset + 1;
                }
                if starting_offset <= self.ro_data.len() && ending_offset <= self.ro_data.len() {
                    let sl = vstd::slice::slice_subrange(
                        self.ro_data.as_slice(),
                        starting_offset,
                        ending_offset,
                    );
                    emit_utf8(sl);
                }
                self.pc = self.pc + 4;
                proof {
                    assert(self@ =~= spec_step(old(self)@).0);
                }
                Option::None
            },
            _ => {
                self.pc = self.pc + 4;
                proof {
                    assert(self@ =~= spec_step(old(self)@).0);
                }
                Option::None
            },
        }
    }

    /// Executes one instruction, for controlled stepping from outside.
    pub fn run_once(&mut self)
        requires
            old(self)@.wf(),
        ensures
            final(self)@ == spec_step(old(self)@).0,
            final(self)@.wf(),
    {
        let _ = self.execute_instruction();
    }

    /// The events of the run so far, each stamped with this machine's
    /// identifier.
    fn collect_events(&self) -> (r: Vec<VMEvent>)
        ensures
            r@.map_values(|e: VMEvent| e@) == self@.events,
    {
        let mut out: Vec<VMEvent> = Vec::new();
        let n = self.events.len();
        let mut i: usize = 0;
        proof {
            assert(out@.map_values(|e: VMEvent| e@) =~= self@.events.take(0));
        }
        while i < n
            invariant
                i <= n,
                n == self.events@.len(),
                self@.events.len() == n,
                out@.map_values(|e: VMEvent| e@) == self@.events.take(i as int),
            decreases n - i,
        {
            let ev = VMEvent { event: self.events[i], application_id: self.id.clone() };
            proof {
                assert(out@.push(ev).map_values(|e: VMEvent| e@) =~= out@.map_values(
                    |e: VMEvent| e@,
                ).push(ev@));
                assert(self@.events.take(i as int).push(self@.events[i as int]) =~= self@
                    .events.take(i + 1));
            }
            out.push(ev);
            i = i + 1;
        }
        proof {
            assert(self@.events.take(n as int) =~= self@.events);
        }
        out
    }

    /// Runs the loaded image to completion: validates the header, loads
    /// the read-only data, points the counter at the first instruction,
    /// and steps until the machine stops. Returns the run's events.
    #[verifier::loop_isolation(false)]
    pub fn run(&mut self) -> (r: Vec<VMEvent>)
        requires
            old(self)@.wf(),
        ensures
            final(self)@ == spec_run(old(self)@),
            r@.map_values(|e: VMEvent| e@) == final(self)@.events,
            final(self)@.wf(),
    {
        self.events.push(VMEventType::Start);
        let ghost v1 = GVm { events: old(self)@.events.push(VMEventType::Start), ..old(self)@ };
        proof {
            assert(self@ =~= v1);
        }
        if !self.verify_header() {
            self.events.push(VMEventType::Crash { code: 1 });
            proof {
                assert(self@ =~= spec_run(old(self)@));
            }
            return self.collect_events();
        }
        let l = self.get_starting_offset();
        self.pc = match 64usize.checked_add(l as usize) {
            Option::Some(p) => p,
            Option::None => usize::MAX,
        };
        if self.program.len() >= 64 {
            let lim: usize = if (l as usize) <= self.program.len() - 64 {
                64 + (l as usize)
            } else {
                self.program.len()
            };
            let mut ro: Vec<u8> = Vec::new();
            let mut i: usize = 64;
            proof {
                assert(ro@ =~= self@.program.subrange(64, 64));
            }
            while i < lim
                invariant
                    64 <= i <= lim,
                    lim <= self.program@.len(),
                    self@.program.len() == self.program@.len(),
                    ro@ == self@.program.subrange(64, i as int),
                    self@ == old(self)@ || self@ == (GVm { pc: self@.pc, events: self@.events, ..old(self)@ }),
                decreases lim - i,
            {
                let b = self.program[i];
                proof {
                    assert(self@.program.subrange(64, i as int).push(
                        self@.program[i as int],
                    ) =~= self@.program.subrange(64, i + 1));
                }
                ro.push(b);
                i = i + 1;
            }
            self.ro_data = ro;
        } else {
            self.ro_data = Vec::new();
            proof {
                assert(self@.ro_data =~= Seq::<u8>::empty());
            }
        }
        let ghost v2 = GVm {
            pc: self@.pc,
            ro_data: spec_loaded_ro(v1.program, le_u32(v1.program.subrange(4, 8)) as int),
            ..v1
        };
        proof {
            assert(self@ =~= v2);
        }
        let mut fuel: u64 = u64::MAX;
        let mut is_done: Option<u32> = Option::None;
        while is_done.is_none() && fuel > 0
            invariant
                self@.wf(),
                self@.program == v2.program,
                (match is_done {
                    Option::Some(c) => spec_run_loop(v2, step_limit()) == (
                        self@,
                        Option::Some(c),
                    ),
                    Option::None => spec_run_loop(v2, step_limit()) == spec_run_loop(
                        self@,
                        fuel as nat,
                    ),
                }),
            decreases fuel,
        {
            let ghost pre = self@;
            let ghost f0 = fuel;
            is_done = self.execute_instruction();
            fuel = fuel - 1;
            proof {
                assert(spec_run_loop(pre, f0 as nat) == (match spec_step(pre).1 {
                    Option::Some(c) => (spec_step(pre).0, Option::Some(c)),
                    Option::None => spec_run_loop(spec_step(pre).0, (f0 - 1) as nat),
                }));
            }
        }
        match is_done {
            Option::Some(code) => {
                self.events.push(VMEventType::GracefulStop { code });
                proof {
                    assert(self@ =~= spec_run(old(self)@));
                }
            },
            Option::None => {
                self.events.push(VMEventType::Crash { code: 1 });
                proof {
                    assert(spec_run_loop(v2, step_limit()).1 is None);
                    assert(self@ =~= spec_run(old(self)@));
                }
            },
        }
        self.collect_events()
    }
}

/// The opcodes that redirect the program counter.
pub open spec fn spec_control_op(op: Opcode) -> bool {
    op == Opcode::JMP || op == Opcode::JMPF || op == Opcode::JMPB || op == Opcode::JMPE || op
        == Opcode::DJMPE
}

/// One step never advances the counter by more than four bytes, for any
/// opcode that does not redirect it.
pub proof fn lemma_step_pc_bound(v: GVm)
    requires
        v.pc >= 0,
        (v.pc < v.program.len() ==> !spec_control_op(code_opcode(v.program[v.pc]))),
    ensures
        v.pc <= spec_step(v).0.pc <= v.pc + 4,
{
}

/// The opcode in the instruction slot `k` slots after `base`.
pub open spec fn spec_slot_opcode(p: Seq<u8>, base: int, k: int) -> Opcode {
    code_opcode(p[base + 4 * k])
}

/// Whether an opcode can keep execution from running off the end: a
/// halt or a control-flow opcode.
pub open spec fn spec_stop_op(op: Opcode) -> bool {
    op == Opcode::HLT || spec_control_op(op)
}

/// Every instruction slot from `base` to the end of the program holds
/// neither a halt nor a control-flow opcode.
pub open spec fn spec_straight_slots(p: Seq<u8>, base: int) -> bool {
    forall|k: int|
        0 <= k && base + 4 * k < p.len() ==> !spec_stop_op(#[trigger] spec_slot_opcode(p, base, k))
}

/// A machine whose remaining instruction slots hold no halt and no
/// control-flow opcode stops by leaving the program, or on a fault,
/// with stop code 1 — never with the halt code 0.
#[verifier::rlimit(100)]
pub proof fn lemma_straight_run_stops(v: GVm, fuel: nat)
    requires
        v.pc >= 0,
        fuel >= 1,
        fuel >= v.program.len() - v.pc + 1,
        spec_straight_slots(v.program, v.pc),
    ensures
        spec_run_loop(v, fuel).1 == Option::Some(1u32),
    decreases fuel,
{
    if v.pc >= v.program.len() {
    } else {
        assert(spec_slot_opcode(v.program, v.pc, 0) == code_opcode(v.program[v.pc]));
        let s = spec_step(v);
        if s.1 is None {
            assert(s.0.pc == v.pc + 4);
            assert(s.0.program == v.program);
            assert forall|k: int| 0 <= k && s.0.pc + 4 * k < s.0.program.len() implies !spec_stop_op(
                #[trigger] spec_slot_opcode(s.0.program, s.0.pc, k),
            ) by {
                assert(spec_slot_opcode(v.program, v.pc, k + 1) == spec_slot_opcode(
                    s.0.program,
                    s.0.pc,
                    k,
                ));
            }
            lemma_straight_run_stops(s.0, (fuel - 1) as nat);
        } else {
            assert(s.1 == Option::Some(1u32));
        }
    }
}

/// One step never touches the event log.
pub proof fn lemma_step_preserves_events(v: GVm)
    ensures
        spec_step(v).0.events == v.events,
{
}

/// Stepping any number of times never touches the event log.
pub proof fn lemma_run_loop_preserves_events(v: GVm, fuel: nat)
    ensures
        spec_run_loop(v, fuel).0.events == v.events,
    decreases fuel,
{
    if fuel > 0 {
        lemma_step_preserves_events(v);
        if spec_step(v).1 is None {
            lemma_run_loop_preserves_events(spec_step(v).0, (fuel - 1) as nat);
        }
    }
}

/// A machine loaded with a valid image whose code holds no halt and no
/// control-flow opcode ends its run with the event `GracefulStop` and
/// stop code 1.
pub proof fn lemma_run_no_hlt(v: GVm)
    requires
        v.wf(),
        spec_header_ok(v.program),
        v.program.len() < 0xFFFF_FFFF_FFFF_FFFE,
        64 + le_u32(v.program.subrange(4, 8)) <= usize::MAX,
        spec_straight_slots(v.program, 64 + le_u32(v.program.subrange(4, 8))),
    ensures
        spec_run(v).events == v.events.push(VMEventType::Start).push(
            VMEventType::GracefulStop { code: 1u32 },
        ),
{
    let l = le_u32(v.program.subrange(4, 8)) as int;
    let v1 = GVm { events: v.events.push(VMEventType::Start), ..v };
    let v2 = GVm { pc: 64 + l, ro_data: spec_loaded_ro(v1.program, l), ..v1 };
    lemma_straight_run_stops(v2, step_limit());
    lemma_run_loop_preserves_events(v2, step_limit());
    let s = spec_run_loop(v2, step_limit());
    assert(spec_run(v).events =~= v.events.push(VMEventType::Start).push(
        VMEventType::GracefulStop { code: 1u32 },
    ));
}

/// Whether the four bytes at `a` hold a plain data instruction that can
/// neither fault nor stop: its opcode only reads and writes registers
/// or prints, and every register operand byte stays below 32.
pub open spec fn spec_safe_slot(p: Seq<u8>, a: int) -> bool {
    &&& 0 <= a
    &&& a + 4 <= p.len()
    &&& {
        let op = code_opcode(p[a]);
        ||| ((op == Opcode::LOAD || op == Opcode::INC || op == Opcode::DEC) && (p[a + 1] as int)
            < 32)
        ||| ((op == Opcode::ADD || op == Opcode::SUB || op == Opcode::MUL) && (p[a + 1] as int)
            < 32 && (p[a + 2] as int) < 32 && (p[a + 3] as int) < 32)
        ||| ((op == Opcode::EQ || op == Opcode::NEQ || op == Opcode::GT || op == Opcode::LT || op
            == Opcode::GTE || op == Opcode::LTE) && (p[a + 1] as int) < 32 && (p[a + 2] as int)
            < 32)
        ||| op == Opcode::NOP
        ||| op == Opcode::PRTS
        ||| op.spec_is_float()
    }
}

/// `spec_safe_slot`, phrased over slot indices for quantification.
pub open spec fn spec_safe_slot_at(p: Seq<u8>, base: int, k: int) -> bool {
    spec_safe_slot(p, base + 4 * k)
}

/// A step on a safe slot continues, advances the counter by exactly
/// four, and leaves program and events alone.
#[verifier::rlimit(100)]
pub proof fn lemma_safe_slot_step(v: GVm)
    requires
        spec_safe_slot(v.program, v.pc),
    ensures
        spec_step(v).1 is None,
        spec_step(v).0.pc == v.pc + 4,
        spec_step(v).0.program == v.program,
{
}

/// A machine that faces `n` safe data instructions and a halt stops
/// with the halt code 0.
pub proof fn lemma_run_to_hlt(v: GVm, n: nat, fuel: nat)
    requires
        v.pc >= 0,
        fuel >= n + 1,
        forall|k: int| 0 <= k < n ==> #[trigger] spec_safe_slot_at(v.program, v.pc, k),
        v.pc + 4 * n < v.program.len(),
        code_opcode(v.program[v.pc + 4 * n]) == Opcode::HLT,
    ensures
        spec_run_loop(v, fuel).1 == Option::Some(0u32),
    decreases n,
{
    if n == 0 {
    } else {
        assert(spec_safe_slot_at(v.program, v.pc, 0));
        lemma_safe_slot_step(v);
        let s = spec_step(v);
        assert forall|k: int| 0 <= k < n - 1 implies #[trigger] spec_safe_slot_at(
            s.0.program,
            s.0.pc,
            k,
        ) by {
            assert(spec_safe_slot_at(v.program, v.pc, k + 1));
        }
        assert(s.0.pc + 4 * (n - 1) == v.pc + 4 * n);
        lemma_run_to_hlt(s.0, (n - 1) as nat, (fuel - 1) as nat);
    }
}

/// A machine loaded with a valid image whose code is a run of safe data
/// instructions followed by a halt ends its run with the event
/// `GracefulStop` and the halt code 0.
pub proof fn lemma_run_with_hlt(v: GVm, n: nat)
    requires
        v.wf(),
        spec_header_ok(v.program),
        v.program.len() < 0xFFFF_FFFF_FFFF_FFFE,
        64 + le_u32(v.program.subrange(4, 8)) <= usize::MAX,
        forall|k: int|
            0 <= k < n ==> #[trigger] spec_safe_slot_at(
                v.program,
                64 + le_u32(v.program.subrange(4, 8)),
                k,
            ),
        64 + le_u32(v.program.subrange(4, 8)) + 4 * n < v.program.len(),
        code_opcode(v.program[64 + le_u32(v.program.subrange(4, 8)) + 4 * n]) == Opcode::HLT,
    ensures
        spec_run(v).events == v.events.push(VMEventType::Start).push(
            VMEventType::GracefulStop { code: 0u32 },
        ),
{
    let l = le_u32(v.program.subrange(4, 8)) as int;
    let v1 = GVm { events: v.events.push(VMEventType::Start), ..v };
    let v2 = GVm { pc: 64 + l, ro_data: spec_loaded_ro(v1.program, l), ..v1 };
    lemma_run_to_hlt(v2, n, step_limit());
    lemma_run_loop_preserves_events(v2, step_limit());
    let s = spec_run_loop(v2, step_limit());
    assert(spec_run(v).events =~= v.events.push(VMEventType::Start).push(
        VMEventType::GracefulStop { code: 0u32 },
    ));
}

} // verus!
