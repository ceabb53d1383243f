//! The processor: register file, instruction set, decode and execution.

use crate::memory::Memory;
use vstd::prelude::*;

verus! {

/// The register file of the processor.
#[derive(Clone, Copy, Debug, PartialEq, Eq, Structural)]
pub struct CPU {
    /// Accumulator: primary data register.
    pub a: u8,
    /// Operand register: secondary register.
    pub b: u8,
    /// Instruction pointer: address of the next opcode to fetch.
    pub pc: u16,
    /// Zero flag: the last arithmetic result was zero.
    pub flag_z: bool,
    /// Carry flag: the last arithmetic operation overflowed 8 bits.
    pub flag_c: bool,
}

/// One decoded operation, produced by decode and consumed by execute.
#[derive(Clone, Copy, Debug, PartialEq, Eq, Structural)]
pub enum Instruction {
    /// Load the immediate value into the accumulator.
    LoadImmediate(u8),
    /// Add the immediate value to the accumulator, with 8-bit wraparound.
    AddImmediate(u8),
    /// Write the accumulator to memory at the 16-bit address.
    StoreAccumulator(u16),
    /// Emit the accumulator to the observation channel.
    Output,
    /// Stop the run cycle.
    Halt,
}

/// A condition that stops the cycle without executing an instruction.
#[derive(Clone, Copy, Debug, PartialEq, Eq, Structural)]
pub enum Fault {
    /// The opcode byte is not in the encoding table.
    UnrecognizedOpcode { byte: u8 },
    /// An access named an address at or past the memory's size.
    OutOfBoundsAddress { address: u16, size: usize },
}

/// Why a run ended.
#[derive(Clone, Copy, Debug, PartialEq, Eq, Structural)]
pub enum StopReason {
    /// A halt instruction was executed.
    Halted,
    /// Decode or execution faulted.
    Faulted(Fault),
}

/// What decoding the operand bytes of `opcode` at `pc` yields: the decoded
/// instruction, or the fault, together with the instruction pointer after the
/// attempt. `pc` is the address just past the opcode byte; an instruction with
/// operands consumes them and advances the pointer, a fault leaves it at `pc`.
pub open spec fn spec_map_opcode(mem: Seq<u8>, pc: u16, opcode: u8) -> (Result<Instruction, Fault>, u16) {
    if opcode == 0x01 {
        if pc < mem.len() {
            (Ok(Instruction::LoadImmediate(mem[pc as int])), (pc + 1) as u16)
        } else {
            (Err(Fault::OutOfBoundsAddress { address: pc, size: mem.len() as usize }), pc)
        }
    } else if opcode == 0x02 {
        if pc < mem.len() {
            (Ok(Instruction::AddImmediate(mem[pc as int])), (pc + 1) as u16)
        } else {
            (Err(Fault::OutOfBoundsAddress { address: pc, size: mem.len() as usize }), pc)
        }
    } else if opcode == 0x03 {
        if pc < mem.len() {
            if pc + 1 < mem.len() {
                (
                    Ok(
                        Instruction::StoreAccumulator(
                            ((mem[pc as int] as int) * 256 + (mem[pc as int + 1] as int)) as u16,
                        ),
                    ),
                    (pc + 2) as u16,
                )
            } else {
                (
                    Err(Fault::OutOfBoundsAddress { address: (pc + 1) as u16, size: mem.len() as usize }),
                    pc,
                )
            }
        } else {
            (Err(Fault::OutOfBoundsAddress { address: pc, size: mem.len() as usize }), pc)
        }
    } else if opcode == 0xFF {
        (Ok(Instruction::Output), pc)
    } else if opcode == 0x00 {
        (Ok(Instruction::Halt), pc)
    } else {
        (Err(Fault::UnrecognizedOpcode { byte: opcode }), pc)
    }
}

/// What one fetch-decode step at `pc` yields: the decoded instruction, or the
/// fault, together with the instruction pointer after the attempt. Reading the
/// opcode consumes it; a fetch at or past the end of memory leaves the pointer
/// at `pc`.
pub open spec fn spec_fetch(mem: Seq<u8>, pc: u16) -> (Result<Instruction, Fault>, u16) {
    if pc < mem.len() {
        spec_map_opcode(mem, (pc + 1) as u16, mem[pc as int])
    } else {
        (Err(Fault::OutOfBoundsAddress { address: pc, size: mem.len() as usize }), pc)
    }
}

/// What executing one decoded instruction does to the processor and the
/// memory: the new register file, the new memory contents, and the outcome —
/// the emitted byte for an output instruction, or the fault for a store whose
/// address is out of bounds, which changes nothing.
pub open spec fn spec_execute(cpu: CPU, mem: Seq<u8>, instruction: Instruction) -> (CPU, Seq<u8>, Result<Option<u8>, Fault>) {
    match instruction {
        Instruction::LoadImmediate(value) => (CPU { a: value, ..cpu }, mem, Ok(None)),
        Instruction::AddImmediate(value) => {
            let sum = cpu.a + value;
            let wrapped = (sum % 256) as u8;
            (
                CPU { a: wrapped, flag_c: sum > 255, flag_z: wrapped == 0, ..cpu },
                mem,
                Ok(None),
            )
        },
        Instruction::StoreAccumulator(address) => {
            if address < mem.len() {
                (cpu, mem.update(address as int, cpu.a), Ok(None))
            } else {
                (cpu, mem, Err(Fault::OutOfBoundsAddress { address, size: mem.len() as usize }))
            }
        },
        Instruction::Output => (cpu, mem, Ok(Some(cpu.a))),
        Instruction::Halt => (CPU { pc: mem.len() as u16, ..cpu }, mem, Ok(None)),
    }
}

/// The whole machine as the run cycle sees it: the register file, the memory
/// contents, and the bytes emitted so far, oldest first.
#[verifier::ext_equal]
pub ghost struct State {
    pub cpu: CPU,
    pub mem: Seq<u8>,
    pub out: Seq<u8>,
}

/// One iteration of the run cycle: fetch at the instruction pointer, then, if
/// decode succeeded, execute. The second component says whether the cycle
/// stops here: on a decode fault or an execution fault nothing (further) is
/// executed, and on a halt no further instruction is fetched.
pub open spec fn spec_step(s: State) -> (State, Option<StopReason>) {
    let fetched = spec_fetch(s.mem, s.cpu.pc);
    let cpu1 = CPU { pc: fetched.1, ..s.cpu };
    match fetched.0 {
        Err(fault) => (
            State { cpu: cpu1, ..s },
            Some(StopReason::Faulted(fault)),
        ),
        Ok(instruction) => {
            let executed = spec_execute(cpu1, s.mem, instruction);
            match executed.2 {
                Err(fault) => (
                    State { cpu: executed.0, mem: executed.1, out: s.out },
                    Some(StopReason::Faulted(fault)),
                ),
                Ok(emitted) => {
                    let out2 = match emitted {
                        Some(value) => s.out.push(value),
                        None => s.out,
                    };
                    let stop = if instruction is Halt {
                        Some(StopReason::Halted)
                    } else {
                        None
                    };
                    (State { cpu: executed.0, mem: executed.1, out: out2 }, stop)
                },
            }
        },
    }
}

/// The machine after at most `n` iterations of the run cycle from `s`: the
/// state reached, and `Some` stop reason if the cycle stopped within those
/// iterations (the state is then final: further iterations change nothing of
/// the run), or `None` if it is still running after all `n`.
pub open spec fn spec_run(s: State, n: nat) -> (State, Option<StopReason>)
    decreases n,
{
    if n == 0 {
        (s, None)
    } else {
        let stepped = spec_step(s);
        if stepped.1 is Some {
            stepped
        } else {
            spec_run(stepped.0, (n - 1) as nat)
        }
    }
}

/// A run still going after `n` iterations continues with one more step: at
/// most `n + 1` iterations reach exactly the step's successor.
pub proof fn lemma_spec_run_extend(s: State, n: nat)
    requires
        spec_run(s, n).1 is None,
    ensures
        spec_run(s, n + 1) == spec_step(spec_run(s, n).0),
    decreases n,
{
    let stepped = spec_step(s);
    if n == 0 {
        if stepped.1 is None {
            assert(spec_run(s, 1) == spec_run(stepped.0, 0));
            assert(stepped =~= (stepped.0, stepped.1));
        }
    } else {
        lemma_spec_run_extend(stepped.0, (n - 1) as nat);
        assert(spec_run(s, n + 1) == spec_run(stepped.0, n));
    }
}

/// The machine is deterministic: however many iterations two observers allow,
/// a run from one starting state that stops, stops once — both see the same
/// final state and the same stop reason. A caller of the run cycle may
/// therefore compute the outcome by unwinding `spec_run` itself.
pub proof fn lemma_spec_run_stop_unique(s: State, n1: nat, n2: nat)
    requires
        spec_run(s, n1).1 is Some,
        spec_run(s, n2).1 is Some,
    ensures
        spec_run(s, n1) == spec_run(s, n2),
    decreases n1,
{
    let stepped = spec_step(s);
    if stepped.1 is None {
        lemma_spec_run_stop_unique(stepped.0, (n1 - 1) as nat, (n2 - 1) as nat);
    }
}

/// A run that stops because a halt instruction was executed leaves the
/// instruction pointer parked at the memory's size — the past-end sentinel
/// that tells a terminated run apart from any mid-program pointer — and never
/// changes the memory's size on the way there.
pub proof fn lemma_halted_run_parks_pointer(s: State, n: nat)
    requires
        s.mem.len() <= 0xFFFF,
        spec_run(s, n).1 == Some(StopReason::Halted),
    ensures
        spec_run(s, n).0.cpu.pc == spec_run(s, n).0.mem.len(),
        spec_run(s, n).0.mem.len() == s.mem.len(),
    decreases n,
{
    let stepped = spec_step(s);
    if stepped.1 is None {
        lemma_halted_run_parks_pointer(stepped.0, (n - 1) as nat);
    }
}

/// Loading an immediate puts exactly that value in the accumulator and leaves
/// both flags, the other registers and the memory as they were.
pub proof fn lemma_load_immediate(cpu: CPU, mem: Seq<u8>, value: u8)
    ensures
        ({
            let stepped = spec_execute(cpu, mem, Instruction::LoadImmediate(value));
            &&& stepped.0.a == value
            &&& stepped.0.flag_z == cpu.flag_z
            &&& stepped.0.flag_c == cpu.flag_c
            &&& stepped.0.b == cpu.b
            &&& stepped.0.pc == cpu.pc
            &&& stepped.1 == mem
            &&& stepped.2 == Ok::<Option<u8>, Fault>(None)
        }),
{
}

/// Adding an immediate to an accumulator holding `a` yields `(a + value) mod
/// 256`, sets the carry flag exactly when the mathematical sum exceeds 255,
/// and sets the zero flag exactly when the wrapped result is zero; both flags
/// are recomputed from scratch, whatever they held before.
pub proof fn lemma_add_immediate(cpu: CPU, mem: Seq<u8>, value: u8)
    ensures
        ({
            let stepped = spec_execute(cpu, mem, Instruction::AddImmediate(value));
            &&& stepped.0.a == (cpu.a + value) % 256
            &&& stepped.0.flag_c == (cpu.a + value > 255)
            &&& stepped.0.flag_z == (stepped.0.a == 0)
            &&& stepped.0.b == cpu.b
            &&& stepped.0.pc == cpu.pc
            &&& stepped.1 == mem
            &&& stepped.2 == Ok::<Option<u8>, Fault>(None)
        }),
{
}

/// Storing the accumulator at a valid address and then reading that address
/// gives back the accumulator's value at the time of the store; no register,
/// no flag, and no other cell changes.
pub proof fn lemma_store_then_read(cpu: CPU, mem: Seq<u8>, address: u16)
    requires
        address < mem.len(),
    ensures
        ({
            let stepped = spec_execute(cpu, mem, Instruction::StoreAccumulator(address));
            &&& stepped.1[address as int] == cpu.a
            &&& stepped.1.len() == mem.len()
            &&& forall|i: int| 0 <= i < mem.len() && i != address ==> stepped.1[i] == mem[i]
            &&& stepped.0 == cpu
            &&& stepped.2 == Ok::<Option<u8>, Fault>(None)
        }),
{
}

/// A store opcode whose two operand bytes are in bounds decodes to a store at
/// the big-endian assembly of those bytes — the high byte read first, from the
/// lower address — and the instruction pointer advances by exactly three from
/// the opcode's position.
pub proof fn lemma_decode_store_big_endian(mem: Seq<u8>, pc: u16)
    requires
        mem.len() <= 0xFFFF,
        pc + 2 < mem.len(),
        mem[pc as int] == 0x03,
    ensures
        spec_fetch(mem, pc) == ((
            Ok::<Instruction, Fault>(
                Instruction::StoreAccumulator(
                    ((mem[pc + 1] as int) * 256 + (mem[pc + 2] as int)) as u16,
                ),
            ),
            (pc + 3) as u16,
        )),
{
}

/// A byte that names no opcode decodes to no instruction at all: the fetch
/// yields the unrecognized-opcode condition carrying that byte, and the
/// instruction pointer has advanced by exactly one — past the opcode, and no
/// further.
pub proof fn lemma_unrecognized_opcode(mem: Seq<u8>, pc: u16)
    requires
        mem.len() <= 0xFFFF,
        pc < mem.len(),
        mem[pc as int] != 0x00,
        mem[pc as int] != 0x01,
        mem[pc as int] != 0x02,
        mem[pc as int] != 0x03,
        mem[pc as int] != 0xFF,
    ensures
        spec_fetch(mem, pc) == ((
            Err::<Instruction, Fault>(Fault::UnrecognizedOpcode { byte: mem[pc as int] }),
            (pc + 1) as u16,
        )),
{
}

impl CPU {
    /// A processor in the initial state: every register zero, every flag clear.
    pub fn new() -> (cpu: CPU)
        ensures
            cpu.a == 0,
            cpu.b == 0,
            cpu.pc == 0,
            !cpu.flag_z,
            !cpu.flag_c,
    {
        CPU { a: 0, b: 0, pc: 0, flag_z: false, flag_c: false }
    }

    /// Restores the initial state. Memory is untouched: reset only writes
    /// the five register-file fields.
    pub fn reset(&mut self)
        ensures
            final(self).a == 0,
            final(self).b == 0,
            final(self).pc == 0,
            !final(self).flag_z,
            !final(self).flag_c,
    {
        self.a = 0;
        self.b = 0;
        self.pc = 0;
        self.flag_z = false;
        self.flag_c = false;
    }

    /// Reads the opcode byte at the instruction pointer, advances past it, and
    /// decodes it together with its operand bytes. Registers and flags are
    /// untouched; only the instruction pointer moves, exactly as `spec_fetch`
    /// says. A fetch from an address at or past the end of memory is an
    /// out-of-bounds fault, never a wrap or a clamp.
    pub fn fetch(&mut self, memory: &Memory) -> (r: Result<Instruction, Fault>)
        requires
            memory.wf(),
        ensures
            (r, final(self).pc) == spec_fetch(memory@, old(self).pc),
            final(self).a == old(self).a,
            final(self).b == old(self).b,
            final(self).flag_z == old(self).flag_z,
            final(self).flag_c == old(self).flag_c,
    {
        if (self.pc as usize) < memory.data.len() {
            let opcode = memory.read(self.pc);
            self.pc = self.pc + 1;
            self.map_opcode_to_instruction(opcode, memory)
        } else {
            Err(Fault::OutOfBoundsAddress { address: self.pc, size: memory.data.len() })
        }
    }

    /// Decodes one opcode byte whose operand bytes, if any, start at the
    /// instruction pointer. Immediate operands are one byte; a store address
    /// is two bytes, big-endian: the high byte at the lower address. The
    /// pointer advances past exactly the operand bytes consumed; registers and
    /// flags are untouched.
    pub fn map_opcode_to_instruction(&mut self, opcode: u8, memory: &Memory) -> (r: Result<
        Instruction,
        Fault,
    >)
        requires
            memory.wf(),
        ensures
            (r, final(self).pc) == spec_map_opcode(memory@, old(self).pc, opcode),
            final(self).a == old(self).a,
            final(self).b == old(self).b,
            final(self).flag_z == old(self).flag_z,
            final(self).flag_c == old(self).flag_c,
    {
        match opcode {
            0x01 => {
                if (self.pc as usize) < memory.data.len() {
                    let value = memory.read(self.pc);
                    self.pc = self.pc + 1;
                    Ok(Instruction::LoadImmediate(value))
                } else {
                    Err(Fault::OutOfBoundsAddress { address: self.pc, size: memory.data.len() })
                }
            },
            0x02 => {
                if (self.pc as usize) < memory.data.len() {
                    let value = memory.read(self.pc);
                    self.pc = self.pc + 1;
                    Ok(Instruction::AddImmediate(value))
                } else {
                    Err(Fault::OutOfBoundsAddress { address: self.pc, size: memory.data.len() })
                }
            },
            0x03 => {
                if (self.pc as usize) < memory.data.len() {
                    if (self.pc as usize) + 1 < memory.data.len() {
                        let high = memory.read(self.pc);
                        let low = memory.read(self.pc + 1);
                        let address: u16 = (high as u16) * 256 + (low as u16);
                        self.pc = self.pc + 2;
                        Ok(Instruction::StoreAccumulator(address))
                    } else {
                        Err(
                            Fault::OutOfBoundsAddress {
                                address: self.pc + 1,
                                size: memory.data.len(),
                            },
                        )
                    }
                } else {
                    Err(Fault::OutOfBoundsAddress { address: self.pc, size: memory.data.len() })
                }
            },
            0xFF => Ok(Instruction::Output),
            0x00 => Ok(Instruction::Halt),
            _ => Err(Fault::UnrecognizedOpcode { byte: opcode }),
        }
    }

    /// Applies one decoded instruction to the processor/memory pair, exactly
    /// as `spec_execute` says: a load sets the accumulator and nothing else; an
    /// add wraps modulo 256 and recomputes both flags from scratch; a store
    /// writes the accumulator to a checked address, faulting without any
    /// change when the address is out of bounds; an output emits the
    /// accumulator and mutates nothing; a halt parks the instruction pointer
    /// at the memory's size.
    pub fn decode_and_execute(&mut self, instruction: Instruction, memory: &mut Memory) -> (r:
        Result<Option<u8>, Fault>)
        requires
            old(memory).wf(),
        ensures
            (*final(self), final(memory)@, r) == spec_execute(*old(self), old(memory)@, instruction),
            final(memory).wf(),
    {
        match instruction {
            Instruction::LoadImmediate(value) => {
                self.a = value;
                Ok(None)
            },
            Instruction::AddImmediate(value) => {
                let sum: u16 = (self.a as u16) + (value as u16);
                self.a = (sum % 256) as u8;
                self.flag_c = sum > 255;
                self.flag_z = self.a == 0;
                Ok(None)
            },
            Instruction::StoreAccumulator(address) => {
                if (address as usize) < memory.data.len() {
                    memory.write(address, self.a);
                    Ok(None)
                } else {
                    Err(Fault::OutOfBoundsAddress { address, size: memory.data.len() })
                }
            },
            Instruction::Output => Ok(Some(self.a)),
            Instruction::Halt => {
                self.pc = memory.data.len() as u16;
                Ok(None)
            },
        }
    }

    /// Drives repeated fetch-decode-execute iterations until a halt
    /// instruction or a fault stops the cycle, and returns the bytes the
    /// program emitted, oldest first, with the reason the run ended. The final
    /// processor, memory and output are exactly those of some number of
    /// `spec_run` iterations from the starting state that stop for the
    /// returned reason. The cycle always terminates: no instruction moves the
    /// pointer backwards, so it strictly advances until a halt, a bad opcode,
    /// or the end of memory stops the run.
    #[verifier::loop_isolation(false)]
    pub fn run(&mut self, memory: &mut Memory) -> (r: (Vec<u8>, StopReason))
        requires
            old(memory).wf(),
        ensures
            final(memory).wf(),
            exists|n: nat|
                spec_run(
                    State { cpu: *old(self), mem: old(memory)@, out: Seq::empty() },
                    n,
                ) == ((State { cpu: *final(self), mem: final(memory)@, out: r.0@ }, Some(r.1))),
    {
        let ghost start = State { cpu: *self, mem: memory@, out: Seq::empty() };
        let mut outputs: Vec<u8> = Vec::new();
        proof {
            assert(start =~= (State { cpu: *self, mem: memory@, out: outputs@ }));
            assert(spec_run(start, 0) == ((start, None::<StopReason>)));
        }
        loop
            invariant
                memory.wf(),
                exists|n: nat|
                    spec_run(start, n) == ((
                        State { cpu: *self, mem: memory@, out: outputs@ },
                        None::<StopReason>,
                    )),
            decreases memory@.len() - self.pc as int,
        {
            let ghost cur = State { cpu: *self, mem: memory@, out: outputs@ };
            let ghost steps = choose|n: nat|
                spec_run(start, n) == ((cur, None::<StopReason>));
            proof {
                lemma_spec_run_extend(start, steps);
            }
            match self.fetch(memory) {
                Err(fault) => {
                    proof {
                        assert(spec_step(cur) == ((
                            State { cpu: *self, mem: memory@, out: outputs@ },
                            Some(StopReason::Faulted(fault)),
                        )));
                    }
                    return (outputs, StopReason::Faulted(fault));
                },
                Ok(instruction) => {
                    let is_halt = match instruction {
                        Instruction::Halt => true,
                        _ => false,
                    };
                    match self.decode_and_execute(instruction, memory) {
                        Err(fault) => {
                            proof {
                                assert(spec_step(cur) == ((
                                    State { cpu: *self, mem: memory@, out: outputs@ },
                                    Some(StopReason::Faulted(fault)),
                                )));
                            }
                            return (outputs, StopReason::Faulted(fault));
                        },
                        Ok(emitted) => {
                            match emitted {
                                Some(value) => outputs.push(value),
                                None => {},
                            }
                            if is_halt {
                                proof {
                                    assert(spec_step(cur) == ((
                                        State { cpu: *self, mem: memory@, out: outputs@ },
                                        Some(StopReason::Halted),
                                    )));
                                }
                                return (outputs, StopReason::Halted);
                            }
                            proof {
                                assert(spec_step(cur) == ((
                                    State { cpu: *self, mem: memory@, out: outputs@ },
                                    None::<StopReason>,
                                )));
                                assert(spec_run(start, steps + 1) == ((
                                    State { cpu: *self, mem: memory@, out: outputs@ },
                                    None::<StopReason>,
                                )));
                            }
                        },
                    }
                },
            }
        }
    }
}

} // verus!
