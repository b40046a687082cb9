//! What holds of every step of the cycle, stated and proved on [`Machine`].
use crate::cpu::{add64, store_width, Machine};
use crate::decode::{
    get_bits, lemma_field_bound, spec_get_bits, spec_s_immediate, OP_BRANCH, OP_IMM, OP_LOAD,
    OP_REG, OP_STORE,
};
use crate::dram::{
    in_store, le_value, lemma_le_store_frame, lemma_load_bound, width_bytes, DRAM_BASE, MAX_MEMORY,
};
use crate::fault::Fault;
use vstd::arithmetic::power2::lemma2_to64;
use vstd::prelude::*;

verus! {

/// Executing an instruction never moves the program counter, never touches
/// the stall flag or the recorded fault, and keeps the number of registers
/// and the size of the store.
pub proof fn lemma_execute_keeps_frame(m: Machine, word: u32)
    requires
        m.valid(),
    ensures
        m.execute(word) matches Ok(next) ==> {
            &&& next.valid()
            &&& next.pc == m.pc
            &&& next.stalled == m.stalled
            &&& next.fault == m.fault
        },
{
    lemma2_to64();
    let opcode = spec_get_bits(word, 0, 6);
    let funct3 = spec_get_bits(word, 12, 14);
    let rs1 = spec_get_bits(word, 15, 19);
    if opcode == OP_STORE {
        if let Some(width) = store_width(funct3) {
            let addr = add64(m.regs[rs1 as int], spec_s_immediate(word));
            let count = width_bytes(width).unwrap();
            if in_store(addr, count) {
                lemma_le_store_frame(
                    m.memory,
                    addr - DRAM_BASE,
                    count,
                    m.regs[spec_get_bits(word, 20, 24) as int] as nat,
                );
            }
        }
    }
}

/// Where the fetch succeeds, the four bytes at the program counter lie
/// inside the store, so that the program counter can move on by four, and
/// the word fetched is the number that they spell.
pub proof fn lemma_fetch_leaves_room(m: Machine)
    requires
        m.fetch() is Ok,
    ensures
        DRAM_BASE <= m.pc,
        m.pc + 4 <= DRAM_BASE + MAX_MEMORY,
        m.fetch()->Ok_0 == le_value(m.memory, m.pc - DRAM_BASE, 4),
{
    lemma_load_bound(m.memory, m.pc, 32);
    lemma2_to64();
}

/// What a step does and what it leaves alone.
///
/// A step that does not get past the fetch stalls and changes neither a
/// register nor the program counter nor the memory. A step that gets past
/// it moves the program counter on by four and leaves x0 at zero, whether
/// the word was carried out or refused; it stalls exactly where the word
/// was refused or the processor had stalled before. No step clears the
/// stall flag, and a step that does not stall puts no fault on record.
pub proof fn lemma_step_frame(m: Machine)
    requires
        m.valid(),
    ensures
        m.step().valid(),
        m.stalled ==> m.step().stalled,
        !m.executes() ==> {
            &&& m.step().stalled
            &&& m.step().regs == m.regs
            &&& m.step().pc == m.pc
            &&& m.step().memory == m.memory
        },
        m.executes() ==> {
            &&& m.step().pc == m.pc + 4
            &&& m.step().pc <= DRAM_BASE + MAX_MEMORY
            &&& m.pc >= DRAM_BASE
            &&& m.step().regs[0] == 0
        },
        !m.step().stalled ==> m.executes() && m.step().fault == m.fault,
        m.step().fault != m.fault ==> m.step().stalled,
        m.step().headroom() <= m.headroom(),
        !m.step().stalled ==> m.step().headroom() < m.headroom(),
{
    if let Ok(word) = m.fetch() {
        if word != 0 {
            lemma_fetch_leaves_room(m);
            let advanced = Machine { pc: (m.pc + 4) as u64, ..m };
            lemma_execute_keeps_frame(advanced, word);
        }
    }
}

/// The invariant of a run is kept by every step: x0 reads zero afterwards,
/// also where the instruction named x0 as its destination, and the program
/// counter stays a multiple of four at or above the memory base.
pub proof fn lemma_step_keeps_inv(m: Machine)
    requires
        m.inv(),
    ensures
        m.step().inv(),
{
    lemma_step_frame(m);
}

/// After every step that got past the fetch x0 reads zero, whatever it
/// held before, whatever register the instruction wrote, and whether the
/// instruction was carried out or refused. After any other step it reads
/// what it read before.
pub proof fn lemma_step_zeroes_x0(m: Machine)
    requires
        m.valid(),
    ensures
        m.executes() ==> m.step().regs[0] == 0,
        !m.executes() ==> m.step().regs[0] == m.regs[0],
        m.regs[0] == 0 ==> m.step().regs[0] == 0,
{
    lemma_step_frame(m);
}

/// A zero word at the program counter ends the run and changes nothing
/// else: no register, not the program counter, not the memory.
pub proof fn lemma_step_zero_word(m: Machine)
    requires
        m.fetch() == Ok::<u32, Fault>(0),
    ensures
        m.step() == (Machine { stalled: true, ..m }),
        m.step().stalled,
        m.step().regs == m.regs,
        m.step().pc == m.pc,
        m.step().memory == m.memory,
{
}

/// A failed fetch ends the run with its fault on record and changes
/// nothing else.
pub proof fn lemma_step_fetch_fault(m: Machine)
    requires
        m.fetch() is Err,
    ensures
        m.step() == m.halt(m.fetch()->Err_0),
{
}

/// A word whose opcode names none of the five known formats ends the run as
/// an unimplemented opcode. The program counter has moved past the word, x0
/// reads zero, and nothing else has changed.
pub proof fn lemma_step_unknown_opcode(m: Machine)
    requires
        m.fetch() matches Ok(word) && word != 0 && {
            let opcode = get_bits(word, 0, 6);
            opcode != OP_IMM && opcode != OP_LOAD && opcode != OP_REG && opcode != OP_STORE
                && opcode != OP_BRANCH
        },
    ensures
        m.step().stalled,
        m.step().fault == Some(Fault::UnimplementedOpcode),
        m.step().regs == m.regs.update(0, 0),
        m.step().memory == m.memory,
        m.step().pc == m.pc + 4,
{
    lemma_fetch_leaves_room(m);
}

/// A branch ends the run: it is refused, not skipped. The program counter
/// has moved past the word, x0 reads zero, and nothing else has changed.
pub proof fn lemma_step_branch(m: Machine)
    requires
        m.fetch() matches Ok(word) && get_bits(word, 0, 6) == OP_BRANCH,
    ensures
        m.step().stalled,
        m.step().fault == Some(Fault::DecodeFailure),
        m.step().regs == m.regs.update(0, 0),
        m.step().memory == m.memory,
        m.step().pc == m.pc + 4,
{
    lemma2_to64();
    lemma_fetch_leaves_room(m);
}

/// After every step that does not leave the processor stalled the program
/// counter is exactly four above where it was.
pub proof fn lemma_step_advances_pc(m: Machine)
    requires
        m.valid(),
        !m.step().stalled,
    ensures
        m.step().pc == m.pc + 4,
        !m.stalled,
        m.step().fault == m.fault,
{
    lemma_step_frame(m);
}

/// Once stalled, always stalled: no step clears the flag.
pub proof fn lemma_stall_is_final(m: Machine)
    requires
        m.valid(),
        m.stalled,
    ensures
        m.step().stalled,
{
    lemma_step_frame(m);
}

/// A run ends stalled, and it keeps the invariant.
pub proof fn lemma_run_ends(m: Machine)
    requires
        m.valid(),
    ensures
        m.run().stalled,
        m.run().valid(),
        m.inv() ==> m.run().inv(),
    decreases
            m.headroom(),
            (if m.stalled {
                0nat
            } else {
                1nat
            }),
{
    if !m.stalled {
        lemma_step_frame(m);
        if m.inv() {
            lemma_step_keeps_inv(m);
        }
        lemma_run_ends(m.step());
    }
}

/// Add-immediate: with opcode `0010011` and funct3 `000` the destination
/// register receives the sum, modulo 2^64, of the source register and of
/// bits 20 to 31 of the word read as a signed number of twelve bits.
pub proof fn lemma_execute_addi(m: Machine, word: u32)
    requires
        m.valid(),
        get_bits(word, 0, 6) == OP_IMM,
        get_bits(word, 12, 14) == 0,
    ensures
        ({
            let rd = get_bits(word, 7, 11);
            let rs1 = get_bits(word, 15, 19);
            let bits = get_bits(word, 20, 31);
            let imm: int = if bits < 2048 {
                bits as int
            } else {
                bits - 4096
            };
            &&& rd < 32
            &&& rs1 < 32
            &&& bits < 4096
            &&& m.execute(word) == Ok::<Machine, Fault>(
                m.set_reg(rd, ((m.regs[rs1 as int] + imm) % 0x1_0000_0000_0000_0000) as u64),
            )
        }),
{
    lemma2_to64();
    lemma_field_bound(word, 20, 31);
    lemma_field_bound(word, 7, 11);
    lemma_field_bound(word, 15, 19);
}

/// Add: with opcode `0110011`, funct3 `000` and funct7 `0000000` the
/// destination register receives the sum, modulo 2^64, of the two source
/// registers.
pub proof fn lemma_execute_add(m: Machine, word: u32)
    requires
        m.valid(),
        get_bits(word, 0, 6) == OP_REG,
        get_bits(word, 12, 14) == 0,
        get_bits(word, 25, 31) == 0,
    ensures
        ({
            let rd = get_bits(word, 7, 11);
            let rs1 = get_bits(word, 15, 19);
            let rs2 = get_bits(word, 20, 24);
            m.execute(word) == Ok::<Machine, Fault>(
                m.set_reg(
                    rd,
                    ((m.regs[rs1 as int] + m.regs[rs2 as int]) % 0x1_0000_0000_0000_0000) as u64,
                ),
            )
        }),
{
}

} // verus!
