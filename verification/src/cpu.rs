//! The processor: register file, program counter and the fetch, decode and
//! execute cycle.
//!
//! The cycle is specified on [`Machine`], the mathematical picture of a
//! processor together with its memory. Every executable function of
//! [`RV64I`] is proved to move the processor exactly as the function of the
//! same name on `Machine` says.
use crate::decode::{
    b_immediate, get_bits, i_immediate, s_immediate, sign_extend, OP_BRANCH, OP_IMM, OP_LOAD,
    OP_REG, OP_STORE,
};
use crate::dram::{bus_load, bus_store, image, Bus, Memory, DRAM_BASE, MAX_MEMORY};
use crate::fault::Fault;
use crate::laws::{lemma_step_frame, lemma_step_keeps_inv};
use vstd::prelude::*;

verus! {

/// The state of a processor and its memory, as plain mathematical values.
pub struct Machine {
    /// The 32 general registers, x0 first.
    pub regs: Seq<u64>,
    /// Address of the instruction that the next step fetches.
    pub pc: u64,
    /// Contents of the byte store.
    pub memory: Seq<u8>,
    /// Whether the run has ended.
    pub stalled: bool,
    /// The fault of the latest step that ended in one, if any did.
    pub fault: Option<Fault>,
}

/// The sum of `a` and `b` modulo 2^64.
pub open spec fn add64(a: u64, b: u64) -> u64 {
    ((a + b) % 0x1_0000_0000_0000_0000) as u64
}

/// Width in bits of the load that `funct3` selects, and whether the value
/// loaded is sign-extended.
pub open spec fn load_kind(funct3: u32) -> Option<(u64, bool)> {
    if funct3 == 0 {
        Some((8, true))
    } else if funct3 == 1 {
        Some((16, true))
    } else if funct3 == 2 {
        Some((32, true))
    } else if funct3 == 3 {
        Some((64, false))
    } else if funct3 == 4 {
        Some((8, false))
    } else if funct3 == 5 {
        Some((16, false))
    } else if funct3 == 6 {
        Some((32, false))
    } else {
        None
    }
}

/// Width in bits of the store that `funct3` selects.
pub open spec fn store_width(funct3: u32) -> Option<u64> {
    if funct3 == 0 {
        Some(8)
    } else if funct3 == 1 {
        Some(16)
    } else if funct3 == 2 {
        Some(32)
    } else if funct3 == 3 {
        Some(64)
    } else {
        None
    }
}

/// Whether `after` and `result` are what a fallible transition from `before`
/// leaves: the new state on success, the old state and the fault on failure.
pub open spec fn lands(
    before: Machine,
    outcome: Result<Machine, Fault>,
    after: Machine,
    result: Result<(), Fault>,
) -> bool {
    match outcome {
        Ok(next) => result is Ok && after == next,
        Err(fault) => result == Err::<(), Fault>(fault) && after == before,
    }
}

impl Machine {
    /// There are 32 registers and the store has its fixed size.
    pub open spec fn valid(self) -> bool {
        &&& self.regs.len() == 32
        &&& self.memory.len() == MAX_MEMORY
    }

    /// What holds between any two steps of a run: x0 reads zero, the program
    /// counter is a multiple of four that is not below the memory base, and
    /// a fault is on record only once the run has ended.
    pub open spec fn inv(self) -> bool {
        &&& self.valid()
        &&& self.regs[0] == 0
        &&& self.pc % 4 == 0
        &&& self.pc >= DRAM_BASE
        &&& (self.fault is Some ==> self.stalled)
    }

    /// The state of a processor that was just built around `program`.
    pub open spec fn reset(program: Seq<u8>) -> Machine {
        Machine {
            regs: Seq::new(
                32,
                |i: int|
                    if i == 2 {
                        MAX_MEMORY
                    } else {
                        0u64
                    },
            ),
            pc: DRAM_BASE,
            memory: image(program),
            stalled: false,
            fault: None,
        }
    }

    /// This state with register `rd` holding `value`.
    pub open spec fn set_reg(self, rd: u32, value: u64) -> Machine {
        Machine { regs: self.regs.update(rd as int, value), ..self }
    }

    /// This state after the run was ended by `fault`.
    pub open spec fn halt(self, fault: Fault) -> Machine {
        Machine { stalled: true, fault: Some(fault), ..self }
    }

    /// The instruction word at the program counter.
    pub open spec fn fetch(self) -> Result<u32, Fault> {
        match bus_load(self.memory, self.pc, 32) {
            Ok(word) => Ok(word as u32),
            Err(fault) => Err(fault),
        }
    }

    /// A load of `width` bits from the address `rs1 + imm` into register
    /// `rd`, sign-extended from the top bit loaded if `signed`.
    pub open spec fn load_register(
        self,
        rd: u32,
        rs1: u32,
        imm: u64,
        width: u64,
        signed: bool,
    ) -> Result<Machine, Fault> {
        match bus_load(self.memory, add64(self.regs[rs1 as int], imm), width) {
            Err(fault) => Err(fault),
            Ok(value) => Ok(
                self.set_reg(
                    rd,
                    if signed {
                        sign_extend(value, (width - 1) as u32)
                    } else {
                        value
                    },
                ),
            ),
        }
    }

    /// The effect of an R-type instruction: `add` puts the sum of `rs1` and
    /// `rs2` into `rd`; nothing else is carried out.
    pub open spec fn handle_r_type(
        self,
        opcode: u32,
        rd: u32,
        funct3: u32,
        rs1: u32,
        rs2: u32,
        funct7: u32,
    ) -> Result<Machine, Fault> {
        if opcode == OP_REG && funct3 == 0 && funct7 == 0 {
            Ok(self.set_reg(rd, add64(self.regs[rs1 as int], self.regs[rs2 as int])))
        } else {
            Err(Fault::DecodeFailure)
        }
    }

    /// The effect of an I-type instruction: one of the seven loads, or the
    /// addition of the immediate to `rs1`.
    pub open spec fn handle_i_type(
        self,
        opcode: u32,
        rd: u32,
        funct3: u32,
        rs1: u32,
        imm: u64,
    ) -> Result<Machine, Fault> {
        if opcode == OP_LOAD {
            match load_kind(funct3) {
                Some((width, signed)) => self.load_register(rd, rs1, imm, width, signed),
                None => Err(Fault::DecodeFailure),
            }
        } else if opcode == OP_IMM && funct3 == 0 {
            Ok(self.set_reg(rd, add64(self.regs[rs1 as int], imm)))
        } else {
            Err(Fault::DecodeFailure)
        }
    }

    /// The effect of an S-type instruction: the low bits of `rs2` go to the
    /// address `rs1 + imm`.
    pub open spec fn handle_s_type(
        self,
        opcode: u32,
        funct3: u32,
        rs1: u32,
        rs2: u32,
        imm: u64,
    ) -> Result<Machine, Fault> {
        if opcode == OP_STORE {
            match store_width(funct3) {
                Some(width) => match bus_store(
                    self.memory,
                    add64(self.regs[rs1 as int], imm),
                    width,
                    self.regs[rs2 as int],
                ) {
                    Ok(memory) => Ok(Machine { memory, ..self }),
                    Err(fault) => Err(fault),
                },
                None => Err(Fault::DecodeFailure),
            }
        } else {
            Err(Fault::DecodeFailure)
        }
    }

    /// The effect of a B-type instruction: no branch is carried out, each
    /// one is refused.
    pub open spec fn handle_b_type(
        self,
        opcode: u32,
        funct3: u32,
        rs1: u32,
        rs2: u32,
        imm: u64,
    ) -> Result<Machine, Fault> {
        Err(Fault::DecodeFailure)
    }

    /// The effect of the instruction `word`: its fields are taken apart and
    /// handed to the handler of the format that its opcode names.
    pub open spec fn execute(self, word: u32) -> Result<Machine, Fault> {
        let opcode = get_bits(word, 0, 6);
        let rd = get_bits(word, 7, 11);
        let rs1 = get_bits(word, 15, 19);
        let rs2 = get_bits(word, 20, 24);
        let funct3 = get_bits(word, 12, 14);
        let funct7 = get_bits(word, 25, 31);
        if opcode == OP_IMM || opcode == OP_LOAD {
            self.handle_i_type(opcode, rd, funct3, rs1, i_immediate(word))
        } else if opcode == OP_REG {
            self.handle_r_type(opcode, rd, funct3, rs1, rs2, funct7)
        } else if opcode == OP_STORE {
            self.handle_s_type(opcode, funct3, rs1, rs2, s_immediate(word))
        } else if opcode == OP_BRANCH {
            self.handle_b_type(opcode, funct3, rs1, rs2, b_immediate(word))
        } else {
            Err(Fault::UnimplementedOpcode)
        }
    }

    /// Whether a step from this state gets past the fetch: there is a word
    /// at the program counter, and it is not zero.
    pub open spec fn executes(self) -> bool {
        self.fetch() matches Ok(word) && word != 0
    }

    /// One turn of the cycle. A failed fetch and a zero word end the run
    /// with nothing else changed. Otherwise the program counter moves on by
    /// four; then the word is executed, and a fault ends the run; last, x0
    /// is put back to zero, whether the word was carried out or refused.
    pub open spec fn step(self) -> Machine {
        match self.fetch() {
            Err(fault) => self.halt(fault),
            Ok(word) => if word == 0 {
                Machine { stalled: true, ..self }
            } else {
                let advanced = Machine { pc: (self.pc + 4) as u64, ..self };
                match advanced.execute(word) {
                    Err(fault) => advanced.halt(fault).set_reg(0, 0),
                    Ok(next) => next.set_reg(0, 0),
                }
            },
        }
    }

    /// How far the program counter is from the end of the store.
    pub open spec fn headroom(self) -> nat {
        if self.pc <= DRAM_BASE + MAX_MEMORY {
            (DRAM_BASE + MAX_MEMORY - self.pc) as nat
        } else {
            0
        }
    }

    /// The state in which a run from this state ends: steps are taken until
    /// one stalls.
    pub open spec fn run(self) -> Machine
        decreases
                self.headroom(),
                (if self.stalled {
                    0nat
                } else {
                    1nat
                }),
    {
        if self.stalled {
            self
        } else {
            self.step().run()
        }
    }
}

/// A 64-bit RISC-V integer core with its memory.
#[derive(Debug)]
pub struct RV64I {
    /// x0 to x31; x0 is the zero register.
    general_registers: [u64; 32],
    program_counter: u64,
    bus: Bus,
    stalled: bool,
    fault: Option<Fault>,
}

impl View for RV64I {
    type V = Machine;

    closed spec fn view(&self) -> Machine {
        Machine {
            regs: self.general_registers@,
            pc: self.program_counter,
            memory: self.bus@,
            stalled: self.stalled,
            fault: self.fault,
        }
    }
}

impl Clone for RV64I {
    fn clone(&self) -> (copy: Self)
        ensures
            copy@ == self@,
            copy@.valid(),
    {
        proof {
            use_type_invariant(self);
        }
        Self {
            general_registers: self.general_registers,
            program_counter: self.program_counter,
            bus: self.bus.clone(),
            stalled: self.stalled,
            fault: self.fault,
        }
    }
}

impl RV64I {
    /// The store behind the bus has its fixed size.
    #[verifier::type_invariant]
    spec fn wf(&self) -> bool {
        self.bus@.len() == MAX_MEMORY
    }

    /// A processor whose memory holds `program` from the memory base on. The
    /// program counter points at the base, x2 holds the size of the store,
    /// every other register is zero.
    pub fn new(program: Vec<u8>) -> (cpu: Self)
        requires
            program@.len() <= MAX_MEMORY,
        ensures
            cpu@ == Machine::reset(program@),
            cpu@.inv(),
    {
        let mut registers = [0; 32];
        registers[2] = MAX_MEMORY;
        let memory = Memory::new(program);
        let bus = Bus::new(memory);
        let cpu = Self {
            general_registers: registers,
            bus,
            stalled: false,
            program_counter: DRAM_BASE,
            fault: None,
        };
        assert(cpu@.regs =~= Machine::reset(program@).regs);
        cpu
    }

    /// One turn of the fetch, decode and execute cycle.
    ///
    /// The word at the program counter is fetched. A failed fetch and a zero
    /// word, which marks the end of a program, stall the processor and
    /// change nothing else. Otherwise the program counter moves on by four
    /// and the word is executed; a fault stalls the processor and is put on
    /// record. Last, x0 is set back to zero, whether the word was carried
    /// out or refused.
    ///
    /// The flag is not looked at: a step on a stalled processor is carried
    /// out like any other, and leaves it stalled.
    pub fn step(&mut self)
        ensures
            final(self)@ == old(self)@.step(),
            final(self)@.valid(),
            old(self)@.inv() ==> final(self)@.inv(),
            old(self)@.executes() ==> final(self)@.regs[0] == 0,
            old(self)@.regs[0] == 0 ==> final(self)@.regs[0] == 0,
            !final(self)@.stalled ==> final(self)@.pc == old(self)@.pc + 4,
    {
        proof {
            use_type_invariant(&*self);
            lemma_step_frame(old(self)@);
            if old(self)@.inv() {
                lemma_step_keeps_inv(old(self)@);
            }
        }
        let instr = match self.fetch() {
            Ok(0) => {
                self.stalled = true;
                return ;
            },
            Ok(v) => v,
            Err(fault) => {
                self.stalled = true;
                self.fault = Some(fault);
                return ;
            },
        };

        self.program_counter += 4;

        if let Err(fault) = self.execute(instr) {
            self.stalled = true;
            self.fault = Some(fault);
        }
        self.general_registers[0] = 0;
    }

    /// Takes steps until one stalls; does nothing on a processor that has
    /// stalled already. The run always ends: no instruction moves the
    /// program counter back, and a fetch past the end of the store stalls.
    pub fn run(&mut self)
        ensures
            final(self)@ == old(self)@.run(),
            final(self)@.stalled,
            final(self)@.valid(),
            old(self)@.inv() ==> final(self)@.inv(),
    {
        proof {
            use_type_invariant(&*self);
        }
        while !self.stalled
            invariant
                self@.run() == old(self)@.run(),
                self@.valid(),
                old(self)@.inv() ==> self@.inv(),
            decreases
                    self@.headroom(),
                    (if self@.stalled {
                        0nat
                    } else {
                        1nat
                    }),
        {
            self.step();
        }
    }

    /// The 32 general registers, x0 first.
    pub fn registers(&self) -> (regs: [u64; 32])
        ensures
            regs@ == self@.regs,
            self@.valid(),
    {
        proof {
            use_type_invariant(self);
        }
        self.general_registers
    }

    /// Address of the instruction that the next step fetches.
    pub fn program_counter(&self) -> (pc: u64)
        ensures
            pc == self@.pc,
            self@.valid(),
    {
        proof {
            use_type_invariant(self);
        }
        self.program_counter
    }

    /// Whether the run has ended.
    pub fn is_stalled(&self) -> (stalled: bool)
        ensures
            stalled == self@.stalled,
            self@.valid(),
    {
        proof {
            use_type_invariant(self);
        }
        self.stalled
    }

    /// The fault of the latest step that ended in one; `None` while the
    /// processor runs and after a run that a zero word ended.
    pub fn fault(&self) -> (fault: Option<Fault>)
        ensures
            fault == self@.fault,
            self@.valid(),
    {
        proof {
            use_type_invariant(self);
        }
        self.fault
    }

    /// The bus, through which the memory can be read.
    pub fn bus(&self) -> (bus: &Bus)
        ensures
            bus@ == self@.memory,
            self@.valid(),
    {
        proof {
            use_type_invariant(self);
        }
        &self.bus
    }

    /// Reads the instruction word at the program counter.
    pub fn fetch(&self) -> (result: Result<u32, Fault>)
        ensures
            result == self@.fetch(),
            self@.valid(),
    {
        proof {
            use_type_invariant(self);
        }
        match self.bus.load(self.program_counter, 32) {
            Ok(v) => Ok(v as u32),
            Err(v) => Err(v),
        }
    }

    /// Decodes `instruction` and carries it out. A refused instruction
    /// leaves the processor as it was.
    pub fn execute(&mut self, instruction: u32) -> (result: Result<(), Fault>)
        ensures
            lands(old(self)@, old(self)@.execute(instruction), final(self)@, result),
            old(self)@.valid(),
            final(self)@.valid(),
    {
        proof {
            use_type_invariant(&*self);
        }
        let op_code = get_bits(instruction, 0, 6);

        let rd = get_bits(instruction, 7, 11);
        let rs1 = get_bits(instruction, 15, 19);
        let rs2 = get_bits(instruction, 20, 24);

        let funct3 = get_bits(instruction, 12, 14);
        let funct7 = get_bits(instruction, 25, 31);

        proof {
            vstd::arithmetic::power2::lemma2_to64();
        }

        match op_code {
            // I-type
            0b0010011 | 0b0000011 => {
                let imm = i_immediate(instruction);
                self.handle_i_type(op_code, rd, funct3, rs1, imm)
            },
            // R-type
            0b0110011 => self.handle_r_type(op_code, rd, funct3, rs1, rs2, funct7),
            // S-type
            0b0100011 => {
                let imm = s_immediate(instruction);
                self.handle_s_type(op_code, funct3, rs1, rs2, imm)
            },
            // B-type
            0b1100011 => {
                let imm = b_immediate(instruction);
                self.handle_b_type(op_code, funct3, rs1, rs2, imm)
            },
            _ => Err(Fault::UnimplementedOpcode),
        }
    }

    /// Carries out the R-type instruction with the given fields.
    pub fn handle_r_type(
        &mut self,
        opcode: u32,
        rd: u32,
        funct3: u32,
        rs1: u32,
        rs2: u32,
        funct7: u32,
    ) -> (result: Result<(), Fault>)
        requires
            rd < 32,
            rs1 < 32,
            rs2 < 32,
        ensures
            lands(
                old(self)@,
                old(self)@.handle_r_type(opcode, rd, funct3, rs1, rs2, funct7),
                final(self)@,
                result,
            ),
            old(self)@.valid(),
            final(self)@.valid(),
    {
        proof {
            use_type_invariant(&*self);
        }
        match (opcode, funct3, funct7) {
            (0b0110011, 0, 0) => {
                let sum = self.general_registers[rs1 as usize].wrapping_add(
                    self.general_registers[rs2 as usize],
                );
                self.general_registers[rd as usize] = sum;
                Ok(())
            },
            _ => Err(Fault::DecodeFailure),
        }
    }

    /// Carries out the I-type instruction with the given fields, `imm` being
    /// the immediate after sign extension.
    pub fn handle_i_type(
        &mut self,
        opcode: u32,
        rd: u32,
        funct3: u32,
        rs1: u32,
        imm: u64,
    ) -> (result: Result<(), Fault>)
        requires
            rd < 32,
            rs1 < 32,
        ensures
            lands(
                old(self)@,
                old(self)@.handle_i_type(opcode, rd, funct3, rs1, imm),
                final(self)@,
                result,
            ),
            old(self)@.valid(),
            final(self)@.valid(),
    {
        proof {
            use_type_invariant(&*self);
        }
        match (opcode, funct3) {
            // lb
            (0b0000011, 0b000) => self.load_register(rd, rs1, imm, 8, true),
            // lh
            (0b0000011, 0b001) => self.load_register(rd, rs1, imm, 16, true),
            // lw
            (0b0000011, 0b010) => self.load_register(rd, rs1, imm, 32, true),
            // ld
            (0b0000011, 0b011) => self.load_register(rd, rs1, imm, 64, false),
            // lbu
            (0b0000011, 0b100) => self.load_register(rd, rs1, imm, 8, false),
            // lhu
            (0b0000011, 0b101) => self.load_register(rd, rs1, imm, 16, false),
            // lwu
            (0b0000011, 0b110) => self.load_register(rd, rs1, imm, 32, false),
            // addi; a no-op when rd, rs1 and imm are zero
            (0b0010011, 0b000) => {
                let sum = self.general_registers[rs1 as usize].wrapping_add(imm);
                self.general_registers[rd as usize] = sum;
                Ok(())
            },
            _ => Err(Fault::DecodeFailure),
        }
    }

    /// Loads `width` bits from the address `rs1 + imm` into `rd`.
    fn load_register(
        &mut self,
        rd: u32,
        rs1: u32,
        imm: u64,
        width: u64,
        signed: bool,
    ) -> (result: Result<(), Fault>)
        requires
            rd < 32,
            rs1 < 32,
            width == 8 || width == 16 || width == 32 || width == 64,
        ensures
            lands(
                old(self)@,
                old(self)@.load_register(rd, rs1, imm, width, signed),
                final(self)@,
                result,
            ),
            old(self)@.valid(),
            final(self)@.valid(),
    {
        proof {
            use_type_invariant(&*self);
        }
        let addr = self.general_registers[rs1 as usize].wrapping_add(imm);
        match self.bus.load(addr, width) {
            Ok(val) => {
                self.general_registers[rd as usize] = if signed {
                    sign_extend(val, (width - 1) as u32)
                } else {
                    val
                };
                Ok(())
            },
            Err(fault) => Err(fault),
        }
    }

    /// Carries out the S-type instruction with the given fields, `imm` being
    /// the immediate after sign extension.
    pub fn handle_s_type(
        &mut self,
        opcode: u32,
        funct3: u32,
        rs1: u32,
        rs2: u32,
        imm: u64,
    ) -> (result: Result<(), Fault>)
        requires
            rs1 < 32,
            rs2 < 32,
        ensures
            lands(
                old(self)@,
                old(self)@.handle_s_type(opcode, funct3, rs1, rs2, imm),
                final(self)@,
                result,
            ),
            old(self)@.valid(),
            final(self)@.valid(),
    {
        proof {
            use_type_invariant(&*self);
        }
        let width: u64 = match (opcode, funct3) {
            // sb
            (0b0100011, 0b000) => 8,
            // sh
            (0b0100011, 0b001) => 16,
            // sw
            (0b0100011, 0b010) => 32,
            // sd
            (0b0100011, 0b011) => 64,
            _ => {
                return Err(Fault::DecodeFailure);
            },
        };
        let addr = self.general_registers[rs1 as usize].wrapping_add(imm);
        self.bus.store(addr, width, self.general_registers[rs2 as usize])
    }

    /// Refuses the B-type instruction with the given fields: the core
    /// carries out no branch.
    pub fn handle_b_type(
        &mut self,
        opcode: u32,
        funct3: u32,
        rs1: u32,
        rs2: u32,
        imm: u64,
    ) -> (result: Result<(), Fault>)
        ensures
            lands(
                old(self)@,
                old(self)@.handle_b_type(opcode, funct3, rs1, rs2, imm),
                final(self)@,
                result,
            ),
            old(self)@.valid(),
            final(self)@.valid(),
    {
        proof {
            use_type_invariant(&*self);
        }
        Err(Fault::DecodeFailure)
    }
}

} // verus!
