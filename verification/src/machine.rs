//! The machine as a mathematical value, and what each instruction does to it.
//!
//! A `Machine` holds everything that a program can observe: memory, the
//! register file, the halt flag, the console input that is waiting to be read
//! and the console output written so far. The executable machine refines
//! these functions.

use crate::bits::wrap_add;
use crate::decimal::{decimal_digits, digits_of, parse_spec};
use crate::instructions::{decode_spec, Fault, Instruction};
use crate::reg::Reg;
use vstd::prelude::*;

verus! {

/// Where a loaded program starts unless its image says otherwise.
pub const PC_START: u16 = 0x3000;

/// Address of the keyboard status register.
pub const MR_KBSR: u16 = 0xFE00;

/// Address of the keyboard data register.
pub const MR_KBDR: u16 = 0xFE02;

/// Value of the keyboard status register when a key is ready.
pub const KEY_READY: u16 = 0x8000;

/// Condition flag: the last result was positive.
pub const FL_POS: u16 = 1;

/// Condition flag: the last result was zero.
pub const FL_ZRO: u16 = 2;

/// Condition flag: the last result was negative.
pub const FL_NEG: u16 = 4;

/// The byte that ends a line of decimal input.
pub const NEWLINE: u8 = 0x0A;

/// What a machine is doing after it was asked to go on.
#[derive(Clone, Copy, Debug, PartialEq, Eq, Structural)]
pub enum Status {
    /// It can execute its next instruction.
    Running,
    /// It has executed `HALT`.
    Halted,
    /// Its next instruction reads console input that has not arrived yet.
    AwaitingInput,
}

/// The state of a machine.
#[verifier::ext_equal]
pub struct Machine {
    /// The 65536 memory cells.
    pub memory: Seq<u16>,
    /// The ten registers, each at its `Reg::index_spec`.
    pub registers: Seq<u16>,
    pub halted: bool,
    /// Console input that has arrived and was not read yet, oldest first.
    pub input: Seq<u8>,
    /// Console output written so far.
    pub output: Seq<u8>,
}

/// The condition flag for a result: zero, negative (bit 15 set) or positive.
pub open spec fn flag_of(value: u16) -> u16 {
    if value == 0 {
        FL_ZRO
    } else if value >= 0x8000 {
        FL_NEG
    } else {
        FL_POS
    }
}

/// How many cells lie between `address` and the keyboard status register,
/// going upwards with wrap-around.
pub open spec fn cells_before_kbsr(address: u16) -> nat {
    if address <= MR_KBSR {
        (MR_KBSR - address) as nat
    } else {
        (MR_KBSR + 0x1_0000 - address) as nat
    }
}

/// Index of the first newline in `input`; the length of `input` if it has
/// none.
pub open spec fn first_newline(input: Seq<u8>) -> int
    decreases input.len(),
{
    if input.len() == 0 {
        0
    } else if input[0] == NEWLINE {
        0
    } else {
        1 + first_newline(input.skip(1))
    }
}

/// The first newline of an input is where a scan from the front finds it:
/// at `k` when no byte before `k` is a newline and the byte at `k` is one, or
/// the input ends there.
pub proof fn lemma_first_newline(input: Seq<u8>, k: int)
    requires
        0 <= k <= input.len(),
        forall|j: int| 0 <= j < k ==> input[j] != NEWLINE,
        k < input.len() ==> input[k] == NEWLINE,
    ensures
        first_newline(input) == k,
        input.contains(NEWLINE) <==> k < input.len(),
    decreases k,
{
    if k > 0 {
        let rest = input.skip(1);
        assert forall|j: int| 0 <= j < k - 1 implies rest[j] != NEWLINE by {
            assert(rest[j] == input[j + 1]);
        }
        lemma_first_newline(rest, k - 1);
    }
    if k == input.len() {
        assert(!input.contains(NEWLINE));
    } else {
        assert(input[k] == NEWLINE);
    }
}

/// The 16-bit word that two bytes make, the first being the high byte.
pub open spec fn word_of(high: u8, low: u8) -> u16 {
    (high * 256 + low) as u16
}

/// Number of whole words in a program image.
pub open spec fn image_words(image: Seq<u8>) -> nat {
    image.len() / 2
}

/// Number of words that follow the origin in a program image.
pub open spec fn payload_words(image: Seq<u8>) -> nat {
    if image_words(image) == 0 {
        0
    } else {
        (image_words(image) - 1) as nat
    }
}

/// Word `k` of a program image. Word 0 is the origin.
pub open spec fn image_word(image: Seq<u8>, k: int) -> u16 {
    word_of(image[2 * k], image[2 * k + 1])
}

/// The address `i` cells above `base`, with wrap-around.
pub open spec fn address_above(base: u16, i: int) -> int {
    (base + i) % 0x1_0000
}

/// The address at which word `k` of an image is stored, `k` being 1 or more.
pub open spec fn image_address(origin: u16, k: int) -> int {
    address_above(origin, k - 1)
}

/// Memory after the words 1 to `count` of `image` were stored, in that
/// order, from `origin` upwards with wrap-around.
pub open spec fn stored(memory: Seq<u16>, origin: u16, image: Seq<u8>, count: nat) -> Seq<u16>
    decreases count,
{
    if count == 0 {
        memory
    } else {
        stored(memory, origin, image, (count - 1) as nat).update(
            image_address(origin, count as int),
            image_word(image, count as int),
        )
    }
}

impl Machine {
    /// Whether the machine has its 65536 cells and its ten registers.
    pub open spec fn wf(self) -> bool {
        self.memory.len() == 0x1_0000 && self.registers.len() == 10
    }

    pub open spec fn reg(self, r: Reg) -> u16 {
        self.registers[r.index_spec()]
    }

    pub open spec fn set_reg(self, r: Reg, value: u16) -> Machine {
        Machine { registers: self.registers.update(r.index_spec(), value), ..self }
    }

    pub open spec fn pc(self) -> u16 {
        self.reg(Reg::RPC)
    }

    /// Sets the condition codes from what register `r` holds.
    pub open spec fn set_nzp(self, r: Reg) -> Machine {
        self.set_reg(Reg::RCond, flag_of(self.reg(r)))
    }

    /// Writes a result to `dr` and sets the condition codes from it.
    pub open spec fn write_result(self, dr: Reg, value: u16) -> Machine {
        self.set_reg(dr, value).set_nzp(dr)
    }

    /// The keyboard poll that a read of the status register makes: with
    /// input waiting, the status register gets its ready bit, the data
    /// register gets the oldest byte, and that byte is consumed; with none,
    /// the status register is cleared.
    pub open spec fn poll(self) -> Machine {
        if self.input.len() > 0 {
            Machine {
                memory: self.memory.update(MR_KBSR as int, KEY_READY).update(
                    MR_KBDR as int,
                    self.input[0] as u16,
                ),
                input: self.input.skip(1),
                ..self
            }
        } else {
            Machine { memory: self.memory.update(MR_KBSR as int, 0), ..self }
        }
    }

    /// The machine after a read of `address`: polled if `address` is the
    /// keyboard status register, unchanged otherwise.
    pub open spec fn touch(self, address: u16) -> Machine {
        if address == MR_KBSR {
            self.poll()
        } else {
            self
        }
    }

    /// A memory read: the machine after it, and the value read.
    pub open spec fn read(self, address: u16) -> (Machine, u16) {
        (self.touch(address), self.touch(address).memory[address as int])
    }

    pub open spec fn write(self, address: u16, value: u16) -> Machine {
        Machine { memory: self.memory.update(address as int, value), ..self }
    }

    /// Appends one byte to the console output.
    pub open spec fn emit(self, byte: u8) -> Machine {
        Machine { output: self.output.push(byte), ..self }
    }

    pub open spec fn add_reg(self, dr: Reg, sr1: Reg, sr2: Reg) -> Machine {
        self.write_result(dr, wrap_add(self.reg(sr1), self.reg(sr2)))
    }

    pub open spec fn add_const(self, dr: Reg, sr: Reg, imm: u16) -> Machine {
        self.write_result(dr, wrap_add(self.reg(sr), imm))
    }

    pub open spec fn and_reg(self, dr: Reg, sr1: Reg, sr2: Reg) -> Machine {
        self.write_result(dr, self.reg(sr1) & self.reg(sr2))
    }

    pub open spec fn and_const(self, dr: Reg, sr: Reg, imm: u16) -> Machine {
        self.write_result(dr, self.reg(sr) & imm)
    }

    pub open spec fn not(self, dr: Reg, sr: Reg) -> Machine {
        self.write_result(dr, (0xFFFF - self.reg(sr)) as u16)
    }

    pub open spec fn ld(self, dr: Reg, offset: u16) -> Machine {
        let (m, value) = self.read(wrap_add(self.pc(), offset));
        m.write_result(dr, value)
    }

    pub open spec fn ldi(self, dr: Reg, offset: u16) -> Machine {
        let (m1, pointer) = self.read(wrap_add(self.pc(), offset));
        let (m2, value) = m1.read(pointer);
        m2.write_result(dr, value)
    }

    pub open spec fn ldr(self, dr: Reg, base: Reg, offset: u16) -> Machine {
        let (m, value) = self.read(wrap_add(self.reg(base), offset));
        m.write_result(dr, value)
    }

    pub open spec fn lea(self, dr: Reg, offset: u16) -> Machine {
        self.write_result(dr, wrap_add(self.pc(), offset))
    }

    pub open spec fn st(self, sr: Reg, offset: u16) -> Machine {
        self.write(wrap_add(self.pc(), offset), self.reg(sr))
    }

    pub open spec fn sti(self, sr: Reg, offset: u16) -> Machine {
        let (m, pointer) = self.read(wrap_add(self.pc(), offset));
        m.write(pointer, m.reg(sr))
    }

    pub open spec fn str(self, sr: Reg, base: Reg, offset: u16) -> Machine {
        self.write(wrap_add(self.reg(base), offset), self.reg(sr))
    }

    pub open spec fn br(self, nzp: u16, offset: u16) -> Machine {
        if nzp & self.reg(Reg::RCond) != 0 {
            self.set_reg(Reg::RPC, wrap_add(self.pc(), offset))
        } else {
            self
        }
    }

    pub open spec fn jmp(self, base: Reg) -> Machine {
        self.set_reg(Reg::RPC, self.reg(base))
    }

    /// Saves the return address: R7 gets the program counter.
    pub open spec fn save_return(self) -> Machine {
        self.set_reg(Reg::R7, self.pc())
    }

    pub open spec fn jsr(self, offset: u16) -> Machine {
        self.save_return().set_reg(Reg::RPC, wrap_add(self.pc(), offset))
    }

    pub open spec fn jsrr(self, base: Reg) -> Machine {
        let saved = self.save_return();
        saved.set_reg(Reg::RPC, saved.reg(base))
    }

    /// `GETC` and `IN` on a machine with input waiting: R0 gets the oldest
    /// byte, which is consumed; `IN` also echoes it.
    pub open spec fn getc(self, echo: bool) -> Machine {
        let byte = self.input[0];
        let taken = Machine { input: self.input.skip(1), ..self.save_return() }.set_reg(
            Reg::R0,
            byte as u16,
        );
        if echo {
            taken.emit(byte)
        } else {
            taken
        }
    }

    pub open spec fn out(self) -> Machine {
        self.save_return().emit((self.reg(Reg::R0) % 256) as u8)
    }

    /// Writes the string at `address`, one character to a cell, up to the
    /// first cell that reads as zero. Every cell is read as a load reads it.
    pub open spec fn puts_from(self, address: u16) -> Machine
        decreases self.input.len(), cells_before_kbsr(address),
        when self.wf()
    {
        let (m, cell) = self.read(address);
        if cell == 0 {
            m
        } else {
            m.emit((cell % 256) as u8).puts_from(wrap_add(address, 1))
        }
    }

    /// Writes the string at `address`, two characters to a cell, the high
    /// byte first, up to the first cell that reads as zero.
    pub open spec fn putsp_from(self, address: u16) -> Machine
        decreases self.input.len(), cells_before_kbsr(address),
        when self.wf()
    {
        let (m, cell) = self.read(address);
        if cell == 0 {
            m
        } else {
            m.emit((cell / 256) as u8).emit((cell % 256) as u8).putsp_from(wrap_add(address, 1))
        }
    }

    pub open spec fn puts(self) -> Machine {
        self.save_return().puts_from(self.reg(Reg::R0))
    }

    pub open spec fn putsp(self) -> Machine {
        self.save_return().putsp_from(self.reg(Reg::R0))
    }

    /// The line that the decimal-input trap reads: the input before the
    /// first newline.
    pub open spec fn input_line(self) -> Seq<u8> {
        self.input.take(first_newline(self.input))
    }

    /// The machine after the decimal-input trap has saved the return address
    /// and consumed a line with its newline.
    pub open spec fn line_taken(self) -> Machine {
        Machine { input: self.input.skip(first_newline(self.input) + 1), ..self.save_return() }
    }

    /// The number that the decimal-input trap reads from the waiting line:
    /// what its digits denote, every other byte being dropped.
    pub open spec fn input_number(self) -> Option<u16> {
        parse_spec(digits_of(self.input_line()))
    }

    pub open spec fn in_u16(self) -> Machine {
        match self.input_number() {
            Some(number) => self.line_taken().set_reg(Reg::R0, number),
            None => self.line_taken(),
        }
    }

    /// Appends bytes to the console output.
    pub open spec fn emit_all(self, bytes: Seq<u8>) -> Machine {
        Machine { output: self.output + bytes, ..self }
    }

    pub open spec fn out_u16(self) -> Machine {
        self.save_return().emit_all(decimal_digits(self.reg(Reg::R0) as nat))
    }

    pub open spec fn halt(self) -> Machine {
        Machine { halted: true, ..self }
    }

    /// Whether `instr` has to wait for console input: a character trap with
    /// no input waiting, or the decimal-input trap with no whole line
    /// waiting.
    pub open spec fn blocked(self, instr: Instruction) -> bool {
        match instr {
            Instruction::TrapGetC => self.input.len() == 0,
            Instruction::TrapIn => self.input.len() == 0,
            Instruction::TrapInu16 => !self.input.contains(NEWLINE),
            _ => false,
        }
    }

    /// `Halted` or `Running`, by the halt flag.
    pub open spec fn status(self) -> Status {
        if self.halted {
            Status::Halted
        } else {
            Status::Running
        }
    }

    /// The machine after `instr`, the program counter having been advanced
    /// already. An instruction that has to wait changes nothing.
    pub open spec fn after(self, instr: Instruction) -> Machine {
        if self.blocked(instr) {
            self
        } else {
            match instr {
                Instruction::Br { nzp, offset } => self.br(nzp, offset),
                Instruction::AddReg { dr, sr1, sr2 } => self.add_reg(dr, sr1, sr2),
                Instruction::AddConst { dr, sr, imm } => self.add_const(dr, sr, imm),
                Instruction::AndReg { dr, sr1, sr2 } => self.and_reg(dr, sr1, sr2),
                Instruction::AndConst { dr, sr, imm } => self.and_const(dr, sr, imm),
                Instruction::Ld { dr, offset } => self.ld(dr, offset),
                Instruction::Ldi { dr, offset } => self.ldi(dr, offset),
                Instruction::Ldr { dr, base, offset } => self.ldr(dr, base, offset),
                Instruction::Lea { dr, offset } => self.lea(dr, offset),
                Instruction::St { sr, offset } => self.st(sr, offset),
                Instruction::Sti { sr, offset } => self.sti(sr, offset),
                Instruction::Str { sr, base, offset } => self.str(sr, base, offset),
                Instruction::Not { dr, sr } => self.not(dr, sr),
                Instruction::Jmp { base } => self.jmp(base),
                Instruction::Jsrr { base } => self.jsrr(base),
                Instruction::Jsr { offset } => self.jsr(offset),
                Instruction::TrapGetC => self.getc(false),
                Instruction::TrapOutC => self.out(),
                Instruction::TrapPuts => self.puts(),
                Instruction::TrapIn => self.getc(true),
                Instruction::TrapPutsp => self.putsp(),
                Instruction::TrapHalt => self.halt(),
                Instruction::TrapInu16 => self.in_u16(),
                Instruction::TrapOutu16 => self.out_u16(),
            }
        }
    }

    /// What executing `instr` reports: that it has to wait, that the line it
    /// read is no 16-bit number, or else the status of the machine after it.
    pub open spec fn outcome(self, instr: Instruction) -> Result<Status, Fault> {
        if self.blocked(instr) {
            Ok(Status::AwaitingInput)
        } else if instr == Instruction::TrapInu16 && self.input_number().is_none() {
            Err(Fault::NumberParse)
        } else {
            Ok(self.after(instr).status())
        }
    }

    /// The machine after the word at the program counter was fetched and the
    /// program counter advanced by one.
    pub open spec fn fetched(self) -> Machine {
        self.touch(self.pc()).set_reg(Reg::RPC, wrap_add(self.pc(), 1))
    }

    /// The word that a fetch reads.
    pub open spec fn fetched_word(self) -> u16 {
        self.read(self.pc()).1
    }

    /// One cycle: fetch, advance the program counter, decode, execute.
    /// A halted machine stays as it is; so does one whose instruction has to
    /// wait for input. A word that does not decode leaves the machine as the
    /// fetch left it.
    pub open spec fn step(self) -> (Machine, Result<Status, Fault>) {
        if self.halted {
            (self, Ok(Status::Halted))
        } else {
            match decode_spec(self.fetched_word()) {
                Err(fault) => (self.fetched(), Err(fault)),
                Ok(instr) => if self.fetched().blocked(instr) {
                    (self, Ok(Status::AwaitingInput))
                } else {
                    (self.fetched().after(instr), self.fetched().outcome(instr))
                },
            }
        }
    }

    /// Up to `budget` cycles, ending early at a halt, a wait for input or a
    /// fault. `Running` is reported when the budget ran out first.
    pub open spec fn run(self, budget: nat) -> (Machine, Result<Status, Fault>)
        decreases budget,
    {
        if self.halted {
            (self, Ok(Status::Halted))
        } else if budget == 0 {
            (self, Ok(Status::Running))
        } else {
            let (next, result) = self.step();
            if result == Ok::<Status, Fault>(Status::Running) {
                next.run((budget - 1) as nat)
            } else {
                (next, result)
            }
        }
    }

    /// The origin of a program image: its first word, or 0 for an image with
    /// no whole word.
    pub open spec fn origin_of(image: Seq<u8>) -> u16 {
        if image_words(image) == 0 {
            0
        } else {
            image_word(image, 0)
        }
    }

    /// The machine after a program image was loaded: the program counter is
    /// at the origin and the words after the origin are in memory from there
    /// on. Nothing else changes. A last odd byte is left out.
    pub open spec fn load(self, image: Seq<u8>) -> Machine {
        let origin = Machine::origin_of(image);
        Machine {
            memory: stored(self.memory, origin, image, payload_words(image)),
            ..self.set_reg(Reg::RPC, origin)
        }
    }

    /// The machine as it is built: memory and the general-purpose registers
    /// zero, the program counter at `PC_START`, the zero flag set, nothing
    /// read or written.
    pub open spec fn initial() -> Machine {
        Machine {
            memory: Seq::new(0x1_0000, |i: int| 0u16),
            registers: seq![0u16, 0u16, 0u16, 0u16, 0u16, 0u16, 0u16, 0u16, PC_START, FL_ZRO],
            halted: false,
            input: Seq::empty(),
            output: Seq::empty(),
        }
    }
}

} // verus!
