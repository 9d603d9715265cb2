//! The executable machine.

use crate::bits::wrap_add;
use crate::decimal::{digits_of, format_decimal, lemma_digits_of_next, parse_decimal};
use crate::instructions::{decode_spec, Fault, Instruction};
use crate::machine::{
    cells_before_kbsr, first_newline, image_address, image_words,
    lemma_first_newline, stored, word_of, Machine, Status, FL_NEG, FL_POS, FL_ZRO, KEY_READY,
    MR_KBSR,
    NEWLINE, PC_START,
};
use crate::memory::Memory;
use crate::reg::Reg;
use std::collections::VecDeque;
use vstd::prelude::*;

verus! {

/// A machine: memory, registers, the halt flag, and a console made of a queue
/// of input bytes that have arrived and a buffer of output bytes.
pub struct VM {
    memory: Memory,
    registers: [u16; 10],
    halt: bool,
    reader: VecDeque<u8>,
    writer: Vec<u8>,
}

impl View for VM {
    type V = Machine;

    closed spec fn view(&self) -> Machine {
        Machine {
            memory: self.memory@,
            registers: self.registers@,
            halted: self.halt,
            input: self.reader@,
            output: self.writer@,
        }
    }
}

/// The low byte of a word.
fn low_byte(word: u16) -> (byte: u8)
    ensures
        byte == word % 256,
{
    assert(word & 0xFF == word % 256) by (bit_vector);
    (word & 0b0000000011111111) as u8
}

/// The high byte of a word.
fn high_byte(word: u16) -> (byte: u8)
    ensures
        byte == word / 256,
{
    assert(word >> 8 == word / 256) by (bit_vector);
    (word >> 8) as u8
}

/// The word that two bytes of a program image make.
fn big_endian(high: u8, low: u8) -> (word: u16)
    ensures
        word == word_of(high, low),
{
    assert((low as u16) | ((high as u16) << 8) == high * 256 + low) by (bit_vector);
    low as u16 | (high as u16) << 8
}

impl VM {
    /// The model of every machine has 65536 cells and ten registers.
    pub proof fn lemma_wf(&self)
        ensures
            self@.wf(),
    {
        self.memory.lemma_len();
    }

    /// A machine with memory and the general-purpose registers zero, the
    /// program counter at `PC_START`, the zero flag set and an idle console.
    pub fn new() -> (vm: VM)
        ensures
            vm@ == Machine::initial(),
    {
        let vm = VM {
            memory: Memory::new(),
            registers: [0, 0, 0, 0, 0, 0, 0, 0, PC_START, FL_ZRO],
            halt: false,
            reader: VecDeque::new(),
            writer: Vec::new(),
        };
        vm
    }

    /// What a register holds.
    pub fn register(&self, r: Reg) -> (value: u16)
        ensures
            value == self@.reg(r),
    {
        self.registers[r.index()]
    }

    /// Sets a register, and nothing else: the condition codes stay.
    pub fn set_register(&mut self, r: Reg, value: u16)
        ensures
            final(self)@ == old(self)@.set_reg(r, value),
    {
        self.registers[r.index()] = value;
    }

    /// Whether the machine has executed `HALT`.
    pub fn halted(&self) -> (halted: bool)
        ensures
            halted == self@.halted,
    {
        self.halt
    }

    /// Hands the machine console input that has arrived.
    pub fn feed(&mut self, bytes: &[u8])
        ensures
            final(self)@ == (Machine { input: old(self)@.input + bytes@, ..old(self)@ }),
    {
        let ghost start = self@;
        let mut i: usize = 0;
        while i < bytes.len()
            invariant
                i <= bytes.len(),
                self@ == (Machine { input: start.input + bytes@.take(i as int), ..start }),
            decreases bytes.len() - i,
        {
            self.reader.push_back(bytes[i]);
            assert(start.input + bytes@.take(i + 1) == (start.input + bytes@.take(i as int)).push(
                bytes@[i as int],
            ));
            i += 1;
        }
    }

    /// Number of input bytes that have arrived and were not read yet.
    pub fn pending(&self) -> (count: usize)
        ensures
            count == self@.input.len(),
    {
        self.reader.len()
    }

    /// The console output written so far and not taken yet.
    pub fn output(&self) -> (bytes: &Vec<u8>)
        ensures
            bytes@ == self@.output,
    {
        &self.writer
    }

    /// Hands over the console output written so far and starts afresh.
    pub fn take_output(&mut self) -> (bytes: Vec<u8>)
        ensures
            bytes@ == old(self)@.output,
            final(self)@ == (Machine { output: Seq::empty(), ..old(self)@ }),
    {
        let mut bytes: Vec<u8> = Vec::new();
        std::mem::swap(&mut self.writer, &mut bytes);
        bytes
    }

    /// Reads a memory cell as a load instruction does.
    pub fn read_memory(&mut self, address: u16) -> (value: u16)
        ensures
            final(self)@ == old(self)@.read(address).0,
            value == old(self)@.read(address).1,
    {
        self.memory.read(address, &mut self.reader)
    }

    /// Reads a memory cell as plain storage.
    pub fn peek_memory(&self, address: u16) -> (value: u16)
        ensures
            value == self@.memory[address as int],
    {
        self.memory.peek(address)
    }

    /// Writes a memory cell. Every cell is plain storage to a write.
    pub fn write_memory(&mut self, address: u16, value: u16)
        ensures
            final(self)@ == old(self)@.write(address, value),
    {
        self.memory.write(address, value);
    }

    /// Advances the program counter by one, with wrap-around.
    fn inc_rpc(&mut self) -> (next_addr: u16)
        ensures
            next_addr == wrap_add(old(self)@.pc(), 1),
            final(self)@ == old(self)@.set_reg(Reg::RPC, next_addr),
    {
        let next_addr = self.register(Reg::RPC).wrapping_add(1);
        self.set_register(Reg::RPC, next_addr);
        next_addr
    }

    fn get_rpc(&self) -> (rpc: u16)
        ensures
            rpc == self@.pc(),
    {
        self.register(Reg::RPC)
    }

    /// Sets the condition codes from what register `r` holds.
    fn set_nzp(&mut self, r: Reg)
        ensures
            final(self)@ == old(self)@.set_nzp(r),
    {
        let value = self.register(r);
        assert((value >> 15 == 1) <==> value >= 0x8000) by (bit_vector);
        if value == 0 {
            self.set_register(Reg::RCond, FL_ZRO);
        } else if value >> 15 == 1 {
            self.set_register(Reg::RCond, FL_NEG);
        } else {
            self.set_register(Reg::RCond, FL_POS);
        }
    }

    fn add_const(&mut self, dr: Reg, sr: Reg, imm: u16)
        ensures
            final(self)@ == old(self)@.add_const(dr, sr, imm),
    {
        let result = self.register(sr).wrapping_add(imm);
        self.set_register(dr, result);
        self.set_nzp(dr);
    }

    fn add_reg(&mut self, dr: Reg, sr1: Reg, sr2: Reg)
        ensures
            final(self)@ == old(self)@.add_reg(dr, sr1, sr2),
    {
        let result = self.register(sr1).wrapping_add(self.register(sr2));
        self.set_register(dr, result);
        self.set_nzp(dr);
    }

    fn and_const(&mut self, dr: Reg, sr: Reg, imm: u16)
        ensures
            final(self)@ == old(self)@.and_const(dr, sr, imm),
    {
        let result = self.register(sr) & imm;
        self.set_register(dr, result);
        self.set_nzp(dr);
    }

    fn and_reg(&mut self, dr: Reg, sr1: Reg, sr2: Reg)
        ensures
            final(self)@ == old(self)@.and_reg(dr, sr1, sr2),
    {
        let result = self.register(sr1) & self.register(sr2);
        self.set_register(dr, result);
        self.set_nzp(dr);
    }

    fn not(&mut self, dr: Reg, sr: Reg)
        ensures
            final(self)@ == old(self)@.not(dr, sr),
    {
        let value = self.register(sr);
        assert(!value == 0xFFFF - value) by (bit_vector);
        let result = !value;
        self.set_register(dr, result);
        self.set_nzp(dr);
    }

    fn ld(&mut self, dr: Reg, offset: u16)
        ensures
            final(self)@ == old(self)@.ld(dr, offset),
    {
        let rpc = self.get_rpc();
        let address = rpc.wrapping_add(offset);
        let result = self.read_memory(address);
        self.set_register(dr, result);
        self.set_nzp(dr);
    }

    fn ldi(&mut self, dr: Reg, offset: u16)
        ensures
            final(self)@ == old(self)@.ldi(dr, offset),
    {
        let rpc = self.get_rpc();
        let address1 = rpc.wrapping_add(offset);
        let address2 = self.read_memory(address1);
        let result = self.read_memory(address2);
        self.set_register(dr, result);
        self.set_nzp(dr);
    }

    fn ldr(&mut self, dr: Reg, base: Reg, offset: u16)
        ensures
            final(self)@ == old(self)@.ldr(dr, base, offset),
    {
        let address = self.register(base).wrapping_add(offset);
        let result = self.read_memory(address);
        self.set_register(dr, result);
        self.set_nzp(dr);
    }

    fn lea(&mut self, dr: Reg, offset: u16)
        ensures
            final(self)@ == old(self)@.lea(dr, offset),
    {
        let rpc = self.get_rpc();
        let address = rpc.wrapping_add(offset);
        self.set_register(dr, address);
        self.set_nzp(dr);
    }

    fn st(&mut self, sr: Reg, offset: u16)
        ensures
            final(self)@ == old(self)@.st(sr, offset),
    {
        let rpc = self.get_rpc();
        let address = rpc.wrapping_add(offset);
        let value = self.register(sr);
        self.write_memory(address, value);
    }

    fn sti(&mut self, sr: Reg, offset: u16)
        ensures
            final(self)@ == old(self)@.sti(sr, offset),
    {
        let rpc = self.get_rpc();
        let address1 = rpc.wrapping_add(offset);
        let address2 = self.read_memory(address1);
        let value = self.register(sr);
        self.write_memory(address2, value);
    }

    fn str(&mut self, sr: Reg, base: Reg, offset: u16)
        ensures
            final(self)@ == old(self)@.str(sr, base, offset),
    {
        let address = self.register(base).wrapping_add(offset);
        let value = self.register(sr);
        self.write_memory(address, value);
    }

    fn jmp(&mut self, base: Reg)
        ensures
            final(self)@ == old(self)@.jmp(base),
    {
        let new_rpc = self.register(base);
        self.set_register(Reg::RPC, new_rpc);
    }

    fn jsrr(&mut self, base: Reg)
        ensures
            final(self)@ == old(self)@.jsrr(base),
    {
        let rpc = self.get_rpc();
        self.set_register(Reg::R7, rpc);
        let new_rpc = self.register(base);
        self.set_register(Reg::RPC, new_rpc);
    }

    fn jsr(&mut self, offset: u16)
        ensures
            final(self)@ == old(self)@.jsr(offset),
    {
        let rpc = self.get_rpc();
        self.set_register(Reg::R7, rpc);
        let new_rpc = rpc.wrapping_add(offset);
        self.set_register(Reg::RPC, new_rpc);
    }

    fn br(&mut self, nzp: u16, offset: u16)
        ensures
            final(self)@ == old(self)@.br(nzp, offset),
    {
        let rpc = self.get_rpc();
        if nzp & self.register(Reg::RCond) > 0 {
            self.set_register(Reg::RPC, rpc.wrapping_add(offset));
        }
    }

    /// `GETC`, and `IN` when `echo` is set.
    fn trap_getc(&mut self, echo: bool) -> (status: Status)
        ensures
            old(self)@.input.len() == 0 ==> status == Status::AwaitingInput && final(self)@ == old(
                self,
            )@,
            old(self)@.input.len() > 0 ==> status == old(self)@.getc(echo).status() && final(self)@
                == old(self)@.getc(echo),
    {
        match self.reader.pop_front() {
            None => Status::AwaitingInput,
            Some(byte) => {
                let rpc = self.get_rpc();
                self.set_register(Reg::R7, rpc);
                let c = byte as u16;
                self.set_register(Reg::R0, c);
                if echo {
                    self.writer.push(byte);
                }
                self.status()
            },
        }
    }

    fn trap_out(&mut self)
        ensures
            final(self)@ == old(self)@.out(),
    {
        let rpc = self.get_rpc();
        self.set_register(Reg::R7, rpc);
        let c = self.register(Reg::R0);
        self.writer.push(low_byte(c));
    }

    fn trap_puts(&mut self)
        ensures
            final(self)@ == old(self)@.puts(),
    {
        let rpc = self.get_rpc();
        self.set_register(Reg::R7, rpc);
        let mut address = self.register(Reg::R0);
        let ghost target = self@.puts_from(address);
        loop
            invariant
                self@.puts_from(address) == target,
            ensures
                self@ == target,
            decreases self@.input.len(), cells_before_kbsr(address),
        {
            proof {
                self.lemma_wf();
            }
            let c = self.read_memory(address);
            if c == 0 {
                break ;
            }
            self.writer.push(low_byte(c));
            address = address.wrapping_add(1);
        }
    }

    fn trap_putsp(&mut self)
        ensures
            final(self)@ == old(self)@.putsp(),
    {
        let rpc = self.get_rpc();
        self.set_register(Reg::R7, rpc);
        let mut address = self.register(Reg::R0);
        let ghost target = self@.putsp_from(address);
        loop
            invariant
                self@.putsp_from(address) == target,
            ensures
                self@ == target,
            decreases self@.input.len(), cells_before_kbsr(address),
        {
            proof {
                self.lemma_wf();
            }
            let c = self.read_memory(address);
            if c == 0 {
                break ;
            }
            self.writer.push(high_byte(c));
            self.writer.push(low_byte(c));
            address = address.wrapping_add(1);
        }
    }

    fn trap_halt(&mut self)
        ensures
            final(self)@ == old(self)@.halt(),
    {
        self.halt = true;
    }

    /// Index of the first newline among the waiting input, if there is one.
    fn find_newline(&self) -> (at: Option<usize>)
        ensures
            at.is_some() <==> self@.input.contains(NEWLINE),
            at matches Some(k) ==> k == first_newline(self@.input) && k < self@.input.len(),
    {
        let len = self.reader.len();
        let mut k: usize = 0;
        while k < len
            invariant
                len == self.reader@.len(),
                k <= len,
                forall|j: int| 0 <= j < k ==> self.reader@[j] != NEWLINE,
            decreases len - k,
        {
            if self.reader[k] == NEWLINE {
                proof {
                    lemma_first_newline(self.reader@, k as int);
                }
                return Some(k);
            }
            k += 1;
        }
        proof {
            lemma_first_newline(self.reader@, k as int);
        }
        None
    }

    fn trap_in_u16(&mut self) -> (result: Result<Status, Fault>)
        ensures
            final(self)@ == old(self)@.after(Instruction::TrapInu16),
            result == old(self)@.outcome(Instruction::TrapInu16),
    {
        let line_len = match self.find_newline() {
            None => {
                return Ok(Status::AwaitingInput);
            },
            Some(k) => k,
        };
        let rpc = self.get_rpc();
        self.set_register(Reg::R7, rpc);
        let ghost saved = self@;
        let ghost line = saved.input.take(line_len as int);
        let mut all_characters: Vec<u8> = Vec::new();
        let mut i: usize = 0;
        while i < line_len
            invariant
                i <= line_len < saved.input.len(),
                line == saved.input.take(line_len as int),
                self@ == (Machine { input: saved.input.skip(i as int), ..saved }),
                all_characters@ == digits_of(line.take(i as int)),
            decreases line_len - i,
        {
            let popped = self.reader.pop_front();
            proof {
                lemma_digits_of_next(line, i as int);
            }
            match popped {
                Some(character) => {
                    if character >= 0x30 && character <= 0x39 {
                        all_characters.push(character);
                    }
                },
                None => {},
            }
            i += 1;
        }
        let newline = self.reader.pop_front();
        assert(line.take(line_len as int) == line);
        match parse_decimal(all_characters.as_slice()) {
            Some(number) => {
                self.set_register(Reg::R0, number);
                Ok(self.status())
            },
            None => Err(Fault::NumberParse),
        }
    }

    fn trap_out_u16(&mut self)
        ensures
            final(self)@ == old(self)@.out_u16(),
    {
        let rpc = self.get_rpc();
        self.set_register(Reg::R7, rpc);
        let c = self.register(Reg::R0);
        let c_string = format_decimal(c);
        let ghost saved = self@;
        let mut i: usize = 0;
        while i < c_string.len()
            invariant
                i <= c_string.len(),
                self@ == saved.emit_all(c_string@.take(i as int)),
            decreases c_string.len() - i,
        {
            self.writer.push(c_string[i]);
            assert(saved.output + c_string@.take(i + 1) == (saved.output + c_string@.take(
                i as int,
            )).push(c_string@[i as int]));
            i += 1;
        }
    }

    /// `Halted` or `Running`, by the halt flag.
    fn status(&self) -> (status: Status)
        ensures
            status == self@.status(),
    {
        if self.halt {
            Status::Halted
        } else {
            Status::Running
        }
    }

    /// Executes an instruction that is no trap.
    fn operate(&mut self, instr: Instruction)
        requires
            !instr.is_trap(),
        ensures
            final(self)@ == old(self)@.after(instr),
    {
        match instr {
            Instruction::Br { nzp, offset } => self.br(nzp, offset),
            Instruction::AddReg { dr, sr1, sr2 } => self.add_reg(dr, sr1, sr2),
            Instruction::AddConst { dr, sr, imm } => self.add_const(dr, sr, imm),
            Instruction::AndReg { dr, sr1, sr2 } => self.and_reg(dr, sr1, sr2),
            Instruction::AndConst { dr, sr, imm } => self.and_const(dr, sr, imm),
            Instruction::Ld { dr, offset } => self.ld(dr, offset),
            Instruction::Ldi { dr, offset } => self.ldi(dr, offset),
            Instruction::Ldr { dr, base, offset } => self.ldr(dr, base, offset),
            Instruction::Lea { dr, offset } => self.lea(dr, offset),
            Instruction::St { sr, offset } => self.st(sr, offset),
            Instruction::Sti { sr, offset } => self.sti(sr, offset),
            Instruction::Str { sr, base, offset } => self.str(sr, base, offset),
            Instruction::Not { dr, sr } => self.not(dr, sr),
            Instruction::Jmp { base } => self.jmp(base),
            Instruction::Jsrr { base } => self.jsrr(base),
            Instruction::Jsr { offset } => self.jsr(offset),
            _ => {},
        }
    }

    /// Executes one decoded instruction on the machine as it stands: the
    /// program counter is taken to have been advanced already. An input trap
    /// whose input has not arrived changes nothing and reports that it
    /// waits.
    pub fn execute(&mut self, instr: Instruction) -> (result: Result<Status, Fault>)
        ensures
            final(self)@ == old(self)@.after(instr),
            result == old(self)@.outcome(instr),
    {
        match instr {
            Instruction::TrapGetC => {
                return Ok(self.trap_getc(false));
            },
            Instruction::TrapOutC => self.trap_out(),
            Instruction::TrapPuts => self.trap_puts(),
            Instruction::TrapIn => {
                return Ok(self.trap_getc(true));
            },
            Instruction::TrapPutsp => self.trap_putsp(),
            Instruction::TrapHalt => self.trap_halt(),
            Instruction::TrapInu16 => {
                return self.trap_in_u16();
            },
            Instruction::TrapOutu16 => self.trap_out_u16(),
            _ => self.operate(instr),
        }
        Ok(self.status())
    }

    /// One cycle: fetches the word at the program counter, advances the
    /// program counter, decodes the word and executes it.
    pub fn step(&mut self) -> (result: Result<Status, Fault>)
        ensures
            final(self)@ == old(self)@.step().0,
            result == old(self)@.step().1,
    {
        if self.halt {
            return Ok(Status::Halted);
        }
        proof {
            self.lemma_wf();
        }
        let current_addr = self.get_rpc();
        let instruction = self.read_memory(current_addr);
        self.inc_rpc();
        match Instruction::decode(instruction) {
            Err(fault) => Err(fault),
            Ok(op) => {
                let result = self.execute(op);
                match result {
                    Ok(Status::AwaitingInput) => {
                        // A fetch from the keyboard status register reads 0 or
                        // the ready bit, and neither is a trap: the fetch was an
                        // ordinary read, and putting the program counter back
                        // leaves the machine as it was.
                        assert(current_addr != MR_KBSR) by {
                            if current_addr == MR_KBSR {
                                assert(instruction == 0 || instruction == KEY_READY);
                                assert(decode_spec(0) is Ok && !decode_spec(0).unwrap().reads_input());
                                assert(decode_spec(KEY_READY) is Err);
                            }
                        }
                        self.set_register(Reg::RPC, current_addr);
                        assert(self@ =~= old(self)@);
                    },
                    _ => {},
                }
                result
            },
        }
    }

    /// Runs up to `budget` cycles. Ends early when the machine halts, when
    /// its next instruction has to wait for console input, or at a fault;
    /// reports `Running` when the budget ran out first.
    pub fn run_for(&mut self, budget: u64) -> (result: Result<Status, Fault>)
        ensures
            final(self)@ == old(self)@.run(budget as nat).0,
            result == old(self)@.run(budget as nat).1,
    {
        let mut left = budget;
        while left > 0 && !self.halt
            invariant
                self@.run(left as nat) == old(self)@.run(budget as nat),
            decreases left,
        {
            let result = self.step();
            match result {
                Ok(Status::Running) => {},
                _ => {
                    return result;
                },
            }
            left -= 1;
        }
        Ok(self.status())
    }

    /// Runs until the machine halts, waits for console input or faults,
    /// within the largest budget that `run_for` takes.
    pub fn run(&mut self) -> (result: Result<Status, Fault>)
        ensures
            final(self)@ == old(self)@.run(u64::MAX as nat).0,
            result == old(self)@.run(u64::MAX as nat).1,
    {
        self.run_for(u64::MAX)
    }

    /// Loads a program image: big-endian words, the first being the origin.
    /// The program counter is set to the origin and the words after it are
    /// stored from the origin upwards; no other cell is written. An odd last
    /// byte is left out; an image without a whole word sets the program
    /// counter to 0.
    pub fn load(&mut self, program: &[u8])
        ensures
            final(self)@ == old(self)@.load(program@),
    {
        let words = program.len() / 2;
        if words == 0 {
            self.set_register(Reg::RPC, 0);
            return ;
        }
        let origin = big_endian(program[0], program[1]);
        let mut base_address = origin;
        self.set_register(Reg::RPC, base_address);
        let ghost start = self@;
        let mut k: usize = 1;
        while k < words
            invariant
                1 <= k <= words,
                words == image_words(program@),
                2 * words <= program.len(),
                base_address == image_address(origin, k as int),
                self@ == (Machine {
                    memory: stored(start.memory, origin, program@, (k - 1) as nat),
                    ..start
                }),
            decreases words - k,
        {
            let instruction = big_endian(program[2 * k], program[2 * k + 1]);
            self.write_memory(base_address, instruction);
            base_address = base_address.wrapping_add(1);
            k += 1;
        }
    }
}

impl Default for VM {
    fn default() -> (vm: VM)
        ensures
            vm@ == Machine::initial(),
    {
        VM::new()
    }
}

} // verus!
