//! Laws of the machine, stated over its model.

use crate::bits::{signed16, wrap_add};
use crate::decimal::{decimal_digits, lemma_digits_denote, lemma_digits_of_digits};
use crate::instructions::{decode_spec, Fault, Instruction};
use crate::machine::{
    address_above, cells_before_kbsr, flag_of, image_address, image_word,
    lemma_first_newline, payload_words, stored, Machine, Status, FL_NEG, FL_POS, FL_ZRO,
    KEY_READY, MR_KBDR, MR_KBSR, NEWLINE,
};
use crate::reg::Reg;
use vstd::prelude::*;

verus! {

/// The condition flag of a value is exactly one of the three flags, and it
/// tells the sign of the value read in two's complement.
pub proof fn lemma_flag_of(value: u16)
    ensures
        flag_of(value) == FL_ZRO || flag_of(value) == FL_NEG || flag_of(value) == FL_POS,
        flag_of(value) == FL_ZRO <==> signed16(value) == 0,
        flag_of(value) == FL_NEG <==> signed16(value) < 0,
        flag_of(value) == FL_POS <==> signed16(value) > 0,
{
}

/// After `ADD` in its register form the destination holds the sum of the
/// two sources as they were, wrapped to 16 bits, and the condition codes
/// are the flag of that sum. The destination is any register but the
/// condition-code register, which the flag would overwrite.
pub proof fn lemma_add_reg(m: Machine, dr: Reg, sr1: Reg, sr2: Reg)
    requires
        m.wf(),
        dr != Reg::RCond,
    ensures
        m.after(Instruction::AddReg { dr, sr1, sr2 }).reg(dr) == wrap_add(m.reg(sr1), m.reg(sr2)),
        m.after(Instruction::AddReg { dr, sr1, sr2 }).reg(Reg::RCond) == flag_of(
            wrap_add(m.reg(sr1), m.reg(sr2)),
        ),
        m.outcome(Instruction::AddReg { dr, sr1, sr2 }) == Ok::<Status, Fault>(m.status()),
{
}

/// A read of any cell but the keyboard status register changes nothing and
/// gives what the cell holds.
pub proof fn lemma_plain_read(m: Machine, address: u16)
    requires
        address != MR_KBSR,
    ensures
        m.read(address) == (m, m.memory[address as int]),
{
}

/// A read of the keyboard status register with no input waiting clears the
/// register and reads as 0. With input waiting it sets the register to its
/// ready bit, which is what it reads as, puts the oldest byte in the data
/// register and consumes that byte. No other cell and no register changes.
pub proof fn lemma_kbsr_read(m: Machine)
    requires
        m.wf(),
    ensures
        m.input.len() == 0 ==> {
            &&& m.read(MR_KBSR).1 == 0
            &&& m.read(MR_KBSR).0.memory[MR_KBSR as int] == 0
            &&& m.read(MR_KBSR).0.input == m.input
        },
        m.input.len() > 0 ==> {
            &&& m.read(MR_KBSR).1 == KEY_READY
            &&& m.read(MR_KBSR).0.memory[MR_KBSR as int] == KEY_READY
            &&& m.read(MR_KBSR).0.memory[MR_KBDR as int] == m.input[0]
            &&& m.read(MR_KBSR).0.input == m.input.skip(1)
        },
        forall|a: int|
            0 <= a < 0x1_0000 && a != MR_KBSR && a != MR_KBDR ==> m.read(MR_KBSR).0.memory[a]
                == m.memory[a],
        m.read(MR_KBSR).0.registers == m.registers,
        m.read(MR_KBSR).0.output == m.output,
        m.read(MR_KBSR).0.halted == m.halted,
{
}

/// The pointer that `LDI` and `STI` at `offset` go through: what a read of
/// the cell at the program counter plus `offset` gives.
pub open spec fn pointer_at(m: Machine, offset: u16) -> u16 {
    m.read(wrap_add(m.pc(), offset)).1
}

/// `LDI` loads what the cell holds to which the cell at the program counter
/// plus the offset points, when neither cell is the keyboard status
/// register and the destination is not the condition-code register.
pub proof fn lemma_ldi_dereferences(m: Machine, dr: Reg, offset: u16)
    requires
        m.wf(),
        dr != Reg::RCond,
        wrap_add(m.pc(), offset) != MR_KBSR,
        m.memory[wrap_add(m.pc(), offset) as int] != MR_KBSR,
    ensures
        m.ldi(dr, offset).reg(dr) == m.memory[m.memory[wrap_add(m.pc(), offset) as int] as int],
{
}

/// What `STI` stores at an offset, `LDI` at the same offset loads: provided
/// that the load finds the pointer that the store went through, that the
/// pointer does not point to the keyboard status register, and that the
/// destination is not the condition-code register.
pub proof fn lemma_sti_ldi_round_trip(m: Machine, sr: Reg, dr: Reg, offset: u16)
    requires
        m.wf(),
        dr != Reg::RCond,
        pointer_at(m, offset) != MR_KBSR,
        pointer_at(m.sti(sr, offset), offset) == pointer_at(m, offset),
    ensures
        m.sti(sr, offset).ldi(dr, offset).reg(dr) == m.reg(sr),
{
    let address = wrap_add(m.pc(), offset);
    let pointer = m.read(address).1;
    let stored_to = m.sti(sr, offset);
    assert(stored_to.pc() == m.pc());
    let (polled, again) = stored_to.read(address);
    assert(again == pointer);
    assert(polled.memory[pointer as int] == m.reg(sr));
}

/// The pointer is found again by the load whenever the pointer cell is not
/// the keyboard status register and does not point to itself.
pub proof fn lemma_pointer_kept(m: Machine, sr: Reg, offset: u16)
    requires
        m.wf(),
        wrap_add(m.pc(), offset) != MR_KBSR,
        pointer_at(m, offset) != wrap_add(m.pc(), offset),
    ensures
        pointer_at(m.sti(sr, offset), offset) == pointer_at(m, offset),
{
}

/// `BR` moves the program counter by its offset when its mask and the
/// condition codes have a flag in common, and does nothing otherwise.
pub proof fn lemma_br(m: Machine, nzp: u16, offset: u16)
    requires
        m.wf(),
    ensures
        nzp & m.reg(Reg::RCond) != 0 ==> m.after(Instruction::Br { nzp, offset }) == m.set_reg(
            Reg::RPC,
            wrap_add(m.pc(), offset),
        ),
        nzp & m.reg(Reg::RCond) == 0 ==> m.after(Instruction::Br { nzp, offset }) == m,
{
}

/// With the zero flag set, a branch on negative or positive is not taken.
pub proof fn lemma_br_zero_not_taken(m: Machine, offset: u16)
    requires
        m.wf(),
        m.reg(Reg::RCond) == FL_ZRO,
    ensures
        m.after(Instruction::Br { nzp: 5, offset }) == m,
{
    assert(5u16 & 2u16 == 0) by (bit_vector);
}

/// A cycle that executes `JSR` or `JSRR` leaves in R7 the address after the
/// one that the instruction was fetched from.
pub proof fn lemma_call_saves_next_address(m: Machine)
    requires
        m.wf(),
        !m.halted,
        decode_spec(m.fetched_word()) matches Ok(instr) && (instr is Jsr || instr is Jsrr),
    ensures
        m.step().0.reg(Reg::R7) == wrap_add(m.pc(), 1),
        m.step().0.reg(Reg::R7) != m.pc(),
{
}

/// The low bytes of the `count` cells from `address` upwards.
pub open spec fn string_at(memory: Seq<u16>, address: u16, count: nat) -> Seq<u8> {
    Seq::new(count, |i: int| (memory[address_above(address, i)] % 256) as u8)
}

/// `PUTS` on a string of `count` non-zero cells that a zero cell ends writes
/// the low byte of each of the `count` cells and nothing more, and changes
/// nothing else, when the keyboard status register is not among the cells
/// read.
pub proof fn lemma_puts_string(m: Machine, address: u16, count: nat)
    requires
        m.wf(),
        count < 0x1_0000,
        forall|i: int| 0 <= i <= count ==> #[trigger] address_above(address, i) != MR_KBSR,
        forall|i: int| 0 <= i < count ==> m.memory[#[trigger] address_above(address, i)] != 0,
        m.memory[address_above(address, count as int)] == 0,
    ensures
        m.puts_from(address) == m.emit_all(string_at(m.memory, address, count)),
    decreases count,
{
    assert(address_above(address, 0) == address);
    if count == 0 {
        assert(m.output + string_at(m.memory, address, 0) =~= m.output);
        assert(m.puts_from(address) =~= m.emit_all(string_at(m.memory, address, count)));
    } else {
        let cell = m.memory[address as int];
        let next = wrap_add(address, 1);
        let rest = (count - 1) as nat;
        let written = m.emit((cell % 256) as u8);
        assert forall|i: int| 0 <= i <= rest implies #[trigger] address_above(next, i)
            != MR_KBSR by {
            assert(address_above(next, i) == address_above(address, i + 1));
        }
        assert forall|i: int| 0 <= i < rest implies written.memory[#[trigger] address_above(
            next,
            i,
        )] != 0 by {
            assert(address_above(next, i) == address_above(address, i + 1));
        }
        assert(address_above(next, rest as int) == address_above(address, count as int));
        lemma_puts_string(written, next, rest);
        assert forall|i: int| 0 <= i < rest implies string_at(m.memory, next, rest)[i]
            == string_at(m.memory, address, count)[i + 1] by {
            assert(address_above(next, i) == address_above(address, i + 1));
        }
        assert(written.output + string_at(m.memory, next, rest) =~= m.output + string_at(
            m.memory,
            address,
            count,
        ));
        assert(m.puts_from(address) == written.puts_from(next));
    }
}

/// The bytes of the `count` cells from `address` upwards, the high byte of
/// each cell before its low byte.
pub open spec fn packed_string_at(memory: Seq<u16>, address: u16, count: nat) -> Seq<u8> {
    Seq::new(
        2 * count,
        |i: int|
            if i % 2 == 0 {
                (memory[address_above(address, i / 2)] / 256) as u8
            } else {
                (memory[address_above(address, i / 2)] % 256) as u8
            },
    )
}

/// `PUTSP` on a string of `count` non-zero cells that a zero cell ends
/// writes the two bytes of each of the `count` cells, the high byte first,
/// and nothing more, and changes nothing else, when the keyboard status
/// register is not among the cells read.
pub proof fn lemma_putsp_string(m: Machine, address: u16, count: nat)
    requires
        m.wf(),
        count < 0x1_0000,
        forall|i: int| 0 <= i <= count ==> #[trigger] address_above(address, i) != MR_KBSR,
        forall|i: int| 0 <= i < count ==> m.memory[#[trigger] address_above(address, i)] != 0,
        m.memory[address_above(address, count as int)] == 0,
    ensures
        m.putsp_from(address) == m.emit_all(packed_string_at(m.memory, address, count)),
    decreases count,
{
    assert(address_above(address, 0) == address);
    if count == 0 {
        assert(m.output + packed_string_at(m.memory, address, 0) =~= m.output);
        assert(m.putsp_from(address) =~= m.emit_all(packed_string_at(m.memory, address, count)));
    } else {
        let cell = m.memory[address as int];
        let next = wrap_add(address, 1);
        let rest = (count - 1) as nat;
        let written = m.emit((cell / 256) as u8).emit((cell % 256) as u8);
        assert forall|i: int| 0 <= i <= rest implies #[trigger] address_above(next, i)
            != MR_KBSR by {
            assert(address_above(next, i) == address_above(address, i + 1));
        }
        assert forall|i: int| 0 <= i < rest implies written.memory[#[trigger] address_above(
            next,
            i,
        )] != 0 by {
            assert(address_above(next, i) == address_above(address, i + 1));
        }
        assert(address_above(next, rest as int) == address_above(address, count as int));
        lemma_putsp_string(written, next, rest);
        let tail = packed_string_at(m.memory, next, rest);
        let whole = packed_string_at(m.memory, address, count);
        assert forall|i: int| 0 <= i < 2 * rest implies tail[i] == whole[i + 2] by {
            assert(address_above(next, i / 2) == address_above(address, (i + 2) / 2));
        }
        assert(whole[0] == (cell / 256) as u8);
        assert(whole[1] == (cell % 256) as u8);
        assert(written.output + tail =~= m.output + whole);
        assert(m.putsp_from(address) == written.putsp_from(next));
    }
}

/// What `stored` leaves in memory when the words fit in memory once: word
/// `k` is at its address, and every cell that is the address of no word is
/// as it was.
pub proof fn lemma_stored(memory: Seq<u16>, origin: u16, image: Seq<u8>, count: nat)
    requires
        memory.len() == 0x1_0000,
        count <= 0x1_0000,
    ensures
        stored(memory, origin, image, count).len() == 0x1_0000,
        forall|k: int|
            1 <= k <= count ==> stored(memory, origin, image, count)[#[trigger] image_address(
                origin,
                k,
            )] == image_word(image, k),
        forall|a: int|
            0 <= a < 0x1_0000 && (forall|k: int|
                1 <= k <= count ==> #[trigger] image_address(origin, k) != a) ==> stored(
                memory,
                origin,
                image,
                count,
            )[a] == memory[a],
    decreases count,
{
    if count > 0 {
        let before = (count - 1) as nat;
        lemma_stored(memory, origin, image, before);
        let last = image_address(origin, count as int);
        assert forall|k: int| 1 <= k <= count implies stored(
            memory,
            origin,
            image,
            count,
        )[#[trigger] image_address(origin, k)] == image_word(image, k) by {
            if k < count {
                assert(image_address(origin, k) != last);
            }
        }
        assert forall|a: int|
            0 <= a < 0x1_0000 && (forall|k: int|
                1 <= k <= count ==> #[trigger] image_address(origin, k) != a) implies stored(
            memory,
            origin,
            image,
            count,
        )[a] == memory[a] by {
            assert(image_address(origin, count as int) != a);
        }
    }
}

/// Loading an image whose words fit in memory once puts the program counter
/// at the origin and each word after the origin at its place from the origin
/// upwards. Every cell that is the address of no word is as it was, and so
/// are the other registers, the halt flag and the console.
pub proof fn lemma_load_places_words(m: Machine, image: Seq<u8>)
    requires
        m.wf(),
        payload_words(image) <= 0x1_0000,
    ensures
        m.load(image).wf(),
        m.load(image).pc() == Machine::origin_of(image),
        forall|k: int|
            1 <= k <= payload_words(image) ==> m.load(image).memory[#[trigger] image_address(
                Machine::origin_of(image),
                k,
            )] == image_word(image, k),
        forall|a: int|
            0 <= a < 0x1_0000 && (forall|k: int|
                1 <= k <= payload_words(image) ==> #[trigger] image_address(
                    Machine::origin_of(image),
                    k,
                ) != a) ==> m.load(image).memory[a] == m.memory[a],
        forall|r: Reg| r != Reg::RPC ==> m.load(image).reg(r) == m.reg(r),
        m.load(image).halted == m.halted,
        m.load(image).input == m.input,
        m.load(image).output == m.output,
{
    lemma_stored(m.memory, Machine::origin_of(image), image, payload_words(image));
}

/// An image that holds an origin and nothing after it moves the program
/// counter to the origin and changes nothing else.
pub proof fn lemma_load_origin_alone(m: Machine, image: Seq<u8>)
    requires
        m.wf(),
        2 <= image.len() < 4,
    ensures
        m.load(image) == m.set_reg(Reg::RPC, image_word(image, 0)),
{
}

/// An image with no whole word moves the program counter to 0 and changes
/// nothing else.
pub proof fn lemma_load_empty(m: Machine, image: Seq<u8>)
    requires
        m.wf(),
        image.len() < 2,
    ensures
        m.load(image) == m.set_reg(Reg::RPC, 0),
{
}

/// The string traps write output and poll the keyboard when they read its
/// status register; they leave the registers and the halt flag alone, and
/// what they had written before stays written.
pub proof fn lemma_puts_frame(m: Machine, address: u16)
    requires
        m.wf(),
    ensures
        m.puts_from(address).wf(),
        m.puts_from(address).registers == m.registers,
        m.puts_from(address).halted == m.halted,
        m.output.is_prefix_of(m.puts_from(address).output),
        m.putsp_from(address).wf(),
        m.putsp_from(address).registers == m.registers,
        m.putsp_from(address).halted == m.halted,
        m.output.is_prefix_of(m.putsp_from(address).output),
    decreases m.input.len(), cells_before_kbsr(address),
{
    let (read, cell) = m.read(address);
    if cell != 0 {
        let next = wrap_add(address, 1);
        lemma_puts_frame(read.emit((cell % 256) as u8), next);
        lemma_puts_frame(read.emit((cell / 256) as u8).emit((cell % 256) as u8), next);
    }
}

/// Whether `after` is well-formed and as halted as `before`.
spec fn same_halt(before: Machine, after: Machine) -> bool {
    after.wf() && after.halted == before.halted
}

/// Reads, writes and register updates leave the halt flag as it was.
proof fn lemma_access_keeps_halt(m: Machine, r: Reg, value: u16, address: u16)
    requires
        m.wf(),
    ensures
        same_halt(m, m.set_reg(r, value)),
        same_halt(m, m.write_result(r, value)),
        same_halt(m, m.read(address).0),
        same_halt(m, m.write(address, value)),
{
}

/// The instructions that compute a result leave the halt flag as it was.
proof fn lemma_arithmetic_keeps_halt(m: Machine, instr: Instruction)
    requires
        m.wf(),
        instr is AddReg || instr is AddConst || instr is AndReg || instr is AndConst || instr is Not
            || instr is Lea,
    ensures
        same_halt(m, m.after(instr)),
{
}

/// The loads leave the halt flag as it was.
proof fn lemma_load_keeps_halt(m: Machine, instr: Instruction)
    requires
        m.wf(),
        instr is Ld || instr is Ldi || instr is Ldr,
    ensures
        same_halt(m, m.after(instr)),
{
    match instr {
        Instruction::Ldi { dr, offset } => {
            let first = m.read(wrap_add(m.pc(), offset));
            lemma_access_keeps_halt(m, dr, 0, wrap_add(m.pc(), offset));
            let second = first.0.read(first.1);
            lemma_access_keeps_halt(first.0, dr, 0, first.1);
            lemma_access_keeps_halt(second.0, dr, second.1, 0);
        },
        Instruction::Ld { dr, offset } => {
            let first = m.read(wrap_add(m.pc(), offset));
            lemma_access_keeps_halt(m, dr, 0, wrap_add(m.pc(), offset));
            lemma_access_keeps_halt(first.0, dr, first.1, 0);
        },
        Instruction::Ldr { dr, base, offset } => {
            let first = m.read(wrap_add(m.reg(base), offset));
            lemma_access_keeps_halt(m, dr, 0, wrap_add(m.reg(base), offset));
            lemma_access_keeps_halt(first.0, dr, first.1, 0);
        },
        _ => {},
    }
}

/// The stores leave the halt flag as it was.
proof fn lemma_store_keeps_halt(m: Machine, instr: Instruction)
    requires
        m.wf(),
        instr is St || instr is Sti || instr is Str,
    ensures
        same_halt(m, m.after(instr)),
{
    match instr {
        Instruction::Sti { sr, offset } => {
            let first = m.read(wrap_add(m.pc(), offset));
            lemma_access_keeps_halt(m, sr, 0, wrap_add(m.pc(), offset));
            lemma_access_keeps_halt(first.0, sr, first.0.reg(sr), first.1);
        },
        _ => {},
    }
}

/// The branch and the jumps leave the halt flag as it was.
proof fn lemma_jump_keeps_halt(m: Machine, instr: Instruction)
    requires
        m.wf(),
        instr is Br || instr is Jmp || instr is Jsr || instr is Jsrr,
    ensures
        same_halt(m, m.after(instr)),
{
}

/// An instruction that is no trap leaves the halt flag as it was.
proof fn lemma_operation_keeps_halt(m: Machine, instr: Instruction)
    requires
        m.wf(),
        !instr.is_trap(),
    ensures
        same_halt(m, m.after(instr)),
{
    if instr is Ld || instr is Ldi || instr is Ldr {
        lemma_load_keeps_halt(m, instr);
    } else if instr is St || instr is Sti || instr is Str {
        lemma_store_keeps_halt(m, instr);
    } else if instr is Br || instr is Jmp || instr is Jsr || instr is Jsrr {
        lemma_jump_keeps_halt(m, instr);
    } else {
        lemma_arithmetic_keeps_halt(m, instr);
    }
}

/// A trap other than `HALT` leaves the halt flag as it was.
proof fn lemma_trap_keeps_halt(m: Machine, instr: Instruction)
    requires
        m.wf(),
        instr.is_trap(),
        instr != Instruction::TrapHalt,
    ensures
        same_halt(m, m.after(instr)),
{
    lemma_puts_frame(m.save_return(), m.reg(Reg::R0));
}

/// Only `HALT` halts: after an instruction the machine is halted if it was,
/// or if the instruction was `HALT`. Every instruction leaves the machine
/// with its 65536 cells and its ten registers.
pub proof fn lemma_only_halt_halts(m: Machine, instr: Instruction)
    requires
        m.wf(),
    ensures
        m.after(instr).wf(),
        m.after(instr).halted == (m.halted || instr == Instruction::TrapHalt),
{
    if !instr.is_trap() {
        lemma_operation_keeps_halt(m, instr);
    } else if instr != Instruction::TrapHalt {
        lemma_trap_keeps_halt(m, instr);
    }
}

/// What a cycle reports is what became of the machine: `Halted` exactly when
/// the machine is halted after it, `AwaitingInput` only when the machine is
/// as it was, not halted, and would report the same again.
pub proof fn lemma_step_report(m: Machine)
    requires
        m.wf(),
    ensures
        m.step().0.wf(),
        m.step().1 == Ok::<Status, Fault>(Status::Halted) <==> m.step().1.is_ok()
            && m.step().0.halted,
        m.step().1 == Ok::<Status, Fault>(Status::AwaitingInput) ==> m.step().0 == m && !m.halted,
        m.halted ==> m.step() == (m, Ok::<Status, Fault>(Status::Halted)),
{
    if !m.halted {
        match decode_spec(m.fetched_word()) {
            Ok(instr) => {
                lemma_only_halt_halts(m.fetched(), instr);
            },
            Err(_) => {},
        }
    }
}

/// What a run reports is what became of the machine: `Halted` exactly when
/// the machine is halted after it; `AwaitingInput` only when its next cycle
/// would wait; `Running` only when the budget ran out with the machine not
/// halted.
pub proof fn lemma_run_report(m: Machine, budget: nat)
    requires
        m.wf(),
    ensures
        m.run(budget).0.wf(),
        m.run(budget).1 == Ok::<Status, Fault>(Status::Halted) <==> m.run(budget).1.is_ok()
            && m.run(budget).0.halted,
        m.run(budget).1 == Ok::<Status, Fault>(Status::AwaitingInput) ==> m.run(budget).0.step()
            == (m.run(budget).0, Ok::<Status, Fault>(Status::AwaitingInput)),
        m.halted ==> m.run(budget) == (m, Ok::<Status, Fault>(Status::Halted)),
    decreases budget,
{
    if !m.halted && budget > 0 {
        lemma_step_report(m);
        let (next, result) = m.step();
        if result == Ok::<Status, Fault>(Status::Running) {
            lemma_run_report(next, (budget - 1) as nat);
        }
    }
}

/// A run in two parts is the run in one: when the first part ends with the
/// machine still running, going on for `more` cycles gives what a single
/// run of both budgets gives.
pub proof fn lemma_run_resumes(m: Machine, budget: nat, more: nat)
    requires
        m.wf(),
        m.run(budget).1 == Ok::<Status, Fault>(Status::Running),
    ensures
        m.run(budget + more) == m.run(budget).0.run(more),
    decreases budget,
{
    if m.halted {
    } else if budget == 0 {
    } else {
        lemma_step_report(m);
        let (next, result) = m.step();
        if result == Ok::<Status, Fault>(Status::Running) {
            lemma_run_resumes(next, (budget - 1) as nat, more);
            assert(m.run(budget + more) == next.run((budget + more - 1) as nat));
        }
    }
}

/// Whether a word is one of the three condition flags.
pub open spec fn is_flag(word: u16) -> bool {
    word == FL_ZRO || word == FL_NEG || word == FL_POS
}

/// The condition codes stay one flag: if the condition-code register holds
/// one of the three flags, it does so after any instruction.
pub proof fn lemma_condition_codes_stay_flags(m: Machine, instr: Instruction)
    requires
        m.wf(),
        is_flag(m.reg(Reg::RCond)),
    ensures
        is_flag(m.after(instr).reg(Reg::RCond)),
{
    if instr.is_trap() {
        lemma_puts_frame(m.save_return(), m.reg(Reg::R0));
    } else if instr is Ld || instr is Ldi || instr is Ldr {
        match instr {
            Instruction::Ldi { dr, offset } => {
                let first = m.read(wrap_add(m.pc(), offset));
                let second = first.0.read(first.1);
                assert(first.0.registers == m.registers);
                assert(second.0.registers == m.registers);
                assert(is_flag(second.0.write_result(dr, second.1).reg(Reg::RCond)));
            },
            Instruction::Ld { dr, offset } => {
                let first = m.read(wrap_add(m.pc(), offset));
                assert(is_flag(first.0.write_result(dr, first.1).reg(Reg::RCond)));
            },
            Instruction::Ldr { dr, base, offset } => {
                let first = m.read(wrap_add(m.reg(base), offset));
                assert(is_flag(first.0.write_result(dr, first.1).reg(Reg::RCond)));
            },
            _ => {},
        }
    }
}

/// The decimal-input trap on a machine with a newline waiting consumes the
/// input up to and with the first newline, and nothing after it; it saves
/// the return address, and R0 gets the number that the digits before the
/// newline denote, if they denote one of 16 bits.
pub proof fn lemma_in_u16_reads_line(m: Machine, k: int)
    requires
        m.wf(),
        0 <= k < m.input.len(),
        m.input[k] == NEWLINE,
        forall|j: int| 0 <= j < k ==> m.input[j] != NEWLINE,
    ensures
        !m.blocked(Instruction::TrapInu16),
        m.input_line() == m.input.take(k),
        m.after(Instruction::TrapInu16).input == m.input.skip(k + 1),
        m.after(Instruction::TrapInu16).reg(Reg::R7) == m.pc(),
        m.input_number() matches Some(number) ==> m.after(Instruction::TrapInu16).reg(Reg::R0)
            == number && m.outcome(Instruction::TrapInu16) == Ok::<Status, Fault>(m.status()),
        m.input_number().is_none() ==> m.after(Instruction::TrapInu16).reg(Reg::R0) == m.reg(
            Reg::R0,
        ) && m.outcome(Instruction::TrapInu16) == Err::<Status, Fault>(Fault::NumberParse),
{
    lemma_first_newline(m.input, k);
}

/// What the decimal-output trap writes for a number, the decimal-input trap
/// reads back as that number when a newline follows it.
pub proof fn lemma_number_round_trip(m: Machine, n: u16, rest: Seq<u8>)
    requires
        m.wf(),
        m.input == decimal_digits(n as nat).push(NEWLINE) + rest,
    ensures
        m.after(Instruction::TrapInu16).reg(Reg::R0) == n,
        m.after(Instruction::TrapInu16).input == rest,
        m.outcome(Instruction::TrapInu16) == Ok::<Status, Fault>(m.status()),
{
    let digits = decimal_digits(n as nat);
    let k = digits.len() as int;
    lemma_digits_denote(n as nat);
    assert forall|j: int| 0 <= j < k implies m.input[j] != NEWLINE by {
        assert(m.input[j] == digits[j]);
    }
    assert(m.input[k] == NEWLINE);
    lemma_first_newline(m.input, k);
    assert(m.input.take(k) == digits);
    lemma_digits_of_digits(digits);
    assert(m.input.skip(k + 1) == rest);
}

} // verus!
