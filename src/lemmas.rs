//! Laws of the decoder and the CPU step, proved over the model.

use vstd::prelude::*;

use crate::cpu::{
    advance, flag, highest_pressed, is_skip, op_wf, step, tick, with_pc, CpuError, CpuView,
};
use crate::instruction::{decode, fetch, Instruction, Operation};

verus! {

/// Decoding the opcode at `pc` depends on the bytes at `pc` and `pc + 1`
/// alone: their high and low nibbles, in that order.
pub proof fn lemma_decode_reads_two_bytes(m1: Seq<u8>, m2: Seq<u8>, pc: int)
    requires
        0 <= pc,
        pc + 1 < m1.len(),
        pc + 1 < m2.len(),
        m1[pc] == m2[pc],
        m1[pc + 1] == m2[pc + 1],
    ensures
        decode(fetch(m1, pc)) == decode(fetch(m2, pc)),
        decode(fetch(m1, pc)) == Instruction(m1[pc] / 16, m1[pc] % 16, m1[pc + 1] / 16, m1[pc + 1] % 16),
{
    let op = fetch(m1, pc);
    assert(op as int == m1[pc] as int * 256 + m1[pc + 1] as int);
    assert(op / 4096 == m1[pc] / 16);
    assert(op / 256 % 16 == m1[pc] % 16);
    assert(op / 16 % 16 == m1[pc + 1] / 16);
    assert(op % 16 == m1[pc + 1] % 16);
}

/// The register, the second register and the byte operands of an opcode.
pub open spec fn reg_x(opcode: u16) -> int {
    (opcode / 256 % 16) as int
}

pub open spec fn reg_y(opcode: u16) -> int {
    (opcode / 16 % 16) as int
}

pub open spec fn low_byte(opcode: u16) -> int {
    (opcode % 256) as int
}

proof fn lemma_operands(opcode: u16)
    ensures
        decode(opcode).wf(),
        decode(opcode).1 as int == reg_x(opcode),
        decode(opcode).2 as int == reg_y(opcode),
        decode(opcode).byte() as int == low_byte(opcode),
{
}

/// `7xkk` sets `Vx` to `(Vx + kk) mod 256`, leaves every other register (VF
/// included) alone and moves on to the next instruction.
pub proof fn lemma_add_byte(s: CpuView, opcode: u16, random: u8)
    requires
        s.wf(),
        0x7000 <= opcode < 0x8000,
    ensures
        ({
            let (t, r) = step(s, decode(opcode).operation_of(), random);
            let x = reg_x(opcode);
            &&& r is Ok
            &&& t.v[x] == (s.v[x] + low_byte(opcode)) % 256
            &&& forall|k: int| 0 <= k < 16 && k != x ==> t.v[k] == s.v[k]
            &&& t.pc == advance(s.pc)
        }),
{
    lemma_operands(opcode);
}

/// `8xy4` sets VF exactly when `Vx + Vy` reaches 256 and, unless x is F,
/// leaves `(Vx + Vy) mod 256` in `Vx`.
pub proof fn lemma_add_registers(s: CpuView, opcode: u16, random: u8)
    requires
        s.wf(),
        0x8000 <= opcode < 0x9000,
        opcode % 16 == 4,
    ensures
        ({
            let (t, r) = step(s, decode(opcode).operation_of(), random);
            let (x, y) = (reg_x(opcode), reg_y(opcode));
            &&& r is Ok
            &&& t.v[15] == flag(s.v[x] + s.v[y] >= 256)
            &&& x != 15 ==> t.v[x] == (s.v[x] + s.v[y]) % 256
        }),
{
    lemma_operands(opcode);
}

/// `8xy5` sets VF exactly when `Vx >= Vy` and, unless x is F, leaves
/// `(Vx - Vy) mod 256` in `Vx`.
pub proof fn lemma_sub_registers(s: CpuView, opcode: u16, random: u8)
    requires
        s.wf(),
        0x8000 <= opcode < 0x9000,
        opcode % 16 == 5,
    ensures
        ({
            let (t, r) = step(s, decode(opcode).operation_of(), random);
            let (x, y) = (reg_x(opcode), reg_y(opcode));
            &&& r is Ok
            &&& t.v[15] == flag(s.v[x] >= s.v[y])
            &&& x != 15 ==> t.v[x] == (s.v[x] - s.v[y]) % 256
        }),
{
    lemma_operands(opcode);
}

/// `8xy6` puts the low bit of `Vx` in VF and, unless x is F, leaves
/// `Vx div 2` in `Vx`.
pub proof fn lemma_shift_right(s: CpuView, opcode: u16, random: u8)
    requires
        s.wf(),
        0x8000 <= opcode < 0x9000,
        opcode % 16 == 6,
    ensures
        ({
            let (t, r) = step(s, decode(opcode).operation_of(), random);
            let x = reg_x(opcode);
            &&& r is Ok
            &&& t.v[15] == s.v[x] % 2
            &&& x != 15 ==> t.v[x] == s.v[x] / 2
        }),
{
    lemma_operands(opcode);
}

/// `8xyE` sets VF exactly when `2 * Vx` reaches 256 and, unless x is F,
/// leaves `(2 * Vx) mod 256` in `Vx`.
pub proof fn lemma_shift_left(s: CpuView, opcode: u16, random: u8)
    requires
        s.wf(),
        0x8000 <= opcode < 0x9000,
        opcode % 16 == 0xE,
    ensures
        ({
            let (t, r) = step(s, decode(opcode).operation_of(), random);
            let x = reg_x(opcode);
            &&& r is Ok
            &&& t.v[15] == flag(s.v[x] * 2 >= 256)
            &&& x != 15 ==> t.v[x] == (s.v[x] * 2) % 256
        }),
{
    lemma_operands(opcode);
}

/// Whether a skip operation's condition holds in `s`.
pub open spec fn skip_taken(s: CpuView, op: Operation) -> bool {
    match op {
        Operation::SkipIfByte(x, kk) => s.v[x as int] == kk,
        Operation::SkipUnlessByte(x, kk) => s.v[x as int] != kk,
        Operation::SkipIfEqual(x, y) => s.v[x as int] == s.v[y as int],
        Operation::SkipUnlessEqual(x, y) => s.v[x as int] != s.v[y as int],
        Operation::SkipIfKey(x) => s.keys[s.v[x as int] as int],
        Operation::SkipUnlessKey(x) => !s.keys[s.v[x as int] as int],
        _ => false,
    }
}

/// The key that a key skip names is one of 0x0 to 0xF.
pub open spec fn key_operand_valid(s: CpuView, op: Operation) -> bool {
    match op {
        Operation::SkipIfKey(x) | Operation::SkipUnlessKey(x) => s.v[x as int] < 16,
        _ => true,
    }
}

/// A skip moves the program counter on by four bytes when its condition
/// holds and by two when it does not, and changes nothing else.
#[verifier::spinoff_prover]
pub proof fn lemma_skip_distance(s: CpuView, op: Operation, random: u8)
    requires
        s.wf(),
        op_wf(op),
        is_skip(op),
        key_operand_valid(s, op),
    ensures
        step(s, op, random).1 is Ok,
        skip_taken(s, op) ==> step(s, op, random).0 == with_pc(s, ((s.pc + 4) % 65536) as u16),
        !skip_taken(s, op) ==> step(s, op, random).0 == with_pc(s, advance(s.pc)),
{
    let t = with_pc(s, advance(s.pc));
    assert(with_pc(t, advance(t.pc)) == with_pc(s, ((s.pc + 4) % 65536) as u16));
    match op {
        Operation::SkipIfByte(_, _) => {},
        Operation::SkipUnlessByte(_, _) => {},
        Operation::SkipIfEqual(_, _) => {},
        Operation::SkipUnlessEqual(_, _) => {},
        Operation::SkipIfKey(_) => {},
        Operation::SkipUnlessKey(_) => {},
        _ => {},
    }
}

/// A call pushes the address of the next instruction and jumps; the matching
/// return pops it, so the pair resumes right after the call with the stack
/// pointer back where it was.
pub proof fn lemma_call_then_return(s: CpuView, nnn: u16, random: u8)
    requires
        s.wf(),
        s.sp < 16,
    ensures
        ({
            let (t, r1) = step(s, Operation::Call(nnn), random);
            let (u, r2) = step(t, Operation::Return, random);
            &&& r1 is Ok
            &&& t.pc == nnn
            &&& t.sp == s.sp + 1
            &&& t.stack[s.sp as int] == advance(s.pc)
            &&& r2 is Ok
            &&& u.pc == advance(s.pc)
            &&& u.sp == s.sp
        }),
{
}

/// A call with a full stack and a return with an empty one fail and change
/// nothing.
pub proof fn lemma_stack_bounds(s: CpuView, nnn: u16, random: u8)
    requires
        s.wf(),
    ensures
        s.sp == 16 ==> step(s, Operation::Call(nnn), random) == (s, Err::<(), CpuError>(CpuError::StackOverflow)),
        s.sp == 0 ==> step(s, Operation::Return, random) == (s, Err::<(), CpuError>(CpuError::StackUnderflow)),
{
}

/// The highest pressed key below `n`, when there is one, is pressed and no
/// key above it below `n` is; when there is none, no key below `n` is pressed.
pub proof fn lemma_highest_pressed(keys: Seq<bool>, n: int)
    requires
        0 <= n <= keys.len(),
    ensures
        -1 <= highest_pressed(keys, n) < n,
        highest_pressed(keys, n) >= 0 ==> keys[highest_pressed(keys, n)],
        forall|k: int| highest_pressed(keys, n) < k < n ==> !keys[k],
    decreases n,
{
    if n > 0 {
        lemma_highest_pressed(keys, n - 1);
    }
}

/// `Fx0A` with no key down changes nothing, so the same instruction runs
/// again; with keys down it stores the highest pressed index in `Vx` and
/// moves on.
pub proof fn lemma_wait_key(s: CpuView, x: u8, random: u8)
    requires
        s.wf(),
        x < 16,
    ensures
        (forall|k: int| 0 <= k < 16 ==> !s.keys[k]) ==> step(s, Operation::WaitKey(x), random) == (
        s, Ok::<(), CpuError>(())),
        (exists|k: int| 0 <= k < 16 && s.keys[k]) ==> ({
            let (t, r) = step(s, Operation::WaitKey(x), random);
            let h = t.v[x as int] as int;
            &&& r is Ok
            &&& t.pc == advance(s.pc)
            &&& 0 <= h < 16
            &&& s.keys[h]
            &&& forall|k: int| h < k < 16 ==> !s.keys[k]
        }),
{
    lemma_highest_pressed(s.keys, 16);
}

/// `Fx55` writes `V0..=Vx` to `I..=I+x` and touches no other byte or register.
pub proof fn lemma_store_registers(s: CpuView, x: u8, random: u8)
    requires
        s.wf(),
        x < 16,
        s.i + x < 4096,
    ensures
        ({
            let (t, r) = step(s, Operation::StoreRegisters(x), random);
            &&& r is Ok
            &&& forall|k: int| 0 <= k <= x ==> t.memory[s.i + k] == s.v[k]
            &&& forall|a: int| 0 <= a < 4096 && !(s.i <= a <= s.i + x) ==> t.memory[a] == s.memory[a]
            &&& t.v == s.v
        }),
{
    let t = step(s, Operation::StoreRegisters(x), random).0;
    assert forall|k: int| 0 <= k <= x implies t.memory[s.i + k] == s.v[k] by {
        assert(s.i + k - s.i == k);
    }
}

/// `Fx65` reads `V0..=Vx` from `I..=I+x` and touches no other register or
/// byte.
pub proof fn lemma_load_registers(s: CpuView, x: u8, random: u8)
    requires
        s.wf(),
        x < 16,
        s.i + x < 4096,
    ensures
        ({
            let (t, r) = step(s, Operation::LoadRegisters(x), random);
            &&& r is Ok
            &&& forall|k: int| 0 <= k <= x ==> t.v[k] == s.memory[s.i + k]
            &&& forall|k: int| x < k < 16 ==> t.v[k] == s.v[k]
            &&& t.memory == s.memory
        }),
{
}

/// A timer after `n` ticks.
pub open spec fn ticks(t: u8, n: nat) -> u8
    decreases n,
{
    if n == 0 {
        t
    } else {
        tick(ticks(t, (n - 1) as nat))
    }
}

/// Ticking never takes a timer below zero: after `n` ticks it reads
/// `t - n`, or zero once that would be negative.
pub proof fn lemma_ticks_saturate(t: u8, n: nat)
    ensures
        ticks(t, n) == if t >= n {
            t - n
        } else {
            0
        },
    decreases n,
{
    if n > 0 {
        lemma_ticks_saturate(t, (n - 1) as nat);
    }
}

} // verus!
