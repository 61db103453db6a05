//! The CPU: registers, memory, call stack and timers, and the
//! fetch-decode-execute step over them.

use vstd::prelude::*;

use crate::display::{blank, collides, drawn, Display};
use crate::font::{load_font, with_font};
use crate::instruction::{decode, fetch, Instruction, Operation};
use crate::keypad::{released, Keypad};

verus! {

/// Bytes of addressable memory.
pub const MEMORY_SIZE: usize = 4096;

/// Where programs are loaded and execution starts after a reset.
pub const PROGRAM_START: u16 = 0x200;

/// The largest program that fits between `PROGRAM_START` and the end of memory.
pub const MAX_ROM_SIZE: usize = 0xE00;

/// Depth of the call stack.
pub const STACK_DEPTH: u8 = 16;

/// Index of the flag register VF.
const FLAG: usize = 0xF;

/// Why a step could not be carried out; the CPU is left as it was.
#[derive(Debug, Clone, Copy, PartialEq, Eq, Structural)]
pub enum CpuError {
    /// A call with all sixteen stack slots in use.
    StackOverflow,
    /// A return with an empty stack.
    StackUnderflow,
    /// A memory access past the last address.
    AddressOutOfRange,
    /// A key instruction naming a key above 0xF.
    InvalidKey,
}

/// The whole machine state as mathematical values.
#[verifier::ext_equal]
pub struct CpuView {
    pub memory: Seq<u8>,
    pub v: Seq<u8>,
    pub i: u16,
    pub delay_timer: u8,
    pub sound_timer: u8,
    pub pc: u16,
    pub sp: u8,
    pub stack: Seq<u16>,
    pub display: Seq<bool>,
    pub keys: Seq<bool>,
}

impl CpuView {
    /// Every buffer has its fixed size and the stack pointer is in range.
    pub open spec fn wf(&self) -> bool {
        &&& self.memory.len() == 4096
        &&& self.v.len() == 16
        &&& self.stack.len() == 16
        &&& self.sp <= 16
        &&& self.display.len() == 2048
        &&& self.keys.len() == 16
    }
}

/// A register operand names one of V0 to VF.
pub open spec fn op_wf(op: Operation) -> bool {
    match op {
        Operation::SkipIfByte(x, _) | Operation::SkipUnlessByte(x, _) | Operation::LoadByte(x, _)
        | Operation::AddByte(x, _) | Operation::Random(x, _) => x < 16,
        Operation::SkipIfEqual(x, y) | Operation::SkipUnlessEqual(x, y) | Operation::Load(x, y)
        | Operation::Or(x, y) | Operation::And(x, y) | Operation::Xor(x, y) | Operation::Add(x, y)
        | Operation::Sub(x, y) | Operation::SubFrom(x, y) => x < 16 && y < 16,
        Operation::Draw(x, y, n) => x < 16 && y < 16 && n < 16,
        Operation::ShiftRight(x) | Operation::ShiftLeft(x) | Operation::SkipIfKey(x)
        | Operation::SkipUnlessKey(x) | Operation::LoadDelay(x) | Operation::WaitKey(x)
        | Operation::SetDelay(x) | Operation::SetSound(x) | Operation::AddIndex(x)
        | Operation::LoadGlyph(x) | Operation::StoreDecimal(x) | Operation::StoreRegisters(x)
        | Operation::LoadRegisters(x) => x < 16,
        _ => true,
    }
}

/// The address two bytes on, wrapping at 16 bits.
pub open spec fn advance(pc: u16) -> u16 {
    ((pc + 2) % 65536) as u16
}

/// The flag register value for a condition.
pub open spec fn flag(b: bool) -> u8 {
    if b {
        1
    } else {
        0
    }
}

pub open spec fn with_pc(s: CpuView, pc: u16) -> CpuView {
    CpuView { pc, ..s }
}

pub open spec fn with_v(s: CpuView, x: int, value: u8) -> CpuView {
    CpuView { v: s.v.update(x, value), ..s }
}

/// `Vx` set to `value`, then VF set to the flag for `carry`.
pub open spec fn with_v_flag(s: CpuView, x: int, value: u8, carry: bool) -> CpuView {
    CpuView { v: s.v.update(x, value).update(15, flag(carry)), ..s }
}

/// Skips the next instruction when `cond` holds.
pub open spec fn skip_if(s: CpuView, cond: bool) -> CpuView {
    if cond {
        with_pc(s, advance(s.pc))
    } else {
        s
    }
}

/// The highest index below `n` of a pressed key, or -1 when none is pressed.
pub open spec fn highest_pressed(keys: Seq<bool>, n: int) -> int
    decreases n,
{
    if n <= 0 {
        -1
    } else if keys[n - 1] {
        n - 1
    } else {
        highest_pressed(keys, n - 1)
    }
}

/// `memory` with `V0..=Vx` written from address `i` on.
pub open spec fn stored_registers(memory: Seq<u8>, i: int, v: Seq<u8>, x: int) -> Seq<u8> {
    Seq::new(memory.len(), |a: int| if i <= a <= i + x { v[a - i] } else { memory[a] })
}

/// Registers with `V0..=Vx` read from address `i` on.
pub open spec fn loaded_registers(v: Seq<u8>, memory: Seq<u8>, i: int, x: int) -> Seq<u8> {
    Seq::new(v.len(), |r: int| if r <= x { memory[i + r] } else { v[r] })
}

/// `memory` with the hundreds, tens and units of `value` at `i`, `i + 1`, `i + 2`.
pub open spec fn stored_decimal(memory: Seq<u8>, i: int, value: u8) -> Seq<u8> {
    memory.update(i, value / 100).update(i + 1, value / 10 % 10).update(i + 2, value % 10)
}

/// The effect of one operation on state `s`; `random` is the byte drawn for
/// `Cxkk`. On an error the state is returned unchanged.
pub open spec fn step(s: CpuView, op: Operation, random: u8) -> (CpuView, Result<(), CpuError>) {
    let t = with_pc(s, advance(s.pc));
    match op {
        Operation::ClearScreen => (CpuView { display: blank(), ..t }, Ok(())),
        Operation::Return => if s.sp == 0 {
            (s, Err(CpuError::StackUnderflow))
        } else {
            (CpuView { pc: s.stack[s.sp - 1], sp: (s.sp - 1) as u8, ..s }, Ok(()))
        },
        Operation::System(_) => (t, Ok(())),
        Operation::Jump(nnn) => (with_pc(s, nnn), Ok(())),
        Operation::Call(nnn) => if s.sp >= 16 {
            (s, Err(CpuError::StackOverflow))
        } else {
            (
                CpuView { stack: s.stack.update(s.sp as int, t.pc), sp: (s.sp + 1) as u8, pc: nnn, ..s },
                Ok(()),
            )
        },
        Operation::SkipIfByte(x, kk) => (skip_if(t, s.v[x as int] == kk), Ok(())),
        Operation::SkipUnlessByte(x, kk) => (skip_if(t, s.v[x as int] != kk), Ok(())),
        Operation::SkipIfEqual(x, y) => (skip_if(t, s.v[x as int] == s.v[y as int]), Ok(())),
        Operation::LoadByte(x, kk) => (with_v(t, x as int, kk), Ok(())),
        Operation::AddByte(x, kk) => (with_v(t, x as int, ((s.v[x as int] + kk) % 256) as u8), Ok(())),
        Operation::Load(x, y) => (with_v(t, x as int, s.v[y as int]), Ok(())),
        Operation::Or(x, y) => (with_v(t, x as int, s.v[x as int] | s.v[y as int]), Ok(())),
        Operation::And(x, y) => (with_v(t, x as int, s.v[x as int] & s.v[y as int]), Ok(())),
        Operation::Xor(x, y) => (with_v(t, x as int, s.v[x as int] ^ s.v[y as int]), Ok(())),
        Operation::Add(x, y) => (
            with_v_flag(
                t,
                x as int,
                ((s.v[x as int] + s.v[y as int]) % 256) as u8,
                s.v[x as int] + s.v[y as int] >= 256,
            ),
            Ok(()),
        ),
        Operation::Sub(x, y) => (
            with_v_flag(
                t,
                x as int,
                ((s.v[x as int] - s.v[y as int]) % 256) as u8,
                s.v[x as int] >= s.v[y as int],
            ),
            Ok(()),
        ),
        Operation::ShiftRight(x) => (
            CpuView { v: s.v.update(x as int, s.v[x as int] / 2).update(15, s.v[x as int] % 2), ..t },
            Ok(()),
        ),
        Operation::SubFrom(x, y) => (
            with_v_flag(
                t,
                x as int,
                ((s.v[y as int] - s.v[x as int]) % 256) as u8,
                s.v[y as int] >= s.v[x as int],
            ),
            Ok(()),
        ),
        Operation::ShiftLeft(x) => (
            with_v_flag(t, x as int, ((s.v[x as int] * 2) % 256) as u8, s.v[x as int] * 2 >= 256),
            Ok(()),
        ),
        Operation::SkipUnlessEqual(x, y) => (skip_if(t, s.v[x as int] != s.v[y as int]), Ok(())),
        Operation::LoadIndex(nnn) => (CpuView { i: nnn, ..t }, Ok(())),
        Operation::JumpOffset(nnn) => (with_pc(s, ((nnn + s.v[0]) % 65536) as u16), Ok(())),
        Operation::Random(x, kk) => (with_v(t, x as int, random & kk), Ok(())),
        Operation::Draw(x, y, n) => if s.i + n > 4096 {
            (s, Err(CpuError::AddressOutOfRange))
        } else {
            let sprite = s.memory.subrange(s.i as int, s.i + n);
            let vx = s.v[x as int] as int;
            let vy = s.v[y as int] as int;
            (
                CpuView {
                    display: drawn(s.display, vx, vy, sprite),
                    v: s.v.update(15, flag(collides(s.display, vx, vy, sprite))),
                    ..t
                },
                Ok(()),
            )
        },
        Operation::SkipIfKey(x) => if s.v[x as int] >= 16 {
            (s, Err(CpuError::InvalidKey))
        } else {
            (skip_if(t, s.keys[s.v[x as int] as int]), Ok(()))
        },
        Operation::SkipUnlessKey(x) => if s.v[x as int] >= 16 {
            (s, Err(CpuError::InvalidKey))
        } else {
            (skip_if(t, !s.keys[s.v[x as int] as int]), Ok(()))
        },
        Operation::LoadDelay(x) => (with_v(t, x as int, s.delay_timer), Ok(())),
        Operation::WaitKey(x) => if highest_pressed(s.keys, 16) < 0 {
            (s, Ok(()))
        } else {
            (with_v(t, x as int, highest_pressed(s.keys, 16) as u8), Ok(()))
        },
        Operation::SetDelay(x) => (CpuView { delay_timer: s.v[x as int], ..t }, Ok(())),
        Operation::SetSound(x) => (CpuView { sound_timer: s.v[x as int], ..t }, Ok(())),
        Operation::AddIndex(x) => (CpuView { i: ((s.i + s.v[x as int]) % 65536) as u16, ..t }, Ok(())),
        Operation::LoadGlyph(x) => (CpuView { i: (s.v[x as int] * 5) as u16, ..t }, Ok(())),
        Operation::StoreDecimal(x) => if s.i + 2 >= 4096 {
            (s, Err(CpuError::AddressOutOfRange))
        } else {
            (CpuView { memory: stored_decimal(s.memory, s.i as int, s.v[x as int]), ..t }, Ok(()))
        },
        Operation::StoreRegisters(x) => if s.i + x >= 4096 {
            (s, Err(CpuError::AddressOutOfRange))
        } else {
            (CpuView { memory: stored_registers(s.memory, s.i as int, s.v, x as int), ..t }, Ok(()))
        },
        Operation::LoadRegisters(x) => if s.i + x >= 4096 {
            (s, Err(CpuError::AddressOutOfRange))
        } else {
            (CpuView { v: loaded_registers(s.v, s.memory, s.i as int, x as int), ..t }, Ok(()))
        },
        Operation::Unknown => (t, Ok(())),
    }
}

/// One fetch-decode-execute cycle: the opcode at the program counter is
/// decoded and executed; fetching past the end of memory is an error.
pub open spec fn cycle(s: CpuView, random: u8) -> (CpuView, Result<(), CpuError>) {
    if s.pc + 1 >= 4096 {
        (s, Err(CpuError::AddressOutOfRange))
    } else {
        step(s, decode(fetch(s.memory, s.pc as int)).operation_of(), random)
    }
}

/// The instruction at the program counter, when both of its bytes lie in
/// memory.
pub open spec fn pending_instruction(s: CpuView) -> Option<Instruction> {
    if s.pc < 4095 {
        Some(decode(fetch(s.memory, s.pc as int)))
    } else {
        None
    }
}

/// The operation that the next cycle executes.
pub open spec fn pending_operation(s: CpuView) -> Operation {
    decode(fetch(s.memory, s.pc as int)).operation_of()
}

/// `memory` with `rom` copied to it from `PROGRAM_START` on.
pub open spec fn with_rom(memory: Seq<u8>, rom: Seq<u8>) -> Seq<u8> {
    Seq::new(
        memory.len(),
        |a: int| if 0x200 <= a < 0x200 + rom.len() { rom[a - 0x200] } else { memory[a] },
    )
}

/// A timer after one tick: one less, but never below zero.
pub open spec fn tick(t: u8) -> u8 {
    if t > 0 {
        (t - 1) as u8
    } else {
        0
    }
}

/// The state of a freshly constructed CPU: everything zero.
pub open spec fn power_on() -> CpuView {
    CpuView {
        memory: Seq::new(4096, |a: int| 0u8),
        v: Seq::new(16, |r: int| 0u8),
        i: 0,
        delay_timer: 0,
        sound_timer: 0,
        pc: 0,
        sp: 0,
        stack: Seq::new(16, |k: int| 0u16),
        display: blank(),
        keys: released(),
    }
}

/// The state after a reset: everything zero but the glyph table in memory
/// and the program counter at `PROGRAM_START`.
pub open spec fn reset_state() -> CpuView {
    CpuView { memory: with_font(power_on().memory), pc: 0x200, ..power_on() }
}

/// Operations that only move the program counter or the stack, or clear the
/// screen.
spec fn is_flow(op: Operation) -> bool {
    match op {
        Operation::ClearScreen | Operation::Return | Operation::System(_) | Operation::Jump(_)
        | Operation::Call(_) | Operation::JumpOffset(_) | Operation::Unknown => true,
        _ => false,
    }
}

/// Conditional skips.
pub open spec fn is_skip(op: Operation) -> bool {
    match op {
        Operation::SkipIfByte(_, _) | Operation::SkipUnlessByte(_, _) | Operation::SkipIfEqual(_, _)
        | Operation::SkipUnlessEqual(_, _) | Operation::SkipIfKey(_) | Operation::SkipUnlessKey(_) => true,
        _ => false,
    }
}

/// Register arithmetic and loads.
spec fn is_alu(op: Operation) -> bool {
    match op {
        Operation::LoadByte(_, _) | Operation::AddByte(_, _) | Operation::Load(_, _) | Operation::Or(_, _)
        | Operation::And(_, _) | Operation::Xor(_, _) | Operation::Random(_, _) => true,
        _ => false,
    }
}

/// Timers, the index register and the key wait.
spec fn is_special(op: Operation) -> bool {
    match op {
        Operation::LoadDelay(_) | Operation::SetDelay(_) | Operation::SetSound(_)
        | Operation::LoadIndex(_) | Operation::AddIndex(_) | Operation::LoadGlyph(_)
        | Operation::WaitKey(_) => true,
        _ => false,
    }
}

/// Operations that read or write memory through the index register.
spec fn is_memory(op: Operation) -> bool {
    match op {
        Operation::Draw(_, _, _) | Operation::StoreDecimal(_) | Operation::StoreRegisters(_)
        | Operation::LoadRegisters(_) => true,
        _ => false,
    }
}

/// Relies on rand's `thread_rng().gen::<u8>()`: some byte drawn from the
/// thread-local generator; nothing is promised about which. (rand panics only
/// when the operating system cannot seed the generator.)
#[verifier::external_body]
fn random_byte() -> (r: u8) {
    rand::Rng::gen::<u8>(&mut rand::thread_rng())
}

/// The text that `describe` renders for these values.
pub uninterp spec fn debug_text(
    v: Seq<u8>,
    i: u16,
    sp: u8,
    stack: Seq<u16>,
    dt: u8,
    pc: u16,
    pending: Option<Instruction>,
) -> Seq<char>;

/// Relies on std's `format!` with `{:?}`: renders the registers, the stack and
/// the pending instruction as text that depends on these values alone.
#[verifier::external_body]
fn describe(
    v: &[u8; 16],
    i: u16,
    sp: u8,
    stack: &[u16; 16],
    dt: u8,
    pc: u16,
    pending: Option<Instruction>,
) -> (r: String)
    ensures
        r@ == debug_text(v@, i, sp, stack@, dt, pc, pending),
{
    format!(
        "v: {:?}, i: {:?}, sp: {:?}, stack: {:?}, dt: {:?}, pc: {:?}, instruction: {:?}",
        v,
        i,
        sp,
        stack,
        dt,
        pc,
        pending
    )
}

/// `pc + 2`, wrapping at 16 bits.
fn next_address(pc: u16) -> (r: u16)
    ensures
        r == advance(pc),
{
    pc.wrapping_add(2)
}

/// The machine: memory, registers, call stack, timers, and the display and
/// keypad it drives.
#[derive(Debug)]
pub struct Cpu {
    memory: [u8; 4096],
    v_registers: [u8; 16],
    i_register: u16,
    delay_timer: u8,
    sound_timer: u8,
    program_counter: u16,
    stack_pointer: u8,
    stack: [u16; 16],
    pub display: Display,
    pub keypad: Keypad,
}

impl View for Cpu {
    type V = CpuView;

    closed spec fn view(&self) -> CpuView {
        CpuView {
            memory: self.memory@,
            v: self.v_registers@,
            i: self.i_register,
            delay_timer: self.delay_timer,
            sound_timer: self.sound_timer,
            pc: self.program_counter,
            sp: self.stack_pointer,
            stack: self.stack@,
            display: self.display@,
            keys: self.keypad@,
        }
    }
}

impl Cpu {
    /// Buffers have their fixed sizes and the stack pointer is in range.
    pub open spec fn wf(&self) -> bool {
        self@.wf()
    }

    /// A machine with everything zero; call `reset` before running a program.
    pub fn new() -> (r: Cpu)
        ensures
            r@ == power_on(),
            r.wf(),
    {
        let r = Cpu {
            memory: [0; 4096],
            v_registers: [0; 16],
            i_register: 0,
            delay_timer: 0,
            sound_timer: 0,
            program_counter: 0,
            stack_pointer: 0,
            stack: [0; 16],
            display: Display::new(),
            keypad: Keypad::new(),
        };
        assert(r@ =~= power_on());
        r
    }

    /// Clears all state, loads the glyph table at address 0 and sets the
    /// program counter to `PROGRAM_START`.
    pub fn reset(&mut self)
        ensures
            final(self)@ == reset_state(),
            final(self).wf(),
    {
        self.memory = [0; 4096];
        self.v_registers = [0; 16];
        self.i_register = 0;
        self.delay_timer = 0;
        self.sound_timer = 0;
        self.stack_pointer = 0;
        self.stack = [0; 16];
        load_font(&mut self.memory);
        self.program_counter = PROGRAM_START;
        self.display.cls();
        self.keypad.clear();
        assert(self@.memory =~= reset_state().memory);
        assert(self@ =~= reset_state());
    }

    /// Copies `rom` into memory from `PROGRAM_START` on.
    pub fn load_rom(&mut self, rom: &[u8])
        requires
            old(self).wf(),
            rom@.len() <= 0xE00,
        ensures
            final(self).wf(),
            final(self)@ == (CpuView { memory: with_rom(old(self)@.memory, rom@), ..old(self)@ }),
    {
        let n = rom.len();
        let mut k: usize = 0;
        while k < n
            invariant
                n == rom@.len(),
                n <= 0xE00,
                k <= n,
                self.wf(),
                self@ == (CpuView { memory: self@.memory, ..old(self)@ }),
                forall|a: int| 0x200 <= a < 0x200 + k ==> self@.memory[a] == rom@[a - 0x200],
                forall|a: int|
                    0 <= a < 4096 && !(0x200 <= a < 0x200 + k) ==> self@.memory[a] == old(self)@.memory[a],
            decreases n - k,
        {
            self.memory[0x200 + k] = rom[k];
            k = k + 1;
        }
        assert(self@.memory =~= with_rom(old(self)@.memory, rom@));
    }

    /// One timer tick: both timers count down, stopping at zero.
    pub fn decrement_timers(&mut self)
        requires
            old(self).wf(),
        ensures
            final(self).wf(),
            final(self)@ == (CpuView {
                delay_timer: tick(old(self)@.delay_timer),
                sound_timer: tick(old(self)@.sound_timer),
                ..old(self)@
            }),
    {
        self.delay_timer = self.delay_timer.saturating_sub(1);
        self.sound_timer = self.sound_timer.saturating_sub(1);
    }

    /// A human-readable snapshot of the registers, the stack and the
    /// instruction at the program counter; its layout is not fixed.
    pub fn debug_info(&self) -> (r: String)
        ensures
            r@ == debug_text(
                self@.v,
                self@.i,
                self@.sp,
                self@.stack,
                self@.delay_timer,
                self@.pc,
                pending_instruction(self@),
            ),
    {
        let pending = if self.program_counter < 4095 {
            Some(Instruction::read(&self.memory, self.program_counter))
        } else {
            None
        };
        proof {
            assert(pending == pending_instruction(self@));
        }
        describe(
            &self.v_registers,
            self.i_register,
            self.stack_pointer,
            &self.stack,
            self.delay_timer,
            self.program_counter,
            pending,
        )
    }

    #[verifier::spinoff_prover]
    fn execute_flow(&mut self, op: Operation, random: u8) -> (r: Result<(), CpuError>)
        requires
            old(self).wf(),
            op_wf(op),
            is_flow(op),
        ensures
            final(self).wf(),
            (final(self)@, r) == step(old(self)@, op, random),
    {
        match op {
            Operation::ClearScreen => {
                self.program_counter = next_address(self.program_counter);
                self.display.cls();
            },
            Operation::Return => {
                if self.stack_pointer == 0 {
                    return Err(CpuError::StackUnderflow);
                }
                self.stack_pointer = self.stack_pointer - 1;
                self.program_counter = self.stack[self.stack_pointer as usize];
            },
            Operation::Jump(nnn) => {
                self.program_counter = nnn;
            },
            Operation::Call(nnn) => {
                if self.stack_pointer >= STACK_DEPTH {
                    return Err(CpuError::StackOverflow);
                }
                self.stack[self.stack_pointer as usize] = next_address(self.program_counter);
                self.stack_pointer = self.stack_pointer + 1;
                self.program_counter = nnn;
            },
            Operation::JumpOffset(nnn) => {
                self.program_counter = nnn.wrapping_add(self.v_registers[0] as u16);
            },
            _ => {
                self.program_counter = next_address(self.program_counter);
            },
        }
        Ok(())
    }

    #[verifier::spinoff_prover]
    fn execute_skip(&mut self, op: Operation, random: u8) -> (r: Result<(), CpuError>)
        requires
            old(self).wf(),
            op_wf(op),
            is_skip(op),
        ensures
            final(self).wf(),
            (final(self)@, r) == step(old(self)@, op, random),
    {
        let skip = match op {
            Operation::SkipIfByte(x, kk) => self.v_registers[x as usize] == kk,
            Operation::SkipUnlessByte(x, kk) => self.v_registers[x as usize] != kk,
            Operation::SkipIfEqual(x, y) => self.v_registers[x as usize] == self.v_registers[y as usize],
            Operation::SkipUnlessEqual(x, y) => self.v_registers[x as usize]
                != self.v_registers[y as usize],
            Operation::SkipIfKey(x) => {
                let key = self.v_registers[x as usize];
                if key >= 16 {
                    return Err(CpuError::InvalidKey);
                }
                self.keypad.get_key(key)
            },
            Operation::SkipUnlessKey(x) => {
                let key = self.v_registers[x as usize];
                if key >= 16 {
                    return Err(CpuError::InvalidKey);
                }
                !self.keypad.get_key(key)
            },
            _ => false,
        };
        self.program_counter = next_address(self.program_counter);
        if skip {
            self.program_counter = next_address(self.program_counter);
        }
        Ok(())
    }

    #[verifier::spinoff_prover]
    fn execute_alu(&mut self, op: Operation, random: u8) -> (r: Result<(), CpuError>)
        requires
            old(self).wf(),
            op_wf(op),
            is_alu(op),
        ensures
            final(self).wf(),
            (final(self)@, r) == step(old(self)@, op, random),
    {
        self.program_counter = next_address(self.program_counter);
        match op {
            Operation::LoadByte(x, kk) => {
                self.v_registers[x as usize] = kk;
            },
            Operation::AddByte(x, kk) => {
                self.v_registers[x as usize] = self.v_registers[x as usize].wrapping_add(kk);
            },
            Operation::Load(x, y) => {
                self.v_registers[x as usize] = self.v_registers[y as usize];
            },
            Operation::Or(x, y) => {
                self.v_registers[x as usize] = self.v_registers[x as usize]
                    | self.v_registers[y as usize];
            },
            Operation::And(x, y) => {
                self.v_registers[x as usize] = self.v_registers[x as usize]
                    & self.v_registers[y as usize];
            },
            Operation::Xor(x, y) => {
                self.v_registers[x as usize] = self.v_registers[x as usize]
                    ^ self.v_registers[y as usize];
            },
            Operation::Random(x, kk) => {
                self.v_registers[x as usize] = random & kk;
            },
            _ => {},
        }
        Ok(())
    }

    /// Sets `Vx` to `value` and then VF to the flag for `carry`.
    fn set_with_flag(&mut self, x: usize, value: u8, carry: bool)
        requires
            old(self).wf(),
            x < 16,
        ensures
            final(self).wf(),
            final(self)@ == with_v_flag(old(self)@, x as int, value, carry),
    {
        self.v_registers[x] = value;
        self.v_registers[FLAG] = if carry {
            1
        } else {
            0
        };
    }

    /// Moves past the current instruction and sets `Vx` to `value` and then VF
    /// to the flag for `carry`.
    fn finish_carry(&mut self, x: u8, value: u8, carry: bool)
        requires
            old(self).wf(),
            x < 16,
        ensures
            final(self).wf(),
            final(self)@ == with_v_flag(
                with_pc(old(self)@, advance(old(self)@.pc)),
                x as int,
                value,
                carry,
            ),
    {
        self.program_counter = next_address(self.program_counter);
        self.set_with_flag(x as usize, value, carry);
    }

    fn execute_add(&mut self, x: u8, y: u8, random: u8) -> (r: Result<(), CpuError>)
        requires
            old(self).wf(),
            x < 16,
            y < 16,
        ensures
            final(self).wf(),
            (final(self)@, r) == step(old(self)@, Operation::Add(x, y), random),
    {
        let (vx, vy) = (self.v_registers[x as usize], self.v_registers[y as usize]);
        self.finish_carry(x, vx.wrapping_add(vy), vx as u16 + vy as u16 >= 256);
        Ok(())
    }

    fn execute_sub(&mut self, x: u8, y: u8, random: u8) -> (r: Result<(), CpuError>)
        requires
            old(self).wf(),
            x < 16,
            y < 16,
        ensures
            final(self).wf(),
            (final(self)@, r) == step(old(self)@, Operation::Sub(x, y), random),
    {
        let (vx, vy) = (self.v_registers[x as usize], self.v_registers[y as usize]);
        self.finish_carry(x, vx.wrapping_sub(vy), vx >= vy);
        Ok(())
    }

    fn execute_sub_from(&mut self, x: u8, y: u8, random: u8) -> (r: Result<(), CpuError>)
        requires
            old(self).wf(),
            x < 16,
            y < 16,
        ensures
            final(self).wf(),
            (final(self)@, r) == step(old(self)@, Operation::SubFrom(x, y), random),
    {
        let (vx, vy) = (self.v_registers[x as usize], self.v_registers[y as usize]);
        self.finish_carry(x, vy.wrapping_sub(vx), vy >= vx);
        Ok(())
    }

    fn execute_shift_right(&mut self, x: u8, random: u8) -> (r: Result<(), CpuError>)
        requires
            old(self).wf(),
            x < 16,
        ensures
            final(self).wf(),
            (final(self)@, r) == step(old(self)@, Operation::ShiftRight(x), random),
    {
        let vx = self.v_registers[x as usize];
        self.finish_carry(x, vx / 2, vx % 2 == 1);
        assert(flag(vx % 2 == 1) == vx % 2);
        Ok(())
    }

    fn execute_shift_left(&mut self, x: u8, random: u8) -> (r: Result<(), CpuError>)
        requires
            old(self).wf(),
            x < 16,
        ensures
            final(self).wf(),
            (final(self)@, r) == step(old(self)@, Operation::ShiftLeft(x), random),
    {
        let vx = self.v_registers[x as usize];
        self.finish_carry(x, (vx as u16 * 2 % 256) as u8, vx >= 128);
        Ok(())
    }

    /// The highest index of a key that is down, if any.
    fn highest_key_down(&self) -> (r: Option<u8>)
        requires
            self.wf(),
        ensures
            highest_pressed(self@.keys, 16) < 0 ==> r is None,
            highest_pressed(self@.keys, 16) >= 0 ==> r == Some(highest_pressed(self@.keys, 16) as u8),
    {
        let mut found: Option<u8> = None;
        let mut key: u8 = 0;
        while key < 16
            invariant
                key <= 16,
                self.wf(),
                -1 <= highest_pressed(self@.keys, key as int) < key,
                highest_pressed(self@.keys, key as int) < 0 ==> found is None,
                highest_pressed(self@.keys, key as int) >= 0 ==> found == Some(
                    highest_pressed(self@.keys, key as int) as u8,
                ),
            decreases 16 - key,
        {
            if self.keypad.get_key(key) {
                found = Some(key);
            }
            key = key + 1;
        }
        found
    }

    #[verifier::spinoff_prover]
    fn execute_special(&mut self, op: Operation, random: u8) -> (r: Result<(), CpuError>)
        requires
            old(self).wf(),
            op_wf(op),
            is_special(op),
        ensures
            final(self).wf(),
            (final(self)@, r) == step(old(self)@, op, random),
    {
        match op {
            Operation::WaitKey(x) => {
                match self.highest_key_down() {
                    Some(key) => {
                        self.program_counter = next_address(self.program_counter);
                        self.v_registers[x as usize] = key;
                    },
                    None => {},
                }
                return Ok(());
            },
            _ => {},
        }
        self.program_counter = next_address(self.program_counter);
        match op {
            Operation::LoadDelay(x) => {
                self.v_registers[x as usize] = self.delay_timer;
            },
            Operation::SetDelay(x) => {
                self.delay_timer = self.v_registers[x as usize];
            },
            Operation::SetSound(x) => {
                self.sound_timer = self.v_registers[x as usize];
            },
            Operation::LoadIndex(nnn) => {
                self.i_register = nnn;
            },
            Operation::AddIndex(x) => {
                self.i_register = self.i_register.wrapping_add(self.v_registers[x as usize] as u16);
            },
            Operation::LoadGlyph(x) => {
                self.i_register = self.v_registers[x as usize] as u16 * 5;
            },
            _ => {},
        }
        Ok(())
    }

    #[verifier::spinoff_prover]
    fn execute_memory(&mut self, op: Operation, random: u8) -> (r: Result<(), CpuError>)
        requires
            old(self).wf(),
            op_wf(op),
            is_memory(op),
        ensures
            final(self).wf(),
            (final(self)@, r) == step(old(self)@, op, random),
    {
        let base = self.i_register as usize;
        match op {
            Operation::Draw(x, y, n) => {
                if base + n as usize > MEMORY_SIZE {
                    return Err(CpuError::AddressOutOfRange);
                }
                let vx = self.v_registers[x as usize];
                let vy = self.v_registers[y as usize];
                self.program_counter = next_address(self.program_counter);
                let sprite = vstd::slice::slice_subrange(
                    self.memory.as_slice(),
                    base,
                    base + n as usize,
                );
                let collision = self.display.draw(vx as usize, vy as usize, sprite);
                self.v_registers[FLAG] = if collision {
                    1
                } else {
                    0
                };
            },
            Operation::StoreDecimal(x) => {
                if base + 2 >= MEMORY_SIZE {
                    return Err(CpuError::AddressOutOfRange);
                }
                let vx = self.v_registers[x as usize];
                self.program_counter = next_address(self.program_counter);
                self.memory[base] = vx / 100;
                self.memory[base + 1] = vx / 10 % 10;
                self.memory[base + 2] = vx % 10;
            },
            Operation::StoreRegisters(x) => {
                let x = x as usize;
                if base + x >= MEMORY_SIZE {
                    return Err(CpuError::AddressOutOfRange);
                }
                self.program_counter = next_address(self.program_counter);
                let ghost before = self@;
                let mut r: usize = 0;
                while r <= x
                    invariant
                        base == before.i,
                        base + x < 4096,
                        x < 16,
                        r <= x + 1,
                        self.wf(),
                        self@ == (CpuView { memory: self@.memory, ..before }),
                        forall|a: int| base <= a < base + r ==> self@.memory[a] == before.v[a - base],
                        forall|a: int|
                            0 <= a < 4096 && !(base <= a < base + r) ==> self@.memory[a]
                                == before.memory[a],
                    decreases x + 1 - r,
                {
                    self.memory[base + r] = self.v_registers[r];
                    r = r + 1;
                }
                assert(self@.memory =~= stored_registers(before.memory, base as int, before.v, x as int));
            },
            Operation::LoadRegisters(x) => {
                let x = x as usize;
                if base + x >= MEMORY_SIZE {
                    return Err(CpuError::AddressOutOfRange);
                }
                self.program_counter = next_address(self.program_counter);
                let ghost before = self@;
                let mut r: usize = 0;
                while r <= x
                    invariant
                        base == before.i,
                        base + x < 4096,
                        x < 16,
                        r <= x + 1,
                        self.wf(),
                        self@ == (CpuView { v: self@.v, ..before }),
                        forall|k: int| 0 <= k < r ==> self@.v[k] == before.memory[base + k],
                        forall|k: int| r <= k < 16 ==> self@.v[k] == before.v[k],
                    decreases x + 1 - r,
                {
                    self.v_registers[r] = self.memory[base + r];
                    r = r + 1;
                }
                assert(self@.v =~= loaded_registers(before.v, before.memory, base as int, x as int));
            },
            _ => {},
        }
        Ok(())
    }

    /// Executes one decoded operation; `random` is the byte that `Cxkk` masks.
    #[verifier::spinoff_prover]
    pub fn execute_operation(&mut self, op: Operation, random: u8) -> (r: Result<(), CpuError>)
        requires
            old(self).wf(),
            op_wf(op),
        ensures
            final(self).wf(),
            (final(self)@, r) == step(old(self)@, op, random),
    {
        match op {
            Operation::ClearScreen | Operation::Return | Operation::System(_) | Operation::Jump(_)
            | Operation::Call(_) | Operation::JumpOffset(_) | Operation::Unknown => {
                self.execute_flow(op, random)
            },
            Operation::SkipIfByte(_, _) | Operation::SkipUnlessByte(_, _)
            | Operation::SkipIfEqual(_, _) | Operation::SkipUnlessEqual(_, _)
            | Operation::SkipIfKey(_) | Operation::SkipUnlessKey(_) => self.execute_skip(op, random),
            Operation::LoadDelay(_) | Operation::SetDelay(_) | Operation::SetSound(_)
            | Operation::LoadIndex(_) | Operation::AddIndex(_) | Operation::LoadGlyph(_)
            | Operation::WaitKey(_) => self.execute_special(op, random),
            Operation::Draw(_, _, _) | Operation::StoreDecimal(_) | Operation::StoreRegisters(_)
            | Operation::LoadRegisters(_) => self.execute_memory(op, random),
            Operation::Add(x, y) => self.execute_add(x, y, random),
            Operation::Sub(x, y) => self.execute_sub(x, y, random),
            Operation::SubFrom(x, y) => self.execute_sub_from(x, y, random),
            Operation::ShiftRight(x) => self.execute_shift_right(x, random),
            Operation::ShiftLeft(x) => self.execute_shift_left(x, random),
            _ => self.execute_alu(op, random),
        }
    }

    /// Executes `instruction`, drawing a random byte when it is `Cxkk`.
    pub fn execute_instruction(&mut self, instruction: Instruction) -> (r: Result<(), CpuError>)
        requires
            old(self).wf(),
            instruction.wf(),
        ensures
            final(self).wf(),
            !(instruction.operation_of() is Random) ==> (final(self)@, r) == step(
                old(self)@,
                instruction.operation_of(),
                0,
            ),
            exists|random: u8|
                (final(self)@, r) == step(old(self)@, instruction.operation_of(), random),
    {
        let op = instruction.operation();
        let random = match op {
            Operation::Random(_, _) => random_byte(),
            _ => 0,
        };
        let r = self.execute_operation(op, random);
        assert((self@, r) == step(old(self)@, op, random));
        r
    }

    /// Fetches the opcode at the program counter, advances past it and
    /// executes it.
    pub fn execute_instruction_cycle(&mut self) -> (r: Result<(), CpuError>)
        requires
            old(self).wf(),
        ensures
            final(self).wf(),
            !(pending_operation(old(self)@) is Random) ==> (final(self)@, r) == cycle(old(self)@, 0),
            exists|random: u8| (final(self)@, r) == cycle(old(self)@, random),
    {
        if self.program_counter >= 4095 {
            let r = Err(CpuError::AddressOutOfRange);
            assert((self@, r) == cycle(old(self)@, 0));
            return r;
        }
        let instruction = Instruction::read(&self.memory, self.program_counter);
        let r = self.execute_instruction(instruction);
        proof {
            let random = choose|random: u8|
                (self@, r) == step(old(self)@, instruction.operation_of(), random);
            assert((self@, r) == cycle(old(self)@, random));
        }
        r
    }

    pub fn is_sound_playing(&self) -> (r: bool)
        ensures
            r == (self@.sound_timer > 0),
    {
        self.sound_timer > 0
    }

    /// Latches key `key` down.
    pub fn key_down(&mut self, key: u8)
        requires
            old(self).wf(),
            key < 16,
        ensures
            final(self).wf(),
            final(self)@ == (CpuView { keys: old(self)@.keys.update(key as int, true), ..old(self)@ }),
    {
        self.keypad.key_down(key);
    }

    /// Releases key `key`.
    pub fn key_up(&mut self, key: u8)
        requires
            old(self).wf(),
            key < 16,
        ensures
            final(self).wf(),
            final(self)@ == (CpuView { keys: old(self)@.keys.update(key as int, false), ..old(self)@ }),
    {
        self.keypad.key_up(key);
    }

    /// The framebuffer, row-major, pixel `x + 64 * y`.
    pub fn get_display_buffer(&self) -> (r: &[bool; 2048])
        ensures
            r@ == self@.display,
    {
        self.display.get_buffer()
    }

    pub fn program_counter(&self) -> (r: u16)
        ensures
            r == self@.pc,
    {
        self.program_counter
    }

    pub fn set_program_counter(&mut self, pc: u16)
        requires
            old(self).wf(),
        ensures
            final(self).wf(),
            final(self)@ == (CpuView { pc, ..old(self)@ }),
    {
        self.program_counter = pc;
    }

    pub fn v_register(&self, x: usize) -> (r: u8)
        requires
            self.wf(),
            x < 16,
        ensures
            r == self@.v[x as int],
    {
        self.v_registers[x]
    }

    pub fn set_v_register(&mut self, x: usize, value: u8)
        requires
            old(self).wf(),
            x < 16,
        ensures
            final(self).wf(),
            final(self)@ == (CpuView { v: old(self)@.v.update(x as int, value), ..old(self)@ }),
    {
        self.v_registers[x] = value;
    }

    pub fn i_register(&self) -> (r: u16)
        ensures
            r == self@.i,
    {
        self.i_register
    }

    pub fn set_i_register(&mut self, i: u16)
        requires
            old(self).wf(),
        ensures
            final(self).wf(),
            final(self)@ == (CpuView { i, ..old(self)@ }),
    {
        self.i_register = i;
    }

    pub fn delay_timer(&self) -> (r: u8)
        ensures
            r == self@.delay_timer,
    {
        self.delay_timer
    }

    pub fn set_delay_timer(&mut self, value: u8)
        requires
            old(self).wf(),
        ensures
            final(self).wf(),
            final(self)@ == (CpuView { delay_timer: value, ..old(self)@ }),
    {
        self.delay_timer = value;
    }

    pub fn sound_timer(&self) -> (r: u8)
        ensures
            r == self@.sound_timer,
    {
        self.sound_timer
    }

    pub fn stack_pointer(&self) -> (r: u8)
        ensures
            r == self@.sp,
    {
        self.stack_pointer
    }

    pub fn stack_entry(&self, k: usize) -> (r: u16)
        requires
            self.wf(),
            k < 16,
        ensures
            r == self@.stack[k as int],
    {
        self.stack[k]
    }

    pub fn memory_at(&self, addr: usize) -> (r: u8)
        requires
            self.wf(),
            addr < 4096,
        ensures
            r == self@.memory[addr as int],
    {
        self.memory[addr]
    }

    pub fn set_memory_at(&mut self, addr: usize, value: u8)
        requires
            old(self).wf(),
            addr < 4096,
        ensures
            final(self).wf(),
            final(self)@ == (CpuView { memory: old(self)@.memory.update(addr as int, value), ..old(self)@ }),
    {
        self.memory[addr] = value;
    }
}

} // verus!
