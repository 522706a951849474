//! The abstract machine state and the meaning of each instruction, as spec functions.

use crate::display::{collides, drawn, touches};
use crate::font::glyphs;
use vstd::prelude::*;

verus! {

/// Why a cycle could not run. Each of these ends the run.
#[derive(Debug, Clone, Copy, PartialEq, Eq, Structural)]
pub enum Fault {
    /// A call with all sixteen stack slots in use.
    StackOverflow,
    /// A return with an empty stack.
    StackUnderflow,
    /// An opcode outside the instruction set.
    UnknownOpcode(u16),
    /// A memory access at or past the end of memory.
    AddressOutOfRange,
    /// A key instruction whose register names no key.
    KeyOutOfRange,
}

/// The whole machine state, as mathematical values.
pub ghost struct Machine {
    pub ram: Seq<u8>,
    pub v: Seq<u8>,
    pub i: u16,
    pub pc: u16,
    pub vram: Seq<bool>,
    pub vram_updated: bool,
    pub delay_timer: u8,
    pub sound_timer: u8,
    pub stack: Seq<u16>,
    pub keys: Seq<bool>,
}

impl Machine {
    /// Every buffer has its fixed size and the stack is within its depth.
    pub open spec fn wf(self) -> bool {
        &&& self.ram.len() == 4096
        &&& self.v.len() == 16
        &&& self.vram.len() == 2048
        &&& self.keys.len() == 16
        &&& self.stack.len() <= 16
    }

    /// The program counter advanced by `n` bytes.
    pub open spec fn advance(self, n: int) -> Machine {
        Machine { pc: (self.pc + n) as u16, ..self }
    }

    /// Advances past the next instruction too when `cond` holds.
    pub open spec fn skip_if(self, cond: bool) -> Machine {
        self.advance(if cond { 4 } else { 2 })
    }

    /// Register `x` set to `val`.
    pub open spec fn set_v(self, x: int, val: u8) -> Machine {
        Machine { v: self.v.update(x, val), ..self }
    }
}

/// Register `x` of the opcode.
pub open spec fn op_x(op: u16) -> int {
    ((op >> 8u16) & 0xFu16) as int
}

/// Register `y` of the opcode.
pub open spec fn op_y(op: u16) -> int {
    ((op >> 4u16) & 0xFu16) as int
}

/// Low nibble of the opcode.
pub open spec fn op_n(op: u16) -> u16 {
    op & 0xFu16
}

/// Low byte of the opcode.
pub open spec fn op_nn(op: u16) -> u8 {
    (op & 0xFFu16) as u8
}

/// Low twelve bits of the opcode.
pub open spec fn op_nnn(op: u16) -> u16 {
    op & 0xFFFu16
}

/// Instruction family: the high nibble.
pub open spec fn op_family(op: u16) -> u16 {
    op >> 12u16
}

/// The two bytes at `pc`, big-endian.
pub open spec fn fetch(ram: Seq<u8>, pc: int) -> u16 {
    (ram[pc] as int * 256 + ram[pc + 1] as int) as u16
}

/// Result and flag of the register-to-register instructions `8xyN`; `None` for an unknown `N`.
pub open spec fn alu(vx: u8, vy: u8, n: u16) -> Option<(u8, Option<u8>)> {
    if n == 0 {
        Some((vy, None))
    } else if n == 1 {
        Some((vx | vy, None))
    } else if n == 2 {
        Some((vx & vy, None))
    } else if n == 3 {
        Some((vx ^ vy, None))
    } else if n == 4 {
        Some((((vx + vy) % 256) as u8, Some(if vx + vy >= 256 { 1u8 } else { 0u8 })))
    } else if n == 5 {
        Some((((vx - vy + 256) % 256) as u8, Some(if vx >= vy { 1u8 } else { 0u8 })))
    } else if n == 6 {
        Some((vx >> 1u8, Some(vx & 1u8)))
    } else if n == 7 {
        Some((((vy - vx + 256) % 256) as u8, Some(if vy >= vx { 1u8 } else { 0u8 })))
    } else if n == 0xE {
        Some((((vx * 2) % 256) as u8, Some(vx >> 7u8)))
    } else {
        None
    }
}

/// The register-to-register instructions `8xyN`: the result goes to `x`, then the flag to `0xF`.
pub open spec fn execute_alu(m: Machine, op: u16) -> Result<Machine, Fault> {
    let x = op_x(op);
    match alu(m.v[x], m.v[op_y(op)], op_n(op)) {
        Some((r, None)) => Ok(m.set_v(x, r).advance(2)),
        Some((r, Some(flag))) => Ok(m.set_v(x, r).set_v(15, flag).advance(2)),
        None => Err(Fault::UnknownOpcode(op)),
    }
}

/// The lowest pressed key at or after `k`.
pub open spec fn first_pressed_from(keys: Seq<bool>, k: int) -> Option<int>
    decreases 16 - k,
{
    if k >= 16 || k < 0 {
        None
    } else if keys[k] {
        Some(k)
    } else {
        first_pressed_from(keys, k + 1)
    }
}

/// Memory after storing registers `0..=x` at `i` onwards.
pub open spec fn stored(ram: Seq<u8>, v: Seq<u8>, i: int, x: int) -> Seq<u8> {
    Seq::new(ram.len(), |a: int| if i <= a <= i + x { v[a - i] } else { ram[a] })
}

/// Registers after loading `0..=x` from memory at `i` onwards.
pub open spec fn loaded(v: Seq<u8>, ram: Seq<u8>, i: int, x: int) -> Seq<u8> {
    Seq::new(v.len(), |r: int| if r <= x { ram[i + r] } else { v[r] })
}

/// The `Fxnn` instructions.
pub open spec fn execute_f(m: Machine, op: u16) -> Result<Machine, Fault> {
    let x = op_x(op);
    let nn = op_nn(op);
    let vx = m.v[x];
    if nn == 0x07 {
        Ok(m.set_v(x, m.delay_timer).advance(2))
    } else if nn == 0x0A {
        match first_pressed_from(m.keys, 0) {
            Some(k) => Ok(m.set_v(x, k as u8).advance(2)),
            None => Ok(m),
        }
    } else if nn == 0x15 {
        Ok(Machine { delay_timer: vx, ..m }.advance(2))
    } else if nn == 0x18 {
        Ok(Machine { sound_timer: vx, ..m }.advance(2))
    } else if nn == 0x1E {
        Ok(Machine { i: ((m.i + vx) % 65536) as u16, ..m }.advance(2))
    } else if nn == 0x29 {
        Ok(Machine { i: (vx * 5) as u16, ..m }.advance(2))
    } else if nn == 0x33 {
        if m.i + 2 >= 4096 {
            Err(Fault::AddressOutOfRange)
        } else {
            let ram = m.ram.update(m.i as int, vx / 100).update(m.i + 1, (vx / 10) % 10).update(
                m.i + 2,
                vx % 10,
            );
            Ok(Machine { ram, ..m }.advance(2))
        }
    } else if nn == 0x55 {
        if m.i + x >= 4096 {
            Err(Fault::AddressOutOfRange)
        } else {
            Ok(Machine { ram: stored(m.ram, m.v, m.i as int, x), ..m }.advance(2))
        }
    } else if nn == 0x65 {
        if m.i + x >= 4096 {
            Err(Fault::AddressOutOfRange)
        } else {
            Ok(Machine { v: loaded(m.v, m.ram, m.i as int, x), ..m }.advance(2))
        }
    } else {
        Err(Fault::UnknownOpcode(op))
    }
}

/// The sprite instruction `Dxyn`.
pub open spec fn execute_draw(m: Machine, op: u16) -> Result<Machine, Fault> {
    let n = op_n(op) as int;
    if m.i + n > 4096 {
        Err(Fault::AddressOutOfRange)
    } else {
        let rows = m.ram.subrange(m.i as int, m.i + n);
        let x = m.v[op_x(op)] as int;
        let y = m.v[op_y(op)] as int;
        Ok(
            Machine {
                vram: drawn(m.vram, rows, x, y),
                vram_updated: m.vram_updated || touches(2048, rows, x, y),
                v: m.v.update(15, if collides(m.vram, rows, x, y) { 1u8 } else { 0u8 }),
                ..m
            }.advance(2),
        )
    }
}

/// The effect of one instruction `op` on `m`; `rnd` is the random byte the `Cxnn` instruction draws.
pub open spec fn execute(m: Machine, op: u16, rnd: u8) -> Result<Machine, Fault> {
    let f = op_family(op);
    let x = op_x(op);
    let y = op_y(op);
    let n = op_n(op);
    let nn = op_nn(op);
    let nnn = op_nnn(op);
    if op == 0x00E0 {
        Ok(Machine { vram: Seq::new(2048, |c: int| false), vram_updated: true, ..m }.advance(2))
    } else if op == 0x00EE {
        if m.stack.len() == 0 {
            Err(Fault::StackUnderflow)
        } else {
            Ok(Machine { pc: m.stack.last(), stack: m.stack.drop_last(), ..m })
        }
    } else if f == 1 {
        Ok(Machine { pc: nnn, ..m })
    } else if f == 2 {
        if m.stack.len() >= 16 {
            Err(Fault::StackOverflow)
        } else {
            Ok(Machine { pc: nnn, stack: m.stack.push((m.pc + 2) as u16), ..m })
        }
    } else if f == 3 {
        Ok(m.skip_if(m.v[x] == nn))
    } else if f == 4 {
        Ok(m.skip_if(m.v[x] != nn))
    } else if f == 5 && n == 0 {
        Ok(m.skip_if(m.v[x] == m.v[y]))
    } else if f == 6 {
        Ok(m.set_v(x, nn).advance(2))
    } else if f == 7 {
        Ok(m.set_v(x, ((m.v[x] + nn) % 256) as u8).advance(2))
    } else if f == 8 {
        execute_alu(m, op)
    } else if f == 9 && n == 0 {
        Ok(m.skip_if(m.v[x] != m.v[y]))
    } else if f == 0xA {
        Ok(Machine { i: nnn, ..m }.advance(2))
    } else if f == 0xB {
        Ok(Machine { pc: (m.v[0] + nnn) as u16, ..m })
    } else if f == 0xC {
        Ok(m.set_v(x, rnd & nn).advance(2))
    } else if f == 0xD {
        execute_draw(m, op)
    } else if f == 0xE && (nn == 0x9E || nn == 0xA1) {
        if m.v[x] >= 16 {
            Err(Fault::KeyOutOfRange)
        } else if nn == 0x9E {
            Ok(m.skip_if(m.keys[m.v[x] as int]))
        } else {
            Ok(m.skip_if(!m.keys[m.v[x] as int]))
        }
    } else if f == 0xF {
        execute_f(m, op)
    } else {
        Err(Fault::UnknownOpcode(op))
    }
}

/// Memory at power-on: the glyph table at address 0, zero elsewhere.
pub open spec fn initial_ram() -> Seq<u8> {
    Seq::new(4096, |a: int| if a < 80 { glyphs()[a] } else { 0u8 })
}

/// The machine at power-on.
pub open spec fn initial() -> Machine {
    Machine {
        ram: initial_ram(),
        v: Seq::new(16, |r: int| 0u8),
        i: 0,
        pc: 0x200,
        vram: Seq::new(2048, |c: int| false),
        vram_updated: false,
        delay_timer: 0,
        sound_timer: 0,
        stack: Seq::empty(),
        keys: Seq::new(16, |k: int| false),
    }
}

/// How many bytes of a program of `len` bytes fit in memory.
pub open spec fn fitted_len(len: int) -> int {
    if len < 3584 { len } else { 3584 }
}

/// Memory after copying `program` to address `0x200`, cut off at the end of memory.
pub open spec fn with_program(ram: Seq<u8>, program: Seq<u8>) -> Seq<u8> {
    Seq::new(
        ram.len(),
        |a: int| if 0x200 <= a < 0x200 + fitted_len(program.len() as int) { program[a - 0x200] } else { ram[a] },
    )
}

/// Both timers after one cycle: each counts down by one while above zero.
pub open spec fn count_down(m: Machine) -> Machine {
    Machine {
        delay_timer: if m.delay_timer > 0 { (m.delay_timer - 1) as u8 } else { 0 },
        sound_timer: if m.sound_timer > 0 { (m.sound_timer - 1) as u8 } else { 0 },
        ..m
    }
}

/// Whether the instruction at the program counter draws a random byte.
pub open spec fn wants_random(m: Machine) -> bool {
    m.pc + 1 < 4096 && op_family(fetch(m.ram, m.pc as int)) == 0xC
}

/// One whole cycle: fetch, execute with the dirty flag cleared, then count the timers down.
pub open spec fn cycle(m: Machine, rnd: u8) -> Result<Machine, Fault> {
    if m.pc + 1 >= 4096 {
        Err(Fault::AddressOutOfRange)
    } else {
        match execute(Machine { vram_updated: false, ..m }, fetch(m.ram, m.pc as int), rnd) {
            Ok(next) => Ok(count_down(next)),
            Err(e) => Err(e),
        }
    }
}


/// Add with carry (`8xy4`): register `x` gets `(a + b) mod 256` (unless `x` is the flag register
/// itself), and `0xF` gets 1 exactly when `a + b >= 256`; nothing else but the program counter moves.
pub proof fn lemma_add_with_carry(m: Machine, op: u16, rnd: u8)
    requires
        m.wf(),
        op_family(op) == 8,
        op_n(op) == 4,
    ensures
        execute(m, op, rnd) is Ok,
        ({
            let a = m.v[op_x(op)];
            let b = m.v[op_y(op)];
            let after = execute(m, op, rnd)->Ok_0;
            &&& after.v[15] == if a + b >= 256 { 1u8 } else { 0u8 }
            &&& op_x(op) != 15 ==> after.v[op_x(op)] == (a + b) % 256
            &&& forall|r: int| 0 <= r < 15 && r != op_x(op) ==> after.v[r] == m.v[r]
            &&& after.pc == (m.pc + 2) as u16
        }),
{
    assert(((op >> 8u16) & 0xFu16) < 16) by (bit_vector);
    assert(op != 0x00E0 && op != 0x00EE) by (bit_vector)
        requires
            op >> 12u16 == 8,
    ;
}

/// Subtract with borrow (`8xy5`): register `x` gets `(a - b) mod 256` (unless `x` is the flag
/// register itself), and `0xF` gets 1 exactly when `a >= b`, that is when nothing was borrowed.
pub proof fn lemma_sub_with_borrow(m: Machine, op: u16, rnd: u8)
    requires
        m.wf(),
        op_family(op) == 8,
        op_n(op) == 5,
    ensures
        execute(m, op, rnd) is Ok,
        ({
            let a = m.v[op_x(op)];
            let b = m.v[op_y(op)];
            let after = execute(m, op, rnd)->Ok_0;
            &&& after.v[15] == if a >= b { 1u8 } else { 0u8 }
            &&& op_x(op) != 15 ==> after.v[op_x(op)] == (a - b) % 256
            &&& forall|r: int| 0 <= r < 15 && r != op_x(op) ==> after.v[r] == m.v[r]
            &&& after.pc == (m.pc + 2) as u16
        }),
{
    assert(((op >> 8u16) & 0xFu16) < 16) by (bit_vector);
    assert(op != 0x00E0 && op != 0x00EE) by (bit_vector)
        requires
            op >> 12u16 == 8,
    ;
}

/// Clearing the screen (`00E0`) turns every cell off and always marks the display changed,
/// even when it was already blank.
pub proof fn lemma_clear_screen(m: Machine, rnd: u8)
    requires
        m.wf(),
    ensures
        execute(m, 0x00E0, rnd) is Ok,
        execute(m, 0x00E0, rnd)->Ok_0.vram_updated,
        execute(m, 0x00E0, rnd)->Ok_0.vram.len() == 2048,
        forall|c: int| 0 <= c < 2048 ==> !#[trigger] execute(m, 0x00E0, rnd)->Ok_0.vram[c],
{
}

/// The call stack never holds more than sixteen return addresses: every instruction and every
/// cycle that succeeds keeps the machine well formed.
pub proof fn lemma_stack_bounded(m: Machine, op: u16, rnd: u8)
    requires
        m.wf(),
    ensures
        execute(m, op, rnd) is Ok ==> execute(m, op, rnd)->Ok_0.wf(),
        cycle(m, rnd) is Ok ==> cycle(m, rnd)->Ok_0.wf(),
{
    lemma_execute_wf(m, op, rnd);
    if m.pc + 1 < 4096 {
        lemma_execute_wf(Machine { vram_updated: false, ..m }, fetch(m.ram, m.pc as int), rnd);
    }
}

proof fn lemma_execute_wf(m: Machine, op: u16, rnd: u8)
    requires
        m.wf(),
    ensures
        execute(m, op, rnd) is Ok ==> execute(m, op, rnd)->Ok_0.wf(),
{
    assert(((op >> 8u16) & 0xFu16) < 16) by (bit_vector);
    assert(((op >> 4u16) & 0xFu16) < 16) by (bit_vector);
}

/// A call with sixteen return addresses already saved (a seventeenth nested call) faults with
/// a stack overflow and does nothing else.
pub proof fn lemma_call_overflows_full_stack(m: Machine, op: u16, rnd: u8)
    requires
        m.wf(),
        m.stack.len() == 16,
        op_family(op) == 2,
    ensures
        execute(m, op, rnd) == Err::<Machine, Fault>(Fault::StackOverflow),
        m.pc + 1 < 4096 && fetch(m.ram, m.pc as int) == op ==> cycle(m, rnd) == Err::<Machine, Fault>(Fault::StackOverflow),
{
    assert(op != 0x00E0 && op != 0x00EE) by (bit_vector)
        requires
            op >> 12u16 == 2,
    ;
}

} // verus!
