//! The interpreter: machine state, instruction dispatch and the cycle.

use crate::display::draw_sprite;
use crate::font::{fontset, glyphs};
use crate::machine::{
    cycle, execute, execute_alu, execute_draw, execute_f, fetch, first_pressed_from, fitted_len,
    initial, loaded, stored, wants_random, with_program, Fault, Machine,
};
use vstd::prelude::*;

verus! {

/// What a cycle leaves for the host: the display and whether this cycle changed it.
pub struct State<'a> {
    pub vram: &'a [bool; 2048],
    pub vram_updated: bool,
}

/// A CHIP-8 machine.
pub struct Processor {
    ram: [u8; 4096],
    v: [u8; 16],
    i: u16,
    pc: u16,
    vram: [bool; 2048],
    vram_updated: bool,
    delay_timer: u8,
    sound_timer: u8,
    stack: Vec<u16>,
    keys: [bool; 16],
}

impl View for Processor {
    type V = Machine;

    closed spec fn view(&self) -> Machine {
        Machine {
            ram: self.ram@,
            v: self.v@,
            i: self.i,
            pc: self.pc,
            vram: self.vram@,
            vram_updated: self.vram_updated,
            delay_timer: self.delay_timer,
            sound_timer: self.sound_timer,
            stack: self.stack@,
            keys: self.keys@,
        }
    }
}

/// `r` reports the outcome `res` of one step from `before` to `after`; a failed step changes nothing.
pub open spec fn transition(before: Machine, after: Machine, r: Result<(), Fault>, res: Result<Machine, Fault>) -> bool {
    match res {
        Ok(m) => r is Ok && after == m,
        Err(e) => r == Err::<(), Fault>(e) && after == before,
    }
}

/// `r` reports the cycle from `before` to `after` with random byte `rnd`.
pub open spec fn cycle_outcome(before: Machine, after: Machine, r: Result<State<'_>, Fault>, rnd: u8) -> bool {
    match cycle(before, rnd) {
        Ok(m) => r is Ok && after == m && r->Ok_0.vram@ == m.vram && r->Ok_0.vram_updated == m.vram_updated,
        Err(e) => r is Err && r->Err_0 == e && after == before,
    }
}

/// Relies on `rand::random::<u8>`: a byte from the thread-local generator, of which nothing is known.
#[verifier::external_body]
fn random_byte() -> (r: u8) {
    rand::random::<u8>()
}

impl Processor {
    /// The state invariant: the call stack holds at most sixteen return addresses.
    pub open spec fn wf(&self) -> bool {
        self@.wf()
    }

    /// A machine at power-on: glyphs loaded, everything else zero, execution at `0x200`.
    pub fn new() -> (p: Processor)
        ensures
            p.wf(),
            p@ == initial(),
    {
        let font = fontset();
        let mut ram = [0u8; 4096];
        let mut k: usize = 0;
        while k < 80
            invariant
                k <= 80,
                font@ == glyphs(),
                forall|a: int| 0 <= a < 4096 ==> #[trigger] ram@[a] == if a < k { font@[a] } else { 0u8 },
            decreases 80 - k,
        {
            ram[k] = font[k];
            k = k + 1;
        }
        let p = Processor {
            ram,
            v: [0u8; 16],
            i: 0,
            pc: 0x200,
            vram: [false; 2048],
            vram_updated: false,
            delay_timer: 0,
            sound_timer: 0,
            stack: Vec::new(),
            keys: [false; 16],
        };
        assert(p@.ram =~= initial().ram);
        assert(p@.v =~= initial().v);
        assert(p@.vram =~= initial().vram);
        assert(p@.keys =~= initial().keys);
        assert(p@.stack =~= initial().stack);
        p
    }

    /// Copies `program` into memory at `0x200`, dropping whatever does not fit.
    pub fn load(&mut self, program: &[u8])
        requires
            old(self).wf(),
        ensures
            final(self).wf(),
            final(self)@ == (Machine { ram: with_program(old(self)@.ram, program@), ..old(self)@ }),
    {
        let ghost m0 = self@;
        let n = if program.len() < 3584 { program.len() } else { 3584 };
        let mut k: usize = 0;
        while k < n
            invariant
                k <= n,
                n as int == fitted_len(program@.len() as int),
                self@ == (Machine { ram: self.ram@, ..m0 }),
                forall|a: int| 0 <= a < 4096 ==> #[trigger] self.ram@[a] == if 0x200 <= a < 0x200 + k { program@[a - 0x200] } else { m0.ram[a] },
            decreases n - k,
        {
            self.ram[0x200 + k] = program[k];
            k = k + 1;
        }
        assert(self.ram@ =~= with_program(m0.ram, program@));
    }

    /// The opcode at the program counter, or a fault when it would be read past the end of memory.
    fn get_opcode(&self) -> (r: Result<u16, Fault>)
        requires
            self.wf(),
        ensures
            self@.pc + 1 >= 4096 ==> r == Err::<u16, Fault>(Fault::AddressOutOfRange),
            self@.pc + 1 < 4096 ==> r == Ok::<u16, Fault>(fetch(self@.ram, self@.pc as int)),
    {
        if self.pc >= 4095 {
            return Err(Fault::AddressOutOfRange);
        }
        let hi = self.ram[self.pc as usize];
        let lo = self.ram[self.pc as usize + 1];
        assert(((hi as u16) << 8u16) | (lo as u16) == (hi as u16) * 256 + (lo as u16)) by (bit_vector);
        Ok(((hi as u16) << 8u16) | (lo as u16))
    }

    /// Saves a return address, or faults when the stack is full.
    fn push(&mut self, value: u16) -> (r: Result<(), Fault>)
        requires
            old(self).wf(),
        ensures
            final(self).wf(),
            old(self)@.stack.len() >= 16 ==> r == Err::<(), Fault>(Fault::StackOverflow) && final(self)@ == old(self)@,
            old(self)@.stack.len() < 16 ==> r is Ok && final(self)@ == (Machine { stack: old(self)@.stack.push(value), ..old(self)@ }),
    {
        if self.stack.len() >= 16 {
            return Err(Fault::StackOverflow);
        }
        self.stack.push(value);
        Ok(())
    }

    /// Takes the latest return address, or faults when the stack is empty.
    fn pop(&mut self) -> (r: Result<u16, Fault>)
        requires
            old(self).wf(),
        ensures
            final(self).wf(),
            old(self)@.stack.len() == 0 ==> r == Err::<u16, Fault>(Fault::StackUnderflow) && final(self)@ == old(self)@,
            old(self)@.stack.len() > 0 ==> r == Ok::<u16, Fault>(old(self)@.stack.last()) && final(self)@ == (Machine { stack: old(self)@.stack.drop_last(), ..old(self)@ }),
    {
        match self.stack.pop() {
            Some(a) => Ok(a),
            None => Err(Fault::StackUnderflow),
        }
    }

    /// The register-to-register instructions `8xyN`.
    fn run_alu(&mut self, op: u16) -> (r: Result<(), Fault>)
        requires
            old(self).wf(),
            old(self)@.pc + 1 < 4096,
        ensures
            final(self).wf(),
            transition(old(self)@, final(self)@, r, execute_alu(old(self)@, op)),
    {
        assert(((op >> 8u16) & 0xFu16) < 16) by (bit_vector);
        assert(((op >> 4u16) & 0xFu16) < 16) by (bit_vector);
        let x = ((op >> 8) & 0xF) as usize;
        let y = ((op >> 4) & 0xF) as usize;
        let n = op & 0xF;
        let vx = self.v[x];
        let vy = self.v[y];
        let (res, flag): (u8, Option<u8>) = if n == 0 {
            (vy, None)
        } else if n == 1 {
            (vx | vy, None)
        } else if n == 2 {
            (vx & vy, None)
        } else if n == 3 {
            (vx ^ vy, None)
        } else if n == 4 {
            let sum: u16 = vx as u16 + vy as u16;
            ((sum % 256) as u8, Some(if sum >= 256 { 1u8 } else { 0u8 }))
        } else if n == 5 {
            (((vx as u16 + 256 - vy as u16) % 256) as u8, Some(if vx >= vy { 1u8 } else { 0u8 }))
        } else if n == 6 {
            (vx >> 1u8, Some(vx & 1u8))
        } else if n == 7 {
            (((vy as u16 + 256 - vx as u16) % 256) as u8, Some(if vy >= vx { 1u8 } else { 0u8 }))
        } else if n == 0xE {
            (((vx as u16 * 2) % 256) as u8, Some(vx >> 7u8))
        } else {
            return Err(Fault::UnknownOpcode(op));
        };
        self.v[x] = res;
        if let Some(f) = flag {
            self.v[15] = f;
        }
        self.pc = self.pc + 2;
        Ok(())
    }

    /// The sprite instruction `Dxyn`.
    fn run_draw(&mut self, op: u16) -> (r: Result<(), Fault>)
        requires
            old(self).wf(),
            old(self)@.pc + 1 < 4096,
        ensures
            final(self).wf(),
            transition(old(self)@, final(self)@, r, execute_draw(old(self)@, op)),
    {
        assert(((op >> 8u16) & 0xFu16) < 16) by (bit_vector);
        assert(((op >> 4u16) & 0xFu16) < 16) by (bit_vector);
        assert((op & 0xFu16) < 16) by (bit_vector);
        let x = ((op >> 8) & 0xF) as usize;
        let y = ((op >> 4) & 0xF) as usize;
        let n = (op & 0xF) as usize;
        let start = self.i as usize;
        if start + n > 4096 {
            return Err(Fault::AddressOutOfRange);
        }
        let vx = self.v[x];
        let vy = self.v[y];
        let (collision, touched) = draw_sprite(&mut self.vram, self.ram.as_slice(), start, n, vx, vy);
        self.vram_updated = self.vram_updated || touched;
        self.v[15] = if collision { 1 } else { 0 };
        self.pc = self.pc + 2;
        Ok(())
    }

    /// The lowest-numbered key that is pressed, if any.
    fn first_pressed(&self) -> (r: Option<usize>)
        requires
            self.wf(),
        ensures
            match r {
                Some(k) => first_pressed_from(self@.keys, 0) == Some(k as int),
                None => first_pressed_from(self@.keys, 0) is None,
            },
    {
        let mut k: usize = 0;
        while k < 16
            invariant
                k <= 16,
                self.wf(),
                first_pressed_from(self@.keys, 0) == first_pressed_from(self@.keys, k as int),
            decreases 16 - k,
        {
            if self.keys[k] {
                return Some(k);
            }
            k = k + 1;
        }
        None
    }

    /// Copies registers `0..=x` to memory from the index register on.
    fn store_registers(&mut self, x: usize)
        requires
            old(self).wf(),
            x < 16,
            old(self)@.i + x < 4096,
        ensures
            final(self)@ == (Machine { ram: stored(old(self)@.ram, old(self)@.v, old(self)@.i as int, x as int), ..old(self)@ }),
    {
        let ghost m0 = self@;
        let base = self.i as usize;
        let mut k: usize = 0;
        while k <= x
            invariant
                k <= x + 1,
                x < 16,
                base == m0.i,
                base + x < 4096,
                m0.wf(),
                self@ == (Machine { ram: self.ram@, ..m0 }),
                forall|a: int| 0 <= a < 4096 ==> #[trigger] self.ram@[a] == if base <= a < base + k { m0.v[a - base] } else { m0.ram[a] },
            decreases x + 1 - k,
        {
            self.ram[base + k] = self.v[k];
            k = k + 1;
        }
        assert(self.ram@ =~= stored(m0.ram, m0.v, m0.i as int, x as int));
    }

    /// Fills registers `0..=x` from memory at the index register on.
    fn load_registers(&mut self, x: usize)
        requires
            old(self).wf(),
            x < 16,
            old(self)@.i + x < 4096,
        ensures
            final(self)@ == (Machine { v: loaded(old(self)@.v, old(self)@.ram, old(self)@.i as int, x as int), ..old(self)@ }),
    {
        let ghost m0 = self@;
        let base = self.i as usize;
        let mut k: usize = 0;
        while k <= x
            invariant
                k <= x + 1,
                x < 16,
                base == m0.i,
                base + x < 4096,
                m0.wf(),
                self@ == (Machine { v: self.v@, ..m0 }),
                forall|r: int| 0 <= r < 16 ==> #[trigger] self.v@[r] == if r < k { m0.ram[base + r] } else { m0.v[r] },
            decreases x + 1 - k,
        {
            self.v[k] = self.ram[base + k];
            k = k + 1;
        }
        assert(self.v@ =~= loaded(m0.v, m0.ram, m0.i as int, x as int));
    }

    /// The `Fxnn` instructions.
    fn run_f(&mut self, op: u16) -> (r: Result<(), Fault>)
        requires
            old(self).wf(),
            old(self)@.pc + 1 < 4096,
        ensures
            final(self).wf(),
            transition(old(self)@, final(self)@, r, execute_f(old(self)@, op)),
    {
        assert(((op >> 8u16) & 0xFu16) < 16) by (bit_vector);
        let x = ((op >> 8) & 0xF) as usize;
        let nn = (op & 0xFF) as u8;
        let vx = self.v[x];
        if nn == 0x07 {
            self.v[x] = self.delay_timer;
        } else if nn == 0x0A {
            match self.first_pressed() {
                Some(k) => self.v[x] = k as u8,
                None => return Ok(()),
            }
        } else if nn == 0x15 {
            self.delay_timer = vx;
        } else if nn == 0x18 {
            self.sound_timer = vx;
        } else if nn == 0x1E {
            self.i = self.i.wrapping_add(vx as u16);
        } else if nn == 0x29 {
            self.i = vx as u16 * 5;
        } else if nn == 0x33 {
            let i = self.i as usize;
            if i + 2 >= 4096 {
                return Err(Fault::AddressOutOfRange);
            }
            self.ram[i] = vx / 100;
            self.ram[i + 1] = (vx / 10) % 10;
            self.ram[i + 2] = vx % 10;
        } else if nn == 0x55 {
            if self.i as usize + x >= 4096 {
                return Err(Fault::AddressOutOfRange);
            }
            self.store_registers(x);
        } else if nn == 0x65 {
            if self.i as usize + x >= 4096 {
                return Err(Fault::AddressOutOfRange);
            }
            self.load_registers(x);
        } else {
            return Err(Fault::UnknownOpcode(op));
        }
        self.pc = self.pc + 2;
        Ok(())
    }

    /// Executes one instruction; `rnd` is the byte that `Cxnn` masks.
    fn run_opcode(&mut self, op: u16, rnd: u8) -> (r: Result<(), Fault>)
        requires
            old(self).wf(),
            old(self)@.pc + 1 < 4096,
        ensures
            final(self).wf(),
            transition(old(self)@, final(self)@, r, execute(old(self)@, op, rnd)),
    {
        assert(((op >> 8u16) & 0xFu16) < 16) by (bit_vector);
        assert(((op >> 4u16) & 0xFu16) < 16) by (bit_vector);
        let family = op >> 12;
        let x = ((op >> 8) & 0xF) as usize;
        let y = ((op >> 4) & 0xF) as usize;
        let n = op & 0xF;
        let nn = (op & 0xFF) as u8;
        let nnn = op & 0xFFF;
        assert(op & 0xFFFu16 <= 0xFFF) by (bit_vector);
        if op == 0x00E0 {
            self.vram = [false; 2048];
            self.vram_updated = true;
            assert(self.vram@ =~= Seq::new(2048, |c: int| false));
        } else if op == 0x00EE {
            match self.pop() {
                Ok(a) => self.pc = a,
                Err(e) => return Err(e),
            }
            return Ok(());
        } else if family == 1 {
            self.pc = nnn;
            return Ok(());
        } else if family == 2 {
            let ret = self.pc + 2;
            match self.push(ret) {
                Ok(()) => self.pc = nnn,
                Err(e) => return Err(e),
            }
            return Ok(());
        } else if family == 3 {
            let skip = self.v[x] == nn;
            return self.skip_if(skip);
        } else if family == 4 {
            let skip = self.v[x] != nn;
            return self.skip_if(skip);
        } else if family == 5 && n == 0 {
            let skip = self.v[x] == self.v[y];
            return self.skip_if(skip);
        } else if family == 6 {
            self.v[x] = nn;
        } else if family == 7 {
            self.v[x] = self.v[x].wrapping_add(nn);
        } else if family == 8 {
            return self.run_alu(op);
        } else if family == 9 && n == 0 {
            let skip = self.v[x] != self.v[y];
            return self.skip_if(skip);
        } else if family == 0xA {
            self.i = nnn;
        } else if family == 0xB {
            self.pc = self.v[0] as u16 + nnn;
            return Ok(());
        } else if family == 0xC {
            self.v[x] = rnd & nn;
        } else if family == 0xD {
            return self.run_draw(op);
        } else if family == 0xE && (nn == 0x9E || nn == 0xA1) {
            let key = self.v[x];
            if key >= 16 {
                return Err(Fault::KeyOutOfRange);
            }
            let pressed = self.keys[key as usize];
            return self.skip_if(if nn == 0x9E { pressed } else { !pressed });
        } else if family == 0xF {
            return self.run_f(op);
        } else {
            return Err(Fault::UnknownOpcode(op));
        }
        self.pc = self.pc + 2;
        Ok(())
    }

    /// Moves past the current instruction, and past the next one too when `skip` holds.
    fn skip_if(&mut self, skip: bool) -> (r: Result<(), Fault>)
        requires
            old(self).wf(),
            old(self)@.pc + 1 < 4096,
        ensures
            final(self).wf(),
            r is Ok,
            final(self)@ == old(self)@.skip_if(skip),
    {
        self.pc = if skip { self.pc + 4 } else { self.pc + 2 };
        Ok(())
    }

    /// Whether the instruction at the program counter is `Cxnn`, which draws a random byte.
    fn wants_random(&self) -> (b: bool)
        requires
            self.wf(),
        ensures
            b == wants_random(self@),
    {
        match self.get_opcode() {
            Ok(op) => op >> 12 == 0xC,
            Err(_) => false,
        }
    }

    /// One cycle with a given random byte: fetch and execute the instruction at the program
    /// counter, then count both timers down. A fault leaves the machine unchanged.
    pub fn step(&mut self, rnd: u8) -> (r: Result<State<'_>, Fault>)
        requires
            old(self).wf(),
        ensures
            final(self).wf(),
            cycle_outcome(old(self)@, final(self)@, r, rnd),
    {
        let op = match self.get_opcode() {
            Ok(op) => op,
            Err(e) => return Err(e),
        };
        let saved = self.vram_updated;
        self.vram_updated = false;
        match self.run_opcode(op, rnd) {
            Ok(()) => {},
            Err(e) => {
                self.vram_updated = saved;
                return Err(e);
            },
        }
        if self.delay_timer > 0 {
            self.delay_timer = self.delay_timer - 1;
        }
        if self.sound_timer > 0 {
            self.sound_timer = self.sound_timer - 1;
        }
        Ok(State { vram: &self.vram, vram_updated: self.vram_updated })
    }

    /// One cycle, as `step`, with a fresh random byte when the instruction is `Cxnn`.
    pub fn tick(&mut self) -> (r: Result<State<'_>, Fault>)
        requires
            old(self).wf(),
        ensures
            final(self).wf(),
            exists|rnd: u8| #[trigger] cycle_outcome(old(self)@, final(self)@, r, rnd),
            !wants_random(old(self)@) ==> cycle_outcome(old(self)@, final(self)@, r, 0),
    {
        let rnd = if self.wants_random() { random_byte() } else { 0 };
        self.step(rnd)
    }

    /// The display, row-major.
    pub fn vram(&self) -> (r: &[bool; 2048])
        ensures
            r@ == self@.vram,
    {
        &self.vram
    }

    /// Whether the display cell at column `x`, row `y` is lit.
    pub fn pixel(&self, x: usize, y: usize) -> (r: bool)
        requires
            x < 64,
            y < 32,
        ensures
            r == self@.vram[x + 64 * y],
    {
        self.vram[x + 64 * y]
    }

    /// Whether the last cycle changed the display.
    pub fn vram_updated(&self) -> (r: bool)
        ensures
            r == self@.vram_updated,
    {
        self.vram_updated
    }

    /// General-purpose register `x`.
    pub fn register(&self, x: usize) -> (r: u8)
        requires
            x < 16,
        ensures
            r == self@.v[x as int],
    {
        self.v[x]
    }

    /// The index register.
    pub fn index_register(&self) -> (r: u16)
        ensures
            r == self@.i,
    {
        self.i
    }

    /// The program counter.
    pub fn program_counter(&self) -> (r: u16)
        ensures
            r == self@.pc,
    {
        self.pc
    }

    /// The byte at `addr`.
    pub fn memory(&self, addr: usize) -> (r: u8)
        requires
            addr < 4096,
        ensures
            r == self@.ram[addr as int],
    {
        self.ram[addr]
    }

    /// The delay timer.
    pub fn delay_timer(&self) -> (r: u8)
        ensures
            r == self@.delay_timer,
    {
        self.delay_timer
    }

    /// The sound timer.
    pub fn sound_timer(&self) -> (r: u8)
        ensures
            r == self@.sound_timer,
    {
        self.sound_timer
    }

    /// How many return addresses the call stack holds.
    pub fn stack_depth(&self) -> (r: usize)
        ensures
            r == self@.stack.len(),
    {
        self.stack.len()
    }

    /// Records key `key` as pressed or released.
    pub fn set_key(&mut self, key: usize, pressed: bool)
        requires
            old(self).wf(),
            key < 16,
        ensures
            final(self).wf(),
            final(self)@ == (Machine { keys: old(self)@.keys.update(key as int, pressed), ..old(self)@ }),
    {
        self.keys[key] = pressed;
    }
}

} // verus!
