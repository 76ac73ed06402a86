use vstd::prelude::*;
use crate::error::Chip8Error;
use crate::font::{glyph_table, glyphs, FONT_SIZE, GLYPH_HEIGHT};
use crate::input::{lowest_pressed, Input, KEY_COUNT};
use rand::Rng;
use crate::instruction::{decode, decoded, Instruction};
use crate::state::{
    loaded, reports, MAX_ROM_SIZE,
    col_offset, collides, drawn, sprite_bit, lemma_pixel_position, initial_state, load_registers, row_offset, sprite_covers, SCREEN_SIZE, store_registers, write_byte, MachineState, MEMORY_SIZE,
    PROGRAM_START, REGISTER_COUNT,
};

verus! {

/// The machine: registers, memory, call stack, timers, screen and keypad.
pub struct Chip8 {
    program_counter: u16,
    i_register: u16,
    registers: [u8; 16],
    sp: u8,
    delay_timer: u8,
    sound_timer: u8,
    stack: [u16; 16],
    memory: [u8; 4096],
    video: [u8; 2048],
    /// The keypad, which the host updates as keys go down and up.
    pub input: Input,
}

impl View for Chip8 {
    type V = MachineState;

    closed spec fn view(&self) -> MachineState {
        MachineState {
            pc: self.program_counter,
            index: self.i_register,
            v: self.registers@,
            sp: self.sp,
            stack: self.stack@,
            delay: self.delay_timer,
            sound: self.sound_timer,
            memory: self.memory@,
            video: self.video@,
            keys: self.input@,
        }
    }
}

/// A machine in its initial state: program counter at `0x200`, registers,
/// timers, stack and screen cleared, the glyphs at the start of memory and
/// the rest of memory zero.
pub fn init_chip() -> (chip: Chip8)
    ensures
        chip.wf(),
        chip@ == initial_state(),
{
    let glyph_bytes = glyph_table();
    let mut memory = [0u8; 4096];
    let mut a: usize = 0;
    while a < FONT_SIZE
        invariant
            a <= FONT_SIZE,
            glyph_bytes@ == glyphs(),
            forall|j: int| 0 <= j < a ==> memory@[j] == glyphs()[j],
            forall|j: int| a <= j < MEMORY_SIZE ==> memory@[j] == 0,
        decreases FONT_SIZE - a,
    {
        memory[a] = glyph_bytes[a];
        a = a + 1;
    }
    let chip = Chip8 {
        program_counter: PROGRAM_START,
        i_register: 0,
        registers: [0u8; 16],
        sp: 0,
        delay_timer: 0,
        sound_timer: 0,
        stack: [0u16; 16],
        memory,
        video: [0u8; 2048],
        input: Input::new(),
    };
    assert(chip@.memory =~= initial_state().memory);
    assert(chip@.memory.subrange(0, FONT_SIZE as int) =~= glyphs());
    assert(chip@.v =~= initial_state().v);
    assert(chip@.stack =~= initial_state().stack);
    assert(chip@.video =~= initial_state().video);
    chip
}

impl Chip8 {
    /// The machine's invariant holds.
    pub open spec fn wf(&self) -> bool {
        self@.wf()
    }

    /// Register `register` becomes `value`.
    fn set_vx(&mut self, value: u8, register: usize)
        requires
            old(self).wf(),
            register < REGISTER_COUNT,
        ensures
            final(self).wf(),
            final(self)@ == old(self)@.with_reg(register as u8, value),
    {
        self.registers[register] = value;
        assert(self@.v =~= old(self)@.v.update(register as int, value));
    }

    /// The value of register `x`.
    fn get_vx(&self, x: usize) -> (r: u8)
        requires
            x < REGISTER_COUNT,
        ensures
            r == self@.v[x as int],
    {
        self.registers[x]
    }
}

impl Chip8 {
    /// Executes one of the register operations (`6`, `7`, `8` and `C` families).
    fn execute_register_op(&mut self, ins: Instruction, rnd: u8)
        requires
            old(self).wf(),
            ins.operands_in_range(),
            ins is SetImm || ins is AddImm || ins is Copy || ins is Or || ins is And || ins is Xor
                || ins is AddCarry || ins is SubBorrow || ins is ShiftRight || ins is SubReverse
                || ins is ShiftLeft || ins is Random,
        ensures
            final(self).wf(),
            old(self)@.execute(ins, rnd) == Ok::<MachineState, Chip8Error>(final(self)@),
    {
        let ghost s = self@;
        match ins {
            Instruction::SetImm { x, nn } => self.set_vx(nn, x as usize),
            Instruction::AddImm { x, nn } => {
                let sum = self.get_vx(x as usize) as u16 + nn as u16;
                self.set_vx((sum % 256) as u8, x as usize);
            },
            Instruction::Copy { x, y } => {
                let b = self.get_vx(y as usize);
                self.set_vx(b, x as usize);
            },
            Instruction::Or { x, y } => {
                let b = self.get_vx(x as usize) | self.get_vx(y as usize);
                self.set_vx(b, x as usize);
            },
            Instruction::And { x, y } => {
                let b = self.get_vx(x as usize) & self.get_vx(y as usize);
                self.set_vx(b, x as usize);
            },
            Instruction::Xor { x, y } => {
                let b = self.get_vx(x as usize) ^ self.get_vx(y as usize);
                self.set_vx(b, x as usize);
            },
            Instruction::AddCarry { x, y } => {
                let sum = self.get_vx(x as usize) as u16 + self.get_vx(y as usize) as u16;
                self.set_vx((sum % 256) as u8, x as usize);
                self.set_vx(if sum > 255 { 1 } else { 0 }, 0xF);
            },
            Instruction::SubBorrow { x, y } => {
                let vx = self.get_vx(x as usize);
                let vy = self.get_vx(y as usize);
                self.set_vx(if vx >= vy { 1 } else { 0 }, 0xF);
                self.set_vx(vx.wrapping_sub(vy), x as usize);
            },
            Instruction::ShiftRight { x, .. } => {
                let vx = self.get_vx(x as usize);
                self.set_vx(vx % 2, 0xF);
                self.set_vx(vx / 2, x as usize);
            },
            Instruction::SubReverse { x, y } => {
                let vx = self.get_vx(x as usize);
                let vy = self.get_vx(y as usize);
                self.set_vx(if vy >= vx { 1 } else { 0 }, 0xF);
                self.set_vx(vy.wrapping_sub(vx), x as usize);
            },
            Instruction::ShiftLeft { x, .. } => {
                let vx = self.get_vx(x as usize);
                self.set_vx(vx / 128, 0xF);
                self.set_vx(((vx as u16 * 2) % 256) as u8, x as usize);
            },
            Instruction::Random { x, nn } => self.set_vx(rnd & nn, x as usize),
            _ => {},
        }
    }
}

impl Chip8 {
    /// Moves the program counter past the next instruction when `cond` holds.
    fn skip_if(&mut self, cond: bool)
        requires
            old(self).wf(),
        ensures
            final(self).wf(),
            final(self)@ == old(self)@.skip_if(cond),
    {
        if cond {
            self.program_counter = (self.program_counter + 2) % 0x1000;
        }
    }

    /// Executes one of the control-flow operations: jumps, calls, returns,
    /// conditional skips and the wait for a key.
    fn execute_flow_op(&mut self, ins: Instruction) -> (r: Result<(), Chip8Error>)
        requires
            old(self).wf(),
            ins.operands_in_range(),
            ins is Return || ins is Jump || ins is Call || ins is SkipIfEqualImm
                || ins is SkipIfNotEqualImm || ins is SkipIfEqualReg || ins is SkipIfNotEqualReg
                || ins is JumpOffset || ins is SkipIfPressed || ins is SkipIfNotPressed
                || ins is WaitKey,
        ensures
            final(self).wf(),
            match old(self)@.execute(ins, 0) {
                Ok(s) => r is Ok && final(self)@ == s,
                Err(e) => r == Err::<(), Chip8Error>(e) && final(self)@ == old(self)@,
            },
    {
        match ins {
            Instruction::Return => {
                if self.sp == 0 {
                    return Err(Chip8Error::StackUnderflow);
                }
                self.sp = self.sp - 1;
                self.program_counter = self.stack[self.sp as usize];
            },
            Instruction::Jump { addr } => self.program_counter = addr,
            Instruction::Call { addr } => {
                if self.sp as usize >= REGISTER_COUNT {
                    return Err(Chip8Error::StackOverflow);
                }
                self.stack[self.sp as usize] = self.program_counter;
                self.sp = self.sp + 1;
                self.program_counter = addr;
                assert(self@.stack =~= old(self)@.stack.update(old(self)@.sp as int, old(self)@.pc));
            },
            Instruction::SkipIfEqualImm { x, nn } => {
                let cond = self.get_vx(x as usize) == nn;
                self.skip_if(cond);
            },
            Instruction::SkipIfNotEqualImm { x, nn } => {
                let cond = self.get_vx(x as usize) != nn;
                self.skip_if(cond);
            },
            Instruction::SkipIfEqualReg { x, y } => {
                let cond = self.get_vx(x as usize) == self.get_vx(y as usize);
                self.skip_if(cond);
            },
            Instruction::SkipIfNotEqualReg { x, y } => {
                let cond = self.get_vx(x as usize) != self.get_vx(y as usize);
                self.skip_if(cond);
            },
            Instruction::JumpOffset { addr } => {
                self.program_counter = (addr + self.get_vx(0) as u16) % 0x1000;
            },
            Instruction::SkipIfPressed { x } => {
                let cond = self.input.pressed(self.get_vx(x as usize));
                self.skip_if(cond);
            },
            Instruction::SkipIfNotPressed { x } => {
                let cond = !self.input.pressed(self.get_vx(x as usize));
                self.skip_if(cond);
            },
            Instruction::WaitKey { x } => {
                let mut k: u8 = 0;
                while k < 16
                    invariant
                        k <= 16,
                        self@ == old(self)@,
                        old(self).wf(),
                        lowest_pressed(self.input@, 0) == lowest_pressed(self.input@, k as int),
                    ensures
                        k <= 16,
                        self@ == old(self)@,
                        lowest_pressed(self.input@, 0) == k,
                    decreases 16 - k,
                {
                    if self.input.pressed(k) {
                        break;
                    }
                    k = k + 1;
                }
                if k < 16 {
                    self.set_vx(k, x as usize);
                } else {
                    self.program_counter = (self.program_counter + 0x1000 - 2) % 0x1000;
                }
            },
            _ => {},
        }
        Ok(())
    }
}

impl Chip8 {
    /// A program write of `b` at `addr`; writes into the glyph region are dropped.
    fn write_memory(&mut self, addr: u16, b: u8)
        requires
            old(self).wf(),
            addr < MEMORY_SIZE,
        ensures
            final(self).wf(),
            final(self)@ == (MachineState {
                memory: write_byte(old(self)@.memory, addr as int, b),
                ..old(self)@
            }),
    {
        if FONT_SIZE <= addr as usize {
            self.memory[addr as usize] = b;
            assert(self@.memory.subrange(0, FONT_SIZE as int) =~= old(self)@.memory.subrange(
                0,
                FONT_SIZE as int,
            ));
        }
        assert(self@.memory =~= write_byte(old(self)@.memory, addr as int, b));
    }

    /// Executes one of the operations on the address register, memory and timers.
    fn execute_memory_op(&mut self, ins: Instruction)
        requires
            old(self).wf(),
            ins.operands_in_range(),
            ins is SetIndex || ins is AddIndex || ins is GlyphAddress || ins is StoreBcd
                || ins is StoreRegisters || ins is LoadRegisters || ins is SetDelay || ins is SetSound
                || ins is ReadDelay,
        ensures
            final(self).wf(),
            old(self)@.execute(ins, 0) == Ok::<MachineState, Chip8Error>(final(self)@),
    {
        match ins {
            Instruction::SetIndex { addr } => self.i_register = addr,
            Instruction::AddIndex { x } => {
                self.i_register = (self.i_register + self.get_vx(x as usize) as u16) % 0x1000;
            },
            Instruction::GlyphAddress { x } => {
                self.i_register = self.get_vx(x as usize) as u16 * GLYPH_HEIGHT;
            },
            Instruction::SetDelay { x } => self.delay_timer = self.get_vx(x as usize),
            Instruction::SetSound { x } => self.sound_timer = self.get_vx(x as usize),
            Instruction::ReadDelay { x } => {
                let d = self.delay_timer;
                self.set_vx(d, x as usize);
            },
            Instruction::StoreBcd { x } => {
                let b = self.get_vx(x as usize);
                let i = self.i_register;
                self.write_memory(i, b / 100);
                self.write_memory((i + 1) % 0x1000, (b % 100) / 10);
                self.write_memory((i + 2) % 0x1000, b % 10);
            },
            Instruction::StoreRegisters { x } => {
                let ghost s = self@;
                let i = self.i_register;
                let mut k: u8 = 0;
                while k <= x
                    invariant
                        x < 16,
                        k <= x + 1,
                        self.wf(),
                        i == s.index,
                        self@ == (MachineState {
                            memory: store_registers(s.memory, s.index, s.v, k as nat),
                            ..s
                        }),
                    decreases x + 1 - k,
                {
                    let b = self.get_vx(k as usize);
                    self.write_memory((i + k as u16) % 0x1000, b);
                    k = k + 1;
                }
            },
            Instruction::LoadRegisters { x } => {
                let ghost s = self@;
                let i = self.i_register;
                let mut k: u8 = 0;
                assert(s.v =~= Seq::new(
                    16,
                    |j: int| if j < 0 { s.memory[(i + j) % 0x1000] } else { s.v[j] },
                ));
                while k <= x
                    invariant
                        x < 16,
                        k <= x + 1,
                        self.wf(),
                        i == s.index,
                        self@ == (MachineState {
                            v: Seq::new(
                                16,
                                |j: int| if j < k { s.memory[(i + j) % 0x1000] } else { s.v[j] },
                            ),
                            ..s
                        }),
                    decreases x + 1 - k,
                {
                    let b = self.memory[((i + k as u16) % 0x1000) as usize];
                    self.set_vx(b, k as usize);
                    k = k + 1;
                    assert(self@.v =~= Seq::new(
                        16,
                        |j: int| if j < k { s.memory[(i + j) % 0x1000] } else { s.v[j] },
                    ));
                }
                assert(self@.v =~= load_registers(s.v, s.memory, s.index, x));
            },
            _ => {},
        }
    }
}

/// Whether pixel `p` is one of those that the sprite sets, and comes before
/// step `t` of the drawing, which visits row `r`, column `c` at step `8 * r + c`.
spec fn painted_before(s: MachineState, x0: int, y0: int, n: int, t: int, p: int) -> bool {
    sprite_covers(s.memory, s.index, x0, y0, n, p) && row_offset(p, y0) * 8 + col_offset(p, x0) < t
}

/// The screen after the first `t` steps of the drawing.
spec fn screen_at(s: MachineState, x0: int, y0: int, n: int, t: int, p: int) -> u8 {
    if painted_before(s, x0, y0, n, t, p) {
        (1 - s.video[p]) as u8
    } else {
        s.video[p]
    }
}

/// Whether one of the first `t` steps of the drawing turned off a pixel.
spec fn hit_before(s: MachineState, x0: int, y0: int, n: int, t: int) -> bool {
    exists|p: int| 0 <= p < SCREEN_SIZE && s.video[p] == 1 && #[trigger] painted_before(s, x0, y0, n, t, p)
}

impl Chip8 {
    /// Inverts pixel `p` and reports whether it was on.
    fn flip_pixel(&mut self, p: usize) -> (was_on: bool)
        requires
            old(self).wf(),
            p < SCREEN_SIZE,
        ensures
            final(self).wf(),
            was_on == (old(self)@.video[p as int] == 1),
            final(self)@ == (MachineState {
                video: old(self)@.video.update(p as int, (1 - old(self)@.video[p as int]) as u8),
                ..old(self)@
            }),
    {
        if self.video[p] == 1 {
            self.video[p] = 0;
            true
        } else {
            self.video[p] = 1;
            false
        }
    }

    /// Draws the `n`-row sprite at the address register with its top-left
    /// corner at `(Vx, Vy)`, XOR-ing it onto the screen with wraparound on
    /// both axes, and sets the flag register to 1 exactly when a pixel that
    /// was on is turned off.
    fn draw_sprite(&mut self, x: u8, y: u8, n: u8)
        requires
            old(self).wf(),
            x < 16,
            y < 16,
            n < 16,
        ensures
            final(self).wf(),
            final(self)@ == old(self)@.after_draw(x, y, n),
    {
        let x0 = self.get_vx(x as usize) % 64;
        let y0 = self.get_vx(y as usize) % 32;
        let ghost s = self@;
        let i = self.i_register;
        let mut collision = false;
        let mut r: u8 = 0;
        while r < n
            invariant
                n < 16,
                r <= n,
                x0 < 64,
                y0 < 32,
                i == s.index,
                s.wf(),
                self.wf(),
                self@ == (MachineState { video: self@.video, ..s }),
                forall|p: int|
                    0 <= p < SCREEN_SIZE ==> self@.video[p] == #[trigger] screen_at(
                        s,
                        x0 as int,
                        y0 as int,
                        n as int,
                        8 * r,
                        p,
                    ),
                collision == hit_before(s, x0 as int, y0 as int, n as int, 8 * r),
            decreases n - r,
        {
            let byte = self.memory[((i + r as u16) % 0x1000) as usize];
            let row = (y0 as usize + r as usize) % 32;
            let mut c: u8 = 0;
            while c < 8
                invariant
                    n < 16,
                    r < n,
                    c <= 8,
                    x0 < 64,
                    y0 < 32,
                    i == s.index,
                    s.wf(),
                    byte == s.memory[(s.index + r) % 0x1000],
                    row == (y0 + r) % 32,
                    self.wf(),
                    self@ == (MachineState { video: self@.video, ..s }),
                    forall|p: int|
                        0 <= p < SCREEN_SIZE ==> self@.video[p] == #[trigger] screen_at(
                            s,
                            x0 as int,
                            y0 as int,
                            n as int,
                            8 * r + c,
                            p,
                        ),
                    collision == hit_before(s, x0 as int, y0 as int, n as int, 8 * r + c),
                decreases 8 - c,
            {
                let ghost t = 8 * r + c;
                let ghost before = self@.video;
                let q = row * 64 + (x0 as usize + c as usize) % 64;
                proof {
                    lemma_pixel_position(x0 as int, y0 as int, r as int, c as int, q as int);
                    assert forall|p: int| 0 <= p < SCREEN_SIZE implies painted_before(
                        s,
                        x0 as int,
                        y0 as int,
                        n as int,
                        t + 1,
                        p,
                    ) == (painted_before(s, x0 as int, y0 as int, n as int, t, p) || (p == q
                        && sprite_covers(s.memory, s.index, x0 as int, y0 as int, n as int, p))) by {
                        lemma_pixel_position(x0 as int, y0 as int, r as int, c as int, p);
                    }
                }
                if (byte >> (7 - c)) & 1 == 1 {
                    assert(sprite_covers(s.memory, s.index, x0 as int, y0 as int, n as int, q as int));
                    let was_on = self.flip_pixel(q);
                    if was_on {
                        collision = true;
                    }
                    proof {
                        assert(!painted_before(s, x0 as int, y0 as int, n as int, t, q as int));
                        assert(before[q as int] == screen_at(s, x0 as int, y0 as int, n as int, t, q as int));
                        assert forall|p: int| 0 <= p < SCREEN_SIZE implies self@.video[p]
                            == #[trigger] screen_at(s, x0 as int, y0 as int, n as int, t + 1, p) by {
                            lemma_pixel_position(x0 as int, y0 as int, r as int, c as int, p);
                            assert(before[p] == screen_at(s, x0 as int, y0 as int, n as int, t, p));
                        }
                        if hit_before(s, x0 as int, y0 as int, n as int, t + 1) {
                            let p = choose|p: int|
                                0 <= p < SCREEN_SIZE && s.video[p] == 1 && #[trigger] painted_before(
                                    s,
                                    x0 as int,
                                    y0 as int,
                                    n as int,
                                    t + 1,
                                    p,
                                );
                            if p != q {
                                assert(painted_before(s, x0 as int, y0 as int, n as int, t, p));
                            }
                        }
                        if collision {
                            if was_on {
                                assert(painted_before(s, x0 as int, y0 as int, n as int, t + 1, q as int));
                            } else {
                                let p = choose|p: int|
                                    0 <= p < SCREEN_SIZE && s.video[p] == 1 && #[trigger] painted_before(
                                        s,
                                        x0 as int,
                                        y0 as int,
                                        n as int,
                                        t,
                                        p,
                                    );
                                assert(painted_before(s, x0 as int, y0 as int, n as int, t + 1, p));
                            }
                        }
                    }
                } else {
                    proof {
                        assert(!sprite_covers(s.memory, s.index, x0 as int, y0 as int, n as int, q as int));
                        assert forall|p: int| 0 <= p < SCREEN_SIZE implies self@.video[p]
                            == #[trigger] screen_at(s, x0 as int, y0 as int, n as int, t + 1, p) by {
                            lemma_pixel_position(x0 as int, y0 as int, r as int, c as int, p);
                            assert(before[p] == screen_at(s, x0 as int, y0 as int, n as int, t, p));
                        }
                        if hit_before(s, x0 as int, y0 as int, n as int, t + 1) {
                            let p = choose|p: int|
                                0 <= p < SCREEN_SIZE && s.video[p] == 1 && #[trigger] painted_before(
                                    s,
                                    x0 as int,
                                    y0 as int,
                                    n as int,
                                    t + 1,
                                    p,
                                );
                            assert(painted_before(s, x0 as int, y0 as int, n as int, t, p));
                        }
                        if collision {
                            let p = choose|p: int|
                                0 <= p < SCREEN_SIZE && s.video[p] == 1 && #[trigger] painted_before(
                                    s,
                                    x0 as int,
                                    y0 as int,
                                    n as int,
                                    t,
                                    p,
                                );
                            assert(painted_before(s, x0 as int, y0 as int, n as int, t + 1, p));
                        }
                    }
                }
                c = c + 1;
            }
            r = r + 1;
        }
        proof {
            let x0i = x0 as int;
            let y0i = y0 as int;
            let ni = n as int;
            assert forall|p: int| 0 <= p < SCREEN_SIZE implies painted_before(s, x0i, y0i, ni, 8 * ni, p)
                == sprite_covers(s.memory, s.index, x0i, y0i, ni, p) by {}
            assert(self@.video =~= drawn(s.video, s.memory, s.index, x0i, y0i, ni)) by {
                assert forall|p: int| 0 <= p < SCREEN_SIZE implies self@.video[p] == drawn(
                    s.video,
                    s.memory,
                    s.index,
                    x0i,
                    y0i,
                    ni,
                )[p] by {
                    assert(self@.video[p] == screen_at(s, x0i, y0i, ni, 8 * ni, p));
                }
            }
            if collision {
                let p = choose|p: int|
                    0 <= p < SCREEN_SIZE && s.video[p] == 1 && #[trigger] painted_before(
                        s,
                        x0i,
                        y0i,
                        ni,
                        8 * ni,
                        p,
                    );
                assert(sprite_covers(s.memory, s.index, x0i, y0i, ni, p));
            }
            if collides(s.video, s.memory, s.index, x0i, y0i, ni) {
                let p = choose|p: int|
                    0 <= p < s.video.len() && s.video[p] == 1 && #[trigger] sprite_covers(
                        s.memory,
                        s.index,
                        x0i,
                        y0i,
                        ni,
                        p,
                    );
                assert(painted_before(s, x0i, y0i, ni, 8 * ni, p));
            }
        }
        self.set_vx(if collision { 1 } else { 0 }, 0xF);
    }
}

impl Chip8 {
    /// Sets every pixel of the screen to 0.
    fn clear_screen(&mut self)
        requires
            old(self).wf(),
        ensures
            final(self).wf(),
            final(self)@ == old(self)@.cleared(),
    {
        self.video = [0u8; 2048];
        assert(self@.video =~= old(self)@.cleared().video);
    }

    /// Executes a decoded instruction; `rnd` is the byte that `Random` uses.
    fn execute_instruction(&mut self, ins: Instruction, rnd: u8) -> (r: Result<(), Chip8Error>)
        requires
            old(self).wf(),
            ins.operands_in_range(),
        ensures
            final(self).wf(),
            match old(self)@.execute(ins, rnd) {
                Ok(s) => r is Ok && final(self)@ == s,
                Err(e) => r == Err::<(), Chip8Error>(e) && final(self)@ == old(self)@,
            },
    {
        match ins {
            Instruction::ClearScreen => {
                self.clear_screen();
                Ok(())
            },
            Instruction::Draw { x, y, n } => {
                self.draw_sprite(x, y, n);
                Ok(())
            },
            Instruction::Unrecognized { .. } => Ok(()),
            Instruction::SetImm { .. } | Instruction::AddImm { .. } | Instruction::Copy { .. }
            | Instruction::Or { .. } | Instruction::And { .. } | Instruction::Xor { .. }
            | Instruction::AddCarry { .. } | Instruction::SubBorrow { .. }
            | Instruction::ShiftRight { .. } | Instruction::SubReverse { .. }
            | Instruction::ShiftLeft { .. } | Instruction::Random { .. } => {
                self.execute_register_op(ins, rnd);
                Ok(())
            },
            Instruction::SetIndex { .. } | Instruction::AddIndex { .. }
            | Instruction::GlyphAddress { .. } | Instruction::StoreBcd { .. }
            | Instruction::StoreRegisters { .. } | Instruction::LoadRegisters { .. }
            | Instruction::SetDelay { .. } | Instruction::SetSound { .. }
            | Instruction::ReadDelay { .. } => {
                self.execute_memory_op(ins);
                Ok(())
            },
            _ => self.execute_flow_op(ins),
        }
    }

    /// Decodes and executes one instruction word, with `rnd` as the byte
    /// that a `Random` instruction draws. The program counter is taken as
    /// already advanced past the word.
    ///
    /// Returns the instruction executed. On an error (an unknown word, a call
    /// with a full stack, a return with an empty one) the machine is left
    /// unchanged.
    pub fn execute_with_random(&mut self, instruction: u16, rnd: u8) -> (r: Result<
        Instruction,
        Chip8Error,
    >)
        requires
            old(self).wf(),
        ensures
            final(self).wf(),
            reports(r, old(self)@, final(self)@, old(self)@.run(instruction, rnd)),
    {
        match decode(instruction) {
            Ok(ins) => match self.execute_instruction(ins, rnd) {
                Ok(()) => Ok(ins),
                Err(e) => Err(e),
            },
            Err(e) => Err(e),
        }
    }

    /// A value drawn uniformly from `0..max`.
    ///
    /// Relies on rand's `thread_rng().gen_range(0..max)`, which returns a
    /// value of the range. It panics on an empty range, which `max > 0`
    /// rules out, and when the system entropy source fails while the
    /// generator is seeded or reseeded, which no precondition can rule out.
    #[verifier::external_body]
    pub fn random(&self, max: u32) -> (r: u32)
        requires
            max > 0,
        ensures
            r < max,
    {
        rand::thread_rng().gen_range(0..max)
    }

    /// Decodes and executes one instruction word; a `Random` instruction
    /// draws a fresh random byte. The program counter is taken as already
    /// advanced past the word.
    ///
    /// The outcome is that of `execute_with_random` for some byte, and for
    /// every instruction but `Random` that of `execute_with_random` itself.
    pub fn execute(&mut self, instruction: u16) -> (r: Result<Instruction, Chip8Error>)
        requires
            old(self).wf(),
        ensures
            final(self).wf(),
            exists|b: u8| reports(r, old(self)@, final(self)@, #[trigger] old(self)@.run(instruction, b)),
            !(decoded(instruction) matches Ok(Instruction::Random { .. })) ==> reports(
                r,
                old(self)@,
                final(self)@,
                old(self)@.run(instruction, 0),
            ),
    {
        let rnd = if matches!(decode(instruction), Ok(Instruction::Random { .. })) {
            self.random(256) as u8
        } else {
            0
        };
        let r = self.execute_with_random(instruction, rnd);
        assert(reports(r, old(self)@, self@, old(self)@.run(instruction, rnd)));
        r
    }

    /// One fetch-decode-execute step, with `rnd` as the byte that a `Random`
    /// instruction draws: the big-endian word at the program counter is
    /// fetched, the program counter advances by two, and the word is executed.
    ///
    /// Returns the instruction executed. On an error the program counter
    /// stays advanced past the failing word and nothing else changes.
    pub fn cycle_with_random(&mut self, rnd: u8) -> (r: Result<Instruction, Chip8Error>)
        requires
            old(self).wf(),
        ensures
            final(self).wf(),
            reports(r, old(self)@.advanced(), final(self)@, old(self)@.step(rnd)),
    {
        let pc = self.program_counter;
        let word = self.fetch();
        self.program_counter = (pc + 2) % 0x1000;
        self.execute_with_random(word, rnd)
    }

    /// One fetch-decode-execute step; a `Random` instruction draws a fresh
    /// random byte. The outcome is that of `cycle_with_random` for some byte,
    /// and for every instruction but `Random` that of `cycle_with_random(0)`.
    ///
    /// Timers are not touched: the host calls `countdown_timers` at 60 Hz,
    /// however many steps run in between.
    pub fn cycle(&mut self) -> (r: Result<Instruction, Chip8Error>)
        requires
            old(self).wf(),
        ensures
            final(self).wf(),
            exists|b: u8|
                reports(r, old(self)@.advanced(), final(self)@, #[trigger] old(self)@.step(b)),
            !(decoded(old(self)@.fetched()) matches Ok(Instruction::Random { .. })) ==> reports(
                r,
                old(self)@.advanced(),
                final(self)@,
                old(self)@.step(0),
            ),
    {
        let pc = self.program_counter;
        let word = self.fetch();
        self.program_counter = (pc + 2) % 0x1000;
        let ghost mid = self@;
        let r = self.execute(word);
        proof {
            let b = choose|b: u8| reports(r, mid, final(self)@, #[trigger] mid.run(word, b));
            assert(reports(r, old(self)@.advanced(), self@, old(self)@.step(b)));
        }
        r
    }

    /// The big-endian instruction word at the program counter.
    fn fetch(&self) -> (w: u16)
        requires
            self.wf(),
        ensures
            w == self@.fetched(),
    {
        let pc = self.program_counter as usize;
        let hi = self.memory[pc] as u16;
        let lo = self.memory[(pc + 1) % 0x1000] as u16;
        hi * 256 + lo
    }

    /// One 60 Hz timer tick: each timer that is not zero goes down by one.
    pub fn countdown_timers(&mut self)
        requires
            old(self).wf(),
        ensures
            final(self).wf(),
            final(self)@ == old(self)@.ticked(),
    {
        if self.delay_timer > 0 {
            self.delay_timer = self.delay_timer - 1;
        }
        if self.sound_timer > 0 {
            self.sound_timer = self.sound_timer - 1;
        }
    }

    /// Copies a program image into memory from address `0x200` on, leaving
    /// the rest of memory as it was. An image longer than the 3584 bytes
    /// between `0x200` and the end of memory is refused, with the machine
    /// unchanged.
    pub fn load_rom(&mut self, rom: &[u8]) -> (r: Result<(), Chip8Error>)
        requires
            old(self).wf(),
        ensures
            final(self).wf(),
            r is Ok <==> rom@.len() <= MAX_ROM_SIZE,
            r is Ok ==> final(self)@ == (MachineState {
                memory: loaded(old(self)@.memory, rom@),
                ..old(self)@
            }),
            r is Err ==> r == Err::<(), Chip8Error>(Chip8Error::RomTooLarge { len: rom@.len() as usize })
                && final(self)@ == old(self)@,
    {
        if rom.len() > MAX_ROM_SIZE {
            return Err(Chip8Error::RomTooLarge { len: rom.len() });
        }
        let ghost s = self@;
        let mut k: usize = 0;
        while k < rom.len()
            invariant
                k <= rom@.len() <= MAX_ROM_SIZE,
                s.wf(),
                self.wf(),
                self@ == (MachineState { memory: self@.memory, ..s }),
                forall|a: int|
                    0 <= a < MEMORY_SIZE ==> #[trigger] self@.memory[a] == if PROGRAM_START <= a
                        < PROGRAM_START + k {
                        rom@[a - PROGRAM_START]
                    } else {
                        s.memory[a]
                    },
            decreases rom@.len() - k,
        {
            self.memory[PROGRAM_START as usize + k] = rom[k];
            k = k + 1;
            assert(self@.memory.subrange(0, FONT_SIZE as int) =~= s.memory.subrange(
                0,
                FONT_SIZE as int,
            ));
        }
        assert(self@.memory =~= loaded(s.memory, rom@));
        Ok(())
    }
}

/// Whether bit `7 - c` of `b | (0x80 >> c)` is set: exactly when it is set
/// in `b` or `j` is `c`.
proof fn lemma_set_sprite_bit(b: u8, c: u8, j: u8)
    requires
        c < 8,
        j < 8,
    ensures
        ((b | (0x80u8 >> c)) >> (7 - j) as u8) & 1 == 1 <==> ((b >> (7 - j) as u8) & 1 == 1 || j
            == c),
{
    assert(((b | (0x80u8 >> c)) >> (7 - j) as u8) & 1 == 1 <==> ((b >> (7 - j) as u8) & 1 == 1
        || j == c)) by (bit_vector)
        requires
            c < 8,
            j < 8,
    ;
}

impl Chip8 {
    /// The address of the next instruction.
    pub fn get_pc(&self) -> (r: u16)
        ensures
            r == self@.pc,
    {
        self.program_counter
    }

    /// The address register.
    pub fn get_i_register(&self) -> (r: &u16)
        ensures
            *r == self@.index,
    {
        &self.i_register
    }

    /// The number of return addresses on the call stack.
    pub fn get_sp(&self) -> (r: &u8)
        ensures
            *r == self@.sp,
    {
        &self.sp
    }

    /// Marks keypad key `key` as pressed (`state == true`) or released.
    pub fn press_key(&mut self, key: u8, state: bool)
        requires
            old(self).wf(),
            key < KEY_COUNT,
        ensures
            final(self).wf(),
            final(self)@ == (MachineState {
                keys: old(self)@.keys.update(key as int, state),
                ..old(self)@
            }),
    {
        self.input.press(key, state);
    }

    /// The delay timer.
    pub fn get_delay_timer(&self) -> (r: u8)
        ensures
            r == self@.delay,
    {
        self.delay_timer
    }

    /// The sound timer; the host sounds a tone while it is not zero.
    pub fn get_sound_timer(&self) -> (r: u8)
        ensures
            r == self@.sound,
    {
        self.sound_timer
    }

    /// A copy of the screen, row by row; each cell is 0 or 1.
    pub fn get_screen(&self) -> (r: [u8; 2048])
        ensures
            r@ == self@.video,
    {
        self.video
    }

    /// Packs the eight pixels of `video` that start at column `x % 64` of row
    /// `y % 32` (wrapping at the right edge) into a byte, the leftmost pixel
    /// in the most significant bit; a pixel counts as set when its cell is
    /// not zero.
    pub fn get_sprite_row(&self, x: u32, y: u32, video: [u8; 2048]) -> (r: u8)
        ensures
            forall|c: int|
                0 <= c < 8 ==> #[trigger] sprite_bit(r, c) == (video@[(y % 32) * 64 + (x % 64 + c)
                    % 64] != 0),
    {
        let row = (y % 32) as usize;
        let col = (x % 64) as usize;
        let mut bits: u8 = 0;
        let mut c: u8 = 0;
        assert(forall|k: u8| (0u8 >> k) & 1 == 0) by (bit_vector);
        while c < 8
            invariant
                c <= 8,
                row == y % 32,
                col == x % 64,
                forall|j: int|
                    0 <= j < 8 ==> #[trigger] sprite_bit(bits, j) == (j < c && video@[row * 64 + (col
                        + j) % 64] != 0),
            decreases 8 - c,
        {
            let set = video[row * 64 + (col + c as usize) % 64] != 0;
            let ghost old_bits = bits;
            if set {
                bits = bits | (0x80u8 >> c);
            }
            assert forall|j: int| 0 <= j < 8 implies #[trigger] sprite_bit(bits, j) == (j < c + 1
                && video@[row * 64 + (col + j) % 64] != 0) by {
                lemma_set_sprite_bit(old_bits, c, j as u8);
                assert(sprite_bit(old_bits, j) == (j < c && video@[row * 64 + (col + j) % 64] != 0));
            }
            c = c + 1;
        }
        bits
    }

    /// The value of register `V0`.
    pub fn get_v0(&self) -> (r: u8)
        ensures
            r == self@.v[0],
    {
        self.registers[0]
    }

    /// The value of register `V1`.
    pub fn get_v1(&self) -> (r: u8)
        ensures
            r == self@.v[1],
    {
        self.registers[1]
    }

    /// The value of register `V2`.
    pub fn get_v2(&self) -> (r: u8)
        ensures
            r == self@.v[2],
    {
        self.registers[2]
    }

    /// The value of register `V3`.
    pub fn get_v3(&self) -> (r: u8)
        ensures
            r == self@.v[3],
    {
        self.registers[3]
    }

    /// The value of register `V4`.
    pub fn get_v4(&self) -> (r: u8)
        ensures
            r == self@.v[4],
    {
        self.registers[4]
    }

    /// The value of register `V5`.
    pub fn get_v5(&self) -> (r: u8)
        ensures
            r == self@.v[5],
    {
        self.registers[5]
    }

    /// The value of register `V6`.
    pub fn get_v6(&self) -> (r: u8)
        ensures
            r == self@.v[6],
    {
        self.registers[6]
    }

    /// The value of register `V7`.
    pub fn get_v7(&self) -> (r: u8)
        ensures
            r == self@.v[7],
    {
        self.registers[7]
    }

    /// The value of register `V8`.
    pub fn get_v8(&self) -> (r: u8)
        ensures
            r == self@.v[8],
    {
        self.registers[8]
    }

    /// The value of register `V9`.
    pub fn get_v9(&self) -> (r: u8)
        ensures
            r == self@.v[9],
    {
        self.registers[9]
    }

    /// The value of register `VA`.
    pub fn get_va(&self) -> (r: u8)
        ensures
            r == self@.v[10],
    {
        self.registers[10]
    }

    /// The value of register `VB`.
    pub fn get_vb(&self) -> (r: u8)
        ensures
            r == self@.v[11],
    {
        self.registers[11]
    }

    /// The value of register `VC`.
    pub fn get_vc(&self) -> (r: u8)
        ensures
            r == self@.v[12],
    {
        self.registers[12]
    }

    /// The value of register `VD`.
    pub fn get_vd(&self) -> (r: u8)
        ensures
            r == self@.v[13],
    {
        self.registers[13]
    }

    /// The value of register `VE`.
    pub fn get_ve(&self) -> (r: u8)
        ensures
            r == self@.v[14],
    {
        self.registers[14]
    }

    /// The value of register `VF`.
    pub fn get_vf(&self) -> (r: u8)
        ensures
            r == self@.v[15],
    {
        self.registers[15]
    }
}

} // verus!
