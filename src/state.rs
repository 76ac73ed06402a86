use vstd::prelude::*;
use vstd::arithmetic::div_mod::{lemma_fundamental_div_mod, lemma_fundamental_div_mod_converse};
use crate::error::Chip8Error;
use crate::font::{glyphs, FONT_SIZE};
use crate::input::{key_down, lowest_pressed, KEY_COUNT};
use crate::instruction::{decoded, Instruction};

verus! {

/// Bytes of addressable memory.
pub const MEMORY_SIZE: usize = 4096;

/// Address at which programs are loaded and execution starts.
pub const PROGRAM_START: u16 = 0x200;

/// Screen width in pixels.
pub const SCREEN_WIDTH: usize = 64;

/// Screen height in pixels.
pub const SCREEN_HEIGHT: usize = 32;

/// Number of pixels on the screen.
pub const SCREEN_SIZE: usize = 2048;

/// Number of general-purpose registers, and of call-stack levels.
pub const REGISTER_COUNT: usize = 16;

/// The register that receives carry, borrow, shift and collision flags.
pub const FLAG: u8 = 15;

/// The whole state of the machine, as mathematical values.
pub struct MachineState {
    /// Address of the next instruction.
    pub pc: u16,
    /// The address register.
    pub index: u16,
    /// The sixteen general-purpose registers `V0` to `VF`.
    pub v: Seq<u8>,
    /// Number of return addresses on the call stack.
    pub sp: u8,
    /// The call stack; entries below `sp` are live.
    pub stack: Seq<u16>,
    pub delay: u8,
    pub sound: u8,
    pub memory: Seq<u8>,
    /// The screen, row by row: pixel `(col, row)` is `video[row * 64 + col]`.
    pub video: Seq<u8>,
    /// The keypad.
    pub keys: Seq<bool>,
}

/// Adds two to an address, modulo the memory size.
pub open spec fn advance(pc: u16) -> u16 {
    ((pc + 2) % 0x1000) as u16
}

/// Subtracts two from an address, modulo the memory size.
pub open spec fn rewind(pc: u16) -> u16 {
    ((pc + 0x1000 - 2) % 0x1000) as u16
}

/// `mem` after a program write of `b` at `addr`: the glyph region is read-only.
pub open spec fn write_byte(mem: Seq<u8>, addr: int, b: u8) -> Seq<u8> {
    if FONT_SIZE <= addr {
        mem.update(addr, b)
    } else {
        mem
    }
}

/// `mem` after `V0`, ..., `V(count-1)` are written, in that order, from `index` on.
pub open spec fn store_registers(mem: Seq<u8>, index: u16, v: Seq<u8>, count: nat) -> Seq<u8>
    decreases count,
{
    if count == 0 {
        mem
    } else {
        let k = (count - 1) as nat;
        write_byte(store_registers(mem, index, v, k), (index + k) % 0x1000, v[k as int])
    }
}

/// `v` after `V0..=Vx` are loaded from memory from `index` on.
pub open spec fn load_registers(v: Seq<u8>, mem: Seq<u8>, index: u16, x: u8) -> Seq<u8> {
    Seq::new(v.len(), |i: int| if i <= x { mem[(index + i) % 0x1000] } else { v[i] })
}

/// Whether bit `c` of a sprite row is set, counting from the most significant bit.
pub open spec fn sprite_bit(row: u8, c: int) -> bool {
    (row >> ((7 - c) as u8)) & 1 == 1
}

/// Whether the sprite of `n` rows at `index`, drawn with its top-left corner
/// at `(x0, y0)`, sets pixel `p` (`x0 < 64`, `y0 < 32`). Both axes wrap.
pub open spec fn sprite_covers(mem: Seq<u8>, index: u16, x0: int, y0: int, n: int, p: int) -> bool {
    let dr = row_offset(p, y0);
    let dc = col_offset(p, x0);
    dr < n && dc < 8 && sprite_bit(mem[(index + dr) % 0x1000], dc)
}

/// How many rows below row `y0` pixel `p` lies, wrapping at the bottom edge.
pub open spec fn row_offset(p: int, y0: int) -> int {
    (p / 64 - y0) % 32
}

/// How many columns right of column `x0` pixel `p` lies, wrapping at the right edge.
pub open spec fn col_offset(p: int, x0: int) -> int {
    (p % 64 - x0) % 64
}

/// The screen after the sprite is XOR-ed onto it.
pub open spec fn drawn(video: Seq<u8>, mem: Seq<u8>, index: u16, x0: int, y0: int, n: int) -> Seq<u8> {
    Seq::new(
        video.len(),
        |p: int|
            if sprite_covers(mem, index, x0, y0, n, p) {
                (1 - video[p]) as u8
            } else {
                video[p]
            },
    )
}

/// Whether drawing turns off some pixel that was on.
pub open spec fn collides(video: Seq<u8>, mem: Seq<u8>, index: u16, x0: int, y0: int, n: int) -> bool {
    exists|p: int|
        0 <= p < video.len() && video[p] == 1 && #[trigger] sprite_covers(mem, index, x0, y0, n, p)
}

impl MachineState {
    /// The invariant that every reachable state keeps.
    pub open spec fn wf(self) -> bool {
        &&& self.pc < MEMORY_SIZE
        &&& self.index < MEMORY_SIZE
        &&& self.v.len() == REGISTER_COUNT
        &&& self.sp <= REGISTER_COUNT
        &&& self.stack.len() == REGISTER_COUNT
        &&& forall|i: int| 0 <= i < REGISTER_COUNT ==> #[trigger] self.stack[i] < MEMORY_SIZE
        &&& self.memory.len() == MEMORY_SIZE
        &&& self.memory.subrange(0, FONT_SIZE as int) == glyphs()
        &&& self.video.len() == SCREEN_SIZE
        &&& forall|p: int| 0 <= p < SCREEN_SIZE ==> #[trigger] self.video[p] <= 1
        &&& self.keys.len() == KEY_COUNT
    }

    /// The state with register `x` set to `b`.
    pub open spec fn with_reg(self, x: u8, b: u8) -> MachineState {
        MachineState { v: self.v.update(x as int, b), ..self }
    }

    /// The state with register `x` set to `b` and then the flag register to `f`.
    pub open spec fn with_reg_then_flag(self, x: u8, b: u8, f: u8) -> MachineState {
        MachineState { v: self.v.update(x as int, b).update(FLAG as int, f), ..self }
    }

    /// The state with the flag register set to `f` and then register `x` to `b`.
    pub open spec fn with_flag_then_reg(self, x: u8, b: u8, f: u8) -> MachineState {
        MachineState { v: self.v.update(FLAG as int, f).update(x as int, b), ..self }
    }

    /// The state that skips the next instruction when `cond` holds.
    pub open spec fn skip_if(self, cond: bool) -> MachineState {
        if cond {
            MachineState { pc: advance(self.pc), ..self }
        } else {
            self
        }
    }

    /// The state after the screen is cleared.
    pub open spec fn cleared(self) -> MachineState {
        MachineState { video: Seq::new(SCREEN_SIZE as nat, |p: int| 0u8), ..self }
    }

    /// The state after the `n`-row sprite at the address register is drawn at
    /// `(Vx, Vy)`, with the flag register recording a collision.
    pub open spec fn after_draw(self, x: u8, y: u8, n: u8) -> MachineState {
        let x0 = self.v[x as int] % 64;
        let y0 = self.v[y as int] % 32;
        MachineState {
            video: drawn(self.video, self.memory, self.index, x0 as int, y0 as int, n as int),
            v: self.v.update(
                FLAG as int,
                if collides(self.video, self.memory, self.index, x0 as int, y0 as int, n as int) {
                    1u8
                } else {
                    0u8
                },
            ),
            ..self
        }
    }

    /// The outcome of executing `ins` (already fetched, `pc` already advanced),
    /// where `rnd` is the random byte that a `Random` instruction draws.
    pub open spec fn execute(self, ins: Instruction, rnd: u8) -> Result<MachineState, Chip8Error> {
        let v = self.v;
        match ins {
            Instruction::ClearScreen => Ok(self.cleared()),
            Instruction::Return => if self.sp == 0 {
                Err(Chip8Error::StackUnderflow)
            } else {
                Ok(
                    MachineState {
                        sp: (self.sp - 1) as u8,
                        pc: self.stack[self.sp - 1],
                        ..self
                    },
                )
            },
            Instruction::Jump { addr } => Ok(MachineState { pc: addr, ..self }),
            Instruction::Call { addr } => if self.sp >= REGISTER_COUNT {
                Err(Chip8Error::StackOverflow)
            } else {
                Ok(
                    MachineState {
                        stack: self.stack.update(self.sp as int, self.pc),
                        sp: (self.sp + 1) as u8,
                        pc: addr,
                        ..self
                    },
                )
            },
            Instruction::SkipIfEqualImm { x, nn } => Ok(self.skip_if(v[x as int] == nn)),
            Instruction::SkipIfNotEqualImm { x, nn } => Ok(self.skip_if(v[x as int] != nn)),
            Instruction::SkipIfEqualReg { x, y } => Ok(self.skip_if(v[x as int] == v[y as int])),
            Instruction::SetImm { x, nn } => Ok(self.with_reg(x, nn)),
            Instruction::AddImm { x, nn } => Ok(self.with_reg(x, ((v[x as int] + nn) % 256) as u8)),
            Instruction::Copy { x, y } => Ok(self.with_reg(x, v[y as int])),
            Instruction::Or { x, y } => Ok(self.with_reg(x, v[x as int] | v[y as int])),
            Instruction::And { x, y } => Ok(self.with_reg(x, v[x as int] & v[y as int])),
            Instruction::Xor { x, y } => Ok(self.with_reg(x, v[x as int] ^ v[y as int])),
            Instruction::AddCarry { x, y } => {
                let sum = v[x as int] + v[y as int];
                Ok(self.with_reg_then_flag(x, (sum % 256) as u8, if sum > 255 { 1 } else { 0 }))
            },
            Instruction::SubBorrow { x, y } => Ok(
                self.with_flag_then_reg(
                    x,
                    ((v[x as int] - v[y as int]) % 256) as u8,
                    if v[x as int] >= v[y as int] { 1 } else { 0 },
                ),
            ),
            Instruction::ShiftRight { x, .. } => Ok(
                self.with_flag_then_reg(x, v[x as int] / 2, v[x as int] % 2),
            ),
            Instruction::SubReverse { x, y } => Ok(
                self.with_flag_then_reg(
                    x,
                    ((v[y as int] - v[x as int]) % 256) as u8,
                    if v[y as int] >= v[x as int] { 1 } else { 0 },
                ),
            ),
            Instruction::ShiftLeft { x, .. } => Ok(
                self.with_flag_then_reg(x, ((v[x as int] * 2) % 256) as u8, v[x as int] / 128),
            ),
            Instruction::SkipIfNotEqualReg { x, y } => Ok(self.skip_if(v[x as int] != v[y as int])),
            Instruction::SetIndex { addr } => Ok(MachineState { index: addr, ..self }),
            Instruction::JumpOffset { addr } => Ok(
                MachineState { pc: ((addr + v[0]) % 0x1000) as u16, ..self },
            ),
            Instruction::Random { x, nn } => Ok(self.with_reg(x, rnd & nn)),
            Instruction::Draw { x, y, n } => Ok(self.after_draw(x, y, n)),
            Instruction::SkipIfPressed { x } => Ok(self.skip_if(key_down(self.keys, v[x as int]))),
            Instruction::SkipIfNotPressed { x } => Ok(
                self.skip_if(!key_down(self.keys, v[x as int])),
            ),
            Instruction::ReadDelay { x } => Ok(self.with_reg(x, self.delay)),
            Instruction::WaitKey { x } => {
                let k = lowest_pressed(self.keys, 0);
                if k < KEY_COUNT {
                    Ok(self.with_reg(x, k as u8))
                } else {
                    Ok(MachineState { pc: rewind(self.pc), ..self })
                }
            },
            Instruction::SetDelay { x } => Ok(MachineState { delay: v[x as int], ..self }),
            Instruction::SetSound { x } => Ok(MachineState { sound: v[x as int], ..self }),
            Instruction::AddIndex { x } => Ok(
                MachineState { index: ((self.index + v[x as int]) % 0x1000) as u16, ..self },
            ),
            Instruction::GlyphAddress { x } => Ok(
                MachineState { index: (v[x as int] * 5) as u16, ..self },
            ),
            Instruction::StoreBcd { x } => {
                let b = v[x as int];
                let i = self.index;
                Ok(
                    MachineState {
                        memory: write_byte(
                            write_byte(
                                write_byte(self.memory, i as int, b / 100),
                                (i + 1) % 0x1000,
                                (b % 100) / 10,
                            ),
                            (i + 2) % 0x1000,
                            b % 10,
                        ),
                        ..self
                    },
                )
            },
            Instruction::StoreRegisters { x } => Ok(
                MachineState {
                    memory: store_registers(self.memory, self.index, v, (x + 1) as nat),
                    ..self
                },
            ),
            Instruction::LoadRegisters { x } => Ok(
                MachineState { v: load_registers(v, self.memory, self.index, x), ..self },
            ),
            Instruction::Unrecognized { .. } => Ok(self),
        }
    }

    /// The state after one timer tick: each non-zero timer goes down by one.
    pub open spec fn ticked(self) -> MachineState {
        MachineState {
            delay: if self.delay > 0 { (self.delay - 1) as u8 } else { 0 },
            sound: if self.sound > 0 { (self.sound - 1) as u8 } else { 0 },
            ..self
        }
    }

    /// The instruction word at `pc`, high byte first.
    pub open spec fn fetched(self) -> u16 {
        (self.memory[self.pc as int] * 256 + self.memory[(self.pc + 1) % 0x1000]) as u16
    }
}

} // verus!

verus! {

/// The state of a freshly built machine: everything zero except the program
/// counter, which is at the program start, and the glyphs at the start of memory.
pub open spec fn initial_state() -> MachineState {
    MachineState {
        pc: PROGRAM_START,
        index: 0,
        v: Seq::new(REGISTER_COUNT as nat, |i: int| 0u8),
        sp: 0,
        stack: Seq::new(REGISTER_COUNT as nat, |i: int| 0u16),
        delay: 0,
        sound: 0,
        memory: glyphs() + Seq::new((MEMORY_SIZE - FONT_SIZE) as nat, |a: int| 0u8),
        video: Seq::new(SCREEN_SIZE as nat, |p: int| 0u8),
        keys: Seq::new(KEY_COUNT as nat, |k: int| false),
    }
}

impl MachineState {
    /// The outcome of executing the instruction word `w` (already fetched):
    /// the decoded instruction and the next state, or the error.
    pub open spec fn run(self, w: u16, rnd: u8) -> Result<(Instruction, MachineState), Chip8Error> {
        match decoded(w) {
            Ok(ins) => match self.execute(ins, rnd) {
                Ok(t) => Ok((ins, t)),
                Err(e) => Err(e),
            },
            Err(e) => Err(e),
        }
    }

    /// The state with the program counter moved past the instruction word at it.
    pub open spec fn advanced(self) -> MachineState {
        MachineState { pc: advance(self.pc), ..self }
    }

    /// The outcome of one fetch-decode-execute step: the word at `pc` is
    /// fetched, `pc` advances by two, and the word is executed. A step that
    /// fails leaves the machine in `self.advanced()`.
    pub open spec fn step(self, rnd: u8) -> Result<(Instruction, MachineState), Chip8Error> {
        self.advanced().run(self.fetched(), rnd)
    }

    /// The outcome of one step per byte of `rnds`, each step drawing its byte
    /// for a `Random` instruction: the instructions executed, in order, and
    /// the final state; or the first error.
    pub open spec fn steps(self, rnds: Seq<u8>) -> Result<(Seq<Instruction>, MachineState), Chip8Error>
        decreases rnds.len(),
    {
        if rnds.len() == 0 {
            Ok((Seq::empty(), self))
        } else {
            match self.step(rnds[0]) {
                Ok((ins, t)) => match t.steps(rnds.drop_first()) {
                    Ok((more, u)) => Ok((seq![ins] + more, u)),
                    Err(e) => Err(e),
                },
                Err(e) => Err(e),
            }
        }
    }
}

/// Whether a call that returned `r`, and took the machine from `before` to
/// `after`, did what `expected` describes: on success it returns the
/// instruction and reaches the state given; on an error it returns the error
/// and leaves the machine as it was.
pub open spec fn reports(
    r: Result<Instruction, Chip8Error>,
    before: MachineState,
    after: MachineState,
    expected: Result<(Instruction, MachineState), Chip8Error>,
) -> bool {
    match expected {
        Ok((ins, t)) => r == Ok::<Instruction, Chip8Error>(ins) && after == t,
        Err(e) => r == Err::<Instruction, Chip8Error>(e) && after == before,
    }
}

/// Largest program image that fits between the program start and the end of memory.
pub const MAX_ROM_SIZE: usize = 3584;

/// Memory after `rom` is copied in from the program start on.
pub open spec fn loaded(mem: Seq<u8>, rom: Seq<u8>) -> Seq<u8> {
    mem.subrange(0, PROGRAM_START as int) + rom + mem.subrange(
        PROGRAM_START + rom.len(),
        MEMORY_SIZE as int,
    )
}

/// On a wrapping axis of 32 positions, position `a` lies `d` steps after
/// `base` exactly when `a` is `(base + d) % 32`.
proof fn lemma_row_wrap(a: int, base: int, d: int)
    requires
        0 <= a < 32,
        0 <= base < 32,
        0 <= d < 32,
    ensures
        ((a - base) % 32 == d) <==> (a == (base + d) % 32),
{
    lemma_fundamental_div_mod(a - base, 32);
    lemma_fundamental_div_mod(base + d, 32);
}

/// On a wrapping axis of 64 positions, position `a` lies `d` steps after
/// `base` exactly when `a` is `(base + d) % 64`.
proof fn lemma_col_wrap(a: int, base: int, d: int)
    requires
        0 <= a < 64,
        0 <= base < 64,
        0 <= d < 64,
    ensures
        ((a - base) % 64 == d) <==> (a == (base + d) % 64),
{
    lemma_fundamental_div_mod(a - base, 64);
    lemma_fundamental_div_mod(base + d, 64);
}

/// The pixel of sprite row `r` and column `c` drawn at `(x0, y0)` is the one
/// at `((y0 + r) % 32) * 64 + (x0 + c) % 64`, and no other pixel has those offsets.
pub proof fn lemma_pixel_position(x0: int, y0: int, r: int, c: int, p: int)
    requires
        0 <= x0 < 64,
        0 <= y0 < 32,
        0 <= r < 32,
        0 <= c < 64,
        0 <= p < SCREEN_SIZE,
    ensures
        0 <= ((y0 + r) % 32) * 64 + (x0 + c) % 64 < SCREEN_SIZE,
        row_offset(((y0 + r) % 32) * 64 + (x0 + c) % 64, y0) == r,
        col_offset(((y0 + r) % 32) * 64 + (x0 + c) % 64, x0) == c,
        row_offset(p, y0) == r && col_offset(p, x0) == c ==> p == ((y0 + r) % 32) * 64 + (x0
            + c) % 64,
{
    let row = (y0 + r) % 32;
    let col = (x0 + c) % 64;
    let q = row * 64 + col;
    lemma_fundamental_div_mod_converse(q, 64, row, col);
    lemma_row_wrap(row, y0, r);
    lemma_col_wrap(col, x0, c);
    lemma_fundamental_div_mod(p, 64);
    let pr = p / 64;
    let pc = p % 64;
    assert(0 <= pr < 32);
    lemma_row_wrap(pr, y0, r);
    lemma_col_wrap(pc, x0, c);
}

} // verus!
