use vstd::prelude::*;
use crate::error::Chip8Error;
use crate::input::{lemma_none_pressed, lemma_only_pressed, KEY_COUNT};
use crate::instruction::{decoded, Instruction};
use crate::state::{
    advance, lemma_pixel_position, sprite_bit, sprite_covers, MachineState, FLAG, MEMORY_SIZE, REGISTER_COUNT,
    SCREEN_SIZE,
};

verus! {

/// Setting register `x` to `nn` and reading `x` back yields `nn`; adding `nn`
/// to register `x` leaves `(Vx + nn) % 256` there. Nothing else changes.
pub proof fn set_and_add_immediate(s: MachineState, x: u8, nn: u8, rnd: u8)
    requires
        s.wf(),
        x < REGISTER_COUNT,
    ensures
        s.execute(Instruction::SetImm { x, nn }, rnd) matches Ok(t) && t.v[x as int] == nn
            && t == s.with_reg(x, nn),
        s.execute(Instruction::AddImm { x, nn }, rnd) matches Ok(t) && t.v[x as int] == (s.v[x
            as int] + nn) % 256 && t == s.with_reg(x, t.v[x as int]),
{
}

/// A call followed by a return comes back to the program counter and stack
/// depth from before the call, as long as the stack had room for the call.
pub proof fn call_then_return(s: MachineState, addr: u16, rnd: u8)
    requires
        s.wf(),
        addr < MEMORY_SIZE,
        s.sp < REGISTER_COUNT,
    ensures
        s.execute(Instruction::Call { addr }, rnd) matches Ok(t) && t.pc == addr && (t.execute(
            Instruction::Return,
            rnd,
        ) matches Ok(u) && u.pc == s.pc && u.sp == s.sp),
{
}

/// The condition that a conditional-skip instruction tests.
pub open spec fn skip_condition(s: MachineState, ins: Instruction) -> bool {
    match ins {
        Instruction::SkipIfEqualImm { x, nn } => s.v[x as int] == nn,
        Instruction::SkipIfNotEqualImm { x, nn } => s.v[x as int] != nn,
        Instruction::SkipIfEqualReg { x, y } => s.v[x as int] == s.v[y as int],
        Instruction::SkipIfNotEqualReg { x, y } => s.v[x as int] != s.v[y as int],
        Instruction::SkipIfPressed { x } => s.v[x as int] < KEY_COUNT && s.keys[s.v[x as int] as int],
        Instruction::SkipIfNotPressed { x } => !(s.v[x as int] < KEY_COUNT && s.keys[s.v[x
            as int] as int]),
        _ => false,
    }
}

/// A conditional skip moves the program counter on by exactly 2 (modulo the
/// memory size) when its condition holds and leaves it where it is otherwise;
/// it changes nothing else.
pub proof fn conditional_skip(s: MachineState, ins: Instruction, rnd: u8)
    requires
        s.wf(),
        ins.operands_in_range(),
        ins is SkipIfEqualImm || ins is SkipIfNotEqualImm || ins is SkipIfEqualReg
            || ins is SkipIfNotEqualReg || ins is SkipIfPressed || ins is SkipIfNotPressed,
    ensures
        s.execute(ins, rnd) matches Ok(t) && t == (MachineState {
            pc: if skip_condition(s, ins) { ((s.pc + 2) % 0x1000) as u16 } else { s.pc },
            ..s
        }),
{
}

/// Drawing wraps each axis on its own: sprite row `r`, column `c` lands on
/// column `(x0 + c) % 64` of row `(y0 + r) % 32`, so a sprite crossing the
/// right edge continues at column 0 of the same row. That pixel is inverted
/// exactly when the sprite bit is set.
pub proof fn draw_wraps_per_axis(s: MachineState, x: u8, y: u8, n: u8, r: int, c: int, rnd: u8)
    requires
        s.wf(),
        x < REGISTER_COUNT,
        y < REGISTER_COUNT,
        n < 16,
        0 <= r < n,
        0 <= c < 8,
    ensures
        ({
            let x0 = s.v[x as int] % 64;
            let y0 = s.v[y as int] % 32;
            let p = ((y0 + r) % 32) * 64 + (x0 + c) % 64;
            let bit = sprite_bit(s.memory[(s.index + r) % 0x1000], c);
            s.execute(Instruction::Draw { x, y, n }, rnd) matches Ok(t) && t.video[p] == if bit {
                1 - s.video[p]
            } else {
                s.video[p] as int
            }
        }),
{
    let x0 = s.v[x as int] % 64;
    let y0 = s.v[y as int] % 32;
    lemma_pixel_position(x0 as int, y0 as int, r, c, 0);
}

/// Drawing the same sprite at the same place twice in succession restores
/// the screen: every pixel that the first draw turned on, the second turns
/// off. So the second draw reports a collision exactly when the first turned
/// some pixel on (on a blank screen: when the sprite has a set bit). The
/// coordinates must not be read from the flag register, which the first draw
/// overwrites.
pub proof fn draw_twice_restores(s: MachineState, x: u8, y: u8, n: u8, rnd: u8)
    requires
        s.wf(),
        x < REGISTER_COUNT && x != FLAG,
        y < REGISTER_COUNT && y != FLAG,
        n < 16,
    ensures
        s.execute(Instruction::Draw { x, y, n }, rnd) matches Ok(t) && (t.execute(
            Instruction::Draw { x, y, n },
            rnd,
        ) matches Ok(u) && u.video == s.video && (u.v[FLAG as int] == 1 <==> exists|p: int|
            0 <= p < SCREEN_SIZE && s.video[p] == 0 && #[trigger] sprite_covers(
                s.memory,
                s.index,
                (s.v[x as int] % 64) as int,
                (s.v[y as int] % 32) as int,
                n as int,
                p,
            ))),
{
    let x0 = (s.v[x as int] % 64) as int;
    let y0 = (s.v[y as int] % 32) as int;
    let t = s.after_draw(x, y, n);
    let u = t.after_draw(x, y, n);
    assert(s.execute(Instruction::Draw { x, y, n }, rnd) == Ok::<MachineState, Chip8Error>(t));
    assert(t.execute(Instruction::Draw { x, y, n }, rnd) == Ok::<MachineState, Chip8Error>(u));
    assert(t.v[x as int] == s.v[x as int] && t.v[y as int] == s.v[y as int]);
    assert(t.memory == s.memory && t.index == s.index);
    assert forall|p: int| 0 <= p < SCREEN_SIZE implies #[trigger] u.video[p] == s.video[p] by {
        assert(s.video[p] <= 1);
    }
    assert(u.video =~= s.video);
    if exists|p: int|
        0 <= p < SCREEN_SIZE && s.video[p] == 0 && #[trigger] sprite_covers(
            s.memory,
            s.index,
            x0,
            y0,
            n as int,
            p,
        )
    {
        let p = choose|p: int|
            0 <= p < SCREEN_SIZE && s.video[p] == 0 && #[trigger] sprite_covers(
                s.memory,
                s.index,
                x0,
                y0,
                n as int,
                p,
            );
        assert(t.video[p] == 1);
    }
    if u.v[FLAG as int] == 1 {
        let p = choose|p: int|
            0 <= p < t.video.len() && t.video[p] == 1 && #[trigger] sprite_covers(
                t.memory,
                t.index,
                x0,
                y0,
                n as int,
                p,
            );
        assert(s.video[p] == 0);
    }
}

/// A step on the wait-for-key instruction with no key down leaves the whole
/// machine, program counter included, as it was; so does every later step
/// until a key goes down.
pub proof fn wait_key_blocks(s: MachineState, x: u8, rnd: u8)
    requires
        s.wf(),
        decoded(s.fetched()) == Ok::<Instruction, Chip8Error>(Instruction::WaitKey { x }),
        forall|k: int| 0 <= k < KEY_COUNT ==> !#[trigger] s.keys[k],
    ensures
        s.step(rnd) == Ok::<(Instruction, MachineState), Chip8Error>(
            (Instruction::WaitKey { x }, s),
        ),
{
    lemma_none_pressed(s.keys, 0);
    let m = MachineState { pc: advance(s.pc), ..s };
    assert(m.execute(Instruction::WaitKey { x }, rnd) == Ok::<MachineState, Chip8Error>(s));
}

/// A step on the wait-for-key instruction with key `k` alone held down
/// stores `k` in the target register and moves past the instruction.
pub proof fn wait_key_resumes(s: MachineState, x: u8, k: u8, rnd: u8)
    requires
        s.wf(),
        decoded(s.fetched()) == Ok::<Instruction, Chip8Error>(Instruction::WaitKey { x }),
        k < KEY_COUNT,
        s.keys[k as int],
        forall|j: int| 0 <= j < KEY_COUNT && j != k ==> !#[trigger] s.keys[j],
    ensures
        s.step(rnd) matches Ok((ins, t)) && ins == (Instruction::WaitKey { x }) && t.v[x as int]
            == k && t.pc == advance(s.pc) && t == (MachineState {
            pc: advance(s.pc),
            ..s.with_reg(x, k)
        }),
{
    lemma_only_pressed(s.keys, k as int, 0);
}

/// Steps never count the timers down: a step leaves both timers as they
/// were unless it executes an instruction that sets one of them. A timer
/// tick lowers each timer that is not zero by exactly one and leaves a zero
/// timer at zero.
pub proof fn timers_tick_apart_from_steps(s: MachineState, rnd: u8)
    requires
        s.wf(),
    ensures
        s.step(rnd) matches Ok((ins, t)) ==> (ins is SetDelay || t.delay == s.delay) && (
        ins is SetSound || t.sound == s.sound),
        s.ticked().delay == if s.delay > 0 { s.delay - 1 } else { 0 },
        s.ticked().sound == if s.sound > 0 { s.sound - 1 } else { 0 },
        s.ticked() == (MachineState { delay: s.ticked().delay, sound: s.ticked().sound, ..s }),
{
}

/// With no key down, any number of steps in a row on the wait-for-key
/// instruction execute that instruction each time and leave the whole
/// machine, program counter and registers included, as it was.
pub proof fn wait_key_blocks_every_step(s: MachineState, x: u8, rnds: Seq<u8>)
    requires
        s.wf(),
        decoded(s.fetched()) == Ok::<Instruction, Chip8Error>(Instruction::WaitKey { x }),
        forall|k: int| 0 <= k < KEY_COUNT ==> !#[trigger] s.keys[k],
    ensures
        s.steps(rnds) == Ok::<(Seq<Instruction>, MachineState), Chip8Error>(
            (Seq::new(rnds.len(), |i: int| Instruction::WaitKey { x }), s),
        ),
    decreases rnds.len(),
{
    if rnds.len() == 0 {
        assert(Seq::<Instruction>::empty() =~= Seq::new(0, |i: int| Instruction::WaitKey { x }));
    } else {
        wait_key_blocks(s, x, rnds[0]);
        wait_key_blocks_every_step(s, x, rnds.drop_first());
        assert(seq![Instruction::WaitKey { x }] + Seq::new(
            (rnds.len() - 1) as nat,
            |i: int| Instruction::WaitKey { x },
        ) =~= Seq::new(rnds.len(), |i: int| Instruction::WaitKey { x }));
    }
}

/// A single step leaves both timers as they were unless it executes an
/// instruction that sets one of them.
proof fn step_keeps_timers(s: MachineState, rnd: u8)
    ensures
        s.step(rnd) matches Ok((ins, t)) ==> (ins is SetDelay || t.delay == s.delay) && (
        ins is SetSound || t.sound == s.sound),
{
}

/// However many steps run between two timer ticks, as long as none of them
/// sets a timer, the timers are where they were, and the tick then lowers
/// each timer that is not zero by exactly one and leaves a zero timer at zero.
pub proof fn tick_after_any_steps(s: MachineState, rnds: Seq<u8>)
    requires
        s.wf(),
    ensures
        s.steps(rnds) matches Ok((ins, t)) ==> (forall|i: int|
            0 <= i < ins.len() ==> !(#[trigger] ins[i] is SetDelay) && !(ins[i] is SetSound))
            ==> t.delay == s.delay && t.sound == s.sound && t.ticked().delay == (if s.delay > 0 {
            s.delay - 1
        } else {
            0
        }) && t.ticked().sound == (if s.sound > 0 {
            s.sound - 1
        } else {
            0
        }),
{
    lemma_steps_keep_timers(s, rnds);
}

/// Steps that set no timer leave both timers as they were.
proof fn lemma_steps_keep_timers(s: MachineState, rnds: Seq<u8>)
    ensures
        s.steps(rnds) matches Ok((ins, t)) ==> (forall|i: int|
            0 <= i < ins.len() ==> !(#[trigger] ins[i] is SetDelay) && !(ins[i] is SetSound))
            ==> t.delay == s.delay && t.sound == s.sound,
    decreases rnds.len(),
{
    if rnds.len() > 0 {
        step_keeps_timers(s, rnds[0]);
        if let Ok((ins0, t0)) = s.step(rnds[0]) {
            lemma_steps_keep_timers(t0, rnds.drop_first());
            if let Ok((ins, t)) = s.steps(rnds) {
                if forall|i: int|
                    0 <= i < ins.len() ==> !(#[trigger] ins[i] is SetDelay) && !(ins[i] is SetSound)
                {
                    let (more, u) = t0.steps(rnds.drop_first())->Ok_0;
                    assert(ins == seq![ins0] + more);
                    assert(ins[0] == ins0);
                    assert forall|i: int| 0 <= i < more.len() implies !(#[trigger] more[i] is SetDelay)
                        && !(more[i] is SetSound) by {
                        assert(more[i] == ins[i + 1]);
                    }
                }
            }
        }
    }
}

} // verus!
