use vstd::prelude::*;

use crate::instruction::Instruction;
use crate::model::{
    collides_at, covers, draw_collides, sprite_pixel, executed, lit, valid_state, CpuState, MEMORY_SIZE, STACK_DEPTH,
};

verus! {

/// Drawing the same sprite twice at the same place restores the framebuffer:
/// with neither coordinate register being VF, a second `Draw` right after a
/// first one leaves every cell as it was before the first. The second draw
/// sets VF to 1 exactly when some cell that it covers goes from lit to unlit.
pub proof fn lemma_draw_twice_restores(s: CpuState, x: u8, y: u8, n: u8, random: u8)
    requires
        valid_state(s),
        x < 15,
        y < 15,
        n < 16,
        s.pc + 3 < MEMORY_SIZE,
        s.index + n <= MEMORY_SIZE,
    ensures
        ({
            let ins = Instruction::Draw(x, y, n);
            let t = executed(s, ins, random)->Ok_0;
            let u = executed(t, ins, random)->Ok_0;
            &&& executed(s, ins, random) is Ok
            &&& executed(t, ins, random) is Ok
            &&& u.vram == s.vram
            &&& u.pc == s.pc + 4
            &&& (u.registers[15] == 1 <==> exists|p: int|
                0 <= p < t.vram.len() && covers(
                    p,
                    s.registers[x as int] as int,
                    s.registers[y as int] as int,
                    n as int,
                ) && lit(#[trigger] t.vram[p]) && !lit(u.vram[p]))
        }),
{
    let ins = Instruction::Draw(x, y, n);
    let t = executed(s, ins, random)->Ok_0;
    let u = executed(t, ins, random)->Ok_0;
    let vx = s.registers[x as int] as int;
    let vy = s.registers[y as int] as int;
    assert(t.registers[x as int] == s.registers[x as int]);
    assert(t.registers[y as int] == s.registers[y as int]);
    assert(t.memory == s.memory && t.index == s.index && t.vram.len() == s.vram.len());
    assert forall|p: int| 0 <= p < s.vram.len() implies u.vram[p] == s.vram[p] by {
        if covers(p, vx, vy, n as int) {
            let a = s.vram[p];
            let bit = sprite_pixel(s.memory, s.index as int, p, vx, vy);
            assert(t.vram[p] == a ^ bit);
            assert(u.vram[p] == (a ^ bit) ^ bit);
            assert((a ^ bit) ^ bit == a) by (bit_vector);
        }
    }
    assert(u.vram =~= s.vram);
    let flips = exists|p: int|
        0 <= p < t.vram.len() && covers(p, vx, vy, n as int) && lit(#[trigger] t.vram[p]) && !lit(
            u.vram[p],
        );
    if draw_collides(t.vram, t.memory, t.index as int, vx, vy, n as int) {
        let p = choose|p: int| #[trigger] collides_at(t.vram, t.memory, t.index as int, p, vx, vy, n as int);
        assert(u.vram[p] == t.vram[p] ^ sprite_pixel(t.memory, t.index as int, p, vx, vy));
        assert(flips);
    }
    if flips {
        let p = choose|p: int|
            0 <= p < t.vram.len() && covers(p, vx, vy, n as int) && lit(#[trigger] t.vram[p]) && !lit(
                u.vram[p],
            );
        assert(u.vram[p] == t.vram[p] ^ sprite_pixel(t.memory, t.index as int, p, vx, vy));
        assert(collides_at(t.vram, t.memory, t.index as int, p, vx, vy, n as int));
    }
}

/// A call followed by a return comes back: the stack pointer and the program
/// counter are those from before the call, and the call pushed the address
/// of the calling instruction itself.
pub proof fn lemma_call_return(s: CpuState, address: u16, random: u8)
    requires
        valid_state(s),
        s.sp < STACK_DEPTH,
        s.pc + 1 < MEMORY_SIZE,
        address + 1 < MEMORY_SIZE,
    ensures
        ({
            let t = executed(s, Instruction::Call(address), random)->Ok_0;
            let u = executed(t, Instruction::Return, random)->Ok_0;
            &&& executed(s, Instruction::Call(address), random) is Ok
            &&& t.sp == s.sp + 1
            &&& t.stack[s.sp as int] == s.pc
            &&& t.pc == address
            &&& executed(t, Instruction::Return, random) is Ok
            &&& u.sp == s.sp
            &&& u.pc == s.pc
        }),
{
}

/// A skip on equality moves the program counter on by four bytes when the
/// register holds the constant and by two when it does not, and changes
/// nothing else.
pub proof fn lemma_skip_if_equal(s: CpuState, x: u8, kk: u8, random: u8)
    requires
        valid_state(s),
        x < 16,
        s.pc + 1 < MEMORY_SIZE,
    ensures
        executed(s, Instruction::SkipIfEqual(x, kk), random) == Ok::<CpuState, crate::model::Error>(
            CpuState {
                pc: (s.pc + if s.registers[x as int] == kk {
                    4int
                } else {
                    2int
                }) as u16,
                ..s
            },
        ),
{
}

} // verus!
