use vstd::prelude::*;

use crate::instruction::{decoded, Instruction};

verus! {

/// Bytes of memory.
pub const MEMORY_SIZE: usize = 4096;

/// Width and height of the framebuffer, in pixels.
pub const SCREEN_WIDTH: usize = 64;
pub const SCREEN_HEIGHT: usize = 32;

/// Where programs are loaded, and where execution starts.
pub const PROGRAM_START: usize = 0x200;

/// One past the last byte that a program load may fill.
pub const PROGRAM_END: usize = 0xFFF;

/// Levels of the call stack.
pub const STACK_DEPTH: usize = 16;

/// Why a step of the machine, or a program load, failed.
#[derive(Clone, Copy, Debug, PartialEq, Eq, Structural)]
pub enum Error {
    /// The word decoded to no instruction that the engine executes.
    InstructionNotImplemented(u16),
    /// A call with all sixteen stack levels in use.
    StackOverflow,
    /// A return with an empty stack.
    StackUnderflow,
    /// A memory access at `index` that would run past the end of memory.
    AddressOutOfRange,
    /// The program counter does not leave room for a two-byte fetch.
    ProgramCounterOutOfRange,
    /// The program does not fit between `PROGRAM_START` and `PROGRAM_END`;
    /// the part that fits was loaded.
    ProgramTooLarge,
}

/// The whole state of the machine, as mathematical values.
pub struct CpuState {
    pub registers: Seq<u8>,
    pub stack: Seq<u16>,
    pub index: u16,
    pub pc: u16,
    pub sp: u16,
    pub memory: Seq<u8>,
    pub vram: Seq<u8>,
    pub keys: Seq<bool>,
    pub delay_timer: u8,
    pub sound_timer: u8,
}

/// The sizes of a state's parts, and a stack pointer within the stack.
pub open spec fn valid_state(s: CpuState) -> bool {
    &&& s.registers.len() == 16
    &&& s.stack.len() == STACK_DEPTH
    &&& s.memory.len() == MEMORY_SIZE
    &&& s.vram.len() == SCREEN_WIDTH * SCREEN_HEIGHT
    &&& s.keys.len() == 16
    &&& s.sp <= STACK_DEPTH
}

/// The built-in glyphs of the hexadecimal digits 0 to F, five bytes each.
pub open spec fn font_table() -> Seq<u8> {
    seq![
        0xf0, 0x90, 0x90, 0x90, 0xf0, 0x20, 0x60, 0x20, 0x20, 0x70, 0xf0, 0x10, 0xf0, 0x80,
        0xf0, 0xf0, 0x10, 0xf0, 0x10, 0xf0, 0x90, 0x90, 0xf0, 0x10, 0x10, 0xf0, 0x80, 0xf0,
        0x10, 0xf0, 0xf0, 0x80, 0xf0, 0x90, 0xf0, 0xf0, 0x10, 0x20, 0x40, 0x40, 0xf0, 0x90,
        0xf0, 0x90, 0xf0, 0xf0, 0x90, 0xf0, 0x10, 0xf0, 0xf0, 0x90, 0xf0, 0x90, 0x90, 0xe0,
        0x90, 0xe0, 0x90, 0xe0, 0xf0, 0x80, 0x80, 0x80, 0x80, 0xe0, 0x90, 0x90, 0x90, 0xe0,
        0xf0, 0x80, 0xf0, 0x80, 0xf0, 0xf0, 0x80, 0xf0, 0x80, 0x80,
    ]
}

/// A fresh machine: everything zero but the program counter, at
/// `PROGRAM_START`, and the font table at the start of memory.
pub open spec fn initial_state() -> CpuState {
    CpuState {
        registers: Seq::new(16, |i: int| 0u8),
        stack: Seq::new(STACK_DEPTH as nat, |i: int| 0u16),
        index: 0,
        pc: PROGRAM_START as u16,
        sp: 0,
        memory: Seq::new(
            MEMORY_SIZE as nat,
            |a: int|
                if a < font_table().len() {
                    font_table()[a]
                } else {
                    0u8
                },
        ),
        vram: Seq::new((SCREEN_WIDTH * SCREEN_HEIGHT) as nat, |p: int| 0u8),
        keys: Seq::new(16, |k: int| false),
        delay_timer: 0,
        sound_timer: 0,
    }
}

/// `memory` with a program copied in from `PROGRAM_START`, as much of it as
/// fits below `PROGRAM_END`.
pub open spec fn program_loaded(memory: Seq<u8>, program: Seq<u8>) -> Seq<u8> {
    Seq::new(
        memory.len(),
        |a: int|
            if PROGRAM_START <= a < PROGRAM_END && a - PROGRAM_START < program.len() {
                program[a - PROGRAM_START]
            } else {
                memory[a]
            },
    )
}

/// Whether an instruction's register operands and sprite height are nibbles,
/// as every decoded instruction's are.
pub open spec fn operands_in_range(ins: Instruction) -> bool {
    match ins {
        Instruction::SkipIfEqual(x, _) => x < 16,
        Instruction::SkipIfNotEqual(x, _) => x < 16,
        Instruction::LoadConstant(x, _) => x < 16,
        Instruction::AddConstant(x, _) => x < 16,
        Instruction::Load(x, y) => x < 16 && y < 16,
        Instruction::And(x, y) => x < 16 && y < 16,
        Instruction::Add(x, y) => x < 16 && y < 16,
        Instruction::Sub(x, y) => x < 16 && y < 16,
        Instruction::RandomAnd(x, _) => x < 16,
        Instruction::Draw(x, y, n) => x < 16 && y < 16 && n < 16,
        Instruction::SkipIfNotPressed(x) => x < 16,
        Instruction::LoadDelay(x) => x < 16,
        Instruction::SetDelay(x) => x < 16,
        Instruction::SetFontLocation(x) => x < 16,
        Instruction::SetBCD(x) => x < 16,
        Instruction::LoadRegisters(x) => x < 16,
        _ => true,
    }
}

/// Row offset of framebuffer cell `p` from row `vy`, wrapping at the bottom.
pub open spec fn row_offset(p: int, vy: int) -> int {
    (p / SCREEN_WIDTH as int + SCREEN_HEIGHT as int - vy % SCREEN_HEIGHT as int)
        % SCREEN_HEIGHT as int
}

/// Column offset of framebuffer cell `p` from column `vx`, wrapping at the
/// right edge.
pub open spec fn col_offset(p: int, vx: int) -> int {
    (p % SCREEN_WIDTH as int + SCREEN_WIDTH as int - vx % SCREEN_WIDTH as int)
        % SCREEN_WIDTH as int
}

/// Whether an `n`-row sprite drawn at column `vx` and row `vy` covers cell `p`.
pub open spec fn covers(p: int, vx: int, vy: int, n: int) -> bool {
    row_offset(p, vy) < n && col_offset(p, vx) < 8
}

/// Bit `7 - j` of a sprite row: the pixel of column `j`.
pub open spec fn sprite_bit(row: u8, j: int) -> u8 {
    (row >> (7 - j) as u8) & 1
}

/// The sprite pixel that falls on cell `p`, when the sprite covers it.
pub open spec fn sprite_pixel(memory: Seq<u8>, index: int, p: int, vx: int, vy: int) -> u8 {
    sprite_bit(memory[index + row_offset(p, vy)], col_offset(p, vx))
}

/// Whether a cell is lit: the low bit of its value.
pub open spec fn lit(v: u8) -> bool {
    v & 1 == 1
}

/// The framebuffer after XOR-drawing the `n`-row sprite at `memory[index..]`
/// with its top left corner at (`vx`, `vy`).
pub open spec fn drawn_vram(
    vram: Seq<u8>,
    memory: Seq<u8>,
    index: int,
    vx: int,
    vy: int,
    n: int,
) -> Seq<u8> {
    Seq::new(
        vram.len(),
        |p: int|
            if covers(p, vx, vy, n) {
                vram[p] ^ sprite_pixel(memory, index, p, vx, vy)
            } else {
                vram[p]
            },
    )
}

/// Whether drawing that sprite turns some lit cell off.
pub open spec fn draw_collides(
    vram: Seq<u8>,
    memory: Seq<u8>,
    index: int,
    vx: int,
    vy: int,
    n: int,
) -> bool {
    exists|p: int| #[trigger] collides_at(vram, memory, index, p, vx, vy, n)
}

/// Whether that sprite covers cell `p` and turns it from lit to unlit.
pub open spec fn collides_at(
    vram: Seq<u8>,
    memory: Seq<u8>,
    index: int,
    p: int,
    vx: int,
    vy: int,
    n: int,
) -> bool {
    &&& 0 <= p < vram.len()
    &&& covers(p, vx, vy, n)
    &&& lit(vram[p])
    &&& !lit(vram[p] ^ sprite_pixel(memory, index, p, vx, vy))
}

/// `s` with the program counter moved on by `k` bytes.
pub open spec fn advanced(s: CpuState, k: int) -> CpuState {
    CpuState { pc: (s.pc + k) as u16, ..s }
}

/// `s` with register `x` set to `v`, then the program counter moved on.
pub open spec fn with_register(s: CpuState, x: u8, v: u8) -> CpuState {
    advanced(CpuState { registers: s.registers.update(x as int, v), ..s }, 2)
}

/// The three decimal digits of `v`, most significant first.
pub open spec fn bcd_digits(v: u8) -> Seq<u8> {
    seq![v / 100, (v % 100) / 10, v % 10]
}

/// What executing `ins` does to `s`, with `random` the byte drawn for
/// `RandomAnd`. An error leaves the machine as it was.
pub open spec fn executed(s: CpuState, ins: Instruction, random: u8) -> Result<CpuState, Error> {
    if s.pc as int + 1 >= MEMORY_SIZE {
        Err(Error::ProgramCounterOutOfRange)
    } else {
        match ins {
            Instruction::Return => if s.sp == 0 {
                Err(Error::StackUnderflow)
            } else {
                Ok(CpuState { sp: (s.sp - 1) as u16, pc: s.stack[s.sp - 1], ..s })
            },
            Instruction::Jump(a) => Ok(CpuState { pc: a, ..s }),
            Instruction::Call(a) => if s.sp >= STACK_DEPTH {
                Err(Error::StackOverflow)
            } else {
                Ok(
                    CpuState {
                        stack: s.stack.update(s.sp as int, s.pc),
                        sp: (s.sp + 1) as u16,
                        pc: a,
                        ..s
                    },
                )
            },
            Instruction::SkipIfEqual(x, kk) => Ok(
                advanced(
                    s,
                    if s.registers[x as int] == kk {
                        4
                    } else {
                        2
                    },
                ),
            ),
            Instruction::SkipIfNotEqual(x, kk) => Ok(
                advanced(
                    s,
                    if s.registers[x as int] != kk {
                        4
                    } else {
                        2
                    },
                ),
            ),
            Instruction::LoadConstant(x, kk) => Ok(with_register(s, x, kk)),
            Instruction::AddConstant(x, kk) => Ok(
                with_register(s, x, ((s.registers[x as int] + kk) % 256) as u8),
            ),
            Instruction::Load(x, y) => Ok(with_register(s, x, s.registers[y as int])),
            Instruction::And(x, y) => Ok(
                with_register(s, x, s.registers[x as int] & s.registers[y as int]),
            ),
            Instruction::Add(x, y) => {
                let vx = s.registers[x as int];
                let vy = s.registers[y as int];
                let carry: u8 = if vx + vy > 255 {
                    1
                } else {
                    0
                };
                Ok(
                    with_register(
                        CpuState { registers: s.registers.update(15, carry), ..s },
                        x,
                        ((vx + vy) % 256) as u8,
                    ),
                )
            },
            Instruction::Sub(x, y) => {
                let vx = s.registers[x as int];
                let vy = s.registers[y as int];
                let no_borrow: u8 = if vx > vy {
                    1
                } else {
                    0
                };
                Ok(
                    with_register(
                        CpuState { registers: s.registers.update(15, no_borrow), ..s },
                        x,
                        ((vx - vy + 256) % 256) as u8,
                    ),
                )
            },
            Instruction::SetAddress(a) => Ok(advanced(CpuState { index: a, ..s }, 2)),
            Instruction::RandomAnd(x, kk) => Ok(with_register(s, x, random & kk)),
            Instruction::Draw(x, y, n) => if s.index + n > MEMORY_SIZE {
                Err(Error::AddressOutOfRange)
            } else {
                let vx = s.registers[x as int] as int;
                let vy = s.registers[y as int] as int;
                let flag: u8 = if draw_collides(s.vram, s.memory, s.index as int, vx, vy, n as int) {
                    1
                } else {
                    0
                };
                Ok(
                    advanced(
                        CpuState {
                            vram: drawn_vram(s.vram, s.memory, s.index as int, vx, vy, n as int),
                            registers: s.registers.update(15, flag),
                            ..s
                        },
                        2,
                    ),
                )
            },
            Instruction::SkipIfNotPressed(x) => Ok(
                advanced(
                    s,
                    if !s.keys[x as int] {
                        4
                    } else {
                        2
                    },
                ),
            ),
            Instruction::LoadDelay(x) => Ok(with_register(s, x, s.delay_timer)),
            Instruction::SetDelay(x) => Ok(
                advanced(CpuState { delay_timer: s.registers[x as int], ..s }, 2),
            ),
            Instruction::SetFontLocation(x) => Ok(
                advanced(CpuState { index: (s.registers[x as int] * 5) as u16, ..s }, 2),
            ),
            Instruction::SetBCD(x) => if s.index + 3 > MEMORY_SIZE {
                Err(Error::AddressOutOfRange)
            } else {
                let d = bcd_digits(s.registers[x as int]);
                Ok(
                    advanced(
                        CpuState {
                            memory: s.memory.update(s.index as int, d[0]).update(
                                s.index + 1,
                                d[1],
                            ).update(s.index + 2, d[2]),
                            ..s
                        },
                        2,
                    ),
                )
            },
            Instruction::LoadRegisters(x) => if s.index + x + 1 > MEMORY_SIZE {
                Err(Error::AddressOutOfRange)
            } else {
                Ok(
                    advanced(
                        CpuState {
                            registers: Seq::new(
                                16,
                                |r: int|
                                    if r <= x {
                                        s.memory[s.index + r]
                                    } else {
                                        s.registers[r]
                                    },
                            ),
                            ..s
                        },
                        2,
                    ),
                )
            },
            Instruction::NotImplemented(w) => Err(Error::InstructionNotImplemented(w)),
        }
    }
}

/// The state after an outcome: the new state, or `s` itself on an error.
pub open spec fn state_after(s: CpuState, outcome: Result<CpuState, Error>) -> CpuState {
    match outcome {
        Ok(t) => t,
        Err(_) => s,
    }
}

/// What an outcome reports to the caller.
pub open spec fn status_of(outcome: Result<CpuState, Error>) -> Result<(), Error> {
    match outcome {
        Ok(_) => Ok(()),
        Err(e) => Err(e),
    }
}

/// Both timers counted down by one, stopping at zero.
pub open spec fn timers_ticked(s: CpuState) -> CpuState {
    CpuState {
        delay_timer: if s.delay_timer > 0 {
            (s.delay_timer - 1) as u8
        } else {
            0
        },
        sound_timer: if s.sound_timer > 0 {
            (s.sound_timer - 1) as u8
        } else {
            0
        },
        ..s
    }
}

/// The instruction at the program counter.
pub open spec fn current_instruction(s: CpuState) -> Instruction {
    decoded(s.memory[s.pc as int], s.memory[s.pc + 1])
}

/// One step: fetch, decode and execute the instruction at the program
/// counter, then tick the timers. A failed step changes nothing.
pub open spec fn stepped(s: CpuState, random: u8) -> Result<CpuState, Error> {
    if s.pc as int + 1 >= MEMORY_SIZE {
        Err(Error::ProgramCounterOutOfRange)
    } else {
        match executed(s, current_instruction(s), random) {
            Ok(t) => Ok(timers_ticked(t)),
            Err(e) => Err(e),
        }
    }
}

} // verus!

verus! {

/// The cell that sprite pixel (`i`, `j`) lands on is the one cell whose
/// offsets from (`vx`, `vy`) are (`j`, `i`).
pub(crate) proof fn lemma_cell(p: int, vx: int, vy: int, i: int, j: int)
    requires
        0 <= p < 2048,
        0 <= vx < 256,
        0 <= vy < 256,
        0 <= i < 16,
        0 <= j < 8,
    ensures
        (row_offset(p, vy) == i && col_offset(p, vx) == j) <==> p == ((vy + i) % 32) * 64 + (vx
            + j) % 64,
{
    let r = p / 64;
    let c = p % 64;
    assert(p == r * 64 + c && 0 <= r < 32 && 0 <= c < 64) by (nonlinear_arith)
        requires 0 <= p < 2048, r == p / 64, c == p % 64;
    let rr = (vy + i) % 32;
    let cc = (vx + j) % 64;
    assert(0 <= rr < 32 && 0 <= cc < 64);
    assert((r * 64 + c == rr * 64 + cc) <==> (r == rr && c == cc)) by (nonlinear_arith)
        requires 0 <= r < 32, 0 <= c < 64, 0 <= rr < 32, 0 <= cc < 64;
    assert((r + 32 - vy % 32) % 32 == i <==> r == rr);
    assert((c + 64 - vx % 64) % 64 == j <==> c == cc);
}

} // verus!
