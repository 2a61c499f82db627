use vstd::prelude::*;

use crate::instruction::{Instruction, Opcode};
use crate::model::{
    col_offset, collides_at, covers, current_instruction, draw_collides, drawn_vram, executed,
    font_table, initial_state, lemma_cell, lit, operands_in_range, program_loaded, row_offset,
    sprite_pixel, state_after, status_of, stepped, timers_ticked, valid_state, CpuState, Error,
    MEMORY_SIZE, PROGRAM_END, PROGRAM_START, SCREEN_HEIGHT, SCREEN_WIDTH, STACK_DEPTH,
};

verus! {

/// The virtual machine: registers, stack, memory, framebuffer, keys and
/// timers.
pub struct Cpu {
    registers: [u8; 16],
    stack: [u16; 16],
    i: u16,
    pc: u16,
    sp: u16,
    memory: [u8; 4096],
    /// The 64 by 32 framebuffer, row by row; a cell is lit when its low bit
    /// is set.
    pub vram: [u8; 2048],
    keys: [bool; 16],
    delay_timer: u8,
    sound_timer: u8,
}

impl View for Cpu {
    type V = CpuState;

    closed spec fn view(&self) -> CpuState {
        CpuState {
            registers: self.registers@,
            stack: self.stack@,
            index: self.i,
            pc: self.pc,
            sp: self.sp,
            memory: self.memory@,
            vram: self.vram@,
            keys: self.keys@,
            delay_timer: self.delay_timer,
            sound_timer: self.sound_timer,
        }
    }
}

/// The font table as an array.
pub fn font() -> (r: [u8; 80])
    ensures
        r@ == font_table(),
{
    let r: [u8; 80] = [
        0xf0, 0x90, 0x90, 0x90, 0xf0, 0x20, 0x60, 0x20, 0x20, 0x70, 0xf0, 0x10, 0xf0, 0x80,
        0xf0, 0xf0, 0x10, 0xf0, 0x10, 0xf0, 0x90, 0x90, 0xf0, 0x10, 0x10, 0xf0, 0x80, 0xf0,
        0x10, 0xf0, 0xf0, 0x80, 0xf0, 0x90, 0xf0, 0xf0, 0x10, 0x20, 0x40, 0x40, 0xf0, 0x90,
        0xf0, 0x90, 0xf0, 0xf0, 0x90, 0xf0, 0x10, 0xf0, 0xf0, 0x90, 0xf0, 0x90, 0x90, 0xe0,
        0x90, 0xe0, 0x90, 0xe0, 0xf0, 0x80, 0x80, 0x80, 0x80, 0xe0, 0x90, 0x90, 0x90, 0xe0,
        0xf0, 0x80, 0xf0, 0x80, 0xf0, 0xf0, 0x80, 0xf0, 0x80, 0x80,
    ];
    assert(r@ =~= font_table());
    r
}

/// Whether cell `p` has been drawn once the first `k` sprite pixels, row by
/// row, have been.
spec fn blitted(p: int, vx: int, vy: int, k: int) -> bool {
    col_offset(p, vx) < 8 && row_offset(p, vy) * 8 + col_offset(p, vx) < k
}

/// XOR-draws the `n`-row sprite at `memory[index..]` onto `vram` at column
/// `vx` and row `vy`, both wrapping; says whether a lit cell went unlit.
fn blit(vram: &mut [u8; 2048], memory: &[u8; 4096], index: usize, vx: u8, vy: u8, n: u8) -> (collided:
    bool)
    requires
        n < 16,
        index + n <= MEMORY_SIZE,
    ensures
        final(vram)@ == drawn_vram(
            old(vram)@,
            memory@,
            index as int,
            vx as int,
            vy as int,
            n as int,
        ),
        collided == draw_collides(old(vram)@, memory@, index as int, vx as int, vy as int, n as int),
{
    let ghost start = vram@;
    let total: usize = 8 * n as usize;
    let mut collided = false;
    let mut k: usize = 0;
    while k < total
        invariant
            total == 8 * n,
            n < 16,
            index + n <= MEMORY_SIZE,
            k <= total,
            start == old(vram)@,
            forall|p: int|
                0 <= p < 2048 ==> #[trigger] vram@[p] == if blitted(p, vx as int, vy as int, k as int) {
                    start[p] ^ sprite_pixel(memory@, index as int, p, vx as int, vy as int)
                } else {
                    start[p]
                },
            collided <==> exists|p: int|
                #[trigger] collides_at(start, memory@, index as int, p, vx as int, vy as int, n as int)
                    && blitted(p, vx as int, vy as int, k as int),
        decreases total - k,
    {
        let i: usize = k / 8;
        let j: usize = k % 8;
        let row = memory[index + i];
        let pos_y: usize = (vy as usize + i) % 32;
        let pos_x: usize = (vx as usize + j) % 64;
        let addr: usize = pos_y * 64 + pos_x;
        let bit: u8 = (row >> (7 - j as u8)) & 1;
        let before = vram[addr];
        let after = before ^ bit;
        proof {
            lemma_cell(addr as int, vx as int, vy as int, i as int, j as int);
            assert(sprite_pixel(memory@, index as int, addr as int, vx as int, vy as int) == bit);
            assert forall|p: int| 0 <= p < 2048 implies (blitted(
                p,
                vx as int,
                vy as int,
                k + 1,
            ) <==> blitted(p, vx as int, vy as int, k as int) || p == addr) by {
                lemma_cell(p, vx as int, vy as int, i as int, j as int);
            }
        }
        vram[addr] = after;
        if before & 1 == 1 && after & 1 == 0 {
            collided = true;
        }
        proof {
            assert(!blitted(addr as int, vx as int, vy as int, k as int));
            assert(before == start[addr as int]);
            assert(i < n);
            assert(covers(addr as int, vx as int, vy as int, n as int));
            assert(after & 1 == 0 || after & 1 == 1) by (bit_vector);
            assert(after == start[addr as int] ^ sprite_pixel(memory@, index as int, addr as int, vx as int, vy as int));
            let hit = collides_at(start, memory@, index as int, addr as int, vx as int, vy as int, n as int);
            assert(hit <==> (before & 1 == 1 && after & 1 == 0));
            assert forall|p: int|
                #[trigger] collides_at(start, memory@, index as int, p, vx as int, vy as int, n as int)
                    && blitted(p, vx as int, vy as int, k + 1) implies (blitted(p, vx as int, vy as int, k as int)
                    || p == addr) by {
                lemma_cell(p, vx as int, vy as int, i as int, j as int);
            }
        }
        k += 1;
    }
    assert forall|p: int| 0 <= p < 2048 implies (blitted(p, vx as int, vy as int, total as int)
        <==> covers(p, vx as int, vy as int, n as int)) by {}
    assert(vram@ =~= drawn_vram(start, memory@, index as int, vx as int, vy as int, n as int));
    collided
}

/// Instructions that set the program counter themselves or may skip.
spec fn is_flow(ins: Instruction) -> bool {
    ||| ins is Return
    ||| ins is Jump
    ||| ins is Call
    ||| ins is SkipIfEqual
    ||| ins is SkipIfNotEqual
    ||| ins is SkipIfNotPressed
}

/// Instructions that set a register, the index or the delay timer.
spec fn is_register_op(ins: Instruction) -> bool {
    ||| ins is LoadConstant
    ||| ins is AddConstant
    ||| ins is Load
    ||| ins is And
    ||| ins is Add
    ||| ins is Sub
    ||| ins is SetAddress
    ||| ins is RandomAnd
    ||| ins is LoadDelay
    ||| ins is SetDelay
    ||| ins is SetFontLocation
}

/// Instructions that access memory at the index.
spec fn is_memory_op(ins: Instruction) -> bool {
    ||| ins is Draw
    ||| ins is SetBCD
    ||| ins is LoadRegisters
}

/// Relies on rand::random::<u8>, a byte from the thread's generator; nothing
/// is known of which byte.
#[verifier::external_body]
fn random_byte() -> u8 {
    rand::random::<u8>()
}

impl Cpu {
    /// The machine's state is well formed.
    pub open spec fn wf(&self) -> bool {
        valid_state(self@)
    }

    /// A fresh machine, with the font table loaded.
    pub fn new() -> (r: Cpu)
        ensures
            r.wf(),
            r@ == initial_state(),
    {
        let mut cpu = Cpu {
            registers: [0u8; 16],
            stack: [0u16; 16],
            i: 0,
            pc: 0x0200,
            sp: 0,
            memory: [0u8; 4096],
            vram: [0u8; 2048],
            keys: [false; 16],
            delay_timer: 0,
            sound_timer: 0,
        };
        cpu.load_font(font());
        assert(cpu@.registers =~= initial_state().registers);
        assert(cpu@.stack =~= initial_state().stack);
        assert(cpu@.memory =~= initial_state().memory);
        assert(cpu@.vram =~= initial_state().vram);
        assert(cpu@.keys =~= initial_state().keys);
        cpu
    }

    /// Copies a font table into the first 80 bytes of memory.
    pub fn load_font(&mut self, font: [u8; 80])
        requires
            old(self).wf(),
        ensures
            final(self).wf(),
            final(self)@ == (CpuState {
                memory: font@ + old(self)@.memory.subrange(80, MEMORY_SIZE as int),
                ..old(self)@
            }),
    {
        let mut a: usize = 0;
        while a < 80
            invariant
                a <= 80,
                self.wf(),
                self@ == (CpuState { memory: self@.memory, ..old(self)@ }),
                forall|k: int| 0 <= k < a ==> self@.memory[k] == font@[k],
                forall|k: int| a <= k < MEMORY_SIZE ==> self@.memory[k] == old(self)@.memory[k],
            decreases 80 - a,
        {
            self.memory[a] = font[a];
            a += 1;
        }
        assert(self@.memory =~= font@ + old(self)@.memory.subrange(80, MEMORY_SIZE as int));
    }

    /// Copies `memory[index..=index + x]` into registers 0 to `x`.
    fn load_registers(&mut self, x: u8)
        requires
            old(self).wf(),
            x < 16,
            old(self).i + x + 1 <= MEMORY_SIZE,
        ensures
            final(self).wf(),
            final(self)@ == (CpuState {
                registers: Seq::new(
                    16,
                    |k: int|
                        if k <= x {
                            old(self)@.memory[old(self)@.index + k]
                        } else {
                            old(self)@.registers[k]
                        },
                ),
                ..old(self)@
            }),
    {
        let index = self.i as usize;
        let ghost before = self@;
        let mut r: usize = 0;
        while r <= x as usize
            invariant
                x < 16,
                index == before.index,
                index + x + 1 <= MEMORY_SIZE,
                r <= x + 1,
                self.wf(),
                self@ == (CpuState { registers: self@.registers, ..before }),
                forall|k: int|
                    0 <= k < 16 ==> #[trigger] self@.registers[k] == if k < r {
                        before.memory[index + k]
                    } else {
                        before.registers[k]
                    },
            decreases x + 1 - r,
        {
            self.registers[r] = self.memory[index + r];
            r += 1;
        }
        assert(self@.registers =~= Seq::new(
            16,
            |k: int|
                if k <= x {
                    before.memory[index + k]
                } else {
                    before.registers[k]
                },
        ));
    }

    /// Executes an instruction that moves the program counter by itself.
    fn execute_flow(&mut self, instruction: Instruction, random: u8) -> (r: Result<(), Error>)
        requires
            old(self).wf(),
            operands_in_range(instruction),
            old(self)@.pc + 1 < MEMORY_SIZE,
            is_flow(instruction),
        ensures
            final(self).wf(),
            r == status_of(executed(old(self)@, instruction, random)),
            final(self)@ == state_after(old(self)@, executed(old(self)@, instruction, random)),
    {
        let mut increment_pc = true;
        match instruction {
            Instruction::Return => {
                if self.sp == 0 {
                    return Err(Error::StackUnderflow);
                }
                self.sp -= 1;
                self.pc = self.stack[self.sp as usize];
                increment_pc = false;
            },
            Instruction::Jump(address) => {
                self.pc = address;
                increment_pc = false;
            },
            Instruction::Call(address) => {
                if self.sp as usize >= STACK_DEPTH {
                    return Err(Error::StackOverflow);
                }
                self.stack[self.sp as usize] = self.pc;
                self.sp += 1;
                self.pc = address;
                increment_pc = false;
            },
            Instruction::SkipIfEqual(x, kk) => {
                if self.registers[x as usize] == kk {
                    self.pc += 2;
                }
            },
            Instruction::SkipIfNotEqual(x, kk) => {
                if self.registers[x as usize] != kk {
                    self.pc += 2;
                }
            },
            Instruction::SkipIfNotPressed(x) => {
                if !self.keys[x as usize] {
                    self.pc += 2;
                }
            },
            _ => {},
        }
        if increment_pc {
            self.pc += 2;
        }
        Ok(())
    }

    /// Executes an instruction that sets a register, the index or a timer.
    fn execute_register(&mut self, instruction: Instruction, random: u8) -> (r: Result<(), Error>)
        requires
            old(self).wf(),
            operands_in_range(instruction),
            old(self)@.pc + 1 < MEMORY_SIZE,
            is_register_op(instruction),
        ensures
            final(self).wf(),
            r == status_of(executed(old(self)@, instruction, random)),
            final(self)@ == state_after(old(self)@, executed(old(self)@, instruction, random)),
    {
        match instruction {
            Instruction::LoadConstant(x, kk) => {
                self.registers[x as usize] = kk;
            },
            Instruction::AddConstant(x, kk) => {
                self.registers[x as usize] = self.registers[x as usize].wrapping_add(kk);
            },
            Instruction::Load(x, y) => {
                self.registers[x as usize] = self.registers[y as usize];
            },
            Instruction::And(x, y) => {
                self.registers[x as usize] = self.registers[x as usize] & self.registers[y as usize];
            },
            Instruction::Add(x, y) => {
                let vx = self.registers[x as usize];
                let vy = self.registers[y as usize];
                self.registers[15] = if vx as u16 + vy as u16 > 255 {
                    1
                } else {
                    0
                };
                self.registers[x as usize] = vx.wrapping_add(vy);
            },
            Instruction::Sub(x, y) => {
                let vx = self.registers[x as usize];
                let vy = self.registers[y as usize];
                self.registers[15] = if vx > vy {
                    1
                } else {
                    0
                };
                self.registers[x as usize] = vx.wrapping_sub(vy);
            },
            Instruction::SetAddress(address) => {
                self.i = address;
            },
            Instruction::RandomAnd(x, kk) => {
                self.registers[x as usize] = random & kk;
            },
            Instruction::LoadDelay(x) => {
                self.registers[x as usize] = self.delay_timer;
            },
            Instruction::SetDelay(x) => {
                self.delay_timer = self.registers[x as usize];
            },
            Instruction::SetFontLocation(x) => {
                self.i = self.registers[x as usize] as u16 * 5;
            },
            _ => {},
        }
        self.pc += 2;
        Ok(())
    }

    /// Executes an instruction that reads or writes memory at the index.
    fn execute_memory(&mut self, instruction: Instruction, random: u8) -> (r: Result<(), Error>)
        requires
            old(self).wf(),
            operands_in_range(instruction),
            old(self)@.pc + 1 < MEMORY_SIZE,
            is_memory_op(instruction),
        ensures
            final(self).wf(),
            r == status_of(executed(old(self)@, instruction, random)),
            final(self)@ == state_after(old(self)@, executed(old(self)@, instruction, random)),
    {
        match instruction {
            Instruction::Draw(x, y, height) => {
                if self.i as usize + height as usize > MEMORY_SIZE {
                    return Err(Error::AddressOutOfRange);
                }
                let vx = self.registers[x as usize];
                let vy = self.registers[y as usize];
                let collided = blit(&mut self.vram, &self.memory, self.i as usize, vx, vy, height);
                self.registers[15] = if collided {
                    1
                } else {
                    0
                };
            },
            Instruction::SetBCD(x) => {
                let index = self.i as usize;
                if index + 3 > MEMORY_SIZE {
                    return Err(Error::AddressOutOfRange);
                }
                let value = self.registers[x as usize];
                self.memory[index] = value / 100;
                self.memory[index + 1] = (value % 100) / 10;
                self.memory[index + 2] = value % 10;
            },
            Instruction::LoadRegisters(x) => {
                let index = self.i as usize;
                if index + x as usize + 1 > MEMORY_SIZE {
                    return Err(Error::AddressOutOfRange);
                }
                self.load_registers(x);
            },
            _ => {},
        }
        self.pc += 2;
        Ok(())
    }

    /// Executes one instruction, with `random` as the byte that `RandomAnd`
    /// masks. On an error the machine is left as it was.
    pub fn execute_with(&mut self, instruction: Instruction, random: u8) -> (r: Result<(), Error>)
        requires
            old(self).wf(),
            operands_in_range(instruction),
        ensures
            final(self).wf(),
            r == status_of(executed(old(self)@, instruction, random)),
            final(self)@ == state_after(old(self)@, executed(old(self)@, instruction, random)),
    {
        if self.pc as usize + 1 >= MEMORY_SIZE {
            return Err(Error::ProgramCounterOutOfRange);
        }
        match instruction {
            Instruction::Return
            | Instruction::Jump(_)
            | Instruction::Call(_)
            | Instruction::SkipIfEqual(_, _)
            | Instruction::SkipIfNotEqual(_, _)
            | Instruction::SkipIfNotPressed(_) => self.execute_flow(instruction, random),
            Instruction::LoadConstant(_, _)
            | Instruction::AddConstant(_, _)
            | Instruction::Load(_, _)
            | Instruction::And(_, _)
            | Instruction::Add(_, _)
            | Instruction::Sub(_, _)
            | Instruction::SetAddress(_)
            | Instruction::RandomAnd(_, _)
            | Instruction::LoadDelay(_)
            | Instruction::SetDelay(_)
            | Instruction::SetFontLocation(_) => self.execute_register(instruction, random),
            Instruction::Draw(_, _, _)
            | Instruction::SetBCD(_)
            | Instruction::LoadRegisters(_) => self.execute_memory(instruction, random),
            Instruction::NotImplemented(word) => Err(Error::InstructionNotImplemented(word)),
        }
    }

    /// Executes one instruction; `RandomAnd` masks a byte drawn from the
    /// thread's random generator, and no other instruction draws one. On an
    /// error the machine is left as it was.
    pub fn execute(&mut self, instruction: Instruction) -> (r: Result<(), Error>)
        requires
            old(self).wf(),
            operands_in_range(instruction),
        ensures
            final(self).wf(),
            exists|random: u8|
                r == status_of(#[trigger] executed(old(self)@, instruction, random)) && final(self)@
                    == state_after(old(self)@, executed(old(self)@, instruction, random)),
            !(instruction is RandomAnd) ==> r == status_of(executed(old(self)@, instruction, 0))
                && final(self)@ == state_after(old(self)@, executed(old(self)@, instruction, 0)),
    {
        let random: u8 = if let Instruction::RandomAnd(_, _) = instruction {
            random_byte()
        } else {
            0
        };
        let r = self.execute_with(instruction, random);
        assert(executed(old(self)@, instruction, random) == executed(old(self)@, instruction, random));
        r
    }

    /// The two bytes at the program counter, high byte first.
    pub fn fetch(&self) -> (r: Opcode)
        requires
            self.wf(),
            self@.pc + 1 < MEMORY_SIZE,
        ensures
            r.0 == self@.memory[self@.pc as int],
            r.1 == self@.memory[self@.pc + 1],
    {
        Opcode(self.memory[self.pc as usize], self.memory[self.pc as usize + 1])
    }

    /// Counts both timers down by one, stopping at zero.
    fn update_timers(&mut self)
        requires
            old(self).wf(),
        ensures
            final(self).wf(),
            final(self)@ == timers_ticked(old(self)@),
    {
        if self.delay_timer > 0 {
            self.delay_timer -= 1;
        }
        if self.sound_timer > 0 {
            self.sound_timer -= 1;
        }
    }

    /// One step with `random` as the byte for `RandomAnd`: fetch, decode and
    /// execute the instruction at the program counter, then tick the timers.
    /// A failed step changes nothing.
    pub fn step_with(&mut self, random: u8) -> (r: Result<(), Error>)
        requires
            old(self).wf(),
        ensures
            final(self).wf(),
            r == status_of(stepped(old(self)@, random)),
            final(self)@ == state_after(old(self)@, stepped(old(self)@, random)),
    {
        if self.pc as usize + 1 >= MEMORY_SIZE {
            return Err(Error::ProgramCounterOutOfRange);
        }
        let instruction = Instruction::decode(self.fetch());
        match self.execute_with(instruction, random) {
            Ok(()) => {},
            Err(e) => {
                return Err(e);
            },
        }
        self.update_timers();
        Ok(())
    }

    /// One step: fetch, decode and execute the instruction at the program
    /// counter, then tick the timers. A failed step changes nothing. Only a
    /// `RandomAnd` draws a byte from the thread's random generator.
    pub fn step(&mut self) -> (r: Result<(), Error>)
        requires
            old(self).wf(),
        ensures
            final(self).wf(),
            exists|random: u8|
                r == status_of(#[trigger] stepped(old(self)@, random)) && final(self)@
                    == state_after(old(self)@, stepped(old(self)@, random)),
            (old(self)@.pc + 1 >= MEMORY_SIZE || !(current_instruction(old(self)@) is RandomAnd))
                ==> r == status_of(stepped(old(self)@, 0)) && final(self)@ == state_after(
                old(self)@,
                stepped(old(self)@, 0),
            ),
    {
        if self.pc as usize + 1 >= MEMORY_SIZE {
            assert(stepped(old(self)@, 0) == stepped(old(self)@, 0));
            return Err(Error::ProgramCounterOutOfRange);
        }
        let instruction = Instruction::decode(self.fetch());
        let random: u8 = if let Instruction::RandomAnd(_, _) = instruction {
            random_byte()
        } else {
            0
        };
        let r = self.step_with(random);
        assert(stepped(old(self)@, random) == stepped(old(self)@, random));
        r
    }

    /// Copies a program into memory from `PROGRAM_START`, as much of it as
    /// fits below `PROGRAM_END`; fails with `ProgramTooLarge` when some of it
    /// does not fit.
    pub fn load_program(&mut self, program: &[u8]) -> (r: Result<(), Error>)
        requires
            old(self).wf(),
        ensures
            final(self).wf(),
            final(self)@ == (CpuState {
                memory: program_loaded(old(self)@.memory, program@),
                ..old(self)@
            }),
            r == (if program@.len() > PROGRAM_END - PROGRAM_START {
                Err(Error::ProgramTooLarge)
            } else {
                Ok(())
            }),
    {
        let room: usize = PROGRAM_END - PROGRAM_START;
        let count: usize = if program.len() > room {
            room
        } else {
            program.len()
        };
        let mut k: usize = 0;
        while k < count
            invariant
                count <= room,
                room == PROGRAM_END - PROGRAM_START,
                count <= program@.len(),
                count == if program@.len() > room { room as int } else { program@.len() as int },
                k <= count,
                self.wf(),
                self@ == (CpuState { memory: self@.memory, ..old(self)@ }),
                forall|a: int|
                    0 <= a < MEMORY_SIZE ==> #[trigger] self@.memory[a] == if PROGRAM_START <= a
                        < PROGRAM_START + k {
                        program@[a - PROGRAM_START]
                    } else {
                        old(self)@.memory[a]
                    },
            decreases count - k,
        {
            self.memory[PROGRAM_START + k] = program[k];
            k += 1;
        }
        assert(self@.memory =~= program_loaded(old(self)@.memory, program@));
        if program.len() > room {
            Err(Error::ProgramTooLarge)
        } else {
            Ok(())
        }
    }

    /// Register `x`.
    pub fn register(&self, x: u8) -> (r: u8)
        requires
            self.wf(),
            x < 16,
        ensures
            r == self@.registers[x as int],
    {
        self.registers[x as usize]
    }

    /// The index register.
    pub fn index(&self) -> (r: u16)
        ensures
            r == self@.index,
    {
        self.i
    }

    /// The program counter.
    pub fn pc(&self) -> (r: u16)
        ensures
            r == self@.pc,
    {
        self.pc
    }

    /// The stack pointer: the number of return addresses on the stack.
    pub fn sp(&self) -> (r: u16)
        ensures
            r == self@.sp,
    {
        self.sp
    }

    /// Stack slot `k`.
    pub fn stack_entry(&self, k: usize) -> (r: u16)
        requires
            self.wf(),
            k < STACK_DEPTH,
        ensures
            r == self@.stack[k as int],
    {
        self.stack[k]
    }

    /// The byte at `address`.
    pub fn memory_at(&self, address: usize) -> (r: u8)
        requires
            self.wf(),
            address < MEMORY_SIZE,
        ensures
            r == self@.memory[address as int],
    {
        self.memory[address]
    }

    /// Whether key `k` is held down.
    pub fn key_pressed(&self, k: u8) -> (r: bool)
        requires
            self.wf(),
            k < 16,
        ensures
            r == self@.keys[k as int],
    {
        self.keys[k as usize]
    }

    /// Presses or releases key `k`.
    pub fn set_key(&mut self, k: u8, pressed: bool)
        requires
            old(self).wf(),
            k < 16,
        ensures
            final(self).wf(),
            final(self)@ == (CpuState { keys: old(self)@.keys.update(k as int, pressed), ..old(self)@ }),
    {
        self.keys[k as usize] = pressed;
    }

    /// The delay timer.
    pub fn delay_timer(&self) -> (r: u8)
        ensures
            r == self@.delay_timer,
    {
        self.delay_timer
    }

    /// The sound timer.
    pub fn sound_timer(&self) -> (r: u8)
        ensures
            r == self@.sound_timer,
    {
        self.sound_timer
    }

    /// Whether the pixel at column `x` and row `y` is lit.
    pub fn pixel_lit(&self, x: usize, y: usize) -> (r: bool)
        requires
            self.wf(),
            x < SCREEN_WIDTH,
            y < SCREEN_HEIGHT,
        ensures
            r == lit(self@.vram[(y * SCREEN_WIDTH + x) as int]),
    {
        self.vram[y * SCREEN_WIDTH + x] & 1 == 1
    }
}

} // verus!
