use vstd::prelude::*;

use crate::font::font_seq;
use crate::instruction::sprite_bit;
use crate::instruction::Instruction;
use crate::Chip8Error;
use crate::DISPLAY_HEIGHT;
use crate::DISPLAY_WIDTH;
use crate::FLAG_REGISTER;
use crate::FONT_START;
use crate::KEY_COUNT;
use crate::RAM_SIZE;
use crate::VARIABLE_REGISTER_SIZE;

verus! {

/// Mathematical snapshot of the whole interpreter state. Every contract of
/// the executable interpreter speaks about values of this type.
#[verifier::ext_equal]
pub struct VmState {
    pub memory: Seq<u8>,
    pub display: Seq<bool>,
    pub keys: Seq<bool>,
    pub program_counter: u16,
    pub index_register: u16,
    pub stack: Seq<u16>,
    pub delay_timer: u8,
    pub sound_timer: u8,
    pub variable_registers: Seq<u8>,
}

/// The fixed sizes of every store: 4096 memory bytes, a 64 by 32 pixel
/// grid, 16 registers and 16 keys. The call stack is unbounded, a
/// documented simplification of the hardware's 16-frame limit.
pub open spec fn wf_state(s: VmState) -> bool {
    &&& s.memory.len() == RAM_SIZE
    &&& s.display.len() == DISPLAY_WIDTH * DISPLAY_HEIGHT
    &&& s.variable_registers.len() == VARIABLE_REGISTER_SIZE
    &&& s.keys.len() == KEY_COUNT
}

/// Memory as construction leaves it: the font table at `FONT_START`,
/// every other byte zero.
pub open spec fn initial_memory() -> Seq<u8> {
    Seq::new(
        RAM_SIZE as nat,
        |i: int|
            if (FONT_START as int) <= i < (FONT_START as int) + 80 {
                font_seq()[i - (FONT_START as int)]
            } else {
                0u8
            },
    )
}

/// The state a fresh machine starts in: font loaded, registers and timers
/// zeroed, display cleared, no keys pressed, empty call stack.
pub open spec fn initial_state() -> VmState {
    VmState {
        memory: initial_memory(),
        display: Seq::new((DISPLAY_WIDTH * DISPLAY_HEIGHT) as nat, |p: int| false),
        keys: Seq::new(KEY_COUNT as nat, |k: int| false),
        program_counter: 0,
        index_register: 0,
        stack: Seq::empty(),
        delay_timer: 0,
        sound_timer: 0,
        variable_registers: Seq::new(VARIABLE_REGISTER_SIZE as nat, |i: int| 0u8),
    }
}

/// Column of the pixel at linear framebuffer index `p`.
pub open spec fn pixel_x(p: int) -> int {
    p % (DISPLAY_WIDTH as int)
}

/// Row of the pixel at linear framebuffer index `p`.
pub open spec fn pixel_y(p: int) -> int {
    p / (DISPLAY_WIDTH as int)
}

/// Whether a sprite drawn at origin `(sx, sy)` covers pixel `p` after
/// `rows` full 8-pixel rows plus the first `cols` columns of the next row.
/// A full sprite of height `n` covers exactly `sprite_covers(sx, sy, n, 0, p)`.
/// Pixels right of column 63 or below row 31 have no index `p`, so sprites
/// clip at the display edges rather than wrapping around.
pub open spec fn sprite_covers(sx: int, sy: int, rows: int, cols: int, p: int) -> bool {
    let x = pixel_x(p);
    let y = pixel_y(p);
    &&& sx <= x < sx + 8
    &&& sy <= y
    &&& (y - sy < rows || (y - sy == rows && x - sx < cols))
}

/// The sprite bit that lands on pixel `p`: bit `x - sx` (counted from the
/// most significant end) of sprite row `y - sy`, read from memory at `i`.
pub open spec fn sprite_flip(mem: Seq<u8>, i: int, sx: int, sy: int, p: int) -> bool {
    sprite_bit(mem[i + (pixel_y(p) - sy)], pixel_x(p) - sx)
}

/// The framebuffer after XOR-drawing the covered part of the sprite:
/// covered pixels are toggled where the sprite bit is set, all others keep
/// their state.
pub open spec fn draw_display(
    d: Seq<bool>,
    mem: Seq<u8>,
    i: int,
    sx: int,
    sy: int,
    rows: int,
    cols: int,
) -> Seq<bool> {
    Seq::new(
        d.len(),
        |p: int|
            if sprite_covers(sx, sy, rows, cols, p) {
                d[p] != sprite_flip(mem, i, sx, sy, p)
            } else {
                d[p]
            },
    )
}

/// Whether the draw turns some pixel off: a covered pixel is on and the
/// sprite bit that lands on it is set. This is the collision signal
/// reported in the flag register.
pub open spec fn draw_collides(
    d: Seq<bool>,
    mem: Seq<u8>,
    i: int,
    sx: int,
    sy: int,
    rows: int,
    cols: int,
) -> bool {
    exists|p: int|
        0 <= p < d.len() && sprite_covers(sx, sy, rows, cols, p) && d[p] && sprite_flip(
            mem,
            i,
            sx,
            sy,
            p,
        )
}

/// Sprite origin column: Vx masked into the display width.
pub open spec fn start_x_of(s: VmState, x_register: usize) -> int {
    (s.variable_registers[x_register as int] as int) % (DISPLAY_WIDTH as int)
}

/// Sprite origin row: Vy masked into the display height.
pub open spec fn start_y_of(s: VmState, y_register: usize) -> int {
    (s.variable_registers[y_register as int] as int) % (DISPLAY_HEIGHT as int)
}

/// What executing one decoded instruction does to the state: the new state
/// and the result handed back to the driver. A failing instruction leaves
/// the state exactly as it was.
pub open spec fn exec_spec(s: VmState, instruction: Instruction) -> (VmState, Result<
    (),
    Chip8Error,
>) {
    if !instruction.wf() {
        (s, Err(Chip8Error::InvalidRegister))
    } else {
        match instruction {
            Instruction::ClearScreen => (
                VmState {
                    display: Seq::new((DISPLAY_WIDTH * DISPLAY_HEIGHT) as nat, |p: int| false),
                    ..s
                },
                Ok(()),
            ),
            Instruction::Jump(address) => (VmState { program_counter: address, ..s }, Ok(())),
            Instruction::Call(address) => (
                VmState { program_counter: address, stack: s.stack.push(s.program_counter), ..s },
                Ok(()),
            ),
            Instruction::Return => {
                if s.stack.len() == 0 {
                    (s, Err(Chip8Error::StackUnderflow))
                } else {
                    (
                        VmState {
                            program_counter: s.stack.last(),
                            stack: s.stack.drop_last(),
                            ..s
                        },
                        Ok(()),
                    )
                }
            },
            Instruction::SkipEqVal { register, value } => (
                VmState {
                    program_counter: if s.variable_registers[register as int] == value {
                        (s.program_counter + 2) as u16
                    } else {
                        s.program_counter
                    },
                    ..s
                },
                Ok(()),
            ),
            Instruction::SkipNeVal { register, value } => (
                VmState {
                    program_counter: if s.variable_registers[register as int] != value {
                        (s.program_counter + 2) as u16
                    } else {
                        s.program_counter
                    },
                    ..s
                },
                Ok(()),
            ),
            Instruction::SkipEqReg { x_register, y_register } => (
                VmState {
                    program_counter: if s.variable_registers[x_register as int]
                        == s.variable_registers[y_register as int] {
                        (s.program_counter + 2) as u16
                    } else {
                        s.program_counter
                    },
                    ..s
                },
                Ok(()),
            ),
            Instruction::SkipNeReg { x_register, y_register } => (
                VmState {
                    program_counter: if s.variable_registers[x_register as int]
                        != s.variable_registers[y_register as int] {
                        (s.program_counter + 2) as u16
                    } else {
                        s.program_counter
                    },
                    ..s
                },
                Ok(()),
            ),
            Instruction::SetRegister { register, value } => (
                VmState {
                    variable_registers: s.variable_registers.update(register as int, value),
                    ..s
                },
                Ok(()),
            ),
            Instruction::AddRegister { register, value } => (
                VmState {
                    variable_registers: s.variable_registers.update(
                        register as int,
                        ((s.variable_registers[register as int] + value) % 256) as u8,
                    ),
                    ..s
                },
                Ok(()),
            ),
            Instruction::SetIndex(address) => (VmState { index_register: address, ..s }, Ok(())),
            Instruction::Draw { x_register, y_register, count } => {
                if s.index_register + count > RAM_SIZE {
                    (s, Err(Chip8Error::OutOfBounds))
                } else {
                    let sx = start_x_of(s, x_register);
                    let sy = start_y_of(s, y_register);
                    let i = s.index_register as int;
                    (
                        VmState {
                            display: draw_display(
                                s.display,
                                s.memory,
                                i,
                                sx,
                                sy,
                                count as int,
                                0,
                            ),
                            variable_registers: s.variable_registers.update(
                                FLAG_REGISTER as int,
                                if draw_collides(s.display, s.memory, i, sx, sy, count as int, 0) {
                                    1u8
                                } else {
                                    0u8
                                },
                            ),
                            ..s
                        },
                        Ok(()),
                    )
                }
            },
        }
    }
}

/// Whether both bytes of the instruction word at the program counter lie
/// inside memory, so that a fetch succeeds.
pub open spec fn fetch_ok(s: VmState) -> bool {
    s.program_counter + 1 < RAM_SIZE
}

/// The big-endian 16-bit word at the program counter.
pub open spec fn fetched_word(s: VmState) -> u16 {
    (s.memory[s.program_counter as int] as u16 * 256 + s.memory[s.program_counter as int + 1]
        as u16) as u16
}

/// One full tick: fetch the word at the program counter and advance it by
/// 2 (so a jump, call or return overwrites the advanced value), decode,
/// execute. The first failure stops the tick and is handed back; a decode
/// failure still leaves the program counter advanced.
pub open spec fn step_spec(s: VmState) -> (VmState, Result<(), Chip8Error>) {
    if !fetch_ok(s) {
        (s, Err(Chip8Error::OutOfBounds))
    } else {
        let advanced = VmState { program_counter: (s.program_counter + 2) as u16, ..s };
        match Instruction::decode_spec(fetched_word(s)) {
            Err(e) => (advanced, Err(e)),
            Ok(instruction) => exec_spec(advanced, instruction),
        }
    }
}

/// `ticks` ticks in sequence, stopping at the first failure: the state
/// after the run and the result reported to the driver.
pub open spec fn run_spec(s: VmState, ticks: nat) -> (VmState, Result<(), Chip8Error>)
    decreases ticks,
{
    if ticks == 0 {
        (s, Ok(()))
    } else if step_spec(s).1 is Err {
        step_spec(s)
    } else {
        run_spec(step_spec(s).0, (ticks - 1) as nat)
    }
}

/// A pixel inside the display has the linear index its column and row say.
pub proof fn lemma_pixel_coords(x: int, y: int)
    requires
        0 <= x < DISPLAY_WIDTH,
        0 <= y < DISPLAY_HEIGHT,
    ensures
        pixel_x(x + y * (DISPLAY_WIDTH as int)) == x,
        pixel_y(x + y * (DISPLAY_WIDTH as int)) == y,
        0 <= x + y * (DISPLAY_WIDTH as int) < DISPLAY_WIDTH * DISPLAY_HEIGHT,
{
    vstd::arithmetic::div_mod::lemma_fundamental_div_mod_converse(
        x + y * (DISPLAY_WIDTH as int),
        DISPLAY_WIDTH as int,
        y,
        x,
    );
}

/// The coordinates of a linear index lie inside the display, and rebuild
/// the index.
pub proof fn lemma_coords_of_pixel(p: int)
    requires
        0 <= p < DISPLAY_WIDTH * DISPLAY_HEIGHT,
    ensures
        0 <= pixel_x(p) < DISPLAY_WIDTH,
        0 <= pixel_y(p) < DISPLAY_HEIGHT,
        p == pixel_x(p) + pixel_y(p) * (DISPLAY_WIDTH as int),
{
    vstd::arithmetic::div_mod::lemma_fundamental_div_mod(p, DISPLAY_WIDTH as int);
    vstd::arithmetic::div_mod::lemma_mod_pos_bound(p, DISPLAY_WIDTH as int);
}

/// Toggling the pixel for column `c` of sprite row `r` extends the
/// partially drawn display by one step, and the partial collision signal
/// picks up exactly whether that toggle turned the pixel off.
pub proof fn lemma_draw_step(
    d0: Seq<bool>,
    mem: Seq<u8>,
    i: int,
    sx: int,
    sy: int,
    r: int,
    c: int,
)
    requires
        d0.len() == DISPLAY_WIDTH * DISPLAY_HEIGHT,
        0 <= sx < DISPLAY_WIDTH,
        0 <= sy < DISPLAY_HEIGHT,
        0 <= r,
        0 <= c < 8,
        sx + c < DISPLAY_WIDTH,
        sy + r < DISPLAY_HEIGHT,
    ensures
        ({
            let q = (sx + c) + (sy + r) * (DISPLAY_WIDTH as int);
            let before = draw_display(d0, mem, i, sx, sy, r, c);
            draw_display(d0, mem, i, sx, sy, r, c + 1) == before.update(
                q,
                before[q] != sprite_bit(mem[i + r], c),
            )
        }),
        ({
            let q = (sx + c) + (sy + r) * (DISPLAY_WIDTH as int);
            draw_collides(d0, mem, i, sx, sy, r, c + 1) == (draw_collides(
                d0,
                mem,
                i,
                sx,
                sy,
                r,
                c,
            ) || (d0[q] && sprite_bit(mem[i + r], c)))
        }),
{
    let w = DISPLAY_WIDTH as int;
    let q = (sx + c) + (sy + r) * w;
    lemma_pixel_coords(sx + c, sy + r);
    let before = draw_display(d0, mem, i, sx, sy, r, c);
    let after = draw_display(d0, mem, i, sx, sy, r, c + 1);
    assert(sprite_flip(mem, i, sx, sy, q) == sprite_bit(mem[i + r], c));
    assert(!sprite_covers(sx, sy, r, c, q));
    assert(sprite_covers(sx, sy, r, c + 1, q));
    assert forall|p: int| 0 <= p < d0.len() implies after[p] == before.update(
        q,
        before[q] != sprite_bit(mem[i + r], c),
    )[p] by {
        lemma_coords_of_pixel(p);
        if p != q {
            if sprite_covers(sx, sy, r, c + 1, p) && !sprite_covers(sx, sy, r, c, p) {
                assert(pixel_y(p) == sy + r && pixel_x(p) == sx + c);
                assert(p == q);
            }
        }
    };
    assert(after =~= before.update(q, before[q] != sprite_bit(mem[i + r], c)));
    let hit_q = d0[q] && sprite_bit(mem[i + r], c);
    if draw_collides(d0, mem, i, sx, sy, r, c) {
        let p = choose|p: int|
            0 <= p < d0.len() && sprite_covers(sx, sy, r, c, p) && d0[p] && sprite_flip(
                mem,
                i,
                sx,
                sy,
                p,
            );
        assert(sprite_covers(sx, sy, r, c + 1, p));
        assert(draw_collides(d0, mem, i, sx, sy, r, c + 1));
    }
    if hit_q {
        assert(sprite_covers(sx, sy, r, c + 1, q) && d0[q] && sprite_flip(mem, i, sx, sy, q));
        assert(draw_collides(d0, mem, i, sx, sy, r, c + 1));
    }
    if draw_collides(d0, mem, i, sx, sy, r, c + 1) {
        let p = choose|p: int|
            0 <= p < d0.len() && sprite_covers(sx, sy, r, c + 1, p) && d0[p] && sprite_flip(
                mem,
                i,
                sx,
                sy,
                p,
            );
        lemma_coords_of_pixel(p);
        if sprite_covers(sx, sy, r, c, p) {
            assert(draw_collides(d0, mem, i, sx, sy, r, c));
        } else {
            assert(pixel_y(p) == sy + r && pixel_x(p) == sx + c);
            assert(p == q);
            assert(hit_q);
        }
    }
}

/// After all 8 columns of a row the partial draw equals the draw that has
/// one more full row and no extra columns.
pub proof fn lemma_draw_row_done(d0: Seq<bool>, mem: Seq<u8>, i: int, sx: int, sy: int, r: int)
    requires
        d0.len() == DISPLAY_WIDTH * DISPLAY_HEIGHT,
    ensures
        draw_display(d0, mem, i, sx, sy, r, 8) == draw_display(d0, mem, i, sx, sy, r + 1, 0),
        draw_collides(d0, mem, i, sx, sy, r, 8) == draw_collides(d0, mem, i, sx, sy, r + 1, 0),
{
    assert forall|p: int| 0 <= p < d0.len() implies sprite_covers(sx, sy, r, 8, p)
        == sprite_covers(sx, sy, r + 1, 0, p) by {}
    assert(draw_display(d0, mem, i, sx, sy, r, 8) =~= draw_display(d0, mem, i, sx, sy, r + 1, 0));
    if draw_collides(d0, mem, i, sx, sy, r, 8) {
        let p = choose|p: int|
            0 <= p < d0.len() && sprite_covers(sx, sy, r, 8, p) && d0[p] && sprite_flip(
                mem,
                i,
                sx,
                sy,
                p,
            );
        assert(sprite_covers(sx, sy, r + 1, 0, p));
        assert(draw_collides(d0, mem, i, sx, sy, r + 1, 0));
    }
    if draw_collides(d0, mem, i, sx, sy, r + 1, 0) {
        let p = choose|p: int|
            0 <= p < d0.len() && sprite_covers(sx, sy, r + 1, 0, p) && d0[p] && sprite_flip(
                mem,
                i,
                sx,
                sy,
                p,
            );
        assert(sprite_covers(sx, sy, r, 8, p));
        assert(draw_collides(d0, mem, i, sx, sy, r, 8));
    }
}

/// When the remaining columns of a row would fall right of the display,
/// the row is already complete: clipping ends the row early.
pub proof fn lemma_draw_col_clip(
    d0: Seq<bool>,
    mem: Seq<u8>,
    i: int,
    sx: int,
    sy: int,
    r: int,
    c: int,
)
    requires
        d0.len() == DISPLAY_WIDTH * DISPLAY_HEIGHT,
        0 <= sx,
        0 <= c <= 8,
        sx + c >= DISPLAY_WIDTH,
    ensures
        draw_display(d0, mem, i, sx, sy, r, c) == draw_display(d0, mem, i, sx, sy, r + 1, 0),
        draw_collides(d0, mem, i, sx, sy, r, c) == draw_collides(d0, mem, i, sx, sy, r + 1, 0),
{
    assert forall|p: int| 0 <= p < d0.len() implies sprite_covers(sx, sy, r, c, p)
        == sprite_covers(sx, sy, r + 1, 0, p) by {
        lemma_coords_of_pixel(p);
    }
    assert(draw_display(d0, mem, i, sx, sy, r, c) =~= draw_display(d0, mem, i, sx, sy, r + 1, 0));
    if draw_collides(d0, mem, i, sx, sy, r, c) {
        let p = choose|p: int|
            0 <= p < d0.len() && sprite_covers(sx, sy, r, c, p) && d0[p] && sprite_flip(
                mem,
                i,
                sx,
                sy,
                p,
            );
        assert(sprite_covers(sx, sy, r + 1, 0, p));
        assert(draw_collides(d0, mem, i, sx, sy, r + 1, 0));
    }
    if draw_collides(d0, mem, i, sx, sy, r + 1, 0) {
        let p = choose|p: int|
            0 <= p < d0.len() && sprite_covers(sx, sy, r + 1, 0, p) && d0[p] && sprite_flip(
                mem,
                i,
                sx,
                sy,
                p,
            );
        lemma_coords_of_pixel(p);
        assert(sprite_covers(sx, sy, r, c, p));
        assert(draw_collides(d0, mem, i, sx, sy, r, c));
    }
}

/// When the next sprite row would fall below the display, the whole draw
/// is already complete: clipping ends the sprite early.
pub proof fn lemma_draw_row_clip(
    d0: Seq<bool>,
    mem: Seq<u8>,
    i: int,
    sx: int,
    sy: int,
    r: int,
    n: int,
)
    requires
        d0.len() == DISPLAY_WIDTH * DISPLAY_HEIGHT,
        0 <= sy,
        0 <= r <= n,
        sy + r >= DISPLAY_HEIGHT,
    ensures
        draw_display(d0, mem, i, sx, sy, r, 0) == draw_display(d0, mem, i, sx, sy, n, 0),
        draw_collides(d0, mem, i, sx, sy, r, 0) == draw_collides(d0, mem, i, sx, sy, n, 0),
{
    assert forall|p: int| 0 <= p < d0.len() implies sprite_covers(sx, sy, r, 0, p)
        == sprite_covers(sx, sy, n, 0, p) by {
        lemma_coords_of_pixel(p);
    }
    assert(draw_display(d0, mem, i, sx, sy, r, 0) =~= draw_display(d0, mem, i, sx, sy, n, 0));
    if draw_collides(d0, mem, i, sx, sy, r, 0) {
        let p = choose|p: int|
            0 <= p < d0.len() && sprite_covers(sx, sy, r, 0, p) && d0[p] && sprite_flip(
                mem,
                i,
                sx,
                sy,
                p,
            );
        lemma_coords_of_pixel(p);
        assert(sprite_covers(sx, sy, n, 0, p));
        assert(draw_collides(d0, mem, i, sx, sy, n, 0));
    }
    if draw_collides(d0, mem, i, sx, sy, n, 0) {
        let p = choose|p: int|
            0 <= p < d0.len() && sprite_covers(sx, sy, n, 0, p) && d0[p] && sprite_flip(
                mem,
                i,
                sx,
                sy,
                p,
            );
        lemma_coords_of_pixel(p);
        assert(sprite_covers(sx, sy, r, 0, p));
        assert(draw_collides(d0, mem, i, sx, sy, r, 0));
    }
}

/// Extending a run that has not failed by one tick appends one step.
pub proof fn lemma_run_snoc(s: VmState, ticks: nat)
    requires
        run_spec(s, ticks).1 is Ok,
    ensures
        run_spec(s, ticks + 1) == step_spec(run_spec(s, ticks).0),
    decreases ticks,
{
    if ticks == 0 {
        reveal_with_fuel(run_spec, 2);
        if !(step_spec(s).1 is Err) {
            assert(run_spec(step_spec(s).0, 0) == (step_spec(s).0, Ok::<(), Chip8Error>(())));
            assert(step_spec(s) == (step_spec(s).0, Ok::<(), Chip8Error>(())));
        }
    } else {
        assert(!(step_spec(s).1 is Err));
        lemma_run_snoc(step_spec(s).0, (ticks - 1) as nat);
    }
}

/// Once a step fails, every longer run ends in that same failed step.
pub proof fn lemma_run_absorbs_failure(s: VmState, done: nat, ticks: nat)
    requires
        done < ticks,
        run_spec(s, done).1 is Ok,
        step_spec(run_spec(s, done).0).1 is Err,
    ensures
        run_spec(s, ticks) == step_spec(run_spec(s, done).0),
    decreases done,
{
    if done == 0 {
        assert(run_spec(s, done).0 == s);
    } else {
        assert(!(step_spec(s).1 is Err));
        lemma_run_absorbs_failure(step_spec(s).0, (done - 1) as nat, (ticks - 1) as nat);
    }
}

} // verus!
