use vstd::prelude::*;

use crate::instruction::lemma_field_bounds;
use crate::instruction::Instruction;
use crate::state::draw_collides;
use crate::state::draw_display;
use crate::state::exec_spec;
use crate::state::fetch_ok;
use crate::state::fetched_word;
use crate::state::sprite_covers;
use crate::state::sprite_flip;
use crate::state::start_x_of;
use crate::state::start_y_of;
use crate::state::step_spec;
use crate::state::wf_state;
use crate::state::VmState;
use crate::Chip8Error;
use crate::FLAG_REGISTER;
use crate::RAM_SIZE;
use crate::VARIABLE_REGISTER_SIZE;

verus! {

/// A jump always succeeds and leaves the program counter at its 12-bit
/// target, so the next fetch happens at exactly that address and reads the
/// big-endian word stored there.
pub proof fn lemma_jump_then_fetch(s: VmState, address: u16)
    requires
        wf_state(s),
        address < RAM_SIZE,
    ensures
        exec_spec(s, Instruction::Jump(address)).1 == Ok::<(), Chip8Error>(()),
        exec_spec(s, Instruction::Jump(address)).0.program_counter == address,
        address + 1 < RAM_SIZE ==> {
            let after = exec_spec(s, Instruction::Jump(address)).0;
            &&& fetch_ok(after)
            &&& fetched_word(after) == (s.memory[address as int] as u16 * 256
                + s.memory[address as int + 1] as u16) as u16
        },
{
}

/// A call pushes the return address and jumps; the return that follows
/// pops it again. Since the program counter was already advanced past the
/// 2-byte call instruction when the call executed, the pair restores the
/// counter to the address immediately following the call, and leaves the
/// whole state exactly as it was before the call.
pub proof fn lemma_call_then_return(s: VmState, address: u16)
    requires
        wf_state(s),
    ensures
        exec_spec(s, Instruction::Call(address)).1 == Ok::<(), Chip8Error>(()),
        exec_spec(s, Instruction::Call(address)).0.program_counter == address,
        ({
            let called = exec_spec(s, Instruction::Call(address)).0;
            &&& exec_spec(called, Instruction::Return).1 == Ok::<(), Chip8Error>(())
            &&& exec_spec(called, Instruction::Return).0.program_counter == s.program_counter
            &&& exec_spec(called, Instruction::Return).0 == s
        }),
{
    let called = exec_spec(s, Instruction::Call(address)).0;
    assert(called.stack.len() > 0);
    assert(called.stack.last() == s.program_counter);
    assert(called.stack.drop_last() =~= s.stack);
    assert(exec_spec(called, Instruction::Return).0 =~= s);
}

/// Drawing the same sprite twice at the same origin, with nothing drawn in
/// between, restores every pixel to its value before the first draw: XOR
/// drawing is self-inverse. The flag register afterwards is 1 exactly if
/// the second draw toggled some pixel off. The origin registers must not
/// be the flag register itself, which the first draw rewrites.
pub proof fn lemma_draw_twice_restores(s: VmState, x_register: usize, y_register: usize, count: u8)
    requires
        wf_state(s),
        x_register < VARIABLE_REGISTER_SIZE,
        y_register < VARIABLE_REGISTER_SIZE,
        x_register != FLAG_REGISTER,
        y_register != FLAG_REGISTER,
        s.index_register + count <= RAM_SIZE,
    ensures
        ({
            let draw = Instruction::Draw { x_register, y_register, count };
            let once = exec_spec(s, draw).0;
            let twice = exec_spec(once, draw).0;
            &&& exec_spec(s, draw).1 == Ok::<(), Chip8Error>(())
            &&& exec_spec(once, draw).1 == Ok::<(), Chip8Error>(())
            &&& twice.display == s.display
            &&& (twice.variable_registers[FLAG_REGISTER as int] == 1 <==> exists|p: int|
                0 <= p < s.display.len() && once.display[p] && !twice.display[p])
            &&& (twice.variable_registers[FLAG_REGISTER as int] == 0
                || twice.variable_registers[FLAG_REGISTER as int] == 1)
        }),
{
    let draw = Instruction::Draw { x_register, y_register, count };
    let once = exec_spec(s, draw).0;
    let twice = exec_spec(once, draw).0;
    let sx = start_x_of(s, x_register);
    let sy = start_y_of(s, y_register);
    let i = s.index_register as int;
    let n = count as int;
    let d0 = s.display;
    let d1 = draw_display(d0, s.memory, i, sx, sy, n, 0);

    // The first draw only rewrites the flag register, so the second draw
    // has the same origin, sprite address and sprite rows.
    assert(start_x_of(once, x_register) == sx);
    assert(start_y_of(once, y_register) == sy);
    assert(once.memory == s.memory);
    assert(once.index_register == s.index_register);
    assert(once.display == d1);

    let d2 = draw_display(d1, s.memory, i, sx, sy, n, 0);
    assert(twice.display == d2);

    // XOR self-inverse: toggling each covered pixel twice restores it.
    assert forall|p: int| 0 <= p < d0.len() implies d2[p] == d0[p] by {}
    assert(d2 =~= d0);

    // The second draw collides exactly on the pixels it toggles off:
    // pixels on after the first draw whose sprite bit is set.
    if draw_collides(d1, s.memory, i, sx, sy, n, 0) {
        let p = choose|p: int|
            0 <= p < d1.len() && sprite_covers(sx, sy, n, 0, p) && d1[p] && sprite_flip(
                s.memory,
                i,
                sx,
                sy,
                p,
            );
        assert(d2[p] == !d1[p]);
        assert(once.display[p] && !twice.display[p]);
    }
    if exists|p: int| 0 <= p < d0.len() && d1[p] && !d2[p] {
        let p = choose|p: int| 0 <= p < d0.len() && d1[p] && !d2[p];
        assert(sprite_covers(sx, sy, n, 0, p) && sprite_flip(s.memory, i, sx, sy, p));
        assert(draw_collides(d1, s.memory, i, sx, sy, n, 0));
    }
}

/// Adding an immediate to a register wraps at 8 bits and never touches the
/// flag register: the add carries no carry flag. (When the target register
/// is the flag register itself, the add rewrites it as any write to that
/// register would, so the law speaks of the other fifteen.)
pub proof fn lemma_add_register_keeps_flag(s: VmState, register: usize, value: u8)
    requires
        wf_state(s),
        register < VARIABLE_REGISTER_SIZE,
        register != FLAG_REGISTER,
    ensures
        exec_spec(s, Instruction::AddRegister { register, value }).1 == Ok::<(), Chip8Error>(()),
        ({
            let after = exec_spec(s, Instruction::AddRegister { register, value }).0;
            &&& after.variable_registers[register as int] == ((s.variable_registers[register as int]
                + value) % 256) as u8
            &&& after.variable_registers[FLAG_REGISTER as int] == s.variable_registers[FLAG_REGISTER
                as int]
            &&& after == (VmState {
                variable_registers: after.variable_registers,
                ..s
            })
        }),
{
}

/// Of a complementary skip pair on the same register and immediate,
/// exactly one skips for any register state: the one whose condition
/// holds advances the program counter by an extra 2 beyond the fetch's
/// own advance of 2 (4 in total past the instruction), the other leaves
/// the fetch's advance alone (2 in total).
pub proof fn lemma_skip_val_complementary(s: VmState, register: usize, value: u8)
    requires
        wf_state(s),
        register < VARIABLE_REGISTER_SIZE,
        s.program_counter + 2 <= u16::MAX,
    ensures
        exec_spec(s, Instruction::SkipEqVal { register, value }).1 == Ok::<(), Chip8Error>(()),
        exec_spec(s, Instruction::SkipNeVal { register, value }).1 == Ok::<(), Chip8Error>(()),
        ({
            let eq_pc = exec_spec(s, Instruction::SkipEqVal { register, value }).0.program_counter;
            let ne_pc = exec_spec(s, Instruction::SkipNeVal { register, value }).0.program_counter;
            &&& (s.variable_registers[register as int] == value ==> eq_pc == s.program_counter + 2
                && ne_pc == s.program_counter)
            &&& (s.variable_registers[register as int] != value ==> eq_pc == s.program_counter
                && ne_pc == s.program_counter + 2)
            &&& ((eq_pc == s.program_counter + 2) != (ne_pc == s.program_counter + 2))
        }),
{
}

/// The register-register skip pair behaves as the immediate pair does:
/// exactly one of the two skips for any register state.
pub proof fn lemma_skip_reg_complementary(s: VmState, x_register: usize, y_register: usize)
    requires
        wf_state(s),
        x_register < VARIABLE_REGISTER_SIZE,
        y_register < VARIABLE_REGISTER_SIZE,
        s.program_counter + 2 <= u16::MAX,
    ensures
        exec_spec(s, Instruction::SkipEqReg { x_register, y_register }).1 == Ok::<(), Chip8Error>(
            (),
        ),
        exec_spec(s, Instruction::SkipNeReg { x_register, y_register }).1 == Ok::<(), Chip8Error>(
            (),
        ),
        ({
            let eq_pc = exec_spec(
                s,
                Instruction::SkipEqReg { x_register, y_register },
            ).0.program_counter;
            let ne_pc = exec_spec(
                s,
                Instruction::SkipNeReg { x_register, y_register },
            ).0.program_counter;
            &&& (s.variable_registers[x_register as int] == s.variable_registers[y_register as int]
                ==> eq_pc == s.program_counter + 2 && ne_pc == s.program_counter)
            &&& (s.variable_registers[x_register as int] != s.variable_registers[y_register as int]
                ==> eq_pc == s.program_counter && ne_pc == s.program_counter + 2)
            &&& ((eq_pc == s.program_counter + 2) != (ne_pc == s.program_counter + 2))
        }),
{
}

/// Whether a decoded skip instruction's condition holds in a state.
pub open spec fn skip_condition(s: VmState, instruction: Instruction) -> bool {
    match instruction {
        Instruction::SkipEqVal { register, value } => s.variable_registers[register as int]
            == value,
        Instruction::SkipNeVal { register, value } => s.variable_registers[register as int]
            != value,
        Instruction::SkipEqReg { x_register, y_register } => s.variable_registers[x_register as int]
            == s.variable_registers[y_register as int],
        Instruction::SkipNeReg { x_register, y_register } => s.variable_registers[x_register as int]
            != s.variable_registers[y_register as int],
        _ => false,
    }
}

/// Whether an instruction is one of the four conditional skips.
pub open spec fn is_skip(instruction: Instruction) -> bool {
    ||| instruction is SkipEqVal
    ||| instruction is SkipNeVal
    ||| instruction is SkipEqReg
    ||| instruction is SkipNeReg
}

/// Through one whole tick, a skip instruction advances the program counter
/// by 4 in total when its condition holds, else by 2; the condition is
/// judged on the register state, which the tick does not change.
pub proof fn lemma_skip_tick_advance(s: VmState)
    requires
        wf_state(s),
        fetch_ok(s),
        Instruction::decode_spec(fetched_word(s)) is Ok,
        is_skip(Instruction::decode_spec(fetched_word(s))->Ok_0),
    ensures
        step_spec(s).1 == Ok::<(), Chip8Error>(()),
        step_spec(s).0.program_counter == if skip_condition(
            s,
            Instruction::decode_spec(fetched_word(s))->Ok_0,
        ) {
            s.program_counter + 4
        } else {
            s.program_counter + 2
        },
{
    lemma_field_bounds(fetched_word(s));
    let instruction = Instruction::decode_spec(fetched_word(s))->Ok_0;
    assert(instruction.wf());
    let advanced = VmState { program_counter: (s.program_counter + 2) as u16, ..s };
    assert(step_spec(s) == exec_spec(advanced, instruction));
    assert(s.program_counter + 1 < RAM_SIZE);
}

} // verus!
