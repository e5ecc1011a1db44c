use vstd::prelude::*;

use crate::display::Display;
use crate::font::font_data;
use crate::instruction::get_bits;
use crate::instruction::Instruction;
use crate::memory::Memory;
use crate::state::draw_collides;
use crate::state::draw_display;
use crate::state::exec_spec;
use crate::state::fetch_ok;
use crate::state::fetched_word;
use crate::state::initial_state;
use crate::state::lemma_draw_col_clip;
use crate::state::lemma_draw_row_clip;
use crate::state::lemma_draw_row_done;
use crate::state::lemma_draw_step;
use crate::state::lemma_pixel_coords;
use crate::state::lemma_run_absorbs_failure;
use crate::state::lemma_run_snoc;
use crate::state::run_spec;
use crate::state::step_spec;
use crate::state::wf_state;
use crate::state::VmState;
use crate::Chip8Error;
use crate::DISPLAY_HEIGHT;
use crate::DISPLAY_WIDTH;
use crate::FLAG_REGISTER;
use crate::FONT_START;
use crate::KEY_COUNT;
use crate::PROGRAM_START;
use crate::RAM_SIZE;
use crate::VARIABLE_REGISTER_SIZE;

verus! {

/// The interpreter: owns memory, registers, call stack, timers, display
/// and key state, and drives fetch, decode, execute. Its whole behaviour
/// is stated over the `VmState` view and the transition functions
/// `exec_spec`, `step_spec` and `run_spec`.
pub struct Chip8 {
    memory: Memory,
    display: Display,
    keys: Vec<bool>,
    program_counter: u16,
    index_register: u16,
    stack: Vec<u16>,
    delay_timer: u8,
    sound_timer: u8,
    variable_registers: Vec<u8>,
    ticks: usize,
    debug: bool,
}

impl View for Chip8 {
    type V = VmState;

    closed spec fn view(&self) -> VmState {
        VmState {
            memory: self.memory@,
            display: self.display@,
            keys: self.keys@,
            program_counter: self.program_counter,
            index_register: self.index_register,
            stack: self.stack@,
            delay_timer: self.delay_timer,
            sound_timer: self.sound_timer,
            variable_registers: self.variable_registers@,
        }
    }
}

impl Chip8 {
    /// Every store has its fixed size.
    pub open spec fn wf(&self) -> bool {
        wf_state(self@)
    }

    /// How many fetch-decode-execute cycles one `update` call runs.
    pub closed spec fn spec_ticks(&self) -> usize {
        self.ticks
    }

    /// Whether the front end asked for per-frame state dumps.
    pub closed spec fn spec_debug(&self) -> bool {
        self.debug
    }

    /// Builds a machine in `initial_state`: zeroed registers and timers, a
    /// cleared display, and the font table loaded at `FONT_START`. Each
    /// later `update` call runs `ticks` cycles.
    pub fn new(ticks: usize, debug: bool) -> (r: Result<Chip8, Chip8Error>)
        ensures
            r is Ok,
            r->Ok_0.wf(),
            r->Ok_0@ == initial_state(),
            r->Ok_0.spec_ticks() == ticks,
    {
        let mut keys: Vec<bool> = Vec::new();
        let mut k: usize = 0;
        while k < KEY_COUNT
            invariant
                k <= KEY_COUNT,
                keys@.len() == k,
                forall|j: int| 0 <= j < k ==> keys@[j] == false,
            decreases KEY_COUNT - k,
        {
            keys.push(false);
            k = k + 1;
        }
        let mut variable_registers: Vec<u8> = Vec::new();
        let mut v: usize = 0;
        while v < VARIABLE_REGISTER_SIZE
            invariant
                v <= VARIABLE_REGISTER_SIZE,
                variable_registers@.len() == v,
                forall|j: int| 0 <= j < v ==> variable_registers@[j] == 0u8,
            decreases VARIABLE_REGISTER_SIZE - v,
        {
            variable_registers.push(0u8);
            v = v + 1;
        }
        let mut chip = Chip8 {
            memory: Memory::new(),
            display: Display::new(),
            keys,
            program_counter: 0,
            index_register: 0,
            stack: Vec::new(),
            delay_timer: 0,
            sound_timer: 0,
            variable_registers,
            ticks,
            debug,
        };
        let font = font_data();
        match chip.memory.load(FONT_START, font.as_slice()) {
            Ok(_) => {
                proof {
                    assert(chip.memory@ =~= initial_state().memory);
                    assert(chip.keys@ =~= initial_state().keys);
                    assert(chip.variable_registers@ =~= initial_state().variable_registers);
                    assert(chip.stack@ =~= initial_state().stack);
                    assert(chip@ =~= initial_state());
                }
                Ok(chip)
            },
            Err(_) => {
                proof {
                    assert(false);
                }
                Err(Chip8Error::CapacityExceeded)
            },
        }
    }

    /// The framebuffer, row-major, as a read-only snapshot for the
    /// external renderer.
    pub fn screen(&self) -> (r: &[bool])
        ensures
            r@ == self@.display,
    {
        self.display.pixels()
    }

    /// Records a key transition from the external event source: key `key`
    /// is now down or up. The last write for a key wins.
    pub fn on_input(&mut self, key: usize, down: bool)
        requires
            old(self).wf(),
            key < KEY_COUNT,
        ensures
            final(self).wf(),
            final(self)@ == (VmState { keys: old(self)@.keys.update(key as int, down), ..old(self)@ }),
            final(self).spec_ticks() == old(self).spec_ticks(),
    {
        self.keys[key] = down;
    }

    /// Copies a program into memory at `PROGRAM_START` and resets the
    /// program counter there. Fails with `CapacityExceeded`, leaving
    /// memory and the program counter untouched, if the program does not
    /// fit between `PROGRAM_START` and the end of memory. Registers,
    /// stack, display and timers are left as they are either way.
    pub fn load_program(&mut self, data: &[u8]) -> (r: Result<(), Chip8Error>)
        requires
            old(self).wf(),
        ensures
            final(self).wf(),
            final(self).spec_ticks() == old(self).spec_ticks(),
            PROGRAM_START + data@.len() <= RAM_SIZE ==> {
                &&& r == Ok::<(), Chip8Error>(())
                &&& final(self)@ == (VmState {
                    memory: old(self)@.memory.subrange(0, PROGRAM_START as int) + data@ + old(
                        self,
                    )@.memory.subrange(PROGRAM_START + data@.len(), RAM_SIZE as int),
                    program_counter: PROGRAM_START,
                    ..old(self)@
                })
            },
            PROGRAM_START + data@.len() > RAM_SIZE ==> {
                &&& r == Err::<(), Chip8Error>(Chip8Error::CapacityExceeded)
                &&& final(self)@ == old(self)@
            },
    {
        match self.memory.load(PROGRAM_START, data) {
            Ok(_) => {
                self.program_counter = PROGRAM_START;
                Ok(())
            },
            Err(e) => Err(e),
        }
    }

    /// Decrements each timer by one, saturating at zero; driven by the
    /// external clock once per real-time frame, never by instruction
    /// execution.
    pub fn tick_timers(&mut self)
        requires
            old(self).wf(),
        ensures
            final(self).wf(),
            final(self)@ == (VmState {
                delay_timer: if old(self)@.delay_timer > 0 {
                    (old(self)@.delay_timer - 1) as u8
                } else {
                    0u8
                },
                sound_timer: if old(self)@.sound_timer > 0 {
                    (old(self)@.sound_timer - 1) as u8
                } else {
                    0u8
                },
                ..old(self)@
            }),
            final(self).spec_ticks() == old(self).spec_ticks(),
    {
        if self.delay_timer > 0 {
            self.delay_timer = self.delay_timer - 1;
        }
        if self.sound_timer > 0 {
            self.sound_timer = self.sound_timer - 1;
        }
    }

    /// Whether the machine was built with state dumping requested; the
    /// front end decides what to print with it.
    pub fn debug(&self) -> (r: bool)
        ensures
            r == self.spec_debug(),
    {
        self.debug
    }

    /// The current program counter.
    pub fn program_counter(&self) -> (r: u16)
        ensures
            r == self@.program_counter,
    {
        self.program_counter
    }

    /// The current index register.
    pub fn index_register(&self) -> (r: u16)
        ensures
            r == self@.index_register,
    {
        self.index_register
    }

    /// The current value of register `index`.
    pub fn register(&self, index: usize) -> (r: u8)
        requires
            self.wf(),
            index < VARIABLE_REGISTER_SIZE,
        ensures
            r == self@.variable_registers[index as int],
    {
        self.variable_registers[index]
    }

    /// Whether key `index` is currently down.
    pub fn key(&self, index: usize) -> (r: bool)
        requires
            self.wf(),
            index < KEY_COUNT,
        ensures
            r == self@.keys[index as int],
    {
        self.keys[index]
    }

    /// The current delay timer value.
    pub fn delay_timer(&self) -> (r: u8)
        ensures
            r == self@.delay_timer,
    {
        self.delay_timer
    }

    /// The current sound timer value.
    pub fn sound_timer(&self) -> (r: u8)
        ensures
            r == self@.sound_timer,
    {
        self.sound_timer
    }

    /// How many saved return addresses the call stack holds.
    pub fn stack_depth(&self) -> (r: usize)
        ensures
            r == self@.stack.len(),
    {
        self.stack.len()
    }

    /// Reads the instruction word at the program counter and advances the
    /// counter by 2, so that a jump, call or return executed next
    /// overwrites the advanced value; fails with `OutOfBounds`, leaving
    /// the counter untouched, if the word does not lie inside memory.
    pub fn fetch(&mut self) -> (r: Result<u16, Chip8Error>)
        requires
            old(self).wf(),
        ensures
            final(self).wf(),
            final(self).spec_ticks() == old(self).spec_ticks(),
            fetch_ok(old(self)@) ==> {
                &&& r == Ok::<u16, Chip8Error>(fetched_word(old(self)@))
                &&& final(self)@ == (VmState {
                    program_counter: (old(self)@.program_counter + 2) as u16,
                    ..old(self)@
                })
            },
            !fetch_ok(old(self)@) ==> {
                &&& r == Err::<u16, Chip8Error>(Chip8Error::OutOfBounds)
                &&& final(self)@ == old(self)@
            },
    {
        match self.memory.get_instruction(self.program_counter as usize) {
            Ok(word) => {
                self.program_counter = self.program_counter + 2;
                Ok(word)
            },
            Err(e) => Err(e),
        }
    }

    /// Executes one decoded instruction: exactly the transition
    /// `exec_spec` describes, including the XOR sprite draw with collision
    /// reporting in the flag register. A failing instruction leaves the
    /// state unchanged except for work `exec_spec` itself records.
    pub fn execute(&mut self, instruction: Instruction) -> (r: Result<(), Chip8Error>)
        requires
            old(self).wf(),
            old(self)@.program_counter + 2 <= u16::MAX,
        ensures
            final(self).wf(),
            final(self)@ == exec_spec(old(self)@, instruction).0,
            r == exec_spec(old(self)@, instruction).1,
            final(self).spec_ticks() == old(self).spec_ticks(),
    {
        match instruction {
            Instruction::ClearScreen => {
                self.display.clear();
                Ok(())
            },
            Instruction::Jump(address) => {
                self.program_counter = address;
                Ok(())
            },
            Instruction::Call(address) => {
                self.stack.push(self.program_counter);
                self.program_counter = address;
                Ok(())
            },
            Instruction::Return => {
                match self.stack.pop() {
                    Some(address) => {
                        self.program_counter = address;
                        Ok(())
                    },
                    None => Err(Chip8Error::StackUnderflow),
                }
            },
            Instruction::SkipEqVal { register, value } => {
                if register >= VARIABLE_REGISTER_SIZE {
                    return Err(Chip8Error::InvalidRegister);
                }
                if self.variable_registers[register] == value {
                    self.program_counter = self.program_counter + 2;
                }
                Ok(())
            },
            Instruction::SkipNeVal { register, value } => {
                if register >= VARIABLE_REGISTER_SIZE {
                    return Err(Chip8Error::InvalidRegister);
                }
                if self.variable_registers[register] != value {
                    self.program_counter = self.program_counter + 2;
                }
                Ok(())
            },
            Instruction::SkipEqReg { x_register, y_register } => {
                if x_register >= VARIABLE_REGISTER_SIZE || y_register >= VARIABLE_REGISTER_SIZE {
                    return Err(Chip8Error::InvalidRegister);
                }
                if self.variable_registers[x_register] == self.variable_registers[y_register] {
                    self.program_counter = self.program_counter + 2;
                }
                Ok(())
            },
            Instruction::SkipNeReg { x_register, y_register } => {
                if x_register >= VARIABLE_REGISTER_SIZE || y_register >= VARIABLE_REGISTER_SIZE {
                    return Err(Chip8Error::InvalidRegister);
                }
                if self.variable_registers[x_register] != self.variable_registers[y_register] {
                    self.program_counter = self.program_counter + 2;
                }
                Ok(())
            },
            Instruction::SetRegister { register, value } => {
                if register >= VARIABLE_REGISTER_SIZE {
                    return Err(Chip8Error::InvalidRegister);
                }
                self.variable_registers[register] = value;
                Ok(())
            },
            Instruction::AddRegister { register, value } => {
                if register >= VARIABLE_REGISTER_SIZE {
                    return Err(Chip8Error::InvalidRegister);
                }
                let sum = self.variable_registers[register] as u16 + value as u16;
                self.variable_registers[register] = (sum % 256) as u8;
                Ok(())
            },
            Instruction::SetIndex(address) => {
                self.index_register = address;
                Ok(())
            },
            Instruction::Draw { x_register, y_register, count } => {
                self.execute_draw(x_register, y_register, count)
            },
        }
    }

    /// The sprite draw: XOR-draws the `count`-row sprite at memory address
    /// I with origin (Vx mod 64, Vy mod 32), clipping at the display
    /// edges, and sets the flag register to 1 exactly if some pixel
    /// toggled off.
    fn execute_draw(&mut self, x_register: usize, y_register: usize, count: u8) -> (r: Result<
        (),
        Chip8Error,
    >)
        requires
            old(self).wf(),
        ensures
            final(self).wf(),
            final(self)@ == exec_spec(
                old(self)@,
                Instruction::Draw { x_register, y_register, count },
            ).0,
            r == exec_spec(old(self)@, Instruction::Draw { x_register, y_register, count }).1,
            final(self).spec_ticks() == old(self).spec_ticks(),
    {
        if x_register >= VARIABLE_REGISTER_SIZE || y_register >= VARIABLE_REGISTER_SIZE {
            return Err(Chip8Error::InvalidRegister);
        }
        let i0 = self.index_register as usize;
        let count_us = count as usize;
        if i0 + count_us > RAM_SIZE {
            return Err(Chip8Error::OutOfBounds);
        }
        let vx = self.variable_registers[x_register];
        let vy = self.variable_registers[y_register];
        let start_x = (vx & 0x3F) as usize;
        let start_y = (vy & 0x1F) as usize;
        proof {
            assert(vx & 0x3F == vx % 64 && vy & 0x1F == vy % 32) by (bit_vector);
        }
        let ghost s0 = self@;
        let ghost sx = start_x as int;
        let ghost sy = start_y as int;
        let ghost ii = i0 as int;
        let mut collided = false;
        let mut r: usize = 0;
        while r < count_us && start_y + r < DISPLAY_HEIGHT
            invariant
                self.wf(),
                wf_state(s0),
                r <= count_us,
                count_us == count,
                i0 + count_us <= RAM_SIZE,
                ii == i0 as int,
                sx == start_x as int,
                sy == start_y as int,
                0 <= sx < DISPLAY_WIDTH,
                0 <= sy < DISPLAY_HEIGHT,
                self.memory@ == s0.memory,
                self.keys@ == s0.keys,
                self.program_counter == s0.program_counter,
                self.index_register == s0.index_register,
                self.stack@ == s0.stack,
                self.delay_timer == s0.delay_timer,
                self.sound_timer == s0.sound_timer,
                self.variable_registers@ == s0.variable_registers,
                self.ticks == old(self).ticks,
                self.debug == old(self).debug,
                self.display@ == draw_display(s0.display, s0.memory, ii, sx, sy, r as int, 0),
                collided == draw_collides(s0.display, s0.memory, ii, sx, sy, r as int, 0),
            decreases count_us - r,
        {
            let row_byte = self.memory.read_byte(i0 + r);
            let bits = get_bits(row_byte);
            let y = start_y + r;
            let mut c: usize = 0;
            while c < 8 && start_x + c < DISPLAY_WIDTH
                invariant
                    self.wf(),
                    wf_state(s0),
                    c <= 8,
                    r < count_us,
                    count_us == count,
                    i0 + count_us <= RAM_SIZE,
                    ii == i0 as int,
                    sx == start_x as int,
                    sy == start_y as int,
                    0 <= sx < DISPLAY_WIDTH,
                    0 <= sy < DISPLAY_HEIGHT,
                    y == start_y + r,
                    y < DISPLAY_HEIGHT,
                    bits@.len() == 8,
                    forall|k: int| 0 <= k < 8 ==> bits@[k] == crate::instruction::sprite_bit(
                        s0.memory[ii + r], k,
                    ),
                    self.memory@ == s0.memory,
                    self.keys@ == s0.keys,
                    self.program_counter == s0.program_counter,
                    self.index_register == s0.index_register,
                    self.stack@ == s0.stack,
                    self.delay_timer == s0.delay_timer,
                    self.sound_timer == s0.sound_timer,
                    self.variable_registers@ == s0.variable_registers,
                    self.ticks == old(self).ticks,
                    self.debug == old(self).debug,
                    self.display@ == draw_display(
                        s0.display, s0.memory, ii, sx, sy, r as int, c as int,
                    ),
                    collided == draw_collides(
                        s0.display, s0.memory, ii, sx, sy, r as int, c as int,
                    ),
                decreases 8 - c,
            {
                let x = start_x + c;
                let flip = bits[c];
                proof {
                    lemma_pixel_coords(x as int, y as int);
                    lemma_draw_step(s0.display, s0.memory, ii, sx, sy, r as int, c as int);
                }
                let turned_off = match self.display.draw(x, y, flip) {
                    Ok(t) => t,
                    Err(_) => {
                        proof {
                            assert(false);
                        }
                        false
                    },
                };
                if turned_off {
                    collided = true;
                }
                c = c + 1;
            }
            proof {
                if c == 8 {
                    lemma_draw_row_done(s0.display, s0.memory, ii, sx, sy, r as int);
                } else {
                    lemma_draw_col_clip(s0.display, s0.memory, ii, sx, sy, r as int, c as int);
                }
            }
            r = r + 1;
        }
        proof {
            if r < count_us {
                lemma_draw_row_clip(s0.display, s0.memory, ii, sx, sy, r as int, count as int);
            }
        }
        self.variable_registers[FLAG_REGISTER] = if collided {
            1
        } else {
            0
        };
        proof {
            assert(self@ =~= exec_spec(
                s0,
                Instruction::Draw { x_register, y_register, count },
            ).0);
        }
        Ok(())
    }

    /// Runs the configured number of fetch-decode-execute cycles: exactly
    /// the run `run_spec` describes. The first failure is handed back and
    /// the remaining cycles of this call are skipped; earlier cycles keep
    /// their effect.
    pub fn update(&mut self) -> (r: Result<(), Chip8Error>)
        requires
            old(self).wf(),
        ensures
            final(self).wf(),
            final(self)@ == run_spec(old(self)@, old(self).spec_ticks() as nat).0,
            r == run_spec(old(self)@, old(self).spec_ticks() as nat).1,
            final(self).spec_ticks() == old(self).spec_ticks(),
    {
        let ghost s0 = self@;
        let ticks = self.ticks;
        let mut t: usize = 0;
        while t < ticks
            invariant
                self.wf(),
                wf_state(s0),
                t <= ticks,
                self.ticks == ticks,
                s0 == old(self)@,
                ticks == old(self).ticks,
                self@ == run_spec(s0, t as nat).0,
                run_spec(s0, t as nat).1 == Ok::<(), Chip8Error>(()),
            decreases ticks - t,
        {
            let ghost cur = self@;
            match self.fetch() {
                Ok(word) => {
                    match Instruction::decode(word) {
                        Ok(instruction) => {
                            proof {
                                assert(fetch_ok(cur));
                                assert(self@.program_counter <= RAM_SIZE);
                            }
                            match self.execute(instruction) {
                                Ok(_) => {
                                    proof {
                                        assert(step_spec(cur) == (self@, Ok::<(), Chip8Error>(())));
                                        lemma_run_snoc(s0, t as nat);
                                    }
                                },
                                Err(e) => {
                                    proof {
                                        assert(step_spec(cur).1 == Err::<(), Chip8Error>(e));
                                        lemma_run_absorbs_failure(s0, t as nat, ticks as nat);
                                    }
                                    return Err(e);
                                },
                            }
                        },
                        Err(e) => {
                            proof {
                                assert(step_spec(cur).1 == Err::<(), Chip8Error>(e));
                                lemma_run_absorbs_failure(s0, t as nat, ticks as nat);
                            }
                            return Err(e);
                        },
                    }
                },
                Err(e) => {
                    proof {
                        assert(!fetch_ok(cur));
                        assert(step_spec(cur) == (cur, Err::<(), Chip8Error>(e)));
                        lemma_run_absorbs_failure(s0, t as nat, ticks as nat);
                    }
                    return Err(e);
                },
            }
            t = t + 1;
        }
        Ok(())
    }
}

} // verus!
