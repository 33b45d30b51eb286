//! The executable interpreter: state, capabilities, and the engine.
//!
//! The engine owns the machine state and two injected capabilities: a pixel
//! sink for the display surface and a key-state source for the input
//! device. Every public operation is specified against the ghost state
//! `crate::state::St`; `process` is proved to implement `crate::state::step`
//! exactly.

use vstd::prelude::*;

use crate::insts::Instruction;
use crate::insts::lemma_decode_bounds;
use crate::state::St;
use crate::state::VmError;
use crate::state::all_off;
use crate::state::blit_bits;
use crate::state::blit_rows;
use crate::state::collide_bits;
use crate::state::collide_rows;
use crate::state::fb_idx;
use crate::state::fetch;
use crate::state::init_st;
use crate::state::lemma_blit_bits_frame;
use crate::state::lemma_blit_bits_len;
use crate::state::lemma_blit_rows_frame;
use crate::state::lemma_blit_rows_len;
use crate::state::lemma_collide_bits_step;
use crate::state::lemma_collide_rows_step;
use crate::state::load_program;
use crate::state::rows_drawn;
use crate::state::sprite_bit;
use crate::state::step;
use crate::state::timer_dec;

verus! {

/// The display surface capability: one mutation, "set the pixel at (x, y)".
/// The engine keeps its own framebuffer mirror and forwards every mutation
/// here, so an implementation only needs to paint.
pub trait PixelHandler {
    fn set_pixel(&mut self, x: usize, y: usize, on: bool)
        requires
            x < 64,
            y < 32,
    ;
}

/// The input source capability: one query, "is logical key 0..16 down".
pub trait KeyboardHandler {
    fn is_pressed(&mut self, key: u8) -> bool
        requires
            key < 16,
    ;
}

/// The font glyph table: hexadecimal digits 0 through F, five bytes per
/// glyph, copied into memory at 0x050 when the machine is constructed.
pub open spec fn font() -> Seq<u8> {
    seq![
        0xF0u8, 0x90, 0x90, 0x90, 0xF0,
        0x20, 0x60, 0x20, 0x20, 0x70,
        0xF0, 0x10, 0xF0, 0x80, 0xF0,
        0xF0, 0x10, 0xF0, 0x10, 0xF0,
        0x90, 0x90, 0xF0, 0x10, 0x10,
        0xF0, 0x80, 0xF0, 0x10, 0xF0,
        0xF0, 0x80, 0xF0, 0x90, 0xF0,
        0xF0, 0x10, 0x20, 0x40, 0x40,
        0xF0, 0x90, 0xF0, 0x90, 0xF0,
        0xF0, 0x90, 0xF0, 0x10, 0xF0,
        0xF0, 0x90, 0xF0, 0x90, 0x90,
        0xE0, 0x90, 0xE0, 0x90, 0xE0,
        0xF0, 0x80, 0x80, 0x80, 0xF0,
        0xE0, 0x90, 0x90, 0x90, 0xE0,
        0xF0, 0x80, 0xF0, 0x80, 0xF0,
        0xF0, 0x80, 0xF0, 0x80, 0x80,
    ]
}

/// The font glyph table as a vector.
fn font_table() -> (v: Vec<u8>)
    ensures
        v@ == font(),
        v@.len() == 80,
{
    let v: Vec<u8> = vec![
        0xF0, 0x90, 0x90, 0x90, 0xF0,
        0x20, 0x60, 0x20, 0x20, 0x70,
        0xF0, 0x10, 0xF0, 0x80, 0xF0,
        0xF0, 0x10, 0xF0, 0x10, 0xF0,
        0x90, 0x90, 0xF0, 0x10, 0x10,
        0xF0, 0x80, 0xF0, 0x10, 0xF0,
        0xF0, 0x80, 0xF0, 0x90, 0xF0,
        0xF0, 0x10, 0x20, 0x40, 0x40,
        0xF0, 0x90, 0xF0, 0x90, 0xF0,
        0xF0, 0x90, 0xF0, 0x10, 0xF0,
        0xF0, 0x90, 0xF0, 0x90, 0x90,
        0xE0, 0x90, 0xE0, 0x90, 0xE0,
        0xF0, 0x80, 0x80, 0x80, 0xF0,
        0xE0, 0x90, 0x90, 0x90, 0xE0,
        0xF0, 0x80, 0xF0, 0x80, 0xF0,
        0xF0, 0x80, 0xF0, 0x80, 0x80,
    ];
    proof {
        assert(v@ =~= font());
    }
    v
}

/// The machine: memory, registers, call stack, index register, program
/// counter, timers, the internal framebuffer mirror, and the two injected
/// capabilities. The framebuffer mirror and the display surface are kept
/// consistent: every pixel mutation goes to both.
pub struct VM<T: PixelHandler, T2: KeyboardHandler> {
    memory: Vec<u8>,
    registers: Vec<u8>,
    stack: Vec<u16>,
    i: u16,
    programcounter: usize,
    delaytimer: u8,
    soundtimer: u8,
    pub pixelhandler: T,
    pub keyboardhandler: T2,
    framebuffer: Vec<bool>,
}

impl<T: PixelHandler, T2: KeyboardHandler> VM<T, T2> {
    /// The ghost image of the machine state (the capabilities are not part
    /// of it: the engine's contracts do not depend on how pixels are
    /// painted or where key states come from).
    pub closed spec fn st(self) -> St {
        St {
            mem: self.memory@,
            regs: self.registers@,
            stack: self.stack@,
            idx: self.i,
            pc: self.programcounter as nat,
            delay: self.delaytimer,
            sound: self.soundtimer,
            fb: self.framebuffer@,
        }
    }

    /// Well-formedness of the machine state.
    pub open spec fn wf(self) -> bool {
        self.st().wf()
    }

    /// The injected display capability, for frame conditions in contracts.
    pub closed spec fn spec_pixelhandler(self) -> T {
        self.pixelhandler
    }

    /// The injected input capability, for frame conditions in contracts.
    pub closed spec fn spec_keyboardhandler(self) -> T2 {
        self.keyboardhandler
    }

    /// Construct the machine: zeroed memory with the font table installed
    /// at 0x050, zeroed registers and timers, empty call stack, program
    /// counter at 0x200.
    #[verifier::loop_isolation(false)]
    pub fn new(pixelhandler: T, keyboardhandler: T2) -> (vm: Self)
        ensures
            vm.wf(),
            vm.st() == init_st(),
    {
        let fontv: Vec<u8> = font_table();
        let mut memory: Vec<u8> = Vec::new();
        while memory.len() < 0x50
            invariant
                memory@.len() <= 0x50,
                forall|k: int| 0 <= k < memory@.len() ==> memory@[k] == 0u8,
            decreases 0x50 - memory.len(),
        {
            memory.push(0u8);
        }
        let mut j: usize = 0;
        while j < 80
            invariant
                j <= 80,
                memory@.len() == 0x50 + j,
                forall|k: int| 0 <= k < 0x50 ==> memory@[k] == 0u8,
                forall|k: int| 0x50 <= k < 0x50 + j ==> memory@[k] == font()[k - 0x50],
            decreases 80 - j,
        {
            memory.push(fontv[j]);
            j += 1;
        }
        while memory.len() < 4096
            invariant
                0xA0 <= memory@.len() <= 4096,
                forall|k: int| 0 <= k < 0x50 ==> memory@[k] == 0u8,
                forall|k: int| 0x50 <= k < 0xA0 ==> memory@[k] == font()[k - 0x50],
                forall|k: int| 0xA0 <= k < memory@.len() ==> memory@[k] == 0u8,
            decreases 4096 - memory.len(),
        {
            memory.push(0u8);
        }
        let mut registers: Vec<u8> = Vec::new();
        while registers.len() < 16
            invariant
                registers@.len() <= 16,
                forall|k: int| 0 <= k < registers@.len() ==> registers@[k] == 0u8,
            decreases 16 - registers.len(),
        {
            registers.push(0u8);
        }
        let mut framebuffer: Vec<bool> = Vec::new();
        while framebuffer.len() < 2048
            invariant
                framebuffer@.len() <= 2048,
                forall|k: int| 0 <= k < framebuffer@.len() ==> !framebuffer@[k],
            decreases 2048 - framebuffer.len(),
        {
            framebuffer.push(false);
        }
        let vm = VM {
            memory,
            registers,
            stack: Vec::new(),
            i: 0,
            programcounter: 0x200,
            delaytimer: 0,
            soundtimer: 0,
            pixelhandler,
            keyboardhandler,
            framebuffer,
        };
        proof {
            assert(vm.st().mem =~= init_st().mem);
            assert(vm.st().regs =~= init_st().regs);
            assert(vm.st().fb =~= init_st().fb);
            assert(vm.st().stack =~= init_st().stack);
            assert(vm.st() =~= init_st());
        }
        vm
    }

    /// Set the framebuffer cell at (x, y) — off when `forceblack`, toggled
    /// otherwise — and forward the new state to the display surface, so
    /// mirror and surface stay consistent.
    pub fn update_pixel(&mut self, x: usize, y: usize, forceblack: bool)
        requires
            old(self).wf(),
            x < 64,
            y < 32,
        ensures
            final(self).wf(),
            final(self).st() == (St {
                fb: old(self).st().fb.update(
                    fb_idx(x as int, y as int),
                    if forceblack { false } else { !old(self).st().fb[fb_idx(x as int, y as int)] },
                ),
                ..old(self).st()
            }),
            final(self).spec_keyboardhandler() == old(self).spec_keyboardhandler(),
    {
        let idx: usize = x * 32 + y;
        let on: bool = if forceblack { false } else { !self.framebuffer[idx] };
        self.pixelhandler.set_pixel(x, y, on);
        self.framebuffer.set(idx, on);
    }

    /// Ask the input source whether logical key `key` is down. The result
    /// is whatever the injected capability answers; the machine state is
    /// untouched.
    pub fn check_key(&mut self, key: u8) -> (r: bool)
        requires
            old(self).wf(),
            key < 16,
        ensures
            final(self).wf(),
            final(self).st() == old(self).st(),
            final(self).spec_pixelhandler() == old(self).spec_pixelhandler(),
    {
        self.keyboardhandler.is_pressed(key)
    }

    /// Install a program image at 0x200, silently truncating it to the
    /// 3584-byte program region. The reserved region below 0x200 (font
    /// included) is never touched.
    #[verifier::loop_isolation(false)]
    pub fn setmemory(&mut self, content: Vec<u8>)
        requires
            old(self).wf(),
        ensures
            final(self).wf(),
            final(self).st() == (St {
                mem: load_program(old(self).st().mem, content@),
                ..old(self).st()
            }),
            final(self).spec_keyboardhandler() == old(self).spec_keyboardhandler(),
            final(self).spec_pixelhandler() == old(self).spec_pixelhandler(),
    {
        let n: usize = if content.len() <= 3584 { content.len() } else { 3584 };
        let mut j: usize = 0;
        while j < n
            invariant
                j <= n,
                self.memory@.len() == 4096,
                self.registers@ == old(self).registers@,
                self.stack@ == old(self).stack@,
                self.i == old(self).i,
                self.programcounter == old(self).programcounter,
                self.delaytimer == old(self).delaytimer,
                self.soundtimer == old(self).soundtimer,
                self.pixelhandler == old(self).pixelhandler,
                self.keyboardhandler == old(self).keyboardhandler,
                self.framebuffer@ == old(self).framebuffer@,
                forall|k: int| 0x200 <= k < 0x200 + j ==> self.memory@[k] == content@[k - 0x200],
                forall|k: int| 0 <= k < 4096 && !(0x200 <= k < 0x200 + j) ==> self.memory@[k]
                    == old(self).memory@[k],
            decreases n - j,
        {
            let byte: u8 = content[j];
            self.memory.set(0x200 + j, byte);
            j += 1;
        }
        proof {
            assert(self.memory@ =~= load_program(old(self).st().mem, content@));
            assert(self.st() =~= (St {
                mem: load_program(old(self).st().mem, content@),
                ..old(self).st()
            }));
        }
    }

    /// Decrement both countdown timers by one, floored at zero. Invoked by
    /// the host on a 60 Hz cadence, independently of instruction execution.
    pub fn decrement_timers(&mut self)
        requires
            old(self).wf(),
        ensures
            final(self).wf(),
            final(self).st() == (St {
                delay: timer_dec(old(self).st().delay),
                sound: timer_dec(old(self).st().sound),
                ..old(self).st()
            }),
            final(self).spec_keyboardhandler() == old(self).spec_keyboardhandler(),
            final(self).spec_pixelhandler() == old(self).spec_pixelhandler(),
    {
        if self.delaytimer > 0 {
            self.delaytimer = self.delaytimer - 1;
        }
        if self.soundtimer > 0 {
            self.soundtimer = self.soundtimer - 1;
        }
        proof {
            assert(self.st() =~= (St {
                delay: timer_dec(old(self).st().delay),
                sound: timer_dec(old(self).st().sound),
                ..old(self).st()
            }));
        }
    }

    /// One fetch-decode-execute cycle, exactly as `crate::state::step`
    /// specifies: fetch the big-endian word at the program counter, decode
    /// it, execute its semantics, and leave the program counter at the next
    /// instruction (jump, call and return set it themselves). A fatal
    /// outcome is returned as the error of the cycle and leaves the state
    /// unchanged, the program counter still naming the faulting
    /// instruction.
    #[verifier::loop_isolation(false)]
    #[verifier::rlimit(30)]
    pub fn process(&mut self) -> (r: Result<(), VmError>)
        requires
            old(self).wf(),
        ensures
            final(self).wf(),
            final(self).st() == step(old(self).st()).0,
            r == step(old(self).st()).1,
            final(self).spec_keyboardhandler() == old(self).spec_keyboardhandler(),
    {
        let ghost s0: St = self.st();
        if self.programcounter + 1 >= 4096 {
            return Err(VmError::AddressOutOfRange);
        }
        let b1: u8 = self.memory[self.programcounter];
        let b2: u8 = self.memory[self.programcounter + 1];
        let w: u16 = ((b1 as u16) << 8) | (b2 as u16);
        proof {
            assert(w == fetch(s0));
            lemma_decode_bounds(w);
        }
        let inst: Instruction = Instruction::new(w);
        match inst {
            Instruction::ClearScreen => {
                let mut x: usize = 0;
                while x < 64
                    invariant
                        x <= 64,
                        self.memory@ == old(self).memory@,
                        self.registers@ == old(self).registers@,
                        self.stack@ == old(self).stack@,
                        self.i == old(self).i,
                        self.programcounter == old(self).programcounter,
                        self.delaytimer == old(self).delaytimer,
                        self.soundtimer == old(self).soundtimer,
                        self.keyboardhandler == old(self).keyboardhandler,
                        self.framebuffer@.len() == 2048,
                        forall|k: int| 0 <= k < x * 32 ==> !self.framebuffer@[k],
                    decreases 64 - x,
                {
                    let mut y: usize = 0;
                    while y < 32
                        invariant
                            x < 64,
                            y <= 32,
                            self.memory@ == old(self).memory@,
                            self.registers@ == old(self).registers@,
                            self.stack@ == old(self).stack@,
                            self.i == old(self).i,
                            self.programcounter == old(self).programcounter,
                            self.delaytimer == old(self).delaytimer,
                            self.soundtimer == old(self).soundtimer,
                            self.keyboardhandler == old(self).keyboardhandler,
                            self.framebuffer@.len() == 2048,
                            forall|k: int| 0 <= k < x * 32 + y ==> !self.framebuffer@[k],
                        decreases 32 - y,
                    {
                        self.update_pixel(x, y, true);
                        y += 1;
                    }
                    x += 1;
                }
                self.programcounter = self.programcounter + 2;
                proof {
                    assert(self.framebuffer@ =~= all_off());
                    assert(self.st() =~= step(s0).0);
                }
                Ok(())
            },
            Instruction::Jump(a) => {
                self.programcounter = a as usize;
                proof {
                    assert(self.st() =~= step(s0).0);
                }
                Ok(())
            },
            Instruction::Call(a) => {
                if self.stack.len() >= 16 {
                    return Err(VmError::StackOverflow);
                }
                let ret_addr: u16 = (self.programcounter + 2) as u16;
                self.stack.push(ret_addr);
                self.programcounter = a as usize;
                proof {
                    assert(self.st() =~= step(s0).0);
                }
                Ok(())
            },
            Instruction::Ret => {
                if self.stack.len() == 0 {
                    return Err(VmError::StackUnderflow);
                }
                let addr: u16 = self.stack.pop().unwrap();
                self.programcounter = addr as usize;
                proof {
                    assert(self.st() =~= step(s0).0);
                }
                Ok(())
            },
            Instruction::SetRegister(x, v) => {
                self.registers.set(x as usize, v);
                self.programcounter = self.programcounter + 2;
                proof {
                    assert(self.st() =~= step(s0).0);
                }
                Ok(())
            },
            Instruction::AddRegister(x, v) => {
                let a0: u8 = self.registers[x as usize];
                let sum: u16 = a0 as u16 + v as u16;
                let nv: u8 = (sum % 256) as u8;
                self.registers.set(x as usize, nv);
                self.programcounter = self.programcounter + 2;
                proof {
                    assert(self.st() =~= step(s0).0);
                }
                Ok(())
            },
            Instruction::SetI(a) => {
                self.i = a;
                self.programcounter = self.programcounter + 2;
                proof {
                    assert(self.st() =~= step(s0).0);
                }
                Ok(())
            },
            Instruction::Draw(vxr, vyr, h) => {
                let x0: u8 = self.registers[vxr as usize] % 64;
                let y0: u8 = self.registers[vyr as usize] % 32;
                let rows: usize = if (h as usize) <= 32 - (y0 as usize) {
                    h as usize
                } else {
                    32 - (y0 as usize)
                };
                proof {
                    assert(rows as int == rows_drawn(y0 as int, h as int));
                }
                if (self.i as usize) + rows > 4096 {
                    return Err(VmError::AddressOutOfRange);
                }
                let mut collided: bool = false;
                let mut r: usize = 0;
                while r < rows
                    invariant
                        r <= rows,
                        self.memory@ == old(self).memory@,
                        self.registers@ == old(self).registers@,
                        self.stack@ == old(self).stack@,
                        self.i == old(self).i,
                        self.programcounter == old(self).programcounter,
                        self.delaytimer == old(self).delaytimer,
                        self.soundtimer == old(self).soundtimer,
                        self.keyboardhandler == old(self).keyboardhandler,
                        self.framebuffer@.len() == 2048,
                        self.framebuffer@ == blit_rows(s0.fb, s0.mem, s0.idx as int, x0 as int,
                            y0 as int, r as int),
                        collided == collide_rows(s0.fb, s0.mem, s0.idx as int, x0 as int,
                            y0 as int, r as int),
                    decreases rows - r,
                {
                    let sprite: u8 = self.memory[(self.i as usize) + r];
                    let ghost fb_row = self.framebuffer@;
                    let ghost col_before: bool = collided;
                    let y: usize = (y0 as usize) + r;
                    let mut b: usize = 0;
                    while b < 8
                        invariant
                            b <= 8,
                            self.memory@ == old(self).memory@,
                            self.registers@ == old(self).registers@,
                            self.stack@ == old(self).stack@,
                            self.i == old(self).i,
                            self.programcounter == old(self).programcounter,
                            self.delaytimer == old(self).delaytimer,
                            self.soundtimer == old(self).soundtimer,
                            self.keyboardhandler == old(self).keyboardhandler,
                            self.framebuffer@.len() == 2048,
                            self.framebuffer@ == blit_bits(fb_row, sprite, x0 as int, y as int,
                                b as int),
                            collided == (col_before || collide_bits(s0.fb, sprite, x0 as int,
                                y as int, b as int)),
                        decreases 8 - b,
                    {
                        let sh: u8 = (7 - b) as u8;
                        let bit: bool = ((sprite >> sh) & 1) == 1;
                        proof {
                            assert(bit == sprite_bit(sprite, b as int));
                        }
                        let px: usize = (x0 as usize) + b;
                        if bit && px < 64 {
                            proof {
                                lemma_blit_bits_len(fb_row, sprite, x0 as int, y as int, b as int);
                                lemma_blit_bits_frame(fb_row, sprite, x0 as int, y as int,
                                    b as int, px as int, y as int);
                                lemma_blit_rows_frame(s0.fb, s0.mem, s0.idx as int, x0 as int,
                                    y0 as int, r as int, px as int, y as int);
                            }
                            let was_on: bool = self.framebuffer[px * 32 + y];
                            proof {
                                assert(was_on == s0.fb[fb_idx(px as int, y as int)]);
                            }
                            if was_on {
                                collided = true;
                            }
                            self.update_pixel(px, y, false);
                        }
                        proof {
                            lemma_collide_bits_step(s0.fb, sprite, x0 as int, y as int, b as int);
                        }
                        b += 1;
                    }
                    proof {
                        lemma_collide_rows_step(s0.fb, s0.mem, s0.idx as int, x0 as int,
                            y0 as int, r as int);
                        assert(self.framebuffer@ == blit_rows(s0.fb, s0.mem, s0.idx as int,
                            x0 as int, y0 as int, r as int + 1));
                    }
                    r += 1;
                }
                let flag: u8 = if collided { 1 } else { 0 };
                self.registers.set(15, flag);
                self.programcounter = self.programcounter + 2;
                proof {
                    lemma_blit_rows_len(s0.fb, s0.mem, s0.idx as int, x0 as int, y0 as int,
                        rows as int);
                    assert(self.st() =~= step(s0).0);
                }
                Ok(())
            },
            Instruction::ERROR(wv) => {
                return Err(VmError::IllegalOpcode(wv));
            },
        }
    }

    /// The program counter.
    pub fn pc(&self) -> (r: usize)
        ensures
            r == self.st().pc,
    {
        self.programcounter
    }

    /// The value of general-purpose register `x`.
    pub fn register(&self, x: u8) -> (r: u8)
        requires
            self.wf(),
            x < 16,
        ensures
            r == self.st().regs[x as int],
    {
        self.registers[x as usize]
    }

    /// The index register.
    pub fn index_register(&self) -> (r: u16)
        ensures
            r == self.st().idx,
    {
        self.i
    }

    /// The delay timer.
    pub fn delay_timer(&self) -> (r: u8)
        ensures
            r == self.st().delay,
    {
        self.delaytimer
    }

    /// The sound timer.
    pub fn sound_timer(&self) -> (r: u8)
        ensures
            r == self.st().sound,
    {
        self.soundtimer
    }

    /// The current call-stack depth.
    pub fn stack_depth(&self) -> (r: usize)
        ensures
            r == self.st().stack.len(),
    {
        self.stack.len()
    }

    /// The framebuffer mirror's cell at (x, y).
    pub fn pixel(&self, x: usize, y: usize) -> (r: bool)
        requires
            self.wf(),
            x < 64,
            y < 32,
        ensures
            r == self.st().fb[fb_idx(x as int, y as int)],
    {
        self.framebuffer[x * 32 + y]
    }

    /// The memory byte at `addr`.
    pub fn memory_at(&self, addr: usize) -> (r: u8)
        requires
            self.wf(),
            addr < 4096,
        ensures
            r == self.st().mem[addr as int],
    {
        self.memory[addr]
    }
}

} // verus!
