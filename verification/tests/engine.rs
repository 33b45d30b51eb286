use chip8::state::VmError;
use chip8::vm::KeyboardHandler;
use chip8::vm::PixelHandler;
use chip8::vm::VM;

struct NullPixels;

impl PixelHandler for NullPixels {
    fn set_pixel(&mut self, _x: usize, _y: usize, _on: bool) {}
}

struct NullKeys;

impl KeyboardHandler for NullKeys {
    fn is_pressed(&mut self, _key: u8) -> bool {
        false
    }
}

struct OneKeyDown {
    down: u8,
}

impl KeyboardHandler for OneKeyDown {
    fn is_pressed(&mut self, key: u8) -> bool {
        key == self.down
    }
}

fn machine() -> VM<NullPixels, NullKeys> {
    VM::new(NullPixels, NullKeys)
}

fn words(ws: &[u16]) -> Vec<u8> {
    let mut out = Vec::new();
    for w in ws {
        out.push((w >> 8) as u8);
        out.push((w & 0xFF) as u8);
    }
    out
}

#[test]
fn initial_state() {
    let vm = machine();
    assert_eq!(vm.pc(), 0x200);
    assert_eq!(vm.stack_depth(), 0);
    assert_eq!(vm.index_register(), 0);
    assert_eq!(vm.delay_timer(), 0);
    assert_eq!(vm.sound_timer(), 0);
    for x in 0..16 {
        assert_eq!(vm.register(x), 0);
    }
    for x in 0..64 {
        for y in 0..32 {
            assert!(!vm.pixel(x, y));
        }
    }
    // Font glyphs live at 0x050, five bytes per digit; digit 0 starts F0 90.
    assert_eq!(vm.memory_at(0x050), 0xF0);
    assert_eq!(vm.memory_at(0x051), 0x90);
    assert_eq!(vm.memory_at(0x09F), 0x80);
    assert_eq!(vm.memory_at(0x000), 0);
    assert_eq!(vm.memory_at(0x04F), 0);
    assert_eq!(vm.memory_at(0x0A0), 0);
    assert_eq!(vm.memory_at(0x200), 0);
}

#[test]
fn jump_sets_pc() {
    let mut vm = machine();
    vm.setmemory(words(&[0x12F0]));
    assert_eq!(vm.process(), Ok(()));
    assert_eq!(vm.pc(), 0x2F0);
}

#[test]
fn call_return_round_trip() {
    let mut vm = machine();
    // Call 0x300; at 0x300 a lone Ret.
    let mut image = words(&[0x2300]);
    while image.len() < 0x100 {
        image.push(0);
    }
    image.extend_from_slice(&words(&[0x00EE]));
    vm.setmemory(image);
    assert_eq!(vm.process(), Ok(()));
    assert_eq!(vm.pc(), 0x300);
    assert_eq!(vm.stack_depth(), 1);
    assert_eq!(vm.process(), Ok(()));
    assert_eq!(vm.pc(), 0x202);
    assert_eq!(vm.stack_depth(), 0);
}

#[test]
fn call_overflow() {
    let mut vm = machine();
    // Call 0x200 in place: each execution pushes one return address.
    vm.setmemory(words(&[0x2200]));
    for depth in 1..=16 {
        assert_eq!(vm.process(), Ok(()));
        assert_eq!(vm.stack_depth(), depth);
    }
    // The 17th call must fail and leave the machine untouched.
    assert_eq!(vm.process(), Err(VmError::StackOverflow));
    assert_eq!(vm.stack_depth(), 16);
    assert_eq!(vm.pc(), 0x200);
}

#[test]
fn return_underflow() {
    let mut vm = machine();
    vm.setmemory(words(&[0x00EE]));
    assert_eq!(vm.process(), Err(VmError::StackUnderflow));
    assert_eq!(vm.pc(), 0x200);
    assert_eq!(vm.stack_depth(), 0);
}

#[test]
fn set_register() {
    let mut vm = machine();
    vm.setmemory(words(&[0x6A12]));
    assert_eq!(vm.process(), Ok(()));
    assert_eq!(vm.register(0xA), 0x12);
    assert_eq!(vm.pc(), 0x202);
}

#[test]
fn add_register_wraps() {
    let mut vm = machine();
    vm.setmemory(words(&[0x60FF, 0x7002]));
    assert_eq!(vm.process(), Ok(()));
    assert_eq!(vm.register(0), 0xFF);
    assert_eq!(vm.process(), Ok(()));
    // 8-bit wraparound, no fault, and the flag register is not touched.
    assert_eq!(vm.register(0), 0x01);
    assert_eq!(vm.register(15), 0);
    assert_eq!(vm.pc(), 0x204);
}

#[test]
fn set_index() {
    let mut vm = machine();
    vm.setmemory(words(&[0xA123]));
    assert_eq!(vm.process(), Ok(()));
    assert_eq!(vm.index_register(), 0x123);
    assert_eq!(vm.pc(), 0x202);
}

#[test]
fn illegal_opcode() {
    let mut vm = machine();
    vm.setmemory(words(&[0x8124]));
    assert_eq!(vm.process(), Err(VmError::IllegalOpcode(0x8124)));
    assert_eq!(vm.pc(), 0x200);
}

#[test]
fn fetch_past_memory_end() {
    let mut vm = machine();
    vm.setmemory(words(&[0x1FFF]));
    assert_eq!(vm.process(), Ok(()));
    assert_eq!(vm.pc(), 0xFFF);
    assert_eq!(vm.process(), Err(VmError::AddressOutOfRange));
    assert_eq!(vm.pc(), 0xFFF);
}

#[test]
fn timer_floor() {
    let mut vm = machine();
    assert_eq!(vm.delay_timer(), 0);
    assert_eq!(vm.sound_timer(), 0);
    vm.decrement_timers();
    // A decrement at zero stays at zero, it never underflows.
    assert_eq!(vm.delay_timer(), 0);
    assert_eq!(vm.sound_timer(), 0);
}

#[test]
fn setmemory_truncates() {
    let mut vm = machine();
    let image = vec![0xAB; 4000];
    vm.setmemory(image);
    assert_eq!(vm.memory_at(0x200), 0xAB);
    assert_eq!(vm.memory_at(0xFFF), 0xAB);
    // The reserved region below 0x200 is never overwritten.
    assert_eq!(vm.memory_at(0x1FF), 0);
    assert_eq!(vm.memory_at(0x050), 0xF0);
}

#[test]
fn setmemory_exact_fit() {
    let mut vm = machine();
    let mut image = vec![0x11; 3584];
    image[3583] = 0x77;
    vm.setmemory(image);
    assert_eq!(vm.memory_at(0xFFF), 0x77);
    assert_eq!(vm.memory_at(0x200), 0x11);
}

#[test]
fn check_key_asks_the_input_source() {
    let mut vm = VM::new(NullPixels, OneKeyDown { down: 3 });
    assert!(vm.check_key(3));
    assert!(!vm.check_key(4));
    assert!(!vm.check_key(0));
}

#[test]
fn update_pixel_toggles_and_clears() {
    let mut vm = machine();
    vm.update_pixel(1, 1, false);
    assert!(vm.pixel(1, 1));
    vm.update_pixel(1, 1, false);
    assert!(!vm.pixel(1, 1));
    vm.update_pixel(1, 1, false);
    vm.update_pixel(1, 1, true);
    assert!(!vm.pixel(1, 1));
}
