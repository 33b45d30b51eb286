use chip8::vm::KeyboardHandler;
use chip8::vm::PixelHandler;
use chip8::vm::VM;

struct NullPixels;

impl PixelHandler for NullPixels {
    fn set_pixel(&mut self, _x: usize, _y: usize, _on: bool) {}
}

struct NullKeys;

impl KeyboardHandler for NullKeys {
    fn is_pressed(&mut self, _key: u8) -> bool {
        false
    }
}

fn words(ws: &[u16]) -> Vec<u8> {
    let mut out = Vec::new();
    for w in ws {
        out.push((w >> 8) as u8);
        out.push((w & 0xFF) as u8);
    }
    out
}

#[test]
fn font_glyph_end_to_end() {
    let mut vm = VM::new(NullPixels, NullKeys);
    // V0 = 5; I = 0x050 (the font region); draw the five-row glyph stored
    // there at (5, 5); then clear the screen.
    vm.setmemory(words(&[0x6005, 0xA050, 0xD005, 0x00E0]));
    assert_eq!(vm.process(), Ok(()));
    assert_eq!(vm.process(), Ok(()));
    assert_eq!(vm.process(), Ok(()));
    // After three ticks the framebuffer holds the glyph "0" at (5, 5):
    // rows F0 90 90 90 F0, most significant bit leftmost.
    let glyph: [u8; 5] = [0xF0, 0x90, 0x90, 0x90, 0xF0];
    let mut lit = 0;
    for r in 0..5 {
        for b in 0..8 {
            let expected = (glyph[r] >> (7 - b)) & 1 == 1;
            assert_eq!(vm.pixel(5 + b, 5 + r), expected);
            if expected {
                lit += 1;
            }
        }
    }
    assert!(lit > 0);
    // Nothing outside the glyph box is lit.
    for x in 0..64 {
        for y in 0..32 {
            if !(5 <= x && x < 13 && 5 <= y && y < 10) {
                assert!(!vm.pixel(x, y));
            }
        }
    }
    assert_eq!(vm.register(15), 0);
    // The fourth tick clears the screen entirely.
    assert_eq!(vm.process(), Ok(()));
    for x in 0..64 {
        for y in 0..32 {
            assert!(!vm.pixel(x, y));
        }
    }
    assert_eq!(vm.pc(), 0x208);
}
