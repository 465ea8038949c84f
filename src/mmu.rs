use vstd::prelude::*;

verus! {

pub const SCREEN_WIDTH: usize = 64;

pub const SCREEN_HEIGHT: usize = 32;

pub const SCREEN_PIXELS: usize = 2048;

/// Size of the whole address space.
pub const MEMORY_SIZE: usize = 4096;

/// First address of program space.
pub const PROGRAM_START: u16 = 0x200;

/// Last address of program space.
pub const PROGRAM_END: u16 = 0xFFF;

/// Size of the built-in font: sixteen glyphs of five bytes.
pub const GLYPH_BUF_SIZE: usize = 80;

/// Colour of a lit pixel.
pub const PIXEL_ON: u32 = 0x00FF00;

/// Colour of a dark pixel.
pub const PIXEL_OFF: u32 = 0x000000;

pub const GLYPHS: [u8; 80] = [
    0xF0, 0x90, 0x90, 0x90, 0xF0,  // 0
    0x20, 0x60, 0x20, 0x20, 0x70,  // 1
    0xF0, 0x10, 0xF0, 0x80, 0xF0,  // 2
    0xF0, 0x10, 0xF0, 0x10, 0xF0,  // 3
    0x90, 0x90, 0xF0, 0x10, 0x10,  // 4
    0xF0, 0x80, 0xF0, 0x10, 0xF0,  // 5
    0xF0, 0x80, 0xF0, 0x90, 0xF0,  // 6
    0xF0, 0x10, 0x20, 0x40, 0x40,  // 7
    0xF0, 0x90, 0xF0, 0x90, 0xF0,  // 8
    0xF0, 0x90, 0xF0, 0x10, 0xF0,  // 9
    0xF0, 0x90, 0xF0, 0x90, 0x90,  // A
    0xE0, 0x90, 0xE0, 0x90, 0xE0,  // B
    0xF0, 0x80, 0x80, 0x80, 0xF0,  // C
    0xE0, 0x90, 0x90, 0x90, 0xE0,  // D
    0xF0, 0x80, 0xF0, 0x80, 0xF0,  // E
    0xF0, 0x80, 0xF0, 0x80, 0x80,  // F
];

/// Abstract state of the memory unit.
pub struct MmuView {
    /// Contents of the address space; only program space (0x200..=0xFFF) is meaningful.
    pub data: Seq<u8>,
    /// Framebuffer colours, row-major, 64 wide and 32 tall.
    pub screen: Seq<u32>,
}

impl MmuView {
    /// Every framebuffer cell holds one of the two colours.
    pub open spec fn wf(self) -> bool {
        &&& self.data.len() == MEMORY_SIZE
        &&& screen_wf(self.screen)
    }
}

pub open spec fn is_program_address(address: int) -> bool {
    PROGRAM_START <= address <= PROGRAM_END
}

/// The byte that a read at `address` yields: a font byte, a program byte, or zero.
pub open spec fn byte_at(data: Seq<u8>, address: int) -> u8 {
    if 0 <= address < GLYPH_BUF_SIZE {
        GLYPHS@[address]
    } else if is_program_address(address) {
        data[address]
    } else {
        0
    }
}

/// Big-endian word made of the bytes at `address` and `address + 1`.
pub open spec fn word_at(data: Seq<u8>, address: int) -> u16 {
    (byte_at(data, address) as int * 256 + byte_at(data, address + 1) as int) as u16
}

/// Index in the framebuffer of the pixel at `(x mod 64, y mod 32)`.
pub open spec fn pixel_index(x: int, y: int) -> int {
    (y % 32) * 64 + x % 64
}

/// The colour a pixel takes when it is XOR-ed.
pub open spec fn toggled(colour: u32) -> u32 {
    if colour == PIXEL_ON {
        PIXEL_OFF
    } else {
        PIXEL_ON
    }
}

/// Framebuffer after XOR-ing the pixel at `(x mod 64, y mod 32)`.
pub open spec fn xored(screen: Seq<u32>, x: int, y: int) -> Seq<u32> {
    screen.update(pixel_index(x, y), toggled(screen[pixel_index(x, y)]))
}

/// Whether bit `col` of a sprite row, counted from the most significant bit, is set.
pub open spec fn row_bit(row: u8, col: u8) -> bool {
    row & (0x80u8 >> col) != 0
}

/// Whether a sprite made of `rows`, drawn with its top-left corner at `(x0, y0)`,
/// covers the framebuffer cell `k`. Positions wrap, and a sprite is 8 pixels wide
/// and at most 15 rows tall, so each cell is reached by at most one sprite bit:
/// the one at row `(y - y0) mod 32` and column `(x - x0) mod 64`.
pub open spec fn sprite_covers(x0: u8, y0: u8, rows: Seq<u8>, k: int) -> bool {
    let row = (k / 64 - y0) % 32;
    let col = (k % 64 - x0) % 64;
    row < rows.len() && col < 8 && row_bit(rows[row], col as u8)
}

/// Framebuffer after XOR-drawing `rows` at `(x0, y0)`.
pub open spec fn drawn_screen(screen: Seq<u32>, x0: u8, y0: u8, rows: Seq<u8>) -> Seq<u32> {
    Seq::new(
        screen.len(),
        |k: int|
            if sprite_covers(x0, y0, rows, k) {
                toggled(screen[k])
            } else {
                screen[k]
            },
    )
}

/// Whether XOR-drawing `rows` at `(x0, y0)` turns off a pixel that was lit.
pub open spec fn draw_collides(screen: Seq<u32>, x0: u8, y0: u8, rows: Seq<u8>) -> bool {
    exists|k: int|
        0 <= k < screen.len() && #[trigger] sprite_covers(x0, y0, rows, k) && screen[k]
            == PIXEL_ON
}

/// Every framebuffer cell holds one of the two colours.
pub open spec fn screen_wf(screen: Seq<u32>) -> bool {
    &&& screen.len() == SCREEN_PIXELS
    &&& forall|k: int| 0 <= k < screen.len() ==> #[trigger] screen[k] == PIXEL_ON || screen[k] == PIXEL_OFF
}

pub open spec fn blank_screen() -> Seq<u32> {
    Seq::new(SCREEN_PIXELS as nat, |k: int| PIXEL_OFF)
}

/// Memory as it starts: program space zeroed, every pixel dark.
pub open spec fn initial_memory() -> MmuView {
    MmuView { data: Seq::new(MEMORY_SIZE as nat, |a: int| 0u8), screen: blank_screen() }
}

pub struct Mmu {
    data: [u8; 4096],
    screen: [u32; 2048],
}

impl View for Mmu {
    type V = MmuView;

    closed spec fn view(&self) -> MmuView {
        MmuView { data: self.data@, screen: self.screen@ }
    }
}

impl Mmu {
    pub open spec fn wf(&self) -> bool {
        self@.wf()
    }

    pub fn new() -> (m: Mmu)
        ensures
            m.wf(),
            m@ == initial_memory(),
    {
        let m = Mmu { data: [0; 4096], screen: [PIXEL_OFF; 2048] };
        assert(m@.screen =~= blank_screen());
        assert(m@.data =~= initial_memory().data);
        m
    }

    pub fn read_word(&self, address: u16) -> (r: u16)
        requires
            self.wf(),
        ensures
            r == word_at(self@.data, address as int),
    {
        let high_byte = self.read_byte(address) as u16;
        let low_byte = if address < 0xFFFF {
            self.read_byte(address + 1) as u16
        } else {
            0
        };
        assert((high_byte << 8) | low_byte == high_byte * 256 + low_byte) by (bit_vector)
            requires
                high_byte < 256,
                low_byte < 256,
        ;
        (high_byte << 8) | low_byte
    }

    pub fn read_byte(&self, address: u16) -> (r: u8)
        requires
            self.wf(),
        ensures
            r == byte_at(self@.data, address as int),
    {
        if (address as usize) < GLYPH_BUF_SIZE {
            GLYPHS[address as usize]
        } else if PROGRAM_START <= address && address <= PROGRAM_END {
            self.data[address as usize]
        } else {
            0
        }
    }

    /// Address of the glyph for hexadecimal digit `glyph`.
    pub fn get_glyph_address(&self, glyph: u8) -> (r: u16)
        requires
            glyph <= 0xF,
        ensures
            r == glyph * 5,
    {
        glyph as u16 * 5
    }

    pub fn write_byte(&mut self, address: u16, byte: u8)
        requires
            old(self).wf(),
            is_program_address(address as int),
        ensures
            final(self).wf(),
            final(self)@.data == old(self)@.data.update(address as int, byte),
            final(self)@.screen == old(self)@.screen,
    {
        self.data[address as usize] = byte;
    }

    /// Copies `program` into program space, from its first address on.
    pub fn load_program(&mut self, program: &[u8])
        requires
            old(self).wf(),
            program@.len() <= PROGRAM_END - PROGRAM_START + 1,
        ensures
            final(self).wf(),
            final(self)@.screen == old(self)@.screen,
            forall|a: int|
                0 <= a < MEMORY_SIZE ==> #[trigger] final(self)@.data[a] == if PROGRAM_START <= a
                    < PROGRAM_START + program@.len() {
                    program@[a - PROGRAM_START]
                } else {
                    old(self)@.data[a]
                },
    {
        let mut k: usize = 0;
        while k < program.len()
            invariant
                self.wf(),
                k <= program@.len() <= PROGRAM_END - PROGRAM_START + 1,
                self@.screen == old(self)@.screen,
                forall|a: int|
                    0 <= a < MEMORY_SIZE ==> #[trigger] self@.data[a] == if PROGRAM_START <= a
                        < PROGRAM_START + k {
                        program@[a - PROGRAM_START]
                    } else {
                        old(self)@.data[a]
                    },
            decreases program@.len() - k,
        {
            self.write_byte(PROGRAM_START + k as u16, program[k]);
            k = k + 1;
        }
    }

    pub fn clear_display(&mut self)
        requires
            old(self).wf(),
        ensures
            final(self).wf(),
            final(self)@.data == old(self)@.data,
            final(self)@.screen == blank_screen(),
    {
        self.screen = [PIXEL_OFF; 2048];
        assert(self@.screen =~= blank_screen());
    }

    pub fn display_buffer(&self) -> (r: &[u32])
        ensures
            r@ == self@.screen,
    {
        self.screen.as_slice()
    }

    /// XORs the pixel at `(x mod 64, y mod 32)`; returns whether it was lit before.
    pub fn xor_pixel(&mut self, x: u8, y: u8) -> (collided: bool)
        requires
            old(self).wf(),
        ensures
            final(self).wf(),
            final(self)@.data == old(self)@.data,
            final(self)@.screen == xored(old(self)@.screen, x as int, y as int),
            collided == (old(self)@.screen[pixel_index(x as int, y as int)] == PIXEL_ON),
    {
        let x = x % SCREEN_WIDTH as u8;
        let y = y % SCREEN_HEIGHT as u8;
        let index = y as usize * SCREEN_WIDTH + x as usize;
        if self.screen[index] == PIXEL_ON {
            self.screen[index] = PIXEL_OFF;
            true
        } else {
            self.screen[index] = PIXEL_ON;
            false
        }
    }
}

/// XOR-ing one pixel twice restores the framebuffer, and the second XOR reports a
/// collision exactly when the first one lit the pixel.
pub proof fn lemma_xor_pixel_twice(screen: Seq<u32>, x: int, y: int)
    requires
        screen_wf(screen),
    ensures
        xored(xored(screen, x, y), x, y) == screen,
        (xored(screen, x, y)[pixel_index(x, y)] == PIXEL_ON) == (screen[pixel_index(x, y)]
            != PIXEL_ON),
{
    let p = pixel_index(x, y);
    assert(0 <= p < SCREEN_PIXELS);
    assert(xored(xored(screen, x, y), x, y) =~= screen);
}

/// Drawing the same sprite twice at the same place restores the framebuffer, and the
/// second drawing collides exactly when the first one lit some pixel.
pub proof fn lemma_draw_twice(screen: Seq<u32>, x0: u8, y0: u8, rows: Seq<u8>)
    requires
        screen_wf(screen),
    ensures
        drawn_screen(drawn_screen(screen, x0, y0, rows), x0, y0, rows) == screen,
        draw_collides(drawn_screen(screen, x0, y0, rows), x0, y0, rows) == exists|k: int|
            0 <= k < screen.len() && #[trigger] sprite_covers(x0, y0, rows, k) && screen[k]
                != PIXEL_ON,
{
    let once = drawn_screen(screen, x0, y0, rows);
    assert(drawn_screen(once, x0, y0, rows) =~= screen);
    if exists|k: int|
        0 <= k < screen.len() && #[trigger] sprite_covers(x0, y0, rows, k) && screen[k]
            != PIXEL_ON {
        let k = choose|k: int|
            0 <= k < screen.len() && #[trigger] sprite_covers(x0, y0, rows, k) && screen[k]
                != PIXEL_ON;
        assert(once[k] == PIXEL_ON);
    }
    if draw_collides(once, x0, y0, rows) {
        let k = choose|k: int|
            0 <= k < once.len() && #[trigger] sprite_covers(x0, y0, rows, k) && once[k]
                == PIXEL_ON;
        assert(screen[k] != PIXEL_ON);
    }
}

} // verus!
