use vstd::prelude::*;

use crate::keyboard::{key_held, Keyboard};
use crate::mmu::{
    blank_screen, byte_at, draw_collides, drawn_screen, is_program_address, pixel_index,
    row_bit, sprite_covers, toggled, word_at, Mmu, MmuView, MEMORY_SIZE, PIXEL_ON, PROGRAM_START,
    SCREEN_PIXELS,
};

verus! {

/// Index of the flag register.
pub const FLAG: usize = 0xF;

/// Address at which programs start.
pub const START_ADDRESS: u16 = PROGRAM_START;

/// Depth of the call stack.
pub const STACK_DEPTH: usize = 16;

/// Relies on rand::random::<u8>: a byte drawn from the thread-local generator.
/// Nothing is known of its value beyond its type.
#[verifier::external_body]
fn random_byte() -> (r: u8) {
    rand::random::<u8>()
}

#[derive(Debug, Clone, Copy, PartialEq, Eq, Structural)]
pub enum ExecutionStatus {
    Continue,
    WaitForKey(u8),
}

/// A decoded instruction. Register operands are register indices, `nnn` operands
/// are 12-bit addresses, and byte operands are immediates.
#[derive(Debug, Clone, Copy, PartialEq, Eq, Structural)]
pub enum Op {
    Cls,
    Ret,
    Jmp(u16),
    Call(u16),
    Se(u8, u8),
    Sne(u8, u8),
    SeXy(u8, u8),
    Ld(u8, u8),
    Add(u8, u8),
    LdXy(u8, u8),
    Or(u8, u8),
    And(u8, u8),
    Xor(u8, u8),
    AddXy(u8, u8),
    Sub(u8, u8),
    Shr(u8),
    Subn(u8, u8),
    Shl(u8),
    SneXy(u8, u8),
    Ldi(u16),
    JmpV0(u16),
    Rnd(u8, u8),
    Drw(u8, u8, u8),
    Skp(u8),
    Skpn(u8),
    LdDt(u8),
    WaitKey(u8),
    SetDt(u8),
    SetSt(u8),
    AddAddr(u8),
    LdSprite(u8),
    LdBcd(u8),
    StoreRegs(u8),
    LdRegs(u8),
    Unknown(u16),
}

/// The opcode table: the operation that a 16-bit instruction stands for.
pub open spec fn decode_spec(w: u16) -> Op {
    let a = (w / 4096) as u8;
    let b = ((w / 256) % 16) as u8;
    let c = ((w / 16) % 16) as u8;
    let d = (w % 16) as u8;
    let nnn = (w % 4096) as u16;
    let kk = (w % 256) as u8;
    match (a, b, c, d) {
        (0x0, 0x0, 0xE, 0x0) => Op::Cls,
        (0x0, 0x0, 0xE, 0xE) => Op::Ret,
        (0x1, _, _, _) => Op::Jmp(nnn),
        (0x2, _, _, _) => Op::Call(nnn),
        (0x3, _, _, _) => Op::Se(b, kk),
        (0x4, _, _, _) => Op::Sne(b, kk),
        (0x5, _, _, 0x0) => Op::SeXy(b, c),
        (0x6, _, _, _) => Op::Ld(b, kk),
        (0x7, _, _, _) => Op::Add(b, kk),
        (0x8, _, _, 0x0) => Op::LdXy(b, c),
        (0x8, _, _, 0x1) => Op::Or(b, c),
        (0x8, _, _, 0x2) => Op::And(b, c),
        (0x8, _, _, 0x3) => Op::Xor(b, c),
        (0x8, _, _, 0x4) => Op::AddXy(b, c),
        (0x8, _, _, 0x5) => Op::Sub(b, c),
        (0x8, _, _, 0x6) => Op::Shr(b),
        (0x8, _, _, 0x7) => Op::Subn(b, c),
        (0x8, _, _, 0xE) => Op::Shl(b),
        (0x9, _, _, 0x0) => Op::SneXy(b, c),
        (0xA, _, _, _) => Op::Ldi(nnn),
        (0xB, _, _, _) => Op::JmpV0(nnn),
        (0xC, _, _, _) => Op::Rnd(b, kk),
        (0xD, _, _, _) => Op::Drw(b, c, d),
        (0xE, _, 0x9, 0xE) => Op::Skp(b),
        (0xE, _, 0xA, 0x1) => Op::Skpn(b),
        (0xF, _, 0x0, 0x7) => Op::LdDt(b),
        (0xF, _, 0x0, 0xA) => Op::WaitKey(b),
        (0xF, _, 0x1, 0x5) => Op::SetDt(b),
        (0xF, _, 0x1, 0x8) => Op::SetSt(b),
        (0xF, _, 0x1, 0xE) => Op::AddAddr(b),
        (0xF, _, 0x2, 0x9) => Op::LdSprite(b),
        (0xF, _, 0x3, 0x3) => Op::LdBcd(b),
        (0xF, _, 0x5, 0x5) => Op::StoreRegs(b),
        (0xF, _, 0x6, 0x5) => Op::LdRegs(b),
        _ => Op::Unknown(w),
    }
}

/// Operands are in range: registers and counts below 16, addresses below 4096.
pub open spec fn op_wf(op: Op) -> bool {
    match op {
        Op::Jmp(nnn) | Op::Call(nnn) | Op::Ldi(nnn) | Op::JmpV0(nnn) => nnn < 4096,
        Op::Se(x, _) | Op::Sne(x, _) | Op::Ld(x, _) | Op::Add(x, _) | Op::Rnd(x, _) => x < 16,
        Op::SeXy(x, y) | Op::LdXy(x, y) | Op::Or(x, y) | Op::And(x, y) | Op::Xor(x, y)
        | Op::AddXy(x, y) | Op::Sub(x, y) | Op::Subn(x, y) | Op::SneXy(x, y) => x < 16 && y < 16,
        Op::Drw(x, y, n) => x < 16 && y < 16 && n < 16,
        Op::Shr(x) | Op::Shl(x) | Op::Skp(x) | Op::Skpn(x) | Op::LdDt(x) | Op::WaitKey(x)
        | Op::SetDt(x) | Op::SetSt(x) | Op::AddAddr(x) | Op::LdSprite(x) | Op::LdBcd(x)
        | Op::StoreRegs(x) | Op::LdRegs(x) => x < 16,
        _ => true,
    }
}

/// Abstract state of the processor.
pub struct CpuView {
    pub pc: u16,
    pub sp: u8,
    pub stack: Seq<u16>,
    pub v: Seq<u8>,
    pub i: u16,
    pub dt: u8,
    pub st: u8,
}

/// The processor as it starts: everything zero but the program counter.
pub open spec fn initial_cpu() -> CpuView {
    CpuView {
        pc: START_ADDRESS,
        sp: 0,
        stack: Seq::new(STACK_DEPTH as nat, |k: int| 0u16),
        v: Seq::new(16, |k: int| 0u8),
        i: 0,
        dt: 0,
        st: 0,
    }
}

impl CpuView {
    /// The stack pointer stays within the stack.
    pub open spec fn wf(self) -> bool {
        &&& self.sp < STACK_DEPTH
        &&& self.stack.len() == STACK_DEPTH
        &&& self.v.len() == 16
    }
}

pub open spec fn add16(a: u16, b: int) -> u16 {
    ((a + b) % 65536) as u16
}

pub open spec fn flag(b: bool) -> u8 {
    if b {
        1
    } else {
        0
    }
}

/// `c` with register `x` set to `val`.
pub open spec fn set_reg(c: CpuView, x: int, val: u8) -> CpuView {
    CpuView { v: c.v.update(x, val), ..c }
}

/// `c` with the next instruction skipped when `cond` holds.
pub open spec fn skip_if(c: CpuView, cond: bool) -> CpuView {
    if cond {
        CpuView { pc: add16(c.pc, 2), ..c }
    } else {
        c
    }
}

/// `c` with the flag register set to `f`, then register `x` set to `val`; when `x`
/// is the flag register itself, `val` is what it ends up holding.
pub open spec fn flag_then_reg(c: CpuView, x: int, f: u8, val: u8) -> CpuView {
    set_reg(set_reg(c, FLAG as int, f), x, val)
}

/// The `n` bytes of a sprite stored at `base`.
pub open spec fn sprite_rows(data: Seq<u8>, base: u16, n: u8) -> Seq<u8> {
    Seq::new(n as nat, |r: int| byte_at(data, base + r))
}

/// Registers of `c` after registers 0 to `x` are read from memory at `c.i` onward.
pub open spec fn loaded_regs(c: CpuView, data: Seq<u8>, x: u8) -> Seq<u8> {
    Seq::new(16, |k: int| if k <= x { byte_at(data, c.i + k) } else { c.v[k] })
}

/// `c` after fetching: the program counter moved past the instruction.
pub open spec fn advanced(c: CpuView) -> CpuView {
    CpuView { pc: add16(c.pc, 2), ..c }
}

/// The operation at the program counter.
pub open spec fn fetched(c: CpuView, m: MmuView) -> Op {
    decode_spec(word_at(m.data, c.pc as int))
}

/// Whether executing `op` in state `c` is fatal: a stack overflow or underflow,
/// a glyph for a value above 0xF, or a write outside program space.
pub open spec fn op_faults(c: CpuView, op: Op) -> bool {
    match op {
        Op::Ret => c.sp == 0,
        Op::Call(_) => c.sp >= 15,
        Op::LdSprite(x) => c.v[x as int] > 0xF,
        Op::LdBcd(_) => !(is_program_address(c.i as int) && is_program_address(c.i + 2)),
        Op::StoreRegs(x) => !(is_program_address(c.i as int) && is_program_address(c.i + x)),
        _ => false,
    }
}

/// Whether the next step from `c` with memory `m` is fatal.
pub open spec fn step_faults(c: CpuView, m: MmuView) -> bool {
    op_faults(advanced(c), fetched(c, m))
}

/// Processor state after executing `op` in state `c` (the program counter already
/// advanced), with memory `m`, keys `keys`, and `random` as the random byte.
pub open spec fn cpu_after(c: CpuView, m: MmuView, keys: Seq<bool>, op: Op, random: u8) -> CpuView {
    let v = c.v;
    match op {
        Op::Ret => CpuView { pc: c.stack[c.sp as int], sp: (c.sp - 1) as u8, ..c },
        Op::Jmp(nnn) => CpuView { pc: nnn, ..c },
        Op::Call(nnn) => CpuView {
            sp: (c.sp + 1) as u8,
            stack: c.stack.update(c.sp + 1, c.pc),
            pc: nnn,
            ..c
        },
        Op::Se(x, kk) => skip_if(c, v[x as int] == kk),
        Op::Sne(x, kk) => skip_if(c, v[x as int] != kk),
        Op::SeXy(x, y) => skip_if(c, v[x as int] == v[y as int]),
        Op::Ld(x, kk) => set_reg(c, x as int, kk),
        Op::Add(x, kk) => set_reg(c, x as int, ((v[x as int] + kk) % 256) as u8),
        Op::LdXy(x, y) => set_reg(c, x as int, v[y as int]),
        Op::Or(x, y) => set_reg(c, x as int, v[x as int] | v[y as int]),
        Op::And(x, y) => set_reg(c, x as int, v[x as int] & v[y as int]),
        Op::Xor(x, y) => set_reg(c, x as int, v[x as int] ^ v[y as int]),
        Op::AddXy(x, y) => flag_then_reg(
            c,
            x as int,
            flag(v[x as int] + v[y as int] > 255),
            ((v[x as int] + v[y as int]) % 256) as u8,
        ),
        Op::Sub(x, y) => flag_then_reg(
            c,
            x as int,
            flag(v[x as int] > v[y as int]),
            ((v[x as int] - v[y as int]) % 256) as u8,
        ),
        Op::Shr(x) => {
            let c1 = set_reg(c, FLAG as int, flag(v[x as int] % 2 == 1));
            set_reg(c1, x as int, c1.v[x as int] / 2)
        },
        Op::Subn(x, y) => flag_then_reg(
            c,
            x as int,
            flag(v[y as int] > v[x as int]),
            ((v[y as int] - v[x as int]) % 256) as u8,
        ),
        Op::Shl(x) => {
            let c1 = set_reg(c, FLAG as int, flag(v[x as int] >= 128));
            set_reg(c1, x as int, ((c1.v[x as int] * 2) % 256) as u8)
        },
        Op::SneXy(x, y) => skip_if(c, v[x as int] != v[y as int]),
        Op::Ldi(nnn) => CpuView { i: nnn, ..c },
        Op::JmpV0(nnn) => CpuView { pc: (nnn + v[0]) as u16, ..c },
        Op::Rnd(x, kk) => set_reg(c, x as int, random & kk),
        Op::Drw(x, y, n) => set_reg(
            c,
            FLAG as int,
            flag(draw_collides(m.screen, v[x as int], v[y as int], sprite_rows(m.data, c.i, n))),
        ),
        Op::Skp(x) => skip_if(c, key_held(keys, v[x as int] as int)),
        Op::Skpn(x) => skip_if(c, !key_held(keys, v[x as int] as int)),
        Op::LdDt(x) => set_reg(c, x as int, c.dt),
        Op::SetDt(x) => CpuView { dt: v[x as int], ..c },
        Op::SetSt(x) => CpuView { st: v[x as int], ..c },
        Op::AddAddr(x) => CpuView { i: add16(c.i, v[x as int] as int), ..c },
        Op::LdSprite(x) => CpuView { i: (v[x as int] * 5) as u16, ..c },
        Op::LdRegs(x) => CpuView { v: loaded_regs(c, m.data, x), ..c },
        _ => c,
    }
}

/// Memory after executing `op` in processor state `c` with memory `m`.
pub open spec fn mem_after(c: CpuView, m: MmuView, op: Op) -> MmuView {
    match op {
        Op::Cls => MmuView { screen: blank_screen(), ..m },
        Op::Drw(x, y, n) => MmuView {
            screen: drawn_screen(m.screen, c.v[x as int], c.v[y as int], sprite_rows(m.data, c.i, n)),
            ..m
        },
        Op::LdBcd(x) => {
            let val = c.v[x as int];
            MmuView {
                data: m.data.update(c.i as int, val / 100).update(c.i + 1, (val % 100) / 10).update(
                    c.i + 2,
                    val % 10,
                ),
                ..m
            }
        },
        Op::StoreRegs(x) => MmuView {
            data: Seq::new(
                m.data.len(),
                |a: int|
                    if c.i <= a <= c.i + x {
                        c.v[a - c.i]
                    } else {
                        m.data[a]
                    },
            ),
            ..m
        },
        _ => m,
    }
}

pub open spec fn status_of(op: Op) -> ExecutionStatus {
    match op {
        Op::WaitKey(x) => ExecutionStatus::WaitForKey(x),
        _ => ExecutionStatus::Continue,
    }
}

/// Decodes one instruction.
pub fn decode(instruction: u16) -> (op: Op)
    ensures
        op == decode_spec(instruction),
        op_wf(op),
{
    let a = (instruction / 4096) as u8;
    let b = ((instruction / 256) % 16) as u8;
    let c = ((instruction / 16) % 16) as u8;
    let d = (instruction % 16) as u8;
    let nnn = instruction % 4096;
    let kk = (instruction % 256) as u8;
    let x = b;
    let y = c;
    let n = d;
    match (a, b, c, d) {
        (0x0, 0x0, 0xE, 0x0) => Op::Cls,
        (0x0, 0x0, 0xE, 0xE) => Op::Ret,
        (0x1, _, _, _) => Op::Jmp(nnn),
        (0x2, _, _, _) => Op::Call(nnn),
        (0x3, _, _, _) => Op::Se(x, kk),
        (0x4, _, _, _) => Op::Sne(x, kk),
        (0x5, _, _, 0x0) => Op::SeXy(x, y),
        (0x6, _, _, _) => Op::Ld(x, kk),
        (0x7, _, _, _) => Op::Add(x, kk),
        (0x8, _, _, 0x0) => Op::LdXy(x, y),
        (0x8, _, _, 0x1) => Op::Or(x, y),
        (0x8, _, _, 0x2) => Op::And(x, y),
        (0x8, _, _, 0x3) => Op::Xor(x, y),
        (0x8, _, _, 0x4) => Op::AddXy(x, y),
        (0x8, _, _, 0x5) => Op::Sub(x, y),
        (0x8, _, _, 0x6) => Op::Shr(x),
        (0x8, _, _, 0x7) => Op::Subn(x, y),
        (0x8, _, _, 0xE) => Op::Shl(x),
        (0x9, _, _, 0x0) => Op::SneXy(x, y),
        (0xA, _, _, _) => Op::Ldi(nnn),
        (0xB, _, _, _) => Op::JmpV0(nnn),
        (0xC, _, _, _) => Op::Rnd(x, kk),
        (0xD, _, _, _) => Op::Drw(x, y, n),
        (0xE, _, 0x9, 0xE) => Op::Skp(x),
        (0xE, _, 0xA, 0x1) => Op::Skpn(x),
        (0xF, _, 0x0, 0x7) => Op::LdDt(x),
        (0xF, _, 0x0, 0xA) => Op::WaitKey(x),
        (0xF, _, 0x1, 0x5) => Op::SetDt(x),
        (0xF, _, 0x1, 0x8) => Op::SetSt(x),
        (0xF, _, 0x1, 0xE) => Op::AddAddr(x),
        (0xF, _, 0x2, 0x9) => Op::LdSprite(x),
        (0xF, _, 0x3, 0x3) => Op::LdBcd(x),
        (0xF, _, 0x5, 0x5) => Op::StoreRegs(x),
        (0xF, _, 0x6, 0x5) => Op::LdRegs(x),
        _ => Op::Unknown(instruction),
    }
}

pub struct Cpu {
    /// The program counter
    pc: u16,
    /// The stack pointer
    sp: u8,
    /// The stack
    stack: [u16; 16],
    /// 16 general purpose 8-bit registers
    v: [u8; 16],
    /// 16-bit register usually used for storing an address
    i: u16,
    /// Delay timer
    dt: u8,
    /// Sound timer
    st: u8,
}

impl View for Cpu {
    type V = CpuView;

    closed spec fn view(&self) -> CpuView {
        CpuView {
            pc: self.pc,
            sp: self.sp,
            stack: self.stack@,
            v: self.v@,
            i: self.i,
            dt: self.dt,
            st: self.st,
        }
    }
}

/// The byte at `base + offset`, read with no wraparound of the address.
fn read_at_offset(mmu: &Mmu, base: u16, offset: u8) -> (r: u8)
    requires
        mmu.wf(),
    ensures
        r == byte_at(mmu@.data, base + offset),
{
    match base.checked_add(offset as u16) {
        Some(address) => mmu.read_byte(address),
        None => 0,
    }
}

/// Whether cell `k` is covered by a sprite bit that comes before row `r`, column `b`
/// in drawing order.
spec fn covers_before(x0: u8, y0: u8, rows: Seq<u8>, r: int, b: int, k: int) -> bool {
    let row = (k / 64 - y0) % 32;
    let col = (k % 64 - x0) % 64;
    (row < r || (row == r && col < b)) && sprite_covers(x0, y0, rows, k)
}

/// For `a` and `r` below `m`, stepping back `c` from `a` lands on `r` exactly when
/// `a` is `r` stepped forward by `c`.
proof fn lemma_wrap_offset(a: int, c: int, r: int, m: int)
    requires
        m == 32 || m == 64,
        0 <= a < m,
        0 <= r < m,
        0 <= c < 256,
    ensures
        ((a - c) % m == r) <==> a == (c + r) % m,
{
    if m == 32 {
        assert(((a - c) % 32 == r) <==> a == (c + r) % 32);
    } else {
        assert(((a - c) % 64 == r) <==> a == (c + r) % 64);
    }
}

/// The sprite bit at row `r`, column `b` lands on cell `pixel_index(x0 + b, y0 + r)`
/// and on no other.
proof fn lemma_sprite_cell(x0: u8, y0: u8, r: int, b: int, k: int)
    requires
        0 <= r < 32,
        0 <= b < 8,
        0 <= k < SCREEN_PIXELS,
    ensures
        ((k / 64 - y0) % 32 == r && (k % 64 - x0) % 64 == b) <==> k == pixel_index(
            x0 + b,
            y0 + r,
        ),
{
    let q = k / 64;
    let s = k % 64;
    assert(k == q * 64 + s && 0 <= q < 32 && 0 <= s < 64);
    lemma_wrap_offset(q, y0 as int, r, 32);
    lemma_wrap_offset(s, x0 as int, b, 64);
    let q2 = (y0 + r) % 32;
    let s2 = (x0 + b) % 64;
    assert(0 <= q2 < 32 && 0 <= s2 < 64);
    assert(pixel_index(x0 + b, y0 + r) == q2 * 64 + s2);
    assert((q * 64 + s == q2 * 64 + s2) ==> (q == q2 && s == s2));
}

impl Cpu {
    pub open spec fn wf(&self) -> bool {
        self@.wf()
    }

    pub fn new() -> (c: Cpu)
        ensures
            c.wf(),
            c@ == initial_cpu(),
    {
        let c = Cpu { pc: START_ADDRESS, sp: 0, stack: [0; 16], v: [0; 16], i: 0, dt: 0, st: 0 };
        assert(c@.stack =~= initial_cpu().stack);
        assert(c@.v =~= initial_cpu().v);
        c
    }

    pub fn pc(&self) -> (r: u16)
        ensures
            r == self@.pc,
    {
        self.pc
    }

    pub fn sp(&self) -> (r: u8)
        ensures
            r == self@.sp,
    {
        self.sp
    }

    pub fn i(&self) -> (r: u16)
        ensures
            r == self@.i,
    {
        self.i
    }

    pub fn dt(&self) -> (r: u8)
        ensures
            r == self@.dt,
    {
        self.dt
    }

    pub fn st(&self) -> (r: u8)
        ensures
            r == self@.st,
    {
        self.st
    }

    /// The value of register `x`.
    pub fn register(&self, x: u8) -> (r: u8)
        requires
            self.wf(),
            x < 16,
        ensures
            r == self@.v[x as int],
    {
        self.v[x as usize]
    }

    pub fn decrement_timers(&mut self)
        ensures
            final(self)@ == (CpuView {
                dt: if old(self)@.dt > 0 { (old(self)@.dt - 1) as u8 } else { 0 },
                st: if old(self)@.st > 0 { (old(self)@.st - 1) as u8 } else { 0 },
                ..old(self)@
            }),
    {
        if self.dt > 0 {
            self.dt -= 1;
        }
        if self.st > 0 {
            self.st -= 1;
        }
    }

    /// Stores `key` into register `x`, completing a wait for a key.
    pub fn provide_key(&mut self, x: u8, key: u8)
        requires
            old(self).wf(),
            x < 16,
        ensures
            final(self).wf(),
            final(self)@ == set_reg(old(self)@, x as int, key),
    {
        self.v[x as usize] = key;
    }

    /// Whether executing the instruction at the program counter would be fatal.
    pub fn next_step_faults(&self, mmu: &Mmu) -> (r: bool)
        requires
            self.wf(),
            mmu.wf(),
        ensures
            r == step_faults(self@, mmu@),
    {
        let op = decode(mmu.read_word(self.pc));
        match op {
            Op::Ret => self.sp == 0,
            Op::Call(_) => self.sp >= 15,
            Op::LdSprite(x) => self.v[x as usize] > 0xF,
            Op::LdBcd(_) => !(START_ADDRESS <= self.i && self.i <= 0xFFF - 2),
            Op::StoreRegs(x) => !(START_ADDRESS <= self.i && self.i <= 0xFFF - x as u16),
            _ => false,
        }
    }

    /// One fetch-decode-execute step, with `random` as the byte that `Cxkk` draws.
    pub fn step_with(&mut self, mmu: &mut Mmu, keyboard: &Keyboard, random: u8) -> (status:
        ExecutionStatus)
        requires
            old(self).wf(),
            old(mmu).wf(),
            !step_faults(old(self)@, old(mmu)@),
        ensures
            final(self).wf(),
            final(mmu).wf(),
            final(self)@ == cpu_after(
                advanced(old(self)@),
                old(mmu)@,
                keyboard.keys@,
                fetched(old(self)@, old(mmu)@),
                random,
            ),
            final(mmu)@ == mem_after(advanced(old(self)@), old(mmu)@, fetched(old(self)@, old(mmu)@)),
            status == status_of(fetched(old(self)@, old(mmu)@)),
    {
        let instruction = mmu.read_word(self.pc);
        self.pc = self.pc.wrapping_add(2);
        match decode(instruction) {
            Op::Cls => self.cls(mmu),
            Op::Ret => self.ret(),
            Op::Jmp(nnn) => self.jmp(nnn),
            Op::Call(nnn) => self.call(nnn),
            Op::Se(x, kk) => self.se(x, kk),
            Op::Sne(x, kk) => self.sne(x, kk),
            Op::SeXy(x, y) => self.se_xy(x, y),
            Op::Ld(x, kk) => self.ld(x, kk),
            Op::Add(x, kk) => self.add(x, kk),
            Op::LdXy(x, y) => self.ld_xy(x, y),
            Op::Or(x, y) => self.or(x, y),
            Op::And(x, y) => self.and(x, y),
            Op::Xor(x, y) => self.xor(x, y),
            Op::AddXy(x, y) => self.add_xy(x, y),
            Op::Sub(x, y) => self.sub(x, y),
            Op::Shr(x) => self.shr(x),
            Op::Subn(x, y) => self.subn(x, y),
            Op::Shl(x) => self.shl(x),
            Op::SneXy(x, y) => self.sne_xy(x, y),
            Op::Ldi(nnn) => self.ldi(nnn),
            Op::JmpV0(nnn) => self.jmp_v0(nnn),
            Op::Rnd(x, kk) => self.rnd(x, kk, random),
            Op::Drw(x, y, n) => self.drw(mmu, x, y, n),
            Op::Skp(x) => self.skp(keyboard, x),
            Op::Skpn(x) => self.skpn(keyboard, x),
            Op::LdDt(x) => self.ld_dt(x),
            Op::WaitKey(x) => return ExecutionStatus::WaitForKey(x),
            Op::SetDt(x) => self.set_dt(x),
            Op::SetSt(x) => self.set_st(x),
            Op::AddAddr(x) => self.add_addr(x),
            Op::LdSprite(x) => self.ld_sprite(mmu, x),
            Op::LdBcd(x) => self.ld_bcd(mmu, x),
            Op::StoreRegs(x) => self.store_regs(mmu, x),
            Op::LdRegs(x) => self.ld_regs(mmu, x),
            Op::Unknown(_) => {},
        }
        ExecutionStatus::Continue
    }

    /// One fetch-decode-execute step; `Cxkk` draws its byte from the random generator.
    pub fn step(&mut self, mmu: &mut Mmu, keyboard: &Keyboard) -> (status: ExecutionStatus)
        requires
            old(self).wf(),
            old(mmu).wf(),
            !step_faults(old(self)@, old(mmu)@),
        ensures
            final(self).wf(),
            final(mmu).wf(),
            exists|random: u8|
                final(self)@ == #[trigger] cpu_after(
                    advanced(old(self)@),
                    old(mmu)@,
                    keyboard.keys@,
                    fetched(old(self)@, old(mmu)@),
                    random,
                ),
            final(mmu)@ == mem_after(advanced(old(self)@), old(mmu)@, fetched(old(self)@, old(mmu)@)),
            status == status_of(fetched(old(self)@, old(mmu)@)),
    {
        let random = match decode(mmu.read_word(self.pc)) {
            Op::Rnd(_, _) => random_byte(),
            _ => 0,
        };
        self.step_with(mmu, keyboard, random)
    }

    fn cls(&mut self, mmu: &mut Mmu)
        requires
            old(mmu).wf(),
        ensures
            final(mmu).wf(),
            final(mmu)@ == (MmuView { screen: blank_screen(), ..old(mmu)@ }),
            final(self)@ == old(self)@,
    {
        mmu.clear_display();
    }

    fn ret(&mut self)
        requires
            old(self).wf(),
            old(self)@.sp > 0,
        ensures
            final(self).wf(),
            final(self)@ == (CpuView {
                pc: old(self)@.stack[old(self)@.sp as int],
                sp: (old(self)@.sp - 1) as u8,
                ..old(self)@
            }),
    {
        self.pc = self.stack[self.sp as usize];
        self.sp -= 1;
    }

    fn jmp(&mut self, nnn: u16)
        requires
            old(self).wf(),
        ensures
            final(self).wf(),
            final(self)@ == (CpuView { pc: nnn, ..old(self)@ }),
    {
        self.pc = nnn;
    }

    fn call(&mut self, nnn: u16)
        requires
            old(self).wf(),
            old(self)@.sp < 15,
        ensures
            final(self).wf(),
            final(self)@ == (CpuView {
                sp: (old(self)@.sp + 1) as u8,
                stack: old(self)@.stack.update(old(self)@.sp + 1, old(self)@.pc),
                pc: nnn,
                ..old(self)@
            }),
    {
        self.sp += 1;
        self.stack[self.sp as usize] = self.pc;
        self.pc = nnn;
    }

    /// Skips the next instruction.
    fn skip(&mut self)
        requires
            old(self).wf(),
        ensures
            final(self).wf(),
            final(self)@ == skip_if(old(self)@, true),
    {
        self.pc = self.pc.wrapping_add(2);
    }

    fn se(&mut self, x: u8, kk: u8)
        requires
            old(self).wf(),
            x < 16,
        ensures
            final(self).wf(),
            final(self)@ == skip_if(old(self)@, old(self)@.v[x as int] == kk),
    {
        if self.v[x as usize] == kk {
            self.skip();
        }
    }

    fn sne(&mut self, x: u8, kk: u8)
        requires
            old(self).wf(),
            x < 16,
        ensures
            final(self).wf(),
            final(self)@ == skip_if(old(self)@, old(self)@.v[x as int] != kk),
    {
        if self.v[x as usize] != kk {
            self.skip();
        }
    }

    fn se_xy(&mut self, x: u8, y: u8)
        requires
            old(self).wf(),
            x < 16,
            y < 16,
        ensures
            final(self).wf(),
            final(self)@ == skip_if(old(self)@, old(self)@.v[x as int] == old(self)@.v[y as int]),
    {
        if self.v[x as usize] == self.v[y as usize] {
            self.skip();
        }
    }

    fn ld(&mut self, x: u8, kk: u8)
        requires
            old(self).wf(),
            x < 16,
        ensures
            final(self).wf(),
            final(self)@ == set_reg(old(self)@, x as int, kk),
    {
        self.v[x as usize] = kk;
    }

    fn add(&mut self, x: u8, kk: u8)
        requires
            old(self).wf(),
            x < 16,
        ensures
            final(self).wf(),
            final(self)@ == set_reg(old(self)@, x as int, ((old(self)@.v[x as int] + kk) % 256) as u8),
    {
        self.v[x as usize] = self.v[x as usize].wrapping_add(kk);
    }

    fn ld_xy(&mut self, x: u8, y: u8)
        requires
            old(self).wf(),
            x < 16,
            y < 16,
        ensures
            final(self).wf(),
            final(self)@ == set_reg(old(self)@, x as int, old(self)@.v[y as int]),
    {
        self.v[x as usize] = self.v[y as usize];
    }

    fn or(&mut self, x: u8, y: u8)
        requires
            old(self).wf(),
            x < 16,
            y < 16,
        ensures
            final(self).wf(),
            final(self)@ == set_reg(old(self)@, x as int, old(self)@.v[x as int] | old(self)@.v[y as int]),
    {
        self.v[x as usize] = self.v[x as usize] | self.v[y as usize];
    }

    fn and(&mut self, x: u8, y: u8)
        requires
            old(self).wf(),
            x < 16,
            y < 16,
        ensures
            final(self).wf(),
            final(self)@ == set_reg(old(self)@, x as int, old(self)@.v[x as int] & old(self)@.v[y as int]),
    {
        self.v[x as usize] = self.v[x as usize] & self.v[y as usize];
    }

    fn xor(&mut self, x: u8, y: u8)
        requires
            old(self).wf(),
            x < 16,
            y < 16,
        ensures
            final(self).wf(),
            final(self)@ == set_reg(old(self)@, x as int, old(self)@.v[x as int] ^ old(self)@.v[y as int]),
    {
        self.v[x as usize] = self.v[x as usize] ^ self.v[y as usize];
    }

    fn add_xy(&mut self, x: u8, y: u8)
        requires
            old(self).wf(),
            x < 16,
            y < 16,
        ensures
            final(self).wf(),
            final(self)@ == flag_then_reg(
                old(self)@,
                x as int,
                flag(old(self)@.v[x as int] + old(self)@.v[y as int] > 255),
                ((old(self)@.v[x as int] + old(self)@.v[y as int]) % 256) as u8,
            ),
    {
        let x_val = self.v[x as usize];
        let y_val = self.v[y as usize];
        if x_val as u16 + y_val as u16 > 0xFF {
            self.v[FLAG] = 0x01;
        } else {
            self.v[FLAG] = 0x00;
        }
        self.v[x as usize] = x_val.wrapping_add(y_val);
    }

    fn sub(&mut self, x: u8, y: u8)
        requires
            old(self).wf(),
            x < 16,
            y < 16,
        ensures
            final(self).wf(),
            final(self)@ == flag_then_reg(
                old(self)@,
                x as int,
                flag(old(self)@.v[x as int] > old(self)@.v[y as int]),
                ((old(self)@.v[x as int] - old(self)@.v[y as int]) % 256) as u8,
            ),
    {
        let x_val = self.v[x as usize];
        let y_val = self.v[y as usize];
        if x_val > y_val {
            self.v[FLAG] = 0x01;
        } else {
            self.v[FLAG] = 0x00;
        }
        self.v[x as usize] = x_val.wrapping_sub(y_val);
    }

    fn shr(&mut self, x: u8)
        requires
            old(self).wf(),
            x < 16,
        ensures
            final(self).wf(),
            final(self)@ == ({
                let c1 = set_reg(old(self)@, FLAG as int, flag(old(self)@.v[x as int] % 2 == 1));
                set_reg(c1, x as int, c1.v[x as int] / 2)
            }),
    {
        let x_val = self.v[x as usize];
        assert(x_val & 1 == x_val % 2) by (bit_vector);
        if (x_val & 0x01) == 0x01 {
            self.v[FLAG] = 0x01;
        } else {
            self.v[FLAG] = 0x00;
        }
        let now = self.v[x as usize];
        assert(now >> 1 == now / 2) by (bit_vector);
        self.v[x as usize] = now >> 1;
    }

    fn subn(&mut self, x: u8, y: u8)
        requires
            old(self).wf(),
            x < 16,
            y < 16,
        ensures
            final(self).wf(),
            final(self)@ == flag_then_reg(
                old(self)@,
                x as int,
                flag(old(self)@.v[y as int] > old(self)@.v[x as int]),
                ((old(self)@.v[y as int] - old(self)@.v[x as int]) % 256) as u8,
            ),
    {
        let x_val = self.v[x as usize];
        let y_val = self.v[y as usize];
        if y_val > x_val {
            self.v[FLAG] = 0x01;
        } else {
            self.v[FLAG] = 0x00;
        }
        self.v[x as usize] = y_val.wrapping_sub(x_val);
    }

    fn shl(&mut self, x: u8)
        requires
            old(self).wf(),
            x < 16,
        ensures
            final(self).wf(),
            final(self)@ == ({
                let c1 = set_reg(old(self)@, FLAG as int, flag(old(self)@.v[x as int] >= 128));
                set_reg(c1, x as int, ((c1.v[x as int] * 2) % 256) as u8)
            }),
    {
        let x_val = self.v[x as usize];
        assert((x_val & 0x80 == 0x80) == (x_val >= 128)) by (bit_vector);
        if (x_val & 0x80) == 0x80 {
            self.v[FLAG] = 0x01;
        } else {
            self.v[FLAG] = 0x00;
        }
        let now = self.v[x as usize];
        assert(now << 1 == (now * 2) % 256) by (bit_vector);
        self.v[x as usize] = now << 1;
    }

    fn sne_xy(&mut self, x: u8, y: u8)
        requires
            old(self).wf(),
            x < 16,
            y < 16,
        ensures
            final(self).wf(),
            final(self)@ == skip_if(old(self)@, old(self)@.v[x as int] != old(self)@.v[y as int]),
    {
        if self.v[x as usize] != self.v[y as usize] {
            self.skip();
        }
    }

    fn ldi(&mut self, nnn: u16)
        requires
            old(self).wf(),
        ensures
            final(self).wf(),
            final(self)@ == (CpuView { i: nnn, ..old(self)@ }),
    {
        self.i = nnn;
    }

    fn jmp_v0(&mut self, nnn: u16)
        requires
            old(self).wf(),
            nnn < 4096,
        ensures
            final(self).wf(),
            final(self)@ == (CpuView { pc: (nnn + old(self)@.v[0]) as u16, ..old(self)@ }),
    {
        self.pc = nnn + self.v[0] as u16;
    }

    /// Sets register `x` to `random` masked by `kk`.
    fn rnd(&mut self, x: u8, kk: u8, random: u8)
        requires
            old(self).wf(),
            x < 16,
        ensures
            final(self).wf(),
            final(self)@ == set_reg(old(self)@, x as int, random & kk),
    {
        self.v[x as usize] = random & kk;
    }

    fn skp(&mut self, keyboard: &Keyboard, x: u8)
        requires
            old(self).wf(),
            x < 16,
        ensures
            final(self).wf(),
            final(self)@ == skip_if(old(self)@, key_held(keyboard.keys@, old(self)@.v[x as int] as int)),
    {
        let x_val = self.v[x as usize];
        if keyboard.key_pressed(x_val) {
            self.skip();
        }
    }

    fn skpn(&mut self, keyboard: &Keyboard, x: u8)
        requires
            old(self).wf(),
            x < 16,
        ensures
            final(self).wf(),
            final(self)@ == skip_if(old(self)@, !key_held(keyboard.keys@, old(self)@.v[x as int] as int)),
    {
        let x_val = self.v[x as usize];
        if !keyboard.key_pressed(x_val) {
            self.skip();
        }
    }

    fn ld_dt(&mut self, x: u8)
        requires
            old(self).wf(),
            x < 16,
        ensures
            final(self).wf(),
            final(self)@ == set_reg(old(self)@, x as int, old(self)@.dt),
    {
        self.v[x as usize] = self.dt;
    }

    fn set_dt(&mut self, x: u8)
        requires
            old(self).wf(),
            x < 16,
        ensures
            final(self).wf(),
            final(self)@ == (CpuView { dt: old(self)@.v[x as int], ..old(self)@ }),
    {
        self.dt = self.v[x as usize];
    }

    fn set_st(&mut self, x: u8)
        requires
            old(self).wf(),
            x < 16,
        ensures
            final(self).wf(),
            final(self)@ == (CpuView { st: old(self)@.v[x as int], ..old(self)@ }),
    {
        self.st = self.v[x as usize];
    }

    fn add_addr(&mut self, x: u8)
        requires
            old(self).wf(),
            x < 16,
        ensures
            final(self).wf(),
            final(self)@ == (CpuView { i: add16(old(self)@.i, old(self)@.v[x as int] as int), ..old(self)@ }),
    {
        self.i = self.i.wrapping_add(self.v[x as usize] as u16);
    }

    fn ld_sprite(&mut self, mmu: &Mmu, x: u8)
        requires
            old(self).wf(),
            x < 16,
            old(self)@.v[x as int] <= 0xF,
        ensures
            final(self).wf(),
            final(self)@ == (CpuView { i: (old(self)@.v[x as int] * 5) as u16, ..old(self)@ }),
    {
        self.i = mmu.get_glyph_address(self.v[x as usize]);
    }

    fn ld_bcd(&self, mmu: &mut Mmu, x: u8)
        requires
            self.wf(),
            old(mmu).wf(),
            x < 16,
            is_program_address(self@.i as int),
            is_program_address(self@.i + 2),
        ensures
            final(mmu).wf(),
            final(mmu)@ == mem_after(self@, old(mmu)@, Op::LdBcd(x)),
    {
        let x_val = self.v[x as usize];
        let hundreds = x_val / 100;
        let tenths = (x_val % 100) / 10;
        let ones = x_val % 10;
        mmu.write_byte(self.i, hundreds);
        mmu.write_byte(self.i + 1, tenths);
        mmu.write_byte(self.i + 2, ones);
    }

    fn store_regs(&self, mmu: &mut Mmu, x: u8)
        requires
            self.wf(),
            old(mmu).wf(),
            x < 16,
            is_program_address(self@.i as int),
            is_program_address(self@.i + x),
        ensures
            final(mmu).wf(),
            final(mmu)@ == mem_after(self@, old(mmu)@, Op::StoreRegs(x)),
    {
        let mut k: u8 = 0;
        while k <= x
            invariant
                self.wf(),
                mmu.wf(),
                k <= x + 1,
                x < 16,
                is_program_address(self@.i as int),
                is_program_address(self@.i + x),
                mmu@.screen == old(mmu)@.screen,
                forall|a: int|
                    0 <= a < MEMORY_SIZE ==> #[trigger] mmu@.data[a] == if self@.i <= a < self@.i + k {
                        self@.v[a - self@.i]
                    } else {
                        old(mmu)@.data[a]
                    },
            decreases x + 1 - k,
        {
            mmu.write_byte(self.i + k as u16, self.v[k as usize]);
            k = k + 1;
        }
        assert(mmu@.data =~= mem_after(self@, old(mmu)@, Op::StoreRegs(x)).data);
    }

    fn ld_regs(&mut self, mmu: &Mmu, x: u8)
        requires
            old(self).wf(),
            mmu.wf(),
            x < 16,
        ensures
            final(self).wf(),
            final(self)@ == (CpuView { v: loaded_regs(old(self)@, mmu@.data, x), ..old(self)@ }),
    {
        let mut k: u8 = 0;
        while k <= x
            invariant
                self.wf(),
                mmu.wf(),
                k <= x + 1,
                x < 16,
                self@ == (CpuView { v: self@.v, ..old(self)@ }),
                forall|j: int|
                    0 <= j < 16 ==> #[trigger] self@.v[j] == if j < k {
                        byte_at(mmu@.data, self@.i + j)
                    } else {
                        old(self)@.v[j]
                    },
            decreases x + 1 - k,
        {
            self.v[k as usize] = read_at_offset(mmu, self.i, k);
            k = k + 1;
        }
        assert(self@.v =~= loaded_regs(old(self)@, mmu@.data, x));
    }

    fn drw(&mut self, mmu: &mut Mmu, x: u8, y: u8, n: u8)
        requires
            old(self).wf(),
            old(mmu).wf(),
            x < 16,
            y < 16,
            n < 16,
        ensures
            final(mmu).wf(),
            final(mmu)@ == mem_after(old(self)@, old(mmu)@, Op::Drw(x, y, n)),
            final(self).wf(),
            final(self)@ == set_reg(
                old(self)@,
                FLAG as int,
                flag(
                    draw_collides(
                        old(mmu)@.screen,
                        old(self)@.v[x as int],
                        old(self)@.v[y as int],
                        sprite_rows(old(mmu)@.data, old(self)@.i, n),
                    ),
                ),
            ),
    {
        let x_val = self.v[x as usize];
        let y_val = self.v[y as usize];
        let ghost rows = sprite_rows(mmu@.data, self@.i, n);
        let ghost screen0 = mmu@.screen;
        let mut collision = false;
        let mut row: u8 = 0;
        while row < n
            invariant
                self.wf(),
                mmu.wf(),
                self@ == old(self)@,
                mmu@.data == old(mmu)@.data,
                screen0 == old(mmu)@.screen,
                rows == sprite_rows(mmu@.data, self@.i, n),
                row <= n,
                n < 16,
                forall|k: int|
                    0 <= k < SCREEN_PIXELS ==> #[trigger] mmu@.screen[k] == if covers_before(
                        x_val,
                        y_val,
                        rows,
                        row as int,
                        0,
                        k,
                    ) {
                        toggled(screen0[k])
                    } else {
                        screen0[k]
                    },
                collision == exists|k: int|
                    0 <= k < SCREEN_PIXELS && #[trigger] covers_before(
                        x_val,
                        y_val,
                        rows,
                        row as int,
                        0,
                        k,
                    ) && screen0[k] == PIXEL_ON,
            decreases n - row,
        {
            let byte = read_at_offset(mmu, self.i, row);
            assert(byte == rows[row as int]);
            let mut bit: u8 = 0;
            while bit < 8
                invariant
                    self.wf(),
                    mmu.wf(),
                    self@ == old(self)@,
                    mmu@.data == old(mmu)@.data,
                    screen0 == old(mmu)@.screen,
                    rows == sprite_rows(mmu@.data, self@.i, n),
                    byte == rows[row as int],
                    row < n,
                    n < 16,
                    bit <= 8,
                    forall|k: int|
                        0 <= k < SCREEN_PIXELS ==> #[trigger] mmu@.screen[k] == if covers_before(
                            x_val,
                            y_val,
                            rows,
                            row as int,
                            bit as int,
                            k,
                        ) {
                            toggled(screen0[k])
                        } else {
                            screen0[k]
                        },
                    collision == exists|k: int|
                        0 <= k < SCREEN_PIXELS && #[trigger] covers_before(
                            x_val,
                            y_val,
                            rows,
                            row as int,
                            bit as int,
                            k,
                        ) && screen0[k] == PIXEL_ON,
                decreases 8 - bit,
            {
                let px = ((x_val as u16 + bit as u16) % 64) as u8;
                let py = ((y_val as u16 + row as u16) % 32) as u8;
                let ghost p = pixel_index(px as int, py as int);
                assert(p == pixel_index(x_val + bit, y_val + row));
                assert forall|k: int| 0 <= k < SCREEN_PIXELS implies covers_before(
                    x_val,
                    y_val,
                    rows,
                    row as int,
                    bit + 1,
                    k,
                ) == (covers_before(x_val, y_val, rows, row as int, bit as int, k) || (k == p
                    && row_bit(byte, bit))) by {
                    lemma_sprite_cell(x_val, y_val, row as int, bit as int, k);
                }
                assert(0 <= p < SCREEN_PIXELS);
                assert(!covers_before(x_val, y_val, rows, row as int, bit as int, p)) by {
                    lemma_sprite_cell(x_val, y_val, row as int, bit as int, p);
                }
                let ghost old_collision = collision;
                if byte & (0x80u8 >> bit) != 0 {
                    assert(row_bit(byte, bit));
                    assert(mmu@.screen[p] == screen0[p]);
                    if mmu.xor_pixel(px, py) {
                        collision = true;
                    }
                } else {
                    assert(!row_bit(byte, bit));
                }
                assert(collision == (old_collision || (row_bit(byte, bit) && screen0[p]
                    == PIXEL_ON)));
                let ghost next = bit + 1;
                assert(collision == exists|k: int|
                    0 <= k < SCREEN_PIXELS && #[trigger] covers_before(
                        x_val,
                        y_val,
                        rows,
                        row as int,
                        next,
                        k,
                    ) && screen0[k] == PIXEL_ON) by {
                    if old_collision {
                        let k0 = choose|k: int|
                            0 <= k < SCREEN_PIXELS && #[trigger] covers_before(
                                x_val,
                                y_val,
                                rows,
                                row as int,
                                bit as int,
                                k,
                            ) && screen0[k] == PIXEL_ON;
                        assert(covers_before(x_val, y_val, rows, row as int, next, k0));
                    }
                    if row_bit(byte, bit) && screen0[p] == PIXEL_ON {
                        assert(covers_before(x_val, y_val, rows, row as int, next, p));
                    }
                    if exists|k: int|
                        0 <= k < SCREEN_PIXELS && #[trigger] covers_before(
                            x_val,
                            y_val,
                            rows,
                            row as int,
                            next,
                            k,
                        ) && screen0[k] == PIXEL_ON {
                        let k1 = choose|k: int|
                            0 <= k < SCREEN_PIXELS && #[trigger] covers_before(
                                x_val,
                                y_val,
                                rows,
                                row as int,
                                next,
                                k,
                            ) && screen0[k] == PIXEL_ON;
                        if !covers_before(x_val, y_val, rows, row as int, bit as int, k1) {
                            assert(k1 == p);
                        }
                    }
                }
                bit = bit + 1;
            }
            assert forall|k: int| 0 <= k < SCREEN_PIXELS implies covers_before(
                x_val,
                y_val,
                rows,
                row + 1,
                0,
                k,
            ) == covers_before(x_val, y_val, rows, row as int, 8, k) by {}
            proof {
                let ghost next = row + 1;
                if exists|k: int|
                    0 <= k < SCREEN_PIXELS && #[trigger] covers_before(
                        x_val,
                        y_val,
                        rows,
                        row as int,
                        8,
                        k,
                    ) && screen0[k] == PIXEL_ON {
                    let k0 = choose|k: int|
                        0 <= k < SCREEN_PIXELS && #[trigger] covers_before(
                            x_val,
                            y_val,
                            rows,
                            row as int,
                            8,
                            k,
                        ) && screen0[k] == PIXEL_ON;
                    assert(covers_before(x_val, y_val, rows, next, 0, k0));
                }
                if exists|k: int|
                    0 <= k < SCREEN_PIXELS && #[trigger] covers_before(
                        x_val,
                        y_val,
                        rows,
                        next,
                        0,
                        k,
                    ) && screen0[k] == PIXEL_ON {
                    let k1 = choose|k: int|
                        0 <= k < SCREEN_PIXELS && #[trigger] covers_before(
                            x_val,
                            y_val,
                            rows,
                            next,
                            0,
                            k,
                        ) && screen0[k] == PIXEL_ON;
                    assert(covers_before(x_val, y_val, rows, row as int, 8, k1));
                }
            }
            row = row + 1;
        }
        assert forall|k: int| 0 <= k < SCREEN_PIXELS implies covers_before(
            x_val,
            y_val,
            rows,
            n as int,
            0,
            k,
        ) == sprite_covers(x_val, y_val, rows, k) by {}
        assert(mmu@.screen =~= drawn_screen(screen0, x_val, y_val, rows));
        if collision {
            self.v[FLAG] = 0x01;
        } else {
            self.v[FLAG] = 0x00;
        }
    }
}

/// `8xy4` with `x` other than the flag register: `x` receives the sum modulo 256 and
/// the flag is 1 exactly when the unsigned sum exceeds 255, else 0.
pub proof fn lemma_add_xy_carry(c: CpuView, m: MmuView, keys: Seq<bool>, x: u8, y: u8, random: u8)
    requires
        c.wf(),
        x < 16,
        y < 16,
        x != FLAG,
    ensures
        decode_spec((0x8004 + x * 256 + y * 16) as u16) == Op::AddXy(x, y),
        ({
            let r = cpu_after(c, m, keys, Op::AddXy(x, y), random);
            &&& r.v[x as int] == (c.v[x as int] + c.v[y as int]) % 256
            &&& r.v[FLAG as int] == if c.v[x as int] + c.v[y as int] > 255 {
                1u8
            } else {
                0u8
            }
        }),
{
}

/// `8xy5` and `8xy7` with `x` other than the flag register: the flag comes from
/// comparing the operands before the subtraction, and `x` receives the difference
/// modulo 256.
pub proof fn lemma_sub_borrow(c: CpuView, m: MmuView, keys: Seq<bool>, x: u8, y: u8, random: u8)
    requires
        c.wf(),
        x < 16,
        y < 16,
        x != FLAG,
    ensures
        decode_spec((0x8005 + x * 256 + y * 16) as u16) == Op::Sub(x, y),
        decode_spec((0x8007 + x * 256 + y * 16) as u16) == Op::Subn(x, y),
        ({
            let r = cpu_after(c, m, keys, Op::Sub(x, y), random);
            &&& r.v[FLAG as int] == flag(c.v[x as int] > c.v[y as int])
            &&& r.v[x as int] == (c.v[x as int] - c.v[y as int]) % 256
        }),
        ({
            let r = cpu_after(c, m, keys, Op::Subn(x, y), random);
            &&& r.v[FLAG as int] == flag(c.v[y as int] > c.v[x as int])
            &&& r.v[x as int] == (c.v[y as int] - c.v[x as int]) % 256
        }),
{
}

} // verus!
