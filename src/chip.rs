use vstd::prelude::*;

use crate::cpu::{
    advanced, cpu_after, fetched, initial_cpu, mem_after, set_reg, status_of, step_faults, Cpu,
    CpuView, ExecutionStatus, Op,
};
use crate::keyboard::{lowest_held, none_held, Keyboard};
use crate::mmu::{initial_memory, word_at, Mmu, MmuView};

verus! {

/// The machine: processor, memory and keypad, and whether the processor is blocked
/// on a key for some register.
pub struct Chip {
    pub cpu: Cpu,
    pub mmu: Mmu,
    pub keyboard: Keyboard,
    waiting_for_input: Option<u8>,
}

/// Abstract state of the machine. `waiting` is `None` while running and `Some(x)`
/// while blocked until a key is pressed for register `x`.
pub struct ChipView {
    pub cpu: CpuView,
    pub mmu: MmuView,
    pub keys: Seq<bool>,
    pub waiting: Option<u8>,
}

impl ChipView {
    pub open spec fn wf(self) -> bool {
        &&& self.cpu.wf()
        &&& self.mmu.wf()
        &&& match self.waiting {
            Some(x) => x < 16,
            None => true,
        }
    }

    /// Whether the next tick runs a step that is fatal.
    pub open spec fn next_faults(self) -> bool {
        self.waiting is None && step_faults(self.cpu, self.mmu)
    }

    /// The state one tick later, with `random` as the byte a `Cxkk` step draws.
    /// While blocked, a tick hands the lowest held key to the waiting register
    /// and resumes, or changes nothing when no key is held.
    pub open spec fn tick(self, random: u8) -> ChipView {
        match self.waiting {
            Some(x) => if none_held(self.keys) {
                self
            } else {
                let key = choose|key: u8| lowest_held(self.keys, key as int);
                ChipView { cpu: set_reg(self.cpu, x as int, key), waiting: None, ..self }
            },
            None => {
                let op = fetched(self.cpu, self.mmu);
                ChipView {
                    cpu: cpu_after(advanced(self.cpu), self.mmu, self.keys, op, random),
                    mmu: mem_after(advanced(self.cpu), self.mmu, op),
                    waiting: wait_after(status_of(op)),
                    ..self
                }
            },
        }
    }

    /// The state after a timer tick: timers frozen while blocked on a key.
    pub open spec fn timers_ticked(self) -> ChipView {
        if self.waiting is None {
            ChipView {
                cpu: CpuView {
                    dt: if self.cpu.dt > 0 { (self.cpu.dt - 1) as u8 } else { 0 },
                    st: if self.cpu.st > 0 { (self.cpu.st - 1) as u8 } else { 0 },
                    ..self.cpu
                },
                ..self
            }
        } else {
            self
        }
    }
}

/// Pending wait after a step that reported `status`.
pub open spec fn wait_after(status: ExecutionStatus) -> Option<u8> {
    match status {
        ExecutionStatus::WaitForKey(x) => Some(x),
        ExecutionStatus::Continue => None,
    }
}

impl View for Chip {
    type V = ChipView;

    closed spec fn view(&self) -> ChipView {
        ChipView {
            cpu: self.cpu@,
            mmu: self.mmu@,
            keys: self.keyboard.keys@,
            waiting: self.waiting_for_input,
        }
    }
}

impl Chip {
    pub open spec fn wf(&self) -> bool {
        self@.wf()
    }

    pub fn new() -> (c: Chip)
        ensures
            c.wf(),
            c@.waiting == None::<u8>,
            c@.cpu == initial_cpu(),
            c@.mmu == initial_memory(),
            none_held(c@.keys),
    {
        Chip { cpu: Cpu::new(), mmu: Mmu::new(), keyboard: Keyboard::new(), waiting_for_input: None }
    }

    pub fn waiting_for_input(&self) -> (r: Option<u8>)
        ensures
            r == self@.waiting,
    {
        self.waiting_for_input
    }

    /// Whether the next call of `execute` would run a fatal instruction.
    pub fn next_step_faults(&self) -> (r: bool)
        requires
            self.wf(),
        ensures
            r == self@.next_faults(),
    {
        self.waiting_for_input.is_none() && self.cpu.next_step_faults(&self.mmu)
    }

    /// One tick: a processor step when running; a poll of the keypad when blocked.
    pub fn execute(&mut self)
        requires
            old(self).wf(),
            !old(self)@.next_faults(),
        ensures
            final(self).wf(),
            exists|random: u8| final(self)@ == #[trigger] old(self)@.tick(random),
    {
        if let Some(x) = self.waiting_for_input {
            if let Some(key) = self.keyboard.first_pressed_key() {
                self.waiting_for_input = None;
                self.cpu.provide_key(x, key);
                assert(self@ == old(self)@.tick(0));
            } else {
                assert(self@ == old(self)@.tick(0));
            }
        } else {
            match self.cpu.step(&mut self.mmu, &self.keyboard) {
                ExecutionStatus::WaitForKey(x) => {
                    self.waiting_for_input = Some(x);
                },
                _ => {},
            }
            proof {
                let c0 = old(self)@.cpu;
                let m0 = old(self)@.mmu;
                let r0 = choose|r: u8|
                    self.cpu@ == #[trigger] cpu_after(advanced(c0), m0, self@.keys, fetched(c0, m0), r);
                assert(self@ == old(self)@.tick(r0));
            }
        }
    }

    /// Counts the timers down, unless the machine is blocked on a key.
    pub fn decrement_timers(&mut self)
        requires
            old(self).wf(),
        ensures
            final(self).wf(),
            final(self)@ == old(self)@.timers_ticked(),
    {
        if self.waiting_for_input.is_none() {
            self.cpu.decrement_timers();
        }
    }
}

/// `Fx0A` blocks the machine on register `x` without touching a register, whatever
/// keys are held: a key can resolve the wait only on a later tick.
pub proof fn lemma_wait_key_blocks(s: ChipView, x: u8, random: u8)
    requires
        s.wf(),
        s.waiting is None,
        fetched(s.cpu, s.mmu) == Op::WaitKey(x),
    ensures
        s.tick(random).waiting == Some(x),
        s.tick(random).cpu == advanced(s.cpu),
        s.tick(random).mmu == s.mmu,
{
}

/// While blocked with no key held, a tick changes nothing.
pub proof fn lemma_wait_without_key(s: ChipView, random: u8)
    requires
        s.wf(),
        s.waiting is Some,
        none_held(s.keys),
    ensures
        s.tick(random) == s,
{
}

/// While blocked on register `x`, a tick with keys held writes the lowest held key
/// into `x`, resumes running, and executes no instruction.
pub proof fn lemma_wait_resolved(s: ChipView, x: u8, key: u8, random: u8)
    requires
        s.wf(),
        s.waiting == Some(x),
        lowest_held(s.keys, key as int),
    ensures
        s.tick(random).waiting == None::<u8>,
        s.tick(random).cpu == set_reg(s.cpu, x as int, key),
        s.tick(random).mmu == s.mmu,
{
    assert(!none_held(s.keys));
    let k = choose|k: u8| lowest_held(s.keys, k as int);
    assert(k == key);
}

/// While blocked on a key, the timers do not move.
pub proof fn lemma_timers_frozen_while_waiting(s: ChipView)
    requires
        s.waiting is Some,
    ensures
        s.timers_ticked() == s,
{
}

/// A jump to its own address leaves the whole machine unchanged at every tick.
pub proof fn lemma_jump_to_self(s: ChipView, random: u8)
    requires
        s.wf(),
        s.waiting is None,
        s.cpu.pc < 4096,
        word_at(s.mmu.data, s.cpu.pc as int) == 0x1000 + s.cpu.pc,
    ensures
        s.tick(random) == s,
{
}

} // verus!
