//! The handler registry: a write-once table of at most four callback slots
//! (timer, keyboard, startup, idle loop) that the interrupt entry points
//! consult at dispatch time. The callbacks themselves are application code
//! that lives outside the library, behind hardware calling conventions; here
//! each one is represented by the address-like handle under which the
//! application registered it. The registry decides which handle to invoke;
//! the surrounding runtime makes the actual call.

use crate::interrupts::{PIC_1_OFFSET, PIC_2_OFFSET};
use vstd::prelude::*;

verus! {

/// The registry of callback slots. A slot holds the handle of the callback
/// registered for it, or `None` for "no interest registered" — which is not
/// an error. `cpu_loop` is the idle loop; `None` stands for the built-in
/// low-power halt loop, which is always available.
#[derive(Clone, Copy, Debug)]
pub struct HandlerTable {
    pub timer: Option<usize>,
    pub keyboard: Option<usize>,
    pub startup: Option<usize>,
    pub cpu_loop: Option<usize>,
}

/// The boot sequence that `start` commits to, for the surrounding runtime to
/// carry out in order: run the startup callback if one is registered, install
/// the vector table over the registry, remap the two controller chips to the
/// fixed offsets and unmask them, enable interrupts, and finally hand control
/// to the idle loop, which never returns.
#[derive(Clone, Copy, Debug)]
pub struct StartPlan {
    pub startup: Option<usize>,
    pub table: HandlerTable,
    pub primary_offset: u8,
    pub secondary_offset: u8,
    pub idle: Option<usize>,
}

impl HandlerTable {
    /// An empty registry: no timer, keyboard or startup interest, and the
    /// built-in halt loop as the idle loop.
    pub fn new() -> (t: HandlerTable)
        ensures
            t.timer is None,
            t.keyboard is None,
            t.startup is None,
            t.cpu_loop is None,
    {
        HandlerTable { timer: None, keyboard: None, startup: None, cpu_loop: None }
    }

    /// Registers the timer callback.
    pub fn timer(self, handler: usize) -> (t: HandlerTable)
        ensures
            t.timer == Some(handler),
            t.keyboard == self.keyboard,
            t.startup == self.startup,
            t.cpu_loop == self.cpu_loop,
    {
        HandlerTable { timer: Some(handler), ..self }
    }

    /// Registers the keyboard callback.
    pub fn keyboard(self, handler: usize) -> (t: HandlerTable)
        ensures
            t.keyboard == Some(handler),
            t.timer == self.timer,
            t.startup == self.startup,
            t.cpu_loop == self.cpu_loop,
    {
        HandlerTable { keyboard: Some(handler), ..self }
    }

    /// Registers the startup callback, run once before interrupts arrive.
    pub fn startup(self, handler: usize) -> (t: HandlerTable)
        ensures
            t.startup == Some(handler),
            t.timer == self.timer,
            t.keyboard == self.keyboard,
            t.cpu_loop == self.cpu_loop,
    {
        HandlerTable { startup: Some(handler), ..self }
    }

    /// Replaces the built-in halt loop with the given idle-loop callback.
    pub fn cpu_loop(self, handler: usize) -> (t: HandlerTable)
        ensures
            t.cpu_loop == Some(handler),
            t.timer == self.timer,
            t.keyboard == self.keyboard,
            t.startup == self.startup,
    {
        HandlerTable { cpu_loop: Some(handler), ..self }
    }

    /// The timer entry point's registry read: the callback handle to invoke
    /// for a timer tick, if one was registered.
    pub fn handle_timer(&self) -> (r: Option<usize>)
        ensures
            r == self.timer,
    {
        self.timer
    }

    /// The keyboard entry point's registry read: the callback handle to
    /// invoke for a completed key, if one was registered.
    pub fn handle_keyboard(&self) -> (r: Option<usize>)
        ensures
            r == self.keyboard,
    {
        self.keyboard
    }

    /// Consumes the fully configured registry into the boot plan: the single
    /// transition from `Configured` to `Running`. The runtime carries the
    /// plan out; once it has, the installed table is never written again.
    pub fn start(self) -> (plan: StartPlan)
        ensures
            plan.startup == self.startup,
            plan.table == self,
            plan.primary_offset == PIC_1_OFFSET,
            plan.secondary_offset == PIC_2_OFFSET,
            plan.idle == self.cpu_loop,
    {
        StartPlan {
            startup: self.startup,
            table: self,
            primary_offset: PIC_1_OFFSET,
            secondary_offset: PIC_2_OFFSET,
            idle: self.cpu_loop,
        }
    }
}

} // verus!
