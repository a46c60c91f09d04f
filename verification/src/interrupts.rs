//! The interrupt vector table and dispatch protocol, with the controller
//! acknowledgment model. The hardware-facing shims — the descriptor-table
//! load, the port reads and writes, the calling-convention entry stubs — live
//! in the surrounding runtime; it forwards each interrupt occurrence here,
//! and this module decides which registered callback to invoke and which
//! controller chips to signal, as one `IrqOutcome` the runtime carries out.

use crate::handlers::HandlerTable;
use crate::keyboard::{recognize, spec_decode_step, spec_recognize, Decoder, GameKey};
use vstd::prelude::*;

verus! {

/// First vector of the primary controller chip, right above the CPU-reserved
/// exception range `0..=31`.
pub const PIC_1_OFFSET: u8 = 32;

/// First vector of the secondary chip: the eight lines after the primary's.
pub const PIC_2_OFFSET: u8 = PIC_1_OFFSET + 8;

/// The breakpoint exception's architectural vector.
pub const BREAKPOINT_VECTOR: u8 = 3;

/// The double-fault exception's architectural vector.
pub const DOUBLE_FAULT_VECTOR: u8 = 8;

/// The two hardware interrupt lines this kernel serves.
#[derive(Clone, Copy, PartialEq, Eq, Structural, Debug)]
pub enum InterruptIndex {
    Timer,
    Keyboard,
}

impl InterruptIndex {
    /// The vector this line is remapped to: the primary chip's first two.
    pub open spec fn spec_vector(self) -> u8 {
        match self {
            InterruptIndex::Timer => PIC_1_OFFSET,
            InterruptIndex::Keyboard => (PIC_1_OFFSET + 1) as u8,
        }
    }

    /// The vector number of this line.
    pub fn as_u8(self) -> (r: u8)
        ensures
            r == self.spec_vector(),
    {
        match self {
            InterruptIndex::Timer => PIC_1_OFFSET,
            InterruptIndex::Keyboard => PIC_1_OFFSET + 1,
        }
    }

    /// The vector number of this line, widened for table indexing.
    pub fn as_usize(self) -> (r: usize)
        ensures
            r == self.spec_vector() as usize,
    {
        self.as_u8() as usize
    }
}

/// The chip based at `offset` owns the eight vectors `offset..offset + 8`.
pub open spec fn spec_owns(offset: u8, vector: u8) -> bool {
    offset <= vector < offset + 8
}

/// Which chips receive an end-of-interrupt signal for a vector: the
/// secondary only when it owns the vector, the primary whenever either chip
/// does, since the secondary is chained through the primary. (Signalling
/// both chips unconditionally would also be defensible, but is observably
/// different under chained-interrupt timing; this mirrors the controller
/// driver's cascade rule.)
#[derive(Clone, Copy, PartialEq, Eq, Structural, Debug)]
pub struct AckDecision {
    pub primary: bool,
    pub secondary: bool,
}

/// Mirror of the two chained controller chips' configuration: their vector
/// bases, and whether the remap-and-unmask initialization has run.
#[derive(Clone, Copy, PartialEq, Eq, Structural, Debug)]
pub struct ControllerState {
    pub primary_offset: u8,
    pub secondary_offset: u8,
    pub initialized: bool,
}

/// A sound controller configuration: both vector bases above the
/// CPU-reserved exception range `0..=31`, each with room for its chip's
/// eight lines.
pub open spec fn spec_controller_wf(c: ControllerState) -> bool {
    32 <= c.primary_offset && c.primary_offset + 8 <= 256 && 32 <= c.secondary_offset
        && c.secondary_offset + 8 <= 256
}

impl ControllerState {
    /// A controller configuration. The bases must lie above the CPU-reserved
    /// exception range `0..=31`, and each chip needs room for eight vectors.
    pub fn new(primary_offset: u8, secondary_offset: u8) -> (c: ControllerState)
        requires
            32 <= primary_offset,
            primary_offset + 8 <= 256,
            32 <= secondary_offset,
            secondary_offset + 8 <= 256,
        ensures
            c.primary_offset == primary_offset,
            c.secondary_offset == secondary_offset,
            !c.initialized,
            spec_controller_wf(c),
    {
        ControllerState { primary_offset, secondary_offset, initialized: false }
    }

    /// Records the remap-and-unmask initialization: the offsets are written
    /// to the chips and both lines are left unmasked. The port writes that
    /// carry this to the hardware are the runtime's.
    pub fn initialize(&mut self)
        ensures
            final(self).primary_offset == old(self).primary_offset,
            final(self).secondary_offset == old(self).secondary_offset,
            final(self).initialized,
    {
        self.initialized = true;
    }

    /// Whether either chip owns `vector`.
    pub fn handles_interrupt(&self, vector: u8) -> (r: bool)
        ensures
            r == (spec_owns(self.primary_offset, vector) || spec_owns(
                self.secondary_offset,
                vector,
            )),
    {
        (self.primary_offset <= vector && vector - self.primary_offset < 8) || (
        self.secondary_offset <= vector && vector - self.secondary_offset < 8)
    }

    /// The end-of-interrupt decision for `vector`. The acknowledgment
    /// protocol sends this exactly once per interrupt occurrence, after the
    /// callback stage.
    pub fn acknowledge(&self, vector: u8) -> (r: AckDecision)
        ensures
            r.secondary == spec_owns(self.secondary_offset, vector),
            r.primary == (spec_owns(self.primary_offset, vector) || spec_owns(
                self.secondary_offset,
                vector,
            )),
    {
        let secondary = self.secondary_offset <= vector && vector - self.secondary_offset < 8;
        let primary = secondary || (self.primary_offset <= vector && vector - self.primary_offset
            < 8);
        AckDecision { primary, secondary }
    }
}

/// The four entry points the vector table binds.
#[derive(Clone, Copy, PartialEq, Eq, Structural, Debug)]
pub enum EntryPoint {
    Breakpoint,
    DoubleFault,
    Timer,
    Keyboard,
}

/// What a CPU-exception entry point does once its logging is over: a
/// breakpoint is resumable; a double fault is terminal, because it means the
/// interrupt machinery itself can no longer be trusted.
#[derive(Clone, Copy, PartialEq, Eq, Structural, Debug)]
pub enum FaultAction {
    Resume,
    Halt,
}

/// The interrupt vector table: the fixed, total binding from the four used
/// vector numbers to entry points. Built once, immutable after installation.
#[derive(Clone, Copy, PartialEq, Eq, Structural, Debug)]
pub struct VectorTable {
    pub breakpoint: u8,
    pub double_fault: u8,
    pub timer: u8,
    pub keyboard: u8,
}

/// A sound vector table: the four vectors are distinct — the binding is a
/// total function on them — and the hardware lines sit above the
/// CPU-reserved exception range.
pub open spec fn spec_table_wf(t: VectorTable) -> bool {
    t.breakpoint != t.double_fault && t.breakpoint != t.timer && t.breakpoint != t.keyboard
        && t.double_fault != t.timer && t.double_fault != t.keyboard && t.timer != t.keyboard && 32
        <= t.timer && 32 <= t.keyboard
}

impl VectorTable {
    /// The entry point bound to `vector`, if any; earlier slots win, though
    /// in the table built here all four vectors are distinct.
    pub open spec fn spec_entry_for(self, vector: u8) -> Option<EntryPoint> {
        if vector == self.breakpoint {
            Some(EntryPoint::Breakpoint)
        } else if vector == self.double_fault {
            Some(EntryPoint::DoubleFault)
        } else if vector == self.timer {
            Some(EntryPoint::Timer)
        } else if vector == self.keyboard {
            Some(EntryPoint::Keyboard)
        } else {
            None
        }
    }

    /// The fixed binding: breakpoint and double fault on their architectural
    /// exception vectors, timer and keyboard on the remapped hardware lines.
    pub fn new() -> (t: VectorTable)
        ensures
            t.breakpoint == BREAKPOINT_VECTOR,
            t.double_fault == DOUBLE_FAULT_VECTOR,
            t.timer == InterruptIndex::Timer.spec_vector(),
            t.keyboard == InterruptIndex::Keyboard.spec_vector(),
            spec_table_wf(t),
    {
        VectorTable {
            breakpoint: BREAKPOINT_VECTOR,
            double_fault: DOUBLE_FAULT_VECTOR,
            timer: InterruptIndex::Timer.as_u8(),
            keyboard: InterruptIndex::Keyboard.as_u8(),
        }
    }

    /// Routes a vector number to its entry point.
    pub fn entry_for(&self, vector: u8) -> (r: Option<EntryPoint>)
        ensures
            r == self.spec_entry_for(vector),
    {
        if vector == self.breakpoint {
            Some(EntryPoint::Breakpoint)
        } else if vector == self.double_fault {
            Some(EntryPoint::DoubleFault)
        } else if vector == self.timer {
            Some(EntryPoint::Timer)
        } else if vector == self.keyboard {
            Some(EntryPoint::Keyboard)
        } else {
            None
        }
    }
}

/// What an exception entry point does after logging: breakpoints resume,
/// double faults halt; the hardware lines are not exceptions and fall
/// through to their dispatch protocol instead.
pub fn exception_action(e: EntryPoint) -> (r: Option<FaultAction>)
    ensures
        e == EntryPoint::Breakpoint ==> r == Some(FaultAction::Resume),
        e == EntryPoint::DoubleFault ==> r == Some(FaultAction::Halt),
        (e == EntryPoint::Timer || e == EntryPoint::Keyboard) ==> r is None,
{
    match e {
        EntryPoint::Breakpoint => Some(FaultAction::Resume),
        EntryPoint::DoubleFault => Some(FaultAction::Halt),
        EntryPoint::Timer => None,
        EntryPoint::Keyboard => None,
    }
}

/// One invocation decision: the registered callback handle to run, and the
/// recognized key to hand the keyboard callback (`None` for the timer's,
/// which takes no argument).
#[derive(Clone, Copy, PartialEq, Eq, Structural, Debug)]
pub struct Invocation {
    pub handler: usize,
    pub key: Option<GameKey>,
}

/// The outcome of one interrupt occurrence: at most one callback invocation,
/// and the vector to acknowledge — always present, exactly once, carried out
/// after the callback stage.
#[derive(Clone, Copy, PartialEq, Eq, Structural, Debug)]
pub struct IrqOutcome {
    pub invoke: Option<Invocation>,
    pub ack: u8,
}

/// Raised by `init_idt` when a registry is already installed: the table is
/// write-once.
#[derive(Clone, Copy, PartialEq, Eq, Structural, Debug)]
pub enum InstallError {
    AlreadyInstalled,
}

/// The timer entry's invocation decision: the registered timer callback, if
/// a registry is installed and has one.
pub open spec fn spec_timer_invocation(h: Option<HandlerTable>) -> Option<Invocation> {
    match h {
        Some(t) => match t.timer {
            Some(handle) => Some(Invocation { handler: handle, key: None }),
            None => None,
        },
        None => None,
    }
}

/// The keyboard entry's invocation decision for the byte `b` arriving after
/// `history`: invoke the registered keyboard callback only once a complete
/// key is assembled and it maps to a recognized key; otherwise nothing.
pub open spec fn spec_keyboard_invocation(
    h: Option<HandlerTable>,
    history: Seq<u8>,
    b: u8,
) -> Option<Invocation> {
    match spec_decode_step(history, b) {
        Some(k) => match spec_recognize(k) {
            Some(g) => match h {
                Some(t) => match t.keyboard {
                    Some(handle) => Some(Invocation { handler: handle, key: Some(g) }),
                    None => None,
                },
                None => None,
            },
            None => None,
        },
        None => None,
    }
}

/// The dispatch state the entry points consult: the installed registry
/// (write-once), the scancode decoder, the controller mirror, and the
/// vector table.
pub struct Dispatcher {
    pub handlers: Option<HandlerTable>,
    pub decoder: Decoder,
    pub controller: ControllerState,
    pub table: VectorTable,
}

impl Dispatcher {
    /// The dispatch state as it is before the registry is installed: no
    /// handlers, a fresh decoder, the controller on the fixed offsets and
    /// not yet initialized, and the fixed vector table.
    pub fn new() -> (d: Dispatcher)
        ensures
            d.handlers is None,
            d.decoder.history() == Seq::<u8>::empty(),
            d.controller.primary_offset == PIC_1_OFFSET,
            d.controller.secondary_offset == PIC_2_OFFSET,
            !d.controller.initialized,
            spec_controller_wf(d.controller),
            spec_table_wf(d.table),
            d.table == (VectorTable {
                breakpoint: BREAKPOINT_VECTOR,
                double_fault: DOUBLE_FAULT_VECTOR,
                timer: InterruptIndex::Timer.spec_vector(),
                keyboard: InterruptIndex::Keyboard.spec_vector(),
            }),
    {
        Dispatcher {
            handlers: None,
            decoder: Decoder::new(),
            controller: ControllerState::new(PIC_1_OFFSET, PIC_2_OFFSET),
            table: VectorTable::new(),
        }
    }

    /// Installs the registry and activates the vector table: to be done
    /// exactly once, after the registry is fully populated and before
    /// interrupts are enabled. A one-shot guard refuses a second install,
    /// leaving everything untouched.
    pub fn init_idt(&mut self, handlers: HandlerTable) -> (r: Result<(), InstallError>)
        ensures
            old(self).handlers is None ==> ((r is Ok) && final(self).handlers == Some(handlers)),
            old(self).handlers is Some ==> (r == Err::<(), InstallError>(
                InstallError::AlreadyInstalled,
            ) && final(self).handlers == old(self).handlers),
            final(self).decoder == old(self).decoder,
            final(self).controller == old(self).controller,
            final(self).table == old(self).table,
    {
        if self.handlers.is_some() {
            Err(InstallError::AlreadyInstalled)
        } else {
            self.handlers = Some(handlers);
            Ok(())
        }
    }

    /// The timer entry point: read the registry and pick the timer callback
    /// if present — absence is not an error — then acknowledge the timer
    /// line, unconditionally and exactly once, after the callback stage.
    /// Nothing is written: the registry is read-only at dispatch time.
    pub fn timer_interrupt(&self) -> (out: IrqOutcome)
        ensures
            out.invoke == spec_timer_invocation(self.handlers),
            out.ack == InterruptIndex::Timer.spec_vector(),
    {
        let invoke = match &self.handlers {
            Some(t) => match t.handle_timer() {
                Some(handle) => Some(Invocation { handler: handle, key: None }),
                None => None,
            },
            None => None,
        };
        IrqOutcome { invoke, ack: InterruptIndex::Timer.as_u8() }
    }

    /// The keyboard entry point, given the scancode byte the runtime read
    /// from the keyboard port: feed it to the decoder; once a complete key
    /// is assembled and recognized, pick the registered keyboard callback —
    /// absence of either is not an error — then acknowledge the keyboard
    /// line, unconditionally and exactly once, after the callback stage.
    /// Only the decoder advances; the registry and controller are read-only.
    pub fn keyboard_interrupt(&mut self, scancode: u8) -> (out: IrqOutcome)
        ensures
            final(self).handlers == old(self).handlers,
            final(self).controller == old(self).controller,
            final(self).table == old(self).table,
            final(self).decoder.history() == old(self).decoder.history().push(scancode),
            out.invoke == spec_keyboard_invocation(
                old(self).handlers,
                old(self).decoder.history(),
                scancode,
            ),
            out.ack == InterruptIndex::Keyboard.spec_vector(),
    {
        let key = self.decoder.push_byte(scancode);
        let invoke = match key {
            Some(k) => match recognize(k) {
                Some(g) => match &self.handlers {
                    Some(t) => match t.handle_keyboard() {
                        Some(handle) => Some(Invocation { handler: handle, key: Some(g) }),
                        None => None,
                    },
                    None => None,
                },
                None => None,
            },
            None => None,
        };
        IrqOutcome { invoke, ack: InterruptIndex::Keyboard.as_u8() }
    }
}

/// One hardware interrupt occurrence, as the dispatch layer sees it.
#[derive(Clone, Copy, PartialEq, Eq, Structural, Debug)]
pub enum Event {
    Timer,
    Keyboard(u8),
}

/// The vector of the line that fired.
pub open spec fn spec_vector_of(e: Event) -> u8 {
    match e {
        Event::Timer => InterruptIndex::Timer.spec_vector(),
        Event::Keyboard(_) => InterruptIndex::Keyboard.spec_vector(),
    }
}

/// One dispatch step over the model state: the invocation decided on, and
/// the decoder history afterwards. The registry is a parameter only: no
/// step writes it.
pub open spec fn spec_step(h: Option<HandlerTable>, history: Seq<u8>, e: Event) -> (
    Option<Invocation>,
    Seq<u8>,
) {
    match e {
        Event::Timer => (spec_timer_invocation(h), history),
        Event::Keyboard(b) => (spec_keyboard_invocation(h, history, b), history.push(b)),
    }
}

/// The decoder history a run of interrupts leaves behind.
pub open spec fn spec_run_history(history: Seq<u8>, events: Seq<Event>) -> Seq<u8>
    decreases events.len(),
{
    if events.len() == 0 {
        history
    } else {
        let next = match events[0] {
            Event::Timer => history,
            Event::Keyboard(b) => history.push(b),
        };
        spec_run_history(next, events.subrange(1, events.len() as int))
    }
}

/// The callback invocation sequence a run of interrupts produces.
pub open spec fn spec_run_invocations(
    h: Option<HandlerTable>,
    history: Seq<u8>,
    events: Seq<Event>,
) -> Seq<Option<Invocation>>
    decreases events.len(),
{
    if events.len() == 0 {
        Seq::empty()
    } else {
        let step = spec_step(h, history, events[0]);
        seq![step.0] + spec_run_invocations(h, step.1, events.subrange(1, events.len() as int))
    }
}

/// The acknowledgment sequence of a run: one acknowledgment per occurrence.
pub open spec fn spec_run_acks(events: Seq<Event>) -> Seq<u8> {
    events.map_values(|e: Event| spec_vector_of(e))
}

impl Dispatcher {
    /// Serves a sequence of interrupt occurrences in order — the runtime's
    /// service loop — returning each occurrence's outcome. The invocation
    /// and acknowledgment sequences follow the run model exactly, and the
    /// registry, controller and vector table are never written.
    pub fn run_events(&mut self, events: &Vec<Event>) -> (outs: Vec<IrqOutcome>)
        ensures
            final(self).handlers == old(self).handlers,
            final(self).controller == old(self).controller,
            final(self).table == old(self).table,
            final(self).decoder.history() == spec_run_history(
                old(self).decoder.history(),
                events@,
            ),
            outs@.len() == events@.len(),
            outs@.map_values(|o: IrqOutcome| o.invoke) == spec_run_invocations(
                old(self).handlers,
                old(self).decoder.history(),
                events@,
            ),
            outs@.map_values(|o: IrqOutcome| o.ack) == spec_run_acks(events@),
    {
        let ghost h0 = self.handlers;
        let ghost hist0 = self.decoder.history();
        let ghost c0 = self.controller;
        let ghost t0 = self.table;
        let mut outs: Vec<IrqOutcome> = Vec::new();
        let mut i: usize = 0;
        while i < events.len()
            invariant
                i <= events@.len(),
                self.handlers == h0,
                self.controller == c0,
                self.table == t0,
                self.decoder.history() == spec_run_history(hist0, events@.subrange(0, i as int)),
                outs@.len() == i,
                outs@.map_values(|o: IrqOutcome| o.invoke) == spec_run_invocations(
                    h0,
                    hist0,
                    events@.subrange(0, i as int),
                ),
                outs@.map_values(|o: IrqOutcome| o.ack) == spec_run_acks(
                    events@.subrange(0, i as int),
                ),
            decreases events@.len() - i,
        {
            let e = events[i];
            let ghost prev = outs@;
            let out = match e {
                Event::Timer => self.timer_interrupt(),
                Event::Keyboard(b) => self.keyboard_interrupt(b),
            };
            outs.push(out);
            proof {
                let ev = events@[i as int];
                let prefix = events@.subrange(0, i as int);
                let one = seq![ev];
                let hist_i = spec_run_history(hist0, prefix);
                assert(events@.subrange(0, i + 1) =~= prefix + one);
                lemma_run_append(h0, hist0, prefix, one);
                lemma_run_singleton(h0, hist_i, ev);
                assert(spec_run_history(hist0, events@.subrange(0, i + 1)) == spec_step(
                    h0,
                    hist_i,
                    ev,
                ).1);
                assert(out.invoke == spec_step(h0, hist_i, ev).0);
                assert(out.ack == spec_vector_of(ev));
                assert(spec_run_invocations(h0, hist0, events@.subrange(0, i + 1))
                    =~= spec_run_invocations(h0, hist0, prefix).push(spec_step(h0, hist_i, ev).0));
                assert(outs@.map_values(|o: IrqOutcome| o.invoke) =~= prev.map_values(
                    |o: IrqOutcome| o.invoke,
                ).push(out.invoke));
                assert(spec_run_acks(events@.subrange(0, i + 1)) =~= spec_run_acks(prefix).push(
                    spec_vector_of(ev),
                ));
                assert(outs@.map_values(|o: IrqOutcome| o.ack) =~= prev.map_values(
                    |o: IrqOutcome| o.ack,
                ).push(out.ack));
            }
            i += 1;
        }
        proof {
            assert(events@.subrange(0, events@.len() as int) =~= events@);
        }
        outs
    }
}

/// Acknowledgment is sent exactly once per interrupt occurrence, and what
/// is acknowledged depends on the firing line alone — never on whether a
/// matching callback was present — so a line with no registered callback is
/// acknowledged all the same and never starves.
pub proof fn lemma_ack_exactly_once(events: Seq<Event>)
    ensures
        spec_run_acks(events).len() == events.len(),
        forall|i: int|
            0 <= i < events.len() ==> spec_run_acks(events)[i] == spec_vector_of(
                #[trigger] events[i],
            ),
{
}

proof fn lemma_run_singleton(h: Option<HandlerTable>, history: Seq<u8>, e: Event)
    ensures
        spec_run_history(history, seq![e]) == spec_step(h, history, e).1,
        spec_run_invocations(h, history, seq![e]) == seq![spec_step(h, history, e).0],
{
    let one = seq![e];
    let tail = one.subrange(1, 1);
    assert(tail =~= Seq::<Event>::empty());
    let next = spec_step(h, history, e).1;
    assert(spec_run_history(history, one) == spec_run_history(next, tail));
    assert(spec_run_history(next, tail) == next);
    assert(spec_run_invocations(h, next, tail) =~= Seq::<Option<Invocation>>::empty());
    assert(spec_run_invocations(h, history, one) =~= seq![spec_step(h, history, e).0]);
}

proof fn lemma_run_append(h: Option<HandlerTable>, history: Seq<u8>, es1: Seq<Event>, es2: Seq<
    Event,
>)
    ensures
        spec_run_history(history, es1 + es2) == spec_run_history(
            spec_run_history(history, es1),
            es2,
        ),
        spec_run_invocations(h, history, es1 + es2) == spec_run_invocations(h, history, es1)
            + spec_run_invocations(h, spec_run_history(history, es1), es2),
    decreases es1.len(),
{
    if es1.len() == 0 {
        assert(es1 + es2 =~= es2);
        assert(spec_run_invocations(h, history, es1) + spec_run_invocations(h, history, es2)
            =~= spec_run_invocations(h, history, es2));
    } else {
        let step = spec_step(h, history, es1[0]);
        let rest1 = es1.subrange(1, es1.len() as int);
        lemma_run_append(h, step.1, rest1, es2);
        assert((es1 + es2)[0] == es1[0]);
        assert((es1 + es2).subrange(1, (es1 + es2).len() as int) =~= rest1 + es2);
        assert(seq![step.0] + (spec_run_invocations(h, step.1, rest1) + spec_run_invocations(
            h,
            spec_run_history(step.1, rest1),
            es2,
        )) =~= (seq![step.0] + spec_run_invocations(h, step.1, rest1)) + spec_run_invocations(
            h,
            spec_run_history(step.1, rest1),
            es2,
        ));
    }
}

/// Timer interrupts leave the decoder state untouched.
proof fn lemma_timer_run_keeps_history(history: Seq<u8>, events: Seq<Event>)
    requires
        forall|i: int| 0 <= i < events.len() ==> (#[trigger] events[i]) is Timer,
    ensures
        spec_run_history(history, events) == history,
    decreases events.len(),
{
    if events.len() != 0 {
        assert(events[0] is Timer);
        let rest = events.subrange(1, events.len() as int);
        assert(forall|i: int| 0 <= i < rest.len() ==> (#[trigger] rest[i]) is Timer);
        lemma_timer_run_keeps_history(history, rest);
    }
}

/// The registry, once installed, is read-only, and dispatch decides from
/// the registry and the decoder state alone: issuing the same interrupt
/// sequence twice in a row yields two identical callback invocation
/// sequences whenever the first pass returns the decoder to the state it
/// started in.
pub proof fn lemma_replay_identical(h: Option<HandlerTable>, history: Seq<u8>, events: Seq<Event>)
    requires
        spec_run_history(history, events) == history,
    ensures
        spec_run_invocations(h, history, events + events) == spec_run_invocations(
            h,
            history,
            events,
        ) + spec_run_invocations(h, history, events),
{
    lemma_run_append(h, history, events, events);
}

/// A registry with a timer callback sees it invoked exactly once per timer
/// tick: a run of timer interrupts produces one invocation of the timer
/// callback per occurrence, each without a key argument — so the keyboard
/// path is never entered.
pub proof fn lemma_timer_ticks_invoke_each(
    handle: usize,
    t: HandlerTable,
    history: Seq<u8>,
    events: Seq<Event>,
)
    requires
        t.timer == Some(handle),
        forall|i: int| 0 <= i < events.len() ==> (#[trigger] events[i]) is Timer,
    ensures
        spec_run_invocations(Some(t), history, events).len() == events.len(),
        forall|i: int|
            0 <= i < events.len() ==> #[trigger] spec_run_invocations(Some(t), history, events)[i]
                == Some(Invocation { handler: handle, key: None }),
    decreases events.len(),
{
    if events.len() != 0 {
        assert(events[0] is Timer);
        let rest = events.subrange(1, events.len() as int);
        assert(forall|i: int| 0 <= i < rest.len() ==> (#[trigger] rest[i]) is Timer);
        lemma_timer_ticks_invoke_each(handle, t, history, rest);
        let res = spec_run_invocations(Some(t), history, events);
        let res_rest = spec_run_invocations(Some(t), history, rest);
        assert forall|i: int|
            0 <= i < events.len() implies #[trigger] res[i] == Some(
            Invocation { handler: handle, key: None },
        ) by {
            if i > 0 {
                assert(res[i] == res_rest[i - 1]);
            }
        }
    }
}

/// A sequence of timer interrupts never moves the decoder, so issuing it
/// twice with no registry change in between produces identical callback
/// invocation sequences.
pub proof fn lemma_timer_replay(h: Option<HandlerTable>, history: Seq<u8>, events: Seq<Event>)
    requires
        forall|i: int| 0 <= i < events.len() ==> (#[trigger] events[i]) is Timer,
    ensures
        spec_run_invocations(h, history, events + events) == spec_run_invocations(
            h,
            history,
            events,
        ) + spec_run_invocations(h, history, events),
{
    lemma_timer_run_keeps_history(history, events);
    lemma_replay_identical(h, history, events);
}

} // verus!
