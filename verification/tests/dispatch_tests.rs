use kernel::handlers::HandlerTable;
use kernel::interrupts::{
    exception_action, ControllerState, Dispatcher, EntryPoint, Event, FaultAction, InstallError,
    InterruptIndex, Invocation, VectorTable, PIC_1_OFFSET, PIC_2_OFFSET,
};
use kernel::keyboard::GameKey;

const TIMER_CB: usize = 0x1000;
const KEYBOARD_CB: usize = 0x2000;

fn installed(table: HandlerTable) -> Dispatcher {
    let mut d = Dispatcher::new();
    assert!(d.init_idt(table).is_ok());
    d
}

#[test]
fn interrupt_index_vectors() {
    assert_eq!(InterruptIndex::Timer.as_u8(), 32);
    assert_eq!(InterruptIndex::Keyboard.as_u8(), 33);
    assert_eq!(InterruptIndex::Timer.as_usize(), 32);
    assert_eq!(InterruptIndex::Keyboard.as_usize(), 33);
}

#[test]
fn builder_collects_all_slots() {
    let plan = HandlerTable::new().keyboard(KEYBOARD_CB).timer(TIMER_CB).startup(7).cpu_loop(9).start();
    assert_eq!(plan.startup, Some(7));
    assert_eq!(plan.idle, Some(9));
    assert_eq!(plan.primary_offset, PIC_1_OFFSET);
    assert_eq!(plan.secondary_offset, PIC_2_OFFSET);
    assert_eq!(plan.table.timer, Some(TIMER_CB));
    assert_eq!(plan.table.keyboard, Some(KEYBOARD_CB));
    let bare = HandlerTable::new();
    assert_eq!(bare.timer, None);
    assert_eq!(bare.keyboard, None);
    assert_eq!(bare.startup, None);
    assert_eq!(bare.cpu_loop, None);
}

#[test]
fn registry_installs_exactly_once() {
    let mut d = Dispatcher::new();
    assert_eq!(d.init_idt(HandlerTable::new().timer(TIMER_CB)), Ok(()));
    assert_eq!(
        d.init_idt(HandlerTable::new().timer(0x3000)),
        Err(InstallError::AlreadyInstalled)
    );
    let out = d.timer_interrupt();
    assert_eq!(out.invoke, Some(Invocation { handler: TIMER_CB, key: None }));
}

#[test]
fn ten_timer_ticks_count_to_ten() {
    let d = installed(HandlerTable::new().timer(TIMER_CB));
    let mut counter = 0u32;
    let mut keyboard_invoked = false;
    for _ in 0..10 {
        let out = d.timer_interrupt();
        assert_eq!(out.ack, 32);
        match out.invoke {
            Some(inv) if inv.handler == TIMER_CB && inv.key.is_none() => counter += 1,
            Some(_) => keyboard_invoked = true,
            None => {}
        }
    }
    assert_eq!(counter, 10);
    assert!(!keyboard_invoked);
}

#[test]
fn arrow_key_split_across_two_interrupts_yields_one_event() {
    let mut d = installed(HandlerTable::new().keyboard(KEYBOARD_CB));
    let first = d.keyboard_interrupt(0xE0);
    assert_eq!(first.invoke, None);
    assert_eq!(first.ack, 33);
    let second = d.keyboard_interrupt(0x4B);
    assert_eq!(
        second.invoke,
        Some(Invocation { handler: KEYBOARD_CB, key: Some(GameKey::MoveLeft) })
    );
    assert_eq!(second.ack, 33);
}

#[test]
fn character_keys_map_to_game_keys() {
    let mut d = installed(HandlerTable::new().keyboard(KEYBOARD_CB));
    let a_press = d.keyboard_interrupt(0x1E);
    assert_eq!(
        a_press.invoke,
        Some(Invocation { handler: KEYBOARD_CB, key: Some(GameKey::MoveLeft) })
    );
    let a_release = d.keyboard_interrupt(0x9E);
    assert_eq!(a_release.invoke, None);
    let d_press = d.keyboard_interrupt(0x20);
    assert_eq!(
        d_press.invoke,
        Some(Invocation { handler: KEYBOARD_CB, key: Some(GameKey::MoveRight) })
    );
    d.keyboard_interrupt(0xA0);
    let space_press = d.keyboard_interrupt(0x39);
    assert_eq!(
        space_press.invoke,
        Some(Invocation { handler: KEYBOARD_CB, key: Some(GameKey::Fire) })
    );
}

#[test]
fn unrecognized_keys_are_dropped_but_acknowledged() {
    let mut d = installed(HandlerTable::new().keyboard(KEYBOARD_CB));
    let q_press = d.keyboard_interrupt(0x10);
    assert_eq!(q_press.invoke, None);
    assert_eq!(q_press.ack, 33);
}

#[test]
fn missing_keyboard_callback_still_acknowledges() {
    let mut d = installed(HandlerTable::new().timer(TIMER_CB));
    let first = d.keyboard_interrupt(0xE0);
    assert_eq!(first.invoke, None);
    assert_eq!(first.ack, 33);
    let second = d.keyboard_interrupt(0x4B);
    assert_eq!(second.invoke, None);
    assert_eq!(second.ack, 33);
    let ack = d.controller.acknowledge(second.ack);
    assert!(ack.primary);
    assert!(!ack.secondary);
    let third = d.keyboard_interrupt(0x1E);
    assert_eq!(third.invoke, None);
    assert_eq!(third.ack, 33);
}

#[test]
fn same_sequence_twice_gives_identical_invocations() {
    let mut d = installed(HandlerTable::new().timer(TIMER_CB).keyboard(KEYBOARD_CB));
    let bytes = [0x1E, 0x9E, 0xE0, 0x4B, 0xE0, 0xCB];
    let mut run = |d: &mut Dispatcher| {
        let mut invocations: Vec<Option<Invocation>> = Vec::new();
        invocations.push(d.timer_interrupt().invoke);
        for b in bytes {
            invocations.push(d.keyboard_interrupt(b).invoke);
        }
        invocations.push(d.timer_interrupt().invoke);
        invocations
    };
    let first = run(&mut d);
    let second = run(&mut d);
    assert_eq!(first, second);
    assert_eq!(
        first.iter().filter(|inv| inv.is_some()).count(),
        4
    );
}

#[test]
fn run_events_matches_per_interrupt_dispatch() {
    let table = HandlerTable::new().timer(TIMER_CB).keyboard(KEYBOARD_CB);
    let events = vec![
        Event::Timer,
        Event::Keyboard(0xE0),
        Event::Keyboard(0x4B),
        Event::Keyboard(0x39),
        Event::Timer,
    ];
    let mut batched = installed(table);
    let outs = batched.run_events(&events);
    let mut stepped = installed(table);
    let mut expected = Vec::new();
    for e in &events {
        expected.push(match e {
            Event::Timer => stepped.timer_interrupt(),
            Event::Keyboard(b) => stepped.keyboard_interrupt(*b),
        });
    }
    assert_eq!(outs, expected);
    assert_eq!(outs.len(), 5);
    assert_eq!(outs[0].ack, 32);
    assert_eq!(outs[1].ack, 33);
    assert_eq!(
        outs[2].invoke,
        Some(Invocation { handler: KEYBOARD_CB, key: Some(GameKey::MoveLeft) })
    );
    assert_eq!(
        outs[3].invoke,
        Some(Invocation { handler: KEYBOARD_CB, key: Some(GameKey::Fire) })
    );
    assert_eq!(outs[4].invoke, Some(Invocation { handler: TIMER_CB, key: None }));
}

#[test]
fn controller_ownership_and_acknowledgment() {
    let c = ControllerState::new(32, 40);
    assert!(!c.initialized);
    assert!(!c.handles_interrupt(31));
    assert!(c.handles_interrupt(32));
    assert!(c.handles_interrupt(39));
    assert!(c.handles_interrupt(40));
    assert!(c.handles_interrupt(47));
    assert!(!c.handles_interrupt(48));
    let own_primary = c.acknowledge(33);
    assert!(own_primary.primary);
    assert!(!own_primary.secondary);
    let own_secondary = c.acknowledge(44);
    assert!(own_secondary.primary);
    assert!(own_secondary.secondary);
    let unowned = c.acknowledge(3);
    assert!(!unowned.primary);
    assert!(!unowned.secondary);
    let mut c2 = c;
    c2.initialize();
    assert!(c2.initialized);
    assert_eq!(c2.primary_offset, 32);
    assert_eq!(c2.secondary_offset, 40);
}

#[test]
fn vector_table_binds_the_four_entries() {
    let t = VectorTable::new();
    assert_eq!(t.entry_for(3), Some(EntryPoint::Breakpoint));
    assert_eq!(t.entry_for(8), Some(EntryPoint::DoubleFault));
    assert_eq!(t.entry_for(32), Some(EntryPoint::Timer));
    assert_eq!(t.entry_for(33), Some(EntryPoint::Keyboard));
    assert_eq!(t.entry_for(0), None);
    assert_eq!(t.entry_for(99), None);
    assert_eq!(exception_action(EntryPoint::Breakpoint), Some(FaultAction::Resume));
    assert_eq!(exception_action(EntryPoint::DoubleFault), Some(FaultAction::Halt));
    assert_eq!(exception_action(EntryPoint::Timer), None);
    assert_eq!(exception_action(EntryPoint::Keyboard), None);
}
