use kbd::{Key, Keyboard, MappingTable, Mods, PollNext, Type, TypeInternal};

#[test]
fn poll_on_empty_channel_is_pending() {
    let mut kb = Keyboard::new();
    assert_eq!(kb.poll_next(), PollNext::Pending);
}

#[test]
fn send_then_poll_round_trips() {
    let mut kb = Keyboard::new();
    let typer = kb.typer();
    let t = Type::Press(Key(28), Mods(0x08));
    assert!(typer.send(t));
    assert_eq!(kb.poll_next(), PollNext::Event(t));
}

#[test]
fn duplicate_press_is_suppressed() {
    // Two presses of the same key without a release between them: the
    // second one is a repeat and never reaches the consumer.
    let mut kb = Keyboard::new();
    let typer = kb.typer();
    let t = Type::Press(Key(28), Mods(0x00));
    assert!(typer.send(t));
    assert!(typer.send(t));
    assert_eq!(kb.poll_next(), PollNext::Event(t));
    assert_eq!(kb.poll_next(), PollNext::Pending);
    assert_eq!(kb.poll_next(), PollNext::Pending);
}

#[test]
fn release_of_never_pressed_key_is_suppressed() {
    let mut kb = Keyboard::new();
    let typer = kb.typer();
    assert!(typer.send(Type::Release(Key(28), Mods(0x00))));
    assert_eq!(kb.poll_next(), PollNext::Pending);
    // The bitmap stayed clear: a fresh press still comes through.
    assert!(typer.send(Type::Press(Key(28), Mods(0x00))));
    assert_eq!(kb.poll_next(), PollNext::Event(Type::Press(Key(28), Mods(0x00))));
}

#[test]
fn press_release_alternate_per_key() {
    let mut kb = Keyboard::new();
    let typer = kb.typer();
    let p = Type::Press(Key(7), Mods(0x00));
    let r = Type::Release(Key(7), Mods(0x00));
    for ev in [p, p, r, r, p, r] {
        assert!(typer.send(ev));
    }
    let mut emitted = Vec::new();
    // Pending can also mean a suppressed duplicate, so poll once per
    // pushed event to drain the channel completely.
    for _ in 0..6 {
        if let PollNext::Event(t) = kb.poll_next() {
            emitted.push(t);
        }
    }
    assert_eq!(emitted, vec![p, r, p, r]);
    assert_eq!(kb.poll_next(), PollNext::Pending);
}

#[test]
fn keys_are_deduplicated_independently() {
    let mut kb = Keyboard::new();
    let typer = kb.typer();
    let p1 = Type::Press(Key(1), Mods(0x00));
    let p2 = Type::Press(Key(200), Mods(0x00));
    assert!(typer.send(p1));
    assert!(typer.send(p2));
    assert_eq!(kb.poll_next(), PollNext::Event(p1));
    assert_eq!(kb.poll_next(), PollNext::Event(p2));
}

#[test]
fn chars_are_never_suppressed() {
    // Identical characters interleaved with duplicate key events all pass.
    let mut kb = Keyboard::new();
    let typer = kb.typer();
    let c = Type::Char('x');
    let p = Type::Press(Key(3), Mods(0x00));
    for ev in [c, p, c, p, c] {
        assert!(typer.send(ev));
    }
    let mut chars = 0;
    for _ in 0..5 {
        if let PollNext::Event(t) = kb.poll_next() {
            if matches!(t, Type::Char(_)) {
                chars += 1;
            }
        }
    }
    assert_eq!(chars, 3);
}

#[test]
fn full_channel_drops_newest_event() {
    let mut kb = Keyboard::new();
    let typer = kb.typer();
    // The channel buffers 8 frames; the 9th send is refused.
    for i in 0..8u8 {
        assert!(typer.send(Type::Press(Key(i), Mods(0x00))));
    }
    assert!(!typer.send(Type::Press(Key(8), Mods(0x00))));
    // Draining one frame makes room again.
    assert_eq!(kb.poll_next(), PollNext::Event(Type::Press(Key(0), Mods(0x00))));
    assert!(typer.send(Type::Press(Key(8), Mods(0x00))));
}

#[test]
fn cloned_typers_feed_one_keyboard() {
    let mut kb = Keyboard::new();
    let a = kb.typer();
    let b = a.clone();
    assert!(a.send(Type::Press(Key(1), Mods(0x00))));
    assert!(b.send(Type::Press(Key(2), Mods(0x00))));
    assert_eq!(kb.poll_next(), PollNext::Event(Type::Press(Key(1), Mods(0x00))));
    assert_eq!(kb.poll_next(), PollNext::Event(Type::Press(Key(2), Mods(0x00))));
}

#[test]
fn bitmap_tracks_last_emitted_transition() {
    let mut kb = Keyboard::new();
    let typer = kb.typer();
    assert!(typer.send(Type::Press(Key(5), Mods(0x00))));
    assert_eq!(kb.poll_next(), PollNext::Event(Type::Press(Key(5), Mods(0x00))));
    assert!(typer.send(Type::Release(Key(5), Mods(0x00))));
    assert_eq!(kb.poll_next(), PollNext::Event(Type::Release(Key(5), Mods(0x00))));
    // After the release the key counts as up again: a second release is
    // suppressed and a new press passes.
    assert!(typer.send(Type::Release(Key(5), Mods(0x00))));
    assert_eq!(kb.poll_next(), PollNext::Pending);
    assert!(typer.send(Type::Press(Key(5), Mods(0x00))));
    assert_eq!(kb.poll_next(), PollNext::Event(Type::Press(Key(5), Mods(0x00))));
}

#[test]
fn typer_press_expands_and_sends() {
    let mut table = MappingTable::new();
    let mut shift = Mods::new();
    shift.set_shift(true);
    table.set_entry(5, vec![(Key(28), shift)]);

    let mut kb = Keyboard::new();
    let typer = kb.typer();
    let mut register = Mods::new();

    assert_eq!(typer.press(&table, &mut register, 5), 1);
    assert!(register.shift());
    assert_eq!(kb.poll_next(), PollNext::Event(Type::Press(Key(28), Mods(0x08))));

    assert_eq!(typer.release(&table, &mut register, 5), 1);
    assert!(!register.shift());
    assert_eq!(kb.poll_next(), PollNext::Event(Type::Release(Key(28), Mods(0x00))));
}

#[test]
fn frame_equality_follows_bytes() {
    assert_eq!(TypeInternal([1, 2, 3, 4]), TypeInternal([1, 2, 3, 4]));
    assert_ne!(TypeInternal([1, 2, 3, 4]), TypeInternal([1, 2, 3, 5]));
}
