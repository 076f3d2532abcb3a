use kbd::{press, release, Key, MappingTable, Mods, Type};

#[test]
fn press_applies_delta_then_emits() {
    // Mapping entry for raw code 5: press KeyA with the shift bit.
    let mut table = MappingTable::new();
    let mut shift = Mods::new();
    shift.set_shift(true);
    table.set_entry(5, vec![(Key(28), shift)]);

    let mut register = Mods::new();
    let events = press(&table, &mut register, 5);
    assert_eq!(events, vec![Type::Press(Key(28), Mods(0x08))]);
    assert!(register.shift());

    let events = release(&table, &mut register, 5);
    assert_eq!(events, vec![Type::Release(Key(28), Mods(0x00))]);
    assert!(!register.shift());
}

#[test]
fn press_then_release_restores_register() {
    // Every delta the press applies, the release exactly undoes.
    let mut table = MappingTable::new();
    table.set_entry(7, vec![(Key(10), Mods(0x08)), (Key(11), Mods(0x30))]);

    let mut register = Mods(0x01);
    press(&table, &mut register, 7);
    assert_eq!(register, Mods(0x39));
    release(&table, &mut register, 7);
    assert_eq!(register, Mods(0x01));
}

#[test]
fn fan_out_emits_in_table_order_under_updated_register() {
    let mut table = MappingTable::new();
    table.set_entry(9, vec![(Key(1), Mods(0x08)), (Key(2), Mods(0x20)), (Key(3), Mods(0x00))]);

    let mut register = Mods::new();
    let events = press(&table, &mut register, 9);
    assert_eq!(
        events,
        vec![
            Type::Press(Key(1), Mods(0x08)),
            Type::Press(Key(2), Mods(0x28)),
            Type::Press(Key(3), Mods(0x28)),
        ]
    );

    let events = release(&table, &mut register, 9);
    assert_eq!(
        events,
        vec![
            Type::Release(Key(1), Mods(0x20)),
            Type::Release(Key(2), Mods(0x00)),
            Type::Release(Key(3), Mods(0x00)),
        ]
    );
}

#[test]
fn unmapped_code_is_a_no_op() {
    let table = MappingTable::new();
    let mut register = Mods(0x55);
    let pressed = press(&table, &mut register, 200);
    assert!(pressed.is_empty());
    let released = release(&table, &mut register, 200);
    assert!(released.is_empty());
    assert_eq!(register, Mods(0x55));
}

#[test]
fn set_entry_leaves_other_codes_alone() {
    let mut table = MappingTable::new();
    table.set_entry(5, vec![(Key(28), Mods(0x08))]);
    let mut register = Mods::new();
    assert!(press(&table, &mut register, 6).is_empty());
    assert_eq!(press(&table, &mut register, 5).len(), 1);
}

#[test]
fn modifier_flags_set_and_read_independently() {
    let mut m = Mods::new();
    assert_eq!(m, Mods(0));
    m.set_composing(true);
    m.set_graph(true);
    m.set_app(true);
    m.set_prg(true);
    m.set_shift(true);
    m.set_emoji(true);
    m.set_ltb(true);
    m.set_rtb(true);
    assert_eq!(m, Mods(0xFF));
    assert!(m.composing());
    assert!(m.graph());
    assert!(m.app());
    assert!(m.prg());
    assert!(m.shift());
    assert!(m.emoji());
    assert!(m.ltb());
    assert!(m.rtb());
    m.set_shift(false);
    assert!(!m.shift());
    assert_eq!(m, Mods(0xF7));
    m.set_composing(false);
    assert!(!m.composing());
    assert!(m.graph());
    assert_eq!(m, Mods(0x77));
}
