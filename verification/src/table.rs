//! The mapping table and the expansion engine.
//!
//! The table maps each raw key code to an ordered list of (logical key,
//! modifier delta) pairs; an empty list means the code is unmapped.  Pressing
//! a raw key walks its list in order, ORs each delta into the modifier
//! register, and emits a press of the logical key under the updated register;
//! releasing walks the same list clearing each delta before emitting the
//! release.  One physical key can thus fan out into several logical events
//! with different modifier states.

use vstd::prelude::*;

use crate::codec::Type;
use crate::key::Key;
use crate::mods::Mods;

verus! {

/// How many raw key codes the table covers: one entry per byte value.
pub const TABLE_SIZE: usize = 256;

/// A fixed table, indexed by raw key code, of ordered (logical key,
/// modifier delta) lists.
pub struct MappingTable {
    entries: Vec<Vec<(Key, Mods)>>,
}

/// The modifier register after pressing every pair of `entry`, in order,
/// starting from `m`: each delta is ORed in.
pub open spec fn spec_press_mods(m: u8, entry: Seq<(Key, Mods)>) -> u8
    decreases entry.len(),
{
    if entry.len() == 0 {
        m
    } else {
        spec_press_mods(m | entry[0].1.0, entry.drop_first())
    }
}

/// The events emitted by pressing every pair of `entry`, in order, starting
/// from register `m`: each logical key is pressed under the register as
/// already updated by its own delta.
pub open spec fn spec_press_events(m: u8, entry: Seq<(Key, Mods)>) -> Seq<Type>
    decreases entry.len(),
{
    if entry.len() == 0 {
        Seq::empty()
    } else {
        seq![Type::Press(entry[0].0, Mods(m | entry[0].1.0))] + spec_press_events(
            m | entry[0].1.0,
            entry.drop_first(),
        )
    }
}

/// The modifier register after releasing every pair of `entry`, in order,
/// starting from `m`: each delta is cleared.
pub open spec fn spec_release_mods(m: u8, entry: Seq<(Key, Mods)>) -> u8
    decreases entry.len(),
{
    if entry.len() == 0 {
        m
    } else {
        spec_release_mods(m & !entry[0].1.0, entry.drop_first())
    }
}

/// The events emitted by releasing every pair of `entry`, in order, starting
/// from register `m`.
pub open spec fn spec_release_events(m: u8, entry: Seq<(Key, Mods)>) -> Seq<Type>
    decreases entry.len(),
{
    if entry.len() == 0 {
        Seq::empty()
    } else {
        seq![Type::Release(entry[0].0, Mods(m & !entry[0].1.0))] + spec_release_events(
            m & !entry[0].1.0,
            entry.drop_first(),
        )
    }
}

impl MappingTable {
    /// The table is well formed when it has one entry list per byte value.
    pub closed spec fn wf(self) -> bool {
        self.entries@.len() == TABLE_SIZE
    }

    /// The (logical key, modifier delta) list of one raw key code.
    pub closed spec fn entry(self, code: u8) -> Seq<(Key, Mods)> {
        self.entries@[code as int]@
    }

    /// A table with every raw key code unmapped.
    pub fn new() -> (r: Self)
        ensures
            r.wf(),
            forall|c: u8| #[trigger] r.entry(c).len() == 0,
    {
        let mut entries: Vec<Vec<(Key, Mods)>> = Vec::new();
        let mut i: usize = 0;
        while i < TABLE_SIZE
            invariant
                i <= TABLE_SIZE,
                entries@.len() == i,
                forall|j: int| 0 <= j < i ==> #[trigger] entries@[j]@.len() == 0,
            decreases TABLE_SIZE - i,
        {
            entries.push(Vec::new());
            i = i + 1;
        }
        MappingTable { entries }
    }

    /// Replace the list of one raw key code, leaving every other code alone.
    pub fn set_entry(&mut self, code: u8, pairs: Vec<(Key, Mods)>)
        requires
            old(self).wf(),
        ensures
            final(self).wf(),
            final(self).entry(code) == pairs@,
            forall|c: u8| c != code ==> final(self).entry(c) == old(self).entry(c),
    {
        self.entries[code as usize] = pairs;
    }
}

/// Press a raw key: walk its table entry in order, OR each modifier delta
/// into the register, and collect one press event per pair, each under the
/// register as updated so far.  An unmapped code leaves the register alone
/// and emits nothing.
pub fn press(table: &MappingTable, mods: &mut Mods, keycode: u8) -> (events: Vec<Type>)
    requires
        table.wf(),
    ensures
        final(mods).0 == spec_press_mods(old(mods).0, table.entry(keycode)),
        events@ == spec_press_events(old(mods).0, table.entry(keycode)),
        events@.len() == table.entry(keycode).len(),
{
    proof {
        lemma_press_events_len(old(mods).0, table.entry(keycode));
    }
    let ghost m0 = mods.0;
    let ghost whole = table.entry(keycode);
    let entry = &table.entries[keycode as usize];
    let mut events: Vec<Type> = Vec::new();
    let mut idx: usize = 0;
    proof {
        assert(whole.skip(0) =~= whole);
        assert(Seq::<Type>::empty() + spec_press_events(m0, whole) =~= spec_press_events(
            m0,
            whole,
        ));
    }
    while idx < entry.len()
        invariant
            table.wf(),
            idx <= entry@.len(),
            entry@ == table.entry(keycode),
            spec_press_mods(m0, whole) == spec_press_mods(mods.0, whole.skip(idx as int)),
            spec_press_events(m0, whole) == events@ + spec_press_events(
                mods.0,
                whole.skip(idx as int),
            ),
            whole == table.entry(keycode),
        decreases entry@.len() - idx,
    {
        let pair = entry[idx];
        let ghost rest = whole.skip(idx as int);
        proof {
            assert(rest[0] == whole[idx as int]);
            assert(rest.drop_first() =~= whole.skip(idx as int + 1));
        }
        mods.0 = mods.0 | pair.1.0;
        events.push(Type::Press(pair.0, Mods(mods.0)));
        proof {
            assert(spec_press_events(m0, whole) =~= events@ + spec_press_events(
                mods.0,
                whole.skip(idx as int + 1),
            ));
        }
        idx = idx + 1;
    }
    proof {
        assert(whole.skip(whole.len() as int) =~= Seq::<(Key, Mods)>::empty());
        assert(events@ =~= spec_press_events(m0, whole));
    }
    events
}

/// Release a raw key: walk its table entry in order, clear each modifier
/// delta from the register, and collect one release event per pair, each
/// under the register as updated so far.  An unmapped code leaves the
/// register alone and emits nothing.
pub fn release(table: &MappingTable, mods: &mut Mods, keycode: u8) -> (events: Vec<Type>)
    requires
        table.wf(),
    ensures
        final(mods).0 == spec_release_mods(old(mods).0, table.entry(keycode)),
        events@ == spec_release_events(old(mods).0, table.entry(keycode)),
        events@.len() == table.entry(keycode).len(),
{
    proof {
        lemma_release_events_len(old(mods).0, table.entry(keycode));
    }
    let ghost m0 = mods.0;
    let ghost whole = table.entry(keycode);
    let entry = &table.entries[keycode as usize];
    let mut events: Vec<Type> = Vec::new();
    let mut idx: usize = 0;
    proof {
        assert(whole.skip(0) =~= whole);
        assert(Seq::<Type>::empty() + spec_release_events(m0, whole) =~= spec_release_events(
            m0,
            whole,
        ));
    }
    while idx < entry.len()
        invariant
            table.wf(),
            idx <= entry@.len(),
            entry@ == table.entry(keycode),
            spec_release_mods(m0, whole) == spec_release_mods(mods.0, whole.skip(idx as int)),
            spec_release_events(m0, whole) == events@ + spec_release_events(
                mods.0,
                whole.skip(idx as int),
            ),
            whole == table.entry(keycode),
        decreases entry@.len() - idx,
    {
        let pair = entry[idx];
        let ghost rest = whole.skip(idx as int);
        proof {
            assert(rest[0] == whole[idx as int]);
            assert(rest.drop_first() =~= whole.skip(idx as int + 1));
        }
        mods.0 = mods.0 & !pair.1.0;
        events.push(Type::Release(pair.0, Mods(mods.0)));
        proof {
            assert(spec_release_events(m0, whole) =~= events@ + spec_release_events(
                mods.0,
                whole.skip(idx as int + 1),
            ));
        }
        idx = idx + 1;
    }
    proof {
        assert(whole.skip(whole.len() as int) =~= Seq::<(Key, Mods)>::empty());
        assert(events@ =~= spec_release_events(m0, whole));
    }
    events
}

/// Pressing an entry list emits exactly one event per pair.
pub proof fn lemma_press_events_len(m: u8, entry: Seq<(Key, Mods)>)
    ensures
        spec_press_events(m, entry).len() == entry.len(),
    decreases entry.len(),
{
    if entry.len() != 0 {
        lemma_press_events_len(m | entry[0].1.0, entry.drop_first());
    }
}

/// Releasing an entry list emits exactly one event per pair.
pub proof fn lemma_release_events_len(m: u8, entry: Seq<(Key, Mods)>)
    ensures
        spec_release_events(m, entry).len() == entry.len(),
    decreases entry.len(),
{
    if entry.len() != 0 {
        lemma_release_events_len(m & !entry[0].1.0, entry.drop_first());
    }
}

/// The union of every modifier delta in an entry list.
pub open spec fn spec_delta_union(entry: Seq<(Key, Mods)>) -> u8
    decreases entry.len(),
{
    if entry.len() == 0 {
        0u8
    } else {
        entry[0].1.0 | spec_delta_union(entry.drop_first())
    }
}

/// Pressing an entry list ORs the union of its deltas into the register.
proof fn lemma_press_mods_union(m: u8, entry: Seq<(Key, Mods)>)
    ensures
        spec_press_mods(m, entry) == m | spec_delta_union(entry),
    decreases entry.len(),
{
    if entry.len() == 0 {
        assert(m | 0u8 == m) by (bit_vector);
    } else {
        let d = entry[0].1.0;
        let u = spec_delta_union(entry.drop_first());
        lemma_press_mods_union(m | d, entry.drop_first());
        assert((m | d) | u == m | (d | u)) by (bit_vector);
    }
}

/// Releasing an entry list clears the union of its deltas from the register.
proof fn lemma_release_mods_union(m: u8, entry: Seq<(Key, Mods)>)
    ensures
        spec_release_mods(m, entry) == m & !spec_delta_union(entry),
    decreases entry.len(),
{
    if entry.len() == 0 {
        assert(m & !0u8 == m) by (bit_vector);
    } else {
        let d = entry[0].1.0;
        let u = spec_delta_union(entry.drop_first());
        lemma_release_mods_union(m & !d, entry.drop_first());
        assert((m & !d) & !u == m & !(d | u)) by (bit_vector);
    }
}

/// A register disjoint from every delta of an entry list is disjoint from
/// their union.
proof fn lemma_delta_union_disjoint(m: u8, entry: Seq<(Key, Mods)>)
    requires
        forall|i: int| 0 <= i < entry.len() ==> m & #[trigger] entry[i].1.0 == 0,
    ensures
        m & spec_delta_union(entry) == 0,
    decreases entry.len(),
{
    if entry.len() == 0 {
        assert(m & 0u8 == 0) by (bit_vector);
    } else {
        let d = entry[0].1.0;
        let u = spec_delta_union(entry.drop_first());
        assert(forall|i: int|
            0 <= i < entry.drop_first().len() ==> m & #[trigger] entry.drop_first()[i].1.0 == 0);
        lemma_delta_union_disjoint(m, entry.drop_first());
        assert(m & d == 0 && m & u == 0 ==> m & (d | u) == 0) by (bit_vector);
    }
}

/// Pressing and then releasing the same entry list restores the register,
/// when the register held none of the entry's delta bits to begin with:
/// every delta applied by the press is exactly undone by the release, in
/// the same pairs and the same order.
pub proof fn lemma_press_release_restores(m: u8, entry: Seq<(Key, Mods)>)
    requires
        forall|i: int| 0 <= i < entry.len() ==> m & #[trigger] entry[i].1.0 == 0,
    ensures
        spec_release_mods(spec_press_mods(m, entry), entry) == m,
{
    let u = spec_delta_union(entry);
    lemma_press_mods_union(m, entry);
    lemma_release_mods_union(m | u, entry);
    lemma_delta_union_disjoint(m, entry);
    assert(m & u == 0 ==> (m | u) & !u == m) by (bit_vector);
}

} // verus!
