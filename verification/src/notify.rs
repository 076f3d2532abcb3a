//! The de-duplicating notifier.
//!
//! A [`Keyboard`] owns a fresh bounded channel of packed frames and a 256-bit
//! bitmap of the keys it currently considers pressed.  Any number of cloned
//! [`Typer`] handles push encoded events into the channel without blocking; a
//! full channel drops the newest event.  Polling the keyboard takes one frame
//! off the channel, decodes it, and filters it against the bitmap: a press of
//! a key already down, or a release of a key already up, is suppressed, so a
//! consumer never sees two consecutive presses or two consecutive releases of
//! the same key.  Character events pass through unconditionally.

use vstd::prelude::*;

use crate::codec::{decode, encode, DecodeError, Type, TypeInternal};
use crate::mods::Mods;
use crate::table::{press, release, spec_press_mods, spec_release_mods, MappingTable};

verus! {

/// How many frames the channel buffers before it starts dropping input.
pub const CHANNEL_CAPACITY: usize = 8;

#[verifier::external_type_specification]
#[verifier::external_body]
#[verifier::reject_recursive_types(T)]
pub struct ExSender<T>(flume::Sender<T>);

#[verifier::external_type_specification]
#[verifier::external_body]
#[verifier::reject_recursive_types(T)]
pub struct ExReceiver<T>(flume::Receiver<T>);

/// Relies on flume::bounded: a channel that buffers at most `cap` items,
/// returning its connected sending and receiving ends.
#[verifier::external_body]
fn new_channel(cap: usize) -> (r: (flume::Sender<TypeInternal>, flume::Receiver<TypeInternal>)) {
    flume::bounded(cap)
}

/// Relies on flume::Sender::try_send: a non-blocking send that fails when
/// the channel is full or the receiver is gone.
#[verifier::external_body]
fn try_send_frame(sender: &flume::Sender<TypeInternal>, frame: TypeInternal) -> (ok: bool) {
    match sender.try_send(frame) {
        Ok(()) => true,
        Err(_) => false,
    }
}

/// Relies on flume::Receiver::try_recv: a non-blocking receive that returns
/// nothing when the channel is empty or every sender is gone.
#[verifier::external_body]
fn try_recv_frame(receiver: &flume::Receiver<TypeInternal>) -> (r: Option<TypeInternal>) {
    match receiver.try_recv() {
        Ok(frame) => Some(frame),
        Err(_) => None,
    }
}

/// Relies on flume::Sender::clone: another sending handle to the same
/// channel.
#[verifier::external_body]
fn clone_sender(sender: &flume::Sender<TypeInternal>) -> (r: flume::Sender<TypeInternal>) {
    sender.clone()
}

/// Whether the de-duplication step lets an event through, given the set of
/// keys currently considered pressed: characters always pass; a press passes
/// only for a key not yet down; a release passes only for a key that is down.
pub open spec fn dedup_passes(pressed: Set<u8>, ev: Type) -> bool {
    match ev {
        Type::Char(_) => true,
        Type::Press(key, _) => !pressed.contains(key.0),
        Type::Release(key, _) => pressed.contains(key.0),
    }
}

/// The set of pressed keys after the de-duplication step sees an event: an
/// emitted press marks its key down, an emitted release marks it up, and a
/// suppressed event or a character changes nothing.
pub open spec fn dedup_next(pressed: Set<u8>, ev: Type) -> Set<u8> {
    match ev {
        Type::Char(_) => pressed,
        Type::Press(key, _) => if !pressed.contains(key.0) {
            pressed.insert(key.0)
        } else {
            pressed
        },
        Type::Release(key, _) => if pressed.contains(key.0) {
            pressed.remove(key.0)
        } else {
            pressed
        },
    }
}

/// A handle for pushing events toward a [`Keyboard`]; clone it freely.
pub struct Typer {
    sender: flume::Sender<TypeInternal>,
}

impl Typer {
    /// Another handle pushing into the same keyboard.
    pub fn clone(&self) -> Typer {
        Typer { sender: clone_sender(&self.sender) }
    }

    /// Encode one event and push its frame into the channel without
    /// blocking.  Returns whether the channel accepted it; a full channel
    /// drops this newest event rather than stalling the producer.
    pub fn send(&self, typed: Type) -> bool {
        let frame = encode(typed);
        try_send_frame(&self.sender, frame)
    }

    /// Press a raw key: expand it through the mapping table, updating the
    /// modifier register exactly as [`press`] does, and push each resulting
    /// event in table order.  Returns how many events the channel accepted.
    pub fn press(&self, table: &MappingTable, mods: &mut Mods, keycode: u8) -> (sent: usize)
        requires
            table.wf(),
        ensures
            final(mods).0 == spec_press_mods(old(mods).0, table.entry(keycode)),
            sent <= table.entry(keycode).len(),
    {
        let events = press(table, mods, keycode);
        let mut sent: usize = 0;
        let mut i: usize = 0;
        while i < events.len()
            invariant
                sent <= i <= events@.len(),
            decreases events@.len() - i,
        {
            if self.send(events[i]) {
                sent = sent + 1;
            }
            i = i + 1;
        }
        sent
    }

    /// Release a raw key: expand it through the mapping table, updating the
    /// modifier register exactly as [`release`] does, and push each resulting
    /// event in table order.  Returns how many events the channel accepted.
    pub fn release(&self, table: &MappingTable, mods: &mut Mods, keycode: u8) -> (sent: usize)
        requires
            table.wf(),
        ensures
            final(mods).0 == spec_release_mods(old(mods).0, table.entry(keycode)),
            sent <= table.entry(keycode).len(),
    {
        let events = release(table, mods, keycode);
        let mut sent: usize = 0;
        let mut i: usize = 0;
        while i < events.len()
            invariant
                sent <= i <= events@.len(),
            decreases events@.len() - i,
        {
            if self.send(events[i]) {
                sent = sent + 1;
            }
            i = i + 1;
        }
        sent
    }
}

/// What one poll of the keyboard produced.
#[derive(Clone, Copy, Debug, PartialEq, Eq, Structural)]
pub enum PollNext {
    /// The next de-duplicated event.
    Event(Type),
    /// Nothing to report yet: the channel was empty, or a duplicate
    /// transition was suppressed.  Poll again.
    Pending,
    /// A malformed frame arrived; the pressed-key state is untouched.
    Failed(DecodeError),
}

/// The receiving end of the channel and the 256-bit pressed-key bitmap.
///
/// Exactly one keyboard owns the bitmap; nothing else ever writes it, so a
/// bit is set exactly when the last emitted event for that key was a press.
pub struct Keyboard {
    state: [u64; 4],
    sender: flume::Sender<TypeInternal>,
    receiver: flume::Receiver<TypeInternal>,
}

impl Keyboard {
    /// Whether the bitmap holds the given key as pressed.
    pub closed spec fn spec_pressed(self, k: u8) -> bool {
        (self.state@[k as int / 64] >> ((k as u64) % 64)) & 1 == 1
    }

    /// The set of keys the keyboard currently considers pressed.
    pub closed spec fn pressed_set(self) -> Set<u8> {
        Set::new(|k: u8| self.spec_pressed(k))
    }

    /// A fresh keyboard: a new bounded channel and no key pressed.
    pub fn new() -> (r: Self)
        ensures
            r.pressed_set() == Set::<u8>::empty(),
    {
        let (sender, receiver) = new_channel(CHANNEL_CAPACITY);
        let kb = Keyboard { state: [0, 0, 0, 0], sender, receiver };
        proof {
            assert forall|k: u8| !kb.spec_pressed(k) by {
                assert((0u64 >> ((k as u64) % 64)) & 1 == 0) by (bit_vector);
                assert(kb.state@[k as int / 64] == 0);
            }
            assert(kb.pressed_set() =~= Set::<u8>::empty());
        }
        kb
    }

    /// A new pushing handle into this keyboard's channel.
    pub fn typer(&self) -> Typer {
        Typer { sender: clone_sender(&self.sender) }
    }

    /// The de-duplication step: record an event in the bitmap and say
    /// whether it passes, exactly as [`dedup_passes`] and [`dedup_next`]
    /// describe.
    fn dedup(&mut self, typed: &Type) -> (pass: bool)
        ensures
            pass == dedup_passes(old(self).pressed_set(), *typed),
            final(self).pressed_set() == dedup_next(old(self).pressed_set(), *typed),
    {
        match typed {
            Type::Char(_) => {
                proof {
                    assert(self.pressed_set() =~= dedup_next(self.pressed_set(), *typed));
                }
                true
            },
            Type::Press(key, _) => {
                let k = key.0;
                let lvl = (k / 64) as usize;
                let bit: u64 = (k % 64) as u64;
                let word = self.state[lvl];
                if word & (1u64 << bit) != 0 {
                    proof {
                        lemma_bit_test(word, bit);
                        assert(old(self).pressed_set().contains(k));
                        assert(self.pressed_set() =~= dedup_next(
                            old(self).pressed_set(),
                            *typed,
                        ));
                    }
                    false
                } else {
                    self.state[lvl] = word | (1u64 << bit);
                    proof {
                        lemma_bit_test(word, bit);
                        assert(!old(self).pressed_set().contains(k));
                        assert forall|k2: u8|
                            self.spec_pressed(k2) == (old(self).spec_pressed(k2) || k2 == k) by {
                            lemma_bit_set(word, bit, (k2 as u64) % 64);
                            lemma_same_slot(k, k2);
                        }
                        assert(self.pressed_set() =~= old(self).pressed_set().insert(k));
                    }
                    true
                }
            },
            Type::Release(key, _) => {
                let k = key.0;
                let lvl = (k / 64) as usize;
                let bit: u64 = (k % 64) as u64;
                let word = self.state[lvl];
                if word & (1u64 << bit) == 0 {
                    proof {
                        lemma_bit_test(word, bit);
                        assert(!old(self).pressed_set().contains(k));
                        assert(self.pressed_set() =~= dedup_next(
                            old(self).pressed_set(),
                            *typed,
                        ));
                    }
                    false
                } else {
                    self.state[lvl] = word & !(1u64 << bit);
                    proof {
                        lemma_bit_test(word, bit);
                        assert(old(self).pressed_set().contains(k));
                        assert forall|k2: u8|
                            self.spec_pressed(k2) == (old(self).spec_pressed(k2) && k2 != k) by {
                            lemma_bit_clear(word, bit, (k2 as u64) % 64);
                            lemma_same_slot(k, k2);
                        }
                        assert(self.pressed_set() =~= old(self).pressed_set().remove(k));
                    }
                    true
                }
            },
        }
    }

    /// Pull at most one frame off the channel and run it through decoding
    /// and de-duplication.  Whatever frame arrived: an emitted event always
    /// passes the de-duplication step and the bitmap records it; a
    /// suppressed duplicate, an empty channel, and a malformed frame leave
    /// the bitmap exactly as it was.
    pub fn poll_next(&mut self) -> (r: PollNext)
        ensures
            match r {
                PollNext::Event(t) => dedup_passes(old(self).pressed_set(), t)
                    && final(self).pressed_set() == dedup_next(old(self).pressed_set(), t),
                PollNext::Pending => final(self).pressed_set() == old(self).pressed_set(),
                PollNext::Failed(_) => final(self).pressed_set() == old(self).pressed_set(),
            },
    {
        let frame = try_recv_frame(&self.receiver);
        match frame {
            None => PollNext::Pending,
            Some(frame) => match decode(frame) {
                Err(e) => PollNext::Failed(e),
                Ok(typed) => {
                    if self.dedup(&typed) {
                        PollNext::Event(typed)
                    } else {
                        PollNext::Pending
                    }
                },
            },
        }
    }
}

/// Testing a bit of a word reads it as 1 exactly when the mask test sees it.
proof fn lemma_bit_test(w: u64, r: u64)
    by (bit_vector)
    requires
        r < 64,
    ensures
        (w & (1u64 << r) != 0) <==> ((w >> r) & 1 == 1),
{
}

/// Setting one bit of a word changes that bit alone.
proof fn lemma_bit_set(w: u64, r: u64, j: u64)
    by (bit_vector)
    requires
        r < 64,
        j < 64,
    ensures
        ((w | (1u64 << r)) >> j) & 1 == if j == r {
            1u64
        } else {
            (w >> j) & 1
        },
{
}

/// Clearing one bit of a word changes that bit alone.
proof fn lemma_bit_clear(w: u64, r: u64, j: u64)
    by (bit_vector)
    requires
        r < 64,
        j < 64,
    ensures
        ((w & !(1u64 << r)) >> j) & 1 == if j == r {
            0u64
        } else {
            (w >> j) & 1
        },
{
}

/// Two key codes land on the same word and bit exactly when they are equal.
proof fn lemma_same_slot(k: u8, k2: u8)
    by (bit_vector)
    ensures
        (k as u64 / 64 == k2 as u64 / 64 && k as u64 % 64 == k2 as u64 % 64) <==> k == k2,
{
}

/// The events the de-duplication step emits, in order, when fed a sequence
/// of decoded events starting from a given pressed-key set.
pub open spec fn emitted_events(pressed: Set<u8>, evs: Seq<Type>) -> Seq<Type>
    decreases evs.len(),
{
    if evs.len() == 0 {
        Seq::empty()
    } else {
        let rest = emitted_events(dedup_next(pressed, evs[0]), evs.drop_first());
        if dedup_passes(pressed, evs[0]) {
            seq![evs[0]] + rest
        } else {
            rest
        }
    }
}

/// Whether an event is a press or release of the given key.
pub open spec fn is_event_for(ev: Type, k: u8) -> bool {
    match ev {
        Type::Char(_) => false,
        Type::Press(key, _) => key.0 == k,
        Type::Release(key, _) => key.0 == k,
    }
}

/// The subsequence of events that press or release the given key.
pub open spec fn events_for(evs: Seq<Type>, k: u8) -> Seq<Type>
    decreases evs.len(),
{
    if evs.len() == 0 {
        Seq::empty()
    } else if is_event_for(evs[0], k) {
        seq![evs[0]] + events_for(evs.drop_first(), k)
    } else {
        events_for(evs.drop_first(), k)
    }
}

/// Whether a sequence of one key's events alternates press/release, given
/// whether the key starts out down: the first event must be a release when
/// it is down and a press when it is not, and so on along the sequence.
pub open spec fn alternating_from(evs: Seq<Type>, down: bool) -> bool
    decreases evs.len(),
{
    if evs.len() == 0 {
        true
    } else {
        &&& (evs[0] matches Type::Press(..)) == !down
        &&& alternating_from(evs.drop_first(), evs[0] matches Type::Press(..))
    }
}

/// How many character events a sequence holds.
pub open spec fn count_chars(evs: Seq<Type>) -> nat
    decreases evs.len(),
{
    if evs.len() == 0 {
        0nat
    } else {
        (if evs[0] matches Type::Char(_) {
            1nat
        } else {
            0nat
        }) + count_chars(evs.drop_first())
    }
}

/// De-duplication keeps each key alternating: whatever interleaving of
/// decoded events is fed in, the emitted presses and releases of any one
/// key alternate, starting with a press when the key is not yet down.
pub proof fn lemma_dedup_alternating(pressed: Set<u8>, evs: Seq<Type>, k: u8)
    ensures
        alternating_from(events_for(emitted_events(pressed, evs), k), pressed.contains(k)),
    decreases evs.len(),
{
    if evs.len() == 0 {
    } else {
        let ev = evs[0];
        let after = dedup_next(pressed, ev);
        let rest = emitted_events(after, evs.drop_first());
        let emitted = emitted_events(pressed, evs);
        lemma_dedup_alternating(after, evs.drop_first(), k);
        if dedup_passes(pressed, ev) {
            assert(emitted == seq![ev] + rest);
            assert(emitted[0] == ev);
            assert(emitted.drop_first() =~= rest);
            if is_event_for(ev, k) {
                let filtered = events_for(emitted, k);
                assert(filtered == seq![ev] + events_for(rest, k));
                assert(filtered[0] == ev);
                assert(filtered.drop_first() =~= events_for(rest, k));
                match ev {
                    Type::Press(key, _) => {
                        assert(!pressed.contains(k));
                        assert(after.contains(k));
                    },
                    Type::Release(key, _) => {
                        assert(pressed.contains(k));
                        assert(!after.contains(k));
                    },
                    Type::Char(_) => {},
                }
            } else {
                assert(events_for(emitted, k) == events_for(rest, k));
                assert(after.contains(k) == pressed.contains(k));
            }
        } else {
            assert(after == pressed);
            assert(emitted == rest);
        }
    }
}

/// Character events are never suppressed: feeding any event sequence
/// through de-duplication emits exactly as many characters as went in,
/// whatever the interleaving with key events.
pub proof fn lemma_chars_never_suppressed(pressed: Set<u8>, evs: Seq<Type>)
    ensures
        count_chars(emitted_events(pressed, evs)) == count_chars(evs),
    decreases evs.len(),
{
    if evs.len() == 0 {
    } else {
        let ev = evs[0];
        let after = dedup_next(pressed, ev);
        let rest = emitted_events(after, evs.drop_first());
        lemma_chars_never_suppressed(after, evs.drop_first());
        if dedup_passes(pressed, ev) {
            assert((seq![ev] + rest).drop_first() =~= rest);
            assert((seq![ev] + rest)[0] == ev);
        } else {
            assert(!(ev matches Type::Char(_)));
        }
    }
}

} // verus!
