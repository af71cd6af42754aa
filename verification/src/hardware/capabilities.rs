//! The capability entries of a board's pins, as a capability response lists
//! them: pairs of (mode, resolution), then `SYSEX_REALTIME`.

use crate::firmata::constants::{
    MODE_INPUT, MODE_OUTPUT, RESOLUTION_DIGITAL, SYSEX_REALTIME,
};
use vstd::prelude::*;

verus! {

/// The modes that every pin supports: digital input and digital output.
pub open spec fn general_io_modes() -> Seq<u8> {
    seq![MODE_INPUT, RESOLUTION_DIGITAL, MODE_OUTPUT, RESOLUTION_DIGITAL]
}

/// A pin's entry: the general I/O modes, the pin's other modes, then the
/// terminator `SYSEX_REALTIME`.
pub open spec fn pin_entry(extra_modes: Seq<u8>) -> Seq<u8> {
    general_io_modes() + extra_modes + seq![SYSEX_REALTIME]
}

/// The entries of pins `0 .. count`, one after the other.
pub open spec fn capability_table(entry: spec_fn(u8) -> Seq<u8>, count: nat) -> Seq<u8>
    decreases count,
{
    if count == 0 {
        Seq::empty()
    } else {
        capability_table(entry, (count - 1) as nat) + entry((count - 1) as u8)
    }
}

/// The number of bytes of `s` equal to `b`.
pub open spec fn count_byte(s: Seq<u8>, b: u8) -> nat
    decreases s.len(),
{
    if s.len() == 0 {
        0
    } else {
        count_byte(s.drop_last(), b) + if s.last() == b {
            1nat
        } else {
            0nat
        }
    }
}

/// Counting a byte in a concatenation adds the counts of the parts.
pub proof fn lemma_count_byte_concat(s: Seq<u8>, t: Seq<u8>, b: u8)
    ensures
        count_byte(s + t, b) == count_byte(s, b) + count_byte(t, b),
    decreases t.len(),
{
    if t.len() == 0 {
        assert(s + t =~= s);
    } else {
        assert((s + t).drop_last() =~= s + t.drop_last());
        lemma_count_byte_concat(s, t.drop_last(), b);
    }
}

/// A pin's entry holds exactly one `SYSEX_REALTIME`, its terminator, when its
/// other modes hold none.
pub proof fn lemma_pin_entry_one_terminator(extra_modes: Seq<u8>)
    requires
        count_byte(extra_modes, SYSEX_REALTIME) == 0,
    ensures
        count_byte(pin_entry(extra_modes), SYSEX_REALTIME) == 1,
{
    let g = general_io_modes();
    lemma_count_byte_concat(g + extra_modes, seq![SYSEX_REALTIME], SYSEX_REALTIME);
    lemma_count_byte_concat(g, extra_modes, SYSEX_REALTIME);
    reveal_with_fuel(count_byte, 5);
    assert(seq![SYSEX_REALTIME].drop_last() =~= Seq::<u8>::empty());
    assert(g.drop_last().drop_last().drop_last().drop_last() =~= Seq::<u8>::empty());
}

/// A capability table splits into one entry per pin: when every pin's entry
/// holds exactly one `SYSEX_REALTIME`, the table of `count` pins holds
/// `count` of them.
pub proof fn lemma_table_one_terminator_per_pin(entry: spec_fn(u8) -> Seq<u8>, count: nat)
    requires
        count <= 256,
        forall|p: u8| (p as nat) < count ==> count_byte(#[trigger] entry(p), SYSEX_REALTIME) == 1,
    ensures
        count_byte(capability_table(entry, count), SYSEX_REALTIME) == count,
    decreases count,
{
    if count > 0 {
        lemma_table_one_terminator_per_pin(entry, (count - 1) as nat);
        lemma_count_byte_concat(
            capability_table(entry, (count - 1) as nat),
            entry((count - 1) as u8),
            SYSEX_REALTIME,
        );
    }
}

/// The (mode, resolution) pair at position `k` of a pin's entry.
pub open spec fn pair_at(entry: Seq<u8>, k: int) -> (u8, u8) {
    (entry[2 * k], entry[2 * k + 1])
}

/// A pin's entry lists the mode `mode` with the resolution `resolution`.
pub open spec fn offers_mode(entry: Seq<u8>, mode: u8, resolution: u8) -> bool {
    exists|k: int| 0 <= k && 2 * k + 1 < entry.len() && #[trigger] pair_at(entry, k) == (mode, resolution)
}

/// In an entry of at most nine bytes, a mode is listed exactly when one of
/// its first four pairs is that mode.
pub proof fn lemma_offers_mode_short(entry: Seq<u8>, mode: u8, resolution: u8)
    requires
        entry.len() <= 9,
    ensures
        offers_mode(entry, mode, resolution) <==> {
            ||| 1 < entry.len() && pair_at(entry, 0) == (mode, resolution)
            ||| 3 < entry.len() && pair_at(entry, 1) == (mode, resolution)
            ||| 5 < entry.len() && pair_at(entry, 2) == (mode, resolution)
            ||| 7 < entry.len() && pair_at(entry, 3) == (mode, resolution)
        },
{
    if offers_mode(entry, mode, resolution) {
        let k = choose|k: int|
            0 <= k && 2 * k + 1 < entry.len() && #[trigger] pair_at(entry, k) == (mode, resolution);
        assert(k <= 3);
    }
}

/// A table of more pins is no shorter.
proof fn lemma_table_len_monotone(entry: spec_fn(u8) -> Seq<u8>, a: nat, b: nat)
    requires
        a <= b,
    ensures
        capability_table(entry, a).len() <= capability_table(entry, b).len(),
    decreases b,
{
    if a < b {
        lemma_table_len_monotone(entry, a, (b - 1) as nat);
    }
}

/// In a table, the entry of pin `p` comes right after the entries of the pins
/// before it: the table of `count` pins begins with the table of the first
/// `p` pins followed by the entry of pin `p`.
pub proof fn lemma_table_entry_in_place(entry: spec_fn(u8) -> Seq<u8>, count: nat, p: nat)
    requires
        p < count <= 256,
    ensures
        capability_table(entry, count).subrange(
            0,
            (capability_table(entry, p).len() + entry(p as u8).len()) as int,
        ) == capability_table(entry, p) + entry(p as u8),
    decreases count,
{
    let t = capability_table(entry, count);
    let prefix = capability_table(entry, p) + entry(p as u8);
    if count == p + 1 {
        assert(t =~= prefix);
        assert(t.subrange(0, prefix.len() as int) =~= prefix);
    } else {
        lemma_table_entry_in_place(entry, (count - 1) as nat, p);
        lemma_table_len_monotone(entry, p + 1, (count - 1) as nat);
        assert(capability_table(entry, p + 1) =~= prefix);
        let shorter = capability_table(entry, (count - 1) as nat);
        assert(t =~= shorter + entry((count - 1) as u8));
        assert(t.subrange(0, prefix.len() as int) =~= shorter.subrange(0, prefix.len() as int));
    }
}

/// Builds a pin's entry from its modes beyond general I/O.
pub fn build_pin_entry(extra_modes: &[u8]) -> (entry: Vec<u8>)
    ensures
        entry@ == pin_entry(extra_modes@),
{
    let mut entry: Vec<u8> = Vec::new();
    entry.push(MODE_INPUT);
    entry.push(RESOLUTION_DIGITAL);
    entry.push(MODE_OUTPUT);
    entry.push(RESOLUTION_DIGITAL);
    let mut i: usize = 0;
    while i < extra_modes.len()
        invariant
            0 <= i <= extra_modes@.len(),
            entry@ == general_io_modes() + extra_modes@.take(i as int),
        decreases extra_modes@.len() - i,
    {
        entry.push(extra_modes[i]);
        i = i + 1;
        assert(entry@ =~= general_io_modes() + extra_modes@.take(i as int));
    }
    entry.push(SYSEX_REALTIME);
    assert(extra_modes@.take(i as int) =~= extra_modes@);
    assert(entry@ =~= pin_entry(extra_modes@));
    entry
}

/// Appends `bytes` to `out`.
pub fn append_entry(out: &mut Vec<u8>, bytes: Vec<u8>)
    ensures
        final(out)@ == old(out)@ + bytes@,
{
    let mut bytes = bytes;
    out.append(&mut bytes);
}

} // verus!
