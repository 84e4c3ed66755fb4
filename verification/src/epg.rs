//! The EPG feed of the tuner server: which lines of its event stream carry
//! no event, and how programmes are tied together by event relays.
use vstd::prelude::*;
use std::collections::HashMap;
use crate::program::{Program, RelatedItem, RelatedItemType};
use crate::text::{chars_of, spec_trim, trim};

verus! {

broadcast use vstd::std_specs::hash::group_hash_axioms;

/// The line opens the JSON array of the event stream: `[` alone, with
/// nothing but white space around it.
pub open spec fn opens_feed(line: Seq<char>) -> bool {
    spec_trim(line) == seq!['[']
}

/// Tells whether a line of the event stream only opens its JSON array
/// (`[` once trimmed, compared without regard to ASCII case); such a line
/// is passed over.
pub fn is_feed_opening(line: &str) -> (r: bool)
    ensures
        r == opens_feed(line@),
{
    let cs = chars_of(line);
    let t = trim(cs.as_slice());
    let r = t.len() == 1 && t[0] == '[';
    proof {
        if r {
            assert(t@ =~= seq!['[']);
        }
    }
    r
}

/// The related item is an event relay.
pub open spec fn is_relay(item: RelatedItem) -> bool {
    item.item_type == Some(RelatedItemType::Relay)
}

/// Every relay among the items names the event it relays to.
pub open spec fn relay_targets_named(items: Seq<RelatedItem>) -> bool {
    forall|j: int| 0 <= j < items.len() && is_relay(#[trigger] items[j]) ==> items[j].event_id is Some
}

/// Every relay item of every programme names the event it relays to.
pub open spec fn relay_targets_known(programs: Seq<Program>) -> bool {
    forall|i: int|
        0 <= i < programs.len() ==> match #[trigger] programs[i].related_items {
            Some(v) => relay_targets_named(v@),
            None => true,
        }
}

/// `table` after the relay items among `items`, in order, each map their
/// target event to `event_id`.
pub open spec fn add_relays(table: Map<i32, i32>, items: Seq<RelatedItem>, event_id: i32) -> Map<
    i32,
    i32,
>
    decreases items.len(),
{
    if items.len() == 0 {
        table
    } else {
        let next = if is_relay(items[0]) {
            table.insert(items[0].event_id.unwrap(), event_id)
        } else {
            table
        };
        add_relays(next, items.drop_first(), event_id)
    }
}

/// `table` after the relay items of programme `p`.
pub open spec fn program_relays(table: Map<i32, i32>, p: Program) -> Map<i32, i32> {
    match p.related_items {
        Some(v) => add_relays(table, v@, p.event_id),
        None => table,
    }
}

/// `table` after the relay items of the programmes, in order.
pub open spec fn relays_from(table: Map<i32, i32>, programs: Seq<Program>) -> Map<i32, i32>
    decreases programs.len(),
{
    if programs.len() == 0 {
        table
    } else {
        relays_from(program_relays(table, programs[0]), programs.drop_first())
    }
}

/// The reverse event-relay table of the programmes: each relayed-to event
/// id maps to the event id of the programme that relays to it, a later
/// relay replacing an earlier one.
pub open spec fn reverse_relay_table(programs: Seq<Program>) -> Map<i32, i32> {
    relays_from(Map::empty(), programs)
}

fn add_relays_into(table: &mut HashMap<i32, i32>, items: &Vec<RelatedItem>, event_id: i32)
    requires
        relay_targets_named(items@),
    ensures
        final(table)@ == add_relays(old(table)@, items@, event_id),
{
    let ghost goal = add_relays(table@, items@, event_id);
    let mut i: usize = 0;
    assert(items@.skip(0) =~= items@);
    while i < items.len()
        invariant
            i <= items@.len(),
            relay_targets_named(items@),
            add_relays(table@, items@.skip(i as int), event_id) == goal,
        decreases items@.len() - i,
    {
        assert(items@.skip(i as int)[0] == items@[i as int]);
        assert(items@.skip(i as int).drop_first() =~= items@.skip(i + 1));
        let item = items[i];
        let relay = match item.item_type {
            Some(RelatedItemType::Relay) => true,
            _ => false,
        };
        if relay {
            assert(is_relay(items@[i as int]));
            match item.event_id {
                Some(target) => {
                    table.insert(target, event_id);
                },
                None => {},
            }
        }
        i = i + 1;
    }
    assert(items@.skip(i as int) =~= Seq::<RelatedItem>::empty());
}

/// Builds the reverse event-relay table of the programmes: for each relay
/// item of each programme, in order, the relayed-to event id maps to the
/// programme's event id.
pub fn reverse_event_relay(programs: &Vec<Program>) -> (table: HashMap<i32, i32>)
    requires
        relay_targets_known(programs@),
    ensures
        table@ == reverse_relay_table(programs@),
{
    let mut table: HashMap<i32, i32> = HashMap::new();
    let mut i: usize = 0;
    assert(programs@.skip(0) =~= programs@);
    while i < programs.len()
        invariant
            i <= programs@.len(),
            relay_targets_known(programs@),
            relays_from(table@, programs@.skip(i as int)) == reverse_relay_table(programs@),
        decreases programs@.len() - i,
    {
        assert(programs@.skip(i as int)[0] == programs@[i as int]);
        assert(programs@.skip(i as int).drop_first() =~= programs@.skip(i + 1));
        let p = &programs[i];
        match &p.related_items {
            Some(items) => {
                assert(relay_targets_named(items@));
                add_relays_into(&mut table, items, p.event_id);
            },
            None => {},
        }
        i = i + 1;
    }
    assert(programs@.skip(i as int) =~= Seq::<Program>::empty());
    table
}

} // verus!
