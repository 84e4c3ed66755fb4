//! Programmes as the tuner server (Mirakurun) describes them, recording
//! requests, and the identifiers derived from them.
use vstd::prelude::*;

verus! {

/// How a related event relates to a programme.
#[derive(Clone, Copy, PartialEq, Eq, Structural, Debug)]
pub enum RelatedItemType {
    Shared,
    Relay,
    Movement,
}

/// An event that a programme refers to (a relay target, a shared event, ...).
#[derive(Clone, Copy, PartialEq, Eq, Structural, Debug)]
pub struct RelatedItem {
    pub item_type: Option<RelatedItemType>,
    pub network_id: Option<i32>,
    pub service_id: Option<i32>,
    pub event_id: Option<i32>,
}

/// A programme. Instants and spans are in milliseconds (`start_at` from the
/// Unix epoch).
#[derive(Debug)]
pub struct Program {
    pub id: i64,
    pub event_id: i32,
    pub service_id: i32,
    pub network_id: i32,
    pub start_at: i64,
    pub duration: Option<i64>,
    pub is_free: bool,
    pub name: Option<String>,
    pub description: Option<String>,
    pub related_items: Option<Vec<RelatedItem>>,
}

/// A request to record one programme into a directory. `id_override`, when
/// present, names the event to record by (network, service, event) ids.
#[derive(Debug)]
pub struct RecordingTaskDescription {
    pub program: Program,
    pub id_override: Option<(i64, i64, i64)>,
    pub save_dir_location: String,
}

/// A message to the recording pool.
#[derive(Debug)]
pub enum RecordControlMessage {
    /// Record the programme, taking over the newest description if it is
    /// already being recorded.
    CreateOrUpdate(RecordingTaskDescription),
    /// Record the programme unless it is already being recorded.
    TryCreate(RecordingTaskDescription),
    /// Stop recording the programme with this id.
    Remove(i64),
}

/// How a recording task ended, with the number of bytes it wrote.
#[derive(Clone, Copy, PartialEq, Eq, Structural, Debug)]
pub enum RecExitType {
    /// The task's description left the recording pool.
    Aborted(u64),
    /// The state machine reached `Error`.
    Bailout,
    /// The programme ended and relays to the event (network, service, event).
    Continue(i64, i64, i64, u64),
    /// The programme ended.
    Success(u64),
    /// The stream ended.
    EndOfStream(u64),
}

/// Two optional strings hold the same text.
pub open spec fn same_text(a: Option<String>, b: Option<String>) -> bool {
    match (a, b) {
        (Some(x), Some(y)) => x@ == y@,
        (None, None) => true,
        _ => false,
    }
}

/// Two programmes agree in every field (strings by their text).
pub open spec fn same_program(a: Program, b: Program) -> bool {
    &&& a.id == b.id
    &&& a.event_id == b.event_id
    &&& a.service_id == b.service_id
    &&& a.network_id == b.network_id
    &&& a.start_at == b.start_at
    &&& a.duration == b.duration
    &&& a.is_free == b.is_free
    &&& same_text(a.name, b.name)
    &&& same_text(a.description, b.description)
    &&& match (a.related_items, b.related_items) {
        (Some(x), Some(y)) => x@ == y@,
        (None, None) => true,
        _ => false,
    }
}

fn text_eq(a: &Option<String>, b: &Option<String>) -> (r: bool)
    ensures
        r == same_text(*a, *b),
{
    match (a, b) {
        (Some(x), Some(y)) => x.eq(y),
        (None, None) => true,
        _ => false,
    }
}

fn related_eq(a: &Vec<RelatedItem>, b: &Vec<RelatedItem>) -> (r: bool)
    ensures
        r == (a@ == b@),
{
    if a.len() != b.len() {
        return false;
    }
    let mut i: usize = 0;
    while i < a.len()
        invariant
            i <= a@.len(),
            a@.len() == b@.len(),
            forall|j: int| 0 <= j < i ==> a@[j] == b@[j],
        decreases a@.len() - i,
    {
        if a[i] != b[i] {
            return false;
        }
        i = i + 1;
    }
    assert(a@ =~= b@);
    true
}

/// Compares two programmes field by field, as the derived `==` of the
/// programme type does.
pub fn program_eq(a: &Program, b: &Program) -> (r: bool)
    ensures
        r == same_program(*a, *b),
{
    let rel = match (&a.related_items, &b.related_items) {
        (Some(x), Some(y)) => related_eq(x, y),
        (None, None) => true,
        _ => false,
    };
    a.id == b.id && a.event_id == b.event_id && a.service_id == b.service_id && a.network_id
        == b.network_id && a.start_at == b.start_at && a.duration == b.duration && a.is_free
        == b.is_free && text_eq(&a.name, &b.name) && text_eq(&a.description, &b.description) && rel
}

fn clone_text(a: &Option<String>) -> (r: Option<String>)
    ensures
        same_text(r, *a),
{
    match a {
        Some(x) => Some(x.clone()),
        None => None,
    }
}

fn clone_related(v: &Vec<RelatedItem>) -> (r: Vec<RelatedItem>)
    ensures
        r@ == v@,
{
    let mut r: Vec<RelatedItem> = Vec::new();
    let mut i: usize = 0;
    while i < v.len()
        invariant
            i <= v@.len(),
            r@ =~= v@.take(i as int),
        decreases v@.len() - i,
    {
        r.push(v[i]);
        i = i + 1;
    }
    assert(v@.take(v@.len() as int) =~= v@);
    r
}

/// A copy of a programme.
pub fn clone_program(p: &Program) -> (r: Program)
    ensures
        same_program(r, *p),
{
    Program {
        id: p.id,
        event_id: p.event_id,
        service_id: p.service_id,
        network_id: p.network_id,
        start_at: p.start_at,
        duration: p.duration,
        is_free: p.is_free,
        name: clone_text(&p.name),
        description: clone_text(&p.description),
        related_items: match &p.related_items {
            Some(v) => Some(clone_related(v)),
            None => None,
        },
    }
}

/// Two recording requests agree (programmes and directories by their text).
pub open spec fn same_description(a: RecordingTaskDescription, b: RecordingTaskDescription) -> bool {
    &&& same_program(a.program, b.program)
    &&& a.id_override == b.id_override
    &&& a.save_dir_location@ == b.save_dir_location@
}

/// A copy of a recording request.
pub fn clone_description(d: &RecordingTaskDescription) -> (r: RecordingTaskDescription)
    ensures
        same_description(r, *d),
{
    RecordingTaskDescription {
        program: clone_program(&d.program),
        id_override: d.id_override,
        save_dir_location: d.save_dir_location.clone(),
    }
}

/// Programme ids encode network, service and event:
/// `network * 10^10 + service * 10^5 + event`.
pub open spec fn spec_program_id(network_id: int, service_id: int, event_id: int) -> int {
    network_id * 10000000000 + service_id * 100000 + event_id
}

/// The programme id of the event (network, service, event).
pub fn program_id_of(network_id: i64, service_id: i64, event_id: i64) -> (r: i64)
    requires
        i64::MIN <= spec_program_id(network_id as int, service_id as int, event_id as int)
            <= i64::MAX,
        i64::MIN <= network_id * 10000000000 <= i64::MAX,
        i64::MIN <= service_id * 100000 <= i64::MAX,
        i64::MIN <= network_id * 10000000000 + service_id * 100000 <= i64::MAX,
    ensures
        r == spec_program_id(network_id as int, service_id as int, event_id as int),
{
    network_id * 10000000000 + service_id * 100000 + event_id
}

/// A programme id splits back into its parts: for a network id of at least
/// 0 and service and event ids below 100000, the network part of the id is
/// the network id, its service part is the tuner server's service id
/// `network * 100000 + service`, and its event part is the event id.
pub proof fn law_program_id_parts(network_id: int, service_id: int, event_id: int)
    requires
        0 <= network_id,
        0 <= service_id < 100000,
        0 <= event_id < 100000,
    ensures
        spec_program_id(network_id, service_id, event_id) >= 0,
        spec_program_id(network_id, service_id, event_id) / 10000000000 == network_id,
        spec_program_id(network_id, service_id, event_id) / 100000 == network_id * 100000
            + service_id,
        spec_program_id(network_id, service_id, event_id) % 100000 == event_id,
{
    let id = spec_program_id(network_id, service_id, event_id);
    assert(network_id * 10000000000 == (network_id * 100000) * 100000) by (nonlinear_arith);
    assert(id == (network_id * 100000 + service_id) * 100000 + event_id) by (nonlinear_arith)
        requires
            id == network_id * 10000000000 + service_id * 100000 + event_id,
            network_id * 10000000000 == (network_id * 100000) * 100000,
    ;
    vstd::arithmetic::div_mod::lemma_fundamental_div_mod_converse(
        id,
        100000,
        network_id * 100000 + service_id,
        event_id,
    );
    assert(id == network_id * 10000000000 + (service_id * 100000 + event_id));
    assert(0 <= service_id * 100000 + event_id < 10000000000) by (nonlinear_arith)
        requires
            0 <= service_id < 100000,
            0 <= event_id < 100000,
    ;
    assert(network_id * 10000000000 >= 0) by (nonlinear_arith)
        requires
            0 <= network_id,
    ;
    vstd::arithmetic::div_mod::lemma_fundamental_div_mod_converse(
        id,
        10000000000,
        network_id,
        service_id * 100000 + event_id,
    );
}

/// The service id part of a programme id (`id / 100000`, rounding toward zero).
pub fn service_id_of_program(id: i64) -> (r: i64)
    ensures
        r as int == if id >= 0 {
            id as int / 100000
        } else {
            -((-(id as int)) / 100000)
        },
{
    if id >= 0 {
        id / 100000
    } else {
        let m = (0i128 - (id as i128)) as u128;
        let q = m / 100000;
        (0i128 - (q as i128)) as i64
    }
}

/// The event id part of a programme id (`id % 100000` with the sign of `id`),
/// as an `i32`.
pub fn event_id_of_program(id: i64) -> (r: i32)
    ensures
        r as int == if id >= 0 {
            id as int % 100000
        } else {
            -((-(id as int)) % 100000)
        },
{
    if id >= 0 {
        (id % 100000) as i32
    } else {
        let m = (0i128 - (id as i128)) as u128;
        let q = m % 100000;
        (0i128 - (q as i128)) as i32
    }
}

/// The network id part of a programme id (`id / 10^10`, rounding toward zero).
pub fn network_id_of_program(id: i64) -> (r: i64)
    ensures
        r as int == if id >= 0 {
            id as int / 10000000000
        } else {
            -((-(id as int)) / 10000000000)
        },
{
    if id >= 0 {
        id / 10000000000
    } else {
        let m = (0i128 - (id as i128)) as u128;
        let q = m / 10000000000;
        (0i128 - (q as i128)) as i64
    }
}

/// The first related item of type `Relay`.
pub open spec fn first_relay(items: Seq<RelatedItem>) -> Option<RelatedItem>
    decreases items.len(),
{
    if items.len() == 0 {
        None
    } else if items[0].item_type == Some(RelatedItemType::Relay) {
        Some(items[0])
    } else {
        first_relay(items.drop_first())
    }
}

fn find_relay_in(v: &Vec<RelatedItem>) -> (r: Option<RelatedItem>)
    ensures
        r == first_relay(v@),
{
    let mut i: usize = 0;
    assert(v@.skip(0) =~= v@);
    while i < v.len()
        invariant
            i <= v@.len(),
            first_relay(v@) == first_relay(v@.skip(i as int)),
        decreases v@.len() - i,
    {
        assert(v@.skip(i as int)[0] == v@[i as int]);
        let is_relay = match v[i].item_type {
            Some(RelatedItemType::Relay) => true,
            _ => false,
        };
        if is_relay {
            assert(v@.skip(i as int).len() > 0);
            return Some(v[i]);
        }
        assert(v@.skip(i as int).drop_first() =~= v@.skip(i + 1));
        i = i + 1;
    }
    None
}

/// Finds the event that a programme relays to: its first related item of
/// type `Relay`.
pub fn find_relay(items: &Option<Vec<RelatedItem>>) -> (r: Option<RelatedItem>)
    ensures
        r == match *items {
            Some(v) => first_relay(v@),
            None => None,
        },
{
    match items {
        None => None,
        Some(v) => find_relay_in(v),
    }
}

} // verus!
