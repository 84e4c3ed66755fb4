//! Recording rules ("record every programme matching this word", "record
//! this series"), kept under ULID identifiers.
use vstd::prelude::*;
use std::collections::HashMap;

verus! {

broadcast use vstd::std_specs::hash::group_hash_axioms;

/// A recording rule.
#[derive(Debug)]
pub enum PlanUnit {
    /// Programmes whose text contains the word.
    Word(String),
    /// Programmes of the series.
    Series(String),
}

/// A rule as text.
pub enum PlanView {
    Word(Seq<char>),
    Series(Seq<char>),
}

impl View for PlanUnit {
    type V = PlanView;

    open spec fn view(&self) -> PlanView {
        match self {
            PlanUnit::Word(w) => PlanView::Word(w@),
            PlanUnit::Series(s) => PlanView::Series(s@),
        }
    }
}

impl PlanUnit {
    /// Compares two rules, as the derived `==` does.
    pub fn same_as(&self, other: &PlanUnit) -> (r: bool)
        ensures
            r == (self@ == other@),
    {
        match (self, other) {
            (PlanUnit::Word(a), PlanUnit::Word(b)) => a.eq(b),
            (PlanUnit::Series(a), PlanUnit::Series(b)) => a.eq(b),
            _ => false,
        }
    }

    /// A copy of the rule.
    pub fn duplicate(&self) -> (r: PlanUnit)
        ensures
            r@ == self@,
    {
        match self {
            PlanUnit::Word(a) => PlanUnit::Word(a.clone()),
            PlanUnit::Series(a) => PlanUnit::Series(a.clone()),
        }
    }
}

/// The Crockford base-32 alphabet that ULIDs are written in.
pub open spec fn crockford_alphabet() -> Seq<char> {
    "0123456789ABCDEFGHJKMNPQRSTVWXYZ"@
}

/// The `i`-th character of the text of the ULID `id`: its 26 characters
/// spell the 128 bits in groups of five, most significant first.
pub open spec fn ulid_char(id: u128, i: int) -> char {
    crockford_alphabet()[((id as nat / vstd::arithmetic::power2::pow2((5 * (25 - i)) as nat))
        % 32) as int]
}

/// The text of the ULID `id`.
pub open spec fn ulid_text(id: u128) -> Seq<char> {
    Seq::new(26, |i: int| ulid_char(id, i))
}

/// The text of a ULID (`ulid::Ulid` written with `Display`): 26 characters
/// of the Crockford alphabet, the 128 bits in five-bit groups from the most
/// significant end (the first character holds the top three bits).
#[verifier::external_body]
pub(crate) fn ulid_string(id: u128) -> (r: String)
    ensures
        r@ == ulid_text(id),
{
    ulid::Ulid(id).to_string()
}

/// A fresh ULID (`ulid::Ulid::new`), from the clock and a random number;
/// nothing is claimed of its value.
#[verifier::external_body]
fn new_ulid() -> (r: u128) {
    ulid::Ulid::new().0
}

/// How many ULIDs `try_insert` draws at most before it gives up on ids that
/// are all in use.
pub const ULID_DRAWS: usize = 64;

/// The recording rules and the file they are kept in.
pub struct RulesResolverBase {
    pub inner: HashMap<u128, PlanUnit>,
    pub save_file_location: String,
}

/// The outcome of adding a rule.
#[derive(Clone, Copy, PartialEq, Eq, Structural, Debug)]
pub enum InsertOutcome {
    /// An equal rule is already kept; nothing changed.
    Duplicate,
    /// The rule is kept under this new id.
    Inserted(u128),
    /// The freshly drawn id is taken; nothing changed (draw again).
    Collision(u128),
}

/// No rule is kept twice: distinct ids hold different rules.
pub open spec fn rules_distinct(m: Map<u128, PlanView>) -> bool {
    forall|a: u128, b: u128|
        #![trigger m[a], m[b]]
        m.contains_key(a) && m.contains_key(b) && a != b ==> m[a] != m[b]
}

/// Removing a rule undoes adding it: a rule added under an id that was not
/// in use (as `try_insert` adds one) is kept under that id, and removing
/// that id (as `try_remove` does) gives back exactly the earlier rules.
pub proof fn law_remove_undoes_insert(before: Map<u128, PlanView>, id: u128, plan: PlanView)
    requires
        !before.contains_key(id),
    ensures
        before.insert(id, plan).contains_key(id),
        before.insert(id, plan)[id] == plan,
        before.insert(id, plan).remove(id) == before,
{
    assert(before.insert(id, plan).remove(id) =~= before);
}

impl View for RulesResolverBase {
    type V = Map<u128, PlanView>;

    open spec fn view(&self) -> Map<u128, PlanView> {
        self.inner@.map_values(|p: PlanUnit| p@)
    }
}

impl RulesResolverBase {
    /// The rules loaded from `location`: those read from the file if it
    /// could be read and parsed (a later entry for the same id replaces an
    /// earlier one), none otherwise.
    pub fn new(location: String, loaded: Option<Vec<(u128, PlanUnit)>>) -> (r: RulesResolverBase)
        ensures
            r.save_file_location == location,
            loaded is None ==> r@ == Map::<u128, PlanView>::empty(),
            loaded matches Some(entries) ==> forall|id: u128|
                #![trigger r@.contains_key(id)]
                r@.contains_key(id) <==> exists|k: int|
                    0 <= k < entries@.len() && entries@[k].0 == id,
            loaded matches Some(entries) ==> forall|k: int|
                #![trigger entries@[k]]
                0 <= k < entries@.len() && (forall|l: int|
                    k < l < entries@.len() ==> entries@[l].0 != entries@[k].0) ==> r@[entries@[k].0]
                    == entries@[k].1@,
    {
        let mut inner: HashMap<u128, PlanUnit> = HashMap::new();
        match loaded {
            None => {
                let r = RulesResolverBase { inner, save_file_location: location };
                assert(r@ =~= Map::<u128, PlanView>::empty());
                r
            },
            Some(entries) => {
                let ghost es = entries@;
                let total = entries.len();
                let mut rest = entries;
                let mut taken: usize = 0;
                while rest.len() > 0
                    invariant
                        taken + rest@.len() == es.len(),
                        es.len() == total,
                        rest@ == es.skip(taken as int),
                        forall|id: u128|
                            #![trigger inner@.contains_key(id)]
                            inner@.contains_key(id) <==> exists|k: int|
                                0 <= k < taken && es[k].0 == id,
                        forall|k: int|
                            #![trigger es[k]]
                            0 <= k < taken && (forall|l: int|
                                k < l < taken ==> es[l].0 != es[k].0) ==> inner@[es[k].0]@
                                == es[k].1@,
                    decreases rest@.len(),
                {
                    let (id, plan) = rest.remove(0);
                    assert(es[taken as int] == (id, plan));
                    inner.insert(id, plan);
                    assert(es.skip(taken as int).drop_first() =~= es.skip(taken + 1));
                    taken = taken + 1;
                    assert forall|x: u128| #![trigger inner@.contains_key(x)]
                        inner@.contains_key(x) <==> exists|k: int|
                            0 <= k < taken && es[k].0 == x by {
                        if x == id {
                            assert(es[taken - 1].0 == x);
                        }
                    }
                }
                let r = RulesResolverBase { inner, save_file_location: location };
                r
            },
        }
    }

    /// Some kept rule equals `plan`.
    pub open spec fn holds_plan(&self, plan: PlanView) -> bool {
        exists|id: u128| #[trigger] self@.contains_key(id) && self@[id] == plan
    }

    /// Whether an equal rule is kept.
    pub fn contains_plan(&self, plan: &PlanUnit) -> (r: bool)
        ensures
            r == self.holds_plan(plan@),
    {
        let mut found = false;
        proof {
            assert forall|seen: Seq<PlanUnit>|
                #![trigger seen.to_set()]
                seen.to_set() == self.inner@.values() implies ((exists|j: int|
                    0 <= j < seen.len() && seen[j]@ == plan@) == self.holds_plan(plan@)) by {
                lemma_found_iff_holds(self, plan@, seen);
            }
        }
        for v in it: self.inner.values()
            invariant
                found == exists|j: int| 0 <= j < it.index() && it.seq().unref()[j]@ == plan@,
                it.seq().unref().len() == it.seq().len(),
                it.seq().unref().to_set() == self.inner@.values(),
                forall|seen: Seq<PlanUnit>|
                    #![trigger seen.to_set()]
                    seen.to_set() == self.inner@.values() ==> ((exists|j: int|
                        0 <= j < seen.len() && seen[j]@ == plan@) == self.holds_plan(plan@)),
        {
            if v.same_as(plan) {
                found = true;
            }
        }
        found
    }

    /// Adds a rule under the drawn id `candidate` unless an equal rule is
    /// kept: `Duplicate` when an equal rule is kept, `Inserted(candidate)`
    /// when the id is free, and `Collision(candidate)` when it is taken, in
    /// which case nothing changes and the caller draws again.
    pub fn insert_drawn(&mut self, plan: PlanUnit, candidate: u128) -> (r: InsertOutcome)
        ensures
            old(self).holds_plan(plan@) ==> r == InsertOutcome::Duplicate && final(self)@ == old(
                self,
            )@,
            !old(self).holds_plan(plan@) && !old(self)@.contains_key(candidate) ==> r
                == InsertOutcome::Inserted(candidate) && final(self)@ == old(self)@.insert(
                candidate,
                plan@,
            ),
            !old(self).holds_plan(plan@) && old(self)@.contains_key(candidate) ==> r
                == InsertOutcome::Collision(candidate) && final(self)@ == old(self)@,
            rules_distinct(old(self)@) ==> rules_distinct(final(self)@),
            final(self).save_file_location == old(self).save_file_location,
    {
        if self.contains_plan(&plan) {
            return InsertOutcome::Duplicate;
        }
        if self.inner.contains_key(&candidate) {
            return InsertOutcome::Collision(candidate);
        }
        let ghost before = self@;
        let ghost pv = plan@;
        self.inner.insert(candidate, plan);
        assert(self@ =~= before.insert(candidate, pv));
        assert forall|a: u128, b: u128|
            #![trigger self@[a], self@[b]]
            self@.contains_key(a) && self@.contains_key(b) && a != b && rules_distinct(before)
                implies self@[a] != self@[b] by {
            if a == candidate {
                assert(before.contains_key(b) && before[b] == self@[b]);
            } else if b == candidate {
                assert(before.contains_key(a) && before[a] == self@[a]);
            }
        }
        InsertOutcome::Inserted(candidate)
    }

    /// Adds a rule under a freshly drawn ULID (`ulid::Ulid::new`) unless an
    /// equal rule is kept, as `insert_drawn` does with each drawn id; a drawn
    /// id already in use is drawn again, up to `ULID_DRAWS` times. The draws
    /// are random, so the outcome is stated for the ids that were drawn,
    /// whichever they were: `Collision` only when the last of them was in
    /// use too.
    pub fn try_insert(&mut self, plan: PlanUnit) -> (r: InsertOutcome)
        ensures
            old(self).holds_plan(plan@) ==> r == InsertOutcome::Duplicate && final(self)@ == old(
                self,
            )@,
            !old(self).holds_plan(plan@) ==> r !is Duplicate,
            r matches InsertOutcome::Inserted(id) ==> !old(self)@.contains_key(id) && final(self)@
                == old(self)@.insert(id, plan@),
            r matches InsertOutcome::Collision(id) ==> old(self)@.contains_key(id) && final(self)@
                == old(self)@,
            rules_distinct(old(self)@) ==> rules_distinct(final(self)@),
            final(self).save_file_location == old(self).save_file_location,
    {
        if self.contains_plan(&plan) {
            return InsertOutcome::Duplicate;
        }
        let mut draws: usize = 1;
        let mut candidate = new_ulid();
        while draws < ULID_DRAWS && self.inner.contains_key(&candidate)
            invariant
                self@ == old(self)@,
                self.save_file_location == old(self).save_file_location,
                !self.holds_plan(plan@),
                1 <= draws <= ULID_DRAWS,
            decreases ULID_DRAWS - draws,
        {
            candidate = new_ulid();
            draws = draws + 1;
        }
        self.insert_drawn(plan, candidate)
    }

    /// Removes the rule kept under `id`, giving it back.
    pub fn try_remove(&mut self, id: u128) -> (r: Option<PlanUnit>)
        ensures
            final(self)@ == old(self)@.remove(id),
            match r {
                Some(p) => old(self)@.contains_key(id) && p@ == old(self)@[id],
                None => !old(self)@.contains_key(id),
            },
            rules_distinct(old(self)@) ==> rules_distinct(final(self)@),
            final(self).save_file_location == old(self).save_file_location,
    {
        let ghost before = self@;
        let r = self.inner.remove(&id);
        assert(self@ =~= before.remove(id));
        r
    }

    /// The rule kept under `id`, with its id.
    pub fn get_key_value(&self, id: u128) -> (r: Option<(u128, &PlanUnit)>)
        ensures
            match r {
                Some((k, p)) => k == id && self@.contains_key(id) && p@ == self@[id],
                None => !self@.contains_key(id),
            },
    {
        match self.inner.get(&id) {
            Some(p) => Some((id, p)),
            None => None,
        }
    }
}

/// Having looked at every value: a value equal to `plan` was seen exactly
/// when the rules hold `plan`.
proof fn lemma_found_iff_holds(
    rules: &RulesResolverBase,
    plan: PlanView,
    seen: Seq<PlanUnit>,
)
    requires
        seen.to_set() == rules.inner@.values(),
    ensures
        (exists|j: int| 0 <= j < seen.len() && seen[j]@ == plan) == rules.holds_plan(plan),
{
    if exists|j: int| 0 <= j < seen.len() && seen[j]@ == plan {
        let j = choose|j: int| 0 <= j < seen.len() && seen[j]@ == plan;
        let p = seen[j];
        assert(seen.to_set().contains(p));
        let id = choose|id: u128| #[trigger] rules.inner@.contains_key(id) && rules.inner@[id] == p;
        assert(rules@.contains_key(id) && rules@[id] == plan);
    } else if rules.holds_plan(plan) {
        let id = choose|id: u128| #[trigger] rules@.contains_key(id) && rules@[id] == plan;
        let p = rules.inner@[id];
        assert(rules.inner@.values().contains(p));
        assert(seen.to_set().contains(p));
        let j = choose|j: int| 0 <= j < seen.len() && seen[j] == p;
        assert(seen[j]@ == plan);
    }
}

} // verus!
