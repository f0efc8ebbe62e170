//! The batch upsert of contacts: what to do with each given contact, and
//! the tally of created, skipped and failed ones.

use vstd::prelude::*;
use crate::phone::{normalize_phone, normalized_phone};

verus! {

/// What to do with one contact of an upsert request.
pub enum UpsertStep {
    /// Its number does not normalise: count an error.
    Invalid,
    /// A contact with that number exists already: skip it.
    AlreadyPresent,
    /// Create a contact with this E.164 number.
    Create(String),
}

/// Decides what to do with a contact, given the E.164 numbers present.
pub fn upsert_step(existing: &Vec<String>, phone: &str) -> (step: UpsertStep)
    ensures
        normalized_phone(phone@) is None ==> step is Invalid,
        normalized_phone(phone@) matches Some(e) ==> ((exists|i: int|
            0 <= i < existing@.len() && (#[trigger] existing@[i])@ == e) ==> step is AlreadyPresent),
        normalized_phone(phone@) matches Some(e) ==> (!(exists|i: int|
            0 <= i < existing@.len() && (#[trigger] existing@[i])@ == e) ==> (step matches UpsertStep::Create(n) && n@ == e)),
{
    let e = match normalize_phone(phone) {
        Some(e) => e,
        None => {
            return UpsertStep::Invalid;
        },
    };
    let mut i: usize = 0;
    while i < existing.len()
        invariant
            i <= existing@.len(),
            normalized_phone(phone@) == Some(e@),
            forall|j: int| 0 <= j < i ==> (#[trigger] existing@[j])@ != e@,
        decreases existing@.len() - i,
    {
        if existing[i] == e {
            assert(existing@[i as int]@ == e@);
            return UpsertStep::AlreadyPresent;
        }
        i = i + 1;
    }
    UpsertStep::Create(e)
}

/// How one contact of the batch ended.
#[derive(PartialEq, Eq, Debug, Clone, Copy)]
pub enum UpsertOutcome {
    Created,
    Skipped,
    Failed,
}

/// Counts of the batch so far.
#[derive(PartialEq, Eq, Debug, Clone, Copy, Structural)]
pub struct UpsertTally {
    pub created: u32,
    pub skipped: u32,
    pub errors: u32,
}

impl UpsertTally {
    /// How many contacts have been counted.
    pub open spec fn total(self) -> int {
        self.created + self.skipped + self.errors
    }

    /// Nothing counted yet.
    pub fn new() -> (t: Self)
        ensures
            t.created == 0 && t.skipped == 0 && t.errors == 0,
    {
        UpsertTally { created: 0, skipped: 0, errors: 0 }
    }

    /// Counts one contact.
    pub fn record(&mut self, outcome: UpsertOutcome)
        requires
            outcome == UpsertOutcome::Created ==> old(self).created < u32::MAX,
            outcome == UpsertOutcome::Skipped ==> old(self).skipped < u32::MAX,
            outcome == UpsertOutcome::Failed ==> old(self).errors < u32::MAX,
        ensures
            final(self).created == old(self).created + (if outcome == UpsertOutcome::Created { 1int } else { 0 }),
            final(self).skipped == old(self).skipped + (if outcome == UpsertOutcome::Skipped { 1int } else { 0 }),
            final(self).errors == old(self).errors + (if outcome == UpsertOutcome::Failed { 1int } else { 0 }),
    {
        match outcome {
            UpsertOutcome::Created => self.created = self.created + 1,
            UpsertOutcome::Skipped => self.skipped = self.skipped + 1,
            UpsertOutcome::Failed => self.errors = self.errors + 1,
        }
    }
}

/// Every counted contact lands in exactly one count: recording one outcome
/// raises the total by one.
pub proof fn lemma_tally_counts_each_once(before: UpsertTally, after: UpsertTally, outcome: UpsertOutcome)
    requires
        after.created == before.created + (if outcome == UpsertOutcome::Created { 1int } else { 0 }),
        after.skipped == before.skipped + (if outcome == UpsertOutcome::Skipped { 1int } else { 0 }),
        after.errors == before.errors + (if outcome == UpsertOutcome::Failed { 1int } else { 0 }),
    ensures
        after.total() == before.total() + 1,
{
}

/// Whether one of `existing` is the number `e`.
pub open spec fn listed(existing: Seq<String>, e: Seq<char>) -> bool {
    exists|i: int| 0 <= i < existing.len() && (#[trigger] existing[i])@ == e
}

/// A batch upsert under way: the E.164 numbers known to be present (those
/// fetched before the batch and those created since) and the counts.
pub struct UpsertBatch {
    pub existing: Vec<String>,
    pub tally: UpsertTally,
}

impl UpsertBatch {
    /// A batch over the numbers already present, nothing counted yet.
    pub fn new(existing: Vec<String>) -> (b: Self)
        ensures
            b.existing@ == existing@,
            b.tally.created == 0 && b.tally.skipped == 0 && b.tally.errors == 0,
    {
        UpsertBatch { existing, tally: UpsertTally::new() }
    }

    /// What to do with the next contact of the batch.
    pub fn next(&self, phone: &str) -> (step: UpsertStep)
        ensures
            normalized_phone(phone@) is None ==> step is Invalid,
            normalized_phone(phone@) matches Some(e) ==> (listed(self.existing@, e) ==> step is AlreadyPresent),
            normalized_phone(phone@) matches Some(e) ==> (!listed(self.existing@, e) ==> (step matches UpsertStep::Create(n)
                && n@ == e)),
    {
        upsert_step(&self.existing, phone)
    }

    /// Counts how a contact ended; a number that was created joins the
    /// known ones, so that a repeat of it later in the batch is skipped.
    pub fn record(&mut self, step: UpsertStep, created: bool)
        requires
            (step is Create && created) ==> old(self).tally.created < u32::MAX,
            step is AlreadyPresent ==> old(self).tally.skipped < u32::MAX,
            (step is Invalid || (step is Create && !created)) ==> old(self).tally.errors < u32::MAX,
        ensures
            match step {
                UpsertStep::Create(n) => if created {
                    &&& final(self).existing@ == old(self).existing@.push(n)
                    &&& final(self).tally == (UpsertTally { created: (old(self).tally.created + 1) as u32, ..old(self).tally })
                } else {
                    &&& final(self).existing@ == old(self).existing@
                    &&& final(self).tally == (UpsertTally { errors: (old(self).tally.errors + 1) as u32, ..old(self).tally })
                },
                UpsertStep::AlreadyPresent => {
                    &&& final(self).existing@ == old(self).existing@
                    &&& final(self).tally == (UpsertTally { skipped: (old(self).tally.skipped + 1) as u32, ..old(self).tally })
                },
                UpsertStep::Invalid => {
                    &&& final(self).existing@ == old(self).existing@
                    &&& final(self).tally == (UpsertTally { errors: (old(self).tally.errors + 1) as u32, ..old(self).tally })
                },
            },
    {
        match step {
            UpsertStep::Create(n) => {
                if created {
                    self.existing.push(n);
                    self.tally.record(UpsertOutcome::Created);
                } else {
                    self.tally.record(UpsertOutcome::Failed);
                }
            },
            UpsertStep::AlreadyPresent => self.tally.record(UpsertOutcome::Skipped),
            UpsertStep::Invalid => self.tally.record(UpsertOutcome::Failed),
        }
    }
}

/// A batch creates only missing contacts: once a number has been created,
/// it counts as present, so a later contact with the same number is
/// skipped.
pub proof fn lemma_created_number_is_present(existing: Seq<String>, n: String)
    ensures
        listed(existing.push(n), n@),
{
    assert(existing.push(n)[existing.len() as int] == n);
}

} // verus!
