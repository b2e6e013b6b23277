//! What the writes of the apply engine mean for the storage engine.
//!
//! The engine takes atomic batches of mutations, one batch after the other.
//! What it holds under a key is what the last mutation of that key left
//! there. [`MemEngine`] is an engine of exactly that behaviour that lives in
//! memory.

use vstd::prelude::*;
use crate::action::{Action, ActionView, Mutation, MutationView, mutation_views};
use crate::keys::copy_bytes;
use crate::metadata::ColumnFamily;
use crate::write_op::{SstMeta, SstMetaView, sst_views};

verus! {

/// The `(column family, key)` that a mutation changes.
pub open spec fn target(mutation: MutationView) -> (ColumnFamily, Seq<u8>) {
    match mutation {
        MutationView::Put { cf, key, value } => (cf, key),
        MutationView::Delete { cf, key } => (cf, key),
    }
}

/// What a mutation leaves under its key.
pub open spec fn left_by(mutation: MutationView) -> Option<Seq<u8>> {
    match mutation {
        MutationView::Put { cf, key, value } => Some(value),
        MutationView::Delete { cf, key } => None,
    }
}

/// What is stored under `key` of `cf` once the mutations of `log` were
/// written in order.
pub open spec fn value_after(log: Seq<MutationView>, cf: ColumnFamily, key: Seq<u8>) -> Option<
    Seq<u8>,
>
    decreases log.len(),
{
    if log.len() == 0 {
        None
    } else if target(log.last()) == (cf, key) {
        left_by(log.last())
    } else {
        value_after(log.drop_last(), cf, key)
    }
}

/// The mutations that `actions` write to the engine, in order.
pub open spec fn written(actions: Seq<ActionView>) -> Seq<MutationView>
    decreases actions.len(),
{
    if actions.len() == 0 {
        Seq::empty()
    } else {
        written(actions.drop_last()) + (match actions.last() {
            ActionView::Write { batch } => batch,
            _ => Seq::empty(),
        })
    }
}

/// The files that `actions` have the engine ingest, in order.
pub open spec fn ingested(actions: Seq<ActionView>) -> Seq<SstMetaView>
    decreases actions.len(),
{
    if actions.len() == 0 {
        Seq::empty()
    } else {
        ingested(actions.drop_last()) + (match actions.last() {
            ActionView::Ingest { ssts } => ssts,
            _ => Seq::empty(),
        })
    }
}

/// Whether two byte strings are equal.
pub fn same_bytes(a: &[u8], b: &[u8]) -> (same: bool)
    ensures
        same == (a@ == b@),
{
    if a.len() != b.len() {
        return false;
    }
    let mut i: usize = 0;
    while i < a.len()
        invariant
            i <= a.len(),
            a.len() == b.len(),
            forall|j: int| 0 <= j < i ==> a@[j] == b@[j],
        decreases a.len() - i,
    {
        if a[i] != b[i] {
            return false;
        }
        i += 1;
    }
    assert(a@ =~= b@);
    true
}

/// A storage engine in memory.
pub struct MemEngine {
    log: Vec<Mutation>,
    files: Vec<SstMeta>,
}

/// Mathematical value of a [`MemEngine`].
pub struct MemEngineView {
    /// Every mutation that was written, oldest first.
    pub log: Seq<MutationView>,
    /// Every file that was ingested, oldest first.
    pub files: Seq<SstMetaView>,
}

impl View for MemEngine {
    type V = MemEngineView;

    closed spec fn view(&self) -> MemEngineView {
        MemEngineView { log: mutation_views(self.log@), files: sst_views(self.files@) }
    }
}

impl MemEngineView {
    /// The engine once `action` is carried out. Only writes and ingestions
    /// concern the engine.
    pub open spec fn carried_out(self, action: ActionView) -> MemEngineView {
        match action {
            ActionView::Write { batch } => MemEngineView { log: self.log + batch, ..self },
            ActionView::Ingest { ssts } => MemEngineView { files: self.files + ssts, ..self },
            _ => self,
        }
    }
}

impl MemEngine {
    /// An engine that holds nothing.
    pub fn new() -> (engine: MemEngine)
        ensures
            engine@ == (MemEngineView { log: Seq::empty(), files: Seq::empty() }),
    {
        let engine = MemEngine { log: Vec::new(), files: Vec::new() };
        assert(mutation_views(engine.log@) == Seq::<MutationView>::empty());
        assert(sst_views(engine.files@) == Seq::<SstMetaView>::empty());
        engine
    }

    /// Writes the mutations of `batch` in order.
    pub fn write(&mut self, batch: &Vec<Mutation>)
        ensures
            final(self)@ == (MemEngineView {
                log: old(self)@.log + mutation_views(batch@),
                ..old(self)@
            }),
    {
        let ghost all = mutation_views(batch@);
        let mut i: usize = 0;
        assert(old(self)@.log + all.take(0) == old(self)@.log);
        while i < batch.len()
            invariant
                i <= batch.len(),
                all == mutation_views(batch@),
                self@ == (MemEngineView { log: old(self)@.log + all.take(i as int), ..old(self)@ }),
            decreases batch.len() - i,
        {
            let copy = match &batch[i] {
                Mutation::Put { cf, key, value } => Mutation::Put {
                    cf: *cf,
                    key: copy_bytes(key.as_slice()),
                    value: copy_bytes(value.as_slice()),
                },
                Mutation::Delete { cf, key } => Mutation::Delete {
                    cf: *cf,
                    key: copy_bytes(key.as_slice()),
                },
            };
            let ghost before = self.log@;
            self.log.push(copy);
            proof {
                assert(mutation_views(before.push(copy)) == mutation_views(before).push(copy@));
                assert(all.take(i + 1) == all.take(i as int).push(all[i as int]));
                assert(old(self)@.log + all.take(i + 1) == (old(self)@.log + all.take(
                    i as int,
                )).push(all[i as int]));
            }
            i += 1;
        }
        assert(all.take(i as int) == all);
    }

    /// Takes in the files that `ssts` describes.
    pub fn ingest(&mut self, ssts: &Vec<SstMeta>)
        ensures
            final(self)@ == (MemEngineView {
                files: old(self)@.files + sst_views(ssts@),
                ..old(self)@
            }),
    {
        let mut copy = crate::write_op::duplicate_ssts(ssts);
        let ghost before = self.files@;
        let ghost added = copy@;
        self.files.append(&mut copy);
        assert(sst_views(before + added) == sst_views(before) + sst_views(added));
    }

    /// Carries out `action` as far as it concerns the engine.
    pub fn carry_out(&mut self, action: &Action)
        ensures
            final(self)@ == old(self)@.carried_out(action@),
    {
        match action {
            Action::Write { batch } => {
                self.write(batch);
            },
            Action::Ingest { ssts } => {
                self.ingest(ssts);
            },
            _ => {},
        }
    }

    /// What is stored under the engine key `key` of `cf`.
    pub fn get(&self, cf: ColumnFamily, key: &[u8]) -> (value: Option<Vec<u8>>)
        ensures
            match value_after(self@.log, cf, key@) {
                Some(stored) => value is Some && value.unwrap()@ == stored,
                None => value is None,
            },
    {
        let ghost log = mutation_views(self.log@);
        let mut i: usize = self.log.len();
        assert(log.take(i as int) == log);
        while i > 0
            invariant
                i <= self.log.len(),
                log == mutation_views(self.log@),
                value_after(log, cf, key@) == value_after(log.take(i as int), cf, key@),
            decreases i,
        {
            i -= 1;
            proof {
                assert(log.take(i + 1).last() == self.log@[i as int]@);
                assert(log.take(i + 1).drop_last() == log.take(i as int));
            }
            match &self.log[i] {
                Mutation::Put { cf: c, key: k, value } => {
                    if *c == cf && same_bytes(k.as_slice(), key) {
                        return Some(copy_bytes(value.as_slice()));
                    }
                },
                Mutation::Delete { cf: c, key: k } => {
                    if *c == cf && same_bytes(k.as_slice(), key) {
                        return None;
                    }
                },
            }
        }
        None
    }

    /// Number of files that were ingested.
    pub fn file_count(&self) -> (n: usize)
        ensures
            n == self@.files.len(),
    {
        self.files.len()
    }

    /// Number of mutations that were written.
    pub fn write_count(&self) -> (n: usize)
        ensures
            n == self@.log.len(),
    {
        self.log.len()
    }
}

} // verus!
