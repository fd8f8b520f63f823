use vstd::prelude::*;
use vstd::string::*;
use crate::document::{read_result, shape, shaped, DocValue, StoredDoc};
use crate::entries::{lists_map, KeyedEntries};
use crate::errors::{DbError, StoreFailure};

verus! {

pub type Fetch<V> = Result<StoredDoc<V>, StoreFailure>;

pub open spec fn key_views(keys: Seq<String>) -> Seq<Seq<char>> {
    keys.map_values(|k: String| k@)
}

/// The documents gathered after the reads `outs` of `keys[0]`, `keys[1]`, ...:
/// each key maps to its latest successful read, unless a later read of it failed.
pub open spec fn docs_of<V>(keys: Seq<Seq<char>>, outs: Seq<Fetch<V>>, with_cas: bool) -> Map<
    Seq<char>,
    DocValue<V>,
>
    decreases outs.len(),
{
    if outs.len() == 0 {
        Map::empty()
    } else {
        let n = outs.len() - 1;
        let prev = docs_of(keys, outs.drop_last(), with_cas);
        match outs[n] {
            Ok(d) => prev.insert(keys[n], shaped(d, with_cas)),
            Err(_) => prev.remove(keys[n]),
        }
    }
}

/// The failures gathered after the reads `outs`: each key maps to its latest
/// failure, unless a later read of it succeeded.
pub open spec fn errors_of<V>(keys: Seq<Seq<char>>, outs: Seq<Fetch<V>>) -> Map<Seq<char>, StoreFailure>
    decreases outs.len(),
{
    if outs.len() == 0 {
        Map::empty()
    } else {
        let n = outs.len() - 1;
        let prev = errors_of(keys, outs.drop_last());
        match outs[n] {
            Ok(_) => prev.remove(keys[n]),
            Err(f) => prev.insert(keys[n], f),
        }
    }
}

pub open spec fn failure_text(e: (String, StoreFailure)) -> Seq<char> {
    " "@ + e.0@ + ": "@ + e.1.message@ + ";"@
}

pub open spec fn failures_text(items: Seq<(String, StoreFailure)>) -> Seq<char>
    decreases items.len(),
{
    if items.len() == 0 {
        Seq::empty()
    } else {
        failures_text(items.drop_last()) + failure_text(items.last())
    }
}

/// The text of a failed strict batch read: every failing key with its failure.
pub open spec fn batch_message(items: Seq<(String, StoreFailure)>) -> Seq<char> {
    "Error occured while fetching documents:"@ + failures_text(items)
}

/// A batch read in progress. The caller asks `next_key` which key to read,
/// reads it, and hands the outcome to `record`, until no key is left.
pub struct BatchCollector<V> {
    keys: Vec<String>,
    with_cas: bool,
    docs: KeyedEntries<DocValue<V>>,
    errors: KeyedEntries<StoreFailure>,
    outs: Ghost<Seq<Fetch<V>>>,
    recorded: usize,
}

/// The outcome of a batch read that reports failures beside the documents.
pub struct BatchDocs<V> {
    pub docs: Vec<(String, DocValue<V>)>,
    pub errors: Vec<(String, StoreFailure)>,
}

impl<V> BatchCollector<V> {
    /// The keys asked for, in order.
    pub closed spec fn keys(&self) -> Seq<Seq<char>> {
        key_views(self.keys@)
    }

    /// The read outcomes recorded so far, one per key in order.
    pub closed spec fn outcomes(&self) -> Seq<Fetch<V>> {
        self.outs@
    }

    pub closed spec fn wants_cas(&self) -> bool {
        self.with_cas
    }

    pub closed spec fn wf(&self) -> bool {
        &&& self.docs.wf()
        &&& self.errors.wf()
        &&& self.outs@.len() <= self.keys@.len()
        &&& self.recorded == self.outs@.len()
        &&& self.docs@ == docs_of(key_views(self.keys@), self.outs@, self.with_cas)
        &&& self.errors@ == errors_of(key_views(self.keys@), self.outs@)
    }

    pub open spec fn done(&self) -> bool {
        self.outcomes().len() == self.keys().len()
    }

    /// Starts a batch read of `keys`; an empty list of keys is refused.
    pub fn new(keys: Vec<String>, with_cas: bool) -> (r: Result<Self, DbError>)
        ensures
            keys@.len() == 0 <==> r is Err,
            match r {
                Ok(c) => c.wf() && c.keys() == key_views(keys@) && c.outcomes().len() == 0
                    && c.wants_cas() == with_cas,
                Err(e) => e == DbError::EmptyKeys,
            },
    {
        if keys.len() == 0 {
            return Err(DbError::EmptyKeys);
        }
        Ok(
            BatchCollector {
                keys,
                with_cas,
                docs: KeyedEntries::new(),
                errors: KeyedEntries::new(),
                outs: Ghost(Seq::empty()),
                recorded: 0,
            },
        )
    }

    /// The key to read next, or `None` once every key has its outcome.
    pub fn next_key(&self) -> (r: Option<&String>)
        requires
            self.wf(),
        ensures
            match r {
                Some(k) => !self.done() && k@ == self.keys()[self.outcomes().len() as int],
                None => self.done(),
            },
    {
        let n = self.recorded;
        if n < self.keys.len() {
            Some(&self.keys[n])
        } else {
            None
        }
    }

    /// Records the outcome of reading the key that `next_key` gave.
    pub fn record(&mut self, outcome: Fetch<V>)
        requires
            old(self).wf(),
            !old(self).done(),
        ensures
            final(self).wf(),
            final(self).keys() == old(self).keys(),
            final(self).wants_cas() == old(self).wants_cas(),
            final(self).outcomes() == old(self).outcomes().push(outcome),
    {
        let n = self.recorded;
        proof {
            assert(key_views(self.keys@).len() == self.keys@.len());
        }
        let len = self.keys.len();
        assert(n < len);
        let key = self.keys[n].clone();
        let ghost prev = self.outs@;
        proof {
            let ks = key_views(self.keys@);
            let outs2 = prev.push(outcome);
            assert(outs2.drop_last() =~= prev);
            assert(ks[n as int] == key@);
        }
        self.outs = Ghost(self.outs@.push(outcome));
        match outcome {
            Ok(d) => {
                let value = shape(d, self.with_cas);
                self.docs.insert(key.clone(), value);
                self.errors.remove(&key);
            },
            Err(f) => {
                self.docs.remove(&key);
                self.errors.insert(key, f);
            },
        }
        self.recorded = n + 1;
    }

    /// The outcome of a strict batch read: every document, if every key was
    /// read; otherwise an error that lists each failing key with its failure.
    pub fn get_documents(self) -> (r: Result<Vec<(String, DocValue<V>)>, DbError>)
        requires
            self.wf(),
            self.done(),
        ensures
            r is Ok <==> errors_of(self.keys(), self.outcomes()).dom().len() == 0,
            match r {
                Ok(docs) => lists_map(docs@, docs_of(self.keys(), self.outcomes(), self.wants_cas())),
                Err(DbError::Batch { failures, message }) => lists_map(
                    failures@,
                    errors_of(self.keys(), self.outcomes()),
                ) && message@ == batch_message(failures@),
                Err(_) => false,
            },
    {
        if self.errors.len() == 0 {
            Ok(self.docs.into_vec())
        } else {
            let failures = self.errors.into_vec();
            let message = describe_failures(&failures);
            Err(DbError::Batch { failures, message })
        }
    }

    /// The outcome of a batch read that never fails on a key: the documents
    /// read and, apart, the keys whose read failed.
    pub fn get_documents_v2(self) -> (r: BatchDocs<V>)
        requires
            self.wf(),
            self.done(),
        ensures
            lists_map(r.docs@, docs_of(self.keys(), self.outcomes(), self.wants_cas())),
            lists_map(r.errors@, errors_of(self.keys(), self.outcomes())),
    {
        BatchDocs { docs: self.docs.into_vec(), errors: self.errors.into_vec() }
    }
}

/// The text that lists each failure of a strict batch read.
pub fn describe_failures(failures: &Vec<(String, StoreFailure)>) -> (r: String)
    ensures
        r@ == batch_message(failures@),
{
    let mut msg = String::from_str("Error occured while fetching documents:");
    let mut i: usize = 0;
    while i < failures.len()
        invariant
            i <= failures@.len(),
            msg@ == "Error occured while fetching documents:"@ + failures_text(failures@.take(i as int)),
        decreases failures@.len() - i,
    {
        proof {
            assert(failures@.take(i + 1).drop_last() =~= failures@.take(i as int));
        }
        msg.append(" ");
        msg.append(failures[i].0.as_str());
        msg.append(": ");
        msg.append(failures[i].1.message.as_str());
        msg.append(";");
        i = i + 1;
    }
    proof {
        assert(failures@.take(i as int) =~= failures@);
    }
    msg
}

/// `part` stands somewhere in `whole`, as a contiguous run.
pub open spec fn occurs_in(part: Seq<char>, whole: Seq<char>) -> bool {
    exists|off: int|
        0 <= off && off + part.len() <= whole.len() && #[trigger] whole.subrange(off, off + part.len())
            == part
}

proof fn lemma_partition_prefix<V>(keys: Seq<Seq<char>>, outs: Seq<Fetch<V>>, with_cas: bool)
    requires
        outs.len() <= keys.len(),
    ensures
        docs_of(keys, outs, with_cas).dom().disjoint(errors_of(keys, outs).dom()),
        docs_of(keys, outs, with_cas).dom() + errors_of(keys, outs).dom() == keys.take(
            outs.len() as int,
        ).to_set(),
    decreases outs.len(),
{
    if outs.len() == 0 {
        assert(keys.take(0).to_set() =~= Set::<Seq<char>>::empty());
        assert(docs_of(keys, outs, with_cas).dom() + errors_of(keys, outs).dom() =~= Set::<
            Seq<char>,
        >::empty());
    } else {
        let n = outs.len() - 1;
        lemma_partition_prefix(keys, outs.drop_last(), with_cas);
        let before = keys.take(n as int).to_set();
        assert(keys.take(n + 1).to_set() =~= before.insert(keys[n as int])) by {
            assert(keys.take(n + 1) =~= keys.take(n as int).push(keys[n as int]));
            keys.take(n as int).lemma_push_to_set_commute(keys[n as int]);
        }
        assert(docs_of(keys, outs, with_cas).dom() + errors_of(keys, outs).dom() =~= keys.take(
            outs.len() as int,
        ).to_set());
    }
}

proof fn lemma_latest_outcome<V>(keys: Seq<Seq<char>>, outs: Seq<Fetch<V>>, with_cas: bool, i: int)
    requires
        outs.len() <= keys.len(),
        keys.no_duplicates(),
        0 <= i < outs.len(),
    ensures
        match outs[i] {
            Ok(d) => docs_of(keys, outs, with_cas).contains_key(keys[i]) && docs_of(
                keys,
                outs,
                with_cas,
            )[keys[i]] == shaped(d, with_cas) && !errors_of(keys, outs).contains_key(keys[i]),
            Err(f) => errors_of(keys, outs).contains_key(keys[i]) && errors_of(keys, outs)[keys[i]]
                == f && !docs_of(keys, outs, with_cas).contains_key(keys[i]),
        },
    decreases outs.len(),
{
    let n = outs.len() - 1;
    if i < n {
        lemma_latest_outcome(keys, outs.drop_last(), with_cas, i);
        assert(outs.drop_last()[i] == outs[i]);
        assert(keys[i] != keys[n as int]);
    }
}

/// When every key of a set of distinct keys was read successfully, the strict
/// batch read succeeds, holds exactly those keys, and gives for each key what a
/// single read of it gives.
pub proof fn lemma_strict_all_found<V>(keys: Seq<Seq<char>>, outs: Seq<Fetch<V>>, with_cas: bool)
    requires
        keys.len() > 0,
        outs.len() == keys.len(),
        keys.no_duplicates(),
        forall|i: int| 0 <= i < outs.len() ==> #[trigger] outs[i] is Ok,
    ensures
        errors_of(keys, outs).dom().len() == 0,
        docs_of(keys, outs, with_cas).dom() == keys.to_set(),
        forall|i: int|
            0 <= i < keys.len() ==> #[trigger] read_result(outs[i], with_cas) == Ok::<
                DocValue<V>,
                DbError,
            >(docs_of(keys, outs, with_cas)[keys[i]]),
{
    lemma_partition_prefix(keys, outs, with_cas);
    assert(keys.take(outs.len() as int) =~= keys);
    let errs = errors_of(keys, outs);
    assert forall|i: int| 0 <= i < keys.len() implies #[trigger] read_result(outs[i], with_cas)
        == Ok::<DocValue<V>, DbError>(docs_of(keys, outs, with_cas)[keys[i]]) by {
        lemma_latest_outcome(keys, outs, with_cas, i);
    }
    assert(errs.dom() =~= Set::<Seq<char>>::empty()) by {
        assert forall|k: Seq<char>| !errs.dom().contains(k) by {
            if errs.dom().contains(k) {
                assert(keys.to_set().contains(k));
                let i = choose|i: int| 0 <= i < keys.len() && keys[i] == k;
                lemma_latest_outcome(keys, outs, with_cas, i);
                assert(outs[i] is Ok);
            }
        }
    }
    assert(docs_of(keys, outs, with_cas).dom() =~= keys.to_set());
}

proof fn lemma_errors_finite<V>(keys: Seq<Seq<char>>, outs: Seq<Fetch<V>>)
    ensures
        errors_of(keys, outs).dom().finite(),
    decreases outs.len(),
{
    if outs.len() > 0 {
        lemma_errors_finite(keys, outs.drop_last());
    }
}

proof fn lemma_text_prefix(items: Seq<(String, StoreFailure)>, m: int)
    requires
        0 <= m <= items.len(),
    ensures
        failures_text(items.take(m)).len() <= failures_text(items).len(),
        failures_text(items).subrange(0, failures_text(items.take(m)).len() as int)
            == failures_text(items.take(m)),
    decreases items.len(),
{
    if m == items.len() {
        assert(items.take(m) =~= items);
        assert(failures_text(items).subrange(0, failures_text(items).len() as int) =~= failures_text(
            items,
        ));
    } else {
        let prev = items.drop_last();
        lemma_text_prefix(prev, m);
        assert(prev.take(m) =~= items.take(m));
        let t = failures_text(items);
        let p = failures_text(prev);
        let q = failures_text(items.take(m));
        assert(t =~= p + failure_text(items.last()));
        assert(t.subrange(0, q.len() as int) =~= p.subrange(0, q.len() as int));
    }
}

/// When any key of a set of distinct keys failed to be read, the strict batch
/// read fails, and its text names every key whose read failed.
pub proof fn lemma_strict_reports_missing<V>(
    keys: Seq<Seq<char>>,
    outs: Seq<Fetch<V>>,
    failures: Seq<(String, StoreFailure)>,
)
    requires
        outs.len() == keys.len(),
        keys.no_duplicates(),
        lists_map(failures, errors_of(keys, outs)),
    ensures
        forall|i: int|
            0 <= i < keys.len() && #[trigger] outs[i] is Err ==> errors_of(keys, outs).dom().len() > 0
                && occurs_in(keys[i], batch_message(failures)),
{
    assert forall|i: int| 0 <= i < keys.len() && #[trigger] outs[i] is Err implies errors_of(
        keys,
        outs,
    ).dom().len() > 0 && occurs_in(keys[i], batch_message(failures)) by {
        let errs = errors_of(keys, outs);
        lemma_latest_outcome(keys, outs, true, i);
        lemma_partition_prefix(keys, outs, true);
        assert(keys.take(outs.len() as int) =~= keys);
        assert(errs.dom().contains(keys[i]));
        lemma_errors_finite(keys, outs);
        vstd::set_lib::lemma_set_empty_equivalency_len(errs.dom());
        assert(!Set::<Seq<char>>::empty().contains(keys[i]));
        assert(errs.dom().len() > 0);
        let j = choose|j: int| 0 <= j < failures.len() && failures[j].0@ == keys[i];
        lemma_text_prefix(failures, j + 1);
        let lead = "Error occured while fetching documents:"@;
        let before = failures_text(failures.take(j));
        let upto = failures_text(failures.take(j + 1));
        assert(failures.take(j + 1).drop_last() =~= failures.take(j));
        assert(upto == before + failure_text(failures[j]));
        let whole = batch_message(failures);
        let off: int = (lead.len() + before.len() + 1) as int;
        let k = keys[i];
        reveal_strlit(" ");
        let ft = failure_text(failures[j]);
        assert(ft =~= " "@ + (k + (": "@ + failures[j].1.message@ + ";"@)));
        assert(ft.len() >= 1 + k.len());
        assert(whole =~= lead + failures_text(failures));
        assert(upto.len() == before.len() + ft.len());
        assert(off + k.len() <= whole.len());
        assert(whole.subrange(off, off + k.len()) =~= k) by {
            assert(failures_text(failures).subrange(0, upto.len() as int) == upto);
            assert forall|x: int| 0 <= x < k.len() implies whole.subrange(off, off + k.len())[x]
                == k[x] by {
                assert(whole[off + x] == failures_text(failures)[before.len() + 1 + x]);
                assert(failures_text(failures)[before.len() + 1 + x] == upto[before.len() + 1 + x]);
                assert(failure_text(failures[j])[1 + x] == k[x]);
            }
        }
        assert(occurs_in(k, whole));
    }
}

/// The partial batch read accounts for every key asked for exactly once: each
/// key is either among the documents or among the failures, never both.
pub proof fn lemma_partial_partitions<V>(keys: Seq<Seq<char>>, outs: Seq<Fetch<V>>, with_cas: bool)
    requires
        outs.len() == keys.len(),
    ensures
        docs_of(keys, outs, with_cas).dom().disjoint(errors_of(keys, outs).dom()),
        docs_of(keys, outs, with_cas).dom() + errors_of(keys, outs).dom() == keys.to_set(),
{
    lemma_partition_prefix(keys, outs, with_cas);
    assert(keys.take(outs.len() as int) =~= keys);
}

} // verus!
