use vstd::prelude::*;
use vstd::string::*;
use crate::errors::{DbError, FailureKind, StoreFailure};

verus! {

/// Attempts that follow a failed write when the caller names no limit.
pub const DEFAULT_RETRIES: u32 = 5;

/// Seconds to wait before a write is attempted again.
pub const RETRY_DELAY_SECS: u64 = 1;

/// A document as a read returns it: its value and the revision (CAS token)
/// that was current at read time.
#[derive(Debug, Clone, PartialEq, Eq)]
pub struct StoredDoc<V> {
    pub value: V,
    pub cas: u64,
}

/// What a read hands to the caller: the bare value, or the value with its CAS.
#[derive(Debug, Clone, PartialEq, Eq)]
pub enum DocValue<V> {
    Plain(V),
    WithCas { value: V, cas: u64 },
}

pub open spec fn shaped<V>(d: StoredDoc<V>, with_cas: bool) -> DocValue<V> {
    if with_cas {
        DocValue::WithCas { value: d.value, cas: d.cas }
    } else {
        DocValue::Plain(d.value)
    }
}

/// Wraps a read document as the caller asked for it.
pub fn shape<V>(d: StoredDoc<V>, with_cas: bool) -> (r: DocValue<V>)
    ensures
        r == shaped(d, with_cas),
{
    if with_cas {
        DocValue::WithCas { value: d.value, cas: d.cas }
    } else {
        DocValue::Plain(d.value)
    }
}

pub open spec fn read_result<V>(fetched: Result<StoredDoc<V>, StoreFailure>, with_cas: bool) -> Result<
    DocValue<V>,
    DbError,
> {
    match fetched {
        Ok(d) => Ok(shaped(d, with_cas)),
        Err(f) => Err(DbError::Store(f)),
    }
}

/// The result of a single-document read, from the one attempt made: the
/// document shaped as asked, or the store's failure unchanged (a missing key
/// stays a not-found failure). Reads are never retried.
pub fn get_document<V>(fetched: Result<StoredDoc<V>, StoreFailure>, with_cas: bool) -> (r: Result<
    DocValue<V>,
    DbError,
>)
    ensures
        r == read_result(fetched, with_cas),
{
    match fetched {
        Ok(d) => Ok(shape(d, with_cas)),
        Err(f) => Err(DbError::Store(f)),
    }
}

/// What the caller of a write does next.
#[derive(Debug, Clone, PartialEq, Eq)]
pub enum WriteStep<R> {
    /// The write went through; hand this back.
    Done(R),
    /// Wait this many seconds, then attempt the same write again.
    RetryAfterSeconds(u64),
    /// Give up with this error.
    Failed(DbError),
}

/// Retry budget of one write: the number of further attempts still allowed
/// after a failure.
#[derive(Debug, Clone, Copy, PartialEq, Eq)]
pub struct WriteRetry {
    pub retries_left: u32,
}

pub open spec fn next_step<R>(retries_left: u32, outcome: Result<R, StoreFailure>) -> WriteStep<R> {
    match outcome {
        Ok(v) => WriteStep::Done(v),
        Err(f) => if retries_left > 0 {
            WriteStep::RetryAfterSeconds(RETRY_DELAY_SECS)
        } else {
            WriteStep::Failed(DbError::RetryLimitReached(f))
        },
    }
}

impl WriteRetry {
    /// A budget of `max_retries` retries, or of the default when none is given.
    pub fn new(max_retries: Option<u32>) -> (r: Self)
        ensures
            r.retries_left == match max_retries {
                Some(n) => n,
                None => DEFAULT_RETRIES,
            },
    {
        match max_retries {
            Some(n) => WriteRetry { retries_left: n },
            None => WriteRetry { retries_left: DEFAULT_RETRIES },
        }
    }

    /// Decides on the outcome of one attempt. Any failure is retried, after a
    /// fixed delay, while retries are left; each retry uses one up.
    pub fn on_outcome<R>(&mut self, outcome: Result<R, StoreFailure>) -> (r: WriteStep<R>)
        ensures
            r == next_step(old(self).retries_left, outcome),
            final(self).retries_left == if outcome is Err && old(self).retries_left > 0 {
                (old(self).retries_left - 1) as u32
            } else {
                old(self).retries_left
            },
    {
        match outcome {
            Ok(v) => WriteStep::Done(v),
            Err(f) => {
                if self.retries_left > 0 {
                    self.retries_left = self.retries_left - 1;
                    WriteStep::RetryAfterSeconds(RETRY_DELAY_SECS)
                } else {
                    WriteStep::Failed(DbError::RetryLimitReached(f))
                }
            },
        }
    }
}

/// The budget after a run of failed attempts: retries are used up one per
/// failure, down to none.
pub open spec fn retries_after_failures(retries: u32, failures: nat) -> u32 {
    if failures >= retries {
        0
    } else {
        (retries - failures) as u32
    }
}

/// A write that keeps failing is given up at its `retries + 1`-th attempt and
/// not before: every earlier failure asks for a retry.
pub proof fn lemma_write_attempts_bounded(retries: u32, failures: nat, f: StoreFailure)
    ensures
        failures < retries ==> next_step::<()>(retries_after_failures(retries, failures), Err(f))
            == WriteStep::<()>::RetryAfterSeconds(RETRY_DELAY_SECS),
        failures >= retries ==> next_step::<()>(retries_after_failures(retries, failures), Err(f))
            == WriteStep::<()>::Failed(DbError::RetryLimitReached(f)),
{
}

/// An attempt that the store refuses for a stale CAS token never counts as
/// done: it is retried while retries are left, and then surfaces as that
/// same CAS-mismatch failure.
pub proof fn lemma_cas_conflict_fails(retries_left: u32, f: StoreFailure)
    requires
        f.kind == FailureKind::CasMismatch,
    ensures
        !(next_step::<()>(retries_left, Err(f)) is Done),
        retries_left == 0 ==> next_step::<()>(retries_left, Err(f)) == WriteStep::<()>::Failed(
            DbError::RetryLimitReached(f),
        ),
{
}

/// The outcome of one attempt at inserting a new document: `true` once the
/// insert went through.
pub fn add_document(retry: &mut WriteRetry, outcome: Result<(), StoreFailure>) -> (r: WriteStep<bool>)
    ensures
        r == match next_step(old(retry).retries_left, outcome) {
            WriteStep::Done(_) => WriteStep::Done(true),
            WriteStep::RetryAfterSeconds(s) => WriteStep::RetryAfterSeconds(s),
            WriteStep::Failed(e) => WriteStep::Failed(e),
        },
        final(retry).retries_left == if outcome is Err && old(retry).retries_left > 0 {
            (old(retry).retries_left - 1) as u32
        } else {
            old(retry).retries_left
        },
{
    match retry.on_outcome(outcome) {
        WriteStep::Done(_) => WriteStep::Done(true),
        WriteStep::RetryAfterSeconds(s) => WriteStep::RetryAfterSeconds(s),
        WriteStep::Failed(e) => WriteStep::Failed(e),
    }
}

pub open spec fn updated_message(key: Seq<char>, bucket: Seq<char>) -> Seq<char> {
    "Data successfully updated to couchbase for key: "@ + key + " in bucket : "@ + bucket
}

pub open spec fn deleted_message(key: Seq<char>, bucket: Seq<char>) -> Seq<char> {
    "Data successfully deleted from couchbase for key: "@ + key + " in bucket : "@ + bucket
}

fn key_bucket_message(lead: &str, key: &String, bucket: &String) -> (r: String)
    ensures
        r@ == lead@ + key@ + " in bucket : "@ + bucket@,
{
    let mut s = String::from_str(lead);
    s.append(key.as_str());
    s.append(" in bucket : ");
    s.append(bucket.as_str());
    s
}

/// The outcome of one attempt at overwriting `key` in `bucket` (conditioned on
/// a CAS token or not, as the caller chose): a confirmation naming the key and
/// the bucket once it went through.
pub fn replace_document(
    retry: &mut WriteRetry,
    key: &String,
    bucket: &String,
    outcome: Result<(), StoreFailure>,
) -> (r: WriteStep<String>)
    ensures
        match next_step(old(retry).retries_left, outcome) {
            WriteStep::Done(_) => r matches WriteStep::Done(m) && m@ == updated_message(key@, bucket@),
            WriteStep::RetryAfterSeconds(s) => r == WriteStep::<String>::RetryAfterSeconds(s),
            WriteStep::Failed(e) => r == WriteStep::<String>::Failed(e),
        },
        final(retry).retries_left == if outcome is Err && old(retry).retries_left > 0 {
            (old(retry).retries_left - 1) as u32
        } else {
            old(retry).retries_left
        },
{
    match retry.on_outcome(outcome) {
        WriteStep::Done(_) => WriteStep::Done(
            key_bucket_message("Data successfully updated to couchbase for key: ", key, bucket),
        ),
        WriteStep::RetryAfterSeconds(s) => WriteStep::RetryAfterSeconds(s),
        WriteStep::Failed(e) => WriteStep::Failed(e),
    }
}

/// The result of deleting `key` from `bucket`, from the one attempt made: a
/// confirmation naming both, or the store's failure unchanged.
pub fn delete_data(key: &String, bucket: &String, outcome: Result<(), StoreFailure>) -> (r: Result<
    String,
    DbError,
>)
    ensures
        match outcome {
            Ok(_) => r matches Ok(m) && m@ == deleted_message(key@, bucket@),
            Err(f) => r == Err::<String, DbError>(DbError::Store(f)),
        },
{
    match outcome {
        Ok(_) => Ok(
            key_bucket_message("Data successfully deleted from couchbase for key: ", key, bucket),
        ),
        Err(f) => Err(DbError::Store(f)),
    }
}

} // verus!
