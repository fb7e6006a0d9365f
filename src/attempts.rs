use vstd::prelude::*;

use crate::backoff::{admits, elapsed_after, interval_at, lemma_admits_monotone, lemma_interval_bounds};
use crate::backoff::BackoffConfig;
use crate::classify::{transient, RemoteError};
use crate::upload::{accepts, DecodeError, initial, next, Event, Phase, Step, UploadError, UploadModel};

verus! {

/// How one attempt of an upload turns out: the submission fails, the wait
/// fails, or an answer comes back.
pub enum Attempt<T> {
    SubmitRefused(RemoteError),
    WaitRefused(RemoteError),
    Answered(Result<T, DecodeError>),
}

/// The state and step after one attempt, made from a state that asked for a
/// submission.
pub open spec fn after_attempt<T>(m: UploadModel, a: Attempt<T>) -> (UploadModel, Step<T>) {
    match a {
        Attempt::SubmitRefused(e) => next(m, Event::SubmitFailed(e)),
        Attempt::WaitRefused(e) => next(next::<T>(m, Event::Submitted).0, Event::WaitFailed(e)),
        Attempt::Answered(r) => next(next::<T>(m, Event::Submitted).0, Event::Answered(r)),
    }
}

/// The state and step reached by an upload whose attempts turn out as
/// `attempts` says, where every sleep it asks for is taken. Attempts that
/// come after the upload is over are not made.
pub open spec fn run<T>(m: UploadModel, attempts: Seq<Attempt<T>>) -> (UploadModel, Step<T>)
    decreases attempts.len(),
{
    if attempts.len() == 0 {
        (m, Step::Submit)
    } else {
        let (m1, s1) = after_attempt(m, attempts[0]);
        if s1 is Sleep {
            run(next::<T>(m1, Event::Slept).0, attempts.drop_first())
        } else {
            (m1, s1)
        }
    }
}

/// The failure an attempt met, if it met one.
pub open spec fn failure_of<T>(a: Attempt<T>) -> Option<RemoteError> {
    match a {
        Attempt::SubmitRefused(e) => Some(e),
        Attempt::WaitRefused(e) => Some(e),
        Attempt::Answered(_) => None,
    }
}

/// Whether an attempt met a failure that is safe to retry.
pub open spec fn transient_failure<T>(a: Attempt<T>) -> bool {
    failure_of(a) matches Some(e) && transient(e.kind)
}

/// The first `n` intervals of a backoff policy.
pub open spec fn intervals(cfg: BackoffConfig, n: nat) -> Seq<int> {
    Seq::new(n, |i: int| interval_at(cfg, i as nat))
}

/// The state that asks for the next submission after `k` retried failures.
pub open spec fn retrying(cfg: BackoffConfig, k: nat) -> UploadModel {
    UploadModel { config: cfg, phase: Phase::Submitting, submits: k + 1, sleeps: intervals(cfg, k) }
}

proof fn lemma_run_retries<T>(cfg: BackoffConfig, k: nat, attempts: Seq<Attempt<T>>, j: nat)
    requires
        cfg.wf(),
        j <= attempts.len(),
        forall|i: int| 0 <= i < j ==> transient_failure(#[trigger] attempts[i]),
        forall|i: nat| k <= i < k + j ==> #[trigger] admits(cfg, i),
    ensures
        run(retrying(cfg, k), attempts) == run(retrying(cfg, k + j), attempts.subrange(j as int, attempts.len() as int)),
    decreases j,
{
    assert(attempts.subrange(0, attempts.len() as int) =~= attempts);
    if j > 0 {
        let m = retrying(cfg, k);
        let a = attempts[0];
        assert(transient_failure(attempts[0]));
        assert(admits(cfg, k));
        assert(intervals(cfg, k).push(interval_at(cfg, k)) =~= intervals(cfg, k + 1));
        let rest = attempts.drop_first();
        assert(run(m, attempts) == run(retrying(cfg, k + 1), rest));
        assert forall|i: int| 0 <= i < j - 1 implies transient_failure(#[trigger] rest[i]) by {
            assert(rest[i] == attempts[i + 1]);
        }
        lemma_run_retries(cfg, k + 1, rest, (j - 1) as nat);
        assert(rest.subrange(j - 1, rest.len() as int) =~= attempts.subrange(j as int, attempts.len() as int));
    }
}

/// Transient failures followed by an answer: while the backoff policy lasts,
/// every attempt is one submission and one wait, the sleeps follow the
/// policy's intervals, and the upload ends with what the answer decoded to,
/// whatever attempts would have come after it.
pub proof fn lemma_transient_then_answer<T>(
    cfg: BackoffConfig,
    attempts: Seq<Attempt<T>>,
    n: nat,
    r: Result<T, DecodeError>,
)
    requires
        cfg.wf(),
        n < attempts.len(),
        forall|i: int| 0 <= i < n ==> transient_failure(#[trigger] attempts[i]),
        attempts[n as int] == Attempt::Answered(r),
        n > 0 ==> admits(cfg, (n - 1) as nat),
    ensures
        run(initial(cfg), attempts) == run(initial(cfg), attempts.take(n + 1 as int)),
        run(initial(cfg), attempts).0.submits == n + 1,
        run(initial(cfg), attempts).0.sleeps == intervals(cfg, n),
        run(initial(cfg), attempts).1 == match r {
            Ok(id) => Step::Done(Ok(id)),
            Err(d) => Step::<T>::Done(Err(UploadError::Decode(d))),
        },
{
    assert forall|i: nat| 0 <= i < 0 + n implies #[trigger] admits(cfg, i) by {
        lemma_admits_monotone(cfg, i, (n - 1) as nat);
    }
    assert(intervals(cfg, 0) =~= Seq::<int>::empty());
    assert(retrying(cfg, 0) == initial(cfg));
    lemma_run_retries(cfg, 0, attempts, n);
    let short = attempts.take(n + 1 as int);
    assert forall|i: int| 0 <= i < n implies transient_failure(#[trigger] short[i]) by {
        assert(short[i] == attempts[i]);
    }
    lemma_run_retries(cfg, 0, short, n);
    let tail = attempts.subrange(n as int, attempts.len() as int);
    let short_tail = short.subrange(n as int, short.len() as int);
    assert(tail[0] == Attempt::Answered(r));
    assert(short_tail[0] == Attempt::Answered(r));
}

/// Transient failures until the backoff policy runs out: the upload ends
/// with the last of them after one submission per attempt, having slept the
/// policy's intervals and no more.
pub proof fn lemma_transient_until_exhausted<T>(cfg: BackoffConfig, attempts: Seq<Attempt<T>>, k: nat)
    requires
        cfg.wf(),
        k < attempts.len(),
        forall|i: int| 0 <= i <= k ==> transient_failure(#[trigger] attempts[i]),
        k > 0 ==> admits(cfg, (k - 1) as nat),
        !admits(cfg, k),
    ensures
        run(initial(cfg), attempts).0.submits == k + 1,
        run(initial(cfg), attempts).0.sleeps == intervals(cfg, k),
        run(initial(cfg), attempts).0.phase == Phase::Failed,
        run(initial(cfg), attempts).1 == Step::<T>::Done(
            Err(UploadError::Exhausted(failure_of(attempts[k as int]).unwrap())),
        ),
        cfg.max_elapsed_ms matches Some(m) ==> elapsed_after(cfg, k) <= m && elapsed_after(cfg, k + 1) > m,
{
    if k > 0 {
        lemma_interval_bounds(cfg, (k - 1) as nat);
    }
    assert forall|i: nat| 0 <= i < 0 + k implies #[trigger] admits(cfg, i) by {
        lemma_admits_monotone(cfg, i, (k - 1) as nat);
    }
    assert(intervals(cfg, 0) =~= Seq::<int>::empty());
    assert(retrying(cfg, 0) == initial(cfg));
    lemma_run_retries(cfg, 0, attempts, k);
    let tail = attempts.subrange(k as int, attempts.len() as int);
    assert(tail[0] == attempts[k as int]);
    assert(transient_failure(attempts[k as int]));
}

/// A fatal failure on the first attempt ends the upload at once: one
/// submission, no sleep, and the failure as it came.
pub proof fn lemma_fatal_first<T>(cfg: BackoffConfig, attempts: Seq<Attempt<T>>, e: RemoteError)
    requires
        cfg.wf(),
        attempts.len() > 0,
        failure_of(attempts[0]) == Some(e),
        !transient(e.kind),
    ensures
        run(initial(cfg), attempts).0.submits == 1,
        run(initial(cfg), attempts).0.sleeps.len() == 0,
        run(initial(cfg), attempts).0.phase == Phase::Failed,
        run(initial(cfg), attempts).1 == Step::<T>::Done(Err(UploadError::Fatal(e))),
{
}

/// A fatal failure ends the upload with that attempt, whatever transient
/// failures came before it: no sleep follows it, and the failure is returned
/// as it came.
pub proof fn lemma_transient_then_fatal<T>(cfg: BackoffConfig, attempts: Seq<Attempt<T>>, n: nat, e: RemoteError)
    requires
        cfg.wf(),
        n < attempts.len(),
        forall|i: int| 0 <= i < n ==> transient_failure(#[trigger] attempts[i]),
        n > 0 ==> admits(cfg, (n - 1) as nat),
        failure_of(attempts[n as int]) == Some(e),
        !transient(e.kind),
    ensures
        run(initial(cfg), attempts).0.submits == n + 1,
        run(initial(cfg), attempts).0.sleeps == intervals(cfg, n),
        run(initial(cfg), attempts).0.phase == Phase::Failed,
        run(initial(cfg), attempts).1 == Step::<T>::Done(Err(UploadError::Fatal(e))),
{
    assert forall|i: nat| 0 <= i < 0 + n implies #[trigger] admits(cfg, i) by {
        lemma_admits_monotone(cfg, i, (n - 1) as nat);
    }
    assert(intervals(cfg, 0) =~= Seq::<int>::empty());
    assert(retrying(cfg, 0) == initial(cfg));
    lemma_run_retries(cfg, 0, attempts, n);
    let tail = attempts.subrange(n as int, attempts.len() as int);
    assert(tail[0] == attempts[n as int]);
}

/// A fatal failure ends an upload for good: its final state takes no further
/// event, so nothing of it can reach a later upload, which starts from the
/// configuration alone.
pub proof fn lemma_fatal_leaves_nothing<T>(cfg: BackoffConfig, first: Seq<Attempt<T>>, e: RemoteError)
    requires
        cfg.wf(),
        run(initial(cfg), first).1 == Step::<T>::Done(Err(UploadError::Fatal(e))),
    ensures
        forall|ev: Event<T>| !accepts(#[trigger] run(initial(cfg), first).0, ev),
        run(initial(cfg), first).0.phase == Phase::Failed,
        initial(cfg).submits == 1,
        initial(cfg).sleeps.len() == 0,
{
    lemma_run_ends_failed(initial(cfg), first);
}

proof fn lemma_run_ends_failed<T>(m: UploadModel, attempts: Seq<Attempt<T>>)
    requires
        m.phase == Phase::Submitting,
        run(m, attempts).1 matches Step::Done(Err(_)),
    ensures
        run(m, attempts).0.phase == Phase::Failed,
    decreases attempts.len(),
{
    if attempts.len() > 0 {
        let (m1, s1) = after_attempt(m, attempts[0]);
        if s1 is Sleep {
            lemma_run_ends_failed(next::<T>(m1, Event::Slept).0, attempts.drop_first());
        }
    }
}

} // verus!
