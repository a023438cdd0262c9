//! The aggregation pipeline: one outcome for each configured feed,
//! whatever became of the others.

use vstd::prelude::*;
use crate::entry::{first_defect, Entry, EntryView};
use crate::extract::extraction;
use crate::html::page_fits;
use crate::extract::Fault;
use crate::feed::{failure, feed_of_body, Feed, FeedView, Record};

verus! {

/// What fetching a page gave, as a value: the body, or the reason why
/// there is none.
pub open spec fn fetched_view(fetched: Result<String, String>) -> Result<Seq<char>, Seq<char>> {
    match fetched {
        Ok(body) => Ok(body@),
        Err(message) => Err(message@),
    }
}

/// The outcome of one feed: that of its page where the fetch gave one, and
/// a failure with the fetch's own message where it gave none.
pub open spec fn outcome(
    entry: EntryView,
    fetched: Result<Seq<char>, Seq<char>>,
    limit: nat,
) -> FeedView {
    match fetched {
        Ok(body) => feed_of_body(body, limit, entry),
        Err(message) => failure(entry, message),
    }
}

/// One job: a feed and what fetching its page gave.
pub type Job = (EntryView, Result<Seq<char>, Seq<char>>);

/// The jobs of a list, each as a value.
pub open spec fn jobs_view(jobs: Seq<(Entry, Result<String, String>)>) -> Seq<Job> {
    Seq::new(jobs.len(), |i: int| (jobs[i].0@, fetched_view(jobs[i].1)))
}

/// The feeds of a list, each as a value.
pub open spec fn feeds_view(feeds: Seq<Feed>) -> Seq<FeedView> {
    Seq::new(feeds.len(), |i: int| feeds[i]@)
}

/// The outcomes of a list of jobs: one for each job, at the job's
/// position, decided by that job alone.
pub open spec fn outcomes(jobs: Seq<Job>, limit: nat) -> Seq<FeedView> {
    Seq::new(jobs.len(), |i: int| outcome(jobs[i].0, jobs[i].1, limit))
}

/// Every outcome carries the key and the label of its feed, and a failed
/// one carries no records.
pub proof fn lemma_outcome_belongs_to_feed(
    entry: EntryView,
    fetched: Result<Seq<char>, Seq<char>>,
    limit: nat,
)
    ensures
        outcome(entry, fetched, limit).key == entry.key,
        outcome(entry, fetched, limit).name == entry.name,
        outcome(entry, fetched, limit).consistent(),
{
}

/// A run gives exactly one outcome for each declared feed, under that
/// feed's key; where no two declared feeds share a key, no two outcomes
/// do.
pub proof fn lemma_one_outcome_per_feed(jobs: Seq<Job>, limit: nat)
    ensures
        outcomes(jobs, limit).len() == jobs.len(),
        forall|i: int|
            0 <= i < jobs.len() ==> (#[trigger] outcomes(jobs, limit)[i]).key == jobs[i].0.key,
        (forall|i: int, j: int|
            0 <= i < j < jobs.len() ==> (#[trigger] jobs[i]).0.key != (#[trigger] jobs[j]).0.key)
            ==> (forall|i: int, j: int|
            0 <= i < j < jobs.len() ==> (#[trigger] outcomes(jobs, limit)[i]).key
                != (#[trigger] outcomes(jobs, limit)[j]).key),
{
    assert forall|i: int| 0 <= i < jobs.len() implies (#[trigger] outcomes(jobs, limit)[i]).key
        == jobs[i].0.key by {
        lemma_outcome_belongs_to_feed(jobs[i].0, jobs[i].1, limit);
    }
}

/// What becomes of one feed's fetch changes no other feed's outcome: with
/// the fetch of the feed at `failed` replaced by a failure, every other
/// feed's outcome is what it was.
pub proof fn lemma_failure_is_isolated(
    jobs: Seq<Job>,
    limit: nat,
    failed: int,
    message: Seq<char>,
    other: int,
)
    requires
        0 <= failed < jobs.len(),
        0 <= other < jobs.len(),
        other != failed,
    ensures
        outcomes(jobs.update(failed, (jobs[failed].0, Err(message))), limit)[other] == outcomes(
            jobs,
            limit,
        )[other],
        outcomes(jobs.update(failed, (jobs[failed].0, Err(message))), limit)[failed] == failure(
            jobs[failed].0,
            message,
        ),
{
}

/// A feed whose page was fetched and fits the parser, and whose rules are
/// all acceptable, has its records and no error, whatever the other jobs
/// of the run are.
pub proof fn lemma_fetched_feed_succeeds(jobs: Seq<Job>, limit: nat, at: int)
    requires
        0 <= at < jobs.len(),
        jobs[at].1 matches Ok(body) && page_fits(body),
        first_defect(jobs[at].0) is None,
    ensures
        outcomes(jobs, limit)[at].error is None,
        Ok::<Seq<Record>, Fault>(outcomes(jobs, limit)[at].contents) == extraction(
            jobs[at].1->Ok_0,
            jobs[at].0,
            limit,
        ),
{
}

/// Turns what the fetch of one feed gave into that feed's outcome. A
/// failed fetch is reported with its message and the page is never looked
/// at.
pub fn settle(entry: Entry, fetched: Result<String, String>, limit: usize) -> (feed: Feed)
    ensures
        feed@ == outcome(entry@, fetched_view(fetched), limit as nat),
        feed@.consistent(),
{
    match fetched {
        Ok(body) => Feed::from(body, limit, entry),
        Err(message) => Feed::err(entry, message),
    }
}

/// Settles every job: one outcome for each feed, in the order of the
/// jobs, each decided by its own entry and its own fetch alone.
pub fn run(jobs: Vec<(Entry, Result<String, String>)>, limit: usize) -> (feeds: Vec<Feed>)
    ensures
        feeds@.len() == jobs@.len(),
        forall|i: int|
            0 <= i < jobs@.len() ==> (#[trigger] feeds@[i])@ == outcome(
                jobs@[i].0@,
                fetched_view(jobs@[i].1),
                limit as nat,
            ),
        feeds_view(feeds@) == outcomes(jobs_view(jobs@), limit as nat),
{
    let mut feeds: Vec<Feed> = Vec::new();
    for job in it: jobs
        invariant
            feeds@.len() == it.index(),
            it.seq() == jobs@,
            forall|i: int|
                0 <= i < feeds@.len() ==> (#[trigger] feeds@[i])@ == outcomes(
                    jobs_view(jobs@),
                    limit as nat,
                )[i],
    {
        let feed = settle(job.0, job.1, limit);
        feeds.push(feed);
    }
    assert(feeds_view(feeds@) =~= outcomes(jobs_view(jobs@), limit as nat));
    feeds
}

} // verus!
