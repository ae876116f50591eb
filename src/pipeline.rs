use crate::process::{document_matches, Match};
use crate::rule::{compiled_texts, texts_of, CompiledRule, Rule};
use vstd::prelude::*;

verus! {

/// A message on the report channel: the matches of one file, or the end-marker
/// of one worker.
pub enum Report {
    Matches(Vec<Match>),
    End,
}

/// The count of end-markers the aggregator holds after one more message, out of
/// `workers` that it waits for. Once all have arrived it takes no more.
pub open spec fn ended_after_one(workers: nat, ended: nat, is_end: bool) -> nat {
    if ended < workers && is_end {
        ended + 1
    } else {
        ended
    }
}

/// The count of end-markers the aggregator holds after a run of messages, each
/// given as whether it is an end-marker.
pub open spec fn ended_after(workers: nat, msgs: Seq<bool>) -> nat
    decreases msgs.len(),
{
    if msgs.len() == 0 {
        0
    } else {
        ended_after_one(workers, ended_after(workers, msgs.drop_last()), msgs.last())
    }
}

/// How many of the messages are end-markers.
pub open spec fn end_count(msgs: Seq<bool>) -> nat
    decreases msgs.len(),
{
    if msgs.len() == 0 {
        0
    } else {
        end_count(msgs.drop_last()) + if msgs.last() {
            1nat
        } else {
            0nat
        }
    }
}

/// The report aggregator: it waits for one end-marker per worker.
pub struct Aggregator {
    pub workers: usize,
    pub ended: usize,
}

impl Aggregator {
    pub open spec fn done(&self) -> bool {
        self.ended >= self.workers
    }

    /// An aggregator waiting for `workers` end-markers.
    pub fn new(workers: usize) -> (r: Aggregator)
        ensures
            r.workers == workers,
            r.ended == 0,
    {
        Aggregator { workers, ended: 0 }
    }

    /// Takes one report. Returns the matches to print, in arrival order (none for
    /// an end-marker), and whether the aggregator is now done.
    pub fn receive(&mut self, report: Report) -> (r: (Vec<Match>, bool))
        requires
            old(self).ended <= old(self).workers,
        ensures
            final(self).workers == old(self).workers,
            final(self).ended <= final(self).workers,
            final(self).ended == ended_after_one(
                old(self).workers as nat,
                old(self).ended as nat,
                report is End,
            ),
            r.1 == final(self).done(),
            report matches Report::Matches(v) ==> r.0@ == v@,
            report is End ==> r.0@.len() == 0,
    {
        match report {
            Report::Matches(v) => {
                let done = self.ended >= self.workers;
                (v, done)
            },
            Report::End => {
                if self.ended < self.workers {
                    self.ended = self.ended + 1;
                }
                let done = self.ended >= self.workers;
                (Vec::new(), done)
            },
        }
    }
}

/// The aggregator holds as many end-markers as have arrived, up to the number of
/// workers: it is done exactly once every worker's end-marker has arrived, however
/// many lists of matches came before or between them.
pub proof fn lemma_done_after_every_end_marker(workers: nat, msgs: Seq<bool>)
    ensures
        ended_after(workers, msgs) == if end_count(msgs) < workers {
            end_count(msgs)
        } else {
            workers
        },
        ended_after(workers, msgs) >= workers <==> end_count(msgs) >= workers,
    decreases msgs.len(),
{
    if msgs.len() > 0 {
        lemma_done_after_every_end_marker(workers, msgs.drop_last());
    }
}

/// The aggregator first becomes done on the message that brings the count of
/// end-markers to exactly the number of workers.
pub proof fn lemma_done_on_last_end_marker(workers: nat, msgs: Seq<bool>)
    requires
        msgs.len() > 0,
        ended_after(workers, msgs.drop_last()) < workers,
        ended_after(workers, msgs) >= workers,
    ensures
        end_count(msgs) == workers,
        msgs.last(),
{
    lemma_done_after_every_end_marker(workers, msgs);
    lemma_done_after_every_end_marker(workers, msgs.drop_last());
}

/// What the directory watcher does after one poll.
pub enum PollAction {
    PollAgain,
    Sleep(u64),
}

/// After a poll that found files the watcher polls again at once; after one that
/// found none it sleeps for exactly the period.
pub fn after_poll(found_any: bool, period: u64) -> (r: PollAction)
    ensures
        found_any ==> r is PollAgain,
        !found_any ==> r == PollAction::Sleep(period),
{
    if found_any {
        PollAction::PollAgain
    } else {
        PollAction::Sleep(period)
    }
}

/// Two rule sets compiled from the same rules yield the same matches on every
/// document.
pub proof fn lemma_compiling_twice_agrees(
    rules: Seq<Rule>,
    first: Seq<CompiledRule>,
    second: Seq<CompiledRule>,
    headers: Seq<Seq<char>>,
    records: Seq<Seq<Seq<char>>>,
)
    requires
        compiled_texts(first) == texts_of(rules),
        compiled_texts(second) == texts_of(rules),
    ensures
        document_matches(headers, records, compiled_texts(first)) == document_matches(
            headers,
            records,
            compiled_texts(second),
        ),
{
}

/// Queues the tasks of a finite run, each named by its file's path: every task in
/// order, then one end-marker per worker, so that each worker stops after exactly one.
pub fn task_queue(tasks: &Vec<String>, workers: usize) -> (r: Vec<Option<String>>)
    requires
        tasks@.len() + workers <= usize::MAX,
    ensures
        r@.len() == tasks@.len() + workers,
        forall|i: int|
            0 <= i < tasks@.len() ==> ((#[trigger] r@[i]) matches Some(s) && s@ == tasks@[i]@),
        forall|i: int| tasks@.len() <= i < r@.len() ==> (#[trigger] r@[i]) is None,
{
    let mut r: Vec<Option<String>> = Vec::new();
    let mut i: usize = 0;
    while i < tasks.len() + workers
        invariant
            i <= tasks@.len() + workers,
            tasks@.len() + workers <= usize::MAX,
            r@.len() == i,
            forall|j: int|
                0 <= j < i && j < tasks@.len() ==> ((#[trigger] r@[j]) matches Some(s) && s@
                    == tasks@[j]@),
            forall|j: int| tasks@.len() <= j < i ==> (#[trigger] r@[j]) is None,
        decreases tasks@.len() + workers - i,
    {
        if i < tasks.len() {
            r.push(Some(tasks[i].clone()));
        } else {
            r.push(None);
        }
        i = i + 1;
    }
    r
}

/// What a worker does once it has processed one file.
pub struct AfterFile {
    /// The matches to send to the aggregator, even when there are none.
    pub report: Option<Vec<Match>>,
    /// Whether to delete the file.
    pub delete: bool,
}

/// A processed file's matches are reported, and in watch mode the file is then
/// deleted; a file that could not be processed is neither reported nor deleted.
pub fn after_file(outcome: Result<Vec<Match>, String>, watching: bool) -> (r: AfterFile)
    ensures
        outcome matches Ok(v) ==> r.report matches Some(w) && w@ == v@,
        outcome is Err ==> r.report is None,
        r.delete == (outcome is Ok && watching),
{
    match outcome {
        Ok(v) => AfterFile { report: Some(v), delete: watching },
        Err(_) => AfterFile { report: None, delete: false },
    }
}

/// Whether some entry of `v` has the text `s`.
pub open spec fn listed_in(v: Seq<String>, s: Seq<char>) -> bool {
    exists|j: int| 0 <= j < v.len() && (#[trigger] v[j])@ == s
}

fn is_listed(v: &Vec<String>, s: &String) -> (r: bool)
    ensures
        r == listed_in(v@, s@),
{
    let mut i: usize = 0;
    while i < v.len()
        invariant
            i <= v@.len(),
            forall|j: int| 0 <= j < i ==> (#[trigger] v@[j])@ != s@,
        decreases v@.len() - i,
    {
        if v[i] == *s {
            return true;
        }
        i = i + 1;
    }
    false
}

/// The entries of a directory listing that are not yet claimed, in listing order:
/// the watcher sends each file once, however many polls list it.
pub fn unclaimed(listed: &Vec<String>, claimed: &Vec<String>) -> (r: Vec<String>)
    ensures
        forall|i: int|
            0 <= i < r@.len() ==> listed_in(listed@, (#[trigger] r@[i])@) && !listed_in(
                claimed@,
                r@[i]@,
            ),
        forall|i: int|
            0 <= i < listed@.len() && !listed_in(claimed@, (#[trigger] listed@[i])@) ==> listed_in(
                r@,
                listed@[i]@,
            ),
{
    let mut r: Vec<String> = Vec::new();
    let mut i: usize = 0;
    while i < listed.len()
        invariant
            i <= listed@.len(),
            forall|k: int|
                0 <= k < r@.len() ==> listed_in(listed@, (#[trigger] r@[k])@) && !listed_in(
                    claimed@,
                    r@[k]@,
                ),
            forall|k: int|
                0 <= k < i && !listed_in(claimed@, (#[trigger] listed@[k])@) ==> listed_in(
                    r@,
                    listed@[k]@,
                ),
        decreases listed@.len() - i,
    {
        if !is_listed(claimed, &listed[i]) {
            let ghost prev = r@;
            r.push(listed[i].clone());
            proof {
                assert(r@ == prev.push(r@.last()));
                assert(r@[prev.len() as int]@ == listed@[i as int]@);
                assert(listed_in(listed@, listed@[i as int]@));
                assert forall|k: int|
                    0 <= k < i + 1 && !listed_in(claimed@, (#[trigger] listed@[k])@) implies listed_in(
                    r@,
                    listed@[k]@,
                ) by {
                    if k < i {
                        let j = choose|j: int| 0 <= j < prev.len() && (#[trigger] prev[j])@ == listed@[k]@;
                        assert(r@[j] == prev[j]);
                    }
                }
                assert forall|k: int| 0 <= k < r@.len() implies listed_in(listed@, (#[trigger] r@[k])@)
                    && !listed_in(claimed@, r@[k]@) by {
                    if k < prev.len() {
                        assert(r@[k] == prev[k]);
                    }
                }
            }
        }
        i = i + 1;
    }
    r
}

} // verus!
