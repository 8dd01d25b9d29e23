//! A run from start to end: the order of its stages, and the counters that
//! decoding fills.

use vstd::prelude::*;

use crate::db::{Credentials, CredentialsView};
use crate::json::{
    file_counts, file_tweets, lemma_file_counts, parse_file, FileOutcome, Tweet, TweetView,
};
use crate::stats::{lemma_sum_prefix_le, sum_counts, Counts, IngestStatistics};
use crate::writer::Writer;

verus! {

/// The stage that a run is in.
#[derive(Clone, Copy, Debug, PartialEq, Eq, Structural)]
pub enum RunPhase {
    /// The store's uniqueness constraints are being set up.
    Preparing,
    /// The archive files are being decoded.
    Decoding,
    /// The batches of all decoded posts are being written.
    Writing,
    /// Posts are being linked to the posts they reply to.
    LinkingReplies,
    /// Posts are being linked to the authors they mention.
    LinkingMentions,
    /// The run has ended well.
    Done,
    /// The store could not be reached when the run began.
    Aborted,
}

/// What a run is to do next.
#[derive(Clone, Copy, Debug, PartialEq, Eq, Structural)]
pub enum RunAction {
    PrepareDatabase,
    DecodeFiles,
    /// Plan the batches over all decoded posts, write them, and wait until
    /// each of them has reached a terminal state.
    WriteBatches,
    AddRepliesToRelation,
    AddUserMentionRelation,
    /// End the process with this status.
    Exit { status: u8 },
}

impl RunPhase {
    /// What the stage asks for.
    pub open spec fn action(self) -> RunAction {
        match self {
            RunPhase::Preparing => RunAction::PrepareDatabase,
            RunPhase::Decoding => RunAction::DecodeFiles,
            RunPhase::Writing => RunAction::WriteBatches,
            RunPhase::LinkingReplies => RunAction::AddRepliesToRelation,
            RunPhase::LinkingMentions => RunAction::AddUserMentionRelation,
            RunPhase::Done => RunAction::Exit { status: 0 },
            RunPhase::Aborted => RunAction::Exit { status: 1 },
        }
    }

    /// The stage after the store was or was not reached.
    pub open spec fn after_prepare(self, reachable: bool) -> RunPhase {
        if self == RunPhase::Preparing {
            if reachable {
                RunPhase::Decoding
            } else {
                RunPhase::Aborted
            }
        } else {
            self
        }
    }

    /// The stage after the writes were scheduled, given whether every batch
    /// has reached a terminal state: linking begins only then.
    pub open spec fn after_writes(self, complete: bool) -> RunPhase {
        if self == RunPhase::Writing && complete {
            RunPhase::LinkingReplies
        } else {
            self
        }
    }

    /// The stage after a linking step has ended.
    pub open spec fn after_link(self) -> RunPhase {
        match self {
            RunPhase::LinkingReplies => RunPhase::LinkingMentions,
            RunPhase::LinkingMentions => RunPhase::Done,
            _ => self,
        }
    }
}

/// The state of a run.
pub ghost struct AppView {
    pub credentials: CredentialsView,
    pub statistics: Counts,
    /// How many files were left out because they could not be read.
    pub skipped_files: nat,
    pub phase: RunPhase,
}

impl AppView {
    /// The run after it decoded `files`: the counters are the sums over
    /// the files, where every sum fits its counter; nothing has changed
    /// where one does not.
    pub open spec fn after_parse(self, files: Seq<Seq<Seq<char>>>) -> AppView {
        if sum_counts(counts_of_files(files)).fits() {
            AppView { statistics: sum_counts(counts_of_files(files)), ..self }
        } else {
            self
        }
    }
}

/// A run: the credentials it uses, the counters it has filled and the stage
/// it is in.
#[derive(Debug, Clone)]
pub struct App {
    credentials: Credentials,
    statistics: IngestStatistics,
    skipped_files: usize,
    phase: RunPhase,
}

impl View for App {
    type V = AppView;

    closed spec fn view(&self) -> AppView {
        AppView {
            credentials: self.credentials@,
            statistics: self.statistics@,
            skipped_files: self.skipped_files as nat,
            phase: self.phase,
        }
    }
}

/// The counts of each of `files`.
pub open spec fn counts_of_files(files: Seq<Seq<Seq<char>>>) -> Seq<Counts> {
    Seq::new(files.len(), |i: int| file_counts(files[i]))
}

/// The posts of each of `files`.
pub open spec fn tweets_of_files(files: Seq<Seq<Seq<char>>>) -> Seq<Seq<TweetView>> {
    Seq::new(files.len(), |i: int| file_tweets(files[i]))
}

/// What one file adds to the counts: what its decoding counted, and
/// nothing for a file that could not be read.
pub open spec fn counts_of_outcome(outcome: FileOutcome) -> Counts {
    match outcome {
        FileOutcome::Parsed(parsed) => parsed.counts@,
        FileOutcome::Unreadable => Counts::zero(),
    }
}

/// What each of `results` adds to the counts.
pub open spec fn counts_of_results(results: Seq<FileOutcome>) -> Seq<Counts> {
    Seq::new(results.len(), |i: int| counts_of_outcome(results[i]))
}

/// How many of `results` are files that were read.
pub open spec fn count_parsed(results: Seq<FileOutcome>) -> nat
    decreases results.len(),
{
    if results.len() == 0 {
        0
    } else {
        count_parsed(results.drop_last()) + if results.last() is Parsed {
            1nat
        } else {
            0nat
        }
    }
}

/// The lines of all `files`, one file after the other.
pub open spec fn all_lines(files: Seq<Seq<Seq<char>>>) -> Seq<Seq<char>>
    decreases files.len(),
{
    if files.len() == 0 {
        Seq::empty()
    } else {
        all_lines(files.drop_last()) + files.last()
    }
}

/// Adding up the counts of the files gives what one pass over all their
/// lines, file after file, would count.
pub proof fn lemma_totals_match_sequential_scan(files: Seq<Seq<Seq<char>>>)
    ensures
        sum_counts(counts_of_files(files)) == file_counts(all_lines(files)),
    decreases files.len(),
{
    if files.len() > 0 {
        lemma_totals_match_sequential_scan(files.drop_last());
        assert(counts_of_files(files).drop_last() =~= counts_of_files(files.drop_last()));
        crate::json::lemma_file_counts_concat(all_lines(files.drop_last()), files.last());
    }
}

/// Files in another order have the same counts in another order.
pub proof fn lemma_counts_any_order(a: Seq<Seq<Seq<char>>>, b: Seq<Seq<Seq<char>>>)
    requires
        a.to_multiset() == b.to_multiset(),
    ensures
        counts_of_files(a).to_multiset() == counts_of_files(b).to_multiset(),
    decreases a.len(),
{
    a.to_multiset_ensures();
    b.to_multiset_ensures();
    let ca = counts_of_files(a);
    let cb = counts_of_files(b);
    if a.len() == 0 {
        assert(b.len() == 0);
        assert(ca =~= cb);
    } else {
        let x = a.last();
        assert(a.contains(x));
        assert(b.to_multiset().count(x) > 0);
        assert(b.contains(x));
        let index = choose|i: int| 0 <= i < b.len() && b[i] == x;
        assert(a.remove(a.len() - 1) =~= a.drop_last());
        assert(a.drop_last().to_multiset() == b.remove(index).to_multiset());
        lemma_counts_any_order(a.drop_last(), b.remove(index));
        assert(ca =~= counts_of_files(a.drop_last()).push(file_counts(x)));
        assert(cb.remove(index) =~= counts_of_files(b.remove(index)));
        counts_of_files(a.drop_last()).to_multiset_ensures();
        cb.to_multiset_ensures();
        assert(cb.to_multiset() =~= cb.remove(index).to_multiset().insert(file_counts(x)));
    }
}

/// The totals do not depend on the order of the files: two runs over the
/// same files, each as often, count the same.
pub proof fn lemma_totals_any_order(a: Seq<Seq<Seq<char>>>, b: Seq<Seq<Seq<char>>>)
    requires
        a.to_multiset() == b.to_multiset(),
    ensures
        sum_counts(counts_of_files(a)) == sum_counts(counts_of_files(b)),
{
    lemma_counts_any_order(a, b);
    crate::stats::lemma_sum_any_order(counts_of_files(a), counts_of_files(b));
}

/// Two runs that decode the same files, each as often, in any order end
/// with the same counters. Where a sum does not fit its counter both keep
/// the counters they had, so the runs must then have begun with the same.
pub proof fn lemma_parse_any_order(
    first: AppView,
    second: AppView,
    a: Seq<Seq<Seq<char>>>,
    b: Seq<Seq<Seq<char>>>,
)
    requires
        a.to_multiset() == b.to_multiset(),
        sum_counts(counts_of_files(a)).fits() || first.statistics == second.statistics,
    ensures
        first.after_parse(a).statistics == second.after_parse(b).statistics,
{
    lemma_totals_any_order(a, b);
}

impl App {
    /// A run that is about to begin.
    pub fn new(credentials: Credentials) -> (r: App)
        ensures
            r@ == (AppView {
                credentials: credentials@,
                statistics: Counts::zero(),
                skipped_files: 0,
                phase: RunPhase::Preparing,
            }),
    {
        App {
            credentials,
            statistics: IngestStatistics::new(),
            skipped_files: 0,
            phase: RunPhase::Preparing,
        }
    }

    pub fn credentials(&self) -> (r: &Credentials)
        ensures
            r@ == self@.credentials,
    {
        &self.credentials
    }

    pub fn statistics(&self) -> (r: IngestStatistics)
        ensures
            r@ == self@.statistics,
    {
        self.statistics
    }

    /// How many lines were seen.
    pub fn tweet_count(&self) -> (r: u64)
        ensures
            r == self@.statistics.total,
    {
        self.statistics.total
    }

    /// How many lines were deletions.
    pub fn deleted_tweet_count(&self) -> (r: u64)
        ensures
            r == self@.statistics.deleted,
    {
        self.statistics.deleted
    }

    /// How many posts were re-shares.
    pub fn retweet_count(&self) -> (r: u64)
        ensures
            r == self@.statistics.retweets,
    {
        self.statistics.retweets
    }

    /// How many files were left out because they could not be read.
    pub fn skipped_files(&self) -> (r: usize)
        ensures
            r == self@.skipped_files,
    {
        self.skipped_files
    }

    pub fn phase(&self) -> (r: RunPhase)
        ensures
            r == self@.phase,
    {
        self.phase
    }

    /// What the run is to do next.
    pub fn next_action(&self) -> (r: RunAction)
        ensures
            r == self@.phase.action(),
    {
        match self.phase {
            RunPhase::Preparing => RunAction::PrepareDatabase,
            RunPhase::Decoding => RunAction::DecodeFiles,
            RunPhase::Writing => RunAction::WriteBatches,
            RunPhase::LinkingReplies => RunAction::AddRepliesToRelation,
            RunPhase::LinkingMentions => RunAction::AddUserMentionRelation,
            RunPhase::Done => RunAction::Exit { status: 0 },
            RunPhase::Aborted => RunAction::Exit { status: 1 },
        }
    }

    /// Takes in whether the store could be reached and prepared. A run
    /// whose store is unreachable ends at once, with a status other than 0.
    pub fn database_prepared(&mut self, reachable: bool) -> (action: RunAction)
        ensures
            final(self)@ == (AppView { phase: old(self)@.phase.after_prepare(reachable), ..old(self)@ }),
            action == final(self)@.phase.action(),
    {
        if let RunPhase::Preparing = self.phase {
            if reachable {
                self.phase = RunPhase::Decoding;
            } else {
                self.phase = RunPhase::Aborted;
            }
        }
        self.next_action()
    }

    /// Decodes every file, one after the other, sets the counters to the
    /// sums over all files and hands back each file's posts, in the order
    /// of the files. The stage of the run stays as it is. `None`, and
    /// nothing changed, where a sum does not fit its counter.
    pub fn parse_files(&mut self, files: &Vec<Vec<String>>) -> (r: Option<Vec<Vec<Tweet>>>)
        ensures
            r.is_some() == sum_counts(counts_of_files(files.deep_view())).fits(),
            final(self)@ == old(self)@.after_parse(files.deep_view()),
            r matches Some(tweets) ==> {
                &&& tweets.deep_view() == tweets_of_files(files.deep_view())
                &&& final(self)@.statistics.balanced()
            },
    {
        let ghost all = files.deep_view();
        let ghost parts = counts_of_files(all);
        let mut total = IngestStatistics::new();
        let mut tweets: Vec<Vec<Tweet>> = Vec::new();
        let mut i: usize = 0;
        proof {
            assert(parts.take(0) =~= Seq::<Counts>::empty());
        }
        while i < files.len()
            invariant
                0 <= i <= files.len(),
                all == files.deep_view(),
                parts == counts_of_files(all),
                tweets.len() == i,
                forall|k: int|
                    0 <= k < i ==> (#[trigger] tweets[k]).deep_view() == file_tweets(all[k]),
                total@ == sum_counts(parts.take(i as int)),
                self@ == old(self)@,
            decreases files.len() - i,
        {
            let parsed = parse_file(&files[i]);
            proof {
                assert(parts.take(i + 1).drop_last() =~= parts.take(i as int));
                assert(parts.take(i + 1).last() == parsed.counts@);
                assert(files[i as int].deep_view() == all[i as int]);
            }
            match total.merge(&parsed.counts) {
                Some(sum) => {
                    total = sum;
                },
                None => {
                    proof {
                        lemma_sum_prefix_le(parts, i + 1);
                    }
                    return None;
                },
            }
            tweets.push(parsed.tweets);
            i += 1;
        }
        proof {
            assert(parts.take(files.len() as int) =~= parts);
            assert(tweets.deep_view() =~= tweets_of_files(all));
            assert forall|k: int| 0 <= k < parts.len() implies (#[trigger] parts[k]).balanced() by {
                lemma_file_counts(all[k]);
            }
            crate::stats::lemma_sum_balanced(parts);
        }
        self.statistics = total;
        Some(tweets)
    }

    /// Takes in what became of each file, decoded elsewhere and in any
    /// order, and fills the counters with the sums over the files that were
    /// read. A file that could not be read is left out and counted as
    /// skipped; it does not stop the run. Writing follows. `false`, and
    /// nothing changed, where the run is not at decoding or a sum does not
    /// fit its counter.
    pub fn record_results(&mut self, results: &Vec<FileOutcome>) -> (r: bool)
        ensures
            r == (old(self)@.phase == RunPhase::Decoding && sum_counts(
                counts_of_results(results@),
            ).fits()),
            r ==> final(self)@ == (AppView {
                statistics: sum_counts(counts_of_results(results@)),
                skipped_files: (results.len() - count_parsed(results@)) as nat,
                phase: RunPhase::Writing,
                ..old(self)@
            }),
            !r ==> final(self)@ == old(self)@,
    {
        match self.phase {
            RunPhase::Decoding => {},
            _ => {
                return false;
            },
        }
        let ghost parts = counts_of_results(results@);
        let mut total = IngestStatistics::new();
        let mut parsed: usize = 0;
        let mut i: usize = 0;
        proof {
            assert(parts.take(0) =~= Seq::<Counts>::empty());
            assert(results@.take(0) =~= Seq::<FileOutcome>::empty());
        }
        while i < results.len()
            invariant
                0 <= i <= results.len(),
                parts == counts_of_results(results@),
                total@ == sum_counts(parts.take(i as int)),
                parsed == count_parsed(results@.take(i as int)),
                parsed <= i,
                self@ == old(self)@,
            decreases results.len() - i,
        {
            proof {
                assert(parts.take(i + 1).drop_last() =~= parts.take(i as int));
                assert(parts.take(i + 1).last() == counts_of_outcome(results[i as int]));
                assert(results@.take(i + 1).drop_last() =~= results@.take(i as int));
                assert(results@.take(i + 1).last() == results[i as int]);
            }
            match &results[i] {
                FileOutcome::Parsed(file) => {
                    match total.merge(&file.counts) {
                        Some(sum) => {
                            total = sum;
                        },
                        None => {
                            proof {
                                lemma_sum_prefix_le(parts, i + 1);
                            }
                            return false;
                        },
                    }
                    parsed = parsed + 1;
                },
                FileOutcome::Unreadable => {},
            }
            i += 1;
        }
        proof {
            assert(parts.take(results.len() as int) =~= parts);
            assert(results@.take(results.len() as int) =~= results@);
        }
        self.statistics = total;
        self.skipped_files = results.len() - parsed;
        self.phase = RunPhase::Writing;
        true
    }

    /// Takes in the schedule of the run's batches. The run moves on to
    /// linking only if every batch of the schedule has reached a terminal
    /// state. Whatever became of the writes, the counters stay as decoding
    /// left them.
    pub fn writes_finished(&mut self, writer: &Writer) -> (action: RunAction)
        requires
            writer.wf(),
        ensures
            final(self)@ == (AppView {
                phase: old(self)@.phase.after_writes(writer@.is_complete()),
                ..old(self)@
            }),
            final(self)@.statistics == old(self)@.statistics,
            action == final(self)@.phase.action(),
    {
        if let RunPhase::Writing = self.phase {
            if writer.is_complete() {
                self.phase = RunPhase::LinkingReplies;
            }
        }
        self.next_action()
    }

    /// Takes in that the current linking step has ended.
    pub fn relation_added(&mut self) -> (action: RunAction)
        ensures
            final(self)@ == (AppView { phase: old(self)@.phase.after_link(), ..old(self)@ }),
            action == final(self)@.phase.action(),
    {
        match self.phase {
            RunPhase::LinkingReplies => {
                self.phase = RunPhase::LinkingMentions;
            },
            RunPhase::LinkingMentions => {
                self.phase = RunPhase::Done;
            },
            _ => {},
        }
        self.next_action()
    }
}

} // verus!
