use tweet_ingest::app::{App, RunAction, RunPhase};
use tweet_ingest::db::Credentials;
use tweet_ingest::json::{parse_file, FileOutcome, ParsedFile};
use tweet_ingest::retry::{RetryDecision, RetryPolicy, WriteEvent};
use tweet_ingest::stats::IngestStatistics;
use tweet_ingest::writer::{plan_writes, Writer};

fn counts(total: u64, deleted: u64, malformed: u64, decoded: u64, retweets: u64) -> IngestStatistics {
    IngestStatistics { total, deleted, malformed, decoded, retweets }
}

fn post_line(id: &str, extra: &str) -> String {
    format!(
        "{{\"created_at\":\"Thu May 23 14:54:46 +0000 2019\",\"id_str\":\"{}\",\"text\":\"hello\",\
         \"user\":{{\"id_str\":\"u1\",\"screen_name\":\"alice\",\"verified\":false,\
         \"followers_count\":1,\"friends_count\":1,\"favourites_count\":1,\"statuses_count\":1,\
         \"created_at\":\"Mon Jan 01 00:00:00 +0000 2018\"}},\"lang\":\"en\",\
         \"entities\":{{\"hashtags\":[],\"user_mentions\":[]}}{}}}",
        id, extra
    )
}

fn first_file() -> Vec<String> {
    vec![
        post_line("1", ""),
        post_line("2", ",\"retweeted_status\":{}"),
        String::from("{\"delete\":{}}"),
        String::from("oops"),
        post_line("3", ""),
    ]
}

fn second_file() -> Vec<String> {
    vec![post_line("4", ""), String::from("{\"delete\":{}}")]
}

fn ready() -> App {
    let mut app = App::new(Credentials::default());
    assert_eq!(app.database_prepared(true), RunAction::DecodeFiles);
    app
}

#[test]
fn new_counters_are_zero() {
    assert_eq!(IngestStatistics::new(), counts(0, 0, 0, 0, 0));
}

#[test]
fn merge_adds_each_counter() {
    let a = counts(5, 1, 1, 3, 2);
    let b = counts(7, 0, 3, 4, 1);
    assert_eq!(a.merge(&b), Some(counts(12, 1, 4, 7, 3)));
}

#[test]
fn merge_does_not_depend_on_order_or_grouping() {
    let a = counts(5, 1, 1, 3, 2);
    let b = counts(7, 0, 3, 4, 1);
    let c = counts(2, 2, 0, 0, 0);
    assert_eq!(a.merge(&b), b.merge(&a));
    let left = a.merge(&b).unwrap().merge(&c);
    let right = a.merge(&b.merge(&c).unwrap());
    assert_eq!(left, right);
    assert_eq!(a.merge(&IngestStatistics::new()), Some(a));
}

#[test]
fn merge_refuses_a_sum_that_does_not_fit() {
    let a = counts(u64::MAX, 0, 0, 0, 0);
    assert_eq!(a.merge(&counts(1, 0, 0, 0, 0)), None);
    assert_eq!(a.merge(&counts(0, 1, 0, 0, 0)), Some(counts(u64::MAX, 1, 0, 0, 0)));
    assert_eq!(counts(0, 0, 0, 0, u64::MAX).merge(&counts(0, 0, 0, 0, 1)), None);
}

#[test]
fn two_files_give_the_sums_of_their_counts() {
    let mut app = ready();
    let tweets = app.parse_files(&vec![first_file(), second_file()]).unwrap();
    assert_eq!(tweets.len(), 2);
    assert_eq!(tweets[0].len(), 3);
    assert_eq!(tweets[1].len(), 1);
    assert_eq!(tweets[0][1].id_str, "2");
    assert_eq!(app.skipped_files(), 0);
    assert!(tweets[0][1].is_retweet);
    assert_eq!(app.statistics(), counts(7, 2, 1, 4, 1));
    assert_eq!(app.tweet_count(), 7);
    assert_eq!(app.deleted_tweet_count(), 2);
    assert_eq!(app.retweet_count(), 1);
    assert_eq!(app.phase(), RunPhase::Decoding);
}

#[test]
fn two_files_one_with_three_posts_a_deletion_and_a_malformed_line() {
    let mut app = App::new(Credentials::default());
    let tweets = app.parse_files(&vec![first_file(), vec![]]).unwrap();
    assert_eq!(tweets[0].len(), 3);
    assert!(tweets[1].is_empty());
    assert_eq!(tweets.iter().map(|v| v.len()).sum::<usize>(), 3);
    let c = app.statistics();
    assert_eq!(c.total, 5);
    assert_eq!(c.deleted, 1);
    assert_eq!(c.malformed, 1);
    assert_eq!(c.decoded, 3);
    assert_eq!(app.tweet_count(), 5);
    assert_eq!(app.deleted_tweet_count(), 1);
}

#[test]
fn a_fresh_run_without_files_counts_nothing() {
    let mut app = App::new(Credentials::default());
    assert_eq!(app.parse_files(&vec![]), Some(vec![]));
    assert_eq!(app.tweet_count(), 0);
    assert_eq!(app.deleted_tweet_count(), 0);
    assert_eq!(app.retweet_count(), 0);
    assert_eq!(app.phase(), RunPhase::Preparing);
}

#[test]
fn files_are_decoded_in_every_stage_and_the_stage_stays() {
    let mut app = App::new(Credentials::default());
    assert!(app.parse_files(&vec![first_file()]).is_some());
    assert_eq!(app.statistics(), counts(5, 1, 1, 3, 1));
    assert_eq!(app.phase(), RunPhase::Preparing);
    app.database_prepared(false);
    assert!(app.parse_files(&vec![second_file()]).is_some());
    assert_eq!(app.statistics(), counts(2, 1, 0, 1, 0));
    assert_eq!(app.phase(), RunPhase::Aborted);
}

#[test]
fn decoding_again_sets_the_counters_anew() {
    let mut app = ready();
    app.parse_files(&vec![first_file(), second_file()]).unwrap();
    app.parse_files(&vec![second_file()]).unwrap();
    assert_eq!(app.statistics(), counts(2, 1, 0, 1, 0));
}

#[test]
fn the_posts_come_back_file_by_file_in_line_order() {
    let mut app = App::new(Credentials::default());
    let tweets = app.parse_files(&vec![second_file(), first_file()]).unwrap();
    let ids: Vec<Vec<&str>> =
        tweets.iter().map(|f| f.iter().map(|t| t.id_str.as_str()).collect()).collect();
    assert_eq!(ids, vec![vec!["4"], vec!["1", "2", "3"]]);
}

#[test]
fn the_order_of_the_files_does_not_change_the_totals() {
    let mut forward = ready();
    forward.parse_files(&vec![first_file(), second_file()]).unwrap();
    let mut backward = App::new(Credentials::default());
    backward.parse_files(&vec![second_file(), first_file()]).unwrap();
    assert_eq!(forward.statistics(), backward.statistics());
}

#[test]
fn per_file_results_in_any_order_match_one_pass_over_all_lines() {
    let results = vec![
        FileOutcome::Parsed(parse_file(&second_file())),
        FileOutcome::Parsed(parse_file(&first_file())),
    ];
    let mut merged = ready();
    assert!(merged.record_results(&results));
    let mut all_lines = first_file();
    all_lines.extend(second_file());
    let one_pass = parse_file(&all_lines);
    assert_eq!(merged.statistics(), one_pass.counts);
    assert_eq!(merged.phase(), RunPhase::Writing);
}

#[test]
fn an_unreadable_file_is_skipped_and_the_others_count() {
    let results = vec![
        FileOutcome::Parsed(parse_file(&first_file())),
        FileOutcome::Unreadable,
        FileOutcome::Parsed(parse_file(&second_file())),
    ];
    let mut app = ready();
    assert!(app.record_results(&results));
    assert_eq!(app.statistics(), counts(7, 2, 1, 4, 1));
    assert_eq!(app.skipped_files(), 1);
    assert_eq!(app.phase(), RunPhase::Writing);
}

#[test]
fn a_run_whose_files_are_all_unreadable_goes_on() {
    let mut app = ready();
    assert!(app.record_results(&vec![FileOutcome::Unreadable, FileOutcome::Unreadable]));
    assert_eq!(app.statistics(), counts(0, 0, 0, 0, 0));
    assert_eq!(app.skipped_files(), 2);
    assert_eq!(app.phase(), RunPhase::Writing);
    let (batches, writer) = plan_writes(vec![]);
    assert!(batches.is_empty());
    assert_eq!(app.writes_finished(&writer), RunAction::AddRepliesToRelation);
}

#[test]
fn totals_that_do_not_fit_leave_the_run_unchanged() {
    let big = ParsedFile {
        tweets: vec![],
        malformed_lines: vec![],
        counts: counts(u64::MAX, u64::MAX, 0, 0, 0),
    };
    let one = ParsedFile { tweets: vec![], malformed_lines: vec![], counts: counts(1, 1, 0, 0, 0) };
    let mut app = ready();
    assert!(!app.record_results(&vec![FileOutcome::Parsed(big), FileOutcome::Parsed(one)]));
    assert_eq!(app.statistics(), counts(0, 0, 0, 0, 0));
    assert_eq!(app.phase(), RunPhase::Decoding);
}

#[test]
fn results_are_only_recorded_while_decoding() {
    let mut app = App::new(Credentials::default());
    assert!(!app.record_results(&vec![FileOutcome::Parsed(parse_file(&first_file()))]));
    assert_eq!(app.phase(), RunPhase::Preparing);
    assert_eq!(app.statistics(), counts(0, 0, 0, 0, 0));
    let mut app = ready();
    assert!(app.record_results(&vec![]));
    assert_eq!(app.phase(), RunPhase::Writing);
    assert!(!app.record_results(&vec![]));
}

#[test]
fn an_unreachable_store_ends_the_run_with_status_one() {
    let mut app = App::new(Credentials::default());
    assert_eq!(app.next_action(), RunAction::PrepareDatabase);
    assert_eq!(app.database_prepared(false), RunAction::Exit { status: 1 });
    assert_eq!(app.phase(), RunPhase::Aborted);
    assert_eq!(app.relation_added(), RunAction::Exit { status: 1 });
    assert_eq!(app.database_prepared(true), RunAction::Exit { status: 1 });
}

#[test]
fn a_run_goes_through_its_stages_in_order() {
    let mut app = ready();
    let results = vec![
        FileOutcome::Parsed(parse_file(&first_file())),
        FileOutcome::Parsed(parse_file(&second_file())),
    ];
    assert!(app.record_results(&results));
    assert_eq!(app.next_action(), RunAction::WriteBatches);

    let mut writer = Writer::new(1, 8, RetryPolicy::default()).unwrap();
    assert_eq!(app.writes_finished(&writer), RunAction::WriteBatches);
    assert_eq!(app.phase(), RunPhase::Writing);
    writer.start_next();
    assert_eq!(app.writes_finished(&writer), RunAction::WriteBatches);
    assert_eq!(app.phase(), RunPhase::Writing);
    writer.deliver(0, WriteEvent::Succeeded);
    assert_eq!(app.writes_finished(&writer), RunAction::AddRepliesToRelation);
    assert_eq!(app.writes_finished(&writer), RunAction::AddRepliesToRelation);
    assert_eq!(app.relation_added(), RunAction::AddUserMentionRelation);
    assert_eq!(app.relation_added(), RunAction::Exit { status: 0 });
    assert_eq!(app.phase(), RunPhase::Done);
    assert_eq!(app.relation_added(), RunAction::Exit { status: 0 });
}

#[test]
fn linking_does_not_begin_before_the_writes_are_recorded() {
    let mut app = ready();
    let done = Writer::new(0, 8, RetryPolicy::default()).unwrap();
    assert_eq!(app.writes_finished(&done), RunAction::DecodeFiles);
    assert_eq!(app.relation_added(), RunAction::DecodeFiles);
    assert_eq!(app.phase(), RunPhase::Decoding);
}

#[test]
fn failed_and_retried_writes_leave_the_counters_alone() {
    let mut app = ready();
    assert!(app.record_results(&vec![FileOutcome::Parsed(parse_file(&first_file()))]));
    let before = app.statistics();
    let mut w = Writer::new(2, 1, RetryPolicy::default()).unwrap();
    w.start_next();
    w.deliver(0, WriteEvent::Failed { decision: RetryDecision::Transient, elapsed_ms: 10 });
    assert_eq!(app.writes_finished(&w), RunAction::WriteBatches);
    assert_eq!(app.statistics(), before);
    w.deliver(0, WriteEvent::BackoffElapsed);
    w.deliver(0, WriteEvent::Failed { decision: RetryDecision::Transient, elapsed_ms: 70_000 });
    w.start_next();
    w.deliver(1, WriteEvent::Failed { decision: RetryDecision::Permanent, elapsed_ms: 0 });
    assert!(w.is_complete());
    assert_eq!(app.writes_finished(&w), RunAction::AddRepliesToRelation);
    assert_eq!(app.statistics(), before);
    assert_eq!(app.statistics(), counts(5, 1, 1, 3, 1));
}

#[test]
fn the_run_keeps_its_credentials() {
    let c = Credentials::new(String::from("db:1"), String::from("u"), String::from("p"));
    let app = App::new(c.clone());
    assert_eq!(app.credentials(), &c);
}
