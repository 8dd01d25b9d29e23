//! What the graph store is sent: connection settings and the parameters of
//! a batch write.

use vstd::prelude::*;

use crate::instant::rfc3339_text;
use crate::json::{Tweet, TweetView};
use crate::retry::RetryDecision;
use crate::text::{contains, contains_text};

verus! {

/// Where the store is and who asks.
#[derive(Debug, Clone, PartialEq, Eq)]
pub struct Credentials {
    uri: String,
    user: String,
    password: String,
}

pub ghost struct CredentialsView {
    pub uri: Seq<char>,
    pub user: Seq<char>,
    pub password: Seq<char>,
}

impl View for Credentials {
    type V = CredentialsView;

    closed spec fn view(&self) -> CredentialsView {
        CredentialsView { uri: self.uri@, user: self.user@, password: self.password@ }
    }
}

impl Credentials {
    pub fn new(uri: String, user: String, password: String) -> (r: Credentials)
        ensures
            r@ == (CredentialsView { uri: uri@, user: user@, password: password@ }),
    {
        Credentials { uri, user, password }
    }

    pub fn uri(&self) -> (r: &str)
        ensures
            r@ == self@.uri,
    {
        self.uri.as_str()
    }

    pub fn user(&self) -> (r: &str)
        ensures
            r@ == self@.user,
    {
        self.user.as_str()
    }

    pub fn password(&self) -> (r: &str)
        ensures
            r@ == self@.password,
    {
        self.password.as_str()
    }
}

impl Default for Credentials {
    /// A store on this machine, with the account it is installed with.
    fn default() -> (r: Credentials)
        ensures
            r@ == (CredentialsView {
                uri: "localhost:7676"@,
                user: "neo4j"@,
                password: "neo4j"@,
            }),
    {
        Credentials {
            uri: "localhost:7676".to_owned(),
            user: "neo4j".to_owned(),
            password: "neo4j".to_owned(),
        }
    }
}

/// The store reports a write that lost against concurrent writers in one
/// of these ways.
pub open spec fn has_conflict_signature(text: Seq<char>) -> bool {
    contains_text(text, "DeadlockDetected"@) || contains_text(
        text,
        "TransactionTerminatedException"@,
    ) || contains_text(text, "concurrent access"@) || contains_text(text, "deadlock"@)
}

/// A failure with a conflict signature is transient; every other failure
/// is permanent.
pub open spec fn decision_of(text: Seq<char>) -> RetryDecision {
    if has_conflict_signature(text) {
        RetryDecision::Transient
    } else {
        RetryDecision::Permanent
    }
}

/// Whether the description of a failed write shows a conflict with
/// concurrent writers.
pub fn is_deadlock_error(error_text: &str) -> (r: bool)
    ensures
        r == has_conflict_signature(error_text@),
{
    contains(error_text, "DeadlockDetected") || contains(
        error_text,
        "TransactionTerminatedException",
    ) || contains(error_text, "concurrent access") || contains(error_text, "deadlock")
}

/// Whether a write that failed with this description is worth repeating.
pub fn classify_failure(error_text: &str) -> (r: RetryDecision)
    ensures
        r == decision_of(error_text@),
{
    if is_deadlock_error(error_text) {
        RetryDecision::Transient
    } else {
        RetryDecision::Permanent
    }
}

/// The error type of the store's driver.
#[verifier::external_type_specification]
#[verifier::external_body]
pub struct ExError(neo4rs::Error);

/// Formats a driver error with its `Debug` impl, which spells out the
/// error's variant and what it holds. Nothing is claimed of the text: part
/// of it may come from the operating system.
#[verifier::external_body]
fn debug_text(error: &neo4rs::Error) -> (text: String) {
    format!("{:?}", error)
}

/// A failed write, as the retry policy sees it.
#[derive(Debug, Clone, PartialEq, Eq)]
pub struct StoreFailure {
    /// Whether the write is worth repeating.
    pub decision: RetryDecision,
    /// The driver's description of the failure.
    pub detail: String,
}

impl StoreFailure {
    /// Describes and classifies a driver error: the description is what
    /// the driver's `Debug` impl writes, and the decision goes by the
    /// description alone, whatever it is.
    pub fn from_error(error: &neo4rs::Error) -> (r: StoreFailure)
        ensures
            r.decision == decision_of(r.detail@),
    {
        let detail = debug_text(error);
        let decision = classify_failure(detail.as_str());
        StoreFailure { decision, detail }
    }
}

/// One parameter value of a write.
#[derive(Debug, Clone, PartialEq, Eq)]
pub enum ParamValue {
    Null,
    Text(String),
    Integer(i64),
    Boolean(bool),
    TextList(Vec<String>),
}

pub ghost enum ParamView {
    Null,
    Text(Seq<char>),
    Integer(i64),
    Boolean(bool),
    TextList(Seq<Seq<char>>),
}

impl View for ParamValue {
    type V = ParamView;

    open spec fn view(&self) -> ParamView {
        match self {
            ParamValue::Null => ParamView::Null,
            ParamValue::Text(s) => ParamView::Text(s@),
            ParamValue::Integer(n) => ParamView::Integer(*n),
            ParamValue::Boolean(b) => ParamView::Boolean(*b),
            ParamValue::TextList(items) => ParamView::TextList(items.deep_view()),
        }
    }
}

impl DeepView for ParamValue {
    type V = ParamView;

    open spec fn deep_view(&self) -> ParamView {
        self@
    }
}

/// A text that may be absent: `Null` where it is.
pub open spec fn optional_text(value: Option<Seq<char>>) -> ParamView {
    match value {
        Some(s) => ParamView::Text(s),
        None => ParamView::Null,
    }
}

/// An integer that may be absent: `Null` where it is.
pub open spec fn optional_integer(value: Option<i32>) -> ParamView {
    match value {
        Some(n) => ParamView::Integer(n as i64),
        None => ParamView::Null,
    }
}

/// The parameters of one post, by name and in the order in which they are
/// written: the post's own fields, then its author's under `user...` names.
/// Instants are written in RFC 3339.
pub open spec fn tweet_parameters(t: TweetView) -> Seq<(Seq<char>, ParamView)> {
    seq![
        ("id"@, ParamView::Text(t.id_str)),
        ("text"@, ParamView::Text(t.text)),
        ("created_at"@, ParamView::Text(rfc3339_text(t.created_at.0, t.created_at.1))),
        ("reply_to"@, optional_text(t.reply_to)),
        ("lang"@, ParamView::Text(t.lang)),
        ("hashtags"@, ParamView::TextList(t.entities.hashtags)),
        ("user_mentions"@, ParamView::TextList(t.entities.user_mentions)),
        ("userId"@, ParamView::Text(t.user.id_str)),
        ("userName"@, ParamView::Text(t.user.screen_name)),
        ("userLocation"@, optional_text(t.user.location)),
        ("userVerified"@, ParamView::Boolean(t.user.verified)),
        ("userFollowersCount"@, ParamView::Integer(t.user.followers_count as i64)),
        ("userFriendsCount"@, ParamView::Integer(t.user.friends_count as i64)),
        ("userListedCount"@, optional_integer(t.user.listed_count)),
        ("userFavouritesCount"@, ParamView::Integer(t.user.favourites_count as i64)),
        ("userStatusesCount"@, ParamView::Integer(t.user.statuses_count as i64)),
        (
            "userCreatedAt"@,
            ParamView::Text(rfc3339_text(t.user.created_at.0, t.user.created_at.1)),
        ),
        ("userUtcOffset"@, optional_integer(t.user.utc_offset)),
    ]
}

/// Every post has the same eighteen parameters, and no name occurs twice
/// among them: they make a map from name to value.
pub proof fn lemma_parameter_names_distinct(t: TweetView, i: int, j: int)
    requires
        0 <= i < j < 18,
    ensures
        tweet_parameters(t).len() == 18,
        tweet_parameters(t)[i].0 != tweet_parameters(t)[j].0,
{
    reveal_strlit("id");
    reveal_strlit("text");
    reveal_strlit("created_at");
    reveal_strlit("reply_to");
    reveal_strlit("lang");
    reveal_strlit("hashtags");
    reveal_strlit("user_mentions");
    reveal_strlit("userId");
    reveal_strlit("userName");
    reveal_strlit("userLocation");
    reveal_strlit("userVerified");
    reveal_strlit("userFollowersCount");
    reveal_strlit("userFriendsCount");
    reveal_strlit("userListedCount");
    reveal_strlit("userFavouritesCount");
    reveal_strlit("userStatusesCount");
    reveal_strlit("userCreatedAt");
    reveal_strlit("userUtcOffset");
    let names = Seq::new(18, |k: int| tweet_parameters(t)[k].0);
    assert(names[1].len() == 4 && names[1][0] == 't');
    assert(names[4].len() == 4 && names[4][0] == 'l');
    assert(names[3].len() == 8 && names[3][0] == 'r');
    assert(names[5].len() == 8 && names[5][0] == 'h');
    assert(names[8].len() == 8 && names[8][0] == 'u');
    assert(names[9].len() == 12 && names[9][4] == 'L');
    assert(names[10].len() == 12 && names[10][4] == 'V');
    assert(names[6].len() == 13 && names[6][4] == '_');
    assert(names[16].len() == 13 && names[16][4] == 'C');
    assert(names[17].len() == 13 && names[17][4] == 'U');
    assert(names[0].len() == 2);
    assert(names[2].len() == 10);
    assert(names[7].len() == 6);
    assert(names[11].len() == 18);
    assert(names[12].len() == 16);
    assert(names[13].len() == 15);
    assert(names[14].len() == 19);
    assert(names[15].len() == 17);
    assert(names[i] != names[j]);
}

/// The parameters of a batch: those of each post, in the batch's order.
pub open spec fn batch_parameters(chunk: Seq<TweetView>) -> Seq<Seq<(Seq<char>, ParamView)>> {
    Seq::new(chunk.len(), |i: int| tweet_parameters(chunk[i]))
}

fn text_param(value: &String) -> (r: ParamValue)
    ensures
        r@ == ParamView::Text(value@),
{
    ParamValue::Text(value.clone())
}

fn optional_text_param(value: &Option<String>) -> (r: ParamValue)
    ensures
        r@ == optional_text(value.deep_view()),
{
    match value {
        Some(s) => ParamValue::Text(s.clone()),
        None => ParamValue::Null,
    }
}

fn optional_integer_param(value: Option<i32>) -> (r: ParamValue)
    ensures
        r@ == optional_integer(value),
{
    match value {
        Some(n) => ParamValue::Integer(n as i64),
        None => ParamValue::Null,
    }
}

fn text_list_param(values: &Vec<String>) -> (r: ParamValue)
    ensures
        r@ == ParamView::TextList(values.deep_view()),
{
    let mut copy: Vec<String> = Vec::new();
    let mut i: usize = 0;
    while i < values.len()
        invariant
            0 <= i <= values.len(),
            copy.len() == i,
            forall|k: int| 0 <= k < i ==> copy[k]@ == values[k]@,
        decreases values.len() - i,
    {
        copy.push(values[i].clone());
        i += 1;
    }
    assert(copy.deep_view() =~= values.deep_view());
    ParamValue::TextList(copy)
}

/// The parameters of one post.
pub fn prepare_tweet_parameters(tweet: &Tweet) -> (row: Vec<(String, ParamValue)>)
    ensures
        row.deep_view() == tweet_parameters(tweet@),
{
    let mut row: Vec<(String, ParamValue)> = Vec::new();
    row.push(("id".to_owned(), text_param(&tweet.id_str)));
    row.push(("text".to_owned(), text_param(&tweet.text)));
    row.push(("created_at".to_owned(), ParamValue::Text(tweet.created_at.to_rfc3339())));
    row.push(("reply_to".to_owned(), optional_text_param(&tweet.reply_to)));
    row.push(("lang".to_owned(), text_param(&tweet.lang)));
    row.push(("hashtags".to_owned(), text_list_param(&tweet.entities.hashtags)));
    row.push(("user_mentions".to_owned(), text_list_param(&tweet.entities.user_mentions)));
    row.push(("userId".to_owned(), text_param(&tweet.user.id_str)));
    row.push(("userName".to_owned(), text_param(&tweet.user.screen_name)));
    row.push(("userLocation".to_owned(), optional_text_param(&tweet.user.location)));
    row.push(("userVerified".to_owned(), ParamValue::Boolean(tweet.user.verified)));
    row.push(
        ("userFollowersCount".to_owned(), ParamValue::Integer(tweet.user.followers_count as i64)),
    );
    row.push(("userFriendsCount".to_owned(), ParamValue::Integer(tweet.user.friends_count as i64)));
    row.push(("userListedCount".to_owned(), optional_integer_param(tweet.user.listed_count)));
    row.push(
        ("userFavouritesCount".to_owned(), ParamValue::Integer(tweet.user.favourites_count as i64)),
    );
    row.push(
        ("userStatusesCount".to_owned(), ParamValue::Integer(tweet.user.statuses_count as i64)),
    );
    row.push(("userCreatedAt".to_owned(), ParamValue::Text(tweet.user.created_at.to_rfc3339())));
    row.push(("userUtcOffset".to_owned(), optional_integer_param(tweet.user.utc_offset)));
    assert(row.deep_view() =~= tweet_parameters(tweet@));
    row
}

/// The parameters of a batch write: one list of named values per post.
pub fn prepare_batch_parameters(chunk_vec: &Vec<Tweet>) -> (batch: Vec<Vec<(String, ParamValue)>>)
    ensures
        batch.deep_view() == batch_parameters(chunk_vec.deep_view()),
{
    let mut batch: Vec<Vec<(String, ParamValue)>> = Vec::new();
    let mut i: usize = 0;
    while i < chunk_vec.len()
        invariant
            0 <= i <= chunk_vec.len(),
            batch.len() == i,
            forall|k: int| 0 <= k < i ==> (#[trigger] batch[k]).deep_view() == tweet_parameters(chunk_vec[k]@),
        decreases chunk_vec.len() - i,
    {
        batch.push(prepare_tweet_parameters(&chunk_vec[i]));
        i += 1;
    }
    assert(batch.deep_view() =~= batch_parameters(chunk_vec.deep_view()));
    batch
}

/// The items of all `parts`, one part after the other.
pub open spec fn joined<T>(parts: Seq<Seq<T>>) -> Seq<T>
    decreases parts.len(),
{
    if parts.len() == 0 {
        Seq::empty()
    } else {
        joined(parts.drop_last()) + parts.last()
    }
}

/// The posts of each of `files`.
pub open spec fn records_of(files: Seq<Vec<Tweet>>) -> Seq<Seq<Tweet>> {
    Seq::new(files.len(), |i: int| files[i]@)
}

/// Joins the posts of all files into one sequence, file after file, each
/// file's posts in their order: none lost, none repeated.
pub fn concat_records(files: Vec<Vec<Tweet>>) -> (all: Vec<Tweet>)
    ensures
        all@ == joined(records_of(files@)),
{
    let ghost parts = records_of(files@);
    let ghost n = files.len() as int;
    let mut files = files;
    let mut stack: Vec<Vec<Tweet>> = Vec::new();
    while files.len() > 0
        invariant
            files.len() + stack.len() == n,
            parts.len() == n,
            forall|k: int| 0 <= k < files.len() ==> (#[trigger] files[k])@ == parts[k],
            forall|k: int| 0 <= k < stack.len() ==> (#[trigger] stack[k])@ == parts[n - 1 - k],
        decreases files.len(),
    {
        let last = files.pop().unwrap();
        stack.push(last);
    }
    let mut all: Vec<Tweet> = Vec::new();
    proof {
        assert(parts.take(0) =~= Seq::<Seq<Tweet>>::empty());
    }
    while stack.len() > 0
        invariant
            stack.len() <= n,
            parts.len() == n,
            forall|k: int| 0 <= k < stack.len() ==> (#[trigger] stack[k])@ == parts[n - 1 - k],
            all@ == joined(parts.take(n - stack.len())),
        decreases stack.len(),
    {
        let ghost done = n - stack.len();
        let mut next = stack.pop().unwrap();
        proof {
            assert(next@ == parts[done]);
            assert(parts.take(done + 1).drop_last() =~= parts.take(done));
            assert(parts.take(done + 1).last() == parts[done]);
        }
        all.append(&mut next);
    }
    proof {
        assert(parts.take(n) =~= parts);
    }
    all
}

/// An ordered slice of the posts to write, with its place in the plan.
#[derive(Debug, Clone, PartialEq, Eq)]
pub struct Batch {
    /// The batch's number, counted from 0 in planning order.
    pub index: usize,
    pub tweets: Vec<Tweet>,
}

/// How many batches of at most `size` items hold `len` items.
pub open spec fn batch_count(len: nat, size: nat) -> nat
    recommends
        size > 0,
{
    ((len + size - 1) / (size as int)) as nat
}

/// The items of batch `index`: `size` of them from `index * size` on, or
/// as many as are left.
pub open spec fn batch_items<T>(items: Seq<T>, size: nat, index: int) -> Seq<T>
    recommends
        size > 0,
{
    items.subrange(index * size, vstd::math::min((index + 1) * size, items.len() as int))
}

/// Full batches take up whole multiples of `size`; the count leaves room
/// for exactly the rest.
pub proof fn lemma_batch_count(len: nat, size: nat, full: nat)
    requires
        size > 0,
        full * size <= len,
    ensures
        len == full * size ==> batch_count(len, size) == full,
        full * size < len <= (full + 1) * size ==> batch_count(len, size) == full + 1,
        len > full * size ==> batch_count(len, size) > full,
{
    let n = (len + size - 1) as int;
    let d = size as int;
    assert(n == d * (n / d) + n % d && 0 <= n % d < d) by {
        vstd::arithmetic::div_mod::lemma_fundamental_div_mod(n, d);
        vstd::arithmetic::div_mod::lemma_mod_bound(n, d);
    }
    let q = n / d;
    assert(d * q <= n < d * q + d);
    assert(d * (q + 1) == d * q + d) by (nonlinear_arith);
    assert((full + 1) * size == full * size + size) by (nonlinear_arith);
    if q < full {
        assert(d * (q + 1) <= d * full) by (nonlinear_arith)
            requires
                q + 1 <= full,
                d > 0,
        ;
        assert(d * full == full * size) by (nonlinear_arith)
            requires
                d == size,
        ;
    }
    if len == full * size {
        if q > full {
            assert(d * q >= d * (full + 1)) by (nonlinear_arith)
                requires
                    q >= full + 1,
                    d > 0,
            ;
            assert(d * (full + 1) == full * size + size) by (nonlinear_arith)
                requires
                    d == size,
            ;
        }
    }
    if full * size < len {
        if q <= full {
            assert(d * q <= d * full) by (nonlinear_arith)
                requires
                    q <= full,
                    d > 0,
            ;
            assert(d * full == full * size) by (nonlinear_arith)
                requires
                    d == size,
            ;
        }
        if len <= (full + 1) * size {
            if q > full + 1 {
                assert(d * q >= d * (full + 2)) by (nonlinear_arith)
                    requires
                        q >= full + 2,
                        d > 0,
                ;
                assert(d * (full + 2) == full * size + size + size) by (nonlinear_arith)
                    requires
                        d == size,
                ;
            }
        }
    }
}

/// Nothing is lost or moved: item `j` is item `j % size` of batch
/// `j / size`.
pub proof fn lemma_batches_cover<T>(items: Seq<T>, size: nat, j: int)
    requires
        size > 0,
        0 <= j < items.len(),
    ensures
        0 <= j / (size as int) < batch_count(items.len(), size),
        0 <= j % (size as int) < batch_items(items, size, j / (size as int)).len(),
        batch_items(items, size, j / (size as int))[j % (size as int)] == items[j],
{
    let d = size as int;
    let q = j / d;
    let r = j % d;
    vstd::arithmetic::div_mod::lemma_fundamental_div_mod(j, d);
    vstd::arithmetic::div_mod::lemma_mod_bound(j, d);
    assert(0 <= q) by (nonlinear_arith)
        requires
            j == d * q + r,
            0 <= r < d,
            j >= 0,
    ;
    assert(q * d == d * q) by (nonlinear_arith);
    assert((q + 1) * d == d * q + d) by (nonlinear_arith);
    lemma_batch_count(items.len(), size, q as nat);
}

/// Cuts `tweets` into batches of `batch_size` posts, the last one possibly
/// shorter, in order and without loss.
pub fn plan_batches(tweets: Vec<Tweet>, batch_size: usize) -> (batches: Vec<Batch>)
    requires
        batch_size > 0,
    ensures
        batches.len() == batch_count(tweets.len() as nat, batch_size as nat),
        forall|i: int|
            0 <= i < batches.len() ==> (#[trigger] batches[i]).index == i && batches[i].tweets@
                == batch_items(tweets@, batch_size as nat, i),
        forall|i: int|
            0 <= i < batches.len() ==> 0 < (#[trigger] batches[i]).tweets.len() <= batch_size,
{
    let ghost all = tweets@;
    let ghost size = batch_size as nat;
    let mut rest = tweets;
    let mut batches: Vec<Batch> = Vec::new();
    proof {
        assert(all.skip(0) =~= all);
        assert(0 * size == 0) by (nonlinear_arith);
    }
    while rest.len() > batch_size
        invariant
            batch_size > 0,
            size == batch_size,
            batches.len() * size + rest.len() == all.len(),
            rest@ == all.skip(batches.len() * size),
            forall|i: int|
                0 <= i < batches.len() ==> (#[trigger] batches[i]).index == i && batches[i].tweets@
                    == batch_items(all, size, i) && batches[i].tweets.len() == size,
        decreases rest.len(),
    {
        let ghost done = batches.len() as int;
        let tail = rest.split_off(batch_size);
        proof {
            assert((done + 1) * size == done * size + size) by (nonlinear_arith);
            assert(rest@ =~= batch_items(all, size, done));
            assert(tail@ =~= all.skip((done + 1) * size));
        }
        batches.push(Batch { index: batches.len(), tweets: rest });
        rest = tail;
    }
    let ghost done = batches.len() as nat;
    if rest.len() > 0 {
        proof {
            assert((done + 1) * size == done * size + size) by (nonlinear_arith);
            assert(rest@ =~= batch_items(all, size, done as int));
            lemma_batch_count(all.len(), size, done);
        }
        batches.push(Batch { index: batches.len(), tweets: rest });
    } else {
        proof {
            lemma_batch_count(all.len(), size, done);
        }
    }
    batches
}

} // verus!
