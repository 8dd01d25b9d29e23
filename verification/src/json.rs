//! Posts and their authors, and the decoder that reads them from the lines
//! of an archive file.

use vstd::prelude::*;

use crate::document::{Json, JsonView};
use crate::document::parsed_json;
use crate::instant::{instant_of, parsed_instant, Timestamp};
use crate::stats::{Counts, IngestStatistics};
use crate::text::{contains, contains_text, str_eq};

verus! {

/// The author of a post, as the post's line describes them.
#[derive(Debug, Clone, PartialEq, Eq)]
pub struct User {
    pub id_str: String,
    pub screen_name: String,
    pub location: Option<String>,
    pub verified: bool,
    pub followers_count: i32,
    pub friends_count: i32,
    pub listed_count: Option<i32>,
    pub favourites_count: i32,
    pub statuses_count: i32,
    pub created_at: Timestamp,
    pub utc_offset: Option<i32>,
}

/// One decoded post.
#[derive(Debug, Clone, PartialEq, Eq)]
pub struct Tweet {
    pub created_at: Timestamp,
    pub id_str: String,
    pub text: String,
    pub user: User,
    pub reply_to: Option<String>,
    pub lang: String,
    pub entities: Entity,
    pub is_retweet: bool,
}

/// The hashtags of a post and the identifiers of the authors it mentions.
/// The decoder fills each list as a set: no entry twice.
#[derive(Debug, Clone, PartialEq, Eq)]
pub struct Entity {
    pub hashtags: Vec<String>,
    pub user_mentions: Vec<String>,
}

pub ghost struct UserView {
    pub id_str: Seq<char>,
    pub screen_name: Seq<char>,
    pub location: Option<Seq<char>>,
    pub verified: bool,
    pub followers_count: i32,
    pub friends_count: i32,
    pub listed_count: Option<i32>,
    pub favourites_count: i32,
    pub statuses_count: i32,
    pub created_at: (i64, u32),
    pub utc_offset: Option<i32>,
}

pub ghost struct TweetView {
    pub created_at: (i64, u32),
    pub id_str: Seq<char>,
    pub text: Seq<char>,
    pub user: UserView,
    pub reply_to: Option<Seq<char>>,
    pub lang: Seq<char>,
    pub entities: EntityView,
    pub is_retweet: bool,
}

pub ghost struct EntityView {
    pub hashtags: Seq<Seq<char>>,
    pub user_mentions: Seq<Seq<char>>,
}

impl View for User {
    type V = UserView;

    open spec fn view(&self) -> UserView {
        UserView {
            id_str: self.id_str@,
            screen_name: self.screen_name@,
            location: self.location.deep_view(),
            verified: self.verified,
            followers_count: self.followers_count,
            friends_count: self.friends_count,
            listed_count: self.listed_count,
            favourites_count: self.favourites_count,
            statuses_count: self.statuses_count,
            created_at: self.created_at@,
            utc_offset: self.utc_offset,
        }
    }
}

impl DeepView for User {
    type V = UserView;

    open spec fn deep_view(&self) -> UserView {
        self@
    }
}

impl View for Entity {
    type V = EntityView;

    open spec fn view(&self) -> EntityView {
        EntityView {
            hashtags: self.hashtags.deep_view(),
            user_mentions: self.user_mentions.deep_view(),
        }
    }
}

impl DeepView for Entity {
    type V = EntityView;

    open spec fn deep_view(&self) -> EntityView {
        self@
    }
}

impl View for Tweet {
    type V = TweetView;

    open spec fn view(&self) -> TweetView {
        TweetView {
            created_at: self.created_at@,
            id_str: self.id_str@,
            text: self.text@,
            user: self.user@,
            reply_to: self.reply_to.deep_view(),
            lang: self.lang@,
            entities: self.entities@,
            is_retweet: self.is_retweet,
        }
    }
}

impl DeepView for Tweet {
    type V = TweetView;

    open spec fn deep_view(&self) -> TweetView {
        self@
    }
}

/// The format of the archive's dates, such as
/// `Thu May 23 14:54:46 +0000 2019`.
pub const TWITTER_DATE_FORMAT: &'static str = "%a %b %d %H:%M:%S %z %Y";

/// A member that must be there and be a string.
pub open spec fn required_str(j: JsonView, name: Seq<char>) -> Option<Seq<char>> {
    match j.field(name) {
        Some(v) => v.as_str(),
        None => None,
    }
}

/// A member that must be there and be a boolean.
pub open spec fn required_bool(j: JsonView, name: Seq<char>) -> Option<bool> {
    match j.field(name) {
        Some(v) => v.as_bool(),
        None => None,
    }
}

/// A member that must be there and be an integer within `i32`.
pub open spec fn required_i32(j: JsonView, name: Seq<char>) -> Option<i32> {
    match j.field(name) {
        Some(v) => v.as_i32(),
        None => None,
    }
}

/// A member that must be there and hold a date in the archive's format.
pub open spec fn required_date(j: JsonView, name: Seq<char>) -> Option<(i64, u32)> {
    match required_str(j, name) {
        Some(s) => instant_of(parsed_instant(s, TWITTER_DATE_FORMAT@)),
        None => None,
    }
}

/// A string that may be missing or `null`. The outer `None` stands for a
/// member of another type, which is an error.
pub open spec fn optional_str(j: JsonView, name: Seq<char>) -> Option<Option<Seq<char>>> {
    match j.field(name) {
        None => Some(None),
        Some(JsonView::Null) => Some(None),
        Some(v) => match v.as_str() {
            Some(s) => Some(Some(s)),
            None => None,
        },
    }
}

/// An integer within `i32` that may be missing or `null`. The outer `None`
/// stands for a member of another type or out of range, which is an error.
pub open spec fn optional_i32(j: JsonView, name: Seq<char>) -> Option<Option<i32>> {
    match j.field(name) {
        None => Some(None),
        Some(JsonView::Null) => Some(None),
        Some(v) => match v.as_i32() {
            Some(n) => Some(Some(n)),
            None => None,
        },
    }
}

/// A boolean that is `false` where the member is missing. `None` stands
/// for a member of another type, which is an error.
pub open spec fn bool_or_false(j: JsonView, name: Seq<char>) -> Option<bool> {
    match j.field(name) {
        None => Some(false),
        Some(v) => v.as_bool(),
    }
}

/// The string members `key` of those `items` that are objects with such a
/// member: each text once, in the order in which the texts first occur.
pub open spec fn collect_texts(items: Seq<JsonView>, key: Seq<char>) -> Seq<Seq<char>>
    decreases items.len(),
{
    if items.len() == 0 {
        Seq::empty()
    } else {
        let front = collect_texts(items.drop_last(), key);
        match required_str(items.last(), key) {
            Some(s) => if front.contains(s) {
                front
            } else {
                front.push(s)
            },
            None => front,
        }
    }
}

/// The collected texts are a set: none occurs twice, and a text is among
/// them exactly if some item carries it.
pub proof fn lemma_collect_texts_set(items: Seq<JsonView>, key: Seq<char>)
    ensures
        collect_texts(items, key).no_duplicates(),
        forall|s: Seq<char>|
            collect_texts(items, key).contains(s) <==> exists|i: int|
                0 <= i < items.len() && required_str(#[trigger] items[i], key) == Some(s),
    decreases items.len(),
{
    let texts = collect_texts(items, key);
    if items.len() > 0 {
        let rest = items.drop_last();
        let front = collect_texts(rest, key);
        lemma_collect_texts_set(rest, key);
        assert forall|s: Seq<char>| texts.contains(s) implies exists|i: int|
            0 <= i < items.len() && required_str(#[trigger] items[i], key) == Some(s) by {
            if front.contains(s) {
                let i = choose|i: int|
                    0 <= i < rest.len() && required_str(#[trigger] rest[i], key) == Some(s);
                assert(items[i] == rest[i]);
            } else {
                let at = choose|at: int| 0 <= at < texts.len() && texts[at] == s;
                assert(texts == front.push(required_str(items.last(), key)->0));
                if at < front.len() {
                    assert(front[at] == s);
                    assert(front.contains(s));
                }
                assert(required_str(items[items.len() - 1], key) == Some(s));
            }
        }
        assert forall|s: Seq<char>|
            (exists|i: int|
                0 <= i < items.len() && required_str(#[trigger] items[i], key) == Some(
                    s,
                )) implies texts.contains(s) by {
            let i = choose|i: int|
                0 <= i < items.len() && required_str(#[trigger] items[i], key) == Some(s);
            if i < rest.len() {
                assert(rest[i] == items[i]);
                assert(front.contains(s));
                let at = choose|at: int| 0 <= at < front.len() && front[at] == s;
                assert(texts[at] == s);
            } else {
                if front.contains(s) {
                } else {
                    assert(texts == front.push(s));
                    assert(texts[front.len() as int] == s);
                }
            }
        }
    }
}

/// The hashtags in an `entities.hashtags` member: the set of the `text`s
/// of the array's items, each once, in order of first occurrence. `None`
/// where the member is no array.
pub open spec fn hashtags_of(value: JsonView) -> Option<Seq<Seq<char>>> {
    match value.as_array() {
        Some(items) => Some(collect_texts(items, "text"@)),
        None => None,
    }
}

/// The mentioned authors in an `entities.user_mentions` member: the set of
/// the `id_str`s of the array's items, each once, in order of first
/// occurrence. `None` where the member is no array.
pub open spec fn user_mentions_of(value: JsonView) -> Option<Seq<Seq<char>>> {
    match value.as_array() {
        Some(items) => Some(collect_texts(items, "id_str"@)),
        None => None,
    }
}

/// An `entities` object.
pub open spec fn entity_of(j: JsonView) -> Option<EntityView> {
    match (j.field("hashtags"@), j.field("user_mentions"@)) {
        (Some(h), Some(m)) => match (hashtags_of(h), user_mentions_of(m)) {
            (Some(hashtags), Some(user_mentions)) => Some(EntityView { hashtags, user_mentions }),
            _ => None,
        },
        _ => None,
    }
}

/// A `user` object: every member of the right type, the optional ones
/// possibly missing or `null`.
pub open spec fn user_of(j: JsonView) -> Option<UserView> {
    if required_str(j, "id_str"@) is Some && required_str(j, "screen_name"@) is Some
        && optional_str(j, "location"@) is Some && required_bool(j, "verified"@) is Some
        && required_i32(j, "followers_count"@) is Some && required_i32(j, "friends_count"@) is Some
        && optional_i32(j, "listed_count"@) is Some && required_i32(j, "favourites_count"@) is Some
        && required_i32(j, "statuses_count"@) is Some && required_date(j, "created_at"@) is Some
        && optional_i32(j, "utc_offset"@) is Some {
        Some(
            UserView {
                id_str: required_str(j, "id_str"@)->0,
                screen_name: required_str(j, "screen_name"@)->0,
                location: optional_str(j, "location"@)->0,
                verified: required_bool(j, "verified"@)->0,
                followers_count: required_i32(j, "followers_count"@)->0,
                friends_count: required_i32(j, "friends_count"@)->0,
                listed_count: optional_i32(j, "listed_count"@)->0,
                favourites_count: required_i32(j, "favourites_count"@)->0,
                statuses_count: required_i32(j, "statuses_count"@)->0,
                created_at: required_date(j, "created_at"@)->0,
                utc_offset: optional_i32(j, "utc_offset"@)->0,
            },
        )
    } else {
        None
    }
}

/// The member `name` as a `user` object.
pub open spec fn required_user(j: JsonView, name: Seq<char>) -> Option<UserView> {
    match j.field(name) {
        Some(v) => user_of(v),
        None => None,
    }
}

/// The member `name` as an `entities` object.
pub open spec fn required_entity(j: JsonView, name: Seq<char>) -> Option<EntityView> {
    match j.field(name) {
        Some(v) => entity_of(v),
        None => None,
    }
}

/// A post object: every member of the right type, `in_reply_to_status_id_str`
/// possibly missing or `null`, `is_retweet` false where it is missing.
pub open spec fn tweet_of(j: JsonView) -> Option<TweetView> {
    if required_date(j, "created_at"@) is Some && required_str(j, "id_str"@) is Some
        && required_str(j, "text"@) is Some && required_user(j, "user"@) is Some && optional_str(
        j,
        "in_reply_to_status_id_str"@,
    ) is Some && required_str(j, "lang"@) is Some && required_entity(j, "entities"@) is Some
        && bool_or_false(j, "is_retweet"@) is Some {
        Some(
            TweetView {
                created_at: required_date(j, "created_at"@)->0,
                id_str: required_str(j, "id_str"@)->0,
                text: required_str(j, "text"@)->0,
                user: required_user(j, "user"@)->0,
                reply_to: optional_str(j, "in_reply_to_status_id_str"@)->0,
                lang: required_str(j, "lang"@)->0,
                entities: required_entity(j, "entities"@)->0,
                is_retweet: bool_or_false(j, "is_retweet"@)->0,
            },
        )
    } else {
        None
    }
}

fn read_str(j: &Json, name: &str) -> (r: Option<String>)
    ensures
        r.deep_view() == required_str(j@, name@),
{
    match j.get(name) {
        Some(v) => match v.as_str() {
            Some(s) => Some(s.to_owned()),
            None => None,
        },
        None => None,
    }
}

fn read_bool(j: &Json, name: &str) -> (r: Option<bool>)
    ensures
        r == required_bool(j@, name@),
{
    match j.get(name) {
        Some(v) => v.as_bool(),
        None => None,
    }
}

fn read_i32(j: &Json, name: &str) -> (r: Option<i32>)
    ensures
        r == required_i32(j@, name@),
{
    match j.get(name) {
        Some(v) => v.as_i32(),
        None => None,
    }
}

fn read_optional_str(j: &Json, name: &str) -> (r: Option<Option<String>>)
    ensures
        r.deep_view() == optional_str(j@, name@),
{
    match j.get(name) {
        None => Some(None),
        Some(v) => {
            if v.is_null() {
                Some(None)
            } else {
                match v.as_str() {
                    Some(s) => Some(Some(s.to_owned())),
                    None => None,
                }
            }
        },
    }
}

fn read_optional_i32(j: &Json, name: &str) -> (r: Option<Option<i32>>)
    ensures
        r == optional_i32(j@, name@),
{
    match j.get(name) {
        None => Some(None),
        Some(v) => {
            if v.is_null() {
                Some(None)
            } else {
                match v.as_i32() {
                    Some(n) => Some(Some(n)),
                    None => None,
                }
            }
        },
    }
}

fn read_bool_or_false(j: &Json, name: &str) -> (r: Option<bool>)
    ensures
        r == bool_or_false(j@, name@),
{
    match j.get(name) {
        None => Some(false),
        Some(v) => v.as_bool(),
    }
}

/// Reads a date in the archive's format.
pub fn deserialize_twitter_date(s: &str) -> (r: Option<Timestamp>)
    ensures
        r.deep_view() == instant_of(parsed_instant(s@, TWITTER_DATE_FORMAT@)),
{
    Timestamp::parse(s, TWITTER_DATE_FORMAT)
}

fn read_date(j: &Json, name: &str) -> (r: Option<Timestamp>)
    ensures
        r.deep_view() == required_date(j@, name@),
{
    match j.get(name) {
        Some(v) => match v.as_str() {
            Some(s) => deserialize_twitter_date(s),
            None => None,
        },
        None => None,
    }
}

fn holds(texts: &Vec<String>, text: &str) -> (r: bool)
    ensures
        r == texts.deep_view().contains(text@),
{
    let mut i: usize = 0;
    while i < texts.len()
        invariant
            0 <= i <= texts.len(),
            forall|k: int| 0 <= k < i ==> texts.deep_view()[k] != text@,
        decreases texts.len() - i,
    {
        if str_eq(texts[i].as_str(), text) {
            assert(texts.deep_view()[i as int] == text@);
            return true;
        }
        i += 1;
    }
    false
}

fn collect(items: &Vec<Json>, key: &str) -> (r: Vec<String>)
    ensures
        r.deep_view() == collect_texts(items.deep_view(), key@),
{
    let ghost all = items.deep_view();
    let mut texts: Vec<String> = Vec::new();
    let mut i: usize = 0;
    proof {
        assert(all.take(0) =~= Seq::<JsonView>::empty());
        assert(texts.deep_view() =~= Seq::<Seq<char>>::empty());
    }
    while i < items.len()
        invariant
            0 <= i <= items.len(),
            all == items.deep_view(),
            texts.deep_view() == collect_texts(all.take(i as int), key@),
        decreases items.len() - i,
    {
        let ghost before = texts.deep_view();
        proof {
            assert(all.take(i + 1).drop_last() =~= all.take(i as int));
            assert(all.take(i + 1).last() == items[i as int]@);
        }
        match read_str(&items[i], key) {
            Some(s) => {
                if !holds(&texts, s.as_str()) {
                    texts.push(s);
                    proof {
                        assert(texts.deep_view() =~= before.push(s@));
                    }
                }
            },
            None => {},
        }
        i += 1;
    }
    proof {
        assert(all.take(items.len() as int) =~= all);
    }
    texts
}

/// Reads the mentioned authors of a post from its `user_mentions` member.
pub fn deserialize_user_mentions(value: &Json) -> (r: Option<Vec<String>>)
    ensures
        r.deep_view() == user_mentions_of(value@),
        r matches Some(ids) ==> ids.deep_view().no_duplicates(),
{
    match value.as_array() {
        Some(items) => {
            proof {
                lemma_collect_texts_set(items.deep_view(), "id_str"@);
            }
            Some(collect(items, "id_str"))
        },
        None => None,
    }
}

/// Reads the hashtags of a post from its `hashtags` member.
pub fn deserialize_hashtags(value: &Json) -> (r: Option<Vec<String>>)
    ensures
        r.deep_view() == hashtags_of(value@),
        r matches Some(tags) ==> tags.deep_view().no_duplicates(),
{
    match value.as_array() {
        Some(items) => {
            proof {
                lemma_collect_texts_set(items.deep_view(), "text"@);
            }
            Some(collect(items, "text"))
        },
        None => None,
    }
}

/// Reads an `entities` object.
pub fn decode_entity(j: &Json) -> (r: Option<Entity>)
    ensures
        r.deep_view() == entity_of(j@),
{
    let h = match j.get("hashtags") {
        Some(v) => v,
        None => return None,
    };
    let m = match j.get("user_mentions") {
        Some(v) => v,
        None => return None,
    };
    let hashtags = match deserialize_hashtags(h) {
        Some(v) => v,
        None => return None,
    };
    let user_mentions = match deserialize_user_mentions(m) {
        Some(v) => v,
        None => return None,
    };
    Some(Entity { hashtags, user_mentions })
}

/// Reads a `user` object.
pub fn decode_user(j: &Json) -> (r: Option<User>)
    ensures
        r.deep_view() == user_of(j@),
{
    let id_str = match read_str(j, "id_str") {
        Some(v) => v,
        None => return None,
    };
    let screen_name = match read_str(j, "screen_name") {
        Some(v) => v,
        None => return None,
    };
    let location = match read_optional_str(j, "location") {
        Some(v) => v,
        None => return None,
    };
    let verified = match read_bool(j, "verified") {
        Some(v) => v,
        None => return None,
    };
    let followers_count = match read_i32(j, "followers_count") {
        Some(v) => v,
        None => return None,
    };
    let friends_count = match read_i32(j, "friends_count") {
        Some(v) => v,
        None => return None,
    };
    let listed_count = match read_optional_i32(j, "listed_count") {
        Some(v) => v,
        None => return None,
    };
    let favourites_count = match read_i32(j, "favourites_count") {
        Some(v) => v,
        None => return None,
    };
    let statuses_count = match read_i32(j, "statuses_count") {
        Some(v) => v,
        None => return None,
    };
    let created_at = match read_date(j, "created_at") {
        Some(v) => v,
        None => return None,
    };
    let utc_offset = match read_optional_i32(j, "utc_offset") {
        Some(v) => v,
        None => return None,
    };
    Some(
        User {
            id_str,
            screen_name,
            location,
            verified,
            followers_count,
            friends_count,
            listed_count,
            favourites_count,
            statuses_count,
            created_at,
            utc_offset,
        },
    )
}

/// Reads a post object.
pub fn decode_tweet(j: &Json) -> (r: Option<Tweet>)
    ensures
        r.deep_view() == tweet_of(j@),
{
    let created_at = match read_date(j, "created_at") {
        Some(v) => v,
        None => return None,
    };
    let id_str = match read_str(j, "id_str") {
        Some(v) => v,
        None => return None,
    };
    let text = match read_str(j, "text") {
        Some(v) => v,
        None => return None,
    };
    let user = match j.get("user") {
        Some(v) => match decode_user(v) {
            Some(u) => u,
            None => return None,
        },
        None => return None,
    };
    let reply_to = match read_optional_str(j, "in_reply_to_status_id_str") {
        Some(v) => v,
        None => return None,
    };
    let lang = match read_str(j, "lang") {
        Some(v) => v,
        None => return None,
    };
    let entities = match j.get("entities") {
        Some(v) => match decode_entity(v) {
            Some(e) => e,
            None => return None,
        },
        None => return None,
    };
    let is_retweet = match read_bool_or_false(j, "is_retweet") {
        Some(v) => v,
        None => return None,
    };
    Some(Tweet { created_at, id_str, text, user, reply_to, lang, entities, is_retweet })
}

/// What marks a line as the deletion of a post.
pub const DELETE_MARKER: &'static str = "\"delete\":";

/// What marks a line as a re-shared post.
pub const RETWEET_MARKER: &'static str = "\"retweeted_status\":";

/// What a line of an archive is.
pub ghost enum LineKind {
    /// The deletion of a post.
    Deleted,
    /// Neither a deletion nor a well-formed post.
    Malformed,
    /// A post.
    Valid(TweetView),
}

/// What one line is. A line with the deletion marker is a deletion, whatever
/// else it holds. Any other line is a post if it parses as JSON and decodes
/// as a post, and is malformed otherwise. A post whose line has the re-share
/// marker is flagged as a re-share.
pub open spec fn classify_line(line: Seq<char>) -> LineKind {
    if contains_text(line, DELETE_MARKER@) {
        LineKind::Deleted
    } else {
        match parsed_json(line) {
            Some(j) => match tweet_of(j) {
                Some(t) => LineKind::Valid(
                    TweetView {
                        is_retweet: t.is_retweet || contains_text(line, RETWEET_MARKER@),
                        ..t
                    },
                ),
                None => LineKind::Malformed,
            },
            None => LineKind::Malformed,
        }
    }
}

/// What one line adds to the counts.
pub open spec fn line_counts(line: Seq<char>) -> Counts {
    match classify_line(line) {
        LineKind::Deleted => Counts { total: 1, deleted: 1, ..Counts::zero() },
        LineKind::Malformed => Counts { total: 1, malformed: 1, ..Counts::zero() },
        LineKind::Valid(_) => Counts {
            total: 1,
            decoded: 1,
            retweets: if contains_text(line, RETWEET_MARKER@) {
                1
            } else {
                0
            },
            ..Counts::zero()
        },
    }
}

/// The counts of a file's lines.
pub open spec fn file_counts(lines: Seq<Seq<char>>) -> Counts
    decreases lines.len(),
{
    if lines.len() == 0 {
        Counts::zero()
    } else {
        file_counts(lines.drop_last()).plus(line_counts(lines.last()))
    }
}

/// The posts of a file, in the order of their lines.
pub open spec fn file_tweets(lines: Seq<Seq<char>>) -> Seq<TweetView>
    decreases lines.len(),
{
    if lines.len() == 0 {
        Seq::empty()
    } else {
        let front = file_tweets(lines.drop_last());
        match classify_line(lines.last()) {
            LineKind::Valid(t) => front.push(t),
            _ => front,
        }
    }
}

/// The positions of a file's malformed lines, counted from 0, ascending.
pub open spec fn file_malformed(lines: Seq<Seq<char>>) -> Seq<usize>
    decreases lines.len(),
{
    if lines.len() == 0 {
        Seq::empty()
    } else {
        let front = file_malformed(lines.drop_last());
        match classify_line(lines.last()) {
            LineKind::Malformed => front.push((lines.len() - 1) as usize),
            _ => front,
        }
    }
}

/// Every line of a file is counted once: as decoded, as malformed or as a
/// deletion. As many posts come out as lines were decoded, and as many
/// positions as lines were malformed.
pub proof fn lemma_file_counts(lines: Seq<Seq<char>>)
    ensures
        file_counts(lines).total == lines.len(),
        file_counts(lines).total == file_counts(lines).decoded + file_counts(lines).malformed
            + file_counts(lines).deleted,
        file_counts(lines).balanced(),
        file_counts(lines).decoded == file_tweets(lines).len(),
        file_counts(lines).malformed == file_malformed(lines).len(),
    decreases lines.len(),
{
    if lines.len() > 0 {
        lemma_file_counts(lines.drop_last());
    }
}

/// The counts of two files' lines, one after the other, are the sum of the
/// files' counts.
pub proof fn lemma_file_counts_concat(a: Seq<Seq<char>>, b: Seq<Seq<char>>)
    ensures
        file_counts(a + b) == file_counts(a).plus(file_counts(b)),
    decreases b.len(),
{
    if b.len() == 0 {
        assert(a + b =~= a);
    } else {
        assert((a + b).drop_last() =~= a + b.drop_last());
        assert((a + b).last() == b.last());
        lemma_file_counts_concat(a, b.drop_last());
    }
}

/// One line, decoded.
#[derive(Debug, Clone, PartialEq, Eq)]
pub enum Line {
    /// The deletion of a post.
    Deleted,
    /// Neither a deletion nor a well-formed post.
    Malformed,
    /// A post.
    Valid(Tweet),
}

impl View for Line {
    type V = LineKind;

    open spec fn view(&self) -> LineKind {
        match self {
            Line::Deleted => LineKind::Deleted,
            Line::Malformed => LineKind::Malformed,
            Line::Valid(t) => LineKind::Valid(t@),
        }
    }
}

/// Decodes one line, and says whether it is a post with the re-share
/// marker.
fn decode_marked(line: &str) -> (r: (Line, bool))
    ensures
        r.0@ == classify_line(line@),
        r.1 == (r.0 is Valid && contains_text(line@, RETWEET_MARKER@)),
{
    if contains(line, DELETE_MARKER) {
        return (Line::Deleted, false);
    }
    let document = match Json::parse(line) {
        Some(j) => j,
        None => return (Line::Malformed, false),
    };
    match decode_tweet(&document) {
        Some(mut tweet) => {
            let marked = contains(line, RETWEET_MARKER);
            if marked {
                tweet.is_retweet = true;
            }
            (Line::Valid(tweet), marked)
        },
        None => (Line::Malformed, false),
    }
}

/// Decodes one line of an archive.
pub fn decode_line(line: &str) -> (r: Line)
    ensures
        r@ == classify_line(line@),
{
    decode_marked(line).0
}

/// What decoding a file gives.
#[derive(Debug, Clone, PartialEq, Eq)]
pub struct ParsedFile {
    /// The posts, in the order of their lines.
    pub tweets: Vec<Tweet>,
    /// The positions of the malformed lines, counted from 0, ascending.
    pub malformed_lines: Vec<usize>,
    /// How many lines there were, and of which kind.
    pub counts: IngestStatistics,
}

/// What became of one archive file.
#[derive(Debug, Clone, PartialEq, Eq)]
pub enum FileOutcome {
    /// The file was read and decoded.
    Parsed(ParsedFile),
    /// The file could not be read. It is left out; the run goes on with
    /// the other files.
    Unreadable,
}

/// Decodes the lines of one archive file. A deletion is counted and
/// skipped; a malformed line is counted, noted and skipped; neither stops
/// the file.
pub fn parse_file(lines: &Vec<String>) -> (r: ParsedFile)
    ensures
        r.tweets.deep_view() == file_tweets(lines.deep_view()),
        r.malformed_lines@ == file_malformed(lines.deep_view()),
        r.counts@ == file_counts(lines.deep_view()),
        r.counts.total == lines.len(),
        r.counts.total == r.counts.decoded + r.counts.malformed + r.counts.deleted,
        r.counts.decoded == r.tweets.len(),
        r.counts.malformed == r.malformed_lines.len(),
        r.counts.retweets <= r.counts.decoded,
{
    let ghost all = lines.deep_view();
    let mut tweets: Vec<Tweet> = Vec::new();
    let mut malformed_lines: Vec<usize> = Vec::new();
    let mut counts = IngestStatistics::new();
    let mut i: usize = 0;
    proof {
        assert(all.take(0) =~= Seq::<Seq<char>>::empty());
        assert(tweets.deep_view() =~= Seq::<TweetView>::empty());
    }
    while i < lines.len()
        invariant
            0 <= i <= lines.len(),
            all == lines.deep_view(),
            tweets.deep_view() == file_tweets(all.take(i as int)),
            malformed_lines@ == file_malformed(all.take(i as int)),
            counts@ == file_counts(all.take(i as int)),
        decreases lines.len() - i,
    {
        let ghost seen = all.take(i as int);
        let ghost before = tweets.deep_view();
        proof {
            assert(all.take(i + 1).drop_last() =~= seen);
            assert(all.take(i + 1).last() == lines[i as int]@);
            lemma_file_counts(seen);
        }
        let (line, with_retweet_marker) = decode_marked(lines[i].as_str());
        match line {
            Line::Deleted => {
                counts.total = counts.total + 1;
                counts.deleted = counts.deleted + 1;
            },
            Line::Malformed => {
                counts.total = counts.total + 1;
                counts.malformed = counts.malformed + 1;
                malformed_lines.push(i);
            },
            Line::Valid(tweet) => {
                counts.total = counts.total + 1;
                counts.decoded = counts.decoded + 1;
                if with_retweet_marker {
                    counts.retweets = counts.retweets + 1;
                }
                tweets.push(tweet);
                proof {
                    assert(tweets.deep_view() =~= before.push(tweet@));
                }
            },
        }
        i += 1;
    }
    proof {
        assert(all.take(lines.len() as int) =~= all);
        lemma_file_counts(all);
    }
    ParsedFile { tweets, malformed_lines, counts }
}

} // verus!
