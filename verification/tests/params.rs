use tweet_ingest::db::{
    concat_records, plan_batches, prepare_batch_parameters, prepare_tweet_parameters, Batch,
    Credentials, ParamValue,
};
use tweet_ingest::instant::Timestamp;
use tweet_ingest::json::{Entity, Tweet, User};

fn post(id: &str) -> Tweet {
    Tweet {
        created_at: Timestamp::from_unix(1558623286, 0).unwrap(),
        id_str: String::from(id),
        text: String::from("hello"),
        user: User {
            id_str: String::from("u1"),
            screen_name: String::from("alice"),
            location: Some(String::from("Delft")),
            verified: true,
            followers_count: 10,
            friends_count: 5,
            listed_count: None,
            favourites_count: 2,
            statuses_count: 3,
            created_at: Timestamp::from_unix(1514764800, 0).unwrap(),
            utc_offset: Some(-3600),
        },
        reply_to: Some(String::from("7")),
        lang: String::from("en"),
        entities: Entity {
            hashtags: vec![String::from("rust"), String::from("verus")],
            user_mentions: vec![],
        },
        is_retweet: false,
    }
}

fn text(s: &str) -> ParamValue {
    ParamValue::Text(String::from(s))
}

fn expected_row(id: &str) -> Vec<(String, ParamValue)> {
    vec![
        (String::from("id"), text(id)),
        (String::from("text"), text("hello")),
        (String::from("created_at"), text("2019-05-23T14:54:46+00:00")),
        (String::from("reply_to"), text("7")),
        (String::from("lang"), text("en")),
        (
            String::from("hashtags"),
            ParamValue::TextList(vec![String::from("rust"), String::from("verus")]),
        ),
        (String::from("user_mentions"), ParamValue::TextList(vec![])),
        (String::from("userId"), text("u1")),
        (String::from("userName"), text("alice")),
        (String::from("userLocation"), text("Delft")),
        (String::from("userVerified"), ParamValue::Boolean(true)),
        (String::from("userFollowersCount"), ParamValue::Integer(10)),
        (String::from("userFriendsCount"), ParamValue::Integer(5)),
        (String::from("userListedCount"), ParamValue::Null),
        (String::from("userFavouritesCount"), ParamValue::Integer(2)),
        (String::from("userStatusesCount"), ParamValue::Integer(3)),
        (String::from("userCreatedAt"), text("2018-01-01T00:00:00+00:00")),
        (String::from("userUtcOffset"), ParamValue::Integer(-3600)),
    ]
}

#[test]
fn a_post_gives_its_eighteen_parameters() {
    assert_eq!(prepare_tweet_parameters(&post("1")), expected_row("1"));
}

#[test]
fn absent_values_become_null() {
    let mut p = post("1");
    p.reply_to = None;
    p.user.location = None;
    p.user.utc_offset = None;
    p.user.listed_count = Some(4);
    let row = prepare_tweet_parameters(&p);
    assert_eq!(row[3], (String::from("reply_to"), ParamValue::Null));
    assert_eq!(row[9], (String::from("userLocation"), ParamValue::Null));
    assert_eq!(row[13], (String::from("userListedCount"), ParamValue::Integer(4)));
    assert_eq!(row[17], (String::from("userUtcOffset"), ParamValue::Null));
}

#[test]
fn parameter_names_are_distinct() {
    let row = prepare_tweet_parameters(&post("1"));
    assert_eq!(row.len(), 18);
    for i in 0..row.len() {
        for j in (i + 1)..row.len() {
            assert_ne!(row[i].0, row[j].0);
        }
    }
}

#[test]
fn a_batch_gives_one_row_per_post_in_order() {
    let chunk = vec![post("1"), post("2"), post("3")];
    assert_eq!(
        prepare_batch_parameters(&chunk),
        vec![expected_row("1"), expected_row("2"), expected_row("3")]
    );
    assert_eq!(prepare_batch_parameters(&vec![]), Vec::<Vec<(String, ParamValue)>>::new());
}

#[test]
fn preparing_a_batch_again_gives_the_same_parameters() {
    let chunk = vec![post("1"), post("2")];
    assert_eq!(prepare_batch_parameters(&chunk), prepare_batch_parameters(&chunk));
}

fn ids(batch: &Batch) -> Vec<String> {
    batch.tweets.iter().map(|t| t.id_str.clone()).collect()
}

fn posts(n: usize) -> Vec<Tweet> {
    (0..n).map(|i| post(&i.to_string())).collect()
}

#[test]
fn batches_are_full_but_for_the_last() {
    let batches = plan_batches(posts(7), 3);
    assert_eq!(batches.len(), 3);
    assert_eq!(ids(&batches[0]), vec!["0", "1", "2"]);
    assert_eq!(ids(&batches[1]), vec!["3", "4", "5"]);
    assert_eq!(ids(&batches[2]), vec!["6"]);
    assert_eq!(batches[0].index, 0);
    assert_eq!(batches[1].index, 1);
    assert_eq!(batches[2].index, 2);
}

#[test]
fn an_exact_multiple_gives_no_short_batch() {
    let batches = plan_batches(posts(6), 3);
    assert_eq!(batches.len(), 2);
    assert_eq!(ids(&batches[0]), vec!["0", "1", "2"]);
    assert_eq!(ids(&batches[1]), vec!["3", "4", "5"]);
}

#[test]
fn no_posts_give_no_batch() {
    assert!(plan_batches(vec![], 500).is_empty());
}

#[test]
fn fewer_posts_than_the_size_give_one_batch() {
    let batches = plan_batches(posts(2), 500);
    assert_eq!(batches.len(), 1);
    assert_eq!(ids(&batches[0]), vec!["0", "1"]);
}

#[test]
fn a_size_of_one_gives_a_batch_per_post() {
    let batches = plan_batches(posts(3), 1);
    assert_eq!(batches.len(), 3);
    for (i, b) in batches.iter().enumerate() {
        assert_eq!(b.index, i);
        assert_eq!(ids(b), vec![i.to_string()]);
    }
}

#[test]
fn batches_keep_every_post_in_order() {
    let all = posts(1203);
    let batches = plan_batches(all.clone(), 500);
    assert_eq!(batches.len(), 3);
    assert_eq!(batches[0].tweets.len(), 500);
    assert_eq!(batches[1].tweets.len(), 500);
    assert_eq!(batches[2].tweets.len(), 203);
    let joined: Vec<Tweet> = batches.into_iter().flat_map(|b| b.tweets).collect();
    assert_eq!(joined, all);
}

#[test]
fn default_credentials_point_at_a_local_store() {
    let c = Credentials::default();
    assert_eq!(c.uri(), "localhost:7676");
    assert_eq!(c.user(), "neo4j");
    assert_eq!(c.password(), "neo4j");
}

#[test]
fn credentials_keep_what_they_are_given() {
    let c = Credentials::new(String::from("bolt://db:7687"), String::from("me"), String::from("pw"));
    assert_eq!(c.uri(), "bolt://db:7687");
    assert_eq!(c.user(), "me");
    assert_eq!(c.password(), "pw");
}

#[test]
fn records_are_joined_file_after_file() {
    let files = vec![vec![post("a"), post("b")], vec![], vec![post("c")], vec![post("d"), post("e")]];
    let all = concat_records(files);
    let ids: Vec<&str> = all.iter().map(|t| t.id_str.as_str()).collect();
    assert_eq!(ids, vec!["a", "b", "c", "d", "e"]);
    assert!(concat_records(vec![]).is_empty());
    assert!(concat_records(vec![vec![]]).is_empty());
}
