use discuss_bot::bot::{first_topic_ids, group_by_user, selected_discussion, topic_options, UserUrls, NEW_TOPIC_ID};
use discuss_bot::models::{Action, Choice, Payload, SqlTopic, SqlUrl, SqlUser, SqlUserUrlResult, User};

fn url(id: u32, value: &str, topic: u32) -> SqlUrl {
    SqlUrl {
        id,
        value: value.to_string(),
        topics: vec![SqlTopic { id: topic, name: format!("t{}", topic) }],
    }
}

fn row(user: &str, u: SqlUrl) -> SqlUserUrlResult {
    SqlUserUrlResult { user: SqlUser { id: user.to_string() }, url: u }
}

#[test]
fn options_offer_the_typed_text_when_nothing_matches() {
    let r = topic_options(Vec::new(), "kotlin".to_string());
    assert_eq!(r, vec![(NEW_TOPIC_ID, "kotlin".to_string())]);
    assert_eq!(NEW_TOPIC_ID, -1);
}

#[test]
fn options_are_the_topics_found() {
    let found = vec![(1, "rust".to_string()), (2, "ruby".to_string())];
    let r = topic_options(found.clone(), "ru".to_string());
    assert_eq!(r, found);
}

#[test]
fn selected_discussion_reads_first_action() {
    let payload = Payload {
        response_url: "https://hooks.example/r".to_string(),
        actions: vec![
            Action {
                action_id: "https://a.com".to_string(),
                selected_options: vec![Choice { value: "3".to_string() }, Choice { value: "5".to_string() }],
            },
            Action { action_id: "ignored".to_string(), selected_options: vec![] },
        ],
        user: User { id: "U1".to_string() },
    };
    let (link, topics) = selected_discussion(&payload);
    assert_eq!(link, "https://a.com");
    assert_eq!(topics, vec!["3".to_string(), "5".to_string()]);
}

#[test]
fn grouping_gathers_consecutive_rows_of_a_user() {
    let rows = vec![
        row("A", url(1, "https://1.com", 10)),
        row("A", url(2, "https://2.com", 11)),
        row("B", url(3, "https://3.com", 10)),
        row("A", url(4, "https://4.com", 12)),
    ];
    let groups = group_by_user(rows);
    assert_eq!(
        groups,
        vec![
            UserUrls { user: "A".to_string(), urls: vec![url(1, "https://1.com", 10), url(2, "https://2.com", 11)] },
            UserUrls { user: "B".to_string(), urls: vec![url(3, "https://3.com", 10)] },
            UserUrls { user: "A".to_string(), urls: vec![url(4, "https://4.com", 12)] },
        ]
    );
}

#[test]
fn grouping_nothing_gives_nothing() {
    assert_eq!(group_by_user(Vec::new()), Vec::new());
}

#[test]
fn grouping_keeps_every_row_in_order() {
    let rows: Vec<SqlUserUrlResult> = (0..20u32)
        .map(|i| row(if i % 3 == 0 { "X" } else { "Y" }, url(i, &format!("https://{}.io", i), i)))
        .collect();
    let groups = group_by_user(rows.clone());
    let flat: Vec<(String, SqlUrl)> =
        groups.iter().flat_map(|g| g.urls.iter().map(move |u| (g.user.clone(), u.clone()))).collect();
    let expected: Vec<(String, SqlUrl)> = rows.into_iter().map(|r| (r.user.id, r.url)).collect();
    assert_eq!(flat, expected);
    for w in groups.windows(2) {
        assert_ne!(w[0].user, w[1].user);
    }
    assert!(groups.iter().all(|g| !g.urls.is_empty()));
}

#[test]
fn first_topic_of_each_link() {
    let mut u = url(1, "https://1.com", 7);
    u.topics.push(SqlTopic { id: 8, name: "t8".to_string() });
    let urls = vec![u, url(2, "https://2.com", 9)];
    assert_eq!(first_topic_ids(&urls), vec![7, 9]);
}
