use chrono::DateTime;
use retoro::forum::filter::Filter;
use retoro::forum::time::Timestamp;
use uuid::Uuid;

#[test]
fn test_prepare_query_no_filters() {
    let filter = Filter {
        after: None,
        before: None,
        thread: None,
        author: None,
        limit: None,
    };
    assert_eq!(
        filter.prepare("SELECT * FROM posts".to_string()),
        "SELECT * FROM posts;"
    );
}

#[test]
fn test_prepare_query_with_start_timestamp() {
    let start_timestamp = DateTime::from_timestamp(0, 0).unwrap();
    let filter = Filter {
        after: Some(Timestamp::from_timestamp(0, 0).unwrap()),
        before: None,
        thread: None,
        author: None,
        limit: None,
    };
    assert_eq!(
        filter.prepare("SELECT * FROM posts".to_string()),
        format!(
            "SELECT * FROM posts WHERE created_at >= '{}';",
            start_timestamp.to_string()
        )
    );
}

#[test]
fn test_prepare_query_with_end_timestamp() {
    let end_timestamp = DateTime::from_timestamp(0, 0).unwrap();
    let filter = Filter {
        after: None,
        before: Some(Timestamp::from_timestamp(0, 0).unwrap()),
        thread: None,
        author: None,
        limit: None,
    };
    assert_eq!(
        filter.prepare("SELECT * FROM posts".to_string()),
        format!(
            "SELECT * FROM posts WHERE created_at <= '{}';",
            end_timestamp.to_string()
        )
    );
}

#[test]
fn test_prepare_query_with_user() {
    let user = Uuid::new_v4();
    let filter = Filter {
        after: None,
        before: None,
        thread: None,
        author: Some(user.as_u128()),
        limit: None,
    };
    assert_eq!(
        filter.prepare("SELECT * FROM posts".to_string()),
        format!("SELECT * FROM posts WHERE author_id = '{}';", user)
    );
}

#[test]
fn test_prepare_query_with_limit() {
    let filter = Filter {
        after: None,
        before: None,
        thread: None,
        author: None,
        limit: Some(10),
    };
    assert_eq!(
        filter.prepare("SELECT * FROM threads".to_string()),
        "SELECT * FROM threads LIMIT 10;"
    );
}

#[test]
fn test_prepare_query_with_multiple_filters() {
    let start_timestamp = chrono::DateTime::from_timestamp(0, 0).unwrap();
    let end_timestamp = chrono::DateTime::from_timestamp(100, 0).unwrap();
    let thread = Uuid::new_v4();
    let user = Uuid::new_v4();
    let limit = 10;
    let filter = Filter {
        after: Some(Timestamp::from_timestamp(0, 0).unwrap()),
        before: Some(Timestamp::from_timestamp(100, 0).unwrap()),
        thread: Some(thread.as_u128()),
        author: Some(user.as_u128()),
        limit: Some(limit),
    };
    assert_eq!(
        filter.prepare("SELECT * FROM posts".to_string()),
        format!("SELECT * FROM posts WHERE created_at >= '{start_timestamp}' AND created_at <= '{end_timestamp}' AND thread_id = '{thread}' AND author_id = '{user}' LIMIT {limit};")
    );
}

#[test]
fn prepare_quotes_the_thread_id() {
    let filter = Filter {
        after: None,
        before: None,
        thread: Some(0x0011_2233_4455_6677_8899_aabb_ccdd_eeff),
        author: None,
        limit: None,
    };
    assert_eq!(
        filter.prepare("SELECT * FROM posts".to_string()),
        "SELECT * FROM posts WHERE thread_id = '00112233-4455-6677-8899-aabbccddeeff';"
    );
}

#[test]
fn prepare_joins_two_conditions_with_one_and() {
    let filter = Filter {
        after: None,
        before: Some(Timestamp::from_timestamp(1, 500_000_000).unwrap()),
        thread: None,
        author: Some(1),
        limit: Some(-3),
    };
    assert_eq!(
        filter.prepare("SELECT id FROM posts".to_string()),
        "SELECT id FROM posts WHERE created_at <= '1970-01-01 00:00:01.500 UTC' AND author_id = '00000000-0000-0000-0000-000000000001' LIMIT -3;"
    );
}

#[test]
fn prepare_writes_the_extreme_limits() {
    for limit in [i64::MIN, -1, 0, 9, 10, 1_000_000, i64::MAX] {
        let filter = Filter { after: None, before: None, thread: None, author: None, limit: Some(limit) };
        assert_eq!(filter.prepare("q".to_string()), format!("q LIMIT {};", limit));
    }
}

#[test]
fn timestamp_is_what_chrono_has() {
    let t = Timestamp::from_timestamp(1_700_000_000, 123_456_789).unwrap();
    assert_eq!(t.secs(), 1_700_000_000);
    assert_eq!(t.nanos(), 123_456_789);
    assert_eq!(
        t.as_str(),
        DateTime::from_timestamp(1_700_000_000, 123_456_789).unwrap().to_string()
    );
    assert_eq!(t.as_str(), "2023-11-14 22:13:20.123456789 UTC");
    assert_eq!(Timestamp::from_timestamp(i64::MAX, 0), None);
    assert_eq!(Timestamp::from_timestamp(0, 2_000_000_000), None);
}
