use leaf::source::{V2Media, V2Post, is_sqlite, posts_with_media, sort_by_day};
use leaf::transfer::TransferPost;

fn post(day: i64, msg: &str, chan: &str, ts: i64) -> V2Post {
    V2Post {
        day,
        message_id: msg.to_owned(),
        channel_id: chan.to_owned(),
        user_id: "u".to_owned(),
        timestamp: ts,
    }
}

fn media(day: i64, url: &str) -> V2Media {
    V2Media { post_day: day, url: url.to_owned() }
}

fn record(day: i64, msg: &str) -> TransferPost {
    TransferPost {
        day,
        message_id: msg.to_owned(),
        channel_id: "c".to_owned(),
        user_id: "u".to_owned(),
        timestamp: day,
        media: vec![],
    }
}

#[test]
fn sqlite_is_detected_by_content() {
    let mut db = b"SQLite format 3\0".to_vec();
    db.extend_from_slice(&[0u8; 84]);
    assert!(is_sqlite(&db));
    assert!(is_sqlite(b"SQLite format 3\0"));
    assert!(!is_sqlite(b"SQLite format 3"));
    assert!(!is_sqlite(b"[{\"day\":1}]"));
    assert!(!is_sqlite(b"not json, not sqlite"));
    assert!(!is_sqlite(b""));
}

#[test]
fn v2_rows_group_media_by_day_and_sort() {
    // Day 2 with two media (inserted out of order), day 1 with one, day 3
    // with none.
    let posts = vec![
        post(2, "m2", "c1", 1_700_000_200),
        post(1, "m1", "c1", 1_700_000_100),
        post(3, "m3", "c2", 1_700_000_300),
    ];
    let rows = vec![
        media(2, "https://cdn.discordapp.com/attachments/c1/201/a.png"),
        media(2, "https://cdn.discordapp.com/attachments/c1/202/b.png"),
        media(1, "https://cdn.discordapp.com/attachments/c1/101/x.png"),
    ];
    let posts = sort_by_day(posts_with_media(&posts, &rows));
    assert_eq!(posts.iter().map(|p| p.day).collect::<Vec<_>>(), [1, 2, 3]);

    let day1 = posts.iter().find(|p| p.day == 1).unwrap();
    assert_eq!(day1.message_id, "m1");
    assert_eq!(day1.timestamp, 1_700_000_100);
    assert_eq!(day1.media.len(), 1);

    let day2 = posts.iter().find(|p| p.day == 2).unwrap();
    assert_eq!(
        day2.media,
        vec![
            "https://cdn.discordapp.com/attachments/c1/201/a.png".to_owned(),
            "https://cdn.discordapp.com/attachments/c1/202/b.png".to_owned(),
        ]
    );

    let day3 = posts.iter().find(|p| p.day == 3).unwrap();
    assert!(day3.media.is_empty());
    assert_eq!(day3.channel_id, "c2");
}

#[test]
fn a_repeated_day_gets_its_media_once() {
    let posts = vec![post(5, "a", "c", 1), post(5, "b", "c", 2)];
    let rows = vec![media(5, "u1")];
    let out = posts_with_media(&posts, &rows);
    assert_eq!(out[0].media, vec!["u1".to_owned()]);
    assert!(out[1].media.is_empty());
}

#[test]
fn sorting_by_day_is_stable() {
    let sorted = sort_by_day(vec![
        record(3, "x"),
        record(1, "a"),
        record(3, "y"),
        record(2, "b"),
        record(1, "c"),
    ]);
    let got: Vec<(i64, &str)> = sorted.iter().map(|p| (p.day, p.message_id.as_str())).collect();
    assert_eq!(got, [(1, "a"), (1, "c"), (2, "b"), (3, "x"), (3, "y")]);
    assert!(sort_by_day(Vec::new()).is_empty());
}
