use standup_bot::instant::Instant;
use standup_bot::post::{farewell_text, greeting_text, summary_text, Post};
use standup_bot::retry::{Retries, MAX_RETRIES};
use standup_bot::router::{route, Message, RouteError};
use standup_bot::stand_up::{SlackConfig, StandUp, TeamMember};

fn member(name: &str, id: &str, dm_id: &str) -> TeamMember {
    TeamMember { name: name.to_string(), id: id.to_string(), dm_id: dm_id.to_string() }
}

fn post(channel: &str, text: &str) -> Post {
    Post { channel: channel.to_string(), text: text.to_string() }
}

fn message(user: Option<&str>, channel: Option<&str>, text: Option<&str>) -> Message {
    Message::Standard {
        user: user.map(|s| s.to_string()),
        channel: channel.map(|s| s.to_string()),
        text: text.map(|s| s.to_string()),
    }
}

fn stand_up() -> StandUp {
    StandUp::new(SlackConfig {
        api_key: "key".to_string(),
        channel_id: "C1".to_string(),
        team_members: vec![member("bob", "U1", "D1"), member("amy", "U2", "D2")],
    })
}

// 2024-01-03T00:00:00Z, a Wednesday.
fn wednesday(secs: i64, nanos: u32) -> Instant {
    Instant::from_timestamp(1_704_240_000 + secs, nanos).unwrap()
}

fn strings(v: &[&str]) -> Vec<String> {
    v.iter().map(|s| s.to_string()).collect()
}

#[test]
fn a_new_stand_up_has_never_asked() {
    let s = stand_up();
    assert_eq!(s.api_key, "key");
    assert_eq!(s.channel_id, "C1");
    assert_eq!(s.team_members.len(), 2);
    assert_eq!(s.last_asked, Instant::earliest());
    assert!(!s.asked_today(wednesday(0, 0)));
    assert!(!s.asked_today(Instant::from_timestamp(Instant::earliest().timestamp() + 86_400, 0).unwrap()));
    assert!(s.asked_today(Instant::from_timestamp(Instant::earliest().timestamp() + 86_399, 999_999_999).unwrap()));
}

#[test]
fn the_members_are_asked_once_in_a_day() {
    let mut s = stand_up();
    let posts = s.stand_up_loop(wednesday(3600, 500));
    assert_eq!(
        posts,
        vec![
            post("D1", "Hello bob, it's Wednesday! Time for your daily stand-up!"),
            post("D2", "Hello amy, it's Wednesday! Time for your daily stand-up!"),
            post("D1", "So bob, what were you up to yesterday?"),
            post("D2", "So amy, what were you up to yesterday?"),
        ]
    );
    assert_eq!(s.last_asked, wednesday(3600, 500));
    assert!(s.asked_today(wednesday(3600, 500)));
    assert!(s.asked_today(wednesday(3600 + 86_399, 500)));
    assert!(s.asked_today(wednesday(3600 + 86_400, 499)));
    assert!(!s.asked_today(wednesday(3600 + 86_400, 500)));
    assert!(s.asked_today(wednesday(0, 0)));
    assert_eq!(s.stand_up_loop(wednesday(3600 + 86_400, 499)), vec![]);
    assert_eq!(s.last_asked, wednesday(3600, 500));
    let again = s.stand_up_loop(wednesday(3600 + 86_400, 500));
    assert_eq!(again.len(), 4);
    assert_eq!(again[0].text, "Hello bob, it's Thursday! Time for your daily stand-up!");
    assert_eq!(s.last_asked, wednesday(3600 + 86_400, 500));
}

#[test]
fn a_stand_up_of_nobody_asks_nobody() {
    let mut s = StandUp::new(SlackConfig { api_key: String::new(), channel_id: String::new(), team_members: vec![] });
    assert_eq!(s.stand_up_loop(wednesday(0, 0)), vec![]);
    assert_eq!(s.last_asked, wednesday(0, 0));
}

#[test]
fn answers_are_passed_on_under_the_member_s_name() {
    let s = stand_up();
    assert_eq!(
        s.handle_message(&message(Some("U2"), Some("D2"), Some("fixed the build"))),
        Ok(Some(post("C1", "amy: fixed the build")))
    );
    assert_eq!(s.handle_message(&message(Some("U1"), Some("D2"), None)), Ok(Some(post("C1", "bob: Nothing"))));
    assert_eq!(s.handle_message(&message(Some("U1"), Some("C1"), Some("x"))), Ok(None));
    assert_eq!(s.handle_message(&message(Some("U1"), None, Some("x"))), Ok(None));
    assert_eq!(s.handle_message(&Message::Other), Ok(None));
    assert_eq!(s.handle_message(&message(None, Some("D1"), Some("x"))), Err(RouteError::NoUser));
    assert_eq!(s.handle_message(&message(Some("U3"), Some("D1"), Some("x"))), Err(RouteError::UnknownUser));
}

#[test]
fn messages_are_routed_to_the_first_member_of_the_sender_s_id() {
    let team = vec![member("bob", "U1", "D1"), member("amy", "U2", "D2"), member("bobby", "U1", "D3")];
    assert_eq!(route(&team, &message(Some("U1"), Some("D3"), Some("hi"))), Ok(Some((0, "hi".to_string()))));
    assert_eq!(route(&team, &message(Some("U2"), Some("D1"), Some(""))), Ok(Some((1, String::new()))));
    assert_eq!(route(&team, &message(Some("U2"), Some("D2"), None)), Ok(Some((1, "Nothing".to_string()))));
    assert_eq!(route(&team, &message(Some("U2"), Some("D4"), Some("hi"))), Ok(None));
    assert_eq!(route(&team, &message(None, Some("D4"), Some("hi"))), Ok(None));
    assert_eq!(route(&team, &message(Some("U2"), None, Some("hi"))), Ok(None));
    assert_eq!(route(&team, &Message::Other), Ok(None));
    assert_eq!(route(&team, &message(None, Some("D3"), Some("hi"))), Err(RouteError::NoUser));
    assert_eq!(route(&team, &message(Some("u1"), Some("D3"), Some("hi"))), Err(RouteError::UnknownUser));
    assert_eq!(route(&vec![], &message(Some("U1"), Some("D1"), Some("hi"))), Ok(None));
}

#[test]
fn the_texts_read_as_they_should() {
    assert_eq!(
        greeting_text(&"bob".to_string(), &"Friday".to_string()),
        "Hello bob, it's Friday! Time for your daily stand-up!"
    );
    assert_eq!(greeting_text(&String::new(), &String::new()), "Hello , it's ! Time for your daily stand-up!");
    assert_eq!(farewell_text(), "All done for the day, speak to you tomorrow!");
    let questions = strings(&["Q1", "Q2", "Q3"]);
    assert_eq!(summary_text(&"bob".to_string(), &questions, &strings(&[])), "*bob*\n");
    assert_eq!(summary_text(&"bob".to_string(), &questions, &strings(&["a"])), "*bob*\n**Q1**: a");
    assert_eq!(
        summary_text(&"bob".to_string(), &questions, &strings(&["a", "b", "c"])),
        "*bob*\n**Q1**: a\n**Q2**: b\n**Q3**: c"
    );
    assert_eq!(
        summary_text(&"b*b".to_string(), &strings(&["", "two\nlines"]), &strings(&["", "x\ny"])),
        "*b*b*\n****: \n**two\nlines**: x\ny"
    );
}

#[test]
fn failures_in_a_row_are_counted() {
    let at = |secs: i64| Instant::from_timestamp(1_700_000_000 + secs, 0).unwrap();
    let mut r = Retries::new();
    assert_eq!(r, Retries { retries: 0, last_error: None });
    assert!(r.failed(at(0)));
    assert_eq!(r, Retries { retries: 1, last_error: Some(at(0)) });
    for n in 2..=MAX_RETRIES {
        assert!(r.failed(at(n as i64)));
        assert_eq!(r.retries, n);
    }
    assert_eq!(MAX_RETRIES, 10);
    assert!(!r.failed(at(11)));
    assert_eq!(r, Retries { retries: 11, last_error: Some(at(11)) });
    assert!(!r.failed(at(12)));
    assert_eq!(r.retries, 12);
    // After more than a minute of quiet the count starts anew.
    assert!(r.failed(at(73)));
    assert_eq!(r, Retries { retries: 1, last_error: Some(at(73)) });
}

#[test]
fn a_minute_of_quiet_is_more_than_sixty_seconds() {
    let at = |secs: i64, nanos: u32| Instant::from_timestamp(secs, nanos).unwrap();
    let mut r = Retries { retries: 5, last_error: Some(at(100, 7)) };
    assert!(r.failed(at(160, 7)));
    assert_eq!(r.retries, 6);
    assert!(r.failed(at(220, 8)));
    assert_eq!(r.retries, 1);
    // A clock that went back starts no new row.
    assert!(r.failed(at(0, 0)));
    assert_eq!(r, Retries { retries: 2, last_error: Some(at(0, 0)) });
    let mut full = Retries { retries: u32::MAX, last_error: Some(at(0, 0)) };
    assert!(!full.failed(at(1, 0)));
    assert_eq!(full.retries, u32::MAX);
}
