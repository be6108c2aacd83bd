use standup_bot::config::{get_config, ConfigError};
use standup_bot::directory::{resolve, Channel, Directory, DirectoryError, Im, User};
use standup_bot::stand_up::get_slack_config;
use standup_bot::text::{chars_of, mark_in, number_in, split, stretch};
use standup_bot::utils::{Period, TimeOfDay};

fn text(s: Option<&str>) -> Option<String> {
    s.map(|s| s.to_string())
}

fn channel(id: Option<&str>, name: Option<&str>) -> Channel {
    Channel { id: text(id), name: text(name) }
}

fn user(id: Option<&str>, name: Option<&str>) -> User {
    User { id: text(id), name: text(name) }
}

fn im(id: Option<&str>, user: Option<&str>) -> Im {
    Im { id: text(id), user: text(user) }
}

fn office() -> Directory {
    Directory {
        channels: Some(vec![
            channel(Some("C1"), Some("general")),
            channel(Some("C2"), Some("standup")),
            channel(Some("C3"), Some("standup")),
            channel(None, Some("ghost")),
            channel(Some("C5"), None),
        ]),
        users: Some(vec![
            user(Some("U1"), Some("bob")),
            user(Some("U2"), Some("amy")),
            user(Some("U3"), Some("cy")),
            user(Some("U4"), None),
            user(Some("U5"), Some("dee")),
        ]),
        ims: Some(vec![
            im(Some("D3"), Some("U3")),
            im(Some("D9"), Some("U9")),
            im(Some("D1"), Some("U1")),
            im(Some("D4"), Some("U4")),
            im(Some("D2"), Some("U2")),
        ]),
    }
}

fn members(team: &[standup_bot::utils::TeamMember]) -> Vec<(&str, &str, &str)> {
    team.iter().map(|m| (m.name.as_str(), m.id.as_str(), m.dm_id.as_str())).collect()
}

fn chars(s: &str) -> Vec<char> {
    s.chars().collect()
}

#[test]
fn the_team_is_resolved_in_the_order_of_the_direct_message_channels() {
    let (channel_id, team) = resolve(&office(), "standup", "bob,amy,cy").unwrap();
    assert_eq!(channel_id, "C2");
    assert_eq!(members(&team), vec![("cy", "U3", "D3"), ("bob", "U1", "D1"), ("amy", "U2", "D2")]);
    let (_, team) = resolve(&office(), "general", "amy").unwrap();
    assert_eq!(members(&team), vec![("amy", "U2", "D2")]);
    let (_, team) = resolve(&office(), "general", "zed,nobody").unwrap();
    assert!(team.is_empty());
}

#[test]
fn names_are_taken_between_commas_as_they_stand() {
    let (_, team) = resolve(&office(), "general", "bob, amy").unwrap();
    assert_eq!(members(&team), vec![("bob", "U1", "D1")]);
    let (_, team) = resolve(&office(), "general", ",amy,,").unwrap();
    assert_eq!(members(&team), vec![("amy", "U2", "D2")]);
    let (_, team) = resolve(&office(), "general", "Bob,AMY,c").unwrap();
    assert!(team.is_empty());
    let (_, team) = resolve(&office(), "general", "").unwrap();
    assert!(team.is_empty());
}

#[test]
fn a_user_of_the_empty_name_is_found_by_an_empty_field() {
    let mut directory = office();
    directory.users.as_mut().unwrap().push(user(Some("U6"), Some("")));
    directory.ims.as_mut().unwrap().push(im(Some("D6"), Some("U6")));
    let (_, team) = resolve(&directory, "general", "").unwrap();
    assert_eq!(members(&team), vec![("", "U6", "D6")]);
    let (_, team) = resolve(&directory, "general", "bob,").unwrap();
    assert_eq!(members(&team), vec![("bob", "U1", "D1"), ("", "U6", "D6")]);
    let (_, team) = resolve(&directory, "general", "bob").unwrap();
    assert_eq!(members(&team), vec![("bob", "U1", "D1")]);
}

#[test]
fn the_channel_must_be_listed_with_an_id() {
    assert_eq!(resolve(&office(), "random", "bob").unwrap_err(), DirectoryError::NoChannel);
    assert_eq!(resolve(&office(), "ghost", "bob").unwrap_err(), DirectoryError::NoChannel);
    assert_eq!(resolve(&office(), "", "bob").unwrap_err(), DirectoryError::NoChannel);
    assert_eq!(resolve(&office(), "Standup", "bob").unwrap_err(), DirectoryError::NoChannel);
    let mut directory = office();
    directory.channels = None;
    assert_eq!(resolve(&directory, "general", "bob").unwrap_err(), DirectoryError::NoChannel);
    // The first channel of the name counts, also where it has no id.
    let mut directory = office();
    directory.channels = Some(vec![channel(None, Some("standup")), channel(Some("C3"), Some("standup"))]);
    assert_eq!(resolve(&directory, "standup", "bob").unwrap_err(), DirectoryError::NoChannel);
}

#[test]
fn the_lists_of_users_and_direct_messages_must_be_there() {
    let mut directory = office();
    directory.users = None;
    assert_eq!(resolve(&directory, "general", "bob").unwrap_err(), DirectoryError::NoUsers);
    directory.ims = None;
    assert_eq!(resolve(&directory, "general", "bob").unwrap_err(), DirectoryError::NoUsers);
    assert_eq!(resolve(&directory, "random", "bob").unwrap_err(), DirectoryError::NoChannel);
    let mut directory = office();
    directory.ims = None;
    assert_eq!(resolve(&directory, "general", "bob").unwrap_err(), DirectoryError::NoDirectMessages);
    let mut directory = office();
    directory.users = Some(vec![]);
    directory.ims = Some(vec![]);
    assert!(resolve(&directory, "general", "bob").unwrap().1.is_empty());
}

#[test]
fn members_need_an_id_and_a_channel_with_an_id() {
    let mut directory = office();
    directory.ims.as_mut().unwrap()[2] = im(None, Some("U1"));
    assert_eq!(resolve(&directory, "general", "bob,amy").unwrap_err(), DirectoryError::DmWithoutId);
    // Only members of the team are looked at.
    assert_eq!(members(&resolve(&directory, "general", "amy").unwrap().1), vec![("amy", "U2", "D2")]);
    // A user without an id is the one a channel to nobody leads to.
    let mut directory = office();
    directory.users.as_mut().unwrap().push(user(None, Some("eve")));
    assert_eq!(members(&resolve(&directory, "general", "eve").unwrap().1), vec![]);
    directory.ims.as_mut().unwrap().push(im(Some("D7"), None));
    assert_eq!(resolve(&directory, "general", "eve").unwrap_err(), DirectoryError::UserWithoutId);
    directory.ims.as_mut().unwrap().push(im(None, None));
    assert_eq!(resolve(&directory, "general", "eve").unwrap_err(), DirectoryError::UserWithoutId);
    // The first error on the way is the one told.
    directory.ims.as_mut().unwrap().insert(0, im(None, Some("U1")));
    assert_eq!(resolve(&directory, "general", "eve,bob").unwrap_err(), DirectoryError::DmWithoutId);
    assert_eq!(resolve(&directory, "general", "eve").unwrap_err(), DirectoryError::UserWithoutId);
}

#[test]
fn the_first_user_of_an_id_on_the_team_is_the_member() {
    let mut directory = office();
    directory.users = Some(vec![
        user(Some("U1"), Some("old bob")),
        user(Some("U1"), Some("bob")),
        user(Some("U1"), Some("bobby")),
    ]);
    directory.ims = Some(vec![im(Some("D1"), Some("U1")), im(Some("D1b"), Some("U1"))]);
    let (_, team) = resolve(&directory, "general", "bobby,bob").unwrap();
    assert_eq!(members(&team), vec![("bob", "U1", "D1"), ("bob", "U1", "D1b")]);
}

#[test]
fn the_settings_are_put_together() {
    let questions = vec!["Q1".to_string(), "Q2".to_string()];
    let config = get_config("key".to_string(), "standup", "6:30PM", questions.clone(), "amy,bob", &office()).unwrap();
    assert_eq!(config.api_key, "key");
    assert_eq!(config.channel_id, "C2");
    assert_eq!(members(&config.team_members), vec![("bob", "U1", "D1"), ("amy", "U2", "D2")]);
    assert_eq!(config.stand_up_time, TimeOfDay { hour: 6, min: 30, period: Period::PM });
    assert_eq!(config.questions, questions);
    let none = get_config("key".to_string(), "standup", "6:30PM", vec![], "", &office()).unwrap();
    assert!(none.questions.is_empty() && none.team_members.is_empty());
}

#[test]
fn settings_fail_on_the_stand_up_time_first() {
    let attempt = |time: &str, channel: &str| {
        get_config("key".to_string(), channel, time, vec![], "bob", &office()).map(|c| c.channel_id)
    };
    assert_eq!(attempt("blah", "standup"), Err(ConfigError::Schedule));
    assert_eq!(attempt("", "standup"), Err(ConfigError::Schedule));
    assert_eq!(attempt("blah", "random"), Err(ConfigError::Schedule));
    assert_eq!(attempt("9:00AM", "random"), Err(ConfigError::Directory(DirectoryError::NoChannel)));
    assert_eq!(attempt("9:00AM", "general"), Ok("C1".to_string()));
    let mut directory = office();
    directory.ims = None;
    let r = get_config("key".to_string(), "general", "9:00AM", vec![], "bob", &directory);
    assert_eq!(r.unwrap_err(), ConfigError::Directory(DirectoryError::NoDirectMessages));
}

#[test]
fn the_plain_set_up_is_resolved_alike() {
    let config = get_slack_config("key".to_string(), "standup", "cy,bob", &office()).unwrap();
    assert_eq!(config.api_key, "key");
    assert_eq!(config.channel_id, "C2");
    assert_eq!(members(&config.team_members), vec![("cy", "U3", "D3"), ("bob", "U1", "D1")]);
    let r = get_slack_config("key".to_string(), "nowhere", "cy,bob", &office());
    assert_eq!(r.unwrap_err(), DirectoryError::NoChannel);
}

#[test]
fn text_is_split_into_its_fields() {
    let fields = |s: &str, mark: char| -> Vec<String> {
        split(&chars(s), mark).iter().map(|f| f.iter().collect::<String>()).collect()
    };
    assert_eq!(fields("a,b,c", ','), vec!["a", "b", "c"]);
    assert_eq!(fields("alice, bob", ','), vec!["alice", " bob"]);
    assert_eq!(fields("", ','), vec![""]);
    assert_eq!(fields(",", ','), vec!["", ""]);
    assert_eq!(fields("a,,b,", ','), vec!["a", "", "b", ""]);
    assert_eq!(fields("no mark", ','), vec!["no mark"]);
    assert_eq!(fields("9:00", ':'), vec!["9", "00"]);
    for s in ["", ",", "a", "a,b", ",a,,b,", "héllo,wörld", ",,,,"] {
        let ours = fields(s, ',');
        let theirs: Vec<&str> = s.split(',').collect();
        assert_eq!(ours, theirs, "{:?}", s);
    }
}

#[test]
fn marks_are_found_and_stretches_taken() {
    let row = chars("ab:cd:e");
    assert_eq!(mark_in(&row, ':', 0, 7), 2);
    assert_eq!(mark_in(&row, ':', 2, 7), 2);
    assert_eq!(mark_in(&row, ':', 3, 7), 5);
    assert_eq!(mark_in(&row, ':', 6, 7), 7);
    assert_eq!(mark_in(&row, ':', 3, 5), 5);
    assert_eq!(mark_in(&row, ':', 3, 4), 4);
    assert_eq!(mark_in(&row, ':', 7, 7), 7);
    assert_eq!(mark_in(&row, 'x', 0, 7), 7);
    assert_eq!(stretch(&row, 3, 5), chars("cd"));
    assert_eq!(stretch(&row, 0, 7), row);
    assert_eq!(stretch(&row, 4, 4), chars(""));
    assert_eq!(chars_of("héllo"), chars("héllo"));
    assert_eq!(chars_of(""), chars(""));
}

#[test]
fn numbers_are_read_in_decimal_digits() {
    let read = |s: &str| number_in(&chars(s), 0, s.chars().count());
    assert_eq!(read("0"), Some(0));
    assert_eq!(read("7"), Some(7));
    assert_eq!(read("42"), Some(42));
    assert_eq!(read("255"), Some(255));
    assert_eq!(read("256"), None);
    assert_eq!(read("260"), None);
    assert_eq!(read("999"), None);
    assert_eq!(read("99999999999999999999999999"), None);
    assert_eq!(read("000000000000000000000000255"), Some(255));
    assert_eq!(read("+"), None);
    assert_eq!(read("+0"), Some(0));
    assert_eq!(read("+255"), Some(255));
    assert_eq!(read("+256"), None);
    assert_eq!(read("++1"), None);
    assert_eq!(read("-1"), None);
    assert_eq!(read("-0"), None);
    assert_eq!(read(""), None);
    assert_eq!(read(" 1"), None);
    assert_eq!(read("1 "), None);
    assert_eq!(read("1_0"), None);
    assert_eq!(read("0x1"), None);
    assert_eq!(read("1a"), None);
    assert_eq!(read("2561a"), None);
    assert_eq!(read("٣"), None);
    for s in ["0", "9", "10", "255", "256", "+7", "+", "", "-3", "007", "12a", "1e1", "٣", "1.0"] {
        assert_eq!(read(s), s.parse::<u8>().ok(), "{:?}", s);
    }
    let row = chars("ab12cd");
    assert_eq!(number_in(&row, 2, 4), Some(12));
    assert_eq!(number_in(&row, 2, 3), Some(1));
    assert_eq!(number_in(&row, 2, 2), None);
    assert_eq!(number_in(&row, 1, 4), None);
    assert_eq!(number_in(&row, 2, 5), None);
}
