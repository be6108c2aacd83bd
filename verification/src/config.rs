//! What a stand-up is configured with, and how the settings are put
//! together from the texts given and the platform's directory.

use crate::directory::{resolve, team_of, Directory, DirectoryError, Listing};
use crate::utils::{time_of_day_of, Member, TeamMember, TimeOfDay};
use vstd::prelude::*;

verus! {

/// The settings of a stand-up: the credentials and the channel that
/// summaries go to, the members in the order they are served, the time of
/// day at which questioning starts, and the questions in the order asked.
#[derive(Debug)]
pub struct Config {
    pub api_key: String,
    pub channel_id: String,
    pub team_members: Vec<TeamMember>,
    pub stand_up_time: TimeOfDay,
    pub questions: Vec<String>,
}

/// What a `Config` holds, as plain text.
pub struct Settings {
    pub api_key: Seq<char>,
    pub channel_id: Seq<char>,
    pub team_members: Seq<Member>,
    pub stand_up_time: TimeOfDay,
    pub questions: Seq<Seq<char>>,
}

impl DeepView for Config {
    type V = Settings;

    open spec fn deep_view(&self) -> Settings {
        Settings {
            api_key: self.api_key@,
            channel_id: self.channel_id@,
            team_members: self.team_members.deep_view(),
            stand_up_time: self.stand_up_time,
            questions: self.questions.deep_view(),
        }
    }
}

/// Why no settings could be put together.
#[derive(Clone, Copy, Debug, PartialEq, Eq, Structural)]
pub enum ConfigError {
    /// The text of the stand-up time writes no time of day.
    Schedule,
    /// The directory does not resolve the team.
    Directory(DirectoryError),
}

/// The settings that the given texts and the directory's listing make. The
/// stand-up time is read first, then the team is resolved; key and
/// questions are taken as they are.
pub open spec fn settings_of(
    api_key: Seq<char>,
    channel: Seq<char>,
    stand_up_time: Seq<char>,
    questions: Seq<Seq<char>>,
    team_members: Seq<char>,
    listing: Listing,
) -> Result<Settings, ConfigError> {
    match time_of_day_of(stand_up_time) {
        None => Err(ConfigError::Schedule),
        Some(time) => match team_of(listing, channel, team_members) {
            Err(e) => Err(ConfigError::Directory(e)),
            Ok(team) => Ok(
                Settings {
                    api_key,
                    channel_id: team.0,
                    team_members: team.1,
                    stand_up_time: time,
                    questions,
                },
            ),
        },
    }
}

/// Puts the settings together: from the key, the name of the channel that
/// summaries go to, the stand-up time as text, the questions, the names of
/// the members with commas between, and the platform's directory.
pub fn get_config(
    api_key: String,
    channel: &str,
    stand_up_time: &str,
    questions: Vec<String>,
    team_members: &str,
    directory: &Directory,
) -> (r: Result<Config, ConfigError>)
    ensures
        settings_of(
            api_key@,
            channel@,
            stand_up_time@,
            questions.deep_view(),
            team_members@,
            directory.deep_view(),
        ) == match r {
            Ok(config) => Ok::<Settings, ConfigError>(config.deep_view()),
            Err(e) => Err::<Settings, ConfigError>(e),
        },
{
    let time: TimeOfDay = match TimeOfDay::from_str(stand_up_time) {
        Ok(t) => t,
        Err(_) => { return Err(ConfigError::Schedule); },
    };
    match resolve(directory, channel, team_members) {
        Ok((channel_id, members)) => Ok(
            Config { api_key, channel_id, team_members: members, stand_up_time: time, questions },
        ),
        Err(e) => Err(ConfigError::Directory(e)),
    }
}

} // verus!
