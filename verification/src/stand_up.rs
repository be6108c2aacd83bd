//! A plain stand-up: once a day every member is greeted and asked what they
//! were up to, and each answer is passed on to the shared channel.

use crate::directory::{resolve, team_of, Directory, DirectoryError, Listing};
use crate::instant::{weekday_name, Instant, DAY_SECONDS, FIRST_DAY, SECOND_NANOS};
use crate::post::{greeting, greeting_text, Post, Posting};
use crate::router::{route, routed, Inbound, Message, RouteError, Routed};
use crate::utils::Member;
use vstd::prelude::*;
use vstd::string::*;

pub use crate::utils::TeamMember;

verus! {

/// What a plain stand-up is set up with: the credentials, the id of the
/// channel that answers are passed on to, and the members.
#[derive(Debug)]
pub struct SlackConfig {
    pub api_key: String,
    pub channel_id: String,
    pub team_members: Vec<TeamMember>,
}

/// Resolves the set-up from the key, the name of the shared channel, the
/// names of the members with commas between, and the platform's directory.
pub fn get_slack_config(api_key: String, channel: &str, team_members: &str, directory: &Directory) -> (r:
    Result<SlackConfig, DirectoryError>)
    ensures
        match r {
            Ok(config) => {
                &&& team_of(directory.deep_view(), channel@, team_members@) == Ok::<
                    (Seq<char>, Seq<Member>),
                    DirectoryError,
                >((config.channel_id@, config.team_members.deep_view()))
                &&& config.api_key == api_key
            },
            Err(e) => team_of(directory.deep_view(), channel@, team_members@) == Err::<
                (Seq<char>, Seq<Member>),
                DirectoryError,
            >(e),
        },
{
    match resolve(directory, channel, team_members) {
        Ok((channel_id, members)) => Ok(SlackConfig { api_key, channel_id, team_members: members }),
        Err(e) => Err(e),
    }
}

/// The one question of a plain stand-up, put to the member of the given
/// name.
pub open spec fn first_question(name: Seq<char>) -> Seq<char> {
    "So "@ + name + ", what were you up to yesterday?"@
}

/// An answer as it is passed on: the member's name, a colon and a space,
/// and the answer.
pub open spec fn relayed(name: Seq<char>, answer: Seq<char>) -> Seq<char> {
    name + ": "@ + answer
}

/// The greetings of the day, one to each member in order.
pub open spec fn hellos(members: Seq<Member>, weekday: Seq<char>) -> Seq<Posting> {
    Seq::new(
        members.len(),
        |i: int| Posting { channel: members[i].dm_id, text: greeting(members[i].name, weekday) },
    )
}

/// The question of the day, once to each member in order.
pub open spec fn questions(members: Seq<Member>) -> Seq<Posting> {
    Seq::new(
        members.len(),
        |i: int| Posting { channel: members[i].dm_id, text: first_question(members[i].name) },
    )
}

/// What a message makes a plain stand-up send: an answer is passed on to
/// `channel` under the sender's name; no other message sends anything.
pub open spec fn relay_of(members: Seq<Member>, channel: Seq<char>, message: Inbound) -> Option<
    Posting,
> {
    match routed(members, message) {
        Routed::Answer { member, text } => Some(
            Posting { channel, text: relayed(members[member].name, text) },
        ),
        _ => None,
    }
}

/// A plain stand-up: its set-up and the instant at which the members were
/// last asked.
#[derive(Debug)]
pub struct StandUp {
    pub api_key: String,
    pub channel_id: String,
    pub team_members: Vec<TeamMember>,
    pub last_asked: Instant,
}

impl StandUp {
    /// A stand-up with the given set-up that has never asked yet: the last
    /// asking is put at the earliest instant there is.
    pub fn new(slack_config: SlackConfig) -> (s: StandUp)
        ensures
            s.api_key == slack_config.api_key,
            s.channel_id == slack_config.channel_id,
            s.team_members == slack_config.team_members,
            s.last_asked == Instant::at(FIRST_DAY * DAY_SECONDS, 0),
    {
        StandUp {
            api_key: slack_config.api_key,
            channel_id: slack_config.channel_id,
            team_members: slack_config.team_members,
            last_asked: Instant::earliest(),
        }
    }

    /// Whether the members were asked less than a day before `now`.
    pub open spec fn asked_within_a_day(&self, now: Instant) -> bool {
        now.nanos_since(self.last_asked) < DAY_SECONDS * SECOND_NANOS
    }

    /// Whether the members were asked less than a day before `now`.
    pub fn asked_today(&self, now: Instant) -> (b: bool)
        ensures
            b == self.asked_within_a_day(now),
    {
        now.elapsed_since(&self.last_asked) < 86_400_000_000_000
    }

    /// The greetings of the day at `now`, one to each member.
    fn say_hello(&self, now: Instant) -> (posts: Vec<Post>)
        ensures
            posts.deep_view() == hellos(
                self.team_members.deep_view(),
                weekday_name(now.secs(), now.nanos()),
            ),
    {
        let weekday: String = now.weekday();
        let mut posts: Vec<Post> = Vec::new();
        let mut i: usize = 0;
        while i < self.team_members.len()
            invariant
                i <= self.team_members.len(),
                weekday@ == weekday_name(now.secs(), now.nanos()),
                posts.deep_view() == hellos(self.team_members.deep_view(), weekday@).take(i as int),
            decreases self.team_members.len() - i,
        {
            let member = &self.team_members[i];
            let text: String = greeting_text(&member.name, &weekday);
            posts.push(Post { channel: member.dm_id.clone(), text });
            proof {
                let all = hellos(self.team_members.deep_view(), weekday@);
                assert(all.take(i + 1) =~= all.take(i as int).push(all[i as int]));
            }
            i = i + 1;
        }
        posts
    }

    /// The question of the day, once to each member.
    fn q1(&self) -> (posts: Vec<Post>)
        ensures
            posts.deep_view() == questions(self.team_members.deep_view()),
    {
        let mut posts: Vec<Post> = Vec::new();
        let mut i: usize = 0;
        while i < self.team_members.len()
            invariant
                i <= self.team_members.len(),
                posts.deep_view() == questions(self.team_members.deep_view()).take(i as int),
            decreases self.team_members.len() - i,
        {
            let member = &self.team_members[i];
            let mut text: String = String::from_str("So ");
            text.append(member.name.as_str());
            text.append(", what were you up to yesterday?");
            posts.push(Post { channel: member.dm_id.clone(), text });
            proof {
                let all = questions(self.team_members.deep_view());
                assert(all.take(i + 1) =~= all.take(i as int).push(all[i as int]));
            }
            i = i + 1;
        }
        posts
    }

    /// One turn of the stand-up at `now`. Where the members were asked less
    /// than a day ago nothing happens; else every member is greeted, then
    /// every member is asked, and `now` is kept as the instant of the last
    /// asking.
    pub fn stand_up_loop(&mut self, now: Instant) -> (posts: Vec<Post>)
        ensures
            final(self).api_key == old(self).api_key,
            final(self).channel_id == old(self).channel_id,
            final(self).team_members == old(self).team_members,
            final(self).last_asked == if old(self).asked_within_a_day(now) {
                old(self).last_asked
            } else {
                now
            },
            posts.deep_view() == if old(self).asked_within_a_day(now) {
                Seq::<Posting>::empty()
            } else {
                hellos(old(self).team_members.deep_view(), weekday_name(now.secs(), now.nanos()))
                    + questions(old(self).team_members.deep_view())
            },
    {
        if self.asked_today(now) {
            Vec::new()
        } else {
            let mut posts: Vec<Post> = self.say_hello(now);
            let mut asked: Vec<Post> = self.q1();
            posts.append(&mut asked);
            self.last_asked = now;
            posts
        }
    }

    /// Handles one message that came in: an answer of a member is passed on
    /// to the shared channel under the member's name; a message that is not
    /// for the stand-up sends nothing; a message to a member's channel from
    /// no member is an error.
    pub fn handle_message(&self, message: &Message) -> (r: Result<Option<Post>, RouteError>)
        ensures
            match r {
                Ok(post) => {
                    &&& post.deep_view() == relay_of(
                        self.team_members.deep_view(),
                        self.channel_id@,
                        message@,
                    )
                    &&& !(routed(self.team_members.deep_view(), message@) is NoUser)
                    &&& !(routed(self.team_members.deep_view(), message@) is UnknownUser)
                },
                Err(RouteError::NoUser) => routed(self.team_members.deep_view(), message@) is NoUser,
                Err(RouteError::UnknownUser) => routed(
                    self.team_members.deep_view(),
                    message@,
                ) is UnknownUser,
            },
    {
        match route(&self.team_members, message) {
            Ok(Some((member, answer))) => {
                let mut text: String = self.team_members[member].name.clone();
                text.append(": ");
                text.append(answer.as_str());
                Ok(Some(Post { channel: self.channel_id.clone(), text }))
            },
            Ok(None) => Ok(None),
            Err(e) => Err(e),
        }
    }
}

} // verus!
