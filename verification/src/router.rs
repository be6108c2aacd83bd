//! The routing of inbound messages: which of them is an answer to the
//! stand-up, and from which member.

use crate::post::no_text;
use crate::utils::{Member, TeamMember};
use vstd::prelude::*;
use vstd::string::*;

verus! {

/// A message that came in from the platform.
#[derive(Debug)]
pub enum Message {
    /// An ordinary message: who sent it, the channel it was sent to, and
    /// its text, each as far as the platform gave it.
    Standard { user: Option<String>, channel: Option<String>, text: Option<String> },
    /// Any other kind of message.
    Other,
}

/// What a `Message` holds, as plain text.
pub enum Inbound {
    Standard { user: Option<Seq<char>>, channel: Option<Seq<char>>, text: Option<Seq<char>> },
    Other,
}

impl View for Message {
    type V = Inbound;

    open spec fn view(&self) -> Inbound {
        match self {
            Message::Standard { user, channel, text } => Inbound::Standard {
                user: user.deep_view(),
                channel: channel.deep_view(),
                text: text.deep_view(),
            },
            Message::Other => Inbound::Other,
        }
    }
}

impl DeepView for Message {
    type V = Inbound;

    open spec fn deep_view(&self) -> Inbound {
        self@
    }
}

/// Why a message that reached a member's direct-message channel could not
/// be taken as an answer.
#[derive(Clone, Copy, Debug, PartialEq, Eq, Structural)]
pub enum RouteError {
    /// The message names no sender.
    NoUser,
    /// The sender is no member of the team.
    UnknownUser,
}

/// What a message is taken for.
pub enum Routed {
    /// Not a message to a member's direct-message channel: not for the
    /// stand-up.
    Ignored,
    /// To a member's channel, but naming no sender.
    NoUser,
    /// To a member's channel, but from nobody on the team.
    UnknownUser,
    /// An answer of this text from the member at this place in the list.
    Answer { member: int, text: Seq<char> },
}

/// Whether `channel` is the direct-message channel of one of the members.
pub open spec fn is_dm(members: Seq<Member>, channel: Seq<char>) -> bool {
    exists|i: int| 0 <= i < members.len() && (#[trigger] members[i]).dm_id == channel
}

/// The place of the first member from `from` on whose user id is `id`; the
/// number of members where there is none.
pub open spec fn first_with_id(members: Seq<Member>, id: Seq<char>, from: int) -> int
    decreases members.len() - from,
{
    if from < 0 || from >= members.len() {
        members.len() as int
    } else if members[from].id == id {
        from
    } else {
        first_with_id(members, id, from + 1)
    }
}

/// What `message` is taken for among `members`. Only an ordinary message to
/// the direct-message channel of some member is looked at; its sender is
/// the first member with the sender's user id; a message without text
/// answers `Nothing`.
pub open spec fn routed(members: Seq<Member>, message: Inbound) -> Routed {
    match message {
        Inbound::Standard { user, channel, text } => {
            if channel is Some && is_dm(members, channel->0) {
                match user {
                    Some(id) => {
                        let member = first_with_id(members, id, 0);
                        if member < members.len() {
                            Routed::Answer {
                                member,
                                text: match text {
                                    Some(t) => t,
                                    None => no_text(),
                                },
                            }
                        } else {
                            Routed::UnknownUser
                        }
                    },
                    None => Routed::NoUser,
                }
            } else {
                Routed::Ignored
            }
        },
        Inbound::Other => Routed::Ignored,
    }
}

/// The first member from `from` on with the user id `id` stands at or after
/// `from`, has that id if there is one, and none before has it.
pub proof fn lemma_first_with_id(members: Seq<Member>, id: Seq<char>, from: int)
    requires
        0 <= from <= members.len(),
    ensures
        from <= first_with_id(members, id, from) <= members.len(),
        first_with_id(members, id, from) < members.len() ==> members[first_with_id(
            members,
            id,
            from,
        )].id == id,
        forall|j: int| from <= j < first_with_id(members, id, from) ==> members[j].id != id,
    decreases members.len() - from,
{
    if from < members.len() && members[from].id != id {
        lemma_first_with_id(members, id, from + 1);
    }
}

/// Whether `channel` is the direct-message channel of one of the members.
fn is_member_dm(members: &Vec<TeamMember>, channel: &String) -> (b: bool)
    ensures
        b == is_dm(members.deep_view(), channel@),
{
    let mut i: usize = 0;
    while i < members.len()
        invariant
            i <= members.len(),
            forall|j: int| 0 <= j < i ==> (#[trigger] members.deep_view()[j]).dm_id != channel@,
        decreases members.len() - i,
    {
        if members[i].dm_id == *channel {
            assert(members.deep_view()[i as int].dm_id == channel@);
            return true;
        }
        i = i + 1;
    }
    false
}

/// The place of the first member with the user id `id`.
fn member_with_id(members: &Vec<TeamMember>, id: &String) -> (r: Option<usize>)
    ensures
        match r {
            Some(i) => i < members.len() && i == first_with_id(members.deep_view(), id@, 0),
            None => first_with_id(members.deep_view(), id@, 0) == members.len(),
        },
{
    let mut i: usize = 0;
    while i < members.len()
        invariant
            i <= members.len(),
            first_with_id(members.deep_view(), id@, i as int) == first_with_id(
                members.deep_view(),
                id@,
                0,
            ),
        decreases members.len() - i,
    {
        if members[i].id == *id {
            return Some(i);
        }
        i = i + 1;
    }
    None
}

/// Routes a message: gives the place of the member who answers and the
/// text of the answer, nothing for a message that is not for the stand-up,
/// and an error for a message to a member's channel from no member.
pub fn route(members: &Vec<TeamMember>, message: &Message) -> (r: Result<
    Option<(usize, String)>,
    RouteError,
>)
    ensures
        routed(members.deep_view(), message@) == match r {
            Ok(Some(answer)) => Routed::Answer { member: answer.0 as int, text: answer.1@ },
            Ok(None) => Routed::Ignored,
            Err(RouteError::NoUser) => Routed::NoUser,
            Err(RouteError::UnknownUser) => Routed::UnknownUser,
        },
        r matches Ok(Some(answer)) ==> answer.0 < members.len(),
{
    match message {
        Message::Other => Ok(None),
        Message::Standard { user, channel, text } => {
            let to_member: bool = match channel {
                Some(id) => is_member_dm(members, id),
                None => false,
            };
            if !to_member {
                return Ok(None);
            }
            let sender: &String = match user {
                Some(id) => id,
                None => { return Err(RouteError::NoUser); },
            };
            let member: usize = match member_with_id(members, sender) {
                Some(i) => i,
                None => { return Err(RouteError::UnknownUser); },
            };
            let answer: String = match text {
                Some(t) => t.clone(),
                None => String::from_str("Nothing"),
            };
            Ok(Some((member, answer)))
        },
    }
}

} // verus!
