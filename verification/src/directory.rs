//! The platform's directory of channels, users and direct-message channels,
//! and the resolving of a team from it.

use crate::text::{chars_of, fields, split};
use crate::utils::{Member, TeamMember};
use vstd::prelude::*;
use vstd::string::*;

verus! {

/// A channel as the platform lists it.
#[derive(Debug)]
pub struct Channel {
    pub id: Option<String>,
    pub name: Option<String>,
}

/// A user as the platform lists it.
#[derive(Debug)]
pub struct User {
    pub id: Option<String>,
    pub name: Option<String>,
}

/// A direct-message channel as the platform lists it: its id and the id of
/// the user it leads to.
#[derive(Debug)]
pub struct Im {
    pub id: Option<String>,
    pub user: Option<String>,
}

/// What the platform tells at login, each list as far as it gave it.
#[derive(Debug)]
pub struct Directory {
    pub channels: Option<Vec<Channel>>,
    pub users: Option<Vec<User>>,
    pub ims: Option<Vec<Im>>,
}

/// What a `Channel` or a `User` holds, as plain text.
pub struct Entry {
    pub id: Option<Seq<char>>,
    pub name: Option<Seq<char>>,
}

/// What an `Im` holds, as plain text.
pub struct Line {
    pub id: Option<Seq<char>>,
    pub user: Option<Seq<char>>,
}

/// What a `Directory` holds, as plain text.
pub struct Listing {
    pub channels: Option<Seq<Entry>>,
    pub users: Option<Seq<Entry>>,
    pub ims: Option<Seq<Line>>,
}

impl DeepView for Channel {
    type V = Entry;

    open spec fn deep_view(&self) -> Entry {
        Entry { id: self.id.deep_view(), name: self.name.deep_view() }
    }
}

impl DeepView for User {
    type V = Entry;

    open spec fn deep_view(&self) -> Entry {
        Entry { id: self.id.deep_view(), name: self.name.deep_view() }
    }
}

impl DeepView for Im {
    type V = Line;

    open spec fn deep_view(&self) -> Line {
        Line { id: self.id.deep_view(), user: self.user.deep_view() }
    }
}

impl DeepView for Directory {
    type V = Listing;

    open spec fn deep_view(&self) -> Listing {
        Listing {
            channels: self.channels.deep_view(),
            users: self.users.deep_view(),
            ims: self.ims.deep_view(),
        }
    }
}

/// Why no team could be resolved from a directory.
#[derive(Clone, Copy, Debug, PartialEq, Eq, Structural)]
pub enum DirectoryError {
    /// No channel of the wanted name is listed, or the one listed first has
    /// no id.
    NoChannel,
    /// The directory lists no users at all.
    NoUsers,
    /// The directory lists no direct-message channels at all.
    NoDirectMessages,
    /// A user of the team has no id.
    UserWithoutId,
    /// The direct-message channel to a user of the team has no id.
    DmWithoutId,
}

/// The place of the first channel from `from` on that is named `name`; the
/// number of channels where there is none.
pub open spec fn first_named(channels: Seq<Entry>, name: Seq<char>, from: int) -> int
    decreases channels.len() - from,
{
    if from < 0 || from >= channels.len() {
        channels.len() as int
    } else if channels[from].name == Some(name) {
        from
    } else {
        first_named(channels, name, from + 1)
    }
}

/// The id of the first channel named `name`.
pub open spec fn channel_id_of(channels: Option<Seq<Entry>>, name: Seq<char>) -> Option<Seq<char>> {
    match channels {
        Some(list) => {
            let at = first_named(list, name, 0);
            if at < list.len() {
                list[at].id
            } else {
                None
            }
        },
        None => None,
    }
}

/// Whether the user is on the team: has a name, and one of `names`.
pub open spec fn on_team(user: Entry, names: Seq<Seq<char>>) -> bool {
    user.name is Some && names.contains(user.name->0)
}

/// The place of the first user from `from` on who is on the team and has
/// the id `id`; the number of users where there is none. A user without an
/// id has the id of a direct-message channel that names no user.
pub open spec fn first_on_team(
    users: Seq<Entry>,
    names: Seq<Seq<char>>,
    id: Option<Seq<char>>,
    from: int,
) -> int
    decreases users.len() - from,
{
    if from < 0 || from >= users.len() {
        users.len() as int
    } else if on_team(users[from], names) && users[from].id == id {
        from
    } else {
        first_on_team(users, names, id, from + 1)
    }
}

/// The member that a direct-message channel stands for: the first user on
/// the team whom it leads to, with that user's name and id and the
/// channel's id. No member where it leads to nobody on the team; an error
/// where the user or the channel has no id.
pub open spec fn member_of(users: Seq<Entry>, names: Seq<Seq<char>>, im: Line) -> Result<
    Option<Member>,
    DirectoryError,
> {
    let at = first_on_team(users, names, im.user, 0);
    if at >= users.len() {
        Ok(None)
    } else if users[at].id is None {
        Err(DirectoryError::UserWithoutId)
    } else if im.id is None {
        Err(DirectoryError::DmWithoutId)
    } else {
        Ok(Some(Member { name: users[at].name->0, id: users[at].id->0, dm_id: im.id->0 }))
    }
}

/// The members that the direct-message channels stand for, in the order of
/// the channels; the first error met on the way, if any.
pub open spec fn members_of(users: Seq<Entry>, names: Seq<Seq<char>>, ims: Seq<Line>) -> Result<
    Seq<Member>,
    DirectoryError,
>
    decreases ims.len(),
{
    if ims.len() == 0 {
        Ok(Seq::empty())
    } else {
        match members_of(users, names, ims.drop_last()) {
            Ok(members) => match member_of(users, names, ims.last()) {
                Ok(Some(member)) => Ok(members.push(member)),
                Ok(None) => Ok(members),
                Err(e) => Err(e),
            },
            Err(e) => Err(e),
        }
    }
}

/// The team that a directory resolves to: the id of the channel named
/// `channel` and the members named in `names`, a list of names with commas
/// between. The channel is looked for first, then the list of users, then
/// that of direct-message channels, then the members one by one.
pub open spec fn team_of(listing: Listing, channel: Seq<char>, names: Seq<char>) -> Result<
    (Seq<char>, Seq<Member>),
    DirectoryError,
> {
    match channel_id_of(listing.channels, channel) {
        None => Err(DirectoryError::NoChannel),
        Some(id) => match listing.users {
            None => Err(DirectoryError::NoUsers),
            Some(users) => match listing.ims {
                None => Err(DirectoryError::NoDirectMessages),
                Some(ims) => match members_of(users, fields(names, ','), ims) {
                    Ok(members) => Ok((id, members)),
                    Err(e) => Err(e),
                },
            },
        },
    }
}

/// Whether two optional texts are the same.
fn same_text(a: &Option<String>, b: &Option<String>) -> (r: bool)
    ensures
        r == (a.deep_view() == b.deep_view()),
{
    match (a, b) {
        (Some(x), Some(y)) => *x == *y,
        (None, None) => true,
        _ => false,
    }
}

/// Whether two rows of characters are the same.
fn same_chars(a: &Vec<char>, b: &Vec<char>) -> (r: bool)
    ensures
        r == (a@ == b@),
{
    if a.len() != b.len() {
        return false;
    }
    let mut i: usize = 0;
    while i < a.len()
        invariant
            i <= a.len() == b.len(),
            forall|j: int| 0 <= j < i ==> a[j] == b[j],
        decreases a.len() - i,
    {
        if a[i] != b[i] {
            return false;
        }
        i = i + 1;
    }
    assert(a@ =~= b@);
    true
}

/// Whether the user is on the team.
fn is_on_team(user: &User, names: &Vec<Vec<char>>) -> (r: bool)
    ensures
        r == on_team(user.deep_view(), names.deep_view()),
{
    let name: Vec<char> = match &user.name {
        Some(n) => chars_of(n.as_str()),
        None => { return false; },
    };
    let mut i: usize = 0;
    while i < names.len()
        invariant
            i <= names.len(),
            user.name is Some,
            name@ == user.name->0@,
            forall|j: int| 0 <= j < i ==> names.deep_view()[j] != name@,
        decreases names.len() - i,
    {
        assert(names.deep_view()[i as int] =~= names[i as int]@);
        if same_chars(&names[i], &name) {
            return true;
        }
        i = i + 1;
    }
    false
}

/// The id of the first channel named `name`.
fn find_channel(channels: &Option<Vec<Channel>>, name: &str) -> (r: Option<String>)
    ensures
        r.deep_view() == channel_id_of(channels.deep_view(), name@),
{
    let list: &Vec<Channel> = match channels {
        Some(l) => l,
        None => { return None; },
    };
    let wanted: String = name.to_owned();
    let mut i: usize = 0;
    while i < list.len()
        invariant
            i <= list.len(),
            *channels == Some(*list),
            wanted@ == name@,
            first_named(list.deep_view(), name@, i as int) == first_named(
                list.deep_view(),
                name@,
                0,
            ),
        decreases list.len() - i,
    {
        let found: bool = match &list[i].name {
            Some(n) => *n == wanted,
            None => false,
        };
        if found {
            let id: Option<String> = match &list[i].id {
                Some(id) => Some(id.clone()),
                None => None,
            };
            return id;
        }
        i = i + 1;
    }
    None
}

/// Finds the member that a direct-message channel stands for.
fn find_member(users: &Vec<User>, team: &Vec<bool>, names: &Vec<Vec<char>>, im: &Im) -> (r: Result<
    Option<TeamMember>,
    DirectoryError,
>)
    requires
        team.len() == users.len(),
        forall|j: int|
            0 <= j < users.len() ==> team[j] == on_team(
                #[trigger] users.deep_view()[j],
                names.deep_view(),
            ),
    ensures
        member_of(users.deep_view(), names.deep_view(), im.deep_view()) == match r {
            Ok(m) => Ok::<Option<Member>, DirectoryError>(m.deep_view()),
            Err(e) => Err::<Option<Member>, DirectoryError>(e),
        },
{
    let mut i: usize = 0;
    while i < users.len()
        invariant
            i <= users.len() == team.len(),
            forall|j: int|
                0 <= j < users.len() ==> team[j] == on_team(
                    #[trigger] users.deep_view()[j],
                    names.deep_view(),
                ),
            first_on_team(users.deep_view(), names.deep_view(), im.deep_view().user, i as int)
                == first_on_team(users.deep_view(), names.deep_view(), im.deep_view().user, 0),
        decreases users.len() - i,
    {
        if team[i] && same_text(&users[i].id, &im.user) {
            let name: String = match &users[i].name {
                Some(n) => n.clone(),
                None => String::from_str("Unknown name"),
            };
            let id: String = match &users[i].id {
                Some(x) => x.clone(),
                None => { return Err(DirectoryError::UserWithoutId); },
            };
            let dm_id: String = match &im.id {
                Some(x) => x.clone(),
                None => { return Err(DirectoryError::DmWithoutId); },
            };
            return Ok(Some(TeamMember { name, id, dm_id }));
        }
        i = i + 1;
    }
    Ok(None)
}

/// Resolves the team from a directory: the id of the channel named
/// `channel`, and the members named in `names`, a list of names with commas
/// between, each with the direct-message channel that leads to them.
pub fn resolve(directory: &Directory, channel: &str, names: &str) -> (r: Result<
    (String, Vec<TeamMember>),
    DirectoryError,
>)
    ensures
        team_of(directory.deep_view(), channel@, names@) == match r {
            Ok(team) => Ok::<(Seq<char>, Seq<Member>), DirectoryError>(team.deep_view()),
            Err(e) => Err::<(Seq<char>, Seq<Member>), DirectoryError>(e),
        },
{
    let channel_id: String = match find_channel(&directory.channels, channel) {
        Some(id) => id,
        None => { return Err(DirectoryError::NoChannel); },
    };
    let users: &Vec<User> = match &directory.users {
        Some(u) => u,
        None => { return Err(DirectoryError::NoUsers); },
    };
    let ims: &Vec<Im> = match &directory.ims {
        Some(l) => l,
        None => { return Err(DirectoryError::NoDirectMessages); },
    };
    let name_chars: Vec<char> = chars_of(names);
    let wanted: Vec<Vec<char>> = split(&name_chars, ',');
    let ghost listed = fields(names@, ',');
    let mut team: Vec<bool> = Vec::new();
    let mut i: usize = 0;
    while i < users.len()
        invariant
            i <= users.len(),
            team.len() == i,
            wanted.deep_view() == listed,
            forall|j: int| 0 <= j < i ==> team[j] == on_team(#[trigger] users.deep_view()[j], listed),
        decreases users.len() - i,
    {
        let flag: bool = is_on_team(&users[i], &wanted);
        team.push(flag);
        i = i + 1;
    }
    let mut members: Vec<TeamMember> = Vec::new();
    let mut k: usize = 0;
    assert(members.deep_view() =~= Seq::<Member>::empty());
    while k < ims.len()
        invariant
            k <= ims.len(),
            team.len() == users.len(),
            forall|j: int|
                0 <= j < users.len() ==> team[j] == on_team(#[trigger] users.deep_view()[j], listed),
            members_of(users.deep_view(), listed, ims.deep_view().take(k as int)) == Ok::<
                Seq<Member>,
                DirectoryError,
            >(members.deep_view()),
            listed == fields(names@, ','),
            wanted.deep_view() == listed,
            directory.users == Some(*users),
            directory.ims == Some(*ims),
            channel_id_of(directory.deep_view().channels, channel@) == Some(channel_id@),
        decreases ims.len() - k,
    {
        let ghost so_far = members.deep_view();
        proof {
            assert(ims.deep_view().take(k + 1).drop_last() =~= ims.deep_view().take(k as int));
        }
        match find_member(users, &team, &wanted, &ims[k]) {
            Ok(Some(member)) => {
                members.push(member);
                assert(members.deep_view() =~= so_far.push(member.deep_view()));
            },
            Ok(None) => {},
            Err(e) => {
                proof {
                    lemma_error_stays(users.deep_view(), listed, ims.deep_view(), k + 1);
                }
                return Err(e);
            },
        }
        k = k + 1;
    }
    proof {
        assert(ims.deep_view().take(k as int) =~= ims.deep_view());
    }
    Ok((channel_id, members))
}

/// An error met among the first `k` direct-message channels is the error of
/// the whole list.
proof fn lemma_error_stays(users: Seq<Entry>, names: Seq<Seq<char>>, ims: Seq<Line>, k: int)
    requires
        0 <= k <= ims.len(),
        members_of(users, names, ims.take(k)) is Err,
    ensures
        members_of(users, names, ims) == members_of(users, names, ims.take(k)),
    decreases ims.len() - k,
{
    if k < ims.len() {
        assert(ims.take(k + 1).drop_last() =~= ims.take(k));
        lemma_error_stays(users, names, ims, k + 1);
    } else {
        assert(ims.take(k) =~= ims);
    }
}

} // verus!
