//! The conversation with each member: the state machine that a tick of the
//! clock and the members' answers drive, and the messages it asks to have
//! sent.

use crate::config::Config;
use crate::conversation::{waiting, Conversation, Step};
use crate::instant::{weekday_name, Instant};
use crate::post::{
    farewell, farewell_text, greeting, greeting_text, summary, summary_text, Post, Posting,
};
use crate::router::{lemma_first_with_id, route, routed, Inbound, Message, RouteError, Routed};
use crate::utils::{Member, TimeOfDay};
use vstd::prelude::*;

pub use crate::conversation::State;

verus! {

/// The bot as a whole, as plain values: the settings and every member's
/// conversation, in the order of the members.
#[verifier::ext_equal]
pub struct Model {
    pub api_key: Seq<char>,
    pub channel: Seq<char>,
    pub members: Seq<Member>,
    pub schedule: TimeOfDay,
    pub questions: Seq<Seq<char>>,
    pub conversations: Seq<Conversation>,
}

/// What handling messages does to the bot: how it stands afterwards, the
/// messages to send, in order, and the fault that stopped the handling, if
/// one did.
#[verifier::ext_equal]
pub struct Handled {
    pub next: Model,
    pub posts: Seq<Posting>,
    pub error: Option<RouteError>,
}

impl Model {
    /// Whether there is a conversation for each member, each fitting the
    /// questions; there are questions, no more than can be counted in a
    /// `u8`; and the schedule names a time of day.
    pub open spec fn wf(self) -> bool {
        &&& self.conversations.len() == self.members.len()
        &&& 1 <= self.questions.len() <= u8::MAX
        &&& self.schedule.is_valid()
        &&& forall|i: int|
            0 <= i < self.conversations.len() ==> (#[trigger] self.conversations[i]).wf(
                self.questions.len() as int,
            )
    }

    /// Whether the member at `i` is listed there for the first time. A
    /// member listed again is not conversed with again.
    pub open spec fn leads(self, i: int) -> bool {
        forall|j: int| 0 <= j < i ==> !(#[trigger] self.members[j]).same(self.members[i])
    }

    /// What a tick does to the conversation at `i`.
    pub open spec fn member_tick(self, i: int, now: Instant, today: Instant) -> Step {
        if self.leads(i) {
            self.conversations[i].ticked(self.members[i], self.questions, now, today)
        } else {
            self.conversations[i].stay()
        }
    }

    /// The bot after a tick at `now`, `today` being the day's trigger:
    /// every conversation after its own tick.
    pub open spec fn ticked(self, now: Instant, today: Instant) -> Model {
        Model {
            conversations: Seq::new(
                self.conversations.len(),
                |i: int| self.member_tick(i, now, today).next,
            ),
            ..self
        }
    }

    /// The messages that a tick has sent for the first `upto` members, in
    /// the order of the members.
    pub open spec fn tick_posts_upto(self, now: Instant, today: Instant, upto: int) -> Seq<Posting>
        decreases upto,
    {
        if upto <= 0 {
            Seq::empty()
        } else {
            self.tick_posts_upto(now, today, upto - 1) + self.member_tick(
                upto - 1,
                now,
                today,
            ).posts
        }
    }

    /// The messages that a tick sends.
    pub open spec fn tick_posts(self, now: Instant, today: Instant) -> Seq<Posting> {
        self.tick_posts_upto(now, today, self.members.len() as int)
    }

    /// Nothing changed and nothing to send, with the given fault if any.
    pub open spec fn unmoved(self, error: Option<RouteError>) -> Handled {
        Handled { next: self, posts: Seq::empty(), error }
    }

    /// What one message does: an answer moves the conversation of the
    /// member it is from; a message to a member's channel that names no
    /// sender, or one that is no member, is a fault; any other message is
    /// passed over. Only an answer changes anything or sends anything.
    pub open spec fn handled(self, message: Inbound) -> Handled {
        match routed(self.members, message) {
            Routed::Ignored => self.unmoved(None),
            Routed::NoUser => self.unmoved(Some(RouteError::NoUser)),
            Routed::UnknownUser => self.unmoved(Some(RouteError::UnknownUser)),
            Routed::Answer { member, text } => self.answered_by(member, text),
        }
    }

    /// What the messages of `inbox` do, handled in order. A fault stops the
    /// handling: the messages after it are left alone.
    pub open spec fn received(self, inbox: Seq<Inbound>) -> Handled
        decreases inbox.len(),
    {
        if inbox.len() == 0 {
            self.unmoved(None)
        } else {
            let before = self.received(inbox.drop_last());
            if before.error is Some {
                before
            } else {
                let last = before.next.handled(inbox.last());
                Handled { next: last.next, posts: before.posts + last.posts, error: last.error }
            }
        }
    }

    /// One round of the bot at `now`: the messages of `inbox` are handled
    /// in order, then the clock ticks for every member with the schedule's
    /// trigger on the day of `now`. After a fault there is no tick.
    pub open spec fn stepped(self, now: Instant, inbox: Seq<Inbound>) -> Handled {
        let drained = self.received(inbox);
        if drained.error is Some {
            drained
        } else {
            let today = now.on_the_day_at(self.schedule.hour24(), self.schedule.min as int);
            Handled {
                next: drained.next.ticked(now, today),
                posts: drained.posts + drained.next.tick_posts(now, today),
                error: None,
            }
        }
    }

    /// What an answer of the given text from the member at `member` does:
    /// it moves that member's conversation and no other.
    pub open spec fn answered_by(self, member: int, text: Seq<char>) -> Handled {
        let step = self.conversations[member].answered(
            self.members[member],
            self.channel,
            self.questions,
            text,
        );
        Handled {
            next: Model { conversations: self.conversations.update(member, step.next), ..self },
            posts: step.posts,
            error: None,
        }
    }
}

/// The stand-up bot: the settings, and for each member, at the member's
/// place in `config.team_members`, the state of the conversation and the
/// answers given so far.
pub struct Bot {
    pub state: Vec<State>,
    pub config: Config,
    pub cache: Vec<Vec<String>>,
}

impl View for Bot {
    type V = Model;

    open spec fn view(&self) -> Model {
        Model {
            api_key: self.config.api_key@,
            channel: self.config.channel_id@,
            members: self.config.team_members.deep_view(),
            schedule: self.config.stand_up_time,
            questions: self.config.questions.deep_view(),
            conversations: Seq::new(
                self.state@.len(),
                |i: int| Conversation { state: self.state@[i], answers: self.cache@[i].deep_view() },
            ),
        }
    }
}

impl Bot {
    /// Whether the bot holds a state and a list of answers for each member
    /// and is, as a whole, well formed.
    pub open spec fn wf(&self) -> bool {
        &&& self.state@.len() == self.config.team_members@.len()
        &&& self.cache@.len() == self.config.team_members@.len()
        &&& self@.wf()
    }

    /// Tells whether the bot is well formed.
    pub fn is_wf(&self) -> (b: bool)
        ensures
            b == self.wf(),
    {
        let n: usize = self.config.team_members.len();
        let count: usize = self.config.questions.len();
        if self.state.len() != n || self.cache.len() != n || count < 1 || count > 255
            || !self.config.stand_up_time.names_a_time() {
            return false;
        }
        let mut i: usize = 0;
        while i < n
            invariant
                i <= n,
                n == self.config.team_members.len(),
                self.state.len() == n,
                self.cache.len() == n,
                count == self.config.questions.len(),
                forall|j: int|
                    0 <= j < i ==> (#[trigger] self@.conversations[j]).wf(count as int),
            decreases n - i,
        {
            let answered: usize = self.cache[i].len();
            let fits: bool = match self.state[i] {
                State::Asked { question } => 1 <= question && question as usize <= count
                    && answered == question as usize - 1,
                _ => answered == 0,
            };
            if !fits {
                assert(!self@.conversations[i as int].wf(count as int));
                return false;
            }
            i = i + 1;
        }
        true
    }

    /// Whether a bot can be made with the settings: the schedule names a
    /// time of day, and there are questions, no more than 255.
    pub open spec fn accepts(config: &Config) -> bool {
        config.stand_up_time.is_valid() && 1 <= config.questions.len() <= u8::MAX
    }

    /// A bot with the given settings in which every member waits for the
    /// schedule's trigger on the day of `now`; an error where the settings
    /// are not accepted.
    pub fn starting_at(config: Config, now: Instant) -> (r: Result<Bot, ()>)
        ensures
            r is Ok <==> Bot::accepts(&config),
            r matches Ok(bot) ==> {
                &&& bot.wf()
                &&& bot.config == config
                &&& forall|i: int|
                    0 <= i < bot@.conversations.len() ==> (#[trigger] bot@.conversations[i])
                        == waiting(
                        now.on_the_day_at(
                            config.stand_up_time.hour24(),
                            config.stand_up_time.min as int,
                        ),
                    )
            },
    {
        let stand_up_time: Instant = match config.stand_up_time.next_trigger(now) {
            Ok(t) => t,
            Err(_) => { return Err(()); },
        };
        if config.questions.len() < 1 || config.questions.len() > 255 {
            return Err(());
        }
        let n: usize = config.team_members.len();
        let mut state: Vec<State> = Vec::new();
        let mut cache: Vec<Vec<String>> = Vec::new();
        let mut i: usize = 0;
        while i < n
            invariant
                i <= n,
                state.len() == i,
                cache.len() == i,
                forall|j: int| 0 <= j < i ==> (#[trigger] state[j]) == (State::TooEarly { stand_up_time }),
                forall|j: int| 0 <= j < i ==> (#[trigger] cache[j]).len() == 0,
            decreases n - i,
        {
            state.push(State::TooEarly { stand_up_time });
            cache.push(Vec::new());
            i = i + 1;
        }
        let bot = Bot { state, config, cache };
        Ok(bot)
    }

    /// A bot with the given settings in which every member waits for
    /// today's trigger by the system clock. An error where, and only where,
    /// the settings are not accepted. Whatever instant the clock reads, all
    /// members wait for the schedule's trigger on the day of that instant.
    pub fn new(config: Config) -> (r: Result<Bot, ()>)
        ensures
            r is Ok <==> Bot::accepts(&config),
            r matches Ok(bot) ==> {
                &&& bot.wf()
                &&& bot.config == config
                &&& exists|now: Instant|
                    {
                        &&& now.wf()
                        &&& forall|i: int|
                            0 <= i < bot@.conversations.len() ==> (#[trigger] bot@.conversations[i])
                                == waiting(
                                now.on_the_day_at(
                                    config.stand_up_time.hour24(),
                                    config.stand_up_time.min as int,
                                ),
                            )
                    }
            },
    {
        match Instant::now() {
            Some(now) => {
                let r = Bot::starting_at(config, now);
                proof {
                    use_type_invariant(&now);
                }
                r
            },
            None => Err(()),
        }
    }

    /// The greeting for the member at `member` on the weekday of `now`.
    fn say_hello(&self, member: usize, now: Instant) -> (p: Post)
        requires
            member < self.config.team_members.len(),
        ensures
            p@ == (Posting {
                channel: self@.members[member as int].dm_id,
                text: greeting(
                    self@.members[member as int].name,
                    weekday_name(now.secs(), now.nanos()),
                ),
            }),
    {
        let team_member = &self.config.team_members[member];
        let weekday: String = now.weekday();
        Post { channel: team_member.dm_id.clone(), text: greeting_text(&team_member.name, &weekday) }
    }

    /// The closing remark for the member at `member`.
    fn say_goodbye(&self, member: usize) -> (p: Post)
        requires
            member < self.config.team_members.len(),
        ensures
            p@ == (Posting { channel: self@.members[member as int].dm_id, text: farewell() }),
    {
        let team_member = &self.config.team_members[member];
        Post { channel: team_member.dm_id.clone(), text: farewell_text() }
    }

    /// The question of the given number, counted from 1, for the member at
    /// `member`.
    fn question(&self, member: usize, question: u8) -> (p: Post)
        requires
            member < self.config.team_members.len(),
            1 <= question <= self.config.questions.len(),
        ensures
            p@ == (Posting {
                channel: self@.members[member as int].dm_id,
                text: self@.questions[question - 1],
            }),
    {
        let team_member = &self.config.team_members[member];
        Post {
            channel: team_member.dm_id.clone(),
            text: self.config.questions[(question - 1) as usize].clone(),
        }
    }

    /// The summary of the answers of the member at `member` for the shared
    /// channel; the answers are dropped.
    fn post_stand_up(&mut self, member: usize) -> (p: Post)
        requires
            member < old(self).config.team_members.len(),
            member < old(self).cache.len(),
            old(self).cache[member as int].len() <= old(self).config.questions.len(),
        ensures
            p@ == (Posting {
                channel: old(self)@.channel,
                text: summary(
                    old(self)@.members[member as int].name,
                    old(self)@.questions,
                    old(self).cache[member as int].deep_view(),
                ),
            }),
            final(self).state == old(self).state,
            final(self).config == old(self).config,
            final(self).cache.len() == old(self).cache.len(),
            final(self).cache[member as int].len() == 0,
            forall|j: int|
                0 <= j < old(self).cache.len() && j != member ==> final(self).cache[j] == old(
                    self,
                ).cache[j],
    {
        let text: String = summary_text(
            &self.config.team_members[member].name,
            &self.config.questions,
            &self.cache[member],
        );
        self.cache[member] = Vec::new();
        Post { channel: self.config.channel_id.clone(), text }
    }

    /// Takes an answer of the given text from the member at `member`.
    pub fn receive_answer(&mut self, member: usize, text: String) -> (posts: Vec<Post>)
        requires
            old(self).wf(),
            member < old(self).config.team_members.len(),
        ensures
            final(self).wf(),
            final(self)@ == old(self)@.answered_by(member as int, text@).next,
            posts.deep_view() == old(self)@.answered_by(member as int, text@).posts,
    {
        let ghost before = self@;
        let mut posts: Vec<Post> = Vec::new();
        let state: State = self.state[member];
        match state {
            State::Asked { question } => {
                let ghost answers = self.cache[member as int].deep_view().push(text@);
                self.cache[member].push(text);
                assert(self.cache[member as int].deep_view() =~= answers);
                if question as usize == self.config.questions.len() {
                    let bye: Post = self.say_goodbye(member);
                    let report: Post = self.post_stand_up(member);
                    self.state[member] = State::Done;
                    posts.push(bye);
                    posts.push(report);
                    assert(self.cache[member as int].deep_view() =~= Seq::<Seq<char>>::empty());
                } else {
                    let next: Post = self.question(member, question + 1);
                    self.state[member] = State::Asked { question: question + 1 };
                    posts.push(next);
                }
            },
            _ => {},
        }
        assert(self@ =~= before.answered_by(member as int, text@).next);
        posts
    }

    /// Whether the member at `member` is listed there for the first time.
    fn leads(&self, member: usize) -> (b: bool)
        requires
            member < self.config.team_members.len(),
        ensures
            b == self@.leads(member as int),
    {
        let mut j: usize = 0;
        while j < member
            invariant
                j <= member < self.config.team_members.len(),
                forall|k: int|
                    0 <= k < j ==> !(#[trigger] self@.members[k]).same(self@.members[member as int]),
            decreases member - j,
        {
            if self.config.team_members[j] == self.config.team_members[member] {
                assert(self@.members[j as int].same(self@.members[member as int]));
                return false;
            }
            j = j + 1;
        }
        true
    }

    /// Moves every member's conversation by a tick of the clock at
    /// `machine_time`, `stand_up_time` being the day's trigger, and gives
    /// the messages to send, in the order of the members.
    pub fn maybe_advance_machine(&mut self, machine_time: Instant, stand_up_time: Instant) -> (posts:
        Vec<Post>)
        requires
            old(self).wf(),
        ensures
            final(self).wf(),
            final(self)@ == old(self)@.ticked(machine_time, stand_up_time),
            posts.deep_view() == old(self)@.tick_posts(machine_time, stand_up_time),
    {
        let ghost before = self@;
        let mut posts: Vec<Post> = Vec::new();
        let n: usize = self.config.team_members.len();
        let mut i: usize = 0;
        while i < n
            invariant
                i <= n,
                n == self.config.team_members.len(),
                self.state.len() == n,
                self.cache.len() == n,
                before.wf(),
                before.conversations.len() == n,
                self@.api_key == before.api_key,
                self@.channel == before.channel,
                self@.members == before.members,
                self@.schedule == before.schedule,
                self@.questions == before.questions,
                forall|j: int|
                    0 <= j < i ==> (#[trigger] self@.conversations[j]) == before.member_tick(
                        j,
                        machine_time,
                        stand_up_time,
                    ).next,
                forall|j: int|
                    i <= j < n ==> (#[trigger] self@.conversations[j]) == before.conversations[j],
                posts.deep_view() == before.tick_posts_upto(machine_time, stand_up_time, i as int),
            decreases n - i,
        {
            let ghost here = self@;
            assert(here.conversations[i as int] == before.conversations[i as int]);
            if self.leads(i) {
                let state: State = self.state[i];
                match state {
                    State::TooEarly { stand_up_time: latched } => {
                        if latched.is_before(&machine_time) {
                            let hello: Post = self.say_hello(i, machine_time);
                            let first: Post = self.question(i, 1);
                            self.state[i] = State::Asked { question: 1 };
                            posts.push(hello);
                            posts.push(first);
                        }
                    },
                    _ => {
                        if machine_time.is_before(&stand_up_time) {
                            self.cache[i] = Vec::new();
                            self.state[i] = State::TooEarly { stand_up_time };
                        }
                    },
                }
            }
            proof {
                assert forall|j: int| 0 <= j < i implies (#[trigger] self@.conversations[j])
                    == before.member_tick(j, machine_time, stand_up_time).next by {
                    assert(self@.conversations[j] == here.conversations[j]);
                }
                assert forall|j: int| i < j < n implies (#[trigger] self@.conversations[j])
                    == before.conversations[j] by {
                    assert(self@.conversations[j] == here.conversations[j]);
                }
            }
            i = i + 1;
        }
        posts
    }

    /// Handles one message that came in. An answer moves the sender's
    /// conversation and gives the messages to send; a message that is not
    /// for the stand-up changes nothing and sends nothing; a message to a
    /// member's channel from no member is an error, and changes nothing.
    pub fn handle_message(&mut self, message: &Message) -> (r: Result<Vec<Post>, RouteError>)
        requires
            old(self).wf(),
        ensures
            final(self).wf(),
            final(self)@ == old(self)@.handled(message@).next,
            match r {
                Ok(posts) => old(self)@.handled(message@).error is None && posts.deep_view() == old(
                    self,
                )@.handled(message@).posts,
                Err(e) => old(self)@.handled(message@).error == Some(e),
            },
    {
        match route(&self.config.team_members, message) {
            Ok(Some((member, answer))) => Ok(self.receive_answer(member, answer)),
            Ok(None) => {
                let posts: Vec<Post> = Vec::new();
                Ok(posts)
            },
            Err(e) => Err(e),
        }
    }

    /// One round of the bot at `now`: handles the messages of `inbox` in
    /// order, then moves every conversation by a tick of the clock with the
    /// day's trigger. Gives the messages to send, in order, and the error
    /// that stopped the round, if one did.
    pub fn stand_up_machine(&mut self, now: Instant, inbox: &Vec<Message>) -> (r: (
        Vec<Post>,
        Result<(), RouteError>,
    ))
        requires
            old(self).wf(),
        ensures
            final(self).wf(),
            final(self)@ == old(self)@.stepped(now, inbox.deep_view()).next,
            r.0.deep_view() == old(self)@.stepped(now, inbox.deep_view()).posts,
            r.1 == match old(self)@.stepped(now, inbox.deep_view()).error {
                Some(e) => Err::<(), RouteError>(e),
                None => Ok::<(), RouteError>(()),
            },
    {
        let ghost before = self@;
        let ghost all = inbox.deep_view();
        let mut posts: Vec<Post> = Vec::new();
        let mut i: usize = 0;
        while i < inbox.len()
            invariant
                i <= inbox.len(),
                all == inbox.deep_view(),
                self.wf(),
                before == old(self)@,
                self@.schedule == before.schedule,
                before.received(all.take(i as int)).error is None,
                self@ == before.received(all.take(i as int)).next,
                posts.deep_view() == before.received(all.take(i as int)).posts,
            decreases inbox.len() - i,
        {
            assert(all.take(i + 1).drop_last() =~= all.take(i as int));
            match self.handle_message(&inbox[i]) {
                Ok(mut more) => {
                    posts.append(&mut more);
                },
                Err(e) => {
                    proof {
                        lemma_fault_stops(before, all, i + 1);
                    }
                    return (posts, Err(e));
                },
            }
            i = i + 1;
        }
        assert(all.take(i as int) =~= all);
        match self.config.stand_up_time.next_trigger(now) {
            Ok(today) => {
                let mut more: Vec<Post> = self.maybe_advance_machine(now, today);
                posts.append(&mut more);
                (posts, Ok(()))
            },
            Err(_) => (posts, Ok(())),
        }
    }
}

/// Once a fault has stopped the handling of an inbox, the messages after it
/// change nothing.
proof fn lemma_fault_stops(bot: Model, inbox: Seq<Inbound>, k: int)
    requires
        0 <= k <= inbox.len(),
        bot.received(inbox.take(k)).error is Some,
    ensures
        bot.received(inbox) == bot.received(inbox.take(k)),
    decreases inbox.len() - k,
{
    if k < inbox.len() {
        assert(inbox.take(k + 1).drop_last() =~= inbox.take(k));
        lemma_fault_stops(bot, inbox, k + 1);
    } else {
        assert(inbox.take(k) =~= inbox);
    }
}

impl Model {
    /// The greeting and the first question for the member at `i` at `now`.
    pub open spec fn opening(self, i: int, now: Instant) -> Seq<Posting> {
        seq![
            Posting {
                channel: self.members[i].dm_id,
                text: greeting(self.members[i].name, weekday_name(now.secs(), now.nanos())),
            },
            Posting { channel: self.members[i].dm_id, text: self.questions[0] },
        ]
    }

    /// A tick at an instant after the trigger that a member waits for asks
    /// that member the first question, and sends the member one greeting
    /// and the first question, in this order and nothing else.
    pub proof fn lemma_passed_trigger_asks(self, i: int, now: Instant, today: Instant)
        requires
            self.wf(),
            0 <= i < self.members.len(),
            self.leads(i),
            self.conversations[i].state is TooEarly,
            self.conversations[i].state->stand_up_time.before(now),
        ensures
            self.ticked(now, today).conversations[i].state == (State::Asked { question: 1 }),
            self.ticked(now, today).conversations[i].answers.len() == 0,
            self.member_tick(i, now, today).posts == self.opening(i, now),
    {
    }

    /// A tick at an instant not after the trigger that a member waits for
    /// leaves that member's conversation as it is and sends the member
    /// nothing.
    pub proof fn lemma_early_tick_waits(self, i: int, now: Instant, today: Instant)
        requires
            self.wf(),
            0 <= i < self.members.len(),
            self.conversations[i].state is TooEarly,
            !self.conversations[i].state->stand_up_time.before(now),
        ensures
            self.ticked(now, today).conversations[i] == self.conversations[i],
            self.member_tick(i, now, today).posts == Seq::<Posting>::empty(),
    {
    }

    /// Where every member waits for a trigger that has passed at `now`, and
    /// no member is listed twice, a tick asks every member the first
    /// question and sends exactly two messages for each, in the order of
    /// the members: the member's greeting and the first question.
    pub proof fn lemma_passed_triggers_ask_all(self, now: Instant, today: Instant)
        requires
            self.wf(),
            forall|i: int|
                0 <= i < self.members.len() ==> {
                    &&& self.leads(i)
                    &&& (#[trigger] self.conversations[i]).state is TooEarly
                    &&& self.conversations[i].state->stand_up_time.before(now)
                },
        ensures
            self.tick_posts(now, today).len() == 2 * self.members.len(),
            forall|i: int|
                0 <= i < self.members.len() ==> {
                    &&& (#[trigger] self.ticked(now, today).conversations[i]).state
                        == (State::Asked { question: 1 })
                    &&& self.tick_posts(now, today)[2 * i] == self.opening(i, now)[0]
                    &&& self.tick_posts(now, today)[2 * i + 1] == self.opening(i, now)[1]
                },
    {
        self.lemma_opening_posts(now, today, self.members.len() as int);
    }

    /// The messages of such a tick for the first `upto` members.
    proof fn lemma_opening_posts(self, now: Instant, today: Instant, upto: int)
        requires
            self.wf(),
            0 <= upto <= self.members.len(),
            forall|i: int|
                0 <= i < self.members.len() ==> {
                    &&& self.leads(i)
                    &&& (#[trigger] self.conversations[i]).state is TooEarly
                    &&& self.conversations[i].state->stand_up_time.before(now)
                },
        ensures
            self.tick_posts_upto(now, today, upto).len() == 2 * upto,
            forall|i: int|
                0 <= i < upto ==> {
                    &&& self.tick_posts_upto(now, today, upto)[2 * i] == (#[trigger] self.opening(
                        i,
                        now,
                    ))[0]
                    &&& self.tick_posts_upto(now, today, upto)[2 * i + 1] == self.opening(i, now)[1]
                },
        decreases upto,
    {
        if upto > 0 {
            self.lemma_opening_posts(now, today, upto - 1);
        }
    }

    /// Where every member waits for a trigger that has not passed at `now`,
    /// a tick changes nothing and sends nothing.
    pub proof fn lemma_early_tick_is_idle(self, now: Instant, today: Instant)
        requires
            self.wf(),
            forall|i: int|
                0 <= i < self.members.len() ==> {
                    &&& (#[trigger] self.conversations[i]).state is TooEarly
                    &&& !self.conversations[i].state->stand_up_time.before(now)
                },
        ensures
            self.ticked(now, today) == self,
            self.tick_posts(now, today) == Seq::<Posting>::empty(),
    {
        self.lemma_idle_posts(now, today, self.members.len() as int);
    }

    /// Such a tick sends nothing for the first `upto` members.
    proof fn lemma_idle_posts(self, now: Instant, today: Instant, upto: int)
        requires
            self.wf(),
            0 <= upto <= self.members.len(),
            forall|i: int|
                0 <= i < self.members.len() ==> {
                    &&& (#[trigger] self.conversations[i]).state is TooEarly
                    &&& !self.conversations[i].state->stand_up_time.before(now)
                },
        ensures
            self.tick_posts_upto(now, today, upto) == Seq::<Posting>::empty(),
        decreases upto,
    {
        if upto > 0 {
            self.lemma_idle_posts(now, today, upto - 1);
        }
    }

    /// The day's turn: a member who is asked or done, ticked at an instant
    /// before the day's trigger, waits for that trigger again, with no
    /// answers kept, and is sent nothing.
    pub proof fn lemma_new_day_resets(self, i: int, now: Instant, today: Instant)
        requires
            self.wf(),
            0 <= i < self.members.len(),
            self.leads(i),
            self.conversations[i].state is Asked || self.conversations[i].state is Done,
            now.before(today),
        ensures
            self.ticked(now, today).conversations[i] == waiting(today),
            self.member_tick(i, now, today).posts == Seq::<Posting>::empty(),
    {
    }

    /// A member who is asked or done, ticked at an instant not before the
    /// day's trigger, stays as they are and is sent nothing: nobody is
    /// greeted twice on a day.
    pub proof fn lemma_same_day_stays(self, i: int, now: Instant, today: Instant)
        requires
            self.wf(),
            0 <= i < self.members.len(),
            self.conversations[i].state is Asked || self.conversations[i].state is Done,
            !now.before(today),
        ensures
            self.ticked(now, today).conversations[i] == self.conversations[i],
            self.member_tick(i, now, today).posts == Seq::<Posting>::empty(),
    {
    }

    /// A message to a channel that is no member's direct-message channel,
    /// or to none, changes nothing, sends nothing and is no fault.
    pub proof fn lemma_stranger_is_passed_over(self, message: Inbound)
        requires
            message matches Inbound::Standard { channel, .. } ==> forall|i: int|
                0 <= i < self.members.len() ==> channel != Some(
                    (#[trigger] self.members[i]).dm_id,
                ),
        ensures
            self.handled(message) == self.unmoved(None),
    {
    }

    /// A message moves the conversation of its sender at most: every
    /// other member's state and answers stay as they are, and so do the
    /// settings.
    pub proof fn lemma_message_moves_its_sender_only(self, message: Inbound, other: int)
        requires
            self.wf(),
            0 <= other < self.members.len(),
            !(routed(self.members, message) matches Routed::Answer { member, .. } && member
                == other),
        ensures
            self.handled(message).next.conversations[other] == self.conversations[other],
            self.handled(message).next.members == self.members,
            self.handled(message).next.questions == self.questions,
            self.handled(message).next.channel == self.channel,
            self.handled(message).next.schedule == self.schedule,
    {
        if routed(self.members, message) is Answer {
            lemma_first_with_id(self.members, message->user->0, 0);
        }
    }

    /// A tick and a message each leave a well-formed bot well formed: a
    /// conversation for each member, an outstanding question among those
    /// configured, and as many answers kept as questions answered.
    pub proof fn lemma_wf_is_kept(self, now: Instant, today: Instant, message: Inbound)
        requires
            self.wf(),
        ensures
            self.ticked(now, today).wf(),
            self.handled(message).next.wf(),
    {
        if routed(self.members, message) is Answer {
            lemma_first_with_id(self.members, message->user->0, 0);
        }
    }
}

} // verus!
