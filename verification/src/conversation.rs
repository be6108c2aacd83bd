//! One member's conversation: where it stands, and what a tick of the clock
//! and an answer do to it.

use crate::instant::{weekday_name, Instant};
use crate::post::{farewell, greeting, summary, summary_line, summary_lines, Posting};
use crate::utils::Member;
use vstd::prelude::*;

verus! {

/// Where a member's conversation stands.
#[derive(Clone, Copy, Debug, PartialEq, Eq, Structural)]
pub enum State {
    /// Waiting for the instant at which the day's stand-up starts.
    TooEarly { stand_up_time: Instant },
    /// The question of this number, counted from 1, awaits its answer.
    Asked { question: u8 },
    /// All questions are answered and the summary is posted.
    Done,
}

/// One member's conversation: its state and the answers given so far, the
/// first question's answer first.
#[verifier::ext_equal]
pub struct Conversation {
    pub state: State,
    pub answers: Seq<Seq<char>>,
}

/// What one event does to a conversation: how it stands afterwards and the
/// messages to send, in order.
#[verifier::ext_equal]
pub struct Step {
    pub next: Conversation,
    pub posts: Seq<Posting>,
}

impl Conversation {
    /// The conversation left as it is, with nothing to send.
    pub open spec fn stay(self) -> Step {
        Step { next: self, posts: Seq::empty() }
    }

    /// Whether state and answers fit each other and `n` questions: an
    /// outstanding question is one of the `n` and all before it are
    /// answered; a conversation not under way holds no answers.
    pub open spec fn wf(self, n: int) -> bool {
        match self.state {
            State::Asked { question } => 1 <= question <= n && self.answers.len() == question - 1,
            _ => self.answers.len() == 0,
        }
    }

    /// A tick of the clock at `now`, `today` being the day's trigger. A
    /// member waiting for a trigger that has passed is greeted and asked
    /// the first question. A member asked or done is set back to wait for
    /// `today`, the answers dropped, where `now` is still before it: a new
    /// day has begun. Else nothing happens.
    pub open spec fn ticked(
        self,
        member: Member,
        questions: Seq<Seq<char>>,
        now: Instant,
        today: Instant,
    ) -> Step {
        match self.state {
            State::TooEarly { stand_up_time } => if stand_up_time.before(now) {
                Step {
                    next: Conversation { state: State::Asked { question: 1 }, answers: self.answers },
                    posts: seq![
                        Posting {
                            channel: member.dm_id,
                            text: greeting(member.name, weekday_name(now.secs(), now.nanos())),
                        },
                        Posting { channel: member.dm_id, text: questions[0] },
                    ],
                }
            } else {
                self.stay()
            },
            _ => if now.before(today) {
                Step {
                    next: Conversation {
                        state: State::TooEarly { stand_up_time: today },
                        answers: Seq::empty(),
                    },
                    posts: Seq::empty(),
                }
            } else {
                self.stay()
            },
        }
    }

    /// An answer of the given text from the member. It counts only while a
    /// question is outstanding, and is then kept as that question's answer.
    /// After the last question the member is told so, the summary of all
    /// answers goes to `channel`, the answers are dropped and the
    /// conversation is done; after any other the next question is asked.
    pub open spec fn answered(
        self,
        member: Member,
        channel: Seq<char>,
        questions: Seq<Seq<char>>,
        text: Seq<char>,
    ) -> Step {
        match self.state {
            State::Asked { question } => {
                let answers = self.answers.push(text);
                if question == questions.len() {
                    Step {
                        next: Conversation { state: State::Done, answers: Seq::empty() },
                        posts: seq![
                            Posting { channel: member.dm_id, text: farewell() },
                            Posting { channel, text: summary(member.name, questions, answers) },
                        ],
                    }
                } else {
                    Step {
                        next: Conversation {
                            state: State::Asked { question: (question + 1) as u8 },
                            answers,
                        },
                        posts: seq![
                            Posting { channel: member.dm_id, text: questions[question as int] },
                        ],
                    }
                }
            },
            _ => self.stay(),
        }
    }
}

impl Conversation {
    /// The answers `texts` from the member, one after the other: how the
    /// conversation stands after the last, and all that was sent.
    pub open spec fn answered_all(
        self,
        member: Member,
        channel: Seq<char>,
        questions: Seq<Seq<char>>,
        texts: Seq<Seq<char>>,
    ) -> Step
        decreases texts.len(),
    {
        if texts.len() == 0 {
            self.stay()
        } else {
            let before = self.answered_all(member, channel, questions, texts.drop_last());
            let last = before.next.answered(member, channel, questions, texts.last());
            Step { next: last.next, posts: before.posts + last.posts }
        }
    }

    /// A member who has just been asked the first of the questions and
    /// answers fewer times than there are questions is asked the next
    /// question after each answer, all answers are kept in order, and the
    /// question after the last answer is outstanding.
    pub proof fn lemma_answers_are_kept(
        member: Member,
        channel: Seq<char>,
        questions: Seq<Seq<char>>,
        texts: Seq<Seq<char>>,
    )
        requires
            texts.len() < questions.len() <= u8::MAX,
        ensures
            ({
                let start = Conversation { state: State::Asked { question: 1 }, answers: Seq::empty() };
                let end = start.answered_all(member, channel, questions, texts);
                &&& end.next == (Conversation {
                    state: State::Asked { question: (texts.len() + 1) as u8 },
                    answers: texts,
                })
                &&& end.posts.len() == texts.len()
                &&& forall|k: int|
                    0 <= k < texts.len() ==> #[trigger] end.posts[k] == (Posting {
                        channel: member.dm_id,
                        text: questions[k + 1],
                    })
            }),
        decreases texts.len(),
    {
        if texts.len() > 0 {
            Self::lemma_answers_are_kept(member, channel, questions, texts.drop_last());
        }
    }

    /// The stand-up from the first question to the summary: a member who
    /// has just been asked the first of the questions and answers as many
    /// times as there are questions is asked each further question in turn,
    /// then told that the day is done, and last the summary goes to the
    /// shared channel, holding every answer with its question, in order.
    /// The conversation is then done and keeps no answers.
    pub proof fn lemma_all_answers_are_summed_up(
        member: Member,
        channel: Seq<char>,
        questions: Seq<Seq<char>>,
        texts: Seq<Seq<char>>,
    )
        requires
            1 <= questions.len() <= u8::MAX,
            texts.len() == questions.len(),
        ensures
            ({
                let start = Conversation { state: State::Asked { question: 1 }, answers: Seq::empty() };
                let end = start.answered_all(member, channel, questions, texts);
                let n = questions.len() as int;
                &&& end.next == (Conversation { state: State::Done, answers: Seq::empty() })
                &&& end.posts.len() == n + 1
                &&& forall|k: int|
                    0 <= k < n - 1 ==> #[trigger] end.posts[k] == (Posting {
                        channel: member.dm_id,
                        text: questions[k + 1],
                    })
                &&& end.posts[n - 1] == (Posting { channel: member.dm_id, text: farewell() })
                &&& end.posts[n] == (Posting {
                    channel,
                    text: summary(member.name, questions, texts),
                })
                &&& summary_lines(questions, texts).len() == n
                &&& forall|k: int|
                    0 <= k < n ==> #[trigger] summary_lines(questions, texts)[k] == summary_line(
                        questions[k],
                        texts[k],
                    )
            }),
    {
        let start = Conversation { state: State::Asked { question: 1 }, answers: Seq::empty() };
        Self::lemma_answers_are_kept(member, channel, questions, texts.drop_last());
        let before = start.answered_all(member, channel, questions, texts.drop_last());
        assert(before.next.answers.push(texts.last()) =~= texts);
    }
}

/// The conversation of a member that waits for the trigger `stand_up_time`
/// and has answered nothing.
pub open spec fn waiting(stand_up_time: Instant) -> Conversation {
    Conversation { state: State::TooEarly { stand_up_time }, answers: Seq::empty() }
}

} // verus!
