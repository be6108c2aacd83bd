//! The messages that the bot asks to have sent, and their texts.

use vstd::prelude::*;
use vstd::string::*;

verus! {

/// A message to be sent: the channel it goes to and its text.
#[derive(Debug, PartialEq, Eq)]
pub struct Post {
    pub channel: String,
    pub text: String,
}

/// What a `Post` holds, as plain text.
pub struct Posting {
    pub channel: Seq<char>,
    pub text: Seq<char>,
}

impl View for Post {
    type V = Posting;

    open spec fn view(&self) -> Posting {
        Posting { channel: self.channel@, text: self.text@ }
    }
}

impl Clone for Post {
    fn clone(&self) -> (p: Post)
        ensures
            p@ == self@,
    {
        Post { channel: self.channel.clone(), text: self.text.clone() }
    }
}

impl DeepView for Post {
    type V = Posting;

    open spec fn deep_view(&self) -> Posting {
        self@
    }
}

/// The greeting that opens a member's stand-up on the named weekday.
pub open spec fn greeting(name: Seq<char>, weekday: Seq<char>) -> Seq<char> {
    "Hello "@ + name + ", it's "@ + weekday + "! Time for your daily stand-up!"@
}

/// The remark that closes a member's stand-up.
pub open spec fn farewell() -> Seq<char> {
    "All done for the day, speak to you tomorrow!"@
}

/// The text taken for an answer that came without any.
pub open spec fn no_text() -> Seq<char> {
    "Nothing"@
}

/// One line of a summary: the question between double asterisks, a colon
/// and a space, and the answer.
pub open spec fn summary_line(question: Seq<char>, answer: Seq<char>) -> Seq<char> {
    "**"@ + question + "**: "@ + answer
}

/// The lines of a summary: one for each answer, in the order of the
/// questions, each with the question of its place.
pub open spec fn summary_lines(questions: Seq<Seq<char>>, answers: Seq<Seq<char>>) -> Seq<
    Seq<char>,
> {
    Seq::new(answers.len(), |i: int| summary_line(questions[i], answers[i]))
}

/// The lines, each but the first after a line break.
pub open spec fn joined(lines: Seq<Seq<char>>) -> Seq<char>
    decreases lines.len(),
{
    if lines.len() == 0 {
        Seq::empty()
    } else if lines.len() == 1 {
        lines[0]
    } else {
        joined(lines.drop_last()) + "\n"@ + lines.last()
    }
}

/// A member's summary: a header line with the member's name between
/// asterisks, then the summary's lines.
pub open spec fn summary(name: Seq<char>, questions: Seq<Seq<char>>, answers: Seq<Seq<char>>) -> Seq<
    char,
> {
    "*"@ + name + "*\n"@ + joined(summary_lines(questions, answers))
}

/// Writes a member's summary.
pub fn summary_text(name: &String, questions: &Vec<String>, answers: &Vec<String>) -> (s: String)
    requires
        answers.len() <= questions.len(),
    ensures
        s@ == summary(name@, questions.deep_view(), answers.deep_view()),
{
    let ghost qs = questions.deep_view();
    let ghost ans = answers.deep_view();
    let ghost lines = summary_lines(qs, ans);
    let mut body: String = String::new();
    let mut i: usize = 0;
    while i < answers.len()
        invariant
            i <= answers.len() <= questions.len(),
            qs == questions.deep_view(),
            ans == answers.deep_view(),
            lines == summary_lines(qs, ans),
            body@ == joined(lines.take(i as int)),
        decreases answers.len() - i,
    {
        if i > 0 {
            body.append("\n");
        }
        body.append("**");
        body.append(questions[i].as_str());
        body.append("**: ");
        body.append(answers[i].as_str());
        assert(lines.take(i + 1).drop_last() =~= lines.take(i as int));
        i = i + 1;
    }
    assert(lines.take(i as int) =~= lines);
    let mut s: String = String::from_str("*");
    s.append(name.as_str());
    s.append("*\n");
    s.append(body.as_str());
    s
}

/// Writes the greeting.
pub fn greeting_text(name: &String, weekday: &String) -> (s: String)
    ensures
        s@ == greeting(name@, weekday@),
{
    let mut text: String = String::from_str("Hello ");
    text.append(name.as_str());
    text.append(", it's ");
    text.append(weekday.as_str());
    text.append("! Time for your daily stand-up!");
    text
}

/// Writes the closing remark.
pub fn farewell_text() -> (s: String)
    ensures
        s@ == farewell(),
{
    String::from_str("All done for the day, speak to you tomorrow!")
}

} // verus!
