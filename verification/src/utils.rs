//! The daily schedule, a twelve-hour wall-clock time read from text, and the
//! identity of a team member.

use crate::instant::Instant;
use crate::text::{
    all_digits, chars_of, digits_value, is_digit, lemma_mark_from, mark_from, mark_in, number_in,
    number_of, unsigned,
};
use vstd::prelude::*;

verus! {

/// Which half of the day a twelve-hour time lies in.
#[derive(Clone, Copy, Debug, PartialEq, Eq, Structural)]
pub enum Period {
    AM,
    PM,
}

/// What a period suffix spells: `AM`, `PM`, or nothing.
pub open spec fn period_of(s: Seq<char>) -> Option<Period> {
    if s =~= seq!['A', 'M'] {
        Some(Period::AM)
    } else if s =~= seq!['P', 'M'] {
        Some(Period::PM)
    } else {
        None
    }
}

/// A time of day on the clock of twelve hours. The fields are held as read
/// and need not name a time of day; `is_valid` tells whether they do.
#[derive(Clone, Copy, Debug, PartialEq, Eq, Structural)]
pub struct TimeOfDay {
    pub hour: u8,
    pub min: u8,
    pub period: Period,
}

/// The time of day that `s` writes: an hour, a colon, a minute and, with
/// nothing between, `AM` or `PM`. Hour and minute are numbers in the sense
/// of `number_of`; where the text before the period holds further colons,
/// the minute ends at the second one and the rest is not read.
pub open spec fn time_of_day_of(s: Seq<char>) -> Option<TimeOfDay> {
    if s.len() < 2 {
        None
    } else {
        let body = s.take(s.len() - 2);
        let first = mark_from(body, ':', 0);
        let second = mark_from(body, ':', first + 1);
        if first >= body.len() {
            None
        } else {
            match (
                number_of(body.subrange(0, first)),
                number_of(body.subrange(first + 1, second)),
                period_of(s.skip(s.len() - 2)),
            ) {
                (Some(hour), Some(min), Some(period)) => Some(TimeOfDay { hour, min, period }),
                _ => None,
            }
        }
    }
}

impl Period {
    /// Reads `AM` or `PM`; any other text is refused.
    pub fn from_str(s: &str) -> (r: Result<Period, ()>)
        ensures
            r == match period_of(s@) {
                Some(p) => Ok::<Period, ()>(p),
                None => Err::<Period, ()>(()),
            },
    {
        let chars: Vec<char> = chars_of(s);
        match period_in(&chars, 0) {
            Some(p) => Ok(p),
            None => Err(()),
        }
    }
}

/// Reads the period that the characters from `from` to the end spell.
fn period_in(chars: &Vec<char>, from: usize) -> (r: Option<Period>)
    requires
        from <= chars.len(),
    ensures
        r == period_of(chars@.skip(from as int)),
{
    if chars.len() - from != 2 || chars[from + 1] != 'M' {
        return None;
    }
    let c: char = chars[from];
    if c == 'A' {
        Some(Period::AM)
    } else if c == 'P' {
        Some(Period::PM)
    } else {
        None
    }
}

impl TimeOfDay {
    /// Reads a time of day such as `9:00AM` or `10:30PM`. Text of any other
    /// shape is refused, also text too short to hold a time and a period.
    /// Hour and minute are not held to any range.
    pub fn from_str(s: &str) -> (r: Result<TimeOfDay, ()>)
        ensures
            r == match time_of_day_of(s@) {
                Some(t) => Ok::<TimeOfDay, ()>(t),
                None => Err::<TimeOfDay, ()>(()),
            },
    {
        let chars: Vec<char> = chars_of(s);
        let n: usize = chars.len();
        if n < 2 {
            return Err(());
        }
        let end: usize = n - 2;
        let ghost body = chars@.take(end as int);
        let first: usize = mark_in(&chars, ':', 0, end);
        if first >= end {
            return Err(());
        }
        let second: usize = mark_in(&chars, ':', first + 1, end);
        assert(body.subrange(0, first as int) =~= chars@.subrange(0, first as int));
        assert(body.subrange(first + 1, second as int) =~= chars@.subrange(
            first + 1,
            second as int,
        ));
        let hour: u8 = match number_in(&chars, 0, first) {
            Some(h) => h,
            None => { return Err(()); },
        };
        let min: u8 = match number_in(&chars, first + 1, second) {
            Some(m) => m,
            None => { return Err(()); },
        };
        match period_in(&chars, end) {
            Some(period) => Ok(TimeOfDay { hour, min, period }),
            None => Err(()),
        }
    }

    /// The hour on the clock of 24 hours: 12 AM is 0, 12 PM is 12, any
    /// other hour stands as it is before noon and twelve later after it.
    pub open spec fn hour24(self) -> int {
        if self.hour == 12 {
            match self.period {
                Period::AM => 0,
                Period::PM => 12,
            }
        } else {
            match self.period {
                Period::AM => self.hour as int,
                Period::PM => self.hour + 12,
            }
        }
    }

    /// Whether the fields name a time of the day: the hour on the clock of
    /// 24 hours is below 24 and the minute below 60.
    pub open spec fn is_valid(self) -> bool {
        self.hour24() < 24 && self.min < 60
    }

    /// Tells whether the fields name a time of the day.
    pub fn names_a_time(&self) -> (b: bool)
        ensures
            b == self.is_valid(),
    {
        let twelve: bool = self.hour == 12;
        let before_noon: bool = match self.period {
            Period::AM => true,
            Period::PM => false,
        };
        self.min < 60 && (twelve || (before_noon && self.hour < 24) || self.hour < 12)
    }

    /// The day's trigger: the instant on the day of `now` at this time of
    /// day, on the whole second; an error where this is no time of day.
    pub open spec fn trigger(self, now: Instant) -> Result<Instant, ()> {
        if self.is_valid() {
            Ok(now.on_the_day_at(self.hour24(), self.min as int))
        } else {
            Err(())
        }
    }

    /// The trigger instant on the day of `now`. It is computed from `now`
    /// alone and may lie before or after it.
    pub fn next_trigger(&self, now: Instant) -> (r: Result<Instant, ()>)
        ensures
            r == self.trigger(now),
    {
        let hour: u32 = if self.hour == 12 {
            match self.period {
                Period::AM => 0,
                Period::PM => 12,
            }
        } else {
            match self.period {
                Period::AM => self.hour as u32,
                Period::PM => self.hour as u32 + 12,
            }
        };
        match now.at_time_of_day(hour, self.min as u32) {
            Some(t) => Ok(t),
            None => Err(()),
        }
    }

    /// Today's trigger by the system clock: an error where, and only
    /// where, this is no time of day; else the trigger on the day that the
    /// clock reads, which, whatever that day is, lies at this time of day
    /// on the whole second.
    pub fn today(&self) -> (r: Result<Instant, ()>)
        ensures
            r is Ok <==> self.is_valid(),
            r matches Ok(t) ==> {
                &&& exists|now: Instant| now.wf() && self.trigger(now) == Ok::<Instant, ()>(t)
                &&& t.wf()
                &&& t.nanos() == 0
                &&& t.second_of_day() == self.hour24() * 3600 + self.min * 60
            },
    {
        match Instant::now() {
            Some(now) => {
                let r = self.next_trigger(now);
                proof {
                    if self.is_valid() {
                        now.lemma_on_the_day_at(self.hour24(), self.min as int);
                    }
                }
                r
            },
            None => Err(()),
        }
    }
}

/// What a period is written as.
pub open spec fn period_text(p: Period) -> Seq<char> {
    match p {
        Period::AM => seq!['A', 'M'],
        Period::PM => seq!['P', 'M'],
    }
}

/// A time written as one or two digits of an hour from 1 to 12, a colon,
/// two digits of a minute below 60 and `AM` or `PM` is read as that hour,
/// minute and period. Its trigger for any `now` exists, lies on the day of
/// `now` at the hour of the clock of 24 hours and at the minute, and on the
/// whole second: 12 AM is hour 0, 12 PM hour 12, any other hour stands
/// before noon and is twelve more after it.
pub proof fn lemma_written_time_triggers(
    hour_text: Seq<char>,
    min_text: Seq<char>,
    period: Period,
    now: Instant,
)
    requires
        1 <= hour_text.len() <= 2,
        all_digits(hour_text),
        1 <= digits_value(hour_text) <= 12,
        min_text.len() == 2,
        all_digits(min_text),
        digits_value(min_text) < 60,
        now.wf(),
    ensures
        ({
            let text = hour_text + seq![':'] + min_text + period_text(period);
            let hour = digits_value(hour_text);
            let min = digits_value(min_text);
            let time = TimeOfDay { hour: hour as u8, min: min as u8, period };
            let hour24 = (if hour == 12 {
                0
            } else {
                hour as int
            }) + (if period == Period::PM {
                12int
            } else {
                0int
            });
            &&& time_of_day_of(text) == Some(time)
            &&& time.trigger(now) is Ok
            &&& time.trigger(now)->Ok_0.wf()
            &&& time.trigger(now)->Ok_0.day() == now.day()
            &&& time.trigger(now)->Ok_0.second_of_day() == hour24 * 3600 + min * 60
            &&& time.trigger(now)->Ok_0.nanos() == 0
        }),
{
    let text = hour_text + seq![':'] + min_text + period_text(period);
    let body = text.take(text.len() - 2);
    let h = hour_text.len() as int;
    lemma_mark_from(body, ':', 0, h);
    lemma_mark_from(body, ':', h + 1, body.len() as int);
    assert(body.subrange(0, h) =~= hour_text);
    assert(body.subrange(h + 1, body.len() as int) =~= min_text);
    let time = TimeOfDay {
        hour: digits_value(hour_text) as u8,
        min: digits_value(min_text) as u8,
        period,
    };
    now.lemma_on_the_day_at(time.hour24(), time.min as int);
}

/// A member of the team: the name to address them by, their user id on
/// the platform, and the id of the direct-message channel to them. Two
/// values stand for the same member where the two ids agree, whatever the
/// names.
#[derive(Debug)]
pub struct TeamMember {
    pub name: String,
    pub id: String,
    pub dm_id: String,
}

/// What a `TeamMember` holds, as plain text.
pub struct Member {
    pub name: Seq<char>,
    pub id: Seq<char>,
    pub dm_id: Seq<char>,
}

impl Member {
    /// Whether two values stand for the same member.
    pub open spec fn same(self, other: Member) -> bool {
        self.id == other.id && self.dm_id == other.dm_id
    }
}

impl View for TeamMember {
    type V = Member;

    open spec fn view(&self) -> Member {
        Member { name: self.name@, id: self.id@, dm_id: self.dm_id@ }
    }
}

impl DeepView for TeamMember {
    type V = Member;

    open spec fn deep_view(&self) -> Member {
        self@
    }
}

impl Clone for TeamMember {
    fn clone(&self) -> (m: TeamMember)
        ensures
            m@ == self@,
    {
        TeamMember { name: self.name.clone(), id: self.id.clone(), dm_id: self.dm_id.clone() }
    }
}

impl PartialEq for TeamMember {
    fn eq(&self, other: &TeamMember) -> (b: bool) {
        self.id == other.id && self.dm_id == other.dm_id
    }
}

impl Eq for TeamMember {

}

impl vstd::std_specs::cmp::PartialEqSpecImpl for TeamMember {
    open spec fn obeys_eq_spec() -> bool {
        true
    }

    open spec fn eq_spec(&self, other: &TeamMember) -> bool {
        self@.same(other@)
    }
}

impl TeamMember {
    /// The member's name, as the member is shown in text.
    pub fn to_string(&self) -> (s: String)
        ensures
            s@ == self@.name,
    {
        self.name.clone()
    }
}

} // verus!
