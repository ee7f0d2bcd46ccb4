//! How reminders are shown: spans of time in words, and the text of a
//! reminder in a list.

use crate::text::{decimal, decimal_string, two_places, two_places_string, views};
use vstd::prelude::*;
use vstd::string::StringExecFns;

verus! {

/// Seconds in a day.
pub const DAY: u64 = 86_400;

/// Seconds in an hour.
pub const HOUR: u64 = 3_600;

/// Seconds in a minute.
pub const MINUTE: u64 = 60;

/// Calls `num_integer::Integer::div_rem` on two `u64`, which divides with
/// truncation: the quotient and the remainder of `a` by `b`.
#[verifier::external_body]
fn div_rem(a: u64, b: u64) -> (r: (u64, u64))
    requires
        b != 0,
    ensures
        r.0 == a / b,
        r.1 == a % b,
{
    num_integer::Integer::div_rem(&a, &b)
}

/// The whole days in a span of seconds.
pub open spec fn days_of(seconds: nat) -> nat {
    seconds / 86_400
}

/// The hours left once the days are taken off.
pub open spec fn hours_of(seconds: nat) -> nat {
    (seconds % 86_400) / 3_600
}

/// The minutes left once the hours are taken off.
pub open spec fn minutes_of(seconds: nat) -> nat {
    ((seconds % 86_400) % 3_600) / 60
}

/// The seconds left once the minutes are taken off.
pub open spec fn seconds_of(seconds: nat) -> nat {
    ((seconds % 86_400) % 3_600) % 60
}

/// Hours, minutes and seconds as on a clock, two places each.
pub open spec fn clock(seconds: nat) -> Seq<char> {
    two_places(hours_of(seconds)) + ":"@ + two_places(minutes_of(seconds)) + ":"@ + two_places(
        seconds_of(seconds),
    )
}

/// A span in short: the clock, with the number of days in front where there
/// is at least one.
pub open spec fn shorthand(seconds: nat) -> Seq<char> {
    if days_of(seconds) > 0 {
        decimal(days_of(seconds)) + " days, "@ + clock(seconds)
    } else {
        clock(seconds)
    }
}

/// One part of a span in words, or none where its value is zero.
pub open spec fn section(value: nat, unit: Seq<char>) -> Seq<Seq<char>> {
    if value > 0 {
        seq![decimal(value) + " "@ + unit]
    } else {
        Seq::empty()
    }
}

/// The parts of a span in words: days, hours, minutes, seconds, without those
/// that are zero.
pub open spec fn sections(seconds: nat) -> Seq<Seq<char>> {
    section(days_of(seconds), "days"@) + section(hours_of(seconds), "hours"@) + section(
        minutes_of(seconds),
        "minutes"@,
    ) + section(seconds_of(seconds), "seconds"@)
}

/// The first `n` of `parts` with a comma and a blank between each two.
pub open spec fn comma_list(parts: Seq<Seq<char>>, n: nat) -> Seq<char>
    decreases n,
{
    if n == 0 || n > parts.len() {
        Seq::empty()
    } else if n == 1 {
        parts[0]
    } else {
        comma_list(parts, (n - 1) as nat) + ", "@ + parts[n - 1]
    }
}

/// A span in words; empty for a span of no length.
pub open spec fn longhand(seconds: nat) -> Seq<char> {
    comma_list(sections(seconds), sections(seconds).len())
}

/// Writes a span of seconds in short, as `01:02:03` or `4 days, 01:02:03`.
pub fn shorthand_displacement(seconds: u64) -> (r: String)
    ensures
        r@ == shorthand(seconds as nat),
{
    let (days, seconds) = div_rem(seconds, DAY);
    let (hours, seconds) = div_rem(seconds, HOUR);
    let (minutes, seconds) = div_rem(seconds, MINUTE);
    let mut time_repr = two_places_string(hours);
    time_repr.append(":");
    time_repr.append(two_places_string(minutes).as_str());
    time_repr.append(":");
    time_repr.append(two_places_string(seconds).as_str());
    if days > 0 {
        let mut out = decimal_string(days);
        out.append(" days, ");
        out.append(time_repr.as_str());
        out
    } else {
        time_repr
    }
}

fn push_section(parts: &mut Vec<String>, value: u64, unit: &str)
    ensures
        views(final(parts)@) == views(old(parts)@) + section(
            value as nat,
            unit@,
        ),
{
    let ghost before = parts@;
    if value > 0 {
        let mut s = decimal_string(value);
        s.append(" ");
        s.append(unit);
        parts.push(s);
        assert(views(parts@) =~= views(before) + section(
            value as nat,
            unit@,
        ));
    } else {
        assert(views(parts@) =~= views(before) + section(
            value as nat,
            unit@,
        ));
    }
}

/// Writes a span of seconds in words, as `1 days, 2 hours, 3 seconds`.
pub fn longhand_displacement(seconds: u64) -> (r: String)
    ensures
        r@ == longhand(seconds as nat),
{
    let ghost total = seconds as nat;
    let (days, seconds) = div_rem(seconds, DAY);
    let (hours, seconds) = div_rem(seconds, HOUR);
    let (minutes, seconds) = div_rem(seconds, MINUTE);
    let mut parts: Vec<String> = Vec::new();
    assert(views(parts@) =~= Seq::<Seq<char>>::empty());
    push_section(&mut parts, days, "days");
    push_section(&mut parts, hours, "hours");
    push_section(&mut parts, minutes, "minutes");
    push_section(&mut parts, seconds, "seconds");
    assert(views(parts@) =~= sections(total));
    let mut out = String::new();
    let mut i: usize = 0;
    while i < parts.len()
        invariant
            i <= parts.len(),
            out@ == comma_list(views(parts@), i as nat),
        decreases parts.len() - i,
    {
        if i > 0 {
            out.append(", ");
        }
        out.append(parts[i].as_str());
        proof {
            if i == 0 {
                assert(out@ =~= views(parts@)[0]);
            }
        }
        i = i + 1;
    }
    out
}

/// The characters that a reminder's name is drawn from.
pub const CHARACTERS: &'static str =
    "abcdefghijklmnopqrstuvwxyzABCDEFGHIJKLMNOPQRSTUVWXYZ0123456789_";

/// Number of characters in a reminder's name.
pub const UID_LENGTH: usize = 64;

/// Calls `rand::seq::IteratorRandom::choose` on the characters of `alphabet`,
/// with `rand::rngs::OsRng` as the source of chance: one of the characters,
/// and none if and only if there is no character. Which one is left open. The
/// call does not return where the operating system gives no random bytes.
#[verifier::external_body]
fn choose_char(alphabet: &str) -> (r: Option<char>)
    ensures
        match r {
            Some(c) => alphabet@.contains(c),
            None => alphabet@.len() == 0,
        },
{
    rand::seq::IteratorRandom::choose(alphabet.chars(), &mut rand::rngs::OsRng)
}

/// Calls `String::push`: the character is added at the end.
#[verifier::external_body]
fn push_char(s: &mut String, c: char)
    ensures
        final(s)@ == old(s)@.push(c),
{
    s.push(c)
}

/// Whether `uid` could be a reminder's name: as long as `length` says, and
/// made of the characters of `alphabet` alone.
pub open spec fn is_uid(uid: Seq<char>, alphabet: Seq<char>, length: nat) -> bool {
    uid.len() == length && forall|i: int| 0 <= i < uid.len() ==> alphabet.contains(#[trigger] uid[i])
}

/// Draws `length` characters from `alphabet`, each by a draw of its own.
/// Without a character to draw from, the name stays empty.
pub fn draw_uid(alphabet: &str, length: usize) -> (r: String)
    ensures
        alphabet@.len() > 0 ==> is_uid(r@, alphabet@, length as nat),
        alphabet@.len() == 0 ==> r@.len() == 0,
{
    let mut out = String::new();
    let mut i: usize = 0;
    while i < length
        invariant
            i <= length,
            alphabet@.len() > 0 ==> is_uid(out@, alphabet@, i as nat),
            alphabet@.len() == 0 ==> out@.len() == 0,
        decreases length - i,
    {
        match choose_char(alphabet) {
            Some(c) => {
                push_char(&mut out, c);
            },
            None => {},
        }
        i = i + 1;
    }
    out
}

/// Draws a new name for a reminder.
pub fn generate_uid() -> (r: String)
    ensures
        is_uid(r@, CHARACTERS@, UID_LENGTH as nat),
{
    proof {
        reveal_strlit("abcdefghijklmnopqrstuvwxyzABCDEFGHIJKLMNOPQRSTUVWXYZ0123456789_");
    }
    draw_uid(CHARACTERS, UID_LENGTH)
}

/// Whom a reminder is for.
#[derive(Clone, Copy, PartialEq, Eq, Structural, Debug)]
pub enum ReminderScope {
    User(u64),
    Channel(u64),
}

impl ReminderScope {
    /// The mention of the user or the channel.
    pub open spec fn mention_text(self) -> Seq<char> {
        match self {
            ReminderScope::User(id) => "<@"@ + decimal(id as nat) + ">"@,
            ReminderScope::Channel(id) => "<#"@ + decimal(id as nat) + ">"@,
        }
    }

    /// Writes the mention of the user or the channel.
    pub fn mention(&self) -> (r: String)
        ensures
            r@ == self.mention_text(),
    {
        match self {
            ReminderScope::User(id) => {
                let mut out = String::from_str("<@");
                out.append(decimal_string(*id).as_str());
                out.append(">");
                out
            },
            ReminderScope::Channel(id) => {
                let mut out = String::from_str("<#");
                out.append(decimal_string(*id).as_str());
                out.append(">");
                out
            },
        }
    }
}

/// Why a reminder was not set.
#[derive(Clone, Copy, PartialEq, Eq, Structural, Hash, Debug)]
pub enum ReminderError {
    LongTime,
    LongInterval,
    PastTime,
    ShortInterval,
    InvalidTag,
    NotEnoughArgs,
    InvalidTime,
    NeedSubscription,
    DiscordError,
}

impl ReminderError {
    /// The key of the message that tells the user of the error.
    pub open spec fn response_key(self) -> Seq<char> {
        match self {
            ReminderError::LongTime => "remind/long_time"@,
            ReminderError::LongInterval => "interval/long_interval"@,
            ReminderError::PastTime => "remind/past_time"@,
            ReminderError::ShortInterval => "interval/short_interval"@,
            ReminderError::InvalidTag => "remind/invalid_tag"@,
            ReminderError::NotEnoughArgs => "remind/no_argument"@,
            ReminderError::InvalidTime => "remind/invalid_time"@,
            ReminderError::NeedSubscription => "interval/donor"@,
            ReminderError::DiscordError => "remind/no_webhook"@,
        }
    }

    /// The key of the message where the reminder was asked for in plain words:
    /// two errors have a wording of their own there.
    pub open spec fn natural_key(self) -> Seq<char> {
        match self {
            ReminderError::LongTime => "natural/long_time"@,
            ReminderError::InvalidTime => "natural/invalid_time"@,
            _ => self.response_key(),
        }
    }

    /// The key of the message that tells the user of the error.
    pub fn to_response(&self) -> (r: &'static str)
        ensures
            r@ == self.response_key(),
    {
        match self {
            ReminderError::LongTime => "remind/long_time",
            ReminderError::LongInterval => "interval/long_interval",
            ReminderError::PastTime => "remind/past_time",
            ReminderError::ShortInterval => "interval/short_interval",
            ReminderError::InvalidTag => "remind/invalid_tag",
            ReminderError::NotEnoughArgs => "remind/no_argument",
            ReminderError::InvalidTime => "remind/invalid_time",
            ReminderError::NeedSubscription => "interval/donor",
            ReminderError::DiscordError => "remind/no_webhook",
        }
    }

    /// The key of the message where the reminder was asked for in plain
    /// words.
    pub fn to_response_natural(&self) -> (r: &'static str)
        ensures
            r@ == self.natural_key(),
    {
        match self {
            ReminderError::LongTime => "natural/long_time",
            ReminderError::InvalidTime => "natural/invalid_time",
            _ => self.to_response(),
        }
    }
}

/// The key of the message for the outcome of setting a reminder.
pub open spec fn outcome_key<T>(outcome: Result<T, ReminderError>, natural: bool) -> Seq<char> {
    match outcome {
        Ok(_) => "remind/success"@,
        Err(e) => if natural {
            e.natural_key()
        } else {
            e.response_key()
        },
    }
}

/// The key of the message that tells the user how setting a reminder went.
pub fn result_to_response<T>(outcome: &Result<T, ReminderError>) -> (r: &'static str)
    ensures
        r@ == outcome_key(*outcome, false),
{
    match outcome {
        Ok(_) => "remind/success",
        Err(e) => e.to_response(),
    }
}

/// The key of the message where the reminder was asked for in plain words.
pub fn result_to_response_natural<T>(outcome: &Result<T, ReminderError>) -> (r: &'static str)
    ensures
        r@ == outcome_key(*outcome, true),
{
    match outcome {
        Ok(_) => "remind/success",
        Err(e) => e.to_response_natural(),
    }
}

/// A reminder as a list shows it.
#[derive(Clone, Debug, PartialEq, Eq)]
pub struct LookReminder {
    pub id: u32,
    pub time: u32,
    pub channel: u64,
    pub content: String,
    pub description: Option<String>,
}

impl LookReminder {
    /// The text to show: the content, or where that is empty the description,
    /// or where there is none nothing.
    pub open spec fn shown(&self) -> Seq<char> {
        if self.content@.len() > 0 {
            self.content@
        } else {
            match self.description {
                Some(d) => d@,
                None => Seq::empty(),
            }
        }
    }

    /// The text to show for the reminder.
    pub fn display_content(&self) -> (r: String)
        ensures
            r@ == self.shown(),
    {
        if !self.content.as_str().is_empty() {
            self.content.clone()
        } else {
            match &self.description {
                Some(d) => d.clone(),
                None => String::new(),
            }
        }
    }
}

} // verus!
