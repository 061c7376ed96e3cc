//! Proactive messages: how many may be sent, the one that waits, and the
//! reminders they draw on.
use vstd::prelude::*;
use vstd::string::*;

use crate::clock::Timestamp;
use crate::config::Settings;
use crate::text;
use crate::text::join_texts;

verus! {

/// The seconds of a day.
pub const DAY_SECONDS: i64 = 86_400;

/// Limits proactive messages to a number per day with a pause between them.
#[derive(Debug)]
pub struct ProactiveRateLimiter {
    pub max_per_day: u32,
    pub cooldown_seconds: u64,
    /// When messages were sent, in seconds, oldest first.
    pub sends: Vec<i64>,
}

/// What a [`ProactiveRateLimiter`] holds.
pub struct LimiterView {
    pub max_per_day: u32,
    pub cooldown_seconds: u64,
    pub sends: Seq<i64>,
}

impl View for ProactiveRateLimiter {
    type V = LimiterView;

    open spec fn view(&self) -> LimiterView {
        LimiterView {
            max_per_day: self.max_per_day,
            cooldown_seconds: self.cooldown_seconds,
            sends: self.sends@,
        }
    }
}

impl Clone for ProactiveRateLimiter {
    fn clone(&self) -> (r: ProactiveRateLimiter)
        ensures
            r@ == self@,
    {
        let sends = self.sends.clone();
        assert(sends@ =~= self.sends@);
        ProactiveRateLimiter {
            max_per_day: self.max_per_day,
            cooldown_seconds: self.cooldown_seconds,
            sends,
        }
    }
}

/// The limiter that the settings describe, before any message.
pub open spec fn fresh_limiter(settings: Settings) -> LimiterView {
    LimiterView {
        max_per_day: settings.background.proactive_max_per_day,
        cooldown_seconds: (settings.background.proactive_cooldown_minutes * 60) as u64,
        sends: Seq::empty(),
    }
}

/// How many messages were sent within the day before `now`.
pub open spec fn sent_today(sends: Seq<i64>, now: i64) -> nat
    decreases sends.len(),
{
    if sends.len() == 0 {
        0
    } else {
        sent_today(sends.drop_last(), now) + if now - sends.last() < DAY_SECONDS {
            1nat
        } else {
            0nat
        }
    }
}

/// Whether a message may be sent at `now`: fewer were sent today than the
/// limit, and the pause after each of them is over.
pub open spec fn allows(limiter: LimiterView, now: i64) -> bool {
    &&& sent_today(limiter.sends, now) < limiter.max_per_day
    &&& forall|i: int|
        0 <= i < limiter.sends.len() ==> now - #[trigger] limiter.sends[i]
            >= limiter.cooldown_seconds
}

/// The limiter after a message was sent at `now`.
pub open spec fn counted(limiter: LimiterView, now: i64) -> LimiterView {
    LimiterView { sends: limiter.sends.push(now), ..limiter }
}

impl ProactiveRateLimiter {
    /// The limiter that the settings describe, before any message.
    pub fn from_settings(settings: &Settings) -> (r: ProactiveRateLimiter)
        ensures
            r@ == fresh_limiter(*settings),
    {
        ProactiveRateLimiter {
            max_per_day: settings.background.proactive_max_per_day,
            cooldown_seconds: settings.background.proactive_cooldown_minutes as u64 * 60,
            sends: Vec::new(),
        }
    }

    /// Whether a message may be sent at `now`.
    pub fn allowed_at(&self, now: i64) -> (r: bool)
        ensures
            r == allows(self@, now),
    {
        let mut today: usize = 0;
        let mut cool = true;
        let mut i: usize = 0;
        assert(self.sends@.take(0) =~= Seq::empty());
        while i < self.sends.len()
            invariant
                i <= self.sends.len(),
                today <= i,
                today == sent_today(self.sends@.take(i as int), now),
                cool == forall|k: int|
                    0 <= k < i ==> now - #[trigger] self.sends@[k] >= self.cooldown_seconds,
            decreases self.sends.len() - i,
        {
            assert(self.sends@.take(i + 1).drop_last() =~= self.sends@.take(i as int));
            let ago: i128 = now as i128 - self.sends[i] as i128;
            if ago < DAY_SECONDS as i128 {
                today = today + 1;
            }
            if ago < self.cooldown_seconds as i128 {
                assert(!(now - self.sends@[i as int] >= self.cooldown_seconds));
                cool = false;
            }
            i = i + 1;
        }
        assert(self.sends@.take(self.sends@.len() as int) =~= self.sends@);
        cool && (today as u64) < self.max_per_day as u64
    }

    /// Counts a message that was sent at `now`.
    pub fn record_at(&mut self, now: i64)
        ensures
            final(self)@ == counted(old(self)@, now),
    {
        self.sends.push(now);
    }

    /// Counts a message that is sent now.
    pub fn record(&mut self)
        ensures
            exists|now: i64| final(self)@ == #[trigger] counted(old(self)@, now),
    {
        let now: i64 = Timestamp::now().seconds();
        self.record_at(now);
    }

    /// How many messages were counted.
    pub fn send_count(&self) -> (r: usize)
        ensures
            r == self@.sends.len(),
    {
        self.sends.len()
    }
}

/// The message that waits for the limiter, if there is one.
#[derive(Debug)]
pub struct ProactiveOutbox {
    pub held: Option<String>,
}

impl View for ProactiveOutbox {
    type V = Option<Seq<char>>;

    open spec fn view(&self) -> Option<Seq<char>> {
        text::opt_view(self.held)
    }
}

impl Clone for ProactiveOutbox {
    fn clone(&self) -> (r: ProactiveOutbox)
        ensures
            r@ == self@,
    {
        ProactiveOutbox { held: self.held.clone() }
    }
}

impl ProactiveOutbox {
    /// An outbox without a message.
    pub fn new() -> (r: ProactiveOutbox)
        ensures
            r@ is None,
    {
        ProactiveOutbox { held: None }
    }

    /// Whether no message waits.
    pub fn is_empty(&self) -> (r: bool)
        ensures
            r == (self@ is None),
    {
        self.held.is_none()
    }

    /// Holds a message for later. The newest message replaces an older one.
    pub fn defer(&mut self, message: &str)
        ensures
            final(self)@ == Some(message@),
    {
        self.held = Some(message.to_owned());
    }

    /// Hands out the message that waits, once the limiter allows it.
    pub fn take_ready(&mut self, limiter: &ProactiveRateLimiter, now: i64) -> (r: Option<String>)
        ensures
            if allows(limiter@, now) {
                text::opt_view(r) == old(self)@ && final(self)@ is None
            } else {
                r is None && final(self)@ == old(self)@
            },
    {
        if limiter.allowed_at(now) {
            self.held.take()
        } else {
            None
        }
    }
}

/// A todo that wants attention.
#[derive(Debug)]
pub struct ActiveReminder {
    pub title: String,
    pub priority: String,
    pub due: Option<String>,
}

/// What an [`ActiveReminder`] holds.
pub struct ActiveReminderView {
    pub title: Seq<char>,
    pub priority: Seq<char>,
    pub due: Option<Seq<char>>,
}

impl View for ActiveReminder {
    type V = ActiveReminderView;

    open spec fn view(&self) -> ActiveReminderView {
        ActiveReminderView {
            title: self.title@,
            priority: self.priority@,
            due: text::opt_view(self.due),
        }
    }
}

/// One reminder on a line: its priority, its title, and when it is due.
pub open spec fn reminder_line(reminder: ActiveReminderView) -> Seq<char> {
    "- ["@ + reminder.priority + "] "@ + reminder.title + match reminder.due {
        Some(due) => " (due "@ + due + ")"@,
        None => Seq::empty(),
    }
}

/// At most `limit` reminders, one on each line.
pub open spec fn reminder_lines(reminders: Seq<ActiveReminderView>, limit: nat) -> Seq<char> {
    let shown = if reminders.len() <= limit {
        reminders.len()
    } else {
        limit
    };
    text::join(Seq::new(shown, |i: int| reminder_line(reminders[i])), "\n"@)
}

/// At most `limit` reminders, one on each line.
pub fn format_active_reminders(reminders: &Vec<ActiveReminder>, limit: usize) -> (r: String)
    ensures
        r@ == reminder_lines(text::views(reminders@), limit as nat),
{
    let mut lines: Vec<String> = Vec::new();
    let mut i: usize = 0;
    while i < reminders.len() && i < limit
        invariant
            i <= reminders.len(),
            i <= limit,
            lines.len() == i,
            forall|k: int|
                0 <= k < i ==> (#[trigger] lines@[k])@ == reminder_line(
                    text::views(reminders@)[k],
                ),
        decreases reminders.len() - i,
    {
        let reminder = &reminders[i];
        let mut line = "- [".to_owned();
        line.append(reminder.priority.as_str());
        line.append("] ");
        line.append(reminder.title.as_str());
        match &reminder.due {
            Some(due) => {
                line.append(" (due ");
                line.append(due.as_str());
                line.append(")");
            },
            None => {},
        }
        assert(line@ =~= reminder_line(reminder@));
        lines.push(line);
        i = i + 1;
    }
    let ghost all = text::views(reminders@);
    assert(text::views(lines@) =~= Seq::new(i as nat, |k: int| reminder_line(all[k])));
    join_texts(&lines, "\n")
}

} // verus!
