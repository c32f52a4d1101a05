//! The command dispatcher: it reads batches of inbound messages, turns
//! subscription commands into events for the notifier, writes interval
//! directives straight into the scheduling config, and moves its cursor past
//! every update of a batch.
use vstd::prelude::*;
use chrono::Timelike;
use crate::command::{command_of, parse_command, Command, SECONDS_PER_HOUR, MAX_INTERVAL_HOURS};
use crate::config::SchedulingConfig;
use crate::event::ChanEvent;

verus! {

/// A message with text, from a chat.
pub struct InboundMessage {
    pub chat_id: i64,
    pub text: String,
}

/// One update of the chat platform; `message` is `None` for updates that
/// carry no text message.
pub struct Update {
    pub update_id: u32,
    pub message: Option<InboundMessage>,
}

/// The seconds to wait after a failed retrieval of updates.
pub const FETCH_ERROR_BACKOFF_SECS: u64 = 300;

/// The seconds to wait between retrievals outside the quiet hours.
pub const BUSY_SLEEP_SECS: u64 = 3;

/// The last hour of the quiet window that starts at midnight.
pub const QUIET_UNTIL_HOUR: u32 = 6;

/// The event that update `u` gives the notifier, if any.
pub open spec fn event_for(u: Update) -> Option<ChanEvent> {
    match u.message {
        Some(m) => match command_of(m.text@) {
            Some(Command::Subscribe) => Some(ChanEvent::SubscriberAdded { chat_id: m.chat_id }),
            Some(Command::Unsubscribe) => Some(ChanEvent::SubscriberRemoved { chat_id: m.chat_id }),
            _ => None,
        },
        None => None,
    }
}

/// The events of a batch, in order.
pub open spec fn events_of(us: Seq<Update>) -> Seq<ChanEvent>
    decreases us.len(),
{
    if us.len() == 0 {
        Seq::empty()
    } else {
        match event_for(us.last()) {
            Some(e) => events_of(us.drop_last()).push(e),
            None => events_of(us.drop_last()),
        }
    }
}

/// The poll interval after a batch: the last interval directive of the batch
/// sets it, in seconds.
pub open spec fn interval_after(secs: u64, us: Seq<Update>) -> u64
    decreases us.len(),
{
    if us.len() == 0 {
        secs
    } else {
        match us.last().message {
            Some(m) => match command_of(m.text@) {
                Some(Command::SetUpdateInterval { hours }) => (hours * SECONDS_PER_HOUR) as u64,
                _ => interval_after(secs, us.drop_last()),
            },
            None => interval_after(secs, us.drop_last()),
        }
    }
}

/// The cursor after a batch: past the last update of a batch that is not empty.
pub open spec fn offset_after(offset: Option<i64>, us: Seq<Update>) -> Option<i64> {
    if us.len() == 0 {
        offset
    } else {
        Some((us.last().update_id + 1) as i64)
    }
}

/// The seconds to wait before the next retrieval at local hour `hour`: until
/// six o'clock (at least an hour) from midnight to six, a few seconds otherwise.
pub open spec fn idle_sleep(hour: u32) -> u64 {
    if hour < QUIET_UNTIL_HOUR {
        ((QUIET_UNTIL_HOUR - hour) * SECONDS_PER_HOUR) as u64
    } else if hour == QUIET_UNTIL_HOUR {
        SECONDS_PER_HOUR
    } else {
        BUSY_SLEEP_SECS
    }
}

pub struct Dispatcher {
    offset: Option<i64>,
}

impl View for Dispatcher {
    type V = Option<i64>;

    closed spec fn view(&self) -> Option<i64> {
        self.offset
    }
}

impl Dispatcher {
    /// A dispatcher that has seen no update yet.
    pub fn new() -> (r: Dispatcher)
        ensures
            r@ is None,
    {
        Dispatcher { offset: None }
    }

    /// The offset from which to ask for the next batch.
    pub fn offset(&self) -> (r: Option<i64>)
        ensures
            r == self@,
    {
        self.offset
    }

    /// Handles a batch of updates: returns the subscription events in order,
    /// applies the interval directives to `config`, and moves the cursor past
    /// the batch.
    pub fn handle_updates(&mut self, updates: &Vec<Update>, config: &mut SchedulingConfig) -> (r:
        Vec<ChanEvent>)
        ensures
            r@ == events_of(updates@),
            final(config)@ == interval_after(old(config)@, updates@),
            final(self)@ == offset_after(old(self)@, updates@),
    {
        let mut r: Vec<ChanEvent> = Vec::new();
        let mut i: usize = 0;
        while i < updates.len()
            invariant
                i <= updates@.len(),
                r@ == events_of(updates@.take(i as int)),
                config@ == interval_after(old(config)@, updates@.take(i as int)),
                self@ == offset_after(old(self)@, updates@.take(i as int)),
            decreases updates@.len() - i,
        {
            assert(updates@.take(i + 1).drop_last() =~= updates@.take(i as int));
            let u = &updates[i];
            self.offset = Some(u.update_id as i64 + 1);
            match &u.message {
                Some(m) => match parse_command(m.text.as_str()) {
                    Some(Command::Subscribe) => {
                        r.push(ChanEvent::SubscriberAdded { chat_id: m.chat_id });
                    },
                    Some(Command::Unsubscribe) => {
                        r.push(ChanEvent::SubscriberRemoved { chat_id: m.chat_id });
                    },
                    Some(Command::SetUpdateInterval { hours }) => {
                        config.set(hours * SECONDS_PER_HOUR);
                    },
                    None => {},
                },
                None => {},
            }
            i = i + 1;
        }
        assert(updates@.take(updates@.len() as int) =~= updates@);
        r
    }
}

/// The seconds to wait before the next retrieval at local hour `hour`.
pub fn idle_sleep_secs(hour: u32) -> (r: u64)
    ensures
        r == idle_sleep(hour),
{
    if hour < QUIET_UNTIL_HOUR {
        (QUIET_UNTIL_HOUR - hour) as u64 * SECONDS_PER_HOUR
    } else if hour == QUIET_UNTIL_HOUR {
        SECONDS_PER_HOUR
    } else {
        BUSY_SLEEP_SECS
    }
}

/// Relies on chrono's `Local::now` and `Timelike::hour`: the hour of the local
/// time now, which `hour` documents as a number from 0 to 23.
#[verifier::external_body]
fn local_hour() -> (r: u32)
    ensures
        r < 24,
{
    chrono::Local::now().hour()
}

/// The seconds to wait before the next retrieval, at the local time now.
pub fn current_idle_sleep_secs() -> (r: u64)
    ensures
        exists|h: u32| h < 24 && r == idle_sleep(h),
{
    let h = local_hour();
    idle_sleep_secs(h)
}

} // verus!
