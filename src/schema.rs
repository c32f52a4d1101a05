//! The stored chat subscriptions: their kinds, their rows, and the names of
//! their tables and columns.
use vstd::prelude::*;
use crate::text::same_text;

verus! {

#[derive(PartialEq, Eq, Structural, Clone, Copy, Debug)]
pub enum EventType {
    UsdSubscription,
    LevadaSubscription,
    StandupSubscription,
}

/// The name under which a kind of subscription is stored.
pub open spec fn event_type_name(t: EventType) -> Seq<char> {
    match t {
        EventType::UsdSubscription => "usd_subscription"@,
        EventType::LevadaSubscription => "levada_subscription"@,
        EventType::StandupSubscription => "standup_subscription"@,
    }
}

/// The kind of subscription a name stands for; a name that stands for none
/// is read as the dollar-rate subscription.
pub open spec fn event_type_of(s: Seq<char>) -> EventType {
    if s == "levada_subscription"@ {
        EventType::LevadaSubscription
    } else if s == "standup_subscription"@ {
        EventType::StandupSubscription
    } else {
        EventType::UsdSubscription
    }
}

impl EventType {
    /// The name under which this kind of subscription is stored.
    pub fn as_str(&self) -> (r: &'static str)
        ensures
            r@ == event_type_name(*self),
    {
        match self {
            EventType::UsdSubscription => "usd_subscription",
            EventType::LevadaSubscription => "levada_subscription",
            EventType::StandupSubscription => "standup_subscription",
        }
    }

    /// The kind of subscription that `name` stands for.
    pub fn from_name(name: &str) -> (r: EventType)
        ensures
            r == event_type_of(name@),
    {
        if same_text(name, "levada_subscription") {
            EventType::LevadaSubscription
        } else if same_text(name, "standup_subscription") {
            EventType::StandupSubscription
        } else {
            EventType::UsdSubscription
        }
    }
}

/// A stored subscription of a chat.
pub struct Event {
    pub id: i64,
    pub chat_id: i64,
    pub typ: EventType,
    pub user: Option<String>,
    pub meta: Option<String>,
}

/// The table of subscriptions and its columns.
#[derive(PartialEq, Eq, Structural, Clone, Copy, Debug)]
pub enum EventIden {
    Table,
    ID,
    ChatID,
    Type,
    User,
    Meta,
}

impl EventIden {
    pub fn name(&self) -> (r: &'static str)
        ensures
            r@ == match *self {
                EventIden::Table => "event"@,
                EventIden::ID => "id"@,
                EventIden::ChatID => "chat_id"@,
                EventIden::Type => "type"@,
                EventIden::User => "user"@,
                EventIden::Meta => "meta"@,
            },
    {
        match self {
            EventIden::Table => "event",
            EventIden::ID => "id",
            EventIden::ChatID => "chat_id",
            EventIden::Type => "type",
            EventIden::User => "user",
            EventIden::Meta => "meta",
        }
    }
}

/// A chat subscribed to the dollar rate.
pub struct UsdSub {
    pub chat_id: i64,
    pub meta: Option<String>,
}

/// The table of dollar-rate subscriptions and its columns.
#[derive(PartialEq, Eq, Structural, Clone, Copy, Debug)]
pub enum UsdSubIden {
    Table,
    ChatId,
    Meta,
}

impl UsdSubIden {
    pub fn name(&self) -> (r: &'static str)
        ensures
            r@ == match *self {
                UsdSubIden::Table => "usd_sub"@,
                UsdSubIden::ChatId => "chat_id"@,
                UsdSubIden::Meta => "meta"@,
            },
    {
        match self {
            UsdSubIden::Table => "usd_sub",
            UsdSubIden::ChatId => "chat_id",
            UsdSubIden::Meta => "meta",
        }
    }
}

} // verus!
