//! The fan-out notifier: the one owner of the subscriber set.
//!
//! Each event yields the deliveries to attempt; the outcome of each delivery
//! is handed back, and a permanent rejection removes the subscriber.
use vstd::prelude::*;
use crate::event::ChanEvent;
use crate::price::{notification_text, Price, Snapshot};

verus! {

#[derive(PartialEq, Eq, Structural, Clone, Copy, Debug)]
pub enum DeliveryOutcome {
    Delivered,
    /// The recipient refuses all messages (it has blocked the sender).
    PermanentRejection,
    Failed,
}

/// The error code with which the chat platform refuses a recipient that has
/// blocked the sender.
pub const FORBIDDEN_ERROR_CODE: u64 = 403;

/// The outcome of a delivery that the chat platform refused with `code`.
pub fn classify_api_error(code: u64) -> (r: DeliveryOutcome)
    ensures
        r == (if code == FORBIDDEN_ERROR_CODE {
            DeliveryOutcome::PermanentRejection
        } else {
            DeliveryOutcome::Failed
        }),
{
    if code == FORBIDDEN_ERROR_CODE {
        DeliveryOutcome::PermanentRejection
    } else {
        DeliveryOutcome::Failed
    }
}

/// A message to send to one chat.
#[derive(Debug)]
pub struct Delivery {
    pub chat_id: i64,
    pub text: String,
}

/// What the notifier holds: its subscribers in order of arrival, and the
/// latest quote.
pub struct NotifierModel {
    pub subscribers: Seq<i64>,
    pub price: Price,
    pub description: Seq<char>,
}

/// `s` without the element `c`.
pub open spec fn without(s: Seq<i64>, c: i64) -> Seq<i64>
    decreases s.len(),
{
    if s.len() == 0 {
        s
    } else if s.last() == c {
        without(s.drop_last(), c)
    } else {
        without(s.drop_last(), c).push(s.last())
    }
}

/// `s` with `c` appended, unless `s` holds it already.
pub open spec fn with_member(s: Seq<i64>, c: i64) -> Seq<i64> {
    if s.contains(c) {
        s
    } else {
        s.push(c)
    }
}

/// The members of `cs` in order of first occurrence, after those of `s`.
pub open spec fn with_members(s: Seq<i64>, cs: Seq<i64>) -> Seq<i64>
    decreases cs.len(),
{
    if cs.len() == 0 {
        s
    } else {
        with_member(with_members(s, cs.drop_last()), cs.last())
    }
}

/// The state after the notifier applies event `e`.
pub open spec fn after_event(m: NotifierModel, e: ChanEvent) -> NotifierModel {
    match e {
        ChanEvent::PriceChanged { price, description } => NotifierModel {
            price,
            description: description@,
            ..m
        },
        ChanEvent::SubscriberAdded { chat_id } => NotifierModel {
            subscribers: with_member(m.subscribers, chat_id),
            ..m
        },
        ChanEvent::SubscriberRemoved { chat_id } => NotifierModel {
            subscribers: without(m.subscribers, chat_id),
            ..m
        },
    }
}

/// The chats to which event `e` is delivered: every subscriber for a new
/// quote, the newcomer alone for a subscription, nobody for a removal.
pub open spec fn targets(m: NotifierModel, e: ChanEvent) -> Seq<i64> {
    match e {
        ChanEvent::PriceChanged { .. } => m.subscribers,
        ChanEvent::SubscriberAdded { chat_id } => if m.subscribers.contains(chat_id) {
            Seq::empty()
        } else {
            seq![chat_id]
        },
        ChanEvent::SubscriberRemoved { .. } => Seq::empty(),
    }
}

/// The state after a delivery to `chat_id` ended with `outcome`.
pub open spec fn after_outcome(
    m: NotifierModel,
    chat_id: i64,
    outcome: DeliveryOutcome,
) -> NotifierModel {
    if outcome == DeliveryOutcome::PermanentRejection {
        NotifierModel { subscribers: without(m.subscribers, chat_id), ..m }
    } else {
        m
    }
}

pub struct Notifier {
    subscribers: Vec<i64>,
    latest: Snapshot,
}

impl View for Notifier {
    type V = NotifierModel;

    closed spec fn view(&self) -> NotifierModel {
        NotifierModel {
            subscribers: self.subscribers@,
            price: self.latest.price,
            description: self.latest.description@,
        }
    }
}

proof fn lemma_push_contains(q: Seq<i64>, y: i64, x: i64)
    ensures
        q.push(y).contains(x) <==> (q.contains(x) || x == y),
{
    if q.push(y).contains(x) && x != y {
        let i = choose|i: int| 0 <= i < q.push(y).len() && q.push(y)[i] == x;
        assert(q[i] == x);
    }
    if q.contains(x) {
        let i = choose|i: int| 0 <= i < q.len() && q[i] == x;
        assert(q.push(y)[i] == x);
    }
    assert(q.push(y)[q.len() as int] == y);
}

pub proof fn lemma_without_contains(s: Seq<i64>, c: i64, x: i64)
    ensures
        without(s, c).contains(x) <==> (s.contains(x) && x != c),
    decreases s.len(),
{
    if s.len() > 0 {
        let p = s.drop_last();
        lemma_without_contains(p, c, x);
        assert(s =~= p.push(s.last()));
        lemma_push_contains(p, s.last(), x);
        lemma_push_contains(without(p, c), s.last(), x);
    }
}

pub proof fn lemma_without_no_duplicates(s: Seq<i64>, c: i64)
    requires
        s.no_duplicates(),
    ensures
        without(s, c).no_duplicates(),
    decreases s.len(),
{
    if s.len() > 0 {
        assert(s.drop_last().no_duplicates());
        lemma_without_no_duplicates(s.drop_last(), c);
        lemma_without_contains(s.drop_last(), c, s.last());
        if s.drop_last().contains(s.last()) {
            let i = choose|i: int| 0 <= i < s.drop_last().len() && s.drop_last()[i] == s.last();
            assert(s[i] == s[s.len() - 1]);
        }
    }
}

proof fn lemma_with_member_no_duplicates(s: Seq<i64>, c: i64)
    requires
        s.no_duplicates(),
    ensures
        with_member(s, c).no_duplicates(),
        with_member(s, c).contains(c),
{
    if !s.contains(c) {
        assert(s.push(c)[s.len() as int] == c);
    }
}

/// Whether `v` holds `c`.
fn holds(v: &Vec<i64>, c: i64) -> (r: bool)
    ensures
        r == v@.contains(c),
{
    let mut i: usize = 0;
    while i < v.len()
        invariant
            i <= v@.len(),
            forall|j: int| 0 <= j < i ==> v@[j] != c,
        decreases v@.len() - i,
    {
        if v[i] == c {
            return true;
        }
        i = i + 1;
    }
    false
}

/// A copy of `v` without `c`.
fn copy_without(v: &Vec<i64>, c: i64) -> (r: Vec<i64>)
    ensures
        r@ == without(v@, c),
{
    let mut r: Vec<i64> = Vec::new();
    let mut i: usize = 0;
    while i < v.len()
        invariant
            i <= v@.len(),
            r@ == without(v@.take(i as int), c),
        decreases v@.len() - i,
    {
        assert(v@.take(i + 1).drop_last() =~= v@.take(i as int));
        if v[i] != c {
            r.push(v[i]);
        }
        i = i + 1;
    }
    assert(v@.take(v@.len() as int) =~= v@);
    r
}

impl Notifier {
    /// The subscriber set holds each chat at most once.
    pub open spec fn wf(&self) -> bool {
        self@.subscribers.no_duplicates()
    }

    /// A notifier whose subscribers are `default_chats`, each once, and whose
    /// latest quote is the initial one (price zero, empty description).
    pub fn new(default_chats: &Vec<i64>) -> (r: Notifier)
        ensures
            r.wf(),
            r@.subscribers == with_members(Seq::empty(), default_chats@),
            r@.price == (Price { scaled: 0 }),
            r@.description == Seq::<char>::empty(),
    {
        let mut r = Notifier { subscribers: Vec::new(), latest: Snapshot::initial() };
        let mut i: usize = 0;
        while i < default_chats.len()
            invariant
                i <= default_chats@.len(),
                r.wf(),
                r@.subscribers == with_members(Seq::empty(), default_chats@.take(i as int)),
                r@.price == (Price { scaled: 0 }),
                r@.description == Seq::<char>::empty(),
            decreases default_chats@.len() - i,
        {
            assert(default_chats@.take(i + 1).drop_last() =~= default_chats@.take(i as int));
            let c = default_chats[i];
            proof {
                lemma_with_member_no_duplicates(r.subscribers@, c);
            }
            if !holds(&r.subscribers, c) {
                r.subscribers.push(c);
            }
            i = i + 1;
        }
        assert(default_chats@.take(default_chats@.len() as int) =~= default_chats@);
        r
    }

    /// Applies `event` and returns the deliveries to attempt, in order. Each
    /// carries the notification of the latest quote after the event.
    pub fn handle_event(&mut self, event: ChanEvent) -> (r: Vec<Delivery>)
        requires
            old(self).wf(),
        ensures
            final(self).wf(),
            final(self)@ == after_event(old(self)@, event),
            r@.len() == targets(old(self)@, event).len(),
            forall|i: int|
                0 <= i < r@.len() ==> (#[trigger] r@[i]).chat_id == targets(old(self)@, event)[i]
                    && r@[i].text@ == notification_text(final(self)@.price, final(self)@.description),
    {
        let mut r: Vec<Delivery> = Vec::new();
        match event {
            ChanEvent::PriceChanged { price, description } => {
                self.latest = Snapshot { price, description };
                let text = self.latest.notification();
                let mut i: usize = 0;
                while i < self.subscribers.len()
                    invariant
                        i <= self.subscribers@.len(),
                        r@.len() == i,
                        text@ == notification_text(self@.price, self@.description),
                        forall|j: int|
                            0 <= j < i ==> (#[trigger] r@[j]).chat_id == self.subscribers@[j]
                                && r@[j].text@ == text@,
                    decreases self.subscribers@.len() - i,
                {
                    r.push(Delivery { chat_id: self.subscribers[i], text: text.clone() });
                    i = i + 1;
                }
            },
            ChanEvent::SubscriberAdded { chat_id } => {
                if !holds(&self.subscribers, chat_id) {
                    proof {
                        lemma_with_member_no_duplicates(self.subscribers@, chat_id);
                    }
                    self.subscribers.push(chat_id);
                    r.push(Delivery { chat_id, text: self.latest.notification() });
                }
            },
            ChanEvent::SubscriberRemoved { chat_id } => {
                proof {
                    lemma_without_no_duplicates(self.subscribers@, chat_id);
                }
                self.subscribers = copy_without(&self.subscribers, chat_id);
            },
        }
        r
    }

    /// Records how a delivery to `chat_id` ended: a permanent rejection
    /// removes the chat from the subscribers, any other outcome changes nothing.
    pub fn record_outcome(&mut self, chat_id: i64, outcome: DeliveryOutcome)
        requires
            old(self).wf(),
        ensures
            final(self).wf(),
            final(self)@ == after_outcome(old(self)@, chat_id, outcome),
    {
        if outcome == DeliveryOutcome::PermanentRejection {
            proof {
                lemma_without_no_duplicates(self.subscribers@, chat_id);
            }
            self.subscribers = copy_without(&self.subscribers, chat_id);
        }
    }

    /// The subscribers, in order of arrival.
    pub fn subscribers(&self) -> (r: &Vec<i64>)
        ensures
            r@ == self@.subscribers,
    {
        &self.subscribers
    }

    /// The latest quote.
    pub fn latest(&self) -> (r: &Snapshot)
        ensures
            r.price == self@.price,
            r.description@ == self@.description,
    {
        &self.latest
    }
}

/// One step of the notifier's life: an event, or the outcome of a delivery.
pub enum NotifierInput {
    Event(ChanEvent),
    Outcome(i64, DeliveryOutcome),
}

pub open spec fn after_input(m: NotifierModel, input: NotifierInput) -> NotifierModel {
    match input {
        NotifierInput::Event(e) => after_event(m, e),
        NotifierInput::Outcome(c, o) => after_outcome(m, c, o),
    }
}

/// The chats that a step delivers to: an outcome delivers nothing.
pub open spec fn input_targets(m: NotifierModel, input: NotifierInput) -> Seq<i64> {
    match input {
        NotifierInput::Event(e) => targets(m, e),
        NotifierInput::Outcome(..) => Seq::empty(),
    }
}

/// The state after the steps `inputs`, in order.
pub open spec fn run(m: NotifierModel, inputs: Seq<NotifierInput>) -> NotifierModel
    decreases inputs.len(),
{
    if inputs.len() == 0 {
        m
    } else {
        after_input(run(m, inputs.drop_last()), inputs.last())
    }
}

proof fn lemma_without_absent(s: Seq<i64>, c: i64)
    requires
        !s.contains(c),
    ensures
        without(s, c) == s,
    decreases s.len(),
{
    if s.len() > 0 {
        lemma_push_contains(s.drop_last(), s.last(), c);
        assert(s =~= s.drop_last().push(s.last()));
        lemma_without_absent(s.drop_last(), c);
    }
}

/// Subscribing a chat that is already subscribed changes nothing and delivers
/// nothing, so subscribing twice is the same as subscribing once.
pub proof fn subscribe_is_idempotent(m: NotifierModel, c: i64)
    ensures
        m.subscribers.contains(c) ==> after_event(m, ChanEvent::SubscriberAdded { chat_id: c })
            == m,
        m.subscribers.contains(c) ==> targets(m, ChanEvent::SubscriberAdded { chat_id: c }).len()
            == 0,
        after_event(
            after_event(m, ChanEvent::SubscriberAdded { chat_id: c }),
            ChanEvent::SubscriberAdded { chat_id: c },
        ) == after_event(m, ChanEvent::SubscriberAdded { chat_id: c }),
        targets(
            after_event(m, ChanEvent::SubscriberAdded { chat_id: c }),
            ChanEvent::SubscriberAdded { chat_id: c },
        ).len() == 0,
{
    lemma_push_contains(m.subscribers, c, c);
}

/// Unsubscribing a chat that is not subscribed changes nothing and delivers
/// nothing.
pub proof fn unsubscribe_absent_is_noop(m: NotifierModel, c: i64)
    requires
        !m.subscribers.contains(c),
    ensures
        after_event(m, ChanEvent::SubscriberRemoved { chat_id: c }) == m,
        targets(m, ChanEvent::SubscriberRemoved { chat_id: c }).len() == 0,
{
    lemma_without_absent(m.subscribers, c);
}

/// A chat that subscribes anew becomes a subscriber and gets exactly one
/// delivery, of the latest quote, which the subscription leaves as it was.
pub proof fn new_subscriber_gets_latest(m: NotifierModel, c: i64)
    requires
        !m.subscribers.contains(c),
    ensures
        targets(m, ChanEvent::SubscriberAdded { chat_id: c }) == seq![c],
        after_event(m, ChanEvent::SubscriberAdded { chat_id: c }).subscribers.contains(c),
        after_event(m, ChanEvent::SubscriberAdded { chat_id: c }).price == m.price,
        after_event(m, ChanEvent::SubscriberAdded { chat_id: c }).description == m.description,
{
    lemma_push_contains(m.subscribers, c, c);
}

proof fn lemma_step_keeps_out(m: NotifierModel, c: i64, input: NotifierInput)
    requires
        !m.subscribers.contains(c),
        input != NotifierInput::Event(ChanEvent::SubscriberAdded { chat_id: c }),
    ensures
        !after_input(m, input).subscribers.contains(c),
        !input_targets(m, input).contains(c),
{
    match input {
        NotifierInput::Event(e) => match e {
            ChanEvent::SubscriberAdded { chat_id } => {
                lemma_push_contains(m.subscribers, chat_id, c);
                assert(seq![chat_id] =~= Seq::<i64>::empty().push(chat_id));
                lemma_push_contains(Seq::empty(), chat_id, c);
            },
            ChanEvent::SubscriberRemoved { chat_id } => {
                lemma_without_contains(m.subscribers, chat_id, c);
            },
            _ => {},
        },
        NotifierInput::Outcome(d, o) => {
            lemma_without_contains(m.subscribers, d, c);
        },
    }
}

proof fn lemma_run_keeps_out(m: NotifierModel, c: i64, inputs: Seq<NotifierInput>)
    requires
        !m.subscribers.contains(c),
        forall|i: int|
            0 <= i < inputs.len() ==> inputs[i] != NotifierInput::Event(
                ChanEvent::SubscriberAdded { chat_id: c },
            ),
    ensures
        !run(m, inputs).subscribers.contains(c),
    decreases inputs.len(),
{
    if inputs.len() > 0 {
        lemma_run_keeps_out(m, c, inputs.drop_last());
        lemma_step_keeps_out(run(m, inputs.drop_last()), c, inputs.last());
    }
}

/// After a delivery to `c` is rejected permanently, `c` is no subscriber and
/// gets no delivery, whatever follows, until it subscribes again.
pub proof fn rejected_subscriber_stays_out(m: NotifierModel, c: i64, later: Seq<NotifierInput>)
    requires
        forall|i: int|
            0 <= i < later.len() ==> later[i] != NotifierInput::Event(
                ChanEvent::SubscriberAdded { chat_id: c },
            ),
    ensures
        !run(after_outcome(m, c, DeliveryOutcome::PermanentRejection), later).subscribers.contains(
            c,
        ),
        forall|k: int|
            0 <= k < later.len() ==> !input_targets(
                run(after_outcome(m, c, DeliveryOutcome::PermanentRejection), later.take(k)),
                #[trigger] later[k],
            ).contains(c),
{
    let m1 = after_outcome(m, c, DeliveryOutcome::PermanentRejection);
    lemma_without_contains(m.subscribers, c, c);
    lemma_run_keeps_out(m1, c, later);
    assert forall|k: int| 0 <= k < later.len() implies !input_targets(
        run(m1, later.take(k)),
        #[trigger] later[k],
    ).contains(c) by {
        lemma_run_keeps_out(m1, c, later.take(k));
        lemma_step_keeps_out(run(m1, later.take(k)), c, later[k]);
    }
}

} // verus!
