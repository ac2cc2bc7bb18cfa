//! The subscriber index: who subscribes, to what, and how a subscriber is
//! reached.

use std::sync::Arc;
use tokio::sync::mpsc::UnboundedSender;
use uhlc::Timestamp;
use vstd::prelude::*;
use vstd::std_specs::cmp::PartialEqSpecImpl;
use crate::ast::Expr;
use crate::ordered::{key_index, lemma_key_index_is, lemma_key_index_none, put};
use crate::values::AggregateChange;

verus! {

/// `uhlc::Timestamp`, carried as it is.
#[verifier::external_type_specification]
#[verifier::external_body]
pub struct ExTimestamp(Timestamp);

/// `tokio::sync::mpsc::UnboundedSender`, carried as it is.
#[verifier::external_type_specification]
#[verifier::external_body]
#[verifier::reject_recursive_types(T)]
pub struct ExUnboundedSender<T>(UnboundedSender<T>);

/// Who subscribes: a client at a socket address, given as text, or every
/// node.
#[derive(Clone, Debug, PartialEq, Eq, PartialOrd, Ord, Hash)]
pub enum SubscriberId {
    Local { addr: String },
    Global,
}

/// How a subscriber is named: its address, or `global`.
pub open spec fn subscriber_text(id: SubscriberId) -> Seq<char> {
    match id {
        SubscriberId::Local { addr } => addr@,
        SubscriberId::Global => "global"@,
    }
}

impl SubscriberId {
    /// How the subscriber is named: its address, or `global`.
    pub fn describe(&self) -> (s: String)
        ensures
            s@ == subscriber_text(*self),
    {
        match self {
            SubscriberId::Local { addr } => addr.clone(),
            SubscriberId::Global => "global".to_owned(),
        }
    }
}

/// The name that a subscriber gave to one of its subscriptions.
#[derive(Clone, Debug, PartialEq, Eq, PartialOrd, Ord, Hash)]
pub struct SubscriptionId(pub String);

impl SubscriptionId {
    /// The name as text.
    pub fn as_str(&self) -> (s: &str)
        ensures
            s@ == self.0@,
    {
        self.0.as_str()
    }
}

/// A predicate over changes, parsed.
#[derive(Debug)]
pub struct SupportedExpr(pub Expr);

/// The filter of a subscription: the predicate as it was written and as it
/// was parsed. Two filters are equal where they were written alike.
#[derive(Clone, Debug)]
pub struct SubscriptionFilter(Arc<String>, Arc<SupportedExpr>);

impl SubscriptionFilter {
    /// The predicate as it was written.
    pub closed spec fn input_text(&self) -> Seq<char> {
        (*self.0)@
    }

    /// The predicate as it was parsed.
    pub closed spec fn parsed(&self) -> SupportedExpr {
        *self.1
    }

    /// A filter from the predicate as written and as parsed.
    pub fn new(input: String, expr: SupportedExpr) -> (f: Self)
        ensures
            f.input_text() == input@,
            f.parsed() == expr,
    {
        SubscriptionFilter(Arc::new(input), Arc::new(expr))
    }

    /// The predicate as it was written.
    pub fn input(&self) -> (s: &str)
        ensures
            s@ == self.input_text(),
    {
        self.0.as_str()
    }

    /// The predicate as it was parsed.
    pub fn expr(&self) -> (e: &SupportedExpr)
        ensures
            *e == self.parsed(),
    {
        &self.1
    }
}

impl PartialEq for SubscriptionFilter {
    fn eq(&self, other: &Self) -> (r: bool) {
        *self.0 == *other.0
    }
}

impl PartialEqSpecImpl for SubscriptionFilter {
    open spec fn obeys_eq_spec() -> bool {
        true
    }

    open spec fn eq_spec(&self, other: &Self) -> bool {
        self.input_text() == other.input_text()
    }
}

/// One subscription: its filter, if it has one, and when it last changed.
#[derive(Debug)]
pub struct SubscriptionInfo {
    pub filter: Option<SubscriptionFilter>,
    pub updated_at: Timestamp,
}

/// A subscription with its name.
#[derive(Debug)]
pub struct SubscriptionEntry {
    pub id: SubscriptionId,
    pub info: SubscriptionInfo,
}

/// The subscriptions of one subscriber, by name.
#[derive(Debug)]
pub struct SubscriptionMap {
    list: Vec<SubscriptionEntry>,
}

/// Names with their subscriptions.
pub type SubscriptionPairs = Seq<(Seq<char>, SubscriptionInfo)>;

impl View for SubscriptionMap {
    type V = SubscriptionPairs;

    closed spec fn view(&self) -> SubscriptionPairs {
        Seq::new(self.list@.len(), |i: int| (self.list@[i].id.0@, self.list@[i].info))
    }
}

/// `s` without the subscription called `id`, and that subscription.
pub open spec fn taken(s: SubscriptionPairs, id: Seq<char>) -> (SubscriptionPairs, Option<SubscriptionInfo>) {
    match key_index(s, id) {
        Some(i) => (s.remove(i), Some(s[i].1)),
        None => (s, None),
    }
}

impl SubscriptionMap {
    /// No subscriptions.
    pub fn new() -> (m: Self)
        ensures
            m@ == Seq::<(Seq<char>, SubscriptionInfo)>::empty(),
    {
        let m = SubscriptionMap { list: Vec::new() };
        assert(m@ =~= Seq::<(Seq<char>, SubscriptionInfo)>::empty());
        m
    }

    /// The number of subscriptions.
    pub fn len(&self) -> (n: usize)
        ensures
            n == self@.len(),
    {
        self.list.len()
    }

    /// The position of the subscription called `id`.
    fn position(&self, id: &SubscriptionId) -> (r: Option<usize>)
        ensures
            match r {
                Some(i) => key_index(self@, id.0@) == Some(i as int) && i < self@.len(),
                None => key_index(self@, id.0@) is None,
            },
    {
        let mut i: usize = 0;
        while i < self.list.len()
            invariant
                i <= self.list.len(),
                forall|j: int| 0 <= j < i ==> self@[j].0 != id.0@,
            decreases self.list.len() - i,
        {
            if self.list[i].id.0 == id.0 {
                proof {
                    lemma_key_index_is(self@, id.0@, i as int);
                }
                return Some(i);
            }
            i = i + 1;
        }
        proof {
            lemma_key_index_none(self@, id.0@);
        }
        None
    }

    /// The subscription called `id`, if there is one.
    pub fn get(&self, id: &SubscriptionId) -> (r: Option<&SubscriptionInfo>)
        ensures
            match r {
                Some(info) => key_index(self@, id.0@) matches Some(i) && *info == self@[i].1,
                None => key_index(self@, id.0@) is None,
            },
    {
        match self.position(id) {
            Some(i) => Some(&self.list[i].info),
            None => None,
        }
    }

    /// Files `info` under `id`, in place of a subscription of that name.
    pub fn insert(&mut self, id: SubscriptionId, info: SubscriptionInfo)
        ensures
            final(self)@ == put(old(self)@, id.0@, info),
    {
        match self.position(&id) {
            Some(i) => {
                self.list[i] = SubscriptionEntry { id, info };
                assert(self@ =~= put(old(self)@, id.0@, info));
            },
            None => {
                self.list.push(SubscriptionEntry { id, info });
                assert(self@ =~= put(old(self)@, id.0@, info));
            },
        }
    }

    /// Takes out the subscription called `id` and hands it back.
    pub fn remove(&mut self, id: &SubscriptionId) -> (r: Option<SubscriptionInfo>)
        ensures
            (final(self)@, r) == taken(old(self)@, id.0@),
    {
        match self.position(id) {
            Some(i) => {
                let entry = self.list.remove(i);
                assert(self@ =~= old(self)@.remove(i as int));
                Some(entry.info)
            },
            None => None,
        }
    }
}

/// What a subscriber is sent.
#[derive(Clone, Debug)]
pub enum SubscriptionEvent {
    Change(AggregateChange),
    Error { error: String },
}

/// A message to a subscriber.
#[derive(Clone, Debug)]
pub enum SubscriptionMessage {
    Event { id: SubscriptionId, event: SubscriptionEvent },
}

/// What a subscriber asks for.
#[derive(Debug)]
pub enum Subscription {
    Add { id: SubscriptionId, where_clause: Option<String>, from_db_version: Option<i64> },
    Remove { id: SubscriptionId },
}

/// A subscriber with its subscriptions. A local subscriber has a channel on
/// which it is sent messages.
#[derive(Debug)]
pub enum Subscriber {
    Local { subscriptions: SubscriptionMap, sender: UnboundedSender<SubscriptionMessage> },
    Global { subscriptions: SubscriptionMap },
}

impl Subscriber {
    /// The subscriptions of the subscriber.
    pub open spec fn subscriptions(&self) -> SubscriptionPairs {
        match self {
            Subscriber::Local { subscriptions, .. } => subscriptions@,
            Subscriber::Global { subscriptions } => subscriptions@,
        }
    }

    /// Files `info` under `id`, in place of a subscription of that name.
    pub fn insert(&mut self, id: SubscriptionId, info: SubscriptionInfo)
        ensures
            final(self).subscriptions() == put(old(self).subscriptions(), id.0@, info),
            *final(self) is Local <==> *old(self) is Local,
            *old(self) matches Subscriber::Local { sender, .. } ==> (*final(self))->Local_sender
                == sender,
    {
        match self {
            Subscriber::Local { subscriptions, .. } => subscriptions.insert(id, info),
            Subscriber::Global { subscriptions } => subscriptions.insert(id, info),
        }
    }

    /// Takes out the subscription called `id` and hands it back.
    pub fn remove(&mut self, id: &SubscriptionId) -> (r: Option<SubscriptionInfo>)
        ensures
            (final(self).subscriptions(), r) == taken(old(self).subscriptions(), id.0@),
            *final(self) is Local <==> *old(self) is Local,
            *old(self) matches Subscriber::Local { sender, .. } ==> (*final(self))->Local_sender
                == sender,
    {
        match self {
            Subscriber::Local { subscriptions, .. } => subscriptions.remove(id),
            Subscriber::Global { subscriptions } => subscriptions.remove(id),
        }
    }

    /// The subscriptions and the channel of a local subscriber.
    pub fn as_local(&self) -> (r: Option<(&SubscriptionMap, &UnboundedSender<SubscriptionMessage>)>)
        ensures
            r is Some <==> self is Local,
            r matches Some(pair) ==> *pair.0 == self->Local_subscriptions && *pair.1
                == self->Local_sender,
    {
        match self {
            Subscriber::Local { subscriptions, sender } => Some((subscriptions, sender)),
            Subscriber::Global { .. } => None,
        }
    }
}

} // verus!
