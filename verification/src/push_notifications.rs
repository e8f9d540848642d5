//! Push notification subscriptions: which subscriptions an event reaches,
//! and how undelivered notifications are retried.

use vstd::prelude::*;

use crate::error::A2aError;
use crate::keyed::{Keyed, Table};
use crate::oauth2::{new_token_id, unix_now};
use crate::string_set::string_views;
use crate::strings::{concat2, owned, str_eq};

verus! {

/// Kinds of event a client can subscribe to.
#[derive(Debug, Clone, PartialEq, Eq)]
pub enum EventType {
    TaskUpdate,
    AgentStatus,
    MetricsUpdate,
    FileTransferProgress,
    ChatMessage,
    SystemAlert,
    Custom(String),
}

/// A notification for one subscription.
#[derive(Debug, Clone)]
pub struct PushNotification {
    pub id: String,
    pub subscription_id: String,
    pub event_type: EventType,
    pub payload: serde_json::Value,
    pub timestamp: i64,
    pub retry_count: u32,
}

/// Narrows a subscription (or an event) to agents and tasks.
#[derive(Debug, Clone, PartialEq, Eq)]
pub struct SubscriptionFilter {
    pub agent_ids: Option<Vec<String>>,
    pub task_ids: Option<Vec<String>>,
    /// Metadata conditions; carried, not evaluated.
    pub metadata_filters: Option<Vec<(String, String)>>,
}

/// A client's subscription.
#[derive(Debug, Clone)]
pub struct Subscription {
    pub id: String,
    pub client_id: String,
    pub event_types: Vec<EventType>,
    pub filter: Option<SubscriptionFilter>,
    pub created_at: i64,
    pub active: bool,
}

/// A request to subscribe.
#[derive(Debug, Clone)]
pub struct SubscriptionRequest {
    pub client_id: String,
    pub event_types: Vec<EventType>,
    pub filter: Option<SubscriptionFilter>,
}

/// The answer to a subscription request.
#[derive(Debug, Clone, PartialEq, Eq)]
pub struct SubscriptionResponse {
    pub subscription_id: String,
    pub status: String,
}

/// Whether two event types are the same kind. Custom events are one kind,
/// whatever their names.
pub open spec fn same_kind(a: EventType, b: EventType) -> bool {
    match (a, b) {
        (EventType::TaskUpdate, EventType::TaskUpdate) => true,
        (EventType::AgentStatus, EventType::AgentStatus) => true,
        (EventType::MetricsUpdate, EventType::MetricsUpdate) => true,
        (EventType::FileTransferProgress, EventType::FileTransferProgress) => true,
        (EventType::ChatMessage, EventType::ChatMessage) => true,
        (EventType::SystemAlert, EventType::SystemAlert) => true,
        (EventType::Custom(_), EventType::Custom(_)) => true,
        _ => false,
    }
}

fn kind_matches(a: &EventType, b: &EventType) -> (r: bool)
    ensures
        r == same_kind(*a, *b),
{
    match (a, b) {
        (EventType::TaskUpdate, EventType::TaskUpdate) => true,
        (EventType::AgentStatus, EventType::AgentStatus) => true,
        (EventType::MetricsUpdate, EventType::MetricsUpdate) => true,
        (EventType::FileTransferProgress, EventType::FileTransferProgress) => true,
        (EventType::ChatMessage, EventType::ChatMessage) => true,
        (EventType::SystemAlert, EventType::SystemAlert) => true,
        (EventType::Custom(_), EventType::Custom(_)) => true,
        _ => false,
    }
}

/// Whether a subscription to `subscription_types` receives `event_type`.
pub fn matches_event_type(subscription_types: &[EventType], event_type: &EventType) -> (r: bool)
    ensures
        r == exists|i: int| 0 <= i < subscription_types@.len() && same_kind(#[trigger] subscription_types@[i], *event_type),
{
    let mut i: usize = 0;
    while i < subscription_types.len()
        invariant
            i <= subscription_types.len(),
            forall|j: int| 0 <= j < i ==> !same_kind(#[trigger] subscription_types@[j], *event_type),
        decreases subscription_types.len() - i,
    {
        if kind_matches(&subscription_types[i], event_type) {
            return true;
        }
        i = i + 1;
    }
    false
}

/// Whether two lists of names share one.
pub open spec fn overlaps(a: Seq<Seq<char>>, b: Seq<Seq<char>>) -> bool {
    exists|i: int| 0 <= i < a.len() && b.contains(#[trigger] a[i])
}

fn lists_overlap(a: &Vec<String>, b: &Vec<String>) -> (r: bool)
    ensures
        r == overlaps(string_views(a@), string_views(b@)),
{
    let ghost av = string_views(a@);
    let ghost bv = string_views(b@);
    let mut i: usize = 0;
    while i < a.len()
        invariant
            i <= a.len(),
            av == string_views(a@),
            bv == string_views(b@),
            forall|j: int| 0 <= j < i ==> !bv.contains(#[trigger] av[j]),
        decreases a.len() - i,
    {
        let mut k: usize = 0;
        while k < b.len()
            invariant
                k <= b.len(),
                i < a.len(),
                av == string_views(a@),
                bv == string_views(b@),
                forall|j: int| 0 <= j < k ==> bv[j] != av[i as int],
            decreases b.len() - k,
        {
            if str_eq(a[i].as_str(), b[k].as_str()) {
                assert(bv[k as int] == av[i as int]);
                assert(bv.contains(av[i as int]));
                return true;
            }
            k = k + 1;
        }
        proof {
            if bv.contains(av[i as int]) {
                let q = choose|q: int| 0 <= q < bv.len() && bv[q] == av[i as int];
            }
        }
        i = i + 1;
    }
    false
}

/// Whether one optional list fails to meet the other: only when both are
/// present and share no name.
pub open spec fn list_blocks(sub: Option<Vec<String>>, target: Option<Vec<String>>) -> bool {
    sub is Some && target is Some && !overlaps(string_views(sub->0@), string_views(target->0@))
}

/// Whether a subscription filter admits an event's filter: absent filters
/// admit everything; otherwise the agent lists and the task lists must each
/// share a name when both sides give one.
pub open spec fn filter_admits(sub: Option<SubscriptionFilter>, target: Option<SubscriptionFilter>) -> bool {
    match (sub, target) {
        (Some(s), Some(t)) => !list_blocks(s.agent_ids, t.agent_ids) && !list_blocks(s.task_ids, t.task_ids),
        _ => true,
    }
}

pub fn matches_filter(subscription_filter: &Option<SubscriptionFilter>, target_filter: &Option<SubscriptionFilter>) -> (r: bool)
    ensures
        r == filter_admits(*subscription_filter, *target_filter),
{
    match (subscription_filter, target_filter) {
        (Some(sub_filter), Some(target)) => {
            match (&sub_filter.agent_ids, &target.agent_ids) {
                (Some(sub_agents), Some(target_agents)) => {
                    if !lists_overlap(sub_agents, target_agents) {
                        return false;
                    }
                },
                _ => {},
            }
            match (&sub_filter.task_ids, &target.task_ids) {
                (Some(sub_tasks), Some(target_tasks)) => {
                    if !lists_overlap(sub_tasks, target_tasks) {
                        return false;
                    }
                },
                _ => {},
            }
            true
        },
        _ => true,
    }
}

/// Whether an event reaches a subscription.
pub open spec fn reaches(s: Subscription, event_type: EventType, target: Option<SubscriptionFilter>) -> bool {
    &&& s.active
    &&& exists|i: int| 0 <= i < s.event_types@.len() && same_kind(#[trigger] s.event_types@[i], event_type)
    &&& filter_admits(s.filter, target)
}

/// Positions of the subscriptions an event reaches, in order.
pub fn recipients(subscriptions: &[Subscription], event_type: &EventType, target_filter: &Option<SubscriptionFilter>) -> (r: Vec<usize>)
    ensures
        forall|k: int| 0 <= k < r@.len() ==> (#[trigger] r@[k]) < subscriptions@.len() && reaches(subscriptions@[r@[k] as int], *event_type, *target_filter),
        forall|i: int| 0 <= i < subscriptions@.len() && reaches(subscriptions@[i], *event_type, *target_filter) ==> r@.contains(i as usize),
        forall|a: int, b: int| 0 <= a < b < r@.len() ==> r@[a] < r@[b],
{
    let mut r: Vec<usize> = Vec::new();
    let mut i: usize = 0;
    while i < subscriptions.len()
        invariant
            i <= subscriptions.len(),
            forall|k: int| 0 <= k < r@.len() ==> (#[trigger] r@[k]) < i && reaches(subscriptions@[r@[k] as int], *event_type, *target_filter),
            forall|j: int| 0 <= j < i && reaches(subscriptions@[j], *event_type, *target_filter) ==> r@.contains(j as usize),
            forall|a: int, b: int| 0 <= a < b < r@.len() ==> r@[a] < r@[b],
        decreases subscriptions.len() - i,
    {
        let s = &subscriptions[i];
        if s.active && matches_event_type(s.event_types.as_slice(), event_type) && matches_filter(&s.filter, target_filter) {
            let ghost before = r@;
            r.push(i);
            proof {
                assert(r@[before.len() as int] == i);
                assert forall|j: int| 0 <= j < i + 1 && reaches(subscriptions@[j], *event_type, *target_filter) implies r@.contains(j as usize) by {
                    if j < i {
                        let q = choose|q: int| 0 <= q < before.len() && before[q] == j as usize;
                        assert(r@[q] == before[q]);
                    } else {
                        assert(r@[before.len() as int] == j as usize);
                    }
                }
            }
        } else {
            assert(!reaches(subscriptions@[i as int], *event_type, *target_filter));
        }
        i = i + 1;
    }
    r
}

/// The retry count a notification is requeued with, or `None` once it has
/// used up its retries and is dropped.
pub fn next_retry(retry_count: u32, max_retries: u32) -> (r: Option<u32>)
    ensures
        retry_count >= max_retries ==> r is None,
        retry_count < max_retries ==> r == Some((retry_count + 1) as u32),
{
    if retry_count >= max_retries {
        None
    } else {
        Some(retry_count + 1)
    }
}


/// What a filter holds, as sequences.
pub struct SubscriptionFilterView {
    pub agent_ids: Option<Seq<String>>,
    pub task_ids: Option<Seq<String>>,
    pub metadata_filters: Option<Seq<(String, String)>>,
}

pub open spec fn strings_view(v: Option<Vec<String>>) -> Option<Seq<String>> {
    match v {
        Some(x) => Some(x@),
        None => None,
    }
}

impl View for SubscriptionFilter {
    type V = SubscriptionFilterView;

    open spec fn view(&self) -> SubscriptionFilterView {
        SubscriptionFilterView {
            agent_ids: strings_view(self.agent_ids),
            task_ids: strings_view(self.task_ids),
            metadata_filters: match self.metadata_filters {
                Some(m) => Some(m@),
                None => None,
            },
        }
    }
}

/// What a subscription holds, as sequences.
pub struct SubscriptionView {
    pub id: String,
    pub client_id: String,
    pub event_types: Seq<EventType>,
    pub filter: Option<SubscriptionFilterView>,
    pub created_at: i64,
    pub active: bool,
}

impl View for Subscription {
    type V = SubscriptionView;

    open spec fn view(&self) -> SubscriptionView {
        SubscriptionView {
            id: self.id,
            client_id: self.client_id,
            event_types: self.event_types@,
            filter: match self.filter {
                Some(f) => Some(f@),
                None => None,
            },
            created_at: self.created_at,
            active: self.active,
        }
    }
}

fn copy_event_type(e: &EventType) -> (r: EventType)
    ensures
        r == *e,
{
    match e {
        EventType::TaskUpdate => EventType::TaskUpdate,
        EventType::AgentStatus => EventType::AgentStatus,
        EventType::MetricsUpdate => EventType::MetricsUpdate,
        EventType::FileTransferProgress => EventType::FileTransferProgress,
        EventType::ChatMessage => EventType::ChatMessage,
        EventType::SystemAlert => EventType::SystemAlert,
        EventType::Custom(name) => EventType::Custom(name.clone()),
    }
}

fn copy_event_types(v: &Vec<EventType>) -> (r: Vec<EventType>)
    ensures
        r@ == v@,
{
    let mut r: Vec<EventType> = Vec::new();
    let mut i: usize = 0;
    while i < v.len()
        invariant
            i <= v.len(),
            r@ == v@.take(i as int),
        decreases v.len() - i,
    {
        r.push(copy_event_type(&v[i]));
        assert(r@ =~= v@.take(i + 1));
        i = i + 1;
    }
    assert(v@.take(v.len() as int) =~= v@);
    r
}

fn copy_strings(v: &Vec<String>) -> (r: Vec<String>)
    ensures
        r@ == v@,
{
    let mut r: Vec<String> = Vec::new();
    let mut i: usize = 0;
    while i < v.len()
        invariant
            i <= v.len(),
            r@ == v@.take(i as int),
        decreases v.len() - i,
    {
        r.push(v[i].clone());
        assert(r@ =~= v@.take(i + 1));
        i = i + 1;
    }
    assert(v@.take(v.len() as int) =~= v@);
    r
}

fn copy_pairs(v: &Vec<(String, String)>) -> (r: Vec<(String, String)>)
    ensures
        r@ == v@,
{
    let mut r: Vec<(String, String)> = Vec::new();
    let mut i: usize = 0;
    while i < v.len()
        invariant
            i <= v.len(),
            r@ == v@.take(i as int),
        decreases v.len() - i,
    {
        let p = &v[i];
        r.push((p.0.clone(), p.1.clone()));
        assert(r@ =~= v@.take(i + 1));
        i = i + 1;
    }
    assert(v@.take(v.len() as int) =~= v@);
    r
}

fn copy_optional_strings(v: &Option<Vec<String>>) -> (r: Option<Vec<String>>)
    ensures
        strings_view(r) == strings_view(*v),
{
    match v {
        Some(x) => Some(copy_strings(x)),
        None => None,
    }
}

fn copy_filter(f: &SubscriptionFilter) -> (r: SubscriptionFilter)
    ensures
        r@ == f@,
{
    SubscriptionFilter {
        agent_ids: copy_optional_strings(&f.agent_ids),
        task_ids: copy_optional_strings(&f.task_ids),
        metadata_filters: match &f.metadata_filters {
            Some(m) => Some(copy_pairs(m)),
            None => None,
        },
    }
}

fn copy_subscription(s: &Subscription) -> (r: Subscription)
    ensures
        r@ == s@,
{
    Subscription {
        id: s.id.clone(),
        client_id: s.client_id.clone(),
        event_types: copy_event_types(&s.event_types),
        filter: match &s.filter {
            Some(f) => Some(copy_filter(f)),
            None => None,
        },
        created_at: s.created_at,
        active: s.active,
    }
}

impl Keyed for Subscription {
    open spec fn key_view(&self) -> Seq<char> {
        self.id@
    }

    fn key(&self) -> (k: &str) {
        self.id.as_str()
    }
}

/// The subscriptions a client made, by id, in the order it made them.
pub struct ClientSubscriptions {
    pub client_id: String,
    pub subscription_ids: Vec<String>,
}

impl Keyed for ClientSubscriptions {
    open spec fn key_view(&self) -> Seq<char> {
        self.client_id@
    }

    fn key(&self) -> (k: &str) {
        self.client_id.as_str()
    }
}

/// Where a client receives its notifications: `S` is the sending half of
/// the client's channel.
#[derive(Clone)]
pub struct NotificationChannel<S> {
    pub client_id: String,
    pub sender: S,
}

impl<S> Keyed for NotificationChannel<S> {
    open spec fn key_view(&self) -> Seq<char> {
        self.client_id@
    }

    fn key(&self) -> (k: &str) {
        self.client_id.as_str()
    }
}

/// What became of one attempt to hand a notification to a client's channel.
#[derive(Debug, Clone, Copy, PartialEq, Eq, Structural)]
pub enum SendOutcome {
    /// The channel took it.
    Sent,
    /// The channel was full.
    Full,
    /// The channel is closed.
    Closed,
}

/// A notification to hand to the channel of `client_id`.
pub struct Delivery {
    pub client_id: String,
    pub notification: PushNotification,
}

/// A queued notification taken for another attempt; `client_id` names the
/// client's channel when it has one.
pub struct RetryItem {
    pub notification: PushNotification,
    pub client_id: Option<String>,
}

/// Subscriptions, the clients' channels and the queue of notifications
/// waiting for another attempt.
pub struct PushNotificationService<S> {
    subscriptions: Table<Subscription>,
    client_subscriptions: Table<ClientSubscriptions>,
    notification_channels: Table<NotificationChannel<S>>,
    retry_queue: Vec<PushNotification>,
    max_retries: u32,
}

/// The ids a client's record lists.
pub open spec fn listed_ids(c: ClientSubscriptions) -> Seq<Seq<char>> {
    string_views(c.subscription_ids@)
}

/// The queue after a notification is handed back: it goes to the end with
/// one more retry counted, unless it has used up its retries.
pub open spec fn requeued(q: Seq<PushNotification>, n: PushNotification, max_retries: u32) -> Seq<PushNotification> {
    if n.retry_count >= max_retries {
        q
    } else {
        q.push(PushNotification { retry_count: (n.retry_count + 1) as u32, ..n })
    }
}

impl<S> PushNotificationService<S> {
    /// Subscriptions by id.
    pub closed spec fn subscription_map(&self) -> Map<Seq<char>, Subscription> {
        self.subscriptions.map_view()
    }

    /// Subscriptions in the order events visit them.
    pub closed spec fn subscription_order(&self) -> Seq<Subscription> {
        self.subscriptions.item_seq()
    }

    /// Each client's subscription ids.
    pub closed spec fn client_map(&self) -> Map<Seq<char>, Seq<Seq<char>>> {
        self.client_subscriptions.map_view().map_values(|c: ClientSubscriptions| listed_ids(c))
    }

    /// Channels by client.
    pub closed spec fn channel_map(&self) -> Map<Seq<char>, NotificationChannel<S>> {
        self.notification_channels.map_view()
    }

    /// Notifications waiting for another attempt, oldest first.
    pub closed spec fn queued(&self) -> Seq<PushNotification> {
        self.retry_queue@
    }

    /// How often a notification is tried again.
    pub closed spec fn retry_limit(&self) -> u32 {
        self.max_retries
    }

    pub closed spec fn wf(&self) -> bool {
        &&& self.subscriptions.wf()
        &&& self.client_subscriptions.wf()
        &&& self.notification_channels.wf()
    }

    pub fn new(max_retries: u32) -> (s: Self)
        ensures
            s.wf(),
            s.subscription_map() == Map::<Seq<char>, Subscription>::empty(),
            s.subscription_order() == Seq::<Subscription>::empty(),
            s.client_map() == Map::<Seq<char>, Seq<Seq<char>>>::empty(),
            s.channel_map() == Map::<Seq<char>, NotificationChannel<S>>::empty(),
            s.queued() == Seq::<PushNotification>::empty(),
            s.retry_limit() == max_retries,
    {
        let s = PushNotificationService {
            subscriptions: Table::new(),
            client_subscriptions: Table::new(),
            notification_channels: Table::new(),
            retry_queue: Vec::new(),
            max_retries,
        };
        proof {
            assert(s.client_map() =~= Map::<Seq<char>, Seq<Seq<char>>>::empty());
        }
        s
    }
}


/// The subscription ids a client holds in `m`; none when it has no record.
pub open spec fn ids_of_client(m: Map<Seq<char>, Seq<Seq<char>>>, client: Seq<char>) -> Seq<Seq<char>> {
    if m.contains_key(client) {
        m[client]
    } else {
        Seq::empty()
    }
}

impl<S> PushNotificationService<S> {
    /// Subscribe a client to event types. The subscription gets a fresh
    /// random id, the current time, and starts active.
    /// Reads the system clock and draws from the operating system's random source; these panic only
    /// if the clock reads before 1970 or the random source fails.
    pub fn subscribe(&mut self, request: SubscriptionRequest) -> (r: Result<SubscriptionResponse, A2aError>)
        requires
            old(self).wf(),
        ensures
            final(self).wf(),
            r is Ok,
            r->Ok_0.status@ == "active"@,
            final(self).subscription_map() == old(self).subscription_map().insert(
                r->Ok_0.subscription_id@,
                final(self).subscription_map()[r->Ok_0.subscription_id@],
            ),
            final(self).subscription_map()[r->Ok_0.subscription_id@].id@ == r->Ok_0.subscription_id@,
            final(self).subscription_map()[r->Ok_0.subscription_id@].client_id == request.client_id,
            final(self).subscription_map()[r->Ok_0.subscription_id@].event_types == request.event_types,
            final(self).subscription_map()[r->Ok_0.subscription_id@].filter == request.filter,
            final(self).subscription_map()[r->Ok_0.subscription_id@].active,
            final(self).client_map() == old(self).client_map().insert(
                request.client_id@,
                ids_of_client(old(self).client_map(), request.client_id@).push(r->Ok_0.subscription_id@),
            ),
            final(self).channel_map() == old(self).channel_map(),
            final(self).queued() == old(self).queued(),
            final(self).retry_limit() == old(self).retry_limit(),
    {
        let subscription_id = new_token_id();
        let client_id = request.client_id;
        let subscription = Subscription {
            id: subscription_id.clone(),
            client_id: client_id.clone(),
            event_types: request.event_types,
            filter: request.filter,
            created_at: unix_now(),
            active: true,
        };
        self.subscriptions.insert(subscription);
        let ghost before = self.client_subscriptions.map_view();
        let entry = self.client_subscriptions.remove(client_id.as_str());
        let mut ids = match entry {
            Some(c) => c.subscription_ids,
            None => Vec::new(),
        };
        let ghost prior = string_views(ids@);
        ids.push(subscription_id.clone());
        proof {
            assert(string_views(ids@) =~= prior.push(subscription_id@));
            assert(prior == ids_of_client(old(self).client_map(), client_id@));
        }
        self.client_subscriptions.insert(ClientSubscriptions { client_id, subscription_ids: ids });
        proof {
            assert(self.client_map() =~= old(self).client_map().insert(
                request.client_id@,
                ids_of_client(old(self).client_map(), request.client_id@).push(subscription_id@),
            ));
        }
        Ok(SubscriptionResponse { subscription_id, status: owned("active") })
    }

    /// Deactivate a subscription. It stays stored until the next cleanup.
    pub fn unsubscribe(&mut self, subscription_id: &str) -> (r: Result<(), A2aError>)
        requires
            old(self).wf(),
        ensures
            final(self).wf(),
            (r is Ok) == old(self).subscription_map().contains_key(subscription_id@),
            r is Ok ==> final(self).subscription_map() == old(self).subscription_map().insert(
                subscription_id@,
                Subscription { active: false, ..old(self).subscription_map()[subscription_id@] },
            ),
            r is Err ==> final(self).subscription_map() == old(self).subscription_map(),
            r is Err ==> r->Err_0 == A2aError::InvalidRequest(r->Err_0->InvalidRequest_0)
                && r->Err_0->InvalidRequest_0@ == "Subscription not found: "@ + subscription_id@,
            final(self).client_map() == old(self).client_map(),
            final(self).channel_map() == old(self).channel_map(),
            final(self).queued() == old(self).queued(),
            final(self).retry_limit() == old(self).retry_limit(),
    {
        match self.subscriptions.remove(subscription_id) {
            Some(mut subscription) => {
                proof {
                    old(self).subscriptions.lemma_values_carry_keys(subscription_id@);
                }
                subscription.active = false;
                self.subscriptions.insert(subscription);
                proof {
                    assert(self.subscription_map() =~= old(self).subscription_map().insert(
                        subscription_id@,
                        Subscription { active: false, ..old(self).subscription_map()[subscription_id@] },
                    ));
                }
                Ok(())
            },
            None => Err(A2aError::InvalidRequest(concat2("Subscription not found: ", subscription_id))),
        }
    }

    /// Register the channel a client receives notifications on, replacing
    /// an earlier one.
    pub fn register_channel(&mut self, client_id: String, sender: S) -> (r: Result<(), A2aError>)
        requires
            old(self).wf(),
        ensures
            final(self).wf(),
            r is Ok,
            final(self).channel_map() == old(self).channel_map().insert(
                client_id@,
                NotificationChannel { client_id, sender },
            ),
            final(self).subscription_map() == old(self).subscription_map(),
            final(self).subscription_order() == old(self).subscription_order(),
            final(self).client_map() == old(self).client_map(),
            final(self).queued() == old(self).queued(),
            final(self).retry_limit() == old(self).retry_limit(),
    {
        self.notification_channels.insert(NotificationChannel { client_id, sender });
        Ok(())
    }

    /// Drop a client's channel.
    pub fn unregister_channel(&mut self, client_id: &str) -> (r: Result<(), A2aError>)
        requires
            old(self).wf(),
        ensures
            final(self).wf(),
            (r is Ok) == old(self).channel_map().contains_key(client_id@),
            final(self).channel_map() == old(self).channel_map().remove(client_id@),
            r is Err ==> r->Err_0 == A2aError::InvalidRequest(r->Err_0->InvalidRequest_0)
                && r->Err_0->InvalidRequest_0@ == "Channel not found for client: "@ + client_id@,
            final(self).subscription_map() == old(self).subscription_map(),
            final(self).subscription_order() == old(self).subscription_order(),
            final(self).client_map() == old(self).client_map(),
            final(self).queued() == old(self).queued(),
            final(self).retry_limit() == old(self).retry_limit(),
    {
        match self.notification_channels.remove(client_id) {
            Some(_) => Ok(()),
            None => {
                proof {
                    assert(old(self).channel_map().remove(client_id@) =~= old(self).channel_map());
                }
                Err(A2aError::InvalidRequest(concat2("Channel not found for client: ", client_id)))
            },
        }
    }

    /// The channel of a client, if it registered one.
    pub fn channel(&self, client_id: &str) -> (r: Option<&NotificationChannel<S>>)
        requires
            self.wf(),
        ensures
            match r {
                Some(c) => self.channel_map().contains_key(client_id@) && *c == self.channel_map()[client_id@],
                None => !self.channel_map().contains_key(client_id@),
            },
    {
        self.notification_channels.get(client_id)
    }
}


/// Whether an event goes straight to a subscription's client: it reaches
/// the subscription and the client has a channel.
pub open spec fn delivered(s: Subscription, e: EventType, t: Option<SubscriptionFilter>, clients: Set<Seq<char>>) -> bool {
    reaches(s, e, t) && clients.contains(s.client_id@)
}

/// Whether an event reaches a subscription whose client has no channel.
pub open spec fn parked(s: Subscription, e: EventType, t: Option<SubscriptionFilter>, clients: Set<Seq<char>>) -> bool {
    reaches(s, e, t) && !clients.contains(s.client_id@)
}

/// The subscriptions, in order, whose clients an event is handed to.
pub open spec fn deliveries_for(
    order: Seq<Subscription>,
    e: EventType,
    t: Option<SubscriptionFilter>,
    clients: Set<Seq<char>>,
) -> Seq<Subscription> {
    order.filter(|s: Subscription| delivered(s, e, t, clients))
}

/// The subscriptions, in order, whose notifications wait for a channel.
pub open spec fn parked_for(
    order: Seq<Subscription>,
    e: EventType,
    t: Option<SubscriptionFilter>,
    clients: Set<Seq<char>>,
) -> Seq<Subscription> {
    order.filter(|s: Subscription| parked(s, e, t, clients))
}

/// A notification of event `e` with `payload` for subscription `s`.
pub open spec fn notifies(n: PushNotification, s: Subscription, e: EventType, payload: serde_json::Value, retry_count: u32) -> bool {
    &&& n.subscription_id@ == s.id@
    &&& n.event_type == e
    &&& n.payload == payload
    &&& n.retry_count == retry_count
}

/// The queued notifications whose subscription is still stored.
pub open spec fn retriable(q: Seq<PushNotification>, subs: Map<Seq<char>, Subscription>) -> Seq<PushNotification> {
    q.filter(|n: PushNotification| subs.contains_key(n.subscription_id@))
}

proof fn lemma_filter_take_step<A>(s: Seq<A>, i: int, p: spec_fn(A) -> bool)
    requires
        0 <= i < s.len(),
    ensures
        s.take(i + 1).filter(p) == (if p(s[i]) {
            s.take(i).filter(p).push(s[i])
        } else {
            s.take(i).filter(p)
        }),
{
    reveal(Seq::filter);
    let t = s.take(i + 1);
    assert(t.drop_last() =~= s.take(i));
    assert(t.last() == s[i]);
}

fn copy_notification(n: &PushNotification) -> (r: PushNotification)
    ensures
        r == *n,
{
    PushNotification {
        id: n.id.clone(),
        subscription_id: n.subscription_id.clone(),
        event_type: copy_event_type(&n.event_type),
        payload: n.payload.clone(),
        timestamp: n.timestamp,
        retry_count: n.retry_count,
    }
}

fn queue_for_retry(queue: &mut Vec<PushNotification>, notification: PushNotification, max_retries: u32)
    ensures
        final(queue)@ == requeued(old(queue)@, notification, max_retries),
{
    if notification.retry_count < max_retries {
        let retry_count = notification.retry_count + 1;
        queue.push(PushNotification { retry_count, ..notification });
    }
}

impl<S> PushNotificationService<S> {
    /// Notify the subscriptions an event reaches. Each active subscription
    /// of a matching kind whose filter admits the event gets a fresh
    /// notification: handed back for the client's channel when the client
    /// has one, queued for another attempt when not. The caller hands each
    /// delivery to its channel and reports with `record_delivery`.
    /// Reads the system clock and draws from the operating system's random source; these panic only
    /// if the clock reads before 1970 or the random source fails.
    pub fn publish_event(
        &mut self,
        event_type: EventType,
        payload: serde_json::Value,
        target_filter: Option<SubscriptionFilter>,
    ) -> (d: Vec<Delivery>)
        requires
            old(self).wf(),
        ensures
            final(self).wf(),
            d@.len() == deliveries_for(old(self).subscription_order(), event_type, target_filter, old(self).channel_map().dom()).len(),
            forall|k: int|
                #![trigger d@[k]]
                0 <= k < d@.len() ==> {
                    let s = deliveries_for(old(self).subscription_order(), event_type, target_filter, old(self).channel_map().dom())[k];
                    &&& d@[k].client_id@ == s.client_id@
                    &&& notifies(d@[k].notification, s, event_type, payload, 0)
                },
            old(self).retry_limit() == 0 ==> final(self).queued() == old(self).queued(),
            old(self).retry_limit() > 0 ==> final(self).queued().len() == old(self).queued().len() + parked_for(
                old(self).subscription_order(),
                event_type,
                target_filter,
                old(self).channel_map().dom(),
            ).len(),
            old(self).retry_limit() > 0 ==> final(self).queued().take(old(self).queued().len() as int) == old(self).queued(),
            old(self).retry_limit() > 0 ==> forall|j: int|
                #![trigger final(self).queued()[old(self).queued().len() + j]]
                0 <= j < parked_for(old(self).subscription_order(), event_type, target_filter, old(self).channel_map().dom()).len()
                    ==> notifies(
                    final(self).queued()[old(self).queued().len() + j],
                    parked_for(old(self).subscription_order(), event_type, target_filter, old(self).channel_map().dom())[j],
                    event_type,
                    payload,
                    1,
                ),
            final(self).subscription_map() == old(self).subscription_map(),
            final(self).subscription_order() == old(self).subscription_order(),
            final(self).client_map() == old(self).client_map(),
            final(self).channel_map() == old(self).channel_map(),
            final(self).retry_limit() == old(self).retry_limit(),
    {
        let ghost clients = self.channel_map().dom();
        let ghost pd = |s: Subscription| delivered(s, event_type, target_filter, clients);
        let ghost pp = |s: Subscription| parked(s, event_type, target_filter, clients);
        let ghost q0 = self.retry_queue@;
        let mut deliveries: Vec<Delivery> = Vec::new();
        let subs = self.subscriptions.as_slice();
        let mut i: usize = 0;
        while i < subs.len()
            invariant
                i <= subs.len(),
                subs@ == old(self).subscription_order(),
                self.subscriptions == old(self).subscriptions,
                self.client_subscriptions == old(self).client_subscriptions,
                self.notification_channels == old(self).notification_channels,
                self.max_retries == old(self).max_retries,
                q0 == old(self).queued(),
                clients == old(self).channel_map().dom(),
                pd == (|s: Subscription| delivered(s, event_type, target_filter, clients)),
                pp == (|s: Subscription| parked(s, event_type, target_filter, clients)),
                self.notification_channels.wf(),
                deliveries@.len() == subs@.take(i as int).filter(pd).len(),
                forall|k: int|
                    #![trigger deliveries@[k]]
                    0 <= k < deliveries@.len() ==> {
                        let s = subs@.take(i as int).filter(pd)[k];
                        &&& deliveries@[k].client_id@ == s.client_id@
                        &&& notifies(deliveries@[k].notification, s, event_type, payload, 0)
                    },
                self.max_retries == 0 ==> self.retry_queue@ == q0,
                self.max_retries > 0 ==> self.retry_queue@.len() == q0.len() + subs@.take(i as int).filter(pp).len(),
                self.max_retries > 0 ==> self.retry_queue@.take(q0.len() as int) == q0,
                self.max_retries > 0 ==> forall|j: int|
                    #![trigger self.retry_queue@[q0.len() + j]]
                    0 <= j < subs@.take(i as int).filter(pp).len() ==> notifies(
                        self.retry_queue@[q0.len() + j],
                        subs@.take(i as int).filter(pp)[j],
                        event_type,
                        payload,
                        1,
                    ),
            decreases subs.len() - i,
        {
            let s = &subs[i];
            proof {
                lemma_filter_take_step(subs@, i as int, pd);
                lemma_filter_take_step(subs@, i as int, pp);
            }
            if s.active && matches_event_type(s.event_types.as_slice(), &event_type) && matches_filter(&s.filter, &target_filter) {
                let notification = PushNotification {
                    id: new_token_id(),
                    subscription_id: s.id.clone(),
                    event_type: copy_event_type(&event_type),
                    payload: payload.clone(),
                    timestamp: unix_now(),
                    retry_count: 0,
                };
                if self.notification_channels.get(s.client_id.as_str()).is_some() {
                    let ghost before = deliveries@;
                    deliveries.push(Delivery { client_id: s.client_id.clone(), notification });
                    proof {
                        assert(pd(subs@[i as int]));
                        assert forall|k: int| 0 <= k < deliveries@.len() implies {
                            let t = subs@.take(i + 1).filter(pd)[k];
                            &&& (#[trigger] deliveries@[k]).client_id@ == t.client_id@
                            &&& notifies(deliveries@[k].notification, t, event_type, payload, 0)
                        } by {
                            if k < before.len() {
                                assert(deliveries@[k] == before[k]);
                            }
                        }
                    }
                } else {
                    let ghost before = self.retry_queue@;
                    queue_for_retry(&mut self.retry_queue, notification, self.max_retries);
                    proof {
                        assert(pp(subs@[i as int]));
                        if self.max_retries > 0 {
                            assert(self.retry_queue@.take(q0.len() as int) =~= before.take(q0.len() as int));
                            assert forall|j: int|
                                0 <= j < subs@.take(i + 1).filter(pp).len() implies notifies(
                                #[trigger] self.retry_queue@[q0.len() + j],
                                subs@.take(i + 1).filter(pp)[j],
                                event_type,
                                payload,
                                1,
                            ) by {
                                if j < subs@.take(i as int).filter(pp).len() {
                                    assert(self.retry_queue@[q0.len() + j] == before[q0.len() + j]);
                                }
                            }
                        }
                    }
                }
            } else {
                assert(!reaches(subs@[i as int], event_type, target_filter));
                assert(!pd(subs@[i as int]) && !pp(subs@[i as int]));
            }
            i = i + 1;
        }
        proof {
            assert(subs@.take(subs@.len() as int) =~= subs@);
        }
        deliveries
    }

    /// Report what became of a delivery: a full channel queues the
    /// notification for another attempt, a closed one drops it. Returns
    /// whether it was sent.
    pub fn record_delivery(&mut self, notification: PushNotification, outcome: SendOutcome) -> (sent: bool)
        requires
            old(self).wf(),
        ensures
            final(self).wf(),
            sent == (outcome == SendOutcome::Sent),
            outcome == SendOutcome::Full ==> final(self).queued() == requeued(old(self).queued(), notification, old(self).retry_limit()),
            outcome != SendOutcome::Full ==> final(self).queued() == old(self).queued(),
            final(self).subscription_map() == old(self).subscription_map(),
            final(self).subscription_order() == old(self).subscription_order(),
            final(self).client_map() == old(self).client_map(),
            final(self).channel_map() == old(self).channel_map(),
            final(self).retry_limit() == old(self).retry_limit(),
    {
        match outcome {
            SendOutcome::Sent => true,
            SendOutcome::Full => {
                queue_for_retry(&mut self.retry_queue, notification, self.max_retries);
                false
            },
            SendOutcome::Closed => false,
        }
    }

    /// Empty the retry queue for another attempt. A notification whose
    /// subscription is gone is dropped; the others come back in order, with
    /// the client's channel when it has one. The caller tries each and
    /// reports with `record_retry`.
    pub fn take_retry_batch(&mut self) -> (batch: Vec<RetryItem>)
        requires
            old(self).wf(),
        ensures
            final(self).wf(),
            final(self).queued() == Seq::<PushNotification>::empty(),
            batch@.len() == retriable(old(self).queued(), old(self).subscription_map()).len(),
            forall|k: int|
                #![trigger batch@[k]]
                0 <= k < batch@.len() ==> {
                    let n = retriable(old(self).queued(), old(self).subscription_map())[k];
                    let client = old(self).subscription_map()[n.subscription_id@].client_id@;
                    &&& batch@[k].notification == n
                    &&& match batch@[k].client_id {
                        Some(c) => c@ == client && old(self).channel_map().contains_key(client),
                        None => !old(self).channel_map().contains_key(client),
                    }
                },
            final(self).subscription_map() == old(self).subscription_map(),
            final(self).subscription_order() == old(self).subscription_order(),
            final(self).client_map() == old(self).client_map(),
            final(self).channel_map() == old(self).channel_map(),
            final(self).retry_limit() == old(self).retry_limit(),
    {
        let mut queue: Vec<PushNotification> = Vec::new();
        std::mem::swap(&mut queue, &mut self.retry_queue);
        let ghost subs = self.subscription_map();
        let ghost p = |n: PushNotification| subs.contains_key(n.subscription_id@);
        let mut batch: Vec<RetryItem> = Vec::new();
        let mut i: usize = 0;
        while i < queue.len()
            invariant
                i <= queue.len(),
                queue@ == old(self).queued(),
                self.subscriptions == old(self).subscriptions,
                self.client_subscriptions == old(self).client_subscriptions,
                self.notification_channels == old(self).notification_channels,
                self.max_retries == old(self).max_retries,
                self.retry_queue@ == Seq::<PushNotification>::empty(),
                self.subscriptions.wf(),
                self.notification_channels.wf(),
                subs == old(self).subscription_map(),
                p == (|n: PushNotification| subs.contains_key(n.subscription_id@)),
                batch@.len() == queue@.take(i as int).filter(p).len(),
                forall|k: int|
                    #![trigger batch@[k]]
                    0 <= k < batch@.len() ==> {
                        let n = queue@.take(i as int).filter(p)[k];
                        let client = subs[n.subscription_id@].client_id@;
                        &&& batch@[k].notification == n
                        &&& match batch@[k].client_id {
                            Some(c) => c@ == client && old(self).channel_map().contains_key(client),
                            None => !old(self).channel_map().contains_key(client),
                        }
                    },
            decreases queue.len() - i,
        {
            proof {
                lemma_filter_take_step(queue@, i as int, p);
            }
            let n = &queue[i];
            match self.subscriptions.get(n.subscription_id.as_str()) {
                Some(subscription) => {
                    let client_id = match self.notification_channels.get(subscription.client_id.as_str()) {
                        Some(_) => Some(subscription.client_id.clone()),
                        None => None,
                    };
                    let ghost before = batch@;
                    batch.push(RetryItem { notification: copy_notification(n), client_id });
                    proof {
                        assert(p(queue@[i as int]));
                        assert forall|k: int| 0 <= k < batch@.len() implies {
                            let m = queue@.take(i + 1).filter(p)[k];
                            let client = subs[m.subscription_id@].client_id@;
                            &&& (#[trigger] batch@[k]).notification == m
                            &&& match batch@[k].client_id {
                                Some(c) => c@ == client && old(self).channel_map().contains_key(client),
                                None => !old(self).channel_map().contains_key(client),
                            }
                        } by {
                            if k < before.len() {
                                assert(batch@[k] == before[k]);
                            }
                        }
                    }
                },
                None => {
                    assert(!p(queue@[i as int]));
                },
            }
            i = i + 1;
        }
        proof {
            assert(queue@.take(queue@.len() as int) =~= queue@);
        }
        batch
    }

    /// Report a retried notification: one that was not sent goes back to
    /// the queue unless it has used up its retries. Returns whether it was
    /// sent.
    pub fn record_retry(&mut self, notification: PushNotification, sent: bool) -> (r: bool)
        requires
            old(self).wf(),
        ensures
            final(self).wf(),
            r == sent,
            !sent ==> final(self).queued() == requeued(old(self).queued(), notification, old(self).retry_limit()),
            sent ==> final(self).queued() == old(self).queued(),
            final(self).subscription_map() == old(self).subscription_map(),
            final(self).subscription_order() == old(self).subscription_order(),
            final(self).client_map() == old(self).client_map(),
            final(self).channel_map() == old(self).channel_map(),
            final(self).retry_limit() == old(self).retry_limit(),
    {
        if !sent {
            queue_for_retry(&mut self.retry_queue, notification, self.max_retries);
        }
        sent
    }
}


/// The views of the active subscriptions among `ids`, in order.
pub open spec fn active_views(ids: Seq<Seq<char>>, subs: Map<Seq<char>, Subscription>) -> Seq<SubscriptionView>
    decreases ids.len(),
{
    if ids.len() == 0 {
        Seq::empty()
    } else {
        let rest = active_views(ids.drop_last(), subs);
        let k = ids.last();
        if subs.contains_key(k) && subs[k].active {
            rest.push(subs[k]@)
        } else {
            rest
        }
    }
}

/// Whether one of the first `n` records belongs to `client`.
pub open spec fn seen_client(records: Seq<ClientSubscriptions>, n: int, client: Seq<char>) -> bool {
    exists|q: int| 0 <= q < n && (#[trigger] records[q]).client_id@ == client
}

/// The subscriptions of `m` that are active.
pub open spec fn active_only(m: Map<Seq<char>, Subscription>) -> Map<Seq<char>, Subscription> {
    Map::new(|k: Seq<char>| m.contains_key(k) && m[k].active, |k: Seq<char>| m[k])
}

/// The ids among `ids` whose subscription is stored.
pub open spec fn still_stored(ids: Seq<Seq<char>>, subs: Map<Seq<char>, Subscription>) -> Seq<Seq<char>> {
    ids.filter(|id: Seq<char>| subs.contains_key(id))
}

/// Client records after cleanup: each keeps the ids still stored, and a
/// client left with none loses its record.
pub open spec fn pruned_clients(
    cm: Map<Seq<char>, Seq<Seq<char>>>,
    subs: Map<Seq<char>, Subscription>,
) -> Map<Seq<char>, Seq<Seq<char>>> {
    Map::new(
        |c: Seq<char>| cm.contains_key(c) && still_stored(cm[c], subs).len() > 0,
        |c: Seq<char>| still_stored(cm[c], subs),
    )
}

impl<S> PushNotificationService<S> {
    /// The active subscriptions of a client, in the order it made them.
    pub fn get_client_subscriptions(&self, client_id: &str) -> (r: Vec<Subscription>)
        requires
            self.wf(),
        ensures
            r@.map_values(|s: Subscription| s@) == active_views(
                ids_of_client(self.client_map(), client_id@),
                self.subscription_map(),
            ),
    {
        let mut r: Vec<Subscription> = Vec::new();
        match self.client_subscriptions.get(client_id) {
            Some(c) => {
                let ids = &c.subscription_ids;
                let ghost idv = string_views(ids@);
                let ghost m = self.subscription_map();
                let mut i: usize = 0;
                while i < ids.len()
                    invariant
                        i <= ids.len(),
                        idv == string_views(ids@),
                        m == self.subscription_map(),
                        self.subscriptions.wf(),
                        r@.map_values(|s: Subscription| s@) == active_views(idv.take(i as int), m),
                    decreases ids.len() - i,
                {
                    proof {
                        let t = idv.take(i + 1);
                        assert(t.drop_last() =~= idv.take(i as int));
                        assert(t.last() == ids@[i as int]@);
                    }
                    match self.subscriptions.get(ids[i].as_str()) {
                        Some(s) => {
                            if s.active {
                                let ghost before = r@;
                                r.push(copy_subscription(s));
                                proof {
                                    assert(r@.map_values(|s: Subscription| s@) =~= before.map_values(
                                        |s: Subscription| s@,
                                    ).push(s@));
                                }
                            }
                        },
                        None => {},
                    }
                    i = i + 1;
                }
                proof {
                    assert(idv.take(ids.len() as int) =~= idv);
                }
            },
            None => {
                assert(r@.map_values(|s: Subscription| s@) =~= Seq::<SubscriptionView>::empty());
            },
        }
        r
    }

    /// Drop the deactivated subscriptions, prune the clients' records to
    /// the subscriptions left and drop the records left empty. Returns how
    /// many subscriptions were dropped.
    pub fn cleanup_inactive_subscriptions(&mut self) -> (r: Result<usize, A2aError>)
        requires
            old(self).wf(),
        ensures
            final(self).wf(),
            r is Ok,
            final(self).subscription_map() == active_only(old(self).subscription_map()),
            r->Ok_0 == old(self).subscription_map().dom().len() - final(self).subscription_map().dom().len(),
            final(self).client_map() == pruned_clients(old(self).client_map(), final(self).subscription_map()),
            final(self).channel_map() == old(self).channel_map(),
            final(self).queued() == old(self).queued(),
            final(self).retry_limit() == old(self).retry_limit(),
    {
        let before_count = self.subscriptions.len();
        let ghost m0 = self.subscription_map();
        // The ids of the deactivated subscriptions.
        let mut inactive: Vec<String> = Vec::new();
        let subs = self.subscriptions.as_slice();
        let mut i: usize = 0;
        while i < subs.len()
            invariant
                i <= subs.len(),
                subs@ == self.subscriptions.item_seq(),
                self.subscriptions.wf(),
                m0 == self.subscriptions.map_view(),
                forall|k: int|
                    0 <= k < inactive@.len() ==> m0.contains_key(#[trigger] inactive@[k]@) && !m0[inactive@[k]@].active,
                forall|j: int| 0 <= j < i && !(#[trigger] subs@[j]).active ==> string_views(inactive@).contains(subs@[j].id@),
            decreases subs.len() - i,
        {
            if !subs[i].active {
                proof {
                    self.subscriptions.lemma_items_in_map(i as int);
                }
                let ghost before = inactive@;
                inactive.push(subs[i].id.clone());
                proof {
                    assert forall|j: int| 0 <= j < i + 1 && !(#[trigger] subs@[j]).active implies string_views(
                        inactive@,
                    ).contains(subs@[j].id@) by {
                        if j < i {
                            let q = choose|q: int| 0 <= q < string_views(before).len() && #[trigger] string_views(before)[q] == subs@[j].id@;
                            assert(string_views(inactive@)[q] == subs@[j].id@);
                        } else {
                            assert(string_views(inactive@)[before.len() as int] == subs@[j].id@);
                        }
                    }
                }
            }
            i = i + 1;
        }
        let ghost items0 = subs@;
        let ghost names = string_views(inactive@);
        let mut j: usize = 0;
        while j < inactive.len()
            invariant
                j <= inactive.len(),
                names == string_views(inactive@),
                self.subscriptions.wf(),
                forall|k: int| 0 <= k < inactive@.len() ==> m0.contains_key(#[trigger] inactive@[k]@) && !m0[inactive@[k]@].active,
                self.subscriptions.map_view() == Map::new(
                    |k: Seq<char>| m0.contains_key(k) && !names.take(j as int).contains(k),
                    |k: Seq<char>| m0[k],
                ),
                self.client_subscriptions == old(self).client_subscriptions,
                self.notification_channels == old(self).notification_channels,
                self.retry_queue == old(self).retry_queue,
                self.max_retries == old(self).max_retries,
            decreases inactive.len() - j,
        {
            let ghost prev = self.subscriptions.map_view();
            self.subscriptions.remove(inactive[j].as_str());
            proof {
                let t = names.take(j + 1);
                assert(t =~= names.take(j as int).push(names[j as int]));
                assert(self.subscriptions.map_view() =~= Map::new(
                    |k: Seq<char>| m0.contains_key(k) && !names.take(j + 1).contains(k),
                    |k: Seq<char>| m0[k],
                )) by {
                    assert forall|k: Seq<char>| #[trigger] names.take(j + 1).contains(k) == (names.take(j as int).contains(k)
                        || k == names[j as int]) by {
                        if names.take(j + 1).contains(k) {
                            let q = choose|q: int| 0 <= q < j + 1 && #[trigger] names.take(j + 1)[q] == k;
                            if q < j {
                                assert(names.take(j as int)[q] == k);
                            }
                        }
                        if names.take(j as int).contains(k) {
                            let q = choose|q: int| 0 <= q < j && #[trigger] names.take(j as int)[q] == k;
                            assert(names.take(j + 1)[q] == k);
                        }
                        if k == names[j as int] {
                            assert(names.take(j + 1)[j as int] == k);
                        }
                    }
                }
            }
            j = j + 1;
        }
        proof {
            assert(names.take(inactive@.len() as int) =~= names);
            assert(self.subscription_map() =~= active_only(m0)) by {
                assert forall|k: Seq<char>| #[trigger] m0.contains_key(k) implies (names.contains(k) <==> !m0[k].active) by {
                    if names.contains(k) {
                        let q = choose|q: int| 0 <= q < names.len() && #[trigger] names[q] == k;
                        assert(inactive@[q]@ == k);
                    }
                    if !m0[k].active {
                        old(self).subscriptions.lemma_map_in_items(k);
                        let q = choose|q: int| 0 <= q < items0.len() && (#[trigger] items0[q]).key_view() == k && m0[k] == items0[q];
                        assert(!items0[q].active);
                    }
                }
            }
        }
        let after_count = self.subscriptions.len();
        proof {
            vstd::set_lib::lemma_len_subset(self.subscription_map().dom(), m0.dom());
        }
        let removed = before_count - after_count;
        self.prune_client_records();
        Ok(removed)
    }

    /// Keep in each client's record only the ids still stored; drop the
    /// records left empty.
    fn prune_client_records(&mut self)
        requires
            old(self).wf(),
        ensures
            final(self).wf(),
            final(self).client_map() == pruned_clients(old(self).client_map(), old(self).subscription_map()),
            final(self).subscriptions == old(self).subscriptions,
            final(self).notification_channels == old(self).notification_channels,
            final(self).retry_queue == old(self).retry_queue,
            final(self).max_retries == old(self).max_retries,
    {
        let ghost sm = self.subscription_map();
        let ghost cm = self.client_map();
        let mut kept: Table<ClientSubscriptions> = Table::new();
        let records = self.client_subscriptions.as_slice();
        let mut i: usize = 0;
        while i < records.len()
            invariant
                i <= records.len(),
                records@ == self.client_subscriptions.item_seq(),
                self.client_subscriptions.wf(),
                self.subscriptions.wf(),
                sm == self.subscription_map(),
                cm == self.client_map(),
                kept.wf(),
                kept.map_view().map_values(|c: ClientSubscriptions| listed_ids(c)) == Map::new(
                    |c: Seq<char>| seen_client(records@, i as int, c) && cm.contains_key(c) && still_stored(cm[c], sm).len() > 0,
                    |c: Seq<char>| still_stored(cm[c], sm),
                ),
            decreases records.len() - i,
        {
            let record = &records[i];
            proof {
                self.client_subscriptions.lemma_items_in_map(i as int);
            }
            let ids = &record.subscription_ids;
            let ghost idv = string_views(ids@);
            let ghost p = |id: Seq<char>| sm.contains_key(id);
            let mut left: Vec<String> = Vec::new();
            let mut k: usize = 0;
            while k < ids.len()
                invariant
                    k <= ids.len(),
                    idv == string_views(ids@),
                    self.subscriptions.wf(),
                    sm == self.subscription_map(),
                    p == (|id: Seq<char>| sm.contains_key(id)),
                    string_views(left@) == idv.take(k as int).filter(p),
                decreases ids.len() - k,
            {
                proof {
                    lemma_filter_take_step(idv, k as int, p);
                }
                if self.subscriptions.get(ids[k].as_str()).is_some() {
                    let ghost before = left@;
                    left.push(ids[k].clone());
                    proof {
                        assert(string_views(left@) =~= string_views(before).push(ids@[k as int]@));
                    }
                }
                k = k + 1;
            }
            proof {
                assert(idv.take(ids.len() as int) =~= idv);
                assert(cm.contains_key(record.client_id@));
                assert(cm[record.client_id@] == idv);
                assert(still_stored(idv, sm) == idv.filter(p));
                assert(string_views(left@).len() == left@.len());
            }
            let ghost prev = kept.map_view();
            let ghost c0 = record.client_id@;
            let ghost left_view = string_views(left@);
            let ghost target = Map::new(
                |c: Seq<char>| seen_client(records@, i + 1, c) && cm.contains_key(c) && still_stored(cm[c], sm).len() > 0,
                |c: Seq<char>| still_stored(cm[c], sm),
            );
            proof {
                assert(records@[i as int].client_id@ == c0);
                assert forall|c: Seq<char>| #[trigger] seen_client(records@, i + 1, c) == (seen_client(records@, i as int, c)
                    || c == c0) by {
                    if c == c0 {
                        assert(records@[i as int].client_id@ == c);
                    }
                    if seen_client(records@, i + 1, c) && c != c0 {
                        let q = choose|q: int| 0 <= q < i + 1 && (#[trigger] records@[q]).client_id@ == c;
                        assert(q < i);
                    }
                }
            }
            if left.len() > 0 {
                let rec = ClientSubscriptions { client_id: record.client_id.clone(), subscription_ids: left };
                proof {
                    assert(listed_ids(rec) == left_view);
                }
                kept.insert(rec);
                proof {
                    assert(left_view == still_stored(cm[c0], sm));
                    assert(kept.map_view() == prev.insert(c0, rec));
                    let mv = kept.map_view().map_values(|c: ClientSubscriptions| listed_ids(c));
                    let pv = prev.map_values(|c: ClientSubscriptions| listed_ids(c));
                    assert forall|c: Seq<char>| #[trigger] mv.contains_key(c) == target.contains_key(c) by {
                        if c != c0 {
                            assert(mv.contains_key(c) == pv.contains_key(c));
                        }
                    }
                    assert forall|c: Seq<char>| #[trigger] mv.contains_key(c) implies mv[c] == target[c] by {
                        if c != c0 {
                            assert(mv[c] == pv[c]);
                        }
                    }
                    assert(mv =~= target);
                }
            } else {
                proof {
                    assert(kept.map_view().map_values(|c: ClientSubscriptions| listed_ids(c)) =~= target);
                }
            }
            i = i + 1;
        }
        proof {
            assert(kept.map_view().map_values(|c: ClientSubscriptions| listed_ids(c)) =~= pruned_clients(cm, sm)) by {
                assert forall|c: Seq<char>| #[trigger] cm.contains_key(c) implies seen_client(records@, records@.len() as int, c) by {
                    self.client_subscriptions.lemma_map_in_items(c);
                }
            }
        }
        self.client_subscriptions = kept;
    }
}


impl<S> PushNotificationService<S> {
    /// The order events visit the subscriptions in lists each stored
    /// subscription exactly under its id, and every stored one appears.
    pub proof fn lemma_order_matches_map(&self)
        requires
            self.wf(),
        ensures
            forall|i: int|
                0 <= i < self.subscription_order().len() ==> self.subscription_map().contains_key(
                    (#[trigger] self.subscription_order()[i]).id@,
                ) && self.subscription_map()[self.subscription_order()[i].id@] == self.subscription_order()[i],
            forall|k: Seq<char>|
                #[trigger] self.subscription_map().contains_key(k) ==> exists|i: int|
                    0 <= i < self.subscription_order().len() && (#[trigger] self.subscription_order()[i]).id@ == k,
    {
        assert forall|i: int| 0 <= i < self.subscription_order().len() implies self.subscription_map().contains_key(
            (#[trigger] self.subscription_order()[i]).id@,
        ) && self.subscription_map()[self.subscription_order()[i].id@] == self.subscription_order()[i] by {
            self.subscriptions.lemma_items_in_map(i);
        }
        assert forall|k: Seq<char>| #[trigger] self.subscription_map().contains_key(k) implies exists|i: int|
            0 <= i < self.subscription_order().len() && (#[trigger] self.subscription_order()[i]).id@ == k by {
            self.subscriptions.lemma_map_in_items(k);
        }
    }
}

/// After cleanup no client record is empty, and every id a record lists
/// names a stored subscription.
pub proof fn lemma_pruned_records_point_to_stored(
    cm: Map<Seq<char>, Seq<Seq<char>>>,
    subs: Map<Seq<char>, Subscription>,
    client: Seq<char>,
)
    requires
        pruned_clients(cm, subs).contains_key(client),
    ensures
        pruned_clients(cm, subs)[client].len() > 0,
        forall|j: int|
            0 <= j < pruned_clients(cm, subs)[client].len() ==> subs.contains_key(
                #[trigger] pruned_clients(cm, subs)[client][j],
            ),
{
    let p = |id: Seq<char>| subs.contains_key(id);
    assert forall|j: int| 0 <= j < pruned_clients(cm, subs)[client].len() implies subs.contains_key(
        #[trigger] pruned_clients(cm, subs)[client][j],
    ) by {
        cm[client].lemma_filter_pred(p, j);
    }
}

/// Handing a notification back never puts one in the queue that has been
/// retried more often than the limit.
pub proof fn lemma_requeued_within_limit(q: Seq<PushNotification>, n: PushNotification, max_retries: u32)
    requires
        forall|j: int| 0 <= j < q.len() ==> (#[trigger] q[j]).retry_count <= max_retries,
    ensures
        forall|j: int|
            0 <= j < requeued(q, n, max_retries).len() ==> (#[trigger] requeued(q, n, max_retries)[j]).retry_count
                <= max_retries,
{
}

} // verus!
