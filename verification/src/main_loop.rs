//! The coordinator: the one owner of the connection registry and of the
//! key-package directory.
//!
//! The coordinator takes one message at a time. For each it changes its
//! state, decides which deliveries follow, and attempts them one by one
//! through the handles of the registry. A delivery never waits, and one
//! that fails holds up none of the others.

use crate::client::ClientHandle;
use crate::client::FromDelivery;
use crate::client::FromDeliveryView;
use crate::client::ReadAction;
use crate::client::Undelivered;
use crate::directory::fetched;
use crate::directory::published;
use crate::directory::shelf;
use crate::directory::KeyPackageDirectory;
use crate::ClientId;
use vstd::prelude::*;
use vstd::string::StrSliceExecFns;
use vstd::string::StringSliceAdditionalSpecFns;

verus! {

/// One delivery that the coordinator decides on: `msg`, to the connection
/// `to`.
#[derive(Clone, Debug, PartialEq, Eq)]
pub struct Delivery<B> {
    pub to: ClientId,
    pub msg: FromDelivery<B>,
}

impl<B> View for Delivery<B> {
    type V = (ClientId, FromDeliveryView<B>);

    open spec fn view(&self) -> (ClientId, FromDeliveryView<B>) {
        (self.to, self.msg@)
    }
}

/// The deliveries of a list, each by its view, in order.
pub open spec fn deliveries<B>(out: Seq<Delivery<B>>) -> Seq<(ClientId, FromDeliveryView<B>)> {
    out.map_values(|d: Delivery<B>| d@)
}

/// What the coordinator is told.
#[verifier::reject_recursive_types(B)]
pub enum ToDelivery<B, E> {
    /// A connection was accepted: the handle through which it is reached.
    NewClient(ClientHandle<B>),
    /// A chat line from a connection.
    Message(ClientId, Vec<u8>),
    /// A key package that a connection publishes.
    KeyPackage(ClientId, B),
    /// A connection asks for one key package of each of the listed
    /// connections.
    FetchKeyPackage(ClientId, Vec<ClientId>),
    /// The accept path failed. Nothing can be served any more.
    FatalError(E),
}

/// The message that the inbound half of a connection sends to the
/// coordinator for `action`, if it sends one at once: a chat line for a
/// line to forward, a fetch for a group to create. A publication sends its
/// message once the engine has made the key package (see [`publication`]);
/// no other action sends anything.
pub open spec fn message_of<B, E>(action: ReadAction) -> Option<ToDelivery<B, E>> {
    match action {
        ReadAction::Forward(from, line) => Some(ToDelivery::Message(from, line)),
        ReadAction::Fetch(from, ids) => Some(ToDelivery::FetchKeyPackage(from, ids)),
        _ => None,
    }
}

/// Makes the message that the inbound half sends at once for `action`, if
/// there is one.
pub fn request<B, E>(action: ReadAction) -> (msg: Option<ToDelivery<B, E>>)
    ensures
        msg == message_of::<B, E>(action),
{
    match action {
        ReadAction::Forward(from, line) => Some(ToDelivery::Message(from, line)),
        ReadAction::Fetch(from, ids) => Some(ToDelivery::FetchKeyPackage(from, ids)),
        _ => None,
    }
}

/// Makes the message by which connection `from` publishes `bundle`.
pub fn publication<B, E>(from: ClientId, bundle: B) -> (msg: ToDelivery<B, E>)
    ensures
        msg == ToDelivery::<B, E>::KeyPackage(from, bundle),
{
    ToDelivery::KeyPackage(from, bundle)
}

/// No connection can end the coordinator's loop. Whatever a connection
/// reads, what its inbound half sends for it is a chat line, a fetch or a
/// key package, each under the connection's own identifier as the action
/// holds it; it is never a fatal error, which alone ends the loop, nor a
/// registration. An action that ends the inbound half, in good order or
/// with an error, sends nothing.
pub proof fn lemma_connection_cannot_end_the_loop<B, E>(
    action: ReadAction,
    from: ClientId,
    bundle: B,
)
    ensures
        match message_of::<B, E>(action) {
            Some(msg) => !(msg is FatalError) && !(msg is NewClient),
            None => true,
        },
        action is Close || action is Reject ==> message_of::<B, E>(action) is None,
        !(ToDelivery::<B, E>::KeyPackage(from, bundle) is FatalError),
        !(ToDelivery::<B, E>::KeyPackage(from, bundle) is NewClient),
{
}

/// The line that greets a new connection.
pub open spec fn prompt() -> Seq<u8> {
    "Please provide the otp!".spec_bytes()
}

/// The line that confirms a stored key package.
pub open spec fn acknowledgement() -> Seq<u8> {
    "Key package stored.".spec_bytes()
}

/// The identifiers of a list of handles, in order.
pub open spec fn ids_of<B>(entries: Seq<ClientHandle<B>>) -> Seq<ClientId> {
    entries.map_values(|h: ClientHandle<B>| h.connection())
}

/// The registry after `handle` has been registered: a new entry behind the
/// others, or, where its connection was registered already, the new handle
/// in the place of the old one.
pub open spec fn registered<B>(entries: Seq<ClientHandle<B>>, handle: ClientHandle<B>) -> Seq<
    ClientHandle<B>,
> {
    if ids_of(entries).contains(handle.connection()) {
        entries.update(ids_of(entries).index_of(handle.connection()), handle)
    } else {
        entries.push(handle)
    }
}

/// Where nothing occurs twice, an identifier is found at the one place
/// where it stands.
pub proof fn lemma_place_of(ids: Seq<ClientId>, id: ClientId, i: int)
    requires
        ids.no_duplicates(),
        0 <= i < ids.len(),
        ids[i] == id,
    ensures
        ids.contains(id),
        ids.index_of(id) == i,
{
    let k = ids.index_of(id);
    assert(0 <= k < ids.len() && ids[k] == id);
}

/// The test that lets a chat line go to a connection: it is not the one the
/// line came from.
pub open spec fn not_sender(from: ClientId) -> spec_fn(ClientId) -> bool {
    |id: ClientId| id != from
}

/// The deliveries of a chat line from `from`: the line, once to each
/// registered connection but `from`, in the order of registration.
pub open spec fn relay_plan<B>(ids: Seq<ClientId>, from: ClientId, payload: Seq<u8>) -> Seq<
    (ClientId, FromDeliveryView<B>),
> {
    ids.filter(not_sender(from)).map_values(
        |id: ClientId| (id, FromDeliveryView::<B>::Message(payload)),
    )
}

/// The registry after `msg`: a new connection is registered, and nothing
/// else changes it.
pub open spec fn entries_after<B, E>(entries: Seq<ClientHandle<B>>, msg: ToDelivery<B, E>) -> Seq<
    ClientHandle<B>,
> {
    match msg {
        ToDelivery::NewClient(handle) => registered(entries, handle),
        _ => entries,
    }
}

/// The directory after `msg`: a published key package is stored, a fetch
/// takes out what it finds, and nothing else changes it.
pub open spec fn directory_after<B, E>(dir: Map<ClientId, Seq<B>>, msg: ToDelivery<B, E>) -> Map<
    ClientId,
    Seq<B>,
> {
    match msg {
        ToDelivery::KeyPackage(from, bundle) => published(dir, from, bundle),
        ToDelivery::FetchKeyPackage(_, ids) => fetched(dir, ids@).0,
        _ => dir,
    }
}

/// The deliveries that `msg` leads to, in order: the prompt to a new
/// connection; a chat line to every registered connection but its sender;
/// the acknowledgement to the publisher of a key package; what a fetch
/// found, to the requester. A fatal error leads to none.
pub open spec fn planned<B, E>(
    entries: Seq<ClientHandle<B>>,
    dir: Map<ClientId, Seq<B>>,
    msg: ToDelivery<B, E>,
) -> Seq<(ClientId, FromDeliveryView<B>)> {
    match msg {
        ToDelivery::NewClient(handle) => seq![
            (handle.connection(), FromDeliveryView::Message(prompt())),
        ],
        ToDelivery::Message(from, payload) => relay_plan(ids_of(entries), from, payload@),
        ToDelivery::KeyPackage(from, _) => seq![
            (from, FromDeliveryView::Message(acknowledgement())),
        ],
        ToDelivery::FetchKeyPackage(from, ids) => seq![
            (from, FromDeliveryView::SendKeyPackages(fetched(dir, ids@).1)),
        ],
        ToDelivery::FatalError(_) => Seq::empty(),
    }
}

/// The items of a list in reverse order.
fn reversed<T>(items: Vec<T>) -> (res: Vec<T>)
    ensures
        res@ == items@.reverse(),
{
    let ghost all = items@;
    let mut items = items;
    let mut res: Vec<T> = Vec::new();
    while items.len() > 0
        invariant
            items@.len() + res@.len() == all.len(),
            items@ == all.take(items@.len() as int),
            res@ == all.reverse().take(res@.len() as int),
        decreases items@.len(),
    {
        let ghost k = items@.len();
        let item = items.pop().unwrap();
        res.push(item);
        assert(items@ =~= all.take(k - 1));
        assert(res@ =~= all.reverse().take(res@.len() as int));
    }
    assert(res@ =~= all.reverse());
    res
}

/// The state of the coordinator. `B` is a key-package bundle.
#[verifier::reject_recursive_types(B)]
pub struct Coordinator<B> {
    clients: Vec<ClientHandle<B>>,
    directory: KeyPackageDirectory<B>,
}

impl<B> Coordinator<B> {
    /// The registry: the handles of the registered connections, in the
    /// order of registration.
    pub closed spec fn entries(&self) -> Seq<ClientHandle<B>> {
        self.clients@
    }

    /// The registered identifiers, in the order of registration.
    pub open spec fn registry(&self) -> Seq<ClientId> {
        ids_of(self.entries())
    }

    /// The directory: the bundles that wait under each identifier.
    pub closed spec fn directory(&self) -> Map<ClientId, Seq<B>> {
        self.directory@
    }

    /// No identifier is registered twice.
    #[verifier::type_invariant]
    closed spec fn inv(&self) -> bool {
        ids_of(self.clients@).no_duplicates()
    }

    /// Tells how many connections are registered. No identifier is
    /// registered twice, in any coordinator.
    pub fn registered_count(&self) -> (n: usize)
        ensures
            n == self.registry().len(),
            self.registry().no_duplicates(),
    {
        proof {
            use_type_invariant(self);
        }
        self.clients.len()
    }

    /// A coordinator that knows no connection and holds no key package.
    pub fn new() -> (c: Self)
        ensures
            c.entries() == Seq::<ClientHandle<B>>::empty(),
            c.directory() == Map::<ClientId, Seq<B>>::empty(),
    {
        Coordinator { clients: Vec::new(), directory: KeyPackageDirectory::new() }
    }

    /// The handle registered for `id`, if there is one.
    pub fn handle(&self, id: ClientId) -> (res: Option<&ClientHandle<B>>)
        ensures
            match res {
                Some(h) => self.registry().contains(id) && *h == self.entries()[self.registry().index_of(
                    id,
                )],
                None => !self.registry().contains(id),
            },
    {
        proof {
            use_type_invariant(self);
        }
        let mut i: usize = 0;
        while i < self.clients.len()
            invariant
                self.inv(),
                i <= self.clients.len(),
                forall|j: int| 0 <= j < i ==> self.registry()[j] != id,
            decreases self.clients.len() - i,
        {
            if self.clients[i].connection_id() == id {
                proof {
                    lemma_place_of(self.registry(), id, i as int);
                }
                return Some(&self.clients[i]);
            }
            i += 1;
        }
        None
    }

    /// How many key packages of `id` wait in the directory.
    pub fn stored(&self, id: ClientId) -> (n: usize)
        ensures
            n == shelf(self.directory(), id).len(),
    {
        self.directory.count(id)
    }

    /// Registers a connection and greets it: the one delivery is the prompt
    /// to the new connection. A handle registered earlier for the same
    /// connection is dropped, and its task with it.
    pub fn register(&mut self, handle: ClientHandle<B>) -> (out: Vec<Delivery<B>>)
        ensures
            final(self).registry().no_duplicates(),
            final(self).entries() == registered(old(self).entries(), handle),
            final(self).directory() == old(self).directory(),
            deliveries(out@) == seq![
                (handle.connection(), FromDeliveryView::<B>::Message(prompt())),
            ],
    {
        proof {
            use_type_invariant(&*self);
        }
        let id = handle.connection_id();
        let ghost before = self.entries();
        let mut clients: Vec<ClientHandle<B>> = Vec::new();
        std::mem::swap(&mut clients, &mut self.clients);
        let mut i: usize = 0;
        let mut found: bool = false;
        while i < clients.len()
            invariant_except_break
                !found,
                forall|j: int| 0 <= j < i ==> ids_of(before)[j] != id,
            invariant
                i <= clients.len(),
                clients@ == before,
            ensures
                found ==> i < clients.len() && ids_of(before)[i as int] == id,
                !found ==> !ids_of(before).contains(id),
            decreases clients.len() - i,
        {
            if clients[i].connection_id() == id {
                found = true;
                break ;
            }
            i += 1;
        }
        if found {
            clients.set(i, handle);
            proof {
                lemma_place_of(ids_of(before), id, i as int);
            }
            assert(ids_of(clients@) =~= ids_of(before));
        } else {
            clients.push(handle);
            assert(ids_of(clients@) =~= ids_of(before).push(id));
        }
        std::mem::swap(&mut clients, &mut self.clients);
        let mut out: Vec<Delivery<B>> = Vec::new();
        out.push(Delivery { to: id, msg: FromDelivery::Message(prompt_bytes()) });
        assert(deliveries(out@) =~= seq![(id, FromDeliveryView::<B>::Message(prompt()))]);
        out
    }

    /// Relays a chat line: one delivery of `payload` to each registered
    /// connection but the sender. The state does not change.
    pub fn relay(&self, from: ClientId, payload: &Vec<u8>) -> (out: Vec<Delivery<B>>)
        ensures
            deliveries(out@) == relay_plan::<B>(self.registry(), from, payload@),
    {
        let ghost ids = self.registry();
        let mut out: Vec<Delivery<B>> = Vec::new();
        let mut i: usize = 0;
        assert(ids.take(0).filter(not_sender(from)) =~= Seq::<ClientId>::empty()) by {
            reveal(Seq::filter);
        }
        assert(deliveries(out@) =~= relay_plan::<B>(ids.take(0), from, payload@));
        while i < self.clients.len()
            invariant
                i <= self.clients.len(),
                ids == self.registry(),
                deliveries(out@) == relay_plan::<B>(ids.take(i as int), from, payload@),
            decreases self.clients.len() - i,
        {
            let to = self.clients[i].connection_id();
            proof {
                assert(ids.take(i + 1).drop_last() =~= ids.take(i as int));
                assert(ids.take(i + 1).last() == to);
                reveal(Seq::filter);
            }
            let ghost earlier = out@;
            if to != from {
                out.push(Delivery { to, msg: FromDelivery::Message(payload.clone()) });
                assert(deliveries(out@) =~= deliveries(earlier).push(
                    (to, FromDeliveryView::<B>::Message(payload@)),
                ));
                assert(deliveries(out@) =~= relay_plan::<B>(ids.take(i + 1), from, payload@));
            }
            i += 1;
        }
        assert(ids.take(self.clients.len() as int) =~= ids);
        out
    }

    /// Stores a key package under the publisher's identifier and confirms
    /// it: the one delivery is the acknowledgement to the publisher.
    pub fn store(&mut self, from: ClientId, bundle: B) -> (out: Vec<Delivery<B>>)
        ensures
            final(self).entries() == old(self).entries(),
            final(self).directory() == published(old(self).directory(), from, bundle),
            deliveries(out@) == seq![(from, FromDeliveryView::<B>::Message(acknowledgement()))],
    {
        proof {
            use_type_invariant(&*self);
        }
        let mut directory: KeyPackageDirectory<B> = KeyPackageDirectory::new();
        std::mem::swap(&mut directory, &mut self.directory);
        directory.publish(from, bundle);
        std::mem::swap(&mut directory, &mut self.directory);
        let mut out: Vec<Delivery<B>> = Vec::new();
        out.push(Delivery { to: from, msg: FromDelivery::Message(acknowledgement_bytes()) });
        assert(deliveries(out@) =~= seq![
            (from, FromDeliveryView::<B>::Message(acknowledgement())),
        ]);
        out
    }

    /// Serves a fetch: takes one key package out of the directory for each
    /// of `ids` that has one. The one delivery goes to the requester and
    /// holds what was found, which may be nothing. What is known of the
    /// request (who asked, for whom, what was found so far) lives for the
    /// length of this call and is gone once the delivery is made up.
    pub fn fetch(&mut self, from: ClientId, ids: &Vec<ClientId>) -> (out: Vec<Delivery<B>>)
        ensures
            final(self).entries() == old(self).entries(),
            final(self).directory() == fetched(old(self).directory(), ids@).0,
            deliveries(out@) == seq![
                (from, FromDeliveryView::SendKeyPackages(fetched(old(self).directory(), ids@).1)),
            ],
    {
        proof {
            use_type_invariant(&*self);
        }
        let mut directory: KeyPackageDirectory<B> = KeyPackageDirectory::new();
        std::mem::swap(&mut directory, &mut self.directory);
        let found = directory.fetch(ids);
        std::mem::swap(&mut directory, &mut self.directory);
        let mut out: Vec<Delivery<B>> = Vec::new();
        out.push(Delivery { to: from, msg: FromDelivery::SendKeyPackages(found) });
        assert(deliveries(out@) =~= seq![
            (from, FromDeliveryView::SendKeyPackages(fetched(old(self).directory(), ids@).1)),
        ]);
        out
    }

    /// Takes in one message: changes the state as the message asks, and
    /// returns the deliveries that it leads to, none of them attempted yet.
    /// A fatal error changes nothing and is handed back as the error; every
    /// other message gives `Ok`.
    pub fn decide<E>(&mut self, msg: ToDelivery<B, E>) -> (res: Result<Vec<Delivery<B>>, E>)
        ensures
            final(self).entries() == entries_after(old(self).entries(), msg),
            final(self).directory() == directory_after(old(self).directory(), msg),
            match msg {
                ToDelivery::FatalError(e) => res matches Err(err) && err == e,
                _ => res matches Ok(out) && deliveries(out@) == planned(
                    old(self).entries(),
                    old(self).directory(),
                    msg,
                ),
            },
    {
        match msg {
            ToDelivery::NewClient(handle) => Ok(self.register(handle)),
            ToDelivery::Message(from, payload) => Ok(self.relay(from, &payload)),
            ToDelivery::KeyPackage(from, bundle) => Ok(self.store(from, bundle)),
            ToDelivery::FetchKeyPackage(from, ids) => Ok(self.fetch(from, &ids)),
            ToDelivery::FatalError(e) => Err(e),
        }
    }

    /// Attempts the deliveries in order, each through the handle of its
    /// recipient, and returns what each came to, in the same order. A
    /// delivery is attempted whatever became of those before it. One to a
    /// connection that is not registered fails.
    pub fn deliver(&self, out: Vec<Delivery<B>>) -> (outcomes: Vec<Result<(), Undelivered>>)
        ensures
            outcomes@.len() == out@.len(),
            forall|i: int|
                0 <= i < out@.len() ==> (#[trigger] outcomes@[i] matches Err(e) ==> e.to
                    == out@[i].to),
            forall|i: int|
                0 <= i < out@.len() && !self.registry().contains(out@[i].to)
                    ==> #[trigger] outcomes@[i] is Err,
    {
        let ghost wanted = out@;
        let mut rest = reversed(out);
        let mut outcomes: Vec<Result<(), Undelivered>> = Vec::new();
        while rest.len() > 0
            invariant
                rest@.len() + outcomes@.len() == wanted.len(),
                rest@ == wanted.reverse().take(rest@.len() as int),
                forall|i: int|
                    0 <= i < outcomes@.len() ==> (#[trigger] outcomes@[i] matches Err(e) ==> e.to
                        == wanted[i].to),
                forall|i: int|
                    0 <= i < outcomes@.len() && !self.registry().contains(wanted[i].to)
                        ==> #[trigger] outcomes@[i] is Err,
            decreases rest@.len(),
        {
            let ghost k = rest@.len();
            let next = rest.pop().unwrap();
            assert(next == wanted[wanted.len() - k]);
            assert(rest@ =~= wanted.reverse().take(k - 1));
            let Delivery { to, msg } = next;
            let outcome = match self.handle(to) {
                Some(handle) => handle.attempt(msg),
                None => Err(Undelivered { to }),
            };
            outcomes.push(outcome);
        }
        outcomes
    }

    /// Takes one message to completion: the state changes and the
    /// deliveries are decided as [`Coordinator::decide`] says, and each
    /// delivery is attempted. The result holds, for each delivery in order,
    /// what it came to; a failed one names its recipient. Only a fatal
    /// error gives `Err`: it is handed back as it came, and the runner ends
    /// its loop on it.
    pub fn step<E>(&mut self, msg: ToDelivery<B, E>) -> (res: Result<
        Vec<Result<(), Undelivered>>,
        E,
    >)
        ensures
            final(self).entries() == entries_after(old(self).entries(), msg),
            final(self).directory() == directory_after(old(self).directory(), msg),
            match msg {
                ToDelivery::FatalError(e) => res matches Err(err) && err == e,
                _ => res matches Ok(outcomes) && outcomes@.len() == planned(
                    old(self).entries(),
                    old(self).directory(),
                    msg,
                ).len() && forall|i: int|
                    0 <= i < outcomes@.len() ==> (#[trigger] outcomes@[i] matches Err(e) ==> e.to
                        == planned(old(self).entries(), old(self).directory(), msg)[i].0),
            },
    {
        match self.decide(msg) {
            Ok(out) => {
                let ghost views = deliveries(out@);
                assert(forall|i: int| 0 <= i < out@.len() ==> (#[trigger] views[i]).0 == out@[i].to);
                Ok(self.deliver(out))
            },
            Err(e) => Err(e),
        }
    }
}

/// Registering keeps every identifier that was registered, in its place,
/// and adds the new one behind them unless it was there already. Where no
/// identifier was registered twice, none is afterwards.
pub proof fn lemma_registered_ids<B>(entries: Seq<ClientHandle<B>>, handle: ClientHandle<B>)
    requires
        ids_of(entries).no_duplicates(),
    ensures
        ids_of(registered(entries, handle)) == (if ids_of(entries).contains(handle.connection()) {
            ids_of(entries)
        } else {
            ids_of(entries).push(handle.connection())
        }),
        ids_of(registered(entries, handle)).no_duplicates(),
        ids_of(registered(entries, handle)).contains(handle.connection()),
{
    let ids = ids_of(entries);
    let id = handle.connection();
    if ids.contains(id) {
        let i = ids.index_of(id);
        assert(0 <= i < ids.len() && ids[i] == id);
        assert(ids_of(registered(entries, handle)) =~= ids);
    } else {
        assert(ids_of(registered(entries, handle)) =~= ids.push(id));
        assert(ids.push(id)[ids.len() as int] == id);
    }
}

/// Leaving items out of a list in which nothing occurs twice gives a list
/// in which nothing occurs twice.
pub proof fn lemma_filter_keeps_distinct(ids: Seq<ClientId>, keep: spec_fn(ClientId) -> bool)
    requires
        ids.no_duplicates(),
    ensures
        ids.filter(keep).no_duplicates(),
    decreases ids.len(),
{
    reveal(Seq::filter);
    if ids.len() > 0 {
        let front = ids.drop_last();
        lemma_filter_keeps_distinct(front, keep);
        if front.filter(keep).contains(ids.last()) {
            front.lemma_filter_contains_rev(keep, ids.last());
            let k = choose|k: int| 0 <= k < front.len() && front[k] == ids.last();
            assert(ids[k] == ids[ids.len() - 1]);
        }
    }
}

/// A relayed line goes to the registered connections other than its
/// sender and to nobody else: never back to the sender, to each of the
/// others, with the payload as it came, and once each where no identifier
/// is registered twice. Nothing in this depends on how any of the
/// deliveries fares.
pub proof fn lemma_relay_spares_sender<B>(ids: Seq<ClientId>, from: ClientId, payload: Seq<u8>)
    ensures
        forall|k: int|
            0 <= k < relay_plan::<B>(ids, from, payload).len() ==> {
                &&& (#[trigger] relay_plan::<B>(ids, from, payload)[k]).0 != from
                &&& ids.contains(relay_plan::<B>(ids, from, payload)[k].0)
                &&& relay_plan::<B>(ids, from, payload)[k].1 == FromDeliveryView::<B>::Message(
                    payload,
                )
            },
        forall|id: ClientId|
            #[trigger] ids.contains(id) && id != from ==> relay_plan::<B>(
                ids,
                from,
                payload,
            ).contains((id, FromDeliveryView::<B>::Message(payload))),
        ids.no_duplicates() ==> relay_plan::<B>(ids, from, payload).no_duplicates(),
{
    let keep = not_sender(from);
    let targets = ids.filter(keep);
    let out = relay_plan::<B>(ids, from, payload);
    broadcast use vstd::seq_lib::group_filter_ensures;

    assert forall|k: int| 0 <= k < out.len() implies {
        &&& (#[trigger] out[k]).0 != from
        &&& ids.contains(out[k].0)
        &&& out[k].1 == FromDeliveryView::<B>::Message(payload)
    } by {
        assert(keep(targets[k]));
        assert(targets.contains(targets[k]));
        ids.lemma_filter_contains_rev(keep, targets[k]);
    }
    assert forall|id: ClientId| #[trigger] ids.contains(id) && id != from implies out.contains(
        (id, FromDeliveryView::<B>::Message(payload)),
    ) by {
        let i = choose|i: int| 0 <= i < ids.len() && ids[i] == id;
        assert(keep(ids[i]));
        assert(targets.contains(ids[i]));
        let k = choose|k: int| 0 <= k < targets.len() && targets[k] == id;
        assert(out[k] == (id, FromDeliveryView::<B>::Message(payload)));
    }
    if ids.no_duplicates() {
        lemma_filter_keeps_distinct(ids, keep);
        assert forall|i: int, j: int| 0 <= i < out.len() && 0 <= j < out.len() && i != j implies out[i]
            != out[j] by {
            assert(out[i].0 == targets[i] && out[j].0 == targets[j]);
        }
    }
}

/// The bytes of the greeting.
pub fn prompt_bytes() -> (bytes: Vec<u8>)
    ensures
        bytes@ == prompt(),
{
    "Please provide the otp!".as_bytes_vec()
}

/// The bytes of the acknowledgement.
pub fn acknowledgement_bytes() -> (bytes: Vec<u8>)
    ensures
        bytes@ == acknowledgement(),
{
    "Key package stored.".as_bytes_vec()
}

} // verus!
