//! The rules of one connection: what each decoded command leads to on the
//! inbound side, and what each message becomes on the wire on the outbound
//! side.
//!
//! The two halves of a connection read from the transport and write to it;
//! between the reads and the writes they decide nothing that is not stated
//! here. The module also holds the handle by which the coordinator reaches
//! a connection: the sending end of a bounded queue that is never waited
//! on, and the task that is cancelled when the handle goes.

use crate::telnet::Item;
use crate::ClientId;
use tokio::sync::mpsc::Sender;
use tokio::task::JoinError;
use tokio::task::JoinHandle;
use vstd::prelude::*;
use vstd::string::StrSliceExecFns;
use vstd::string::StringExecFns;
use vstd::string::StringSliceAdditionalSpecFns;

verus! {

/// What the coordinator sends to a connection.
#[derive(Clone, Debug, PartialEq, Eq)]
pub enum FromDelivery<B> {
    /// Bytes to put on the wire as one line.
    Message(Vec<u8>),
    /// The key packages that a fetch found, each with the identifier it was
    /// published under.
    SendKeyPackages(Vec<(ClientId, B)>),
}

/// A [`FromDelivery`] in the contracts.
pub enum FromDeliveryView<B> {
    Message(Seq<u8>),
    SendKeyPackages(Seq<(ClientId, B)>),
}

impl<B> View for FromDelivery<B> {
    type V = FromDeliveryView<B>;

    open spec fn view(&self) -> FromDeliveryView<B> {
        match *self {
            FromDelivery::Message(bytes) => FromDeliveryView::Message(bytes@),
            FromDelivery::SendKeyPackages(found) => FromDeliveryView::SendKeyPackages(found@),
        }
    }
}

/// `tokio::sync::mpsc::Sender`, the sending end of a bounded queue; opaque
/// to the verifier.
#[verifier::external_type_specification]
#[verifier::external_body]
#[verifier::reject_recursive_types(T)]
pub struct ExSender<T>(Sender<T>);

/// `tokio::task::JoinHandle`, the hold on a spawned task; opaque to the
/// verifier.
#[verifier::external_type_specification]
#[verifier::external_body]
#[verifier::reject_recursive_types(T)]
pub struct ExJoinHandle<T>(JoinHandle<T>);

/// `tokio::task::JoinError`, with which a cancelled task ends; it belongs
/// to the task handle's type and is never looked at here.
#[verifier::external_type_specification]
#[verifier::external_body]
pub struct ExJoinError(JoinError);

/// `Sender::try_send`: puts the message into the queue if there is room
/// and the receiver lives, and never waits. Whether it did depends on the
/// receiver, so nothing is promised of the answer.
#[verifier::external_body]
fn try_send<T>(chan: &Sender<T>, message: T) -> (sent: Result<(), ()>) {
    match chan.try_send(message) {
        Ok(()) => Ok(()),
        Err(_) => Err(()),
    }
}

/// `JoinHandle::abort`: asks the runtime to cancel the task. It returns at
/// once and does not panic.
#[verifier::external_body]
fn abort(task: &JoinHandle<()>)
    opens_invariants none
    no_unwind
{
    task.abort()
}

/// A delivery that did not arrive: the recipient cannot keep up or is gone.
#[derive(Copy, Clone, Debug, PartialEq, Eq, Structural)]
pub struct Undelivered {
    pub to: ClientId,
}

impl Undelivered {
    /// The failure in words.
    pub fn to_text(&self) -> (text: String)
        ensures
            text@ == "Can't keep up or dead"@,
    {
        String::from_str("Can't keep up or dead")
    }
}

/// What a delivery to `to` came to, given what the queue answered.
pub fn delivery_outcome(to: ClientId, sent: Result<(), ()>) -> (res: Result<(), Undelivered>)
    ensures
        res == (match sent {
            Ok(()) => Ok::<(), Undelivered>(()),
            Err(()) => Err::<(), Undelivered>(Undelivered { to }),
        }),
{
    match sent {
        Ok(()) => Ok(()),
        Err(()) => Err(Undelivered { to }),
    }
}

/// The coordinator's hold on one connection: its identifier, the sending
/// end of its outbound queue, and the task that serves it. The task is
/// cancelled when the handle is dropped.
#[derive(Debug)]
#[verifier::reject_recursive_types(B)]
pub struct ClientHandle<B> {
    pub id: ClientId,
    chan: Sender<FromDelivery<B>>,
    kill: JoinHandle<()>,
}

impl<B> ClientHandle<B> {
    /// The connection that the handle is for.
    pub closed spec fn connection(&self) -> ClientId {
        self.id
    }

    /// The connection that the handle is for.
    pub fn connection_id(&self) -> (id: ClientId)
        ensures
            id == self.connection(),
    {
        self.id
    }

    /// The sending end of the connection's outbound queue.
    pub closed spec fn queue(&self) -> Sender<FromDelivery<B>> {
        self.chan
    }

    /// The task that serves the connection.
    pub closed spec fn task(&self) -> JoinHandle<()> {
        self.kill
    }

    /// The handle of connection `id`, whose queue is fed through `chan` and
    /// whose task is `kill`.
    pub fn new(id: ClientId, chan: Sender<FromDelivery<B>>, kill: JoinHandle<()>) -> (handle: Self)
        ensures
            handle.connection() == id,
            handle.queue() == chan,
            handle.task() == kill,
    {
        ClientHandle { id, chan, kill }
    }

    /// Tries to queue `msg` for the connection, without waiting. Fails when
    /// the queue is full or the connection is gone; the handle is the same
    /// after either.
    pub fn send(&mut self, msg: FromDelivery<B>) -> (res: Result<(), Undelivered>)
        ensures
            *final(self) == *old(self),
            res matches Err(e) ==> e.to == old(self).connection(),
    {
        self.attempt(msg)
    }

    /// [`ClientHandle::send`] through a shared borrow.
    pub(crate) fn attempt(&self, msg: FromDelivery<B>) -> (res: Result<(), Undelivered>)
        ensures
            res matches Err(e) ==> e.to == self.connection(),
    {
        delivery_outcome(self.id, try_send(&self.chan, msg))
    }

    /// Kill the actor: the handle is dropped, and its task with it.
    pub fn kill(self) {
    }
}

impl<B> Drop for ClientHandle<B> {
    fn drop(&mut self)
        opens_invariants none
        no_unwind
    {
        abort(&self.kill)
    }
}

/// The option that asks the peer to suppress go-ahead.
pub const SUPPRESS_GO_AHEAD: u8 = 3;

/// What the inbound half asks the outbound half to send.
#[derive(Copy, Clone, Debug, PartialEq, Eq, Structural)]
pub enum InternalMsg {
    GotAreYouThere,
    SendDont(u8),
    SendWont(u8),
    SendDo(u8),
}

/// What the inbound half does with one decoded command.
#[derive(Clone, Debug, PartialEq, Eq)]
pub enum ReadAction {
    /// Queue a reply for the outbound half.
    Reply(InternalMsg),
    /// Nothing.
    Ignore,
    /// End the inbound half in good order.
    Close,
    /// Tell the coordinator of a chat line from this connection.
    Forward(ClientId, Vec<u8>),
    /// Show the notes on key packages. The connection's peers see nothing
    /// of it.
    ShowDetails,
    /// Have the engine make a key package in the name of this connection,
    /// and publish it.
    Publish(ClientId),
    /// Ask the coordinator, for this connection, for a key package of each
    /// of the listed connections.
    Fetch(ClientId, Vec<ClientId>),
    /// The command cannot be served: the connection ends with an error.
    Reject(Item),
}

/// The connection that an entry of a create-group line names: the digit's
/// value, and connection 0 for a byte that is no decimal digit, the space
/// that stands for an empty token among them.
pub open spec fn participant(byte: u8) -> ClientId {
    if 48 <= byte <= 57 {
        ClientId((byte - 48) as usize)
    } else {
        ClientId(0)
    }
}

/// The connection that a byte of a create-group line names.
pub fn participant_id(byte: u8) -> (id: ClientId)
    ensures
        id == participant(byte),
{
    if 48 <= byte && byte <= 57 {
        ClientId((byte - 48) as usize)
    } else {
        ClientId(0)
    }
}

/// The connections that the bytes of a create-group line name, in order.
pub fn participant_ids(bytes: &Vec<u8>) -> (ids: Vec<ClientId>)
    ensures
        ids@ == bytes@.map_values(|b: u8| participant(b)),
{
    let mut ids: Vec<ClientId> = Vec::new();
    let mut i: usize = 0;
    while i < bytes.len()
        invariant
            i <= bytes.len(),
            ids@ == bytes@.take(i as int).map_values(|b: u8| participant(b)),
        decreases bytes.len() - i,
    {
        ids.push(participant_id(bytes[i]));
        assert(ids@ =~= bytes@.take(i + 1).map_values(|b: u8| participant(b)));
        i += 1;
    }
    assert(bytes@.take(bytes.len() as int) =~= bytes@);
    ids
}

/// Decides what the connection `id` does with `item`.
///
/// A chat line goes to the coordinator under the connection's identifier.
/// The three embedded commands lead to a publication, a fetch and the
/// notes. Of the control commands, are-you-there is answered, `WILL` for
/// suppress-go-ahead is met with `DO`, any other `WILL` with `DONT`, any
/// `DO` with `WONT`; go-ahead is ignored, interrupt-process ends the
/// inbound half, and the others are rejected.
pub fn on_item(id: ClientId, item: Item) -> (action: ReadAction)
    ensures
        match item {
            Item::AreYouThere => action == ReadAction::Reply(InternalMsg::GotAreYouThere),
            Item::GoAhead => action == ReadAction::Ignore,
            Item::InterruptProcess => action == ReadAction::Close,
            Item::Will(option) => action == ReadAction::Reply(
                if option == SUPPRESS_GO_AHEAD {
                    InternalMsg::SendDo(option)
                } else {
                    InternalMsg::SendDont(option)
                },
            ),
            Item::Do(option) => action == ReadAction::Reply(InternalMsg::SendWont(option)),
            Item::Line(line) => action == ReadAction::Forward(id, line),
            Item::ShowKPDetails => action == ReadAction::ShowDetails,
            Item::PublishKeyPackage => action == ReadAction::Publish(id),
            Item::CreateGroup(bytes) => action matches ReadAction::Fetch(from, ids) && from == id
                && ids@ == bytes@.map_values(|b: u8| participant(b)),
            Item::SE | Item::DataMark | Item::Break | Item::AbortOutput | Item::SB | Item::Wont(
                _,
            ) | Item::Dont(_) => action == ReadAction::Reject(item),
        },
{
    match item {
        Item::AreYouThere => ReadAction::Reply(InternalMsg::GotAreYouThere),
        Item::GoAhead => ReadAction::Ignore,
        Item::InterruptProcess => ReadAction::Close,
        Item::Will(option) => {
            if option == SUPPRESS_GO_AHEAD {
                ReadAction::Reply(InternalMsg::SendDo(option))
            } else {
                ReadAction::Reply(InternalMsg::SendDont(option))
            }
        },
        Item::Do(option) => ReadAction::Reply(InternalMsg::SendWont(option)),
        Item::Line(line) => ReadAction::Forward(id, line),
        Item::ShowKPDetails => ReadAction::ShowDetails,
        Item::PublishKeyPackage => ReadAction::Publish(id),
        Item::CreateGroup(bytes) => ReadAction::Fetch(id, participant_ids(&bytes)),
        other => ReadAction::Reject(other),
    }
}

/// The bytes that answer are-you-there.
pub open spec fn are_you_there_answer() -> Seq<u8> {
    "Yes.\r\n".spec_bytes()
}

/// The bytes of a reply on the wire: the answer to are-you-there, or the
/// marker, the verb and the option.
pub open spec fn reply_wire(msg: InternalMsg) -> Seq<u8> {
    match msg {
        InternalMsg::GotAreYouThere => are_you_there_answer(),
        InternalMsg::SendDont(option) => seq![255u8, 254u8, option],
        InternalMsg::SendWont(option) => seq![255u8, 252u8, option],
        InternalMsg::SendDo(option) => seq![255u8, 253u8, option],
    }
}

/// The bytes that the outbound half writes for a reply.
pub fn reply_bytes(msg: InternalMsg) -> (bytes: Vec<u8>)
    ensures
        bytes@ == reply_wire(msg),
{
    match msg {
        InternalMsg::GotAreYouThere => "Yes.\r\n".as_bytes_vec(),
        InternalMsg::SendDont(option) => triple(254, option),
        InternalMsg::SendWont(option) => triple(252, option),
        InternalMsg::SendDo(option) => triple(253, option),
    }
}

/// A control sequence of three bytes.
fn triple(verb: u8, option: u8) -> (bytes: Vec<u8>)
    ensures
        bytes@ == seq![255u8, verb, option],
{
    let mut bytes: Vec<u8> = Vec::new();
    bytes.push(255);
    bytes.push(verb);
    bytes.push(option);
    assert(bytes@ =~= seq![255u8, verb, option]);
    bytes
}

/// A line on the wire: its bytes as they are, then carriage return and
/// line feed.
pub open spec fn line_wire(payload: Seq<u8>) -> Seq<u8> {
    payload + seq![13u8, 10u8]
}

/// The bytes that the outbound half writes for a message from the
/// coordinator: a line for a chat message, and nothing for key packages,
/// which the connection takes in and does not pass on as bytes.
pub fn delivery_bytes<B>(msg: &FromDelivery<B>) -> (res: Option<Vec<u8>>)
    ensures
        match *msg {
            FromDelivery::Message(payload) => res matches Some(bytes) && bytes@ == line_wire(
                payload@,
            ),
            FromDelivery::SendKeyPackages(_) => res is None,
        },
{
    match msg {
        FromDelivery::Message(payload) => {
            let mut bytes: Vec<u8> = payload.clone();
            bytes.push(13);
            bytes.push(10);
            assert(bytes@ =~= line_wire(payload@));
            Some(bytes)
        },
        FromDelivery::SendKeyPackages(_) => None,
    }
}

} // verus!
