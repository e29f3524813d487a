use openmls_group::client::on_item;
use openmls_group::client::reply_bytes;
use openmls_group::client::ClientHandle;
use openmls_group::client::FromDelivery;
use openmls_group::client::ReadAction;
use openmls_group::client::Undelivered;
use openmls_group::directory::KeyPackageDirectory;
use openmls_group::main_loop::acknowledgement_bytes;
use openmls_group::main_loop::prompt_bytes;
use openmls_group::main_loop::publication;
use openmls_group::main_loop::request;
use openmls_group::main_loop::Coordinator;
use openmls_group::main_loop::Delivery;
use openmls_group::main_loop::ToDelivery;
use openmls_group::telnet::Item;
use openmls_group::telnet::TelnetCodec;
use openmls_group::ClientId;
use tokio::runtime::Runtime;
use tokio::sync::mpsc::channel;
use tokio::sync::mpsc::Receiver;
use tokio::sync::oneshot;
use tokio_util::bytes::BytesMut;

type Bundle = &'static str;

type Hub = Coordinator<Bundle>;

type Msg = ToDelivery<Bundle, String>;

type Inbox = Receiver<FromDelivery<Bundle>>;

fn runtime() -> Runtime {
    tokio::runtime::Builder::new_current_thread().build().unwrap()
}

/// A connection whose task never ends by itself and whose queue has `room`
/// places.
fn connect(rt: &Runtime, id: usize, room: usize) -> (ClientHandle<Bundle>, Inbox) {
    let (tx, rx) = channel(room);
    let task = rt.spawn(std::future::pending::<()>());
    (ClientHandle::new(ClientId(id), tx, task), rx)
}

/// A coordinator with the connections registered in order, and their
/// inboxes, the prompts taken out.
fn hub_with(rt: &Runtime, ids: &[usize]) -> (Hub, Vec<Inbox>) {
    let mut hub = Hub::new();
    let mut inboxes = Vec::new();
    for id in ids {
        let (handle, mut rx) = connect(rt, *id, 8);
        assert_eq!(hub.step(Msg::NewClient(handle)), Ok(vec![Ok(())]));
        assert_eq!(rx.try_recv(), Ok(FromDelivery::Message(prompt_bytes())));
        inboxes.push(rx);
    }
    (hub, inboxes)
}

fn message(to: usize, bytes: &[u8]) -> Delivery<Bundle> {
    Delivery { to: ClientId(to), msg: FromDelivery::Message(bytes.to_vec()) }
}

fn packages(to: usize, found: Vec<(usize, Bundle)>) -> Delivery<Bundle> {
    Delivery { to: ClientId(to), msg: found_packages(found) }
}

fn found_packages(found: Vec<(usize, Bundle)>) -> FromDelivery<Bundle> {
    FromDelivery::SendKeyPackages(found.into_iter().map(|(id, b)| (ClientId(id), b)).collect())
}

fn line(bytes: &[u8]) -> FromDelivery<Bundle> {
    FromDelivery::Message(bytes.to_vec())
}

fn nothing_in(inbox: &mut Inbox) -> bool {
    inbox.try_recv().is_err()
}

#[test]
fn prompt_and_acknowledgement_texts() {
    assert_eq!(prompt_bytes(), b"Please provide the otp!".to_vec());
    assert_eq!(acknowledgement_bytes(), b"Key package stored.".to_vec());
}

#[test]
fn registering_prompts_the_new_connection_only() {
    let rt = runtime();
    let (mut hub, mut inboxes) = hub_with(&rt, &[0, 1]);
    let (handle, mut third) = connect(&rt, 2, 8);
    assert_eq!(hub.register(handle), vec![message(2, b"Please provide the otp!")]);
    assert_eq!(hub.registered_count(), 3);
    assert!(hub.handle(ClientId(2)).is_some());
    assert_eq!(hub.handle(ClientId(2)).unwrap().connection_id(), ClientId(2));
    assert!(hub.handle(ClientId(3)).is_none());
    let (handle, mut fourth) = connect(&rt, 3, 8);
    assert_eq!(hub.step(Msg::NewClient(handle)), Ok(vec![Ok(())]));
    assert_eq!(fourth.try_recv(), Ok(line(b"Please provide the otp!")));
    assert!(nothing_in(&mut fourth));
    assert!(nothing_in(&mut third));
    assert!(nothing_in(&mut inboxes[0]));
    assert!(nothing_in(&mut inboxes[1]));
}

#[test]
fn first_registration_prompts_once() {
    let rt = runtime();
    let mut hub = Hub::new();
    let (handle, mut inbox) = connect(&rt, 7, 8);
    let out = hub.decide(Msg::NewClient(handle));
    assert_eq!(out, Ok(vec![message(7, b"Please provide the otp!")]));
    assert_eq!(hub.deliver(out.unwrap()), vec![Ok(())]);
    assert_eq!(inbox.try_recv(), Ok(line(b"Please provide the otp!")));
    assert!(nothing_in(&mut inbox));
}

#[test]
fn registering_again_replaces_the_handle() {
    let rt = runtime();
    let (mut hub, mut inboxes) = hub_with(&rt, &[0, 1, 2]);
    let (again, mut fresh) = connect(&rt, 1, 8);
    assert_eq!(hub.register(again), vec![message(1, b"Please provide the otp!")]);
    assert_eq!(hub.registered_count(), 3);
    let relayed = hub.relay(ClientId(9), &b"x".to_vec());
    assert_eq!(relayed, vec![message(0, b"x"), message(1, b"x"), message(2, b"x")]);
    assert_eq!(hub.deliver(relayed), vec![Ok(()), Ok(()), Ok(())]);
    assert_eq!(fresh.try_recv(), Ok(line(b"x")));
    assert!(nothing_in(&mut inboxes[1]));
}

#[test]
fn dropping_a_handle_cancels_its_task() {
    let rt = runtime();
    let (tx, _rx) = channel::<FromDelivery<Bundle>>(1);
    let (alive, ended) = oneshot::channel::<()>();
    let task = rt.spawn(async move {
        let _alive = alive;
        std::future::pending::<()>().await
    });
    let handle = ClientHandle::new(ClientId(0), tx, task);
    handle.kill();
    assert!(rt.block_on(ended).is_err());
}

#[test]
fn replaced_handle_is_cancelled() {
    let rt = runtime();
    let mut hub = Hub::new();
    let (tx, _rx) = channel::<FromDelivery<Bundle>>(4);
    let (alive, ended) = oneshot::channel::<()>();
    let task = rt.spawn(async move {
        let _alive = alive;
        std::future::pending::<()>().await
    });
    hub.register(ClientHandle::new(ClientId(5), tx, task));
    let (again, _inbox) = connect(&rt, 5, 4);
    hub.register(again);
    assert!(rt.block_on(ended).is_err());
}

#[test]
fn broadcast_reaches_the_others_and_not_the_sender() {
    let rt = runtime();
    let (mut hub, mut inboxes) = hub_with(&rt, &[10, 11, 12]);
    let out = hub.decide(Msg::Message(ClientId(10), b"hello".to_vec()));
    assert_eq!(out, Ok(vec![message(11, b"hello"), message(12, b"hello")]));
    assert_eq!(hub.step(Msg::Message(ClientId(11), b"hi".to_vec())), Ok(vec![Ok(()), Ok(())]));
    assert_eq!(inboxes[0].try_recv(), Ok(line(b"hi")));
    assert_eq!(inboxes[2].try_recv(), Ok(line(b"hi")));
    assert!(nothing_in(&mut inboxes[1]));
}

#[test]
fn broadcast_goes_on_past_a_full_queue() {
    let rt = runtime();
    let mut hub = Hub::new();
    let (a, mut inbox_a) = connect(&rt, 0, 4);
    let (b, mut inbox_b) = connect(&rt, 1, 1);
    let (c, mut inbox_c) = connect(&rt, 2, 4);
    hub.register(a);
    assert_eq!(hub.step(Msg::NewClient(b)), Ok(vec![Ok(())]));
    hub.register(c);
    let out = hub.step(Msg::Message(ClientId(0), b"payload".to_vec()));
    assert_eq!(out, Ok(vec![Err(Undelivered { to: ClientId(1) }), Ok(())]));
    assert!(nothing_in(&mut inbox_a));
    assert_eq!(inbox_b.try_recv(), Ok(line(b"Please provide the otp!")));
    assert!(nothing_in(&mut inbox_b));
    assert_eq!(inbox_c.try_recv(), Ok(line(b"payload")));
    assert!(nothing_in(&mut inbox_c));
}

#[test]
fn broadcast_goes_on_past_a_gone_connection() {
    let rt = runtime();
    let (mut hub, mut inboxes) = hub_with(&rt, &[0, 1, 2]);
    let gone = inboxes.remove(1);
    drop(gone);
    let out = hub.step(Msg::Message(ClientId(0), b"still".to_vec()));
    assert_eq!(out, Ok(vec![Err(Undelivered { to: ClientId(1) }), Ok(())]));
    assert!(nothing_in(&mut inboxes[0]));
    assert_eq!(inboxes[1].try_recv(), Ok(line(b"still")));
    assert_eq!(hub.registered_count(), 3);
}

#[test]
fn send_reports_the_recipient_that_cannot_keep_up() {
    let rt = runtime();
    let (mut handle, mut inbox) = connect(&rt, 4, 2);
    assert_eq!(handle.send(line(b"one")), Ok(()));
    assert_eq!(handle.send(line(b"two")), Ok(()));
    assert_eq!(handle.send(line(b"three")), Err(Undelivered { to: ClientId(4) }));
    assert_eq!(inbox.try_recv(), Ok(line(b"one")));
    assert_eq!(handle.send(line(b"four")), Ok(()));
    assert_eq!(inbox.try_recv(), Ok(line(b"two")));
    assert_eq!(inbox.try_recv(), Ok(line(b"four")));
    drop(inbox);
    assert_eq!(handle.send(line(b"five")), Err(Undelivered { to: ClientId(4) }));
}

#[test]
fn delivery_to_an_unregistered_connection_fails() {
    let rt = runtime();
    let (hub, mut inboxes) = hub_with(&rt, &[1]);
    let out = hub.deliver(vec![message(9, b"lost"), message(1, b"found")]);
    assert_eq!(out, vec![Err(Undelivered { to: ClientId(9) }), Ok(())]);
    assert_eq!(inboxes[0].try_recv(), Ok(line(b"found")));
}

#[test]
fn broadcast_from_a_stranger_reaches_all() {
    let rt = runtime();
    let (hub, _inboxes) = hub_with(&rt, &[1, 2]);
    assert_eq!(hub.relay(ClientId(5), &vec![]), vec![message(1, b""), message(2, b"")]);
}

#[test]
fn broadcast_with_nobody_else_reaches_nobody() {
    let rt = runtime();
    let (mut hub, mut inboxes) = hub_with(&rt, &[4]);
    assert_eq!(hub.relay(ClientId(4), &b"alone".to_vec()), vec![]);
    assert_eq!(hub.step(Msg::Message(ClientId(4), b"alone".to_vec())), Ok(vec![]));
    assert!(nothing_in(&mut inboxes[0]));
    let empty = Hub::new();
    assert_eq!(empty.relay(ClientId(4), &b"alone".to_vec()), vec![]);
}

#[test]
fn storing_acknowledges_to_the_publisher() {
    let rt = runtime();
    let (mut hub, mut inboxes) = hub_with(&rt, &[0, 1]);
    assert_eq!(hub.step(Msg::KeyPackage(ClientId(1), "kp")), Ok(vec![Ok(())]));
    assert_eq!(inboxes[1].try_recv(), Ok(line(b"Key package stored.")));
    assert!(nothing_in(&mut inboxes[0]));
    assert_eq!(hub.stored(ClientId(1)), 1);
    assert_eq!(hub.stored(ClientId(0)), 0);
    assert_eq!(
        hub.decide(Msg::KeyPackage(ClientId(0), "kp0")),
        Ok(vec![message(0, b"Key package stored.")])
    );
}

#[test]
fn fetch_returns_the_newest_first() {
    let rt = runtime();
    let (mut hub, _inboxes) = hub_with(&rt, &[0, 1]);
    hub.store(ClientId(1), "first");
    hub.store(ClientId(1), "second");
    hub.store(ClientId(1), "third");
    assert_eq!(hub.stored(ClientId(1)), 3);
    assert_eq!(hub.fetch(ClientId(0), &vec![ClientId(1)]), vec![packages(0, vec![(1, "third")])]);
    assert_eq!(hub.fetch(ClientId(0), &vec![ClientId(1)]), vec![packages(0, vec![(1, "second")])]);
    assert_eq!(hub.fetch(ClientId(0), &vec![ClientId(1)]), vec![packages(0, vec![(1, "first")])]);
    assert_eq!(hub.fetch(ClientId(0), &vec![ClientId(1)]), vec![packages(0, vec![])]);
    assert_eq!(hub.fetch(ClientId(0), &vec![ClientId(1)]), vec![packages(0, vec![])]);
    assert_eq!(hub.stored(ClientId(1)), 0);
}

#[test]
fn fetch_is_delivered_to_the_requester_only() {
    let rt = runtime();
    let (mut hub, mut inboxes) = hub_with(&rt, &[0, 1, 2, 3]);
    hub.store(ClientId(1), "one");
    hub.store(ClientId(3), "three");
    let out = hub.step(Msg::FetchKeyPackage(
        ClientId(0),
        vec![ClientId(1), ClientId(2), ClientId(3), ClientId(44)],
    ));
    assert_eq!(out, Ok(vec![Ok(())]));
    assert_eq!(inboxes[0].try_recv(), Ok(found_packages(vec![(1, "one"), (3, "three")])));
    for inbox in inboxes.iter_mut() {
        assert!(nothing_in(inbox));
    }
    assert_eq!(hub.stored(ClientId(1)), 0);
    assert_eq!(hub.stored(ClientId(3)), 0);
}

#[test]
fn fetch_leaves_out_identifiers_without_a_bundle() {
    let mut hub = Hub::new();
    hub.store(ClientId(1), "one");
    hub.store(ClientId(3), "three");
    let out = hub.decide(Msg::FetchKeyPackage(
        ClientId(0),
        vec![ClientId(1), ClientId(2), ClientId(3), ClientId(44)],
    ));
    assert_eq!(out, Ok(vec![packages(0, vec![(1, "one"), (3, "three")])]));
}

#[test]
fn fetch_for_nobody_delivers_an_empty_result() {
    let mut hub = Hub::new();
    hub.store(ClientId(0), "mine");
    assert_eq!(hub.fetch(ClientId(0), &vec![]), vec![packages(0, vec![])]);
    assert_eq!(hub.stored(ClientId(0)), 1);
}

#[test]
fn fetch_serves_a_repeated_identifier_twice() {
    let mut hub = Hub::new();
    hub.store(ClientId(1), "old");
    hub.store(ClientId(1), "new");
    assert_eq!(
        hub.fetch(ClientId(0), &vec![ClientId(1), ClientId(1), ClientId(1)]),
        vec![packages(0, vec![(1, "new"), (1, "old")])]
    );
}

#[test]
fn republishing_after_a_fetch() {
    let mut hub = Hub::new();
    hub.store(ClientId(1), "a");
    hub.store(ClientId(1), "b");
    assert_eq!(hub.fetch(ClientId(0), &vec![ClientId(1)]), vec![packages(0, vec![(1, "b")])]);
    hub.store(ClientId(1), "c");
    assert_eq!(hub.fetch(ClientId(0), &vec![ClientId(1)]), vec![packages(0, vec![(1, "c")])]);
    assert_eq!(hub.fetch(ClientId(0), &vec![ClientId(1)]), vec![packages(0, vec![(1, "a")])]);
}

#[test]
fn directory_alone_is_last_in_first_out() {
    let mut dir: KeyPackageDirectory<u32> = KeyPackageDirectory::new();
    assert_eq!(dir.count(ClientId(5)), 0);
    assert_eq!(dir.take(ClientId(5)), None);
    for n in 1..=4 {
        dir.publish(ClientId(5), n);
    }
    dir.publish(ClientId(6), 60);
    assert_eq!(dir.count(ClientId(5)), 4);
    assert_eq!(dir.take(ClientId(5)), Some(4));
    assert_eq!(dir.take(ClientId(5)), Some(3));
    assert_eq!(
        dir.fetch(&vec![ClientId(6), ClientId(5), ClientId(7)]),
        vec![(ClientId(6), 60), (ClientId(5), 2)]
    );
    assert_eq!(dir.take(ClientId(5)), Some(1));
    assert_eq!(dir.take(ClientId(5)), None);
    assert_eq!(dir.count(ClientId(5)), 0);
}

#[test]
fn fatal_error_ends_the_loop_with_the_error() {
    let rt = runtime();
    let (mut hub, mut inboxes) = hub_with(&rt, &[0, 1]);
    hub.store(ClientId(1), "kept");
    let out = hub.step(Msg::FatalError("address in use".to_string()));
    assert_eq!(out, Err("address in use".to_string()));
    assert_eq!(hub.stored(ClientId(1)), 1);
    assert_eq!(hub.registered_count(), 2);
    assert!(nothing_in(&mut inboxes[0]));
    assert!(nothing_in(&mut inboxes[1]));
    assert_eq!(
        hub.decide(Msg::FatalError("again".to_string())),
        Err("again".to_string())
    );
}

#[test]
fn only_a_fatal_error_ends_the_loop() {
    let rt = runtime();
    let (mut hub, inboxes) = hub_with(&rt, &[0, 1]);
    drop(inboxes);
    let (handle, inbox) = connect(&rt, 2, 1);
    drop(inbox);
    assert!(hub.step(Msg::NewClient(handle)).is_ok());
    assert!(hub.step(Msg::Message(ClientId(2), vec![1, 2, 3])).is_ok());
    assert!(hub.step(Msg::KeyPackage(ClientId(2), "kp")).is_ok());
    assert!(hub.step(Msg::FetchKeyPackage(ClientId(0), vec![ClientId(2)])).is_ok());
    assert!(hub.step(Msg::FatalError("down".to_string())).is_err());
}

#[test]
fn publish_line_ends_in_one_stored_bundle_and_an_acknowledgement() {
    let rt = runtime();
    let id = ClientId(3);
    let (mut hub, mut inboxes) = hub_with(&rt, &[3, 4]);
    let mut codec = TelnetCodec::new();
    let mut src = BytesMut::from(&[99u8, 34, 112, 107, 112, 10][..]);
    let item = codec.decode(&mut src).unwrap().unwrap();
    assert_eq!(item, Item::PublishKeyPackage);
    let action = on_item(id, item);
    assert_eq!(action, ReadAction::Publish(id));
    assert_eq!(id.to_text(), "Client(3)");
    assert_eq!(hub.step(Msg::KeyPackage(id, "bundle of Client(3)")), Ok(vec![Ok(())]));
    assert_eq!(inboxes[0].try_recv(), Ok(line(b"Key package stored.")));
    assert!(nothing_in(&mut inboxes[1]));
    assert_eq!(hub.stored(id), 1);
    assert_eq!(hub.stored(ClientId(4)), 0);
}

#[test]
fn will_suppress_go_ahead_is_answered_with_do() {
    let mut codec = TelnetCodec::new();
    let mut src = BytesMut::from(&[255u8, 251, 3][..]);
    let item = codec.decode(&mut src).unwrap().unwrap();
    match on_item(ClientId(0), item) {
        ReadAction::Reply(reply) => assert_eq!(reply_bytes(reply), vec![0xFF, 253, 3]),
        other => panic!("no reply: {:?}", other),
    }
}

#[test]
fn a_read_error_sends_nothing_to_the_coordinator() {
    let mut codec = TelnetCodec::new();
    let mut src = BytesMut::from(&[255u8, 1][..]);
    assert!(codec.decode(&mut src).is_err());
    assert_eq!(on_item(ClientId(0), Item::Break), ReadAction::Reject(Item::Break));
}

#[test]
fn create_group_line_with_an_empty_token_fetches_for_connection_zero() {
    let id = ClientId(6);
    let mut codec = TelnetCodec::new();
    let mut src = BytesMut::from(&[99u8, 34, 99, 103, 32, 49, 32, 32, 50, 10][..]);
    let item = codec.decode(&mut src).unwrap().unwrap();
    let action = on_item(id, item);
    assert_eq!(
        action,
        ReadAction::Fetch(id, vec![ClientId(1), ClientId(0), ClientId(2)])
    );
    let mut hub = Hub::new();
    hub.store(ClientId(0), "zero");
    hub.store(ClientId(1), "one");
    hub.store(ClientId(2), "two");
    let out = match request::<Bundle, String>(action) {
        Some(msg) => hub.decide(msg),
        None => panic!("a fetch sends a message"),
    };
    assert_eq!(out, Ok(vec![packages(6, vec![(1, "one"), (0, "zero"), (2, "two")])]));
}

#[test]
fn inbound_messages_are_requests_of_the_connection() {
    let mut hub = Hub::new();
    let line = request::<Bundle, String>(ReadAction::Forward(ClientId(1), b"hi".to_vec()));
    match line {
        Some(ToDelivery::Message(from, bytes)) => {
            assert_eq!(from, ClientId(1));
            assert_eq!(bytes, b"hi".to_vec());
        }
        _ => panic!("a line is forwarded as a chat message"),
    }
    let fetch = request::<Bundle, String>(ReadAction::Fetch(ClientId(2), vec![ClientId(4)]));
    match fetch {
        Some(ToDelivery::FetchKeyPackage(from, ids)) => {
            assert_eq!(from, ClientId(2));
            assert_eq!(ids, vec![ClientId(4)]);
        }
        _ => panic!("a group to create is a fetch"),
    }
    match publication::<Bundle, String>(ClientId(3), "kp") {
        ToDelivery::KeyPackage(from, bundle) => {
            assert_eq!(from, ClientId(3));
            assert_eq!(bundle, "kp");
        }
        _ => panic!("a publication is a key package"),
    }
    assert!(hub.step(publication::<Bundle, String>(ClientId(3), "kp")).is_ok());
    assert_eq!(hub.stored(ClientId(3)), 1);
}

#[test]
fn ending_and_local_actions_send_nothing() {
    for action in [
        ReadAction::Close,
        ReadAction::Ignore,
        ReadAction::ShowDetails,
        ReadAction::Publish(ClientId(1)),
        ReadAction::Reject(Item::Break),
        on_item(ClientId(1), Item::Will(3)),
    ] {
        assert!(request::<Bundle, String>(action).is_none());
    }
}
