use djinn::actors::path::{ActorPath, RemoteAddr};
use djinn::actors::protocol::{MsgPackCodec, MsgPackProtocol};
use djinn::actors::router::{Delivery, Router, RoutingMessage, THROUGHPUT};
use djinn::actors::Actor;

#[derive(Debug, PartialEq, Clone)]
pub enum ExampleMessage {
    Foo { x: u8, y: u8 },
    Bar { z: u8 },
}

#[derive(Debug)]
struct ExampleActor {
    id: usize,
}

impl ExampleActor {
    pub fn new(id: usize) -> ExampleActor {
        ExampleActor { id: id }
    }
}

impl Actor for ExampleActor {
    type M = ExampleMessage;

    fn handle_msg(&self, message: Self::M) -> Self::M {
        match message {
            ExampleMessage::Foo { x, y } => ExampleMessage::Foo { x: x * 2, y: y + 1 },
            ExampleMessage::Bar { z } => ExampleMessage::Bar { z: z + 10 },
        }
    }

    fn id(&self) -> usize {
        self.id
    }
}

// Sends what has to go to another node to the router at that address, and
// hands back that router's reply.
fn carry(
    delivery: Delivery<ExampleMessage>,
    nodes: &mut Vec<Router<ExampleActor>>,
) -> RoutingMessage<ExampleMessage> {
    match delivery {
        Delivery::Done(reply) => reply,
        Delivery::Forward { addr, message } => {
            match nodes.iter_mut().find(|node| *node.addr() == addr.0) {
                Some(node) => node.receive(message),
                None => RoutingMessage::Failed("Error sending message".to_string()),
            }
        }
    }
}

#[test]
fn tell_local() {
    let addr = "127.0.0.1:8080".to_string();
    let actors = vec![ExampleActor::new(0)];
    let mut router = Router::new(addr, actors);
    let sender = ActorPath::Local { id: 1 };
    let recipient = ActorPath::Local { id: 0 };
    let resp = router.tell(ExampleMessage::Bar { z: 10 }, sender, recipient);
    assert_eq!(resp, Delivery::Done(RoutingMessage::Okay));
    assert_eq!(router.waiting(0), Some(1));
}

#[test]
fn tell_local_nonexistent_actor() {
    let addr = "127.0.0.1:8081".to_string();
    let actors = vec![ExampleActor::new(0)];
    let mut router = Router::new(addr, actors);
    let sender = ActorPath::Local { id: 1 };
    let recipient = ActorPath::Local { id: 2 }; // no actor with this id
    let resp = router.tell(ExampleMessage::Bar { z: 10 }, sender, recipient);
    assert_eq!(resp, Delivery::Done(RoutingMessage::Failed("No actor with id".to_string())));
    assert_eq!(router.waiting(0), Some(0));
    assert_eq!(router.waiting(2), None);
}

#[test]
fn ask_local() {
    let addr = "127.0.0.1:8082".to_string();
    let actors = vec![ExampleActor::new(0)];
    let router = Router::new(addr, actors);
    let sender = ActorPath::Local { id: 1 };
    let recipient = ActorPath::Local { id: 0 };
    let resp = router.ask(ExampleMessage::Bar { z: 10 }, sender, recipient.clone());
    assert_eq!(
        resp,
        Delivery::Done(RoutingMessage::Response {
            sender: recipient,
            recipient: 1,
            message: ExampleMessage::Bar { z: 20 },
        })
    );
}

#[test]
fn tell_remote() {
    let addr1 = "127.0.0.1:8083".to_string();
    let addr2 = "127.0.0.1:8084".to_string();
    let mut router = Router::new(addr1.clone(), vec![ExampleActor::new(0)]);
    let mut nodes = vec![Router::new(addr2.clone(), vec![ExampleActor::new(0)])];

    let sender = ActorPath::Remote { addr: RemoteAddr(addr1), id: 0 };
    let recipient = ActorPath::Remote { addr: RemoteAddr(addr2), id: 0 };
    let delivery = router.tell(ExampleMessage::Bar { z: 10 }, sender, recipient);
    let resp = carry(delivery, &mut nodes);
    assert_eq!(resp, RoutingMessage::Okay);
    assert_eq!(router.waiting(0), Some(0));
    assert_eq!(nodes[0].waiting(0), Some(1));
}

#[test]
fn ask_remote() {
    let addr1 = "127.0.0.1:8085".to_string();
    let addr2 = "127.0.0.1:8086".to_string();
    let router = Router::new(addr1.clone(), vec![ExampleActor::new(0)]);
    let mut nodes = vec![Router::new(addr2.clone(), vec![ExampleActor::new(0)])];

    let sender = ActorPath::Remote { addr: RemoteAddr(addr1), id: 0 };
    let recipient = ActorPath::Remote { addr: RemoteAddr(addr2), id: 0 };
    let delivery = router.ask(ExampleMessage::Bar { z: 10 }, sender, recipient.clone());
    let resp = carry(delivery, &mut nodes);
    assert_eq!(
        resp,
        RoutingMessage::Response {
            sender: recipient,
            recipient: 0,
            message: ExampleMessage::Bar { z: 20 },
        }
    );
}

#[test]
fn tell_remote_is_made_ready_not_delivered() {
    let mut router = Router::new("127.0.0.1:9000".to_string(), vec![ExampleActor::new(0)]);
    let sender = ActorPath::Local { id: 7 };
    let recipient = ActorPath::Remote { addr: RemoteAddr("127.0.0.1:9001".to_string()), id: 3 };
    let delivery = router.tell(ExampleMessage::Foo { x: 1, y: 2 }, sender.clone(), recipient);
    assert_eq!(
        delivery,
        Delivery::Forward {
            addr: RemoteAddr("127.0.0.1:9001".to_string()),
            message: RoutingMessage::Tell {
                sender,
                recipient: 3,
                message: ExampleMessage::Foo { x: 1, y: 2 },
            },
        }
    );
    assert_eq!(router.waiting(0), Some(0));
}

#[test]
fn receive_reports_the_missing_actor_by_id() {
    let mut router = Router::new("127.0.0.1:9002".to_string(), vec![ExampleActor::new(0)]);
    let told = RoutingMessage::Tell {
        sender: ActorPath::Local { id: 1 },
        recipient: 120,
        message: ExampleMessage::Bar { z: 1 },
    };
    assert_eq!(router.receive(told), RoutingMessage::Failed("No actor with id 120".to_string()));
    let asked = RoutingMessage::Ask {
        sender: ActorPath::Local { id: 1 },
        recipient: 120,
        message: ExampleMessage::Bar { z: 1 },
    };
    assert_eq!(router.receive(asked), RoutingMessage::Okay);
    assert_eq!(router.receive(RoutingMessage::Okay), RoutingMessage::Okay);
    assert_eq!(router.receive(RoutingMessage::Failed("x".to_string())), RoutingMessage::Okay);
    let response = RoutingMessage::Response {
        sender: ActorPath::Local { id: 1 },
        recipient: 0,
        message: ExampleMessage::Bar { z: 1 },
    };
    assert_eq!(router.receive(response), RoutingMessage::Okay);
    assert_eq!(router.waiting(0), Some(0));
}

#[test]
fn later_actor_takes_the_seat_of_an_earlier_one_with_its_id() {
    struct Echo {
        id: usize,
        add: u8,
    }
    impl Actor for Echo {
        type M = u8;
        fn id(&self) -> usize {
            self.id
        }
        fn handle_msg(&self, message: u8) -> u8 {
            message + self.add
        }
    }
    let actors = vec![Echo { id: 4, add: 1 }, Echo { id: 5, add: 2 }, Echo { id: 4, add: 3 }];
    let router = Router::new("a:1".to_string(), actors);
    let reply = router.ask(10, ActorPath::Local { id: 9 }, ActorPath::Local { id: 4 });
    assert_eq!(
        reply,
        Delivery::Done(RoutingMessage::Response {
            sender: ActorPath::Local { id: 4 },
            recipient: 9,
            message: 13,
        })
    );
}

#[test]
fn activation_handles_the_oldest_messages_up_to_the_throughput() {
    assert_eq!(THROUGHPUT, 100);
    let mut router = Router::new("127.0.0.1:9003".to_string(), vec![ExampleActor::new(3)]);
    for z in 0..130u8 {
        let told = router.tell(
            ExampleMessage::Bar { z },
            ActorPath::Local { id: 0 },
            ActorPath::Local { id: 3 },
        );
        assert_eq!(told, Delivery::Done(RoutingMessage::Okay));
    }
    assert_eq!(router.waiting(3), Some(130));
    let replies = router.activate(3);
    assert_eq!(replies.len(), 100);
    assert_eq!(replies[0], ExampleMessage::Bar { z: 10 });
    assert_eq!(replies[99], ExampleMessage::Bar { z: 109 });
    assert_eq!(router.waiting(3), Some(30));
    let replies = router.activate(3);
    assert_eq!(replies.len(), 30);
    assert_eq!(replies[0], ExampleMessage::Bar { z: 110 });
    assert_eq!(router.waiting(3), Some(0));
    assert!(router.activate(3).is_empty());
    assert!(router.activate(8).is_empty());
}

#[test]
fn a_buffer_is_one_message() {
    let protocol: MsgPackProtocol<ExampleMessage, ExampleMessage> = MsgPackProtocol::new();
    let mut codec = protocol.codec();
    let mut buf: Vec<u8> = Vec::new();
    assert_eq!(codec.decode(&mut buf), None);
    codec.encode(vec![0x92, 1, 2], &mut buf);
    assert_eq!(buf, vec![0x92, 1, 2]);
    codec.encode(vec![7], &mut buf);
    assert_eq!(buf, vec![0x92, 1, 2, 7]);
    assert_eq!(codec.decode(&mut buf), Some(vec![0x92, 1, 2, 7]));
    assert!(buf.is_empty());
    assert_eq!(codec.decode(&mut buf), None);
    let mut other: MsgPackCodec<u8, u8> = MsgPackCodec::new();
    let mut buf = vec![5u8];
    assert_eq!(other.decode(&mut buf), Some(vec![5u8]));
}

#[test]
fn a_node_starts_with_empty_inboxes() {
    let router = djinn::actors::node::start_node(
        "127.0.0.1:9004".to_string(),
        vec![ExampleActor::new(1), ExampleActor::new(2)],
    );
    assert_eq!(router.addr(), "127.0.0.1:9004");
    assert_eq!(router.waiting(1), Some(0));
    assert_eq!(router.waiting(2), Some(0));
    assert_eq!(router.waiting(0), None);
    assert_eq!(ActorPath::Local { id: 3 }.id(), 3);
    assert_eq!(ActorPath::Remote { addr: RemoteAddr("h:1".to_string()), id: 4 }.id(), 4);
}
