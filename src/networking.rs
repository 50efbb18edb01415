//! The decisions of the discovery and chat roles. Sockets, sleeps and
//! locks stay with the caller: each function here takes what arrived and
//! returns what is to be sent.

use vstd::prelude::*;
use crate::message::{Message, MessageView};
use crate::peers::{dotted_quad, PeerAddr, PeerSet};
use crate::queue::MessageQueue;
use crate::wire::{
    chat_datagram, decoded, discovery_datagram, encode_chat, encode_discovery, join_from,
    split_on_separator, MSG_TYPE_CHAT, MSG_TYPE_DISCOVERY, MSG_TYPE_DISCOVERY_RESPONSE,
};
use crate::text::{same_text, views};

verus! {

/// UDP port of chat datagrams.
pub const CHAT_PORT: u16 = 2223;

/// UDP port of discovery datagrams.
pub const DISCOVERY_PORT: u16 = 2224;

/// Largest datagram read at once.
pub const RECV_BUFFER_SIZE: usize = 8192;

/// The all-ones broadcast address, 255.255.255.255.
pub const BROADCAST_IP: u32 = 0xffff_ffff;

/// The well-known rendezvous address of the overlay network, 100.100.100.100.
pub const RENDEZVOUS_IP: u32 = 0x6464_6464;

/// One payload and the addresses it goes to, in order.
pub struct Outbound {
    pub payload: String,
    pub targets: Vec<PeerAddr>,
}

/// The fallback targets on `port`: broadcast first, then the rendezvous address.
pub open spec fn fallback_targets(port: u16) -> Seq<PeerAddr> {
    seq![PeerAddr { ip: BROADCAST_IP, port }, PeerAddr { ip: RENDEZVOUS_IP, port }]
}

fn fallback(port: u16) -> (r: Vec<PeerAddr>)
    ensures
        r@ == fallback_targets(port),
{
    let r = vec![PeerAddr::new(BROADCAST_IP, port), PeerAddr::new(RENDEZVOUS_IP, port)];
    assert(r@ =~= fallback_targets(port));
    r
}

/// What the sending side holds.
pub ghost struct BroadcasterView {
    pub peers: Set<PeerAddr>,
    pub chat_port: u16,
    pub username: Seq<char>,
}

/// The sending side: its own peer set, the chat port and the local user's name.
pub struct Broadcaster {
    peers: PeerSet,
    chat_port: u16,
    username: String,
}

impl View for Broadcaster {
    type V = BroadcasterView;

    closed spec fn view(&self) -> BroadcasterView {
        BroadcasterView { peers: self.peers@, chat_port: self.chat_port, username: self.username@ }
    }
}

impl Broadcaster {
    pub fn new(chat_port: u16, username: String) -> (r: Self)
        ensures
            r@ == (BroadcasterView {
                peers: Set::empty(),
                chat_port,
                username: username@,
            }),
    {
        Broadcaster { peers: PeerSet::new(), chat_port, username }
    }

    pub fn update_username(&mut self, new_username: String)
        ensures
            final(self)@ == (BroadcasterView { username: new_username@, ..old(self)@ }),
    {
        self.username = new_username;
    }

    /// A snapshot of the peer set.
    pub fn get_peers(&self) -> (r: PeerSet)
        ensures
            r@ == self@.peers,
    {
        self.peers.snapshot()
    }

    /// Folds `snapshot` into this peer set: the union, with nothing removed.
    pub fn merge_peers(&mut self, snapshot: &PeerSet)
        ensures
            final(self)@ == (BroadcasterView { peers: old(self)@.peers.union(snapshot@), ..old(self)@ }),
    {
        self.peers.merge(snapshot);
    }

    /// The discovery probe of one announce tick: `DISCOVER~name~None` to the
    /// broadcast address and to the rendezvous address, on the discovery port.
    pub fn discovery_probe(&self) -> (r: Outbound)
        ensures
            r.payload@ == discovery_datagram(MSG_TYPE_DISCOVERY@, self@.username),
            r.targets@ == fallback_targets(DISCOVERY_PORT),
    {
        Outbound {
            payload: encode_discovery(MSG_TYPE_DISCOVERY, self.username.as_str()),
            targets: fallback(DISCOVERY_PORT),
        }
    }

    /// The sends of one broadcast of `message`: its chat datagram to the host of
    /// every known peer on the chat port, one send per peer in some order, then
    /// to the broadcast and rendezvous addresses on the chat port.
    pub fn broadcast_plan(&self, message: &Message) -> (r: Outbound)
        ensures
            r.payload@ == chat_datagram(message@),
            r.targets@.len() == self@.peers.len() + 2,
            lists_each_peer(
                r.targets@.subrange(0, self@.peers.len() as int),
                self@.peers,
                self@.chat_port,
            ),
            r.targets@.subrange(self@.peers.len() as int, r.targets@.len() as int)
                == fallback_targets(self@.chat_port),
    {
        let known = self.peers.to_vec();
        let mut targets = hosts_on_port(&known, self.chat_port);
        let ghost front = targets@;
        let mut tail = fallback(self.chat_port);
        targets.append(&mut tail);
        proof {
            let n = known@.len() as int;
            assert(targets@.subrange(0, n) =~= front);
            assert(targets@.subrange(n, targets@.len() as int) =~= fallback_targets(self.chat_port));
        }
        Outbound { payload: encode_chat(message), targets }
    }
}

/// `p` with its port replaced by `port`.
pub open spec fn on_port(p: PeerAddr, port: u16) -> PeerAddr {
    PeerAddr { ip: p.ip, port }
}

/// `hosts` holds the host of each peer on `port`, one entry per peer, in
/// some order.
pub open spec fn lists_each_peer(hosts: Seq<PeerAddr>, peers: Set<PeerAddr>, port: u16) -> bool {
    exists|order: Seq<PeerAddr>|
        order.no_duplicates() && order.to_set() == peers && hosts == order.map_values(
            |p: PeerAddr| on_port(p, port),
        )
}

fn hosts_on_port(addrs: &Vec<PeerAddr>, port: u16) -> (r: Vec<PeerAddr>)
    ensures
        r@ == addrs@.map_values(|p: PeerAddr| on_port(p, port)),
{
    let mut r: Vec<PeerAddr> = Vec::new();
    let mut i: usize = 0;
    while i < addrs.len()
        invariant
            i <= addrs.len(),
            r@ == addrs@.subrange(0, i as int).map_values(|p: PeerAddr| on_port(p, port)),
        decreases addrs.len() - i,
    {
        r.push(addrs[i].with_port(port));
        i = i + 1;
        assert(r@ =~= addrs@.subrange(0, i as int).map_values(|p: PeerAddr| on_port(p, port)));
    }
    assert(addrs@.subrange(0, i as int) =~= addrs@);
    r
}

/// What the receiving side holds.
pub ghost struct ReceiverView {
    pub peers: Set<PeerAddr>,
    pub queue: Seq<MessageView>,
    pub username: Seq<char>,
}

/// The receiving side: the peers learned from inbound traffic, the queue of
/// chat messages not yet shown, and the local user's name.
pub struct Receiver {
    message_queue: MessageQueue,
    peers: PeerSet,
    username: String,
}

impl View for Receiver {
    type V = ReceiverView;

    closed spec fn view(&self) -> ReceiverView {
        ReceiverView {
            peers: self.peers@,
            queue: self.message_queue@,
            username: self.username@,
        }
    }
}

/// The message a chat datagram `data` from `src` stands for: name and content
/// from the payload, the address label from the transport source.
pub open spec fn received_message(src: PeerAddr, data: Seq<char>) -> MessageView {
    MessageView {
        content: decoded(data).2,
        sender_name: decoded(data).1,
        sender_ip: dotted_quad(src.ip),
    }
}

impl Receiver {
    /// The chat port is not kept: the caller binds it.
    pub fn new(_chat_port: u16, username: String) -> (r: Self)
        ensures
            r@ == (ReceiverView {
                peers: Set::empty(),
                queue: Seq::empty(),
                username: username@,
            }),
    {
        Receiver { message_queue: MessageQueue::new(), peers: PeerSet::new(), username }
    }

    /// A snapshot of the peer set.
    pub fn get_peers(&self) -> (r: PeerSet)
        ensures
            r@ == self@.peers,
    {
        self.peers.snapshot()
    }

    pub fn update_username(&mut self, new_username: String)
        ensures
            final(self)@ == (ReceiverView { username: new_username@, ..old(self)@ }),
    {
        self.username = new_username;
    }

    /// Decodes a datagram into type, sender name, content and ip field.
    pub fn parse_message(udp_data: &str) -> (r: (String, String, String, String))
        ensures
            (r.0@, r.1@, r.2@, r.3@) == decoded(udp_data@),
    {
        if udp_data.is_empty() {
            return (
                String::new(),
                String::from_str("Unknown"),
                String::new(),
                String::from_str("Unknown"),
            );
        }
        let parts = split_on_separator(udp_data);
        proof {
            assert(views(parts@).len() == parts@.len());
        }
        if parts.len() < 2 {
            return (
                String::new(),
                String::from_str("Unknown"),
                String::from_str(udp_data),
                String::from_str("Unknown"),
            );
        }
        let msg_type = parts[0].clone();
        if parts.len() < 4 {
            let rest = join_from(&parts, 1);
            proof {
                assert(views(parts@).subrange(1, parts@.len() as int) =~= views(parts@).drop_first());
            }
            return (msg_type, String::from_str("Unknown"), rest, String::from_str("Unknown"));
        }
        (msg_type, parts[1].clone(), join_from(&parts, 3), parts[2].clone())
    }

    /// Handles datagram `data` that came from `src` on the discovery port.
    /// A probe is answered with `DISCOVER_RESPONSE~name~None`, to be sent
    /// back to `src`, and `src` becomes a peer; an answer only makes `src` a
    /// peer; any other type changes nothing.
    pub fn handle_discovery(&mut self, src: PeerAddr, data: &str) -> (reply: Option<String>)
        ensures
            decoded(data@).0 == MSG_TYPE_DISCOVERY@ ==> reply is Some && reply->0@
                == discovery_datagram(MSG_TYPE_DISCOVERY_RESPONSE@, old(self)@.username),
            decoded(data@).0 != MSG_TYPE_DISCOVERY@ ==> reply is None,
            final(self)@ == (if decoded(data@).0 == MSG_TYPE_DISCOVERY@ || decoded(data@).0
                == MSG_TYPE_DISCOVERY_RESPONSE@ {
                ReceiverView { peers: old(self)@.peers.insert(src), ..old(self)@ }
            } else {
                old(self)@
            }),
    {
        let (msg_type, _name, _content, _ip) = Self::parse_message(data);
        if same_text(msg_type.as_str(), MSG_TYPE_DISCOVERY) {
            let response = encode_discovery(MSG_TYPE_DISCOVERY_RESPONSE, self.username.as_str());
            self.peers.insert(src);
            Some(response)
        } else if same_text(msg_type.as_str(), MSG_TYPE_DISCOVERY_RESPONSE) {
            self.peers.insert(src);
            None
        } else {
            None
        }
    }

    /// Handles datagram `data` that came from `src` on the chat port. A chat
    /// datagram is queued as a message labelled with the transport source's
    /// host, and `src` becomes a peer; anything else is dropped. Says whether
    /// a message was queued.
    pub fn receive_chat(&mut self, src: PeerAddr, data: &str) -> (queued: bool)
        ensures
            queued == (decoded(data@).0 == MSG_TYPE_CHAT@),
            final(self)@ == (if queued {
                ReceiverView {
                    peers: old(self)@.peers.insert(src),
                    queue: old(self)@.queue.push(received_message(src, data@)),
                    username: old(self)@.username,
                }
            } else {
                old(self)@
            }),
    {
        let (msg_type, name, content, _ip) = Self::parse_message(data);
        if !same_text(msg_type.as_str(), MSG_TYPE_CHAT) {
            return false;
        }
        let message = Message::new(content, name, src.ip_text());
        self.message_queue.push_back(message);
        self.peers.insert(src);
        true
    }

    /// Takes the oldest queued message, if any.
    pub fn get_queue_message(&mut self) -> (r: Option<Message>)
        ensures
            old(self)@.queue.len() == 0 ==> r is None && final(self)@ == old(self)@,
            old(self)@.queue.len() > 0 ==> r is Some && r->0@ == old(self)@.queue[0]
                && final(self)@ == (ReceiverView { queue: old(self)@.queue.drop_first(), ..old(self)@ }),
    {
        self.message_queue.pop_front()
    }
}

} // verus!
