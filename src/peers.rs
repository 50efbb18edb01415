//! Peers are known only by their transport address; a peer set holds each
//! address at most once.

use vstd::prelude::*;
use crate::text::{decimal, push_char, push_decimal};

verus! {

/// An IPv4 transport address. The first octet of the address is the high
/// byte of `ip`.
#[derive(Clone, Copy, Debug, PartialEq, Eq, Structural, Hash)]
pub struct PeerAddr {
    pub ip: u32,
    pub port: u16,
}

/// Octet `k` of `ip`, counted from the low byte.
pub open spec fn octet(ip: u32, k: nat) -> nat {
    ((ip as nat) / pow256(k)) % 256
}

pub open spec fn pow256(k: nat) -> nat
    decreases k,
{
    if k == 0 {
        1
    } else {
        256 * pow256((k - 1) as nat)
    }
}

/// The address in dotted-decimal notation, high octet first.
pub open spec fn dotted_quad(ip: u32) -> Seq<char> {
    decimal(octet(ip, 3)) + seq!['.'] + decimal(octet(ip, 2)) + seq!['.'] + decimal(octet(ip, 1))
        + seq!['.'] + decimal(octet(ip, 0))
}

impl PeerAddr {
    pub fn new(ip: u32, port: u16) -> (r: Self)
        ensures
            r.ip == ip,
            r.port == port,
    {
        PeerAddr { ip, port }
    }

    /// The same host at another port.
    pub fn with_port(&self, port: u16) -> (r: Self)
        ensures
            r.ip == self.ip,
            r.port == port,
    {
        PeerAddr { ip: self.ip, port }
    }

    /// The host address as text, `a.b.c.d`.
    pub fn ip_text(&self) -> (r: String)
        ensures
            r@ == dotted_quad(self.ip),
    {
        proof {
            reveal_with_fuel(pow256, 4);
            assert(octet(self.ip, 3) == self.ip / 16777216);
            assert(octet(self.ip, 2) == (self.ip / 65536) % 256);
            assert(octet(self.ip, 1) == (self.ip / 256) % 256);
            assert(pow256(0) == 1);
            assert((self.ip as nat) / 1 == self.ip as nat);
            assert(octet(self.ip, 0) == self.ip % 256);
        }
        let mut r = String::new();
        push_decimal(&mut r, (self.ip / 16777216) as u64);
        push_char(&mut r, '.');
        push_decimal(&mut r, ((self.ip / 65536) % 256) as u64);
        push_char(&mut r, '.');
        push_decimal(&mut r, ((self.ip / 256) % 256) as u64);
        push_char(&mut r, '.');
        push_decimal(&mut r, (self.ip % 256) as u64);
        assert(r@ =~= dotted_quad(self.ip));
        r
    }
}

/// A set of peer addresses, each held once; the order is of no meaning.
pub struct PeerSet {
    addrs: Vec<PeerAddr>,
}

impl View for PeerSet {
    type V = Set<PeerAddr>;

    closed spec fn view(&self) -> Set<PeerAddr> {
        self.addrs@.to_set()
    }
}

impl PeerSet {
    #[verifier::type_invariant]
    spec fn unique(&self) -> bool {
        self.addrs@.no_duplicates()
    }

    /// Every peer set is finite.
    pub proof fn lemma_finite(&self)
        ensures
            self@.finite(),
    {
        self.addrs@.lemma_cardinality_of_set();
    }

    pub fn new() -> (r: Self)
        ensures
            r@ == Set::<PeerAddr>::empty(),
    {
        let r = PeerSet { addrs: Vec::new() };
        assert(r.addrs@.to_set() =~= Set::<PeerAddr>::empty());
        r
    }

    pub fn len(&self) -> (n: usize)
        ensures
            n == self@.len(),
    {
        proof {
            use_type_invariant(self);
            self.addrs@.unique_seq_to_set();
        }
        self.addrs.len()
    }

    pub fn is_empty(&self) -> (b: bool)
        ensures
            b == (self@.len() == 0),
    {
        self.len() == 0
    }

    pub fn contains(&self, addr: &PeerAddr) -> (b: bool)
        ensures
            b == self@.contains(*addr),
    {
        let mut i: usize = 0;
        while i < self.addrs.len()
            invariant
                i <= self.addrs.len(),
                forall|j: int| 0 <= j < i ==> self.addrs@[j] != *addr,
            decreases self.addrs.len() - i,
        {
            if self.addrs[i] == *addr {
                assert(self.addrs@.contains(*addr));
                return true;
            }
            i = i + 1;
        }
        assert(!self.addrs@.contains(*addr));
        false
    }

    /// Adds `addr`; says whether it was new.
    pub fn insert(&mut self, addr: PeerAddr) -> (added: bool)
        ensures
            final(self)@ == old(self)@.insert(addr),
            added == !old(self)@.contains(addr),
    {
        proof {
            use_type_invariant(&*self);
        }
        if self.contains(&addr) {
            assert(self@.insert(addr) =~= self@);
            false
        } else {
            proof {
                self.addrs@.lemma_push_to_set_commute(addr);
            }
            let mut addrs: Vec<PeerAddr> = Vec::new();
            std::mem::swap(&mut self.addrs, &mut addrs);
            addrs.push(addr);
            self.addrs = addrs;
            true
        }
    }

    /// The addresses, each once, in no particular order.
    pub fn to_vec(&self) -> (r: Vec<PeerAddr>)
        ensures
            r@.to_set() == self@,
            r@.no_duplicates(),
            r@.len() == self@.len(),
    {
        proof {
            use_type_invariant(self);
            self.addrs@.unique_seq_to_set();
        }
        self.addrs.clone()
    }

    /// A copy taken at this moment; later changes to either do not reach the other.
    pub fn snapshot(&self) -> (r: PeerSet)
        ensures
            r@ == self@,
    {
        proof {
            use_type_invariant(self);
        }
        PeerSet { addrs: self.addrs.clone() }
    }

    /// Adds every address of `other`; removes none.
    pub fn merge(&mut self, other: &PeerSet)
        ensures
            final(self)@ == old(self)@.union(other@),
    {
        let items = other.to_vec();
        let mut i: usize = 0;
        while i < items.len()
            invariant
                i <= items.len(),
                self@ == old(self)@.union(items@.subrange(0, i as int).to_set()),
            decreases items.len() - i,
        {
            let ghost before = self@;
            self.insert(items[i]);
            proof {
                items@.subrange(0, i as int).lemma_push_to_set_commute(items@[i as int]);
                assert(items@.subrange(0, i + 1) =~= items@.subrange(0, i as int).push(items@[i as int]));
            }
            i = i + 1;
        }
        assert(items@.subrange(0, items.len() as int) =~= items@);
        assert(self@ =~= old(self)@.union(other@));
    }
}

} // verus!
