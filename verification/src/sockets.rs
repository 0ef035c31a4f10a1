//! The index from local socket to owning process.

use crate::network::{IpAddress, LocalSocket, Protocol};
use crate::os::{ProcessInfo, ProcessInfoView};
use std::collections::BTreeMap;
use vstd::prelude::*;
use vstd::set_lib::lemma_map_size;
use vstd::std_specs::iter::IteratorSpec;

verus! {

/// A socket spelled as numbers, so that the map is keyed by integers alone: family tag,
/// address bits, port, protocol tag.
type Key = (u8, u128, u16, u8);

/// The key that spells `socket`.
spec fn key_of(socket: LocalSocket) -> Key {
    (
        match socket.ip {
            IpAddress::V4(_) => 4u8,
            IpAddress::V6(_) => 6u8,
        },
        match socket.ip {
            IpAddress::V4(bits) => bits as u128,
            IpAddress::V6(bits) => bits,
        },
        socket.port,
        match socket.protocol {
            Protocol::Tcp => 0u8,
            Protocol::Udp => 1u8,
        },
    )
}

/// The socket that `key` spells.
spec fn socket_at(key: Key) -> LocalSocket {
    LocalSocket {
        ip: if key.0 == 4 {
            IpAddress::V4(key.1 as u32)
        } else {
            IpAddress::V6(key.1)
        },
        port: key.2,
        protocol: if key.3 == 0 {
            Protocol::Tcp
        } else {
            Protocol::Udp
        },
    }
}

/// Whether `key` spells a socket.
spec fn is_key(key: Key) -> bool {
    &&& key.0 == 4 || key.0 == 6
    &&& key.0 == 4 ==> key.1 <= u32::MAX
    &&& key.3 == 0 || key.3 == 1
}

/// No two sockets are spelled alike: a socket can be read back from its key.
proof fn lemma_key_round_trip(socket: LocalSocket)
    ensures
        is_key(key_of(socket)),
        socket_at(key_of(socket)) == socket,
{
}

fn encode(socket: &LocalSocket) -> (key: Key)
    ensures
        key == key_of(*socket),
{
    let (family, bits): (u8, u128) = match socket.ip {
        IpAddress::V4(bits) => (4u8, bits as u128),
        IpAddress::V6(bits) => (6u8, bits),
    };
    let protocol: u8 = match socket.protocol {
        Protocol::Tcp => 0,
        Protocol::Udp => 1,
    };
    (family, bits, socket.port, protocol)
}

fn decode(key: &Key) -> (socket: LocalSocket)
    requires
        is_key(*key),
    ensures
        socket == socket_at(*key),
{
    LocalSocket {
        ip: if key.0 == 4 {
            IpAddress::V4(key.1 as u32)
        } else {
            IpAddress::V6(key.1)
        },
        port: key.2,
        protocol: if key.3 == 0 {
            Protocol::Tcp
        } else {
            Protocol::Udp
        },
    }
}

/// Which process owns which local socket, as found by one scan.
#[derive(Debug, PartialEq, Eq)]
pub struct OpenSockets {
    sockets_to_procs: BTreeMap<Key, ProcessInfo>,
}

impl View for OpenSockets {
    type V = Map<LocalSocket, ProcessInfoView>;

    closed spec fn view(&self) -> Map<LocalSocket, ProcessInfoView> {
        Map::new(
            |socket: LocalSocket| self.sockets_to_procs@.contains_key(key_of(socket)),
            |socket: LocalSocket| self.sockets_to_procs@[key_of(socket)]@,
        )
    }
}

/// Whether `entries` lists `index` once: every entry is in the index, every socket of the
/// index is among the entries, and no socket is listed twice.
pub open spec fn is_listing_of(
    entries: Seq<(LocalSocket, ProcessInfo)>,
    index: Map<LocalSocket, ProcessInfoView>,
) -> bool {
    &&& forall|i: int|
        0 <= i < entries.len() ==> index.contains_key((#[trigger] entries[i]).0)
            && index[entries[i].0] == entries[i].1@
    &&& forall|socket: LocalSocket| #[trigger]
        index.contains_key(socket) ==> exists|i: int|
            0 <= i < entries.len() && (#[trigger] entries[i]).0 == socket
    &&& forall|i: int, j: int|
        0 <= i < j < entries.len() ==> (#[trigger] entries[i]).0 != (#[trigger] entries[j]).0
}

impl Default for OpenSockets {
    fn default() -> (sockets: Self)
        ensures
            sockets@ == Map::<LocalSocket, ProcessInfoView>::empty(),
    {
        OpenSockets::new()
    }
}

impl OpenSockets {
    #[verifier::type_invariant]
    spec fn every_key_spells_a_socket(self) -> bool {
        forall|key: Key| #[trigger] self.sockets_to_procs@.contains_key(key) ==> is_key(key)
    }

    /// An index holds finitely many sockets.
    pub proof fn lemma_finite(self)
        ensures
            self@.dom().finite(),
    {
        let keys = self.sockets_to_procs@.dom().filter(|key: Key| is_key(key));
        let decode = |key: Key| socket_at(key);
        assert forall|socket: LocalSocket| self@.dom().contains(socket) implies keys.map(
            decode,
        ).contains(socket) by {
            assert(keys.contains(key_of(socket)) && decode(key_of(socket)) == socket);
        }
        assert(keys.map(decode) =~= self@.dom());
        keys.lemma_map_finite(decode);
    }

    /// The sockets of an index are as many as the keys that it holds.
    proof fn lemma_counts_agree(self)
        requires
            self.every_key_spells_a_socket(),
        ensures
            self@.dom().len() == self.sockets_to_procs@.dom().len(),
    {
        let keys = self.sockets_to_procs@.dom();
        let decode = |key: Key| socket_at(key);
        assert forall|socket: LocalSocket| self@.dom().contains(socket) implies keys.map(
            decode,
        ).contains(socket) by {
            assert(keys.contains(key_of(socket)) && decode(key_of(socket)) == socket);
        }
        assert(keys.map(decode) =~= self@.dom());
        lemma_map_size(keys, self@.dom(), decode);
    }

    /// An index that knows no socket.
    pub fn new() -> (sockets: Self)
        ensures
            sockets@ == Map::<LocalSocket, ProcessInfoView>::empty(),
    {
        OpenSockets { sockets_to_procs: BTreeMap::new() }
    }

    /// Attributes `socket` to `info` and returns the owner that this replaces, if the
    /// socket had one.
    pub fn insert(&mut self, socket: LocalSocket, info: ProcessInfo) -> (replaced: Option<
        ProcessInfo,
    >)
        ensures
            final(self)@ == old(self)@.insert(socket, info@),
            match replaced {
                Some(owner) => old(self)@.contains_key(socket) && old(self)@[socket] == owner@,
                None => !old(self)@.contains_key(socket),
            },
    {
        // The map is moved out, changed and put back, so that the index is whole at every step.
        let mut taken = OpenSockets::new();
        std::mem::swap(self, &mut taken);
        proof {
            use_type_invariant(&taken);
        }
        let key = encode(&socket);
        let mut sockets_to_procs = taken.sockets_to_procs;
        let replaced = sockets_to_procs.insert(key, info);
        *self = OpenSockets { sockets_to_procs };
        replaced
    }

    /// The process that owns `socket`, if the scan found one.
    pub fn get(&self, socket: &LocalSocket) -> (owner: Option<&ProcessInfo>)
        ensures
            match owner {
                Some(info) => self@.contains_key(*socket) && self@[*socket] == info@,
                None => !self@.contains_key(*socket),
            },
    {
        let key = encode(socket);
        self.sockets_to_procs.get(&key)
    }

    /// Whether the scan found an owner for `socket`.
    pub fn contains_key(&self, socket: &LocalSocket) -> (found: bool)
        ensures
            found == self@.contains_key(*socket),
    {
        let key = encode(socket);
        self.sockets_to_procs.contains_key(&key)
    }

    /// The number of sockets that have an owner.
    pub fn len(&self) -> (count: usize)
        ensures
            count == self@.len(),
    {
        proof {
            use_type_invariant(self);
            self.lemma_counts_agree();
        }
        self.sockets_to_procs.len()
    }

    /// Whether no socket has an owner.
    pub fn is_empty(&self) -> (empty: bool)
        ensures
            empty == (self@ == Map::<LocalSocket, ProcessInfoView>::empty()),
    {
        let empty = self.sockets_to_procs.is_empty();
        proof {
            if empty {
                assert(self@ =~= Map::<LocalSocket, ProcessInfoView>::empty());
            } else {
                use_type_invariant(self);
                let key = choose|key: Key| self.sockets_to_procs@.contains_key(key);
                assert(self@.contains_key(socket_at(key)));
            }
        }
        empty
    }

    /// Every socket of the index with its owner, each socket once.
    pub fn entries(&self) -> (entries: Vec<(LocalSocket, ProcessInfo)>)
        ensures
            is_listing_of(entries@, self@),
            entries@.len() == self@.len(),
    {
        proof {
            use_type_invariant(self);
            self.lemma_counts_agree();
        }
        let mut entries: Vec<(LocalSocket, ProcessInfo)> = Vec::new();
        let ghost rows = self.sockets_to_procs.iter().remaining();
        for pair in iter: self.sockets_to_procs.iter()
            invariant
                self.every_key_spells_a_socket(),
                iter.seq() == rows,
                rows == self.sockets_to_procs.iter().remaining(),
                rows.no_duplicates(),
                entries@.len() == iter.index(),
                forall|i: int|
                    0 <= i < entries@.len() ==> key_of((#[trigger] entries@[i]).0) == *rows[i].0
                        && entries@[i].1@ == (*rows[i].1)@,
        {
            let (key, info) = pair;
            assert(self.sockets_to_procs@.contains_key(*rows[iter.index()].0));
            entries.push((decode(key), info.clone()));
        }
        proof {
            let held = self.sockets_to_procs@;
            assert forall|i: int| 0 <= i < entries@.len() implies self@.contains_key(
                (#[trigger] entries@[i]).0,
            ) && self@[entries@[i].0] == entries@[i].1@ by {
                assert(held.contains_key(*rows[i].0) && held[*rows[i].0] == *rows[i].1);
            }
            assert forall|socket: LocalSocket| #[trigger] self@.contains_key(socket) implies exists|
                i: int,
            |
                0 <= i < entries@.len() && (#[trigger] entries@[i]).0 == socket by {
                let key = key_of(socket);
                let i = choose|i: int| 0 <= i < rows.len() && rows[i] == (&key, &held[key]);
                lemma_key_round_trip(entries@[i].0);
            }
            assert forall|i: int, j: int| 0 <= i < j < entries@.len() implies (#[trigger]
                entries@[i]).0 != (#[trigger] entries@[j]).0 by {
                assert(held[*rows[i].0] == *rows[i].1 && held[*rows[j].0] == *rows[j].1);
                if entries@[i].0 == entries@[j].0 {
                    assert(rows[i] == rows[j]);
                }
            }
        }
        entries
    }
}

} // verus!
