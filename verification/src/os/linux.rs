//! Folding a scan of the process table into the socket index.
//!
//! A scan asks the process table for its processes, and each process for its identity and
//! for its TCP and UDP socket tables, IPv4 and IPv6 apart. Every one of these requests can
//! fail by itself. [`ProcessTable`] records what each of them gave, and
//! [`get_open_sockets`] turns the record into an [`OpenSockets`] index.

use crate::network::{LocalSocket, Protocol, SocketAddress};
use crate::os::linux::lemmas::lemma_index_of_push;
use crate::os::{ProcessInfo, ProcessInfoView};
use crate::sockets::OpenSockets;
use vstd::prelude::*;

pub mod lemmas;

verus! {

/// One row of a process's TCP socket table.
#[derive(Clone, Copy, Debug, PartialEq, Eq, Structural)]
pub struct TcpEntry {
    pub local_address: SocketAddress,
}

/// One row of a process's UDP socket table.
#[derive(Clone, Copy, Debug, PartialEq, Eq, Structural)]
pub struct UdpEntry {
    pub local_address: SocketAddress,
}

/// A row of either table, so that both can be handled as one kind of thing.
#[derive(Clone, Copy, Debug, PartialEq, Eq, Structural)]
pub enum Entry {
    Tcp(TcpEntry),
    Udp(UdpEntry),
}

/// The local address that a row names.
pub open spec fn address_of(entry: Entry) -> SocketAddress {
    match entry {
        Entry::Tcp(row) => row.local_address,
        Entry::Udp(row) => row.local_address,
    }
}

/// The protocol of the table that a row came from.
pub open spec fn protocol_of(entry: Entry) -> Protocol {
    match entry {
        Entry::Tcp(_) => Protocol::Tcp,
        Entry::Udp(_) => Protocol::Udp,
    }
}

/// The socket that a row stands for.
pub open spec fn socket_of(entry: Entry) -> LocalSocket {
    LocalSocket {
        ip: address_of(entry).ip,
        port: address_of(entry).port,
        protocol: protocol_of(entry),
    }
}

impl Entry {
    /// The local address of the row, whichever table it came from.
    pub fn local_address(&self) -> (address: SocketAddress)
        ensures
            address == address_of(*self),
    {
        match self {
            Entry::Tcp(entry) => entry.local_address,
            Entry::Udp(entry) => entry.local_address,
        }
    }

    /// The protocol of the table that the row came from.
    pub fn protocol(&self) -> (protocol: Protocol)
        ensures
            protocol == protocol_of(*self),
    {
        match self {
            Entry::Tcp(_) => Protocol::Tcp,
            Entry::Udp(_) => Protocol::Udp,
        }
    }

    /// The key under which this row is indexed.
    pub fn socket(&self) -> (socket: LocalSocket)
        ensures
            socket == socket_of(*self),
    {
        LocalSocket {
            ip: self.local_address().ip,
            port: self.local_address().port,
            protocol: self.protocol(),
        }
    }
}

/// Name and id of a process, as its status record gives them.
#[derive(Debug, PartialEq, Eq)]
pub struct Identity {
    pub name: String,
    pub pid: i32,
}

/// Mathematical value of an [`Identity`].
pub struct IdentityView {
    pub name: Seq<char>,
    pub pid: i32,
}

impl View for Identity {
    type V = IdentityView;

    open spec fn view(&self) -> IdentityView {
        IdentityView { name: self.name@, pid: self.pid }
    }
}

/// The id of a process as an unsigned number: the same 32 bits read without a sign.
pub open spec fn unsigned_pid(pid: i32) -> u32 {
    if pid >= 0 {
        pid as u32
    } else {
        (pid + 0x1_0000_0000) as u32
    }
}

/// The owner that is recorded for the sockets of a process with this identity.
pub open spec fn info_of(identity: IdentityView) -> ProcessInfoView {
    ProcessInfoView { name: identity.name, pid: unsigned_pid(identity.pid) }
}

impl Identity {
    /// The owner to record for this process's sockets.
    pub fn info(&self) -> (info: ProcessInfo)
        ensures
            info@ == info_of(self@),
    {
        let pid: i32 = self.pid;
        let unsigned: u32 = #[verifier::truncate] (pid as u32);
        assert(unsigned == unsigned_pid(pid)) by (bit_vector)
            requires
                unsigned == pid as u32,
        ;
        ProcessInfo::new(self.name.as_str(), unsigned)
    }
}

/// What one process answered when asked for its identity and its four socket tables.
/// `None` stands for a request that failed.
#[derive(Debug, PartialEq, Eq)]
pub struct ProcessReport {
    pub identity: Option<Identity>,
    pub tcp: Option<Vec<TcpEntry>>,
    pub tcp6: Option<Vec<TcpEntry>>,
    pub udp: Option<Vec<UdpEntry>>,
    pub udp6: Option<Vec<UdpEntry>>,
}

/// Mathematical value of a [`ProcessReport`].
pub struct ProcessReportView {
    pub identity: Option<IdentityView>,
    pub tcp: Option<Seq<TcpEntry>>,
    pub tcp6: Option<Seq<TcpEntry>>,
    pub udp: Option<Seq<UdpEntry>>,
    pub udp6: Option<Seq<UdpEntry>>,
}

/// Mathematical value of the outcome of a request for one socket table.
pub open spec fn outcome_view<T>(outcome: Option<Vec<T>>) -> Option<Seq<T>> {
    match outcome {
        Some(rows) => Some(rows@),
        None => None,
    }
}

impl View for ProcessReport {
    type V = ProcessReportView;

    open spec fn view(&self) -> ProcessReportView {
        ProcessReportView {
            identity: match self.identity {
                Some(identity) => Some(identity@),
                None => None,
            },
            tcp: outcome_view(self.tcp),
            tcp6: outcome_view(self.tcp6),
            udp: outcome_view(self.udp),
            udp6: outcome_view(self.udp6),
        }
    }
}

/// The rows that a request gave: none where it failed.
pub open spec fn rows_of<T>(outcome: Option<Seq<T>>) -> Seq<T> {
    match outcome {
        Some(rows) => rows,
        None => Seq::empty(),
    }
}

/// The rows of a TCP table as entries.
pub open spec fn tcp_entries(rows: Seq<TcpEntry>) -> Seq<Entry> {
    rows.map_values(|row: TcpEntry| Entry::Tcp(row))
}

/// The rows of a UDP table as entries.
pub open spec fn udp_entries(rows: Seq<UdpEntry>) -> Seq<Entry> {
    rows.map_values(|row: UdpEntry| Entry::Udp(row))
}

/// All rows of a process as one sequence: TCP over IPv4, TCP over IPv6, UDP over IPv4,
/// UDP over IPv6.
pub open spec fn unified(process: ProcessReportView) -> Seq<Entry> {
    tcp_entries(rows_of(process.tcp)) + tcp_entries(rows_of(process.tcp6)) + udp_entries(
        rows_of(process.udp),
    ) + udp_entries(rows_of(process.udp6))
}

fn append_tcp(entries: &mut Vec<Entry>, outcome: &Option<Vec<TcpEntry>>)
    ensures
        final(entries)@ == old(entries)@ + tcp_entries(rows_of(outcome_view(*outcome))),
{
    if let Some(rows) = outcome {
        let ghost before = entries@;
        let ghost wrapped = tcp_entries(rows@);
        for i in 0..rows.len()
            invariant
                wrapped == tcp_entries(rows@),
                entries@ == before + wrapped.take(i as int),
        {
            entries.push(Entry::Tcp(rows[i]));
        }
    }
}

fn append_udp(entries: &mut Vec<Entry>, outcome: &Option<Vec<UdpEntry>>)
    ensures
        final(entries)@ == old(entries)@ + udp_entries(rows_of(outcome_view(*outcome))),
{
    if let Some(rows) = outcome {
        let ghost before = entries@;
        let ghost wrapped = udp_entries(rows@);
        for i in 0..rows.len()
            invariant
                wrapped == udp_entries(rows@),
                entries@ == before + wrapped.take(i as int),
        {
            entries.push(Entry::Udp(rows[i]));
        }
    }
}

impl ProcessReport {
    /// The rows of all four tables as one sequence, a failed request giving none.
    pub fn entries(&self) -> (entries: Vec<Entry>)
        ensures
            entries@ == unified(self@),
    {
        let mut entries: Vec<Entry> = Vec::new();
        append_tcp(&mut entries, &self.tcp);
        append_tcp(&mut entries, &self.tcp6);
        append_udp(&mut entries, &self.udp);
        append_udp(&mut entries, &self.udp6);
        assert(Seq::<Entry>::empty() + tcp_entries(rows_of(self@.tcp)) == tcp_entries(
            rows_of(self@.tcp),
        ));
        entries
    }
}

/// What one enumeration of the process table gave.
#[derive(Debug, PartialEq, Eq)]
pub struct ProcessTable {
    /// `None` where the table could not be enumerated at all. Inside, one slot for each
    /// process in the order of enumeration, `None` for one that could not be opened.
    pub processes: Option<Vec<Option<ProcessReport>>>,
}

/// Mathematical value of an enumeration: one slot for each process in the order of
/// enumeration, `None` for a process that could not be opened.
pub type Enumeration = Seq<Option<ProcessReportView>>;

/// Mathematical value of one slot of the enumeration.
pub open spec fn slot_view(slot: Option<ProcessReport>) -> Option<ProcessReportView> {
    match slot {
        Some(process) => Some(process@),
        None => None,
    }
}

impl View for ProcessTable {
    type V = Option<Enumeration>;

    open spec fn view(&self) -> Option<Enumeration> {
        match self.processes {
            Some(slots) => Some(slots@.map_values(|slot: Option<ProcessReport>| slot_view(slot))),
            None => None,
        }
    }
}

/// Whether some row of a process's tables stands for `socket`.
pub open spec fn lists(process: ProcessReportView, socket: LocalSocket) -> bool {
    exists|j: int|
        0 <= j < unified(process).len() && socket_of(#[trigger] unified(process)[j]) == socket
}

/// Whether a process is known by its identity and lists `socket`: only then is there an
/// owner to attribute the socket to.
pub open spec fn reports(process: ProcessReportView, socket: LocalSocket) -> bool {
    process.identity is Some && lists(process, socket)
}

/// Whether a slot of the enumeration holds a process that reports `socket`.
pub open spec fn yields(slot: Option<ProcessReportView>, socket: LocalSocket) -> bool {
    slot matches Some(process) && reports(process, socket)
}

/// What one slot adds to the index: each socket that its process reports, owned by that
/// process.
pub open spec fn contribution(slot: Option<ProcessReportView>) -> Map<
    LocalSocket,
    ProcessInfoView,
> {
    Map::new(
        |socket: LocalSocket| yields(slot, socket),
        |socket: LocalSocket| info_of(slot->0.identity->0),
    )
}

/// Whether slot `i` reports `socket` and no later slot does.
pub open spec fn is_last_reporter(slots: Enumeration, socket: LocalSocket, i: int) -> bool {
    &&& 0 <= i < slots.len()
    &&& yields(slots[i], socket)
    &&& forall|j: int| i < j < slots.len() ==> !yields(#[trigger] slots[j], socket)
}

/// The last slot that reports `socket`, where there is one.
pub open spec fn last_reporter(slots: Enumeration, socket: LocalSocket) -> int {
    choose|i: int| is_last_reporter(slots, socket, i)
}

/// The index over an enumeration: a socket is in it exactly when some process reports it,
/// and it is owned by the last process that does.
pub open spec fn index_of(slots: Enumeration) -> Map<LocalSocket, ProcessInfoView> {
    Map::new(
        |socket: LocalSocket|
            exists|i: int| 0 <= i < slots.len() && yields(#[trigger] slots[i], socket),
        |socket: LocalSocket| info_of(slots[last_reporter(slots, socket)]->0.identity->0),
    )
}

/// The index that a scan stands for: empty where the table could not be enumerated.
pub open spec fn open_sockets_of(table: Option<Enumeration>) -> Map<LocalSocket, ProcessInfoView> {
    match table {
        Some(slots) => index_of(slots),
        None => Map::empty(),
    }
}

/// The sockets of the first `count` rows of `entries`, each owned by `owner`.
spec fn attributed(entries: Seq<Entry>, count: int, owner: ProcessInfoView) -> Map<
    LocalSocket,
    ProcessInfoView,
> {
    Map::new(
        |socket: LocalSocket|
            exists|k: int| 0 <= k < count && socket_of(#[trigger] entries[k]) == socket,
        |socket: LocalSocket| owner,
    )
}

/// Adds to the index what one process reports, replacing earlier owners of the same
/// sockets. A process whose identity is not known adds nothing.
pub fn record_process(sockets: &mut OpenSockets, process: &ProcessReport)
    ensures
        final(sockets)@ == old(sockets)@.union_prefer_right(contribution(Some(process@))),
{
    if let Some(identity) = &process.identity {
        let entries = process.entries();
        let ghost before = sockets@;
        let ghost owner = info_of(identity@);
        for j in 0..entries.len()
            invariant
                owner == info_of(identity@),
                sockets@ == before.union_prefer_right(attributed(entries@, j as int, owner)),
        {
            let proc_info = identity.info();
            let socket = entries[j].socket();
            sockets.insert(socket, proc_info);
            assert(sockets@ =~= before.union_prefer_right(attributed(entries@, j + 1, owner)));
        }
        assert(attributed(entries@, entries@.len() as int, owner) =~= contribution(
            Some(process@),
        ));
    } else {
        assert(contribution(Some(process@)) =~= Map::<LocalSocket, ProcessInfoView>::empty());
    }
}

/// Builds the index of open sockets from one scan of the process table.
///
/// Every failure is treated as an absence. A table that could not be enumerated gives
/// an empty index, a process that could not be opened or named gives nothing, and a socket
/// table that could not be read counts as having no rows. Where several processes report
/// the same socket, the one enumerated last owns it.
pub fn get_open_sockets(table: &ProcessTable) -> (sockets: OpenSockets)
    ensures
        sockets@ == open_sockets_of(table@),
        table.processes is None ==> sockets@ == Map::<LocalSocket, ProcessInfoView>::empty(),
{
    let mut sockets = OpenSockets::new();
    match &table.processes {
        Some(processes) => {
            let ghost slots = table@->0;
            for i in 0..processes.len()
                invariant
                    table@ == Some(slots),
                    slots == processes@.map_values(|slot: Option<ProcessReport>| slot_view(slot)),
                    sockets@ == index_of(slots.take(i as int)),
            {
                proof {
                    assert(slots.take(i + 1) == slots.take(i as int).push(slots[i as int]));
                    lemma_index_of_push(slots.take(i as int), slots[i as int]);
                }
                if let Some(process) = &processes[i] {
                    record_process(&mut sockets, process);
                }
            }
            assert(slots.take(processes.len() as int) == slots);
        },
        None => {},
    }
    sockets
}

} // verus!
