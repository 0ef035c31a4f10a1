//! What holds of the index that a scan stands for.

use crate::network::{LocalSocket, Protocol};
use crate::os::linux::{
    contribution, index_of, info_of, is_last_reporter, last_reporter, open_sockets_of,
    reports, rows_of, socket_of, unified, yields, Entry, Enumeration, ProcessReportView,
    ProcessTable, TcpEntry, UdpEntry,
};
use vstd::prelude::*;

verus! {

/// A socket that some slot reports has a last slot that reports it.
pub proof fn lemma_last_reporter_exists(
    slots: Enumeration,
    socket: LocalSocket,
    i: int,
)
    requires
        0 <= i < slots.len(),
        yields(slots[i], socket),
    ensures
        is_last_reporter(slots, socket, last_reporter(slots, socket)),
        i <= last_reporter(slots, socket),
    decreases slots.len() - i,
{
    if exists|j: int| i < j < slots.len() && yields(#[trigger] slots[j], socket) {
        let j = choose|j: int| i < j < slots.len() && yields(#[trigger] slots[j], socket);
        lemma_last_reporter_exists(slots, socket, j);
    } else {
        assert(is_last_reporter(slots, socket, i));
    }
}

/// Enumerating one more slot overlays its contribution on the index so far.
pub proof fn lemma_index_of_push(
    slots: Enumeration,
    slot: Option<ProcessReportView>,
)
    ensures
        index_of(slots.push(slot)) == index_of(slots).union_prefer_right(contribution(slot)),
{
    let longer = slots.push(slot);
    let overlay = index_of(slots).union_prefer_right(contribution(slot));
    assert forall|socket: LocalSocket| overlay.contains_key(socket) implies #[trigger] index_of(
        longer,
    ).contains_key(socket) && index_of(longer)[socket] == overlay[socket] by {
        if yields(slot, socket) {
            lemma_last_reporter_exists(longer, socket, slots.len() as int);
        } else {
            let i = choose|i: int| 0 <= i < slots.len() && yields(#[trigger] slots[i], socket);
            lemma_last_reporter_exists(slots, socket, i);
            lemma_last_reporter_exists(longer, socket, i);
            let last = last_reporter(slots, socket);
            assert(yields(longer[last], socket));
        }
    }
}

/// The last slot that reports a socket is the only one that no reporting slot follows.
pub proof fn lemma_last_reporter_unique(
    slots: Enumeration,
    socket: LocalSocket,
    i: int,
)
    requires
        is_last_reporter(slots, socket, i),
    ensures
        last_reporter(slots, socket) == i,
{
}

/// A socket is in the index exactly when some process reports it, and then the index names
/// as its owner the last process that does.
pub proof fn lemma_owner_is_last_reporter(
    slots: Enumeration,
    socket: LocalSocket,
)
    requires
        open_sockets_of(Some(slots)).contains_key(socket),
    ensures
        is_last_reporter(slots, socket, last_reporter(slots, socket)),
        open_sockets_of(Some(slots))[socket] == info_of(
            slots[last_reporter(slots, socket)]->0.identity->0,
        ),
{
    let i = choose|i: int| 0 <= i < slots.len() && yields(#[trigger] slots[i], socket);
    lemma_last_reporter_exists(slots, socket, i);
}

/// A socket that a process reports is in the index. It is owned by that process unless a
/// process enumerated later reports it too.
pub proof fn lemma_reported_socket_is_indexed(
    slots: Enumeration,
    i: int,
    socket: LocalSocket,
)
    requires
        0 <= i < slots.len(),
        yields(slots[i], socket),
    ensures
        open_sockets_of(Some(slots)).contains_key(socket),
        (forall|j: int| i < j < slots.len() ==> !yields(#[trigger] slots[j], socket))
            ==> open_sockets_of(Some(slots))[socket] == info_of(slots[i]->0.identity->0),
{
    if forall|j: int| i < j < slots.len() ==> !yields(#[trigger] slots[j], socket) {
        lemma_last_reporter_unique(slots, socket, i);
    }
}

/// Every row of a process's TCP tables, over IPv4 or IPv6, is among its unified rows.
pub proof fn lemma_tcp_row_is_unified(process: ProcessReportView, row: TcpEntry)
    requires
        rows_of(process.tcp).contains(row) || rows_of(process.tcp6).contains(row),
    ensures
        unified(process).contains(Entry::Tcp(row)),
{
    let tcp = rows_of(process.tcp);
    let tcp6 = rows_of(process.tcp6);
    if tcp.contains(row) {
        let k = choose|k: int| 0 <= k < tcp.len() && tcp[k] == row;
        assert(unified(process)[k] == Entry::Tcp(row));
    } else {
        let k = choose|k: int| 0 <= k < tcp6.len() && tcp6[k] == row;
        assert(unified(process)[tcp.len() + k] == Entry::Tcp(row));
    }
}

/// Every row of a process's UDP tables, over IPv4 or IPv6, is among its unified rows.
pub proof fn lemma_udp_row_is_unified(process: ProcessReportView, row: UdpEntry)
    requires
        rows_of(process.udp).contains(row) || rows_of(process.udp6).contains(row),
    ensures
        unified(process).contains(Entry::Udp(row)),
{
    let tcp = rows_of(process.tcp);
    let tcp6 = rows_of(process.tcp6);
    let udp = rows_of(process.udp);
    let udp6 = rows_of(process.udp6);
    if udp.contains(row) {
        let k = choose|k: int| 0 <= k < udp.len() && udp[k] == row;
        assert(unified(process)[tcp.len() + tcp6.len() + k] == Entry::Udp(row));
    } else {
        let k = choose|k: int| 0 <= k < udp6.len() && udp6[k] == row;
        assert(unified(process)[tcp.len() + tcp6.len() + udp.len() + k] == Entry::Udp(row));
    }
}

/// A row of a TCP table of a process that is known by its identity puts the row's address
/// and port into the index as a TCP socket, owned by that process unless a process
/// enumerated later reports the same socket.
pub proof fn lemma_tcp_row_is_indexed(
    slots: Enumeration,
    i: int,
    row: TcpEntry,
)
    requires
        0 <= i < slots.len(),
        slots[i] matches Some(process) && process.identity is Some && (rows_of(
            process.tcp,
        ).contains(row) || rows_of(process.tcp6).contains(row)),
    ensures
        ({
            let socket = LocalSocket {
                ip: row.local_address.ip,
                port: row.local_address.port,
                protocol: Protocol::Tcp,
            };
            &&& open_sockets_of(Some(slots)).contains_key(socket)
            &&& (forall|j: int| i < j < slots.len() ==> !yields(#[trigger] slots[j], socket))
                ==> open_sockets_of(Some(slots))[socket] == info_of(slots[i]->0.identity->0)
        }),
{
    let process = slots[i]->0;
    lemma_tcp_row_is_unified(process, row);
    lemma_reported_socket_is_indexed(slots, i, socket_of(Entry::Tcp(row)));
}

/// A row of a UDP table of a process that is known by its identity puts the row's address
/// and port into the index as a UDP socket, owned by that process unless a process
/// enumerated later reports the same socket.
pub proof fn lemma_udp_row_is_indexed(
    slots: Enumeration,
    i: int,
    row: UdpEntry,
)
    requires
        0 <= i < slots.len(),
        slots[i] matches Some(process) && process.identity is Some && (rows_of(
            process.udp,
        ).contains(row) || rows_of(process.udp6).contains(row)),
    ensures
        ({
            let socket = LocalSocket {
                ip: row.local_address.ip,
                port: row.local_address.port,
                protocol: Protocol::Udp,
            };
            &&& open_sockets_of(Some(slots)).contains_key(socket)
            &&& (forall|j: int| i < j < slots.len() ==> !yields(#[trigger] slots[j], socket))
                ==> open_sockets_of(Some(slots))[socket] == info_of(slots[i]->0.identity->0)
        }),
{
    let process = slots[i]->0;
    lemma_udp_row_is_unified(process, row);
    lemma_reported_socket_is_indexed(slots, i, socket_of(Entry::Udp(row)));
}

/// A slot that reports no socket can be left out of the enumeration: the index is the same
/// without it.
pub proof fn lemma_silent_slot_adds_nothing(slots: Enumeration, i: int)
    requires
        0 <= i < slots.len(),
        forall|socket: LocalSocket| !yields(slots[i], socket),
    ensures
        open_sockets_of(Some(slots.remove(i))) == open_sockets_of(Some(slots)),
{
    let fewer = slots.remove(i);
    assert forall|socket: LocalSocket| #[trigger]
        index_of(slots).contains_key(socket) implies index_of(fewer).contains_key(socket)
        && index_of(fewer)[socket] == index_of(slots)[socket] by {
        lemma_owner_is_last_reporter(slots, socket);
        let last = last_reporter(slots, socket);
        let moved = if last < i {
            last
        } else {
            last - 1
        };
        lemma_last_reporter_unique(fewer, socket, moved);
    }
}

/// A process whose identity could not be read adds nothing to the index, whatever its
/// socket tables hold.
pub proof fn lemma_unnamed_process_adds_nothing(slots: Enumeration, i: int)
    requires
        0 <= i < slots.len(),
        slots[i] matches Some(process) && process.identity is None,
    ensures
        forall|socket: LocalSocket| !reports(slots[i]->0, socket),
        open_sockets_of(Some(slots.remove(i))) == open_sockets_of(Some(slots)),
{
    lemma_silent_slot_adds_nothing(slots, i);
}

/// A process without a row in any of its four tables adds nothing to the index and takes
/// nothing from it.
pub proof fn lemma_process_without_rows_adds_nothing(
    slots: Enumeration,
    i: int,
)
    requires
        0 <= i < slots.len(),
        slots[i] matches Some(process) && rows_of(process.tcp).len() == 0 && rows_of(
            process.tcp6,
        ).len() == 0 && rows_of(process.udp).len() == 0 && rows_of(process.udp6).len() == 0,
    ensures
        open_sockets_of(Some(slots.remove(i))) == open_sockets_of(Some(slots)),
{
    lemma_silent_slot_adds_nothing(slots, i);
}

/// A process that could not be opened adds nothing to the index.
pub proof fn lemma_unopened_process_adds_nothing(slots: Enumeration, i: int)
    requires
        0 <= i < slots.len(),
        slots[i] is None,
    ensures
        open_sockets_of(Some(slots.remove(i))) == open_sockets_of(Some(slots)),
{
    lemma_silent_slot_adds_nothing(slots, i);
}

/// A socket table that could not be read counts as one without rows.
pub proof fn lemma_unread_table_counts_as_empty(process: ProcessReportView)
    ensures
        contribution(Some(process)) == contribution(
            Some(
                ProcessReportView {
                    identity: process.identity,
                    tcp: Some(rows_of(process.tcp)),
                    tcp6: Some(rows_of(process.tcp6)),
                    udp: Some(rows_of(process.udp)),
                    udp6: Some(rows_of(process.udp6)),
                },
            ),
        ),
{
}

/// Two scans that saw the same table stand for the same index.
pub proof fn lemma_scan_is_repeatable(first: ProcessTable, second: ProcessTable)
    requires
        first@ == second@,
    ensures
        open_sockets_of(first@) == open_sockets_of(second@),
{
}

/// Where the processes that report one socket all go by the same name and id, the index
/// does not depend on the order of enumeration: two enumerations that hold the same slots
/// stand for the same index.
pub proof fn lemma_order_is_irrelevant_without_collisions(
    first: Enumeration,
    second: Enumeration,
)
    requires
        first.to_set() == second.to_set(),
        forall|i: int, j: int, socket: LocalSocket|
            0 <= i < first.len() && 0 <= j < first.len() && #[trigger] yields(first[i], socket)
                && #[trigger] yields(first[j], socket) ==> info_of(first[i]->0.identity->0)
                == info_of(first[j]->0.identity->0),
    ensures
        open_sockets_of(Some(first)) == open_sockets_of(Some(second)),
{
    assert forall|socket: LocalSocket| #[trigger]
        index_of(first).contains_key(socket) implies index_of(second).contains_key(socket)
        && index_of(second)[socket] == index_of(first)[socket] by {
        lemma_owner_is_last_reporter(first, socket);
        let last = last_reporter(first, socket);
        assert(first.to_set().contains(first[last]));
        lemma_owner_is_last_reporter(second, socket);
        let other = last_reporter(second, socket);
        assert(second.to_set().contains(second[other]));
    }
    assert forall|socket: LocalSocket| #[trigger]
        index_of(second).contains_key(socket) implies index_of(first).contains_key(socket) by {
        let at = choose|at: int| 0 <= at < second.len() && yields(#[trigger] second[at], socket);
        assert(second.to_set().contains(second[at]));
    }
}

} // verus!
