//! The fixed binary event layouts delivered by the kernel probes, and the
//! closed classification of network event kinds.

use vstd::prelude::*;

verus! {

/// The little-endian value of two bytes of `b` starting at `off`.
pub open spec fn le16(b: Seq<u8>, off: int) -> int {
    b[off] + 256 * b[off + 1]
}

/// The little-endian value of four bytes of `b` starting at `off`.
pub open spec fn le32(b: Seq<u8>, off: int) -> int {
    le16(b, off) + 65536 * le16(b, off + 2)
}

/// The little-endian value of eight bytes of `b` starting at `off`.
pub open spec fn le64(b: Seq<u8>, off: int) -> int {
    le32(b, off) + 4294967296 * le32(b, off + 4)
}

pub(crate) fn read_u16_at(b: &[u8], off: usize) -> (r: u16)
    requires
        off + 2 <= b@.len() <= usize::MAX,
    ensures
        r == le16(b@, off as int),
{
    b[off] as u16 + 256 * (b[off + 1] as u16)
}

pub(crate) fn read_u32_at(b: &[u8], off: usize) -> (r: u32)
    requires
        off + 4 <= b@.len() <= usize::MAX,
    ensures
        r == le32(b@, off as int),
{
    let lo = read_u16_at(b, off);
    let hi = read_u16_at(b, off + 2);
    proof {
        assert(65536 * (hi as int) <= 4294901760) by (nonlinear_arith)
            requires hi <= 65535;
    }
    lo as u32 + 65536 * (hi as u32)
}

pub(crate) fn read_u64_at(b: &[u8], off: usize) -> (r: u64)
    requires
        off + 8 <= b@.len() <= usize::MAX,
    ensures
        r == le64(b@, off as int),
{
    let lo = read_u32_at(b, off);
    let hi = read_u32_at(b, off + 4);
    proof {
        assert(4294967296 * (hi as int) <= 18446744069414584320) by (nonlinear_arith)
            requires hi <= 4294967295;
    }
    lo as u64 + 4294967296 * (hi as u64)
}

/// One network event from the kernel probe's per-CPU ring.  Addresses are
/// kept in network byte order as the kernel wrote them; `kind` is the raw
/// discriminator of the classified transition.
#[derive(Clone, Copy, Debug)]
pub struct NetworkEventData {
    pub inum: u64,
    pub saddr: u32,
    pub sport: u16,
    pub daddr: u32,
    pub dport: u16,
    pub old_state: u16,
    pub new_state: u16,
    pub kind: u16,
}

/// The number of payload bytes a network event sample must hold.
pub const NETWORK_EVENT_BYTES: usize = 28;

impl NetworkEventData {
    /// Whether `ev` is the event that the bytes `b` lay out: a C-layout
    /// record with the 64-bit key first, each field little endian, and the
    /// two bytes of padding after `sport` ignored.
    pub open spec fn laid_out(ev: NetworkEventData, b: Seq<u8>) -> bool {
        &&& ev.inum == le64(b, 0)
        &&& ev.saddr == le32(b, 8)
        &&& ev.sport == le16(b, 12)
        &&& ev.daddr == le32(b, 16)
        &&& ev.dport == le16(b, 20)
        &&& ev.old_state == le16(b, 22)
        &&& ev.new_state == le16(b, 24)
        &&& ev.kind == le16(b, 26)
    }

    /// Decodes one ring sample; rejects one that is too short to hold the
    /// whole record.
    pub fn from_bytes(b: &[u8]) -> (r: Option<NetworkEventData>)
        ensures
            match r {
                Some(ev) => b@.len() >= NETWORK_EVENT_BYTES && Self::laid_out(ev, b@),
                None => b@.len() < NETWORK_EVENT_BYTES,
            },
    {
        if b.len() < NETWORK_EVENT_BYTES {
            return None;
        }
        Some(
            NetworkEventData {
                inum: read_u64_at(b, 0),
                saddr: read_u32_at(b, 8),
                sport: read_u16_at(b, 12),
                daddr: read_u32_at(b, 16),
                dport: read_u16_at(b, 20),
                old_state: read_u16_at(b, 22),
                new_state: read_u16_at(b, 24),
                kind: read_u16_at(b, 26),
            },
        )
    }
}

/// One syscall event from the kernel probe's per-CPU ring.
#[derive(Clone, Copy, Debug)]
pub struct SyscallEventData {
    pub inum: u64,
    pub sysnbr: u32,
}

/// The number of payload bytes a syscall event sample must hold.
pub const SYSCALL_EVENT_BYTES: usize = 12;

impl SyscallEventData {
    /// Whether `ev` is the event that the bytes `b` lay out.
    pub open spec fn laid_out(ev: SyscallEventData, b: Seq<u8>) -> bool {
        &&& ev.inum == le64(b, 0)
        &&& ev.sysnbr == le32(b, 8)
    }

    /// Decodes one ring sample; rejects one that is too short.
    pub fn from_bytes(b: &[u8]) -> (r: Option<SyscallEventData>)
        ensures
            match r {
                Some(ev) => b@.len() >= SYSCALL_EVENT_BYTES && Self::laid_out(ev, b@),
                None => b@.len() < SYSCALL_EVENT_BYTES,
            },
    {
        if b.len() < SYSCALL_EVENT_BYTES {
            return None;
        }
        Some(SyscallEventData { inum: read_u64_at(b, 0), sysnbr: read_u32_at(b, 8) })
    }
}

/// The minimal TCP observation used by the standalone probe experiment.
#[derive(Clone, Copy, Debug)]
pub struct TcpData {
    pub inum: u64,
    pub saddr: u32,
    pub daddr: u32,
}

/// The direction of a classified flow, seen from the workload.
#[derive(Clone, Copy, Debug, PartialEq, Eq, Structural)]
pub enum Direction {
    Ingress,
    Egress,
}

/// The transport protocol of a classified flow.
#[derive(Clone, Copy, Debug, PartialEq, Eq, Structural)]
pub enum Protocol {
    Tcp,
    Udp,
}

/// The closed set of classified kernel transitions: a TCP connection
/// accepted by the workload, a TCP connection established by the workload,
/// or a UDP send by the workload.
#[derive(Clone, Copy, Debug, PartialEq, Eq, Structural)]
pub enum EventKind {
    TcpIngressAccepted,
    TcpEgressEstablished,
    UdpSend,
}

/// The kind a raw discriminator encodes; the raw value appears only in the
/// wire layout.
pub open spec fn spec_kind_of(k: u16) -> Option<EventKind> {
    if k == 1 {
        Some(EventKind::TcpIngressAccepted)
    } else if k == 2 {
        Some(EventKind::TcpEgressEstablished)
    } else if k == 3 {
        Some(EventKind::UdpSend)
    } else {
        None
    }
}

/// Decodes the kind byte of an event; any value outside the three defined
/// codes is rejected.
pub fn kind_of(k: u16) -> (r: Option<EventKind>)
    ensures
        r == spec_kind_of(k),
{
    if k == 1 {
        Some(EventKind::TcpIngressAccepted)
    } else if k == 2 {
        Some(EventKind::TcpEgressEstablished)
    } else if k == 3 {
        Some(EventKind::UdpSend)
    } else {
        None
    }
}

/// The direction and protocol of each event kind.
pub open spec fn spec_kind_attrs(k: EventKind) -> (Direction, Protocol) {
    match k {
        EventKind::TcpIngressAccepted => (Direction::Ingress, Protocol::Tcp),
        EventKind::TcpEgressEstablished => (Direction::Egress, Protocol::Tcp),
        EventKind::UdpSend => (Direction::Egress, Protocol::Udp),
    }
}

/// The port mapping of each event kind: an accepted ingress connection
/// records the initiator's source port as the workload port and no peer
/// port; both egress kinds record no workload port and the destination
/// port as the peer port.
pub open spec fn spec_port_map(k: EventKind, sport: u16, dport: u16) -> (u16, u16) {
    match k {
        EventKind::TcpIngressAccepted => (sport, 0u16),
        EventKind::TcpEgressEstablished => (0u16, dport),
        EventKind::UdpSend => (0u16, dport),
    }
}

/// Classifies an event kind: direction, protocol, workload port, peer port.
pub fn classify_kind(k: EventKind, sport: u16, dport: u16) -> (r: (Direction, Protocol, u16, u16))
    ensures
        (r.0, r.1) == spec_kind_attrs(k),
        (r.2, r.3) == spec_port_map(k, sport, dport),
{
    match k {
        EventKind::TcpIngressAccepted => (Direction::Ingress, Protocol::Tcp, sport, 0),
        EventKind::TcpEgressEstablished => (Direction::Egress, Protocol::Tcp, 0, dport),
        EventKind::UdpSend => (Direction::Egress, Protocol::Udp, 0, dport),
    }
}

/// The kind-to-attributes function is total on the three defined kinds —
/// `spec_kind_attrs` and `spec_port_map` are defined by exhaustive match —
/// and injective: two kinds that agree on direction, protocol and port
/// mapping for any observed ports are the same kind.
pub proof fn lemma_kind_classification_injective(k1: EventKind, k2: EventKind, sport: u16, dport: u16)
    requires
        spec_kind_attrs(k1) == spec_kind_attrs(k2),
        spec_port_map(k1, sport, dport) == spec_port_map(k2, sport, dport),
    ensures
        k1 == k2,
{
}

/// Every raw code that decodes at all decodes to a distinct kind.
pub proof fn lemma_kind_codes_distinct(c1: u16, c2: u16)
    requires
        spec_kind_of(c1) is Some,
        spec_kind_of(c2) is Some,
        spec_kind_of(c1) == spec_kind_of(c2),
    ensures
        c1 == c2,
{
}

} // verus!
