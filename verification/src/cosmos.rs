//! The state-module logic for a cosmos-sdk host: parsing the chain id's
//! revision, shaping heights, and turning indexed chain events back into
//! packets. The RPC transport around these functions lives outside the
//! library and hands them plain values.

use vstd::prelude::*;

use crate::bytes::copy_bytes;
use crate::types::Packet;

verus! {

/// The management commands the module's command line accepts.
pub enum Cmd {
    ChainId,
    LatestHeight,
}

/// A revision-qualified block height.
#[derive(Clone, Copy, PartialEq, Eq, Structural)]
pub struct Height {
    pub revision: u64,
    pub height: u64,
}

/// Builds a height under a chain revision.
pub fn make_height(revision: u64, height: u64) -> (r: Height)
    ensures
        r.revision == revision,
        r.height == height,
{
    Height { revision, height }
}

/// The chain id could not be parsed: the expected format is
/// `<chain>-<revision-number>`.
#[derive(Debug)]
pub struct ChainIdParseError {
    pub found: Vec<u8>,
}

/// Whether a byte is a decimal digit.
pub open spec fn spec_is_digit(b: u8) -> bool {
    0x30 <= b <= 0x39
}

/// Whether every byte is a decimal digit.
pub open spec fn spec_all_digits(s: Seq<u8>) -> bool {
    forall|i: int| 0 <= i < s.len() ==> spec_is_digit(#[trigger] s[i])
}

/// The value of a decimal digit string.
pub open spec fn spec_decimal_value(s: Seq<u8>) -> int
    decreases s.len(),
{
    if s.len() == 0 {
        0
    } else {
        spec_decimal_value(s.drop_last()) * 10 + (s.last() - 0x30)
    }
}

/// The index of the last dash in a byte string, if any.
pub open spec fn spec_last_dash(s: Seq<u8>) -> Option<int>
    decreases s.len(),
{
    if s.len() == 0 {
        None
    } else if s.last() == 0x2d {
        Some(s.len() - 1)
    } else {
        spec_last_dash(s.drop_last())
    }
}

/// The part of a chain id that names the revision: what follows the last
/// dash, or the whole id when there is none.
pub open spec fn spec_revision_part(s: Seq<u8>) -> Seq<u8> {
    match spec_last_dash(s) {
        Some(d) => s.skip(d + 1),
        None => s,
    }
}

proof fn lemma_decimal_nonneg(s: Seq<u8>)
    requires
        spec_all_digits(s),
    ensures
        spec_decimal_value(s) >= 0,
    decreases s.len(),
{
    if s.len() > 0 {
        assert(spec_all_digits(s.drop_last()));
        lemma_decimal_nonneg(s.drop_last());
        assert(spec_decimal_value(s.drop_last()) * 10 >= 0) by (nonlinear_arith)
            requires spec_decimal_value(s.drop_last()) >= 0;
    }
}

proof fn lemma_decimal_extend(s: Seq<u8>, i: int)
    requires
        spec_all_digits(s),
        0 <= i <= s.len(),
    ensures
        spec_decimal_value(s) >= spec_decimal_value(s.subrange(0, i)),
    decreases s.len() - i,
{
    if i == s.len() {
        assert(s.subrange(0, i) =~= s);
    } else {
        let p = s.subrange(0, i);
        let q = s.subrange(0, i + 1);
        assert(q.drop_last() =~= p);
        assert(spec_all_digits(p));
        lemma_decimal_nonneg(p);
        assert(spec_decimal_value(q) == spec_decimal_value(p) * 10 + (s[i] - 0x30));
        assert(spec_decimal_value(p) * 10 >= spec_decimal_value(p)) by (nonlinear_arith)
            requires spec_decimal_value(p) >= 0;
        lemma_decimal_extend(s, i + 1);
    }
}

/// Parses the revision number out of a chain id of the form
/// `<chain>-<revision-number>`: the digits after the last dash, read in
/// decimal. A missing, empty, non-numeric or overflowing revision part is
/// an error carrying the id.
fn find_revision_start(chain_id: &Vec<u8>) -> (start: usize)
    ensures
        start <= chain_id@.len(),
        match spec_last_dash(chain_id@) {
            Some(d) => start == d + 1,
            None => start == 0,
        },
{
    let n = chain_id.len();
    let mut j: usize = n;
    proof {
        assert(chain_id@.subrange(0, n as int) =~= chain_id@);
    }
    while j > 0
        invariant
            n == chain_id@.len(),
            j <= n,
            spec_last_dash(chain_id@) == spec_last_dash(chain_id@.subrange(0, j as int)),
        decreases j,
    {
        if chain_id[j - 1] == 0x2d {
            proof {
                assert(chain_id@.subrange(0, j as int).last() == chain_id@[j - 1]);
                assert(spec_last_dash(chain_id@.subrange(0, j as int)) == Some(j - 1 as int));
            }
            return j;
        }
        proof {
            assert(chain_id@.subrange(0, j as int).drop_last() =~= chain_id@.subrange(0, j - 1));
        }
        j = j - 1;
    }
    proof {
        assert(chain_id@.subrange(0, 0).len() == 0);
    }
    0
}

/// Parses the revision number out of a chain id of the form
/// `<chain>-<revision-number>`: the digits after the last dash, read in
/// decimal. A missing, empty, non-numeric or overflowing revision part is
/// an error carrying the id.
pub fn parse_chain_revision(chain_id: &Vec<u8>) -> (r: Result<u64, ChainIdParseError>)
    ensures
        ({
            let part = spec_revision_part(chain_id@);
            match r {
                Ok(v) => part.len() > 0 && spec_all_digits(part) && spec_decimal_value(part)
                    <= u64::MAX && v == spec_decimal_value(part),
                Err(e) => e.found@ == chain_id@ && (part.len() == 0 || !spec_all_digits(part)
                    || spec_decimal_value(part) > u64::MAX),
            }
        }),
{
    let n = chain_id.len();
    let start = find_revision_start(chain_id);
    let ghost part = spec_revision_part(chain_id@);
    proof {
        assert(chain_id@.skip(0) =~= chain_id@);
        assert(part =~= chain_id@.skip(start as int));
        assert(part.len() == n - start);
    }
    if start == n {
        return Err(ChainIdParseError { found: copy_bytes(chain_id) });
    }
    let mut i: usize = start;
    proof {
        assert(part.subrange(0, 0).len() == 0);
    }
    while i < n
        invariant
            n == chain_id@.len(),
            start <= i <= n,
            part == chain_id@.skip(start as int),
            part == spec_revision_part(chain_id@),
            part.len() == n - start,
            spec_all_digits(part.subrange(0, i - start)),
        decreases n - i,
    {
        let b = chain_id[i];
        if b < 0x30 || b > 0x39 {
            proof {
                assert(part[i - start] == chain_id@[i as int]);
                assert(!spec_is_digit(part[i - start]));
            }
            return Err(ChainIdParseError { found: copy_bytes(chain_id) });
        }
        proof {
            let sub1 = part.subrange(0, i - start + 1);
            assert(forall|k: int| 0 <= k < sub1.len() ==> #[trigger] sub1[k] == part[k]);
            assert(part[i - start] == chain_id@[i as int]);
            assert(spec_all_digits(sub1));
        }
        i = i + 1;
    }
    proof {
        assert(part.subrange(0, n - start) =~= part);
        assert(spec_all_digits(part));
    }
    let mut acc: u128 = 0;
    let mut i: usize = start;
    proof {
        assert(part.subrange(0, 0).len() == 0);
    }
    while i < n
        invariant
            n == chain_id@.len(),
            start <= i <= n,
            part == chain_id@.skip(start as int),
            part == spec_revision_part(chain_id@),
            part.len() == n - start,
            spec_all_digits(part),
            acc <= u64::MAX,
            acc == spec_decimal_value(part.subrange(0, i - start)),
        decreases n - i,
    {
        let b = chain_id[i];
        proof {
            assert(part[i - start] == chain_id@[i as int]);
            assert(spec_is_digit(part[i - start]));
        }
        let d: u128 = (b - 0x30) as u128;
        acc = acc * 10 + d;
        proof {
            assert(part.subrange(0, i - start + 1).drop_last() =~= part.subrange(0, i - start));
            assert(part.subrange(0, i - start + 1).last() == part[i - start]);
            assert(acc == spec_decimal_value(part.subrange(0, i - start + 1)));
        }
        if acc > u64::MAX as u128 {
            proof {
                lemma_decimal_extend(part, i - start + 1);
                assert(spec_decimal_value(part) > u64::MAX);
            }
            return Err(ChainIdParseError { found: copy_bytes(chain_id) });
        }
        i = i + 1;
    }
    proof {
        assert(part.subrange(0, n - start) =~= part);
    }
    Ok(acc as u64)
}

/// An indexed chain event the module reads back.
pub enum IbcEvent {
    WasmPacketSend {
        packet_source_channel_id: u32,
        packet_destination_channel_id: u32,
        packet_data: Vec<u8>,
        packet_timeout_height: u64,
        packet_timeout_timestamp: u64,
        channel_id: u32,
        packet_hash: Vec<u8>,
    },
    WasmBatchSend {
        channel_id: u32,
        packet_hash: Vec<u8>,
        batch_hash: Vec<u8>,
    },
}

/// Why reading packets back out of indexed events fails.
#[derive(Debug)]
pub enum QueryError {
    /// The search did not return exactly the expected number of results.
    UnexpectedEventCount { found: u64 },
    /// No send event of the queried contract was among the results.
    SendEventNotFound,
    /// The queried client does not exist.
    ClientTypeNotFound,
}

/// Whether an emitted event is a packet-send event of the contract.
pub open spec fn spec_is_send_of(e: (Vec<u8>, IbcEvent), contract: Seq<u8>) -> bool {
    e.0@ == contract && e.1 is WasmPacketSend
}

/// The first packet-send event of the contract, if any.
pub open spec fn spec_find_send(evs: Seq<(Vec<u8>, IbcEvent)>, contract: Seq<u8>) -> Option<int>
    decreases evs.len(),
{
    if evs.len() == 0 {
        None
    } else if spec_is_send_of(evs[0], contract) {
        Some(0)
    } else {
        match spec_find_send(evs.drop_first(), contract) {
            Some(i) => Some(i + 1),
            None => None,
        }
    }
}

proof fn lemma_find_send_at(evs: Seq<(Vec<u8>, IbcEvent)>, contract: Seq<u8>, i: int)
    requires
        0 <= i < evs.len(),
        forall|j: int| 0 <= j < i ==> !spec_is_send_of(#[trigger] evs[j], contract),
        spec_is_send_of(evs[i], contract),
    ensures
        spec_find_send(evs, contract) == Some(i),
    decreases i,
{
    if i > 0 {
        let q = evs.drop_first();
        assert(forall|j: int| 0 <= j < i - 1 ==> #[trigger] q[j] == evs[j + 1]);
        assert(q[i - 1] == evs[i]);
        lemma_find_send_at(q, contract, i - 1);
    }
}

proof fn lemma_find_send_none(evs: Seq<(Vec<u8>, IbcEvent)>, contract: Seq<u8>)
    requires
        forall|j: int| 0 <= j < evs.len() ==> !spec_is_send_of(#[trigger] evs[j], contract),
    ensures
        spec_find_send(evs, contract) is None,
    decreases evs.len(),
{
    if evs.len() > 0 {
        let q = evs.drop_first();
        assert(forall|j: int| 0 <= j < q.len() ==> #[trigger] q[j] == evs[j + 1]);
        lemma_find_send_none(q, contract);
    }
}

/// Reads the packet out of the transaction search for its hash: the search
/// must hold exactly one result, and the packet fields come from the first
/// send event the contract emitted, unchanged.
pub fn extract_sent_packet(
    total_count: u64,
    events: &Vec<(Vec<u8>, IbcEvent)>,
    contract: &Vec<u8>,
) -> (r: Result<Packet, QueryError>)
    ensures
        match r {
            Ok(p) => total_count == 1 && (spec_find_send(events@, contract@) matches Some(i)
                && (events@[i].1 matches IbcEvent::WasmPacketSend {
                    packet_source_channel_id,
                    packet_destination_channel_id,
                    packet_data,
                    packet_timeout_timestamp,
                    ..
                } && p.source_channel_id == packet_source_channel_id
                    && p.destination_channel_id == packet_destination_channel_id && p.data@
                    == packet_data@ && p.timeout_timestamp == packet_timeout_timestamp)),
            Err(e) => match e {
                QueryError::UnexpectedEventCount { found } => found == total_count && total_count
                    != 1,
                QueryError::SendEventNotFound => total_count == 1 && spec_find_send(
                    events@,
                    contract@,
                ) is None,
                _ => false,
            },
        },
{
    if total_count != 1 {
        return Err(QueryError::UnexpectedEventCount { found: total_count });
    }
    let n = events.len();
    let mut i: usize = 0;
    while i < n
        invariant
            n == events@.len(),
            i <= n,
            total_count == 1,
            forall|j: int| 0 <= j < i ==> !spec_is_send_of(#[trigger] events@[j], contract@),
        decreases n - i,
    {
        let is_send = match &events[i].1 {
            IbcEvent::WasmPacketSend { .. } => true,
            IbcEvent::WasmBatchSend { .. } => false,
        };
        if is_send && crate::bytes::bytes_eq(&events[i].0, contract) {
            proof {
                lemma_find_send_at(events@, contract@, i as int);
            }
            proof {
                assert(spec_find_send(events@, contract@) == Some(i as int));
            }
            match &events[i].1 {
                IbcEvent::WasmPacketSend {
                    packet_source_channel_id,
                    packet_destination_channel_id,
                    packet_data,
                    packet_timeout_timestamp,
                    ..
                } => {
                    let data = copy_bytes(packet_data);
                    proof {
                        assert(data@ == packet_data@);
                    }
                    return Ok(Packet {
                        source_channel_id: *packet_source_channel_id,
                        destination_channel_id: *packet_destination_channel_id,
                        data,
                        timeout_timestamp: *packet_timeout_timestamp,
                    });
                },
                IbcEvent::WasmBatchSend { .. } => {
                    proof {
                        assert(false);
                    }
                },
            }
        }
        i = i + 1;
    }
    proof {
        lemma_find_send_none(events@, contract@);
    }
    Err(QueryError::SendEventNotFound)
}

/// The batch entries of the contract among emitted events, in order: the
/// channel and packet hash of each batch-send event.
pub open spec fn spec_batch_entries(evs: Seq<(Vec<u8>, IbcEvent)>, contract: Seq<u8>) -> Seq<
    (u32, Seq<u8>),
>
    decreases evs.len(),
{
    if evs.len() == 0 {
        Seq::empty()
    } else {
        let rest = spec_batch_entries(evs.drop_last(), contract);
        match evs.last().1 {
            IbcEvent::WasmBatchSend { channel_id, packet_hash, .. } => if evs.last().0@
                == contract {
                rest.push((channel_id, packet_hash@))
            } else {
                rest
            },
            _ => rest,
        }
    }
}

/// Reads the batch members out of the transaction search for a batch
/// hash: the search must hold at least two results, and every batch-send
/// event of the contract yields the packet hash to fetch. Events of the
/// contract must all be batch-send events.
pub fn extract_batch_entries(
    total_count: u64,
    events: &Vec<(Vec<u8>, IbcEvent)>,
    contract: &Vec<u8>,
) -> (r: Result<Vec<(u32, Vec<u8>)>, QueryError>)
    requires
        forall|j: int|
            0 <= j < events@.len() && (#[trigger] events@[j]).0@ == contract@
                ==> events@[j].1 is WasmBatchSend,
    ensures
        match r {
            Ok(entries) => total_count >= 2 && entries@.map_values(
                |e: (u32, Vec<u8>)| (e.0, e.1@),
            ) == spec_batch_entries(events@, contract@),
            Err(e) => (e matches QueryError::UnexpectedEventCount { found } && found
                == total_count && total_count < 2),
        },
{
    if total_count < 2 {
        return Err(QueryError::UnexpectedEventCount { found: total_count });
    }
    let n = events.len();
    let mut out: Vec<(u32, Vec<u8>)> = Vec::new();
    let mut i: usize = 0;
    proof {
        assert(events@.subrange(0, 0).len() == 0);
        assert(out@.map_values(|e: (u32, Vec<u8>)| (e.0, e.1@)) =~= spec_batch_entries(
            events@.subrange(0, 0),
            contract@,
        ));
    }
    while i < n
        invariant
            n == events@.len(),
            i <= n,
            out@.map_values(|e: (u32, Vec<u8>)| (e.0, e.1@)) == spec_batch_entries(
                events@.subrange(0, i as int),
                contract@,
            ),
        decreases n - i,
    {
        let ghost pre = out@.map_values(|e: (u32, Vec<u8>)| (e.0, e.1@));
        if crate::bytes::bytes_eq(&events[i].0, contract) {
            match &events[i].1 {
                IbcEvent::WasmBatchSend { channel_id, packet_hash, .. } => {
                    out.push((*channel_id, copy_bytes(packet_hash)));
                },
                IbcEvent::WasmPacketSend { .. } => {},
            }
        }
        proof {
            let sub1 = events@.subrange(0, i + 1);
            assert(sub1.drop_last() =~= events@.subrange(0, i as int));
            assert(sub1.last() == events@[i as int]);
            assert(out@.map_values(|e: (u32, Vec<u8>)| (e.0, e.1@)) =~= spec_batch_entries(
                sub1,
                contract@,
            ));
        }
        i = i + 1;
    }
    proof {
        assert(events@.subrange(0, n as int) =~= events@);
    }
    Ok(out)
}

/// What a relayer needs to know to talk to a client: its type tag and the
/// interface its host speaks.
pub struct ClientInfo {
    pub client_type: String,
    pub ibc_interface: String,
}

/// Shapes the client-info answer: a known client type is carried through
/// over the cosmwasm interface tag, an unknown client is an error.
pub fn client_info_from_type(client_type: Option<String>) -> (r: Result<ClientInfo, QueryError>)
    ensures
        match r {
            Ok(info) => (client_type matches Some(t) && info.client_type@ == t@
                && info.ibc_interface@ == "ibc-cosmwasm"@),
            Err(e) => client_type is None && e is ClientTypeNotFound,
        },
{
    match client_type {
        Some(t) => Ok(ClientInfo { client_type: t, ibc_interface: "ibc-cosmwasm".to_owned() }),
        None => Err(QueryError::ClientTypeNotFound),
    }
}

} // verus!
