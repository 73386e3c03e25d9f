use vstd::prelude::*;

use crate::consts::{CLIENT_SESSION_TRACK, MAX_PAYLOAD_LEN};
use crate::error::DriverError;
use crate::handshake::bytes_view;
use crate::lenenc::{lenenc_spec, read_lenenc_int};

verus! {

/// The fields of an OK packet (or of an EOF packet that ends a result set).
#[derive(Debug, Clone, PartialEq, Eq)]
pub struct OkInfo {
    pub affected_rows: u64,
    pub last_insert_id: Option<u64>,
    pub status_flags: u16,
    pub warnings: u16,
    /// Human-readable information; `None` when the server sent none.
    pub info: Option<Vec<u8>>,
}

/// The fields of an OK packet as plain values, in the order of `OkInfo`.
pub type OkFields = (u64, Option<u64>, u16, u16, Option<Seq<u8>>);

pub open spec fn ok_fields(o: OkInfo) -> OkFields {
    (o.affected_rows, o.last_insert_id, o.status_flags, o.warnings, bytes_view(o.info))
}

/// What mysql_common's OK-packet parser makes of `payload` under capabilities `caps`, as a
/// result-set terminator or not; `None` where it fails.
pub uninterp spec fn ok_packet_of(payload: Seq<u8>, caps: u32, terminator: bool) -> Option<
    OkFields,
>;

/// Relies on `mysql_common::packets::parse_ok_packet`: it fails on a header other than 0x00
/// (or, for a terminator, 0xfe); a terminator carries no affected rows, insert id or info;
/// an insert id of zero and an empty info are reported as absent.
#[verifier::external_body]
fn parse_ok_packet(payload: &Vec<u8>, caps: u32, terminator: bool) -> (r: Option<OkInfo>)
    requires
        caps & CLIENT_SESSION_TRACK == 0,
    ensures
        match r {
            Some(o) => ok_packet_of(payload@, caps, terminator) == Some(ok_fields(o)),
            None => ok_packet_of(payload@, caps, terminator).is_none(),
        },
        r.is_some() ==> payload@.len() > 0,
        r.is_some() && !terminator ==> payload@[0] == 0x00,
        r.is_some() && terminator ==> payload@[0] == 0xfe && r.unwrap().affected_rows == 0
            && r.unwrap().last_insert_id.is_none() && r.unwrap().info.is_none(),
        r.is_some() ==> r.unwrap().last_insert_id != Some(0u64),
        r.is_some() && r.unwrap().info.is_some() ==> r.unwrap().info.unwrap()@.len() > 0,
{
    let kind = if terminator {
        mysql_common::packets::OkPacketKind::ResultSetTerminator
    } else {
        mysql_common::packets::OkPacketKind::Other
    };
    let flags = mysql_common::constants::CapabilityFlags::from_bits_truncate(caps);
    let ok = mysql_common::packets::parse_ok_packet(payload, flags, kind).ok()?;
    Some(OkInfo {
        affected_rows: ok.affected_rows(),
        last_insert_id: ok.last_insert_id(),
        status_flags: ok.status_flags().bits(),
        warnings: ok.warnings(),
        info: ok.info_ref().map(|i| i.to_vec()),
    })
}

/// Parses an OK packet, or a result-set terminator when `terminator` holds.
///
/// Session-state tracking is not read: under `CLIENT_SESSION_TRACK` every packet is
/// refused as unexpected.
pub fn read_ok(payload: &Vec<u8>, caps: u32, terminator: bool) -> (r: Result<OkInfo, DriverError>)
    ensures
        caps & CLIENT_SESSION_TRACK != 0 ==> r == Err::<OkInfo, DriverError>(
            DriverError::UnexpectedPacket,
        ),
        caps & CLIENT_SESSION_TRACK == 0 ==> match ok_packet_of(payload@, caps, terminator) {
            Some(f) => r.is_ok() && ok_fields(r.unwrap()) == f,
            None => r == Err::<OkInfo, DriverError>(DriverError::UnexpectedPacket),
        },
{
    if caps & CLIENT_SESSION_TRACK != 0 {
        return Err(DriverError::UnexpectedPacket);
    }
    match parse_ok_packet(payload, caps, terminator) {
        Some(o) => Ok(o),
        None => Err(DriverError::UnexpectedPacket),
    }
}

/// What the first packet of a command's response announces.
#[derive(Debug, Clone, Copy, PartialEq, Eq, Structural)]
pub enum ResponseKind {
    /// An OK packet: no rows follow.
    OkPacket,
    /// A LOCAL INFILE request; the rest of the packet is the file name.
    LocalInfile,
    /// A result set with this many column definitions to read.
    Columns(u64),
}

/// The kind of a response packet, or `None` for a malformed one.
pub open spec fn response_kind(pld: Seq<u8>) -> Option<ResponseKind> {
    if pld.len() == 0 {
        None
    } else if pld[0] == 0x00 {
        Some(ResponseKind::OkPacket)
    } else if pld[0] == 0xfb {
        Some(ResponseKind::LocalInfile)
    } else {
        match lenenc_spec(pld) {
            Some((n, _)) => Some(ResponseKind::Columns(n as u64)),
            None => None,
        }
    }
}

/// Tells what the first packet of a response (that is not an ERR packet) announces.
pub fn classify_response(pld: &Vec<u8>) -> (r: Result<ResponseKind, DriverError>)
    ensures
        match response_kind(pld@) {
            Some(k) => r == Ok::<ResponseKind, DriverError>(k),
            None => r == Err::<ResponseKind, DriverError>(DriverError::UnexpectedPacket),
        },
{
    if pld.len() == 0 {
        return Err(DriverError::UnexpectedPacket);
    }
    if pld[0] == 0x00 {
        return Ok(ResponseKind::OkPacket);
    }
    if pld[0] == 0xfb {
        return Ok(ResponseKind::LocalInfile);
    }
    match read_lenenc_int(pld) {
        Some((n, _)) => Ok(ResponseKind::Columns(n)),
        None => Err(DriverError::UnexpectedPacket),
    }
}

/// Returns true for an ERR packet.
pub fn is_err_packet(pld: &Vec<u8>) -> (r: bool)
    ensures
        r == (pld@.len() > 0 && pld@[0] == 0xff),
{
    pld.len() > 0 && pld[0] == 0xff
}

/// Returns true for the packet that ends a stream of rows: it starts with 0xfe and is
/// shorter than 0xfe bytes.
pub fn is_rows_terminator(pld: &Vec<u8>) -> (r: bool)
    ensures
        r == (pld@.len() > 0 && pld@[0] == 0xfe && pld@.len() < 0xfe),
{
    pld.len() > 0 && pld[0] == 0xfe && pld.len() < 0xfe
}

/// The file name that a LOCAL INFILE request names: everything after its first byte.
pub fn local_infile_name(pld: &Vec<u8>) -> (r: Vec<u8>)
    requires
        pld@.len() > 0,
    ensures
        r@ == pld@.subrange(1, pld@.len() as int),
{
    let mut r: Vec<u8> = Vec::new();
    let mut i: usize = 1;
    while i < pld.len()
        invariant
            1 <= i <= pld@.len(),
            r@ == pld@.subrange(1, i as int),
        decreases pld@.len() - i,
    {
        r.push(pld[i]);
        proof {
            assert(r@ =~= pld@.subrange(1, i as int + 1));
        }
        i = i + 1;
    }
    r
}

/// Size of the frames in which LOCAL INFILE data is streamed to the server.
pub fn infile_chunk_size(max_allowed_packet: usize) -> (r: usize)
    requires
        max_allowed_packet >= 4,
    ensures
        r == if MAX_PAYLOAD_LEN - 4 < max_allowed_packet - 4 {
            MAX_PAYLOAD_LEN - 4
        } else {
            max_allowed_packet - 4
        },
{
    if MAX_PAYLOAD_LEN - 4 < max_allowed_packet - 4 {
        MAX_PAYLOAD_LEN - 4
    } else {
        max_allowed_packet - 4
    }
}

} // verus!
