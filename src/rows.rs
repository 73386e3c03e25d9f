use vstd::prelude::*;

use crate::conn::{Conn, ConnView};
use crate::error::{DriverError, ServerError};
use crate::lenenc::{lenenc_spec, read_lenenc_int_at};
use crate::result_set::{ok_fields, ok_packet_of, read_ok};

verus! {

/// mysql_common's column definition, carried through unread.
#[verifier::external_type_specification]
#[verifier::external_body]
pub struct ExColumn(mysql_common::packets::Column);

/// The offset after `k` length-encoded strings that start at offset `o`, where they all fit.
pub open spec fn skip_lenenc_strs(p: Seq<u8>, o: int, k: nat) -> Option<int>
    decreases k,
{
    if k == 0 {
        Some(o)
    } else if o < 0 || o > p.len() {
        None
    } else {
        match lenenc_spec(p.subrange(o, p.len() as int)) {
            None => None,
            Some((len, w)) => if o + w + len <= p.len() {
                skip_lenenc_strs(p, o + w + len, (k - 1) as nat)
            } else {
                None
            },
        }
    }
}

/// Where the fixed fields of a column definition start: after four bytes ("def" with its
/// length) and the five names.
pub open spec fn column_fixed_offset(p: Seq<u8>) -> Option<int> {
    if p.len() < 4 {
        None
    } else {
        skip_lenenc_strs(p, 4, 5)
    }
}

/// Type bytes that mysql_common's column parser does not know.
pub open spec fn unknown_column_type(t: u8) -> bool {
    t == 14 || (20 <= t && t <= 244)
}

/// The column parser succeeds on these packets: the names and the fixed fields after
/// them (a filler byte, charset, length, type, flags and decimals) are all there.
pub open spec fn column_parses(p: Seq<u8>) -> bool {
    column_fixed_offset(p) is Some && column_fixed_offset(p).unwrap() + 11 <= p.len()
}

/// mysql_common's column parser indexes past the end of these packets or meets a type
/// byte it does not know.
pub open spec fn column_parse_panics(p: Seq<u8>) -> bool {
    p.len() < 4 || match column_fixed_offset(p) {
        None => false,
        Some(o) => o >= p.len() || (o + 11 <= p.len() && unknown_column_type(p[o + 7])),
    }
}

/// A column definition, with its type byte.
#[derive(Debug)]
pub struct ColumnDef {
    column: mysql_common::packets::Column,
    column_type: u8,
}

impl ColumnDef {
    pub closed spec fn type_byte(&self) -> u8 {
        self.column_type
    }

    /// The column as mysql_common describes it.
    pub fn column(&self) -> &mysql_common::packets::Column {
        &self.column
    }

    /// The wire type of the column.
    pub fn column_type(&self) -> (r: u8)
        ensures
            r == self.type_byte(),
    {
        self.column_type
    }
}

/// Relies on `mysql_common::packets::column_from_payload`: it fails only where a read runs
/// out of bytes, so it succeeds exactly when the five names and the fixed fields after
/// them are all there.
#[verifier::external_body]
fn parse_column(pld: Vec<u8>) -> (r: Option<mysql_common::packets::Column>)
    requires
        !column_parse_panics(pld@),
    ensures
        r.is_some() <==> column_parses(pld@),
{
    mysql_common::packets::column_from_payload(pld).ok()
}

fn column_fixed_offset_exec(p: &Vec<u8>) -> (r: Option<usize>)
    ensures
        match column_fixed_offset(p@) {
            Some(o) => r.is_some() && r.unwrap() as int == o,
            None => r.is_none(),
        },
{
    if p.len() < 4 {
        return None;
    }
    let mut o: usize = 4;
    let mut k: usize = 0;
    while k < 5
        invariant
            4 <= o <= p@.len(),
            k <= 5,
            column_fixed_offset(p@) == skip_lenenc_strs(p@, o as int, (5 - k) as nat),
        decreases 5 - k,
    {
        match read_lenenc_int_at(p, o) {
            None => {
                return None;
            },
            Some((len, w)) => {
                if len > (p.len() - o - w) as u64 {
                    return None;
                }
                o = o + w + len as usize;
            },
        }
        k = k + 1;
    }
    Some(o)
}

/// Reads a column definition packet.
pub fn read_column(pld: Vec<u8>) -> (r: Result<ColumnDef, DriverError>)
    ensures
        column_parse_panics(pld@) ==> r == Err::<ColumnDef, DriverError>(
            DriverError::UnexpectedPacket,
        ),
        r.is_ok() <==> !column_parse_panics(pld@) && column_parses(pld@),
        r.is_err() ==> r == Err::<ColumnDef, DriverError>(DriverError::UnexpectedPacket),
        r.is_ok() ==> r.unwrap().type_byte() == pld@[column_fixed_offset(pld@).unwrap() + 7],
{
    let offset = column_fixed_offset_exec(&pld);
    let o = match offset {
        None => {
            if pld.len() < 4 {
                return Err(DriverError::UnexpectedPacket);
            }
            0
        },
        Some(o) => {
            if o >= pld.len() {
                return Err(DriverError::UnexpectedPacket);
            }
            if pld.len() - o >= 11 && (pld[o + 7] == 14 || (20 <= pld[o + 7] && pld[o + 7] <= 244)) {
                return Err(DriverError::UnexpectedPacket);
            }
            o
        },
    };
    proof {
        match column_fixed_offset(pld@) {
            Some(f) => {
                assert(f == o as int);
                assert(f < pld@.len());
            },
            None => {},
        }
        assert(!column_parse_panics(pld@));
    }
    let type_at = if pld.len() - o > 7 {
        pld[o + 7]
    } else {
        0
    };
    match parse_column(pld) {
        Some(column) => Ok(ColumnDef { column, column_type: type_at }),
        None => Err(DriverError::UnexpectedPacket),
    }
}

/// Returns true when the binary values of every column can be read.
pub fn binary_readable(columns: &Vec<ColumnDef>) -> (r: bool)
    ensures
        r == forall|i: int| 0 <= i < columns@.len() ==> !binary_unsupported(columns@[i].type_byte()),
{
    let mut i: usize = 0;
    while i < columns.len()
        invariant
            i <= columns@.len(),
            forall|j: int| 0 <= j < i ==> !binary_unsupported(columns@[j].type_byte()),
        decreases columns@.len() - i,
    {
        let t = columns[i].column_type();
        if t == 14 || t == 17 || t == 18 || t == 19 {
            return false;
        }
        i = i + 1;
    }
    true
}

/// Column types whose binary values mysql_common cannot read.
pub open spec fn binary_unsupported(t: u8) -> bool {
    t == 14 || t == 17 || t == 18 || t == 19
}

/// How many text-protocol fields `p` splits into exactly: each is 0xfb (NULL) or a
/// length-encoded string; `None` where the bytes do not split so.
pub open spec fn text_field_count(p: Seq<u8>) -> Option<nat>
    decreases p.len(),
{
    if p.len() == 0 {
        Some(0)
    } else if p[0] == 0xfb {
        match text_field_count(p.subrange(1, p.len() as int)) {
            Some(n) => Some(n + 1),
            None => None,
        }
    } else {
        match lenenc_spec(p) {
            Some((len, w)) => if w + len <= p.len() {
                match text_field_count(p.subrange((w + len) as int, p.len() as int)) {
                    Some(n) => Some(n + 1),
                    None => None,
                }
            } else {
                None
            },
            None => None,
        }
    }
}

/// Relies on `mysql_common::value::read_text_values`: it reads fields until the bytes run
/// out and succeeds exactly when they split into `count` fields.
#[verifier::external_body]
fn decode_text_row(pld: &Vec<u8>, count: usize) -> (r: Option<Vec<mysql_common::value::Value>>)
    ensures
        r.is_some() <==> text_field_count(pld@) == Some(count as nat),
        r.is_some() ==> r.unwrap()@.len() == count,
{
    mysql_common::value::read_text_values(pld, count).ok()
}

/// Bytes that the null bitmap of a binary row over `n` columns takes.
pub open spec fn null_bitmap_len(n: nat) -> nat {
    (n + 9) / 8
}

/// Relies on `mysql_common::value::read_bin_values`: one value per column. It asserts that
/// the null bitmap is there and cannot read some column types, so the caller makes sure
/// of both.
#[verifier::external_body]
fn decode_binary_row(pld: &Vec<u8>, columns: &Vec<ColumnDef>) -> (r: Option<
    Vec<mysql_common::value::Value>,
>)
    requires
        pld@.len() >= 1 + null_bitmap_len(columns@.len()),
        forall|i: int| 0 <= i < columns@.len() ==> !binary_unsupported(columns@[i].type_byte()),
    ensures
        r.is_some() ==> r.unwrap()@.len() == columns@.len(),
{
    let cols: Vec<mysql_common::packets::Column> = columns.iter().map(|c| c.column.clone()).collect();
    mysql_common::value::read_bin_values::<mysql_common::value::ServerSide>(pld, &cols).ok()
}

/// What mysql_common's ERR-packet parser reads: code, SQLSTATE and message; `None` where it
/// fails or the packet is a progress report.
pub uninterp spec fn err_packet_of(pld: Seq<u8>, caps: u32) -> Option<(u16, Seq<u8>, Seq<u8>)>;

/// Relies on `mysql_common::packets::parse_err_packet`: it needs the 0xff header, and the
/// SQLSTATE has five bytes.
#[verifier::external_body]
fn parse_err_packet(pld: &Vec<u8>, caps: u32) -> (r: Option<ServerError>)
    ensures
        match r {
            Some(e) => err_packet_of(pld@, caps) == Some((e.code, e.state@, e.message@)),
            None => err_packet_of(pld@, caps).is_none(),
        },
        r.is_some() ==> pld@.len() > 0 && pld@[0] == 0xff && r.unwrap().state@.len() == 5,
{
    let flags = mysql_common::constants::CapabilityFlags::from_bits_truncate(caps);
    match mysql_common::packets::parse_err_packet(pld, flags).ok()? {
        mysql_common::packets::ErrPacket::Error(code, state, msg) => Some(
            ServerError { code, state: state.to_vec(), message: msg.into_owned() },
        ),
        mysql_common::packets::ErrPacket::Progress(_) => None,
    }
}

/// A row, or the end of the rows.
pub enum RowOutcome {
    Row(Vec<mysql_common::value::Value>),
    Done,
}

impl Conn {
    /// Takes an ERR packet received in place of an answer: no rows remain and there is no
    /// last OK. A packet that does not parse leaves the state alone.
    pub fn handle_err_packet(&mut self, pld: &Vec<u8>) -> (r: Result<ServerError, DriverError>)
        requires
            old(self).wf(),
        ensures
            final(self).wf(),
            match err_packet_of(pld@, old(self)@.capability_flags) {
                Some((code, state, message)) => r.is_ok() && r.unwrap().code == code
                    && r.unwrap().state@ == state && r.unwrap().message@ == message && final(self)@
                    == (ConnView { has_results: false, last_ok: None, ..old(self)@ }),
                None => r == Err::<ServerError, DriverError>(DriverError::UnexpectedPacket)
                    && final(self)@ == old(self)@,
            },
    {
        match parse_err_packet(pld, self.capability_flags()) {
            Some(e) => {
                self.handle_err();
                Ok(e)
            },
            None => Err(DriverError::UnexpectedPacket),
        }
    }

    /// Takes the next packet of a text result set with `count` columns: a row, or the
    /// terminator, which ends the rows and becomes the last OK.
    pub fn next_text_row(&mut self, pld: &Vec<u8>, count: usize) -> (r: Result<RowOutcome, DriverError>)
        requires
            old(self).wf(),
            old(self)@.has_results,
        ensures
            final(self).wf(),
            rows_step(old(self)@, final(self)@, pld@, r),
            r matches Ok(RowOutcome::Row(v)) ==> v@.len() == count,
            !(pld@.len() > 0 && pld@[0] == 0xfe && pld@.len() < 0xfe) ==> (r is Ok
                <==> text_field_count(pld@) == Some(count as nat)),
    {
        if crate::result_set::is_rows_terminator(pld) {
            self.end_rows(pld)
        } else {
            match decode_text_row(pld, count) {
                Some(v) => Ok(RowOutcome::Row(v)),
                None => Err(DriverError::UnexpectedPacket),
            }
        }
    }

    /// Takes the next packet of a binary result set over `columns`: a row, or the
    /// terminator, which ends the rows and becomes the last OK.
    ///
    /// A column of a type whose binary values cannot be read makes the row unexpected.
    pub fn next_binary_row(&mut self, pld: &Vec<u8>, columns: &Vec<ColumnDef>) -> (r: Result<
        RowOutcome,
        DriverError,
    >)
        requires
            old(self).wf(),
            old(self)@.has_results,
        ensures
            final(self).wf(),
            rows_step(old(self)@, final(self)@, pld@, r),
            r matches Ok(RowOutcome::Row(v)) ==> v@.len() == columns@.len(),
    {
        if crate::result_set::is_rows_terminator(pld) {
            self.end_rows(pld)
        } else {
            let n = columns.len();
            let bitmap: usize = n / 8 + 1 + if n % 8 == 7 {
                1
            } else {
                0
            };
            if pld.len() == 0 || pld.len() - 1 < bitmap {
                return Err(DriverError::UnexpectedPacket);
            }
            if !binary_readable(columns) {
                return Err(DriverError::UnexpectedPacket);
            }
            match decode_binary_row(pld, columns) {
                Some(v) => Ok(RowOutcome::Row(v)),
                None => Err(DriverError::UnexpectedPacket),
            }
        }
    }

    fn end_rows(&mut self, pld: &Vec<u8>) -> (r: Result<RowOutcome, DriverError>)
        requires
            old(self).wf(),
            pld@.len() > 0 && pld@[0] == 0xfe && pld@.len() < 0xfe,
        ensures
            final(self).wf(),
            rows_step(old(self)@, final(self)@, pld@, r),
    {
        self.handle_columns(0);
        let caps = self.capability_flags();
        match read_ok(pld, caps, true) {
            Ok(ok) => {
                self.handle_ok(ok);
                Ok(RowOutcome::Done)
            },
            Err(e) => Err(e),
        }
    }
}

/// One step of row streaming: a row leaves the state alone; the terminator ends the rows,
/// and, where it parses, becomes the last OK.
pub open spec fn rows_step(
    before: ConnView,
    after: ConnView,
    pld: Seq<u8>,
    r: Result<RowOutcome, DriverError>,
) -> bool {
    if pld.len() > 0 && pld[0] == 0xfe && pld.len() < 0xfe {
        match r {
            Ok(RowOutcome::Done) => {
                &&& before.capability_flags & crate::consts::CLIENT_SESSION_TRACK == 0
                &&& ok_packet_of(pld, before.capability_flags, true) is Some
                &&& after == ConnView {
                    has_results: false,
                    status_flags: ok_packet_of(pld, before.capability_flags, true).unwrap().2,
                    last_ok: ok_packet_of(pld, before.capability_flags, true),
                    ..before
                }
            },
            Err(e) => {
                &&& e == DriverError::UnexpectedPacket
                &&& (before.capability_flags & crate::consts::CLIENT_SESSION_TRACK != 0
                    || ok_packet_of(pld, before.capability_flags, true) is None)
                &&& after == ConnView { has_results: false, last_ok: None, ..before }
            },
            Ok(RowOutcome::Row(_)) => false,
        }
    } else {
        &&& after == before
        &&& (r is Ok ==> r matches Ok(RowOutcome::Row(_)))
        &&& (r is Err ==> r == Err::<RowOutcome, DriverError>(DriverError::UnexpectedPacket))
    }
}

} // verus!
