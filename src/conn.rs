use vstd::prelude::*;

use crate::command::{command, command_body, stmt_close, stmt_close_body};
use crate::consts::{
    COM_QUIT, SERVER_MORE_RESULTS_EXISTS, SERVER_STATUS_NO_BACKSLASH_ESCAPES, has_status,
};
use crate::error::DriverError;
use crate::handshake::{HandshakeInfo, HandshakePlan};
use crate::result_set::{OkFields, OkInfo, ok_fields};
use crate::stmt_cache::{
    CacheEntry, StmtCache, StmtInfo, index_of, insert_entries, insert_evicts, touch,
};

verus! {

/// A server version triplet.
pub type Version = (u16, u16, u16);

/// `a` comes after `b` in version order.
pub open spec fn version_gt(a: Version, b: Version) -> bool {
    a.0 > b.0 || (a.0 == b.0 && (a.1 > b.1 || (a.1 == b.1 && a.2 > b.2)))
}

/// Compares two versions: true when `a` comes after `b`.
pub fn version_after(a: Version, b: Version) -> (r: bool)
    ensures
        r == version_gt(a, b),
{
    a.0 > b.0 || (a.0 == b.0 && (a.1 > b.1 || (a.1 == b.1 && a.2 > b.2)))
}

/// The session state as the contracts see it.
pub struct ConnView {
    pub capability_flags: u32,
    pub status_flags: u16,
    pub connection_id: u32,
    pub character_set: u8,
    pub server_version: Option<Version>,
    pub mariadb_version: Option<Version>,
    pub last_ok: Option<OkFields>,
    pub last_command: u8,
    pub connected: bool,
    pub has_results: bool,
    pub max_allowed_packet: usize,
    pub cache: Seq<CacheEntry>,
    pub cache_capacity: nat,
}

/// The state of one session with a server, apart from its transport.
pub struct Conn {
    capability_flags: u32,
    status_flags: u16,
    connection_id: u32,
    character_set: u8,
    server_version: Option<Version>,
    mariadb_version: Option<Version>,
    ok_packet: Option<OkInfo>,
    last_command: u8,
    connected: bool,
    has_results: bool,
    max_allowed_packet: usize,
    stmt_cache: StmtCache,
}

pub open spec fn opt_ok_fields(o: Option<OkInfo>) -> Option<OkFields> {
    match o {
        Some(ok) => Some(ok_fields(ok)),
        None => None,
    }
}

/// How a session is reset.
#[derive(Debug, Clone, Copy, PartialEq, Eq, Structural)]
pub enum ResetKind {
    /// `COM_RESET_CONNECTION`, falling back to a reconnect if it fails.
    Soft,
    /// Tear the session down and reconnect.
    Hard,
}

/// Servers after MySQL 5.7.3, and MariaDB from 10.2.7 on, reset a session in place.
pub open spec fn reset_kind_spec(server: Option<Version>, mariadb: Option<Version>) -> ResetKind {
    if server.is_some() && version_gt(server.unwrap(), (5, 7, 3)) {
        ResetKind::Soft
    } else if mariadb.is_some() && !version_gt((10, 2, 7), mariadb.unwrap()) {
        ResetKind::Soft
    } else {
        ResetKind::Hard
    }
}

/// Servers from MySQL 5.6.5, and MariaDB from 10.0.0 on, can start a read-only transaction.
pub open spec fn access_mode_supported(server: Option<Version>, mariadb: Option<Version>) -> bool {
    (server.is_some() && !version_gt((5, 6, 5), server.unwrap())) || (mariadb.is_some()
        && !version_gt((10, 0, 0), mariadb.unwrap()))
}

impl View for Conn {
    type V = ConnView;

    closed spec fn view(&self) -> ConnView {
        ConnView {
            capability_flags: self.capability_flags,
            status_flags: self.status_flags,
            connection_id: self.connection_id,
            character_set: self.character_set,
            server_version: self.server_version,
            mariadb_version: self.mariadb_version,
            last_ok: opt_ok_fields(self.ok_packet),
            last_command: self.last_command,
            connected: self.connected,
            has_results: self.has_results,
            max_allowed_packet: self.max_allowed_packet,
            cache: self.stmt_cache@,
            cache_capacity: self.stmt_cache.capacity_spec(),
        }
    }
}

impl Conn {
    /// The statement cache is within bounds, and rows are never pending beside an OK.
    pub closed spec fn wf(&self) -> bool {
        &&& self.stmt_cache.wf()
        &&& (self.has_results ==> self.ok_packet.is_none())
    }

    /// A session that has not run a handshake yet, caching up to `stmt_cache_size` statements.
    pub fn empty(stmt_cache_size: usize) -> (r: Conn)
        ensures
            r.wf(),
            r@ == (ConnView {
                capability_flags: 0,
                status_flags: 0,
                connection_id: 0,
                character_set: 0,
                server_version: None,
                mariadb_version: None,
                last_ok: None,
                last_command: 0,
                connected: false,
                has_results: false,
                max_allowed_packet: 0,
                cache: Seq::empty(),
                cache_capacity: stmt_cache_size as nat,
            }),
    {
        Conn {
            capability_flags: 0,
            status_flags: 0,
            connection_id: 0,
            character_set: 0,
            server_version: None,
            mariadb_version: None,
            ok_packet: None,
            last_command: 0,
            connected: false,
            has_results: false,
            max_allowed_packet: 0,
            stmt_cache: StmtCache::new(stmt_cache_size),
        }
    }

    /// Returns connection identifier.
    pub fn connection_id(&self) -> (r: u32)
        ensures
            r == self@.connection_id,
    {
        self.connection_id
    }

    /// Returns number of rows affected by the last query.
    pub fn affected_rows(&self) -> (r: u64)
        ensures
            r == match self@.last_ok {
                Some(o) => o.0,
                None => 0,
            },
    {
        match &self.ok_packet {
            Some(o) => o.affected_rows,
            None => 0,
        }
    }

    /// Returns last insert id of the last query.
    ///
    /// Returns zero if there was no last insert id.
    pub fn last_insert_id(&self) -> (r: u64)
        ensures
            r == match self@.last_ok {
                Some(o) => match o.1 {
                    Some(id) => id,
                    None => 0,
                },
                None => 0,
            },
    {
        match &self.ok_packet {
            Some(o) => match o.last_insert_id {
                Some(id) => id,
                None => 0,
            },
            None => 0,
        }
    }

    /// Returns number of warnings, reported by the server.
    pub fn warnings(&self) -> (r: u16)
        ensures
            r == match self@.last_ok {
                Some(o) => o.3,
                None => 0,
            },
    {
        match &self.ok_packet {
            Some(o) => o.warnings,
            None => 0,
        }
    }

    /// Info, reported by the server. Will be empty if not defined.
    pub fn info_ref(&self) -> (r: &[u8])
        ensures
            r@ == match self@.last_ok {
                Some(o) => match o.4 {
                    Some(i) => i,
                    None => Seq::empty(),
                },
                None => Seq::empty(),
            },
    {
        match &self.ok_packet {
            Some(o) => match &o.info {
                Some(i) => i.as_slice(),
                None => &[],
            },
            None => &[],
        }
    }

    /// Returns true when the server does not treat backslash as an escape character.
    pub fn no_backslash_escape(&self) -> (r: bool)
        ensures
            r == (self@.status_flags & SERVER_STATUS_NO_BACKSLASH_ESCAPES
                == SERVER_STATUS_NO_BACKSLASH_ESCAPES),
    {
        has_status(self.status_flags, SERVER_STATUS_NO_BACKSLASH_ESCAPES)
    }

    /// Returns true when the last terminator announced another result set.
    pub fn more_results_exists(&self) -> (r: bool)
        ensures
            r == (self@.status_flags & SERVER_MORE_RESULTS_EXISTS == SERVER_MORE_RESULTS_EXISTS),
    {
        has_status(self.status_flags, SERVER_MORE_RESULTS_EXISTS)
    }

    /// Returns true while rows of a result set remain to be read.
    pub fn has_results(&self) -> (r: bool)
        ensures
            r == self@.has_results,
    {
        self.has_results
    }

    /// Returns true once `max_allowed_packet` is known.
    pub fn is_connected(&self) -> (r: bool)
        ensures
            r == self@.connected,
    {
        self.connected
    }

    /// The capabilities in effect for the session.
    pub fn capability_flags(&self) -> (r: u32)
        ensures
            r == self@.capability_flags,
    {
        self.capability_flags
    }

    /// The largest payload the server accepts; zero before it is known.
    pub fn max_allowed_packet(&self) -> (r: usize)
        ensures
            r == self@.max_allowed_packet,
    {
        self.max_allowed_packet
    }

    /// The version of a MySQL server, if the handshake gave one.
    pub fn server_version(&self) -> (r: Option<Version>)
        ensures
            r == self@.server_version,
    {
        self.server_version
    }

    /// The version of a MariaDB server, if the handshake gave one.
    pub fn mariadb_version(&self) -> (r: Option<Version>)
        ensures
            r == self@.mariadb_version,
    {
        self.mariadb_version
    }

    /// Records what the server's handshake and the negotiation settled.
    pub fn handle_handshake(&mut self, hs: &HandshakeInfo, plan: &HandshakePlan)
        requires
            old(self).wf(),
        ensures
            final(self).wf(),
            final(self)@ == (ConnView {
                capability_flags: plan.capabilities,
                status_flags: hs.status_flags,
                connection_id: hs.connection_id,
                character_set: hs.collation,
                server_version: hs.server_version,
                mariadb_version: hs.mariadb_version,
                ..old(self)@
            }),
    {
        self.capability_flags = plan.capabilities;
        self.status_flags = hs.status_flags;
        self.connection_id = hs.connection_id;
        self.character_set = hs.collation;
        self.server_version = hs.server_version;
        self.mariadb_version = hs.mariadb_version;
    }

    /// Records an OK packet, or the terminator of a result set: its status becomes current,
    /// and no rows remain.
    pub fn handle_ok(&mut self, ok: OkInfo)
        requires
            old(self).wf(),
        ensures
            final(self).wf(),
            final(self)@ == (ConnView {
                status_flags: ok.status_flags,
                last_ok: Some(ok_fields(ok)),
                has_results: false,
                ..old(self)@
            }),
    {
        self.status_flags = ok.status_flags;
        self.ok_packet = Some(ok);
        self.has_results = false;
    }

    /// Records an ERR packet: no rows remain and there is no last OK.
    pub fn handle_err(&mut self)
        requires
            old(self).wf(),
        ensures
            final(self).wf(),
            final(self)@ == (ConnView { has_results: false, last_ok: None, ..old(self)@ }),
    {
        self.has_results = false;
        self.ok_packet = None;
    }

    /// Records the header of a result set with `column_count` columns.
    pub fn handle_columns(&mut self, column_count: u64)
        requires
            old(self).wf(),
        ensures
            final(self).wf(),
            final(self)@ == (ConnView {
                has_results: column_count > 0,
                last_ok: None,
                ..old(self)@
            }),
    {
        self.has_results = column_count > 0;
        self.ok_packet = None;
    }

    /// Writes a command: the command byte, then `data`. The previous OK is forgotten.
    ///
    /// No command may start while rows of a result set remain to be read.
    pub fn write_command(&mut self, cmd: u8, data: &[u8]) -> (r: Vec<u8>)
        requires
            old(self).wf(),
            !old(self)@.has_results,
        ensures
            final(self).wf(),
            r@ == command_body(cmd, data@),
            final(self)@ == (ConnView { last_command: cmd, last_ok: None, ..old(self)@ }),
    {
        self.last_command = cmd;
        self.ok_packet = None;
        command(cmd, data)
    }

    /// Records that a command built elsewhere is being written: the previous OK is forgotten.
    ///
    /// No command may start while rows of a result set remain to be read.
    pub fn record_command(&mut self, cmd: u8)
        requires
            old(self).wf(),
            !old(self)@.has_results,
        ensures
            final(self).wf(),
            final(self)@ == (ConnView { last_command: cmd, last_ok: None, ..old(self)@ }),
    {
        self.last_command = cmd;
        self.ok_packet = None;
    }

    /// Takes the value of `max_allowed_packet` that the server reported after the handshake.
    ///
    /// A missing or zero value is a setup error.
    pub fn handle_max_allowed_packet(&mut self, value: Option<usize>) -> (r: Result<(), DriverError>)
        requires
            old(self).wf(),
        ensures
            final(self).wf(),
            value.is_some() && value.unwrap() > 0 ==> r.is_ok() && final(self)@ == (ConnView {
                max_allowed_packet: value.unwrap(),
                connected: true,
                ..old(self)@
            }),
            !(value.is_some() && value.unwrap() > 0) ==> r == Err::<(), DriverError>(
                DriverError::SetupError,
            ) && final(self)@ == old(self)@,
    {
        let v: usize = match value {
            Some(v) => v,
            None => 0,
        };
        if v == 0 {
            return Err(DriverError::SetupError);
        }
        self.max_allowed_packet = v;
        self.connected = true;
        Ok(())
    }

    /// Decides how to reset the session, from the server version.
    pub fn reset_kind(&self) -> (r: ResetKind)
        ensures
            r == reset_kind_spec(self@.server_version, self@.mariadb_version),
    {
        if let Some(v) = self.server_version {
            if version_after(v, (5, 7, 3)) {
                return ResetKind::Soft;
            }
        }
        if let Some(v) = self.mariadb_version {
            if !version_after((10, 2, 7), v) {
                return ResetKind::Soft;
            }
        }
        ResetKind::Hard
    }

    /// Records a successful `COM_RESET_CONNECTION`: its OK becomes current and every
    /// cached statement is gone.
    pub fn handle_soft_reset(&mut self, ok: OkInfo)
        requires
            old(self).wf(),
        ensures
            final(self).wf(),
            final(self)@ == (ConnView {
                status_flags: ok.status_flags,
                last_ok: Some(ok_fields(ok)),
                has_results: false,
                last_command: 0,
                cache: Seq::empty(),
                ..old(self)@
            }),
    {
        self.handle_ok(ok);
        self.last_command = 0;
        self.stmt_cache.clear();
    }

    /// Forgets the session ahead of a reconnect: everything the server told is dropped and
    /// every cached statement is gone. The cache keeps its capacity.
    pub fn clear_session(&mut self)
        requires
            old(self).wf(),
        ensures
            final(self).wf(),
            final(self)@ == (ConnView {
                capability_flags: 0,
                status_flags: 0,
                connection_id: 0,
                character_set: 0,
                last_ok: None,
                last_command: 0,
                connected: false,
                has_results: false,
                cache: Seq::empty(),
                ..old(self)@
            }),
    {
        self.stmt_cache.clear();
        self.capability_flags = 0;
        self.status_flags = 0;
        self.connection_id = 0;
        self.character_set = 0;
        self.ok_packet = None;
        self.last_command = 0;
        self.connected = false;
        self.has_results = false;
    }

    /// Looks a query up in the statement cache; a hit becomes the most recently used.
    pub fn cached_stmt(&mut self, query: &String) -> (r: Option<StmtInfo>)
        requires
            old(self).wf(),
        ensures
            final(self).wf(),
            index_of(old(self)@.cache, query@) < 0 ==> r.is_none() && final(self)@ == old(self)@,
            index_of(old(self)@.cache, query@) >= 0 ==> r == Some(
                old(self)@.cache[index_of(old(self)@.cache, query@)].1,
            ) && final(self)@ == (ConnView {
                cache: touch(old(self)@.cache, index_of(old(self)@.cache, query@)),
                ..old(self)@
            }),
    {
        self.stmt_cache.by_query(query)
    }

    /// Caches a freshly prepared statement for a query that is not cached.
    ///
    /// Where the cache is full, its least recently used statement leaves it, and the
    /// `COM_STMT_CLOSE` to send for it is returned.
    pub fn cache_stmt(&mut self, query: String, info: StmtInfo) -> (r: Option<Vec<u8>>)
        requires
            old(self).wf(),
            !old(self)@.has_results,
            index_of(old(self)@.cache, query@) < 0,
        ensures
            final(self).wf(),
            match insert_evicts(old(self)@.cache, old(self)@.cache_capacity) {
                Some(e) => r.is_some() && r.unwrap()@ == stmt_close_body(e.1.id) && final(self)@
                    == (ConnView {
                    cache: insert_entries(old(self)@.cache, old(self)@.cache_capacity, (query@, info)),
                    last_command: crate::consts::COM_STMT_CLOSE,
                    last_ok: None,
                    ..old(self)@
                }),
                None => r.is_none() && final(self)@ == (ConnView {
                    cache: insert_entries(old(self)@.cache, old(self)@.cache_capacity, (query@, info)),
                    ..old(self)@
                }),
            },
    {
        proof {
            let c = self.stmt_cache@;
            if exists|i: int| 0 <= i < c.len() && c[i].0 == query@ {
                assert(index_of(c, query@) >= 0);
            }
        }
        match self.stmt_cache.put(query, info) {
            Some(evicted) => {
                self.last_command = crate::consts::COM_STMT_CLOSE;
                self.ok_packet = None;
                Some(stmt_close(evicted.1.id))
            },
            None => None,
        }
    }

    /// Closes statement `id`: it leaves the cache, and the `COM_STMT_CLOSE` to send is returned.
    pub fn close_stmt(&mut self, id: u32) -> (r: Vec<u8>)
        requires
            old(self).wf(),
            !old(self)@.has_results,
        ensures
            final(self).wf(),
            r@ == stmt_close_body(id),
            final(self)@ == (ConnView {
                cache: old(self)@.cache.filter(|e: CacheEntry| e.1.id != id),
                last_command: crate::consts::COM_STMT_CLOSE,
                last_ok: None,
                ..old(self)@
            }),
    {
        self.stmt_cache.remove(id);
        self.last_command = crate::consts::COM_STMT_CLOSE;
        self.ok_packet = None;
        stmt_close(id)
    }

    /// Returns true when a statement for `query` is cached.
    pub fn has_stmt(&self, query: &String) -> (r: bool)
        ensures
            r == (exists|i: int| 0 <= i < self@.cache.len() && self@.cache[i].0 == query@),
    {
        proof {
            assert(self@.cache == self.stmt_cache@);
        }
        self.stmt_cache.contains_query(query)
    }

    /// The cached query texts, most recently used first.
    pub fn cached_queries(&self) -> (r: Vec<String>)
        ensures
            r@.len() == self@.cache.len(),
            forall|i: int|
                0 <= i < r@.len() ==> r@[i]@ == self@.cache[self@.cache.len() - 1 - i].0,
    {
        self.stmt_cache.queries_mru()
    }

    /// Ends the session: a `COM_STMT_CLOSE` for each cached statement, least recently used
    /// first, then `COM_QUIT`. The cache is left empty.
    pub fn shutdown_commands(&mut self) -> (r: Vec<Vec<u8>>)
        requires
            old(self).wf(),
        ensures
            final(self).wf(),
            r@.len() == old(self)@.cache.len() + 1,
            forall|i: int|
                0 <= i < old(self)@.cache.len() ==> #[trigger] r@[i]@ == stmt_close_body(
                    old(self)@.cache[i].1.id,
                ),
            r@[r@.len() - 1]@ == command_body(COM_QUIT, Seq::empty()),
            final(self)@ == (ConnView {
                cache: Seq::empty(),
                last_command: COM_QUIT,
                last_ok: None,
                ..old(self)@
            }),
    {
        let ghost c = self.stmt_cache@;
        let entries = self.stmt_cache.drain();
        proof {
            assert forall|i: int| 0 <= i < entries@.len() implies entries@[i].1 == c[i].1 by {
                assert(entries@.map_values(|e: (String, StmtInfo)| (e.0@, e.1))[i] == c[i]);
            }
        }
        let mut r: Vec<Vec<u8>> = Vec::new();
        let mut i: usize = 0;
        while i < entries.len()
            invariant
                i <= entries@.len(),
                entries@.len() == c.len(),
                forall|k: int| 0 <= k < entries@.len() ==> entries@[k].1 == c[k].1,
                r@.len() == i,
                forall|k: int| 0 <= k < i ==> #[trigger] r@[k]@ == stmt_close_body(c[k].1.id),
            decreases entries@.len() - i,
        {
            r.push(stmt_close(entries[i].1.id));
            i = i + 1;
        }
        let empty: Vec<u8> = Vec::new();
        r.push(command(COM_QUIT, empty.as_slice()));
        self.last_command = COM_QUIT;
        self.ok_packet = None;
        proof {
            assert(empty@ =~= Seq::<u8>::empty());
        }
        r
    }
}

/// What `String::from_utf8_lossy` makes of some bytes.
pub uninterp spec fn utf8_lossy_of(b: Seq<u8>) -> Seq<char>;

/// Relies on `String::from_utf8_lossy`: the text depends on the bytes alone, and no bytes
/// give no text.
#[verifier::external_body]
fn utf8_lossy(b: &[u8]) -> (r: String)
    ensures
        r@ == utf8_lossy_of(b@),
        b@.len() == 0 ==> r@.len() == 0,
{
    String::from_utf8_lossy(b).into_owned()
}

impl Conn {
    /// Info, reported by the server, as text. Will be empty if not defined.
    pub fn info_str(&self) -> (r: String)
        ensures
            r@ == utf8_lossy_of(
                match self@.last_ok {
                    Some(o) => match o.4 {
                        Some(i) => i,
                        None => Seq::empty(),
                    },
                    None => Seq::empty(),
                },
            ),
    {
        utf8_lossy(self.info_ref())
    }

    /// Reads the answer to `COM_STMT_PREPARE` into a statement of this connection.
    pub fn stmt_from_prepare_ok(&self, pld: &Vec<u8>) -> (r: Result<StmtInfo, DriverError>)
        ensures
            match prepare_ok_spec(pld@) {
                Some((id, nc, np)) => r == Ok::<StmtInfo, DriverError>(
                    StmtInfo { id, num_columns: nc, num_params: np, connection_id: self@.connection_id },
                ),
                None => r == Err::<StmtInfo, DriverError>(DriverError::UnexpectedPacket),
            },
    {
        match parse_stmt_packet(pld) {
            Some((id, nc, np)) => Ok(
                StmtInfo { id, num_columns: nc, num_params: np, connection_id: self.connection_id },
            ),
            None => Err(DriverError::UnexpectedPacket),
        }
    }
}

/// The statement id, column count and parameter count of a prepare answer: a zero byte,
/// the id in four little-endian bytes, the counts in two each, a filler byte and a
/// warning count in two; `None` for a packet that is too short or starts otherwise.
pub open spec fn prepare_ok_spec(p: Seq<u8>) -> Option<(u32, u16, u16)> {
    if p.len() >= 12 && p[0] == 0 {
        Some(
            (
                (p[1] as nat + 256 * (p[2] as nat) + 65536 * (p[3] as nat) + 16777216 * (
                p[4] as nat)) as u32,
                (p[5] as nat + 256 * (p[6] as nat)) as u16,
                (p[7] as nat + 256 * (p[8] as nat)) as u16,
            ),
        )
    } else {
        None
    }
}

/// Relies on `mysql_common::packets::parse_stmt_packet`, which reads the layout above.
#[verifier::external_body]
fn parse_stmt_packet(p: &Vec<u8>) -> (r: Option<(u32, u16, u16)>)
    ensures
        r == prepare_ok_spec(p@),
{
    let sp = mysql_common::packets::parse_stmt_packet(p).ok()?;
    Some((sp.statement_id(), sp.num_columns(), sp.num_params()))
}

/// Whether to ask the server for its Unix socket after connecting over TCP: only when a
/// socket is preferred and the host is a loopback address.
pub fn should_query_socket(prefer_socket: bool, host_is_loopback: bool) -> (r: bool)
    ensures
        r == (prefer_socket && host_is_loopback),
{
    prefer_socket && host_is_loopback
}

/// The socket to reconnect through: the one the server reported, where none was configured
/// and the report is not empty.
pub fn improved_socket(configured: &Option<String>, reported: Option<String>) -> (r: Option<String>)
    ensures
        match reported {
            Some(s) => if configured.is_none() && s@.len() > 0 {
                r == Some(s)
            } else {
                r.is_none()
            },
            None => r.is_none(),
        },
{
    match reported {
        Some(s) => {
            if configured.is_none() && !s.as_str().is_empty() {
                Some(s)
            } else {
                None
            }
        },
        None => None,
    }
}

} // verus!
