use vstd::prelude::*;

use crate::conn::{Version, access_mode_supported, version_after};
use crate::error::DriverError;

verus! {

/// Transaction isolation level.
#[derive(Debug, Clone, Copy, PartialEq, Eq, Structural)]
pub enum IsolationLevel {
    ReadUncommitted,
    ReadCommitted,
    RepeatableRead,
    Serializable,
}

/// Transaction access mode.
#[derive(Debug, Clone, Copy, PartialEq, Eq, Structural)]
pub enum AccessMode {
    ReadOnly,
    ReadWrite,
}

/// Options of a transaction to start.
#[derive(Debug, Clone, Copy, PartialEq, Eq, Structural)]
pub struct TxOpts {
    pub with_consistent_snapshot: bool,
    pub isolation_level: Option<IsolationLevel>,
    pub access_mode: Option<AccessMode>,
}

/// One statement that starting a transaction runs.
#[derive(Debug, Clone, Copy, PartialEq, Eq, Structural)]
pub enum TxStep {
    SetIsolationLevel(IsolationLevel),
    SetAccessMode(AccessMode),
    StartWithConsistentSnapshot,
    Start,
}

/// The statements that start a transaction, in order.
pub open spec fn tx_steps_spec(opts: TxOpts) -> Seq<TxStep> {
    (match opts.isolation_level {
        Some(l) => seq![TxStep::SetIsolationLevel(l)],
        None => Seq::empty(),
    }) + (match opts.access_mode {
        Some(m) => seq![TxStep::SetAccessMode(m)],
        None => Seq::empty(),
    }) + (if opts.with_consistent_snapshot {
        seq![TxStep::StartWithConsistentSnapshot]
    } else {
        seq![TxStep::Start]
    })
}

/// Plans the statements that start a transaction on a server of the given version.
///
/// An access mode needs MySQL 5.6.5 or MariaDB 10.0.0 at least.
pub fn plan_transaction(opts: TxOpts, server: Option<Version>, mariadb: Option<Version>) -> (r: Result<
    Vec<TxStep>,
    DriverError,
>)
    ensures
        opts.access_mode.is_some() && !access_mode_supported(server, mariadb) ==> r == Err::<
            Vec<TxStep>,
            DriverError,
        >(DriverError::ReadOnlyTransNotSupported),
        !(opts.access_mode.is_some() && !access_mode_supported(server, mariadb)) ==> r.is_ok()
            && r.unwrap()@ == tx_steps_spec(opts),
{
    let mut steps: Vec<TxStep> = Vec::new();
    if let Some(l) = opts.isolation_level {
        steps.push(TxStep::SetIsolationLevel(l));
    }
    if let Some(m) = opts.access_mode {
        let supported = match server {
            Some(v) if !version_after((5, 6, 5), v) => true,
            _ => match mariadb {
                Some(v) => !version_after((10, 0, 0), v),
                None => false,
            },
        };
        if !supported {
            return Err(DriverError::ReadOnlyTransNotSupported);
        }
        steps.push(TxStep::SetAccessMode(m));
    }
    if opts.with_consistent_snapshot {
        steps.push(TxStep::StartWithConsistentSnapshot);
    } else {
        steps.push(TxStep::Start);
    }
    proof {
        assert(steps@ =~= tx_steps_spec(opts));
    }
    Ok(steps)
}

impl TxStep {
    /// The SQL text of the statement.
    pub fn sql(&self) -> (r: &'static str)
        ensures
            r@ == match *self {
                TxStep::SetIsolationLevel(IsolationLevel::ReadUncommitted) =>
                    "SET TRANSACTION ISOLATION LEVEL READ UNCOMMITTED"@,
                TxStep::SetIsolationLevel(IsolationLevel::ReadCommitted) =>
                    "SET TRANSACTION ISOLATION LEVEL READ COMMITTED"@,
                TxStep::SetIsolationLevel(IsolationLevel::RepeatableRead) =>
                    "SET TRANSACTION ISOLATION LEVEL REPEATABLE READ"@,
                TxStep::SetIsolationLevel(IsolationLevel::Serializable) =>
                    "SET TRANSACTION ISOLATION LEVEL SERIALIZABLE"@,
                TxStep::SetAccessMode(AccessMode::ReadOnly) => "SET TRANSACTION READ ONLY"@,
                TxStep::SetAccessMode(AccessMode::ReadWrite) => "SET TRANSACTION READ WRITE"@,
                TxStep::StartWithConsistentSnapshot => "START TRANSACTION WITH CONSISTENT SNAPSHOT"@,
                TxStep::Start => "START TRANSACTION"@,
            },
    {
        match *self {
            TxStep::SetIsolationLevel(IsolationLevel::ReadUncommitted) =>
                "SET TRANSACTION ISOLATION LEVEL READ UNCOMMITTED",
            TxStep::SetIsolationLevel(IsolationLevel::ReadCommitted) =>
                "SET TRANSACTION ISOLATION LEVEL READ COMMITTED",
            TxStep::SetIsolationLevel(IsolationLevel::RepeatableRead) =>
                "SET TRANSACTION ISOLATION LEVEL REPEATABLE READ",
            TxStep::SetIsolationLevel(IsolationLevel::Serializable) =>
                "SET TRANSACTION ISOLATION LEVEL SERIALIZABLE",
            TxStep::SetAccessMode(AccessMode::ReadOnly) => "SET TRANSACTION READ ONLY",
            TxStep::SetAccessMode(AccessMode::ReadWrite) => "SET TRANSACTION READ WRITE",
            TxStep::StartWithConsistentSnapshot => "START TRANSACTION WITH CONSISTENT SNAPSHOT",
            TxStep::Start => "START TRANSACTION",
        }
    }
}

} // verus!
