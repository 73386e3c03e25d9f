use vstd::prelude::*;

use crate::command::{
    build_execute, command_body, exec_bitmap_len, execute_head, le32, long_data_body,
    long_data_chunk, long_data_packets,
};
use crate::conn::{Conn, ConnView};
use crate::consts::{COM_STMT_EXECUTE, COM_STMT_SEND_LONG_DATA};
use crate::error::DriverError;
use crate::stmt_cache::StmtInfo;

verus! {

/// mysql_common's value type, carried through unread.
#[verifier::external_type_specification]
#[verifier::external_body]
pub struct ExValue(mysql_common::value::Value);

/// Parameters for one execution of a prepared statement.
pub enum Params {
    Empty,
    Positional(Vec<mysql_common::value::Value>),
    /// Values by parameter name; where a name repeats, its first value counts.
    Named(Vec<(String, mysql_common::value::Value)>),
}

/// A prepared statement as the caller holds it.
pub struct Statement {
    pub info: StmtInfo,
    /// Parameter names in order of appearance, where the query used `:name` syntax.
    pub named_params: Option<Vec<String>>,
}

/// The views of a list of strings.
pub open spec fn strings_view(v: Seq<String>) -> Seq<Seq<char>> {
    v.map_values(|s: String| s@)
}

pub open spec fn opt_strings_view(v: Option<Vec<String>>) -> Option<Seq<Seq<char>>> {
    match v {
        Some(n) => Some(strings_view(n@)),
        None => None,
    }
}

/// What mysql_common's named-parameter parser makes of a query: the parameter names in
/// order of appearance (`None` if there are none) and the query with each replaced by `?`;
/// `None` where the query mixes `:name` and `?` parameters.
pub uninterp spec fn named_params_of(q: Seq<char>) -> Option<(Option<Seq<Seq<char>>>, Seq<char>)>;

/// Relies on `mysql_common::named_params::parse_named_params`: a query without named
/// parameters comes back unchanged, and a name list, when given, is not empty.
#[verifier::external_body]
fn parse_named_params(q: &str) -> (r: Result<(Option<Vec<String>>, String), DriverError>)
    ensures
        match r {
            Ok((names, query)) => named_params_of(q@) == Some((opt_strings_view(names), query@)),
            Err(e) => e == DriverError::MixedParams && named_params_of(q@).is_none(),
        },
        r.is_ok() && r.unwrap().0.is_none() ==> r.unwrap().1@ == q@,
        r.is_ok() && r.unwrap().0.is_some() ==> r.unwrap().0.unwrap()@.len() > 0,
{
    match mysql_common::named_params::parse_named_params(q) {
        Ok((names, query)) => Ok((names, query.into_owned())),
        Err(_) => Err(DriverError::MixedParams),
    }
}

/// Splits a query into its parameter names and the query to prepare on the server.
///
/// A query that mixes `:name` and `?` parameters is refused.
pub fn split_named_params(q: &str) -> (r: Result<(Option<Vec<String>>, String), DriverError>)
    ensures
        match r {
            Ok((names, query)) => named_params_of(q@) == Some((opt_strings_view(names), query@)),
            Err(e) => e == DriverError::MixedParams && named_params_of(q@).is_none(),
        },
        r.is_ok() && r.unwrap().0.is_none() ==> r.unwrap().1@ == q@,
{
    parse_named_params(q)
}

/// The first position in `supplied` that holds `name`, or -1.
pub open spec fn first_index(supplied: Seq<Seq<char>>, name: Seq<char>) -> int
    decreases supplied.len(),
{
    if supplied.len() == 0 {
        -1
    } else {
        let r = first_index(supplied.drop_last(), name);
        if r >= 0 {
            r
        } else if supplied.last() == name {
            supplied.len() - 1
        } else {
            -1
        }
    }
}

proof fn lemma_first_index(supplied: Seq<Seq<char>>, name: Seq<char>)
    ensures
        first_index(supplied, name) >= 0 ==> first_index(supplied, name) < supplied.len()
            && supplied[first_index(supplied, name)] == name && forall|k: int|
            0 <= k < first_index(supplied, name) ==> supplied[k] != name,
        first_index(supplied, name) < 0 ==> first_index(supplied, name) == -1 && forall|k: int|
            0 <= k < supplied.len() ==> supplied[k] != name,
    decreases supplied.len(),
{
    if supplied.len() > 0 {
        let init = supplied.drop_last();
        lemma_first_index(init, name);
        assert forall|k: int| 0 <= k < init.len() implies init[k] == supplied[k] by {}
    }
}

proof fn lemma_first_index_at(supplied: Seq<Seq<char>>, name: Seq<char>, j: int)
    requires
        0 <= j < supplied.len(),
        supplied[j] == name,
        forall|k: int| 0 <= k < j ==> supplied[k] != name,
    ensures
        first_index(supplied, name) == j,
{
    lemma_first_index(supplied, name);
    let f = first_index(supplied, name);
    if f < 0 {
        assert(supplied[j] != name);
    } else if f < j {
        assert(supplied[f] != name);
    } else if j < f {
        assert(supplied[j] != name);
    }
}

/// For each name of the statement, in order, where its value stands among the supplied ones.
pub open spec fn positional_order_spec(names: Seq<Seq<char>>, supplied: Seq<Seq<char>>) -> Seq<int> {
    names.map_values(|n: Seq<char>| first_index(supplied, n))
}

/// Finds, for each parameter name of a statement, in order, the supplied value that fills it.
///
/// Fails on the first name with no supplied value.
pub fn positional_order(names: &Vec<String>, supplied: &Vec<String>) -> (r: Result<
    Vec<usize>,
    DriverError,
>)
    ensures
        match r {
            Ok(idx) => idx@.len() == names@.len() && forall|i: int|
                0 <= i < idx@.len() ==> idx@[i] as int == positional_order_spec(
                    strings_view(names@),
                    strings_view(supplied@),
                )[i],
            Err(DriverError::MissingNamedParameter(n)) => exists|i: int|
                0 <= i < names@.len() && n@ == names@[i]@ && first_index(
                    strings_view(supplied@),
                    names@[i]@,
                ) < 0 && forall|k: int|
                    0 <= k < i ==> first_index(strings_view(supplied@), #[trigger] names@[k]@)
                        >= 0,
            Err(_) => false,
        },
        r.is_ok() <==> forall|i: int|
            0 <= i < names@.len() ==> first_index(strings_view(supplied@), #[trigger] names@[i]@)
                >= 0,
{
    let ghost sv = strings_view(supplied@);
    let mut idx: Vec<usize> = Vec::new();
    let mut i: usize = 0;
    while i < names.len()
        invariant
            i <= names@.len(),
            sv == strings_view(supplied@),
            idx@.len() == i,
            forall|k: int|
                0 <= k < i ==> idx@[k] as int == first_index(sv, #[trigger] names@[k]@),
            forall|k: int| 0 <= k < i ==> first_index(sv, #[trigger] names@[k]@) >= 0,
        decreases names@.len() - i,
    {
        let mut j: usize = 0;
        while j < supplied.len() && !(supplied[j] == names[i])
            invariant
                j <= supplied@.len(),
                i < names@.len(),
                sv == strings_view(supplied@),
                forall|k: int| 0 <= k < j ==> sv[k] != names@[i as int]@,
            decreases supplied@.len() - j,
        {
            j = j + 1;
        }
        if j == supplied.len() {
            proof {
                lemma_first_index(sv, names@[i as int]@);
                if first_index(sv, names@[i as int]@) >= 0 {
                    assert(sv[first_index(sv, names@[i as int]@)] == names@[i as int]@);
                }
            }
            return Err(DriverError::MissingNamedParameter(names[i].clone()));
        }
        proof {
            assert(sv[j as int] == names@[i as int]@);
            lemma_first_index_at(sv, names@[i as int]@, j as int);
        }
        idx.push(j);
        i = i + 1;
    }
    Ok(idx)
}

/// When every parameter name has a supplied value, the positional expansion takes the
/// names in the order the query states them: position `i` gets the value supplied under
/// the `i`-th name, repeated names included.
pub proof fn lemma_positional_order_follows_names(names: Seq<Seq<char>>, supplied: Seq<Seq<char>>)
    requires
        forall|i: int| 0 <= i < names.len() ==> first_index(supplied, #[trigger] names[i]) >= 0,
    ensures
        positional_order_spec(names, supplied).len() == names.len(),
        forall|i: int|
            0 <= i < names.len() ==> supplied[#[trigger] positional_order_spec(names, supplied)[i]]
                == names[i],
{
    assert forall|i: int| 0 <= i < names.len() implies supplied[#[trigger] positional_order_spec(
        names,
        supplied,
    )[i]] == names[i] by {
        lemma_first_index(supplied, names[i]);
    }
}

/// The names of a set of named parameters.
pub open spec fn supplied_names(v: Seq<(String, mysql_common::value::Value)>) -> Seq<Seq<char>> {
    v.map_values(|e: (String, mysql_common::value::Value)| e.0@)
}

/// Relies on the derived `Clone` of `mysql_common::value::Value`: the copy equals the original.
pub assume_specification[ <mysql_common::value::Value as Clone>::clone ](
    v: &mysql_common::value::Value,
) -> (r: mysql_common::value::Value)
    ensures
        r == *v,
;

fn supplied_keys(v: &Vec<(String, mysql_common::value::Value)>) -> (r: Vec<String>)
    ensures
        strings_view(r@) == supplied_names(v@),
{
    let mut keys: Vec<String> = Vec::new();
    let mut k: usize = 0;
    while k < v.len()
        invariant
            k <= v@.len(),
            keys@.len() == k,
            forall|j: int| 0 <= j < k ==> #[trigger] keys@[j]@ == v@[j].0@,
        decreases v@.len() - k,
    {
        keys.push(v[k].0.clone());
        k = k + 1;
    }
    proof {
        assert(strings_view(keys@) =~= supplied_names(v@));
    }
    keys
}

fn pick_values(v: &Vec<(String, mysql_common::value::Value)>, order: &Vec<usize>) -> (r: Vec<
    mysql_common::value::Value,
>)
    requires
        forall|j: int| 0 <= j < order@.len() ==> #[trigger] order@[j] < v@.len(),
    ensures
        r@.len() == order@.len(),
        forall|j: int| 0 <= j < order@.len() ==> r@[j] == v@[#[trigger] order@[j] as int].1,
{
    let mut out: Vec<mysql_common::value::Value> = Vec::new();
    let mut i: usize = 0;
    while i < order.len()
        invariant
            i <= order@.len(),
            forall|j: int| 0 <= j < order@.len() ==> #[trigger] order@[j] < v@.len(),
            out@.len() == i,
            forall|j: int| 0 <= j < i ==> out@[j] == v@[#[trigger] order@[j] as int].1,
        decreases order@.len() - i,
    {
        let j = order[i];
        out.push(v[j].1.clone());
        i = i + 1;
    }
    out
}

/// What turning `params` into the positional values of `stmt` gives: the values the
/// statement's parameters take, in their order, or the error that stops the execution.
pub open spec fn values_outcome(
    stmt: Statement,
    params: Params,
    r: Result<Vec<mysql_common::value::Value>, DriverError>,
) -> bool {
    &&& (r.is_ok() ==> r.unwrap()@.len() == stmt.info.num_params)
    &&& match params {
        Params::Empty => if stmt.info.num_params != 0 {
            r == Err::<Vec<mysql_common::value::Value>, DriverError>(
                DriverError::MismatchedStmtParams(stmt.info.num_params, 0),
            )
        } else {
            r.is_ok()
        },
        Params::Positional(v) => if stmt.info.num_params as nat != v@.len() {
            r == Err::<Vec<mysql_common::value::Value>, DriverError>(
                DriverError::MismatchedStmtParams(stmt.info.num_params, v@.len() as usize),
            )
        } else {
            r.is_ok() && r.unwrap()@ == v@
        },
        Params::Named(v) => match stmt.named_params {
            None => r == Err::<Vec<mysql_common::value::Value>, DriverError>(
                DriverError::NamedParamsForPositionalQuery,
            ),
            Some(names) => {
                let order = positional_order_spec(strings_view(names@), supplied_names(v@));
                if exists|i: int|
                    0 <= i < names@.len() && first_index(
                        supplied_names(v@),
                        #[trigger] names@[i]@,
                    ) < 0 {
                    match r {
                        Err(DriverError::MissingNamedParameter(n)) => exists|i: int|
                            0 <= i < names@.len() && n@ == names@[i]@ && first_index(
                                supplied_names(v@),
                                names@[i]@,
                            ) < 0 && forall|k: int|
                                0 <= k < i ==> first_index(supplied_names(v@), #[trigger] names@[k]@)
                                    >= 0,
                        _ => false,
                    }
                } else if stmt.info.num_params as nat != names@.len() {
                    r == Err::<Vec<mysql_common::value::Value>, DriverError>(
                        DriverError::MismatchedStmtParams(
                            stmt.info.num_params,
                            names@.len() as usize,
                        ),
                    )
                } else {
                    r.is_ok() && forall|i: int|
                        0 <= i < names@.len() ==> r.unwrap()@[i] == v@[#[trigger] order[i]].1
                }
            },
        },
    }
}

/// Turns the parameters of one execution into the positional values sent to the server.
///
/// Every error comes before anything is written: a count that differs from the
/// statement's, named values for a statement written with `?`, or a missing name.
pub fn execute_values(stmt: &Statement, params: Params) -> (r: Result<
    Vec<mysql_common::value::Value>,
    DriverError,
>)
    ensures
        values_outcome(*stmt, params, r),
{
    match params {
        Params::Empty => {
            if stmt.info.num_params != 0 {
                return Err(DriverError::MismatchedStmtParams(stmt.info.num_params, 0));
            }
            Ok(Vec::new())
        },
        Params::Positional(v) => {
            if stmt.info.num_params as usize != v.len() {
                return Err(DriverError::MismatchedStmtParams(stmt.info.num_params, v.len()));
            }
            Ok(v)
        },
        Params::Named(v) => {
            let names = match &stmt.named_params {
                None => {
                    return Err(DriverError::NamedParamsForPositionalQuery);
                },
                Some(names) => names,
            };
            let keys = supplied_keys(&v);
            let order = positional_order(names, &keys)?;
            if stmt.info.num_params as usize != names.len() {
                return Err(DriverError::MismatchedStmtParams(stmt.info.num_params, names.len()));
            }
            proof {
                assert forall|j: int| 0 <= j < order@.len() implies #[trigger] order@[j] < v@.len() by {
                    lemma_first_index(strings_view(keys@), names@[j]@);
                }
            }
            let out = pick_values(&v, &order);
            proof {
                let spec_order = positional_order_spec(strings_view(names@), supplied_names(v@));
                assert forall|i: int| 0 <= i < names@.len() implies out@[i] == v@[
                    #[trigger] spec_order[i]].1 by {
                    assert(order@[i] as int == positional_order_spec(
                        strings_view(names@),
                        strings_view(keys@),
                    )[i]);
                }
                assert(!(exists|i: int|
                    0 <= i < names@.len() && first_index(
                        supplied_names(v@),
                        #[trigger] names@[i]@,
                    ) < 0));
            }
            Ok(out)
        },
    }
}

/// Relies on the `Bytes` variant of `mysql_common::value::Value`: its bytes, if it is one.
#[verifier::external_body]
fn value_bytes(v: &mysql_common::value::Value) -> (r: Option<Vec<u8>>) {
    match v {
        mysql_common::value::Value::Bytes(b) => Some(b.clone()),
        _ => None,
    }
}

/// What executing a prepared statement writes.
pub struct ExecRequest {
    /// The `COM_STMT_EXECUTE` body.
    pub body: Vec<u8>,
    /// `COM_STMT_SEND_LONG_DATA` bodies to write before it, in order.
    pub long_data: Vec<Vec<u8>>,
    /// The positional values the request carries, in parameter order.
    pub values: Vec<mysql_common::value::Value>,
    /// The byte values go ahead as long data rather than in the body.
    pub as_long_data: bool,
}

pub open spec fn request_values(r: Result<ExecRequest, DriverError>) -> Result<
    Vec<mysql_common::value::Value>,
    DriverError,
> {
    match r {
        Ok(req) => Ok(req.values),
        Err(e) => Err(e),
    }
}

/// Builds what executing `stmt` with `params` writes to the server.
///
/// The request carries the values of `execute_values`, in parameter order: exactly as many
/// as the statement has parameters. Every error arises before anything is written.
pub fn execute_request(stmt: &Statement, params: Params) -> (r: Result<ExecRequest, DriverError>)
    ensures
        values_outcome(*stmt, params, request_values(r)),
        r.is_ok() ==> ({
            let req = r.unwrap();
            let n = req.values@.len();
            &&& n == stmt.info.num_params
            &&& req.body@.len() >= 10
            &&& req.body@.subrange(0, 10) == execute_head(stmt.info.id)
            &&& (n == 0 ==> req.body@ == execute_head(stmt.info.id) && !req.as_long_data)
            &&& (n > 0 ==> req.body@.len() >= 10 + exec_bitmap_len(n) + 1 + 2 * n
                && req.body@[10 + exec_bitmap_len(n) as int] == 1)
            &&& (!req.as_long_data ==> req.long_data@.len() == 0)
            &&& forall|k: int|
                0 <= k < req.long_data@.len() ==> (#[trigger] req.long_data@[k])@.len() >= 7
                    && req.long_data@[k]@.subrange(0, 5) == command_body(
                    COM_STMT_SEND_LONG_DATA,
                    le32(stmt.info.id),
                )
        }),
{
    let id = stmt.info.id;
    let values = execute_values(stmt, params)?;
    let (body, as_long_data) = build_execute(id, &values);
    let mut long_data: Vec<Vec<u8>> = Vec::new();
    if as_long_data {
        let mut i: usize = 0;
        while i < values.len()
            invariant
                i <= values@.len(),
                values@.len() == stmt.info.num_params,
                forall|k: int|
                    0 <= k < long_data@.len() ==> (#[trigger] long_data@[k])@.len() >= 7
                        && long_data@[k]@.subrange(0, 5) == command_body(
                        COM_STMT_SEND_LONG_DATA,
                        le32(id),
                    ),
            decreases values@.len() - i,
        {
            if let Some(b) = value_bytes(&values[i]) {
                let mut packets = long_data_packets(id, i as u16, &b);
                proof {
                    assert forall|k: int| 0 <= k < packets@.len() implies (#[trigger] packets@[k])@.len()
                        >= 7 && packets@[k]@.subrange(0, 5) == command_body(
                        COM_STMT_SEND_LONG_DATA,
                        le32(id),
                    ) by {
                        let c = long_data_chunk(b@, k);
                        assert(packets@[k]@ == long_data_body(id, i as u16, c));
                        assert(long_data_body(id, i as u16, c).subrange(0, 5) =~= command_body(
                            COM_STMT_SEND_LONG_DATA,
                            le32(id),
                        ));
                    }
                }
                let ghost before = long_data@;
                let ghost moved = packets@;
                long_data.append(&mut packets);
                proof {
                    assert forall|k: int| 0 <= k < long_data@.len() implies (#[trigger] long_data@[k])@.len()
                        >= 7 && long_data@[k]@.subrange(0, 5) == command_body(
                        COM_STMT_SEND_LONG_DATA,
                        le32(id),
                    ) by {
                        if k >= before.len() {
                            assert(long_data@[k] == moved[k - before.len()]);
                        } else {
                            assert(long_data@[k] == before[k]);
                        }
                    }
                }
            }
            i = i + 1;
        }
    }
    Ok(ExecRequest { body, long_data, values, as_long_data })
}

impl Conn {
    /// Builds the request that executes `stmt` with `params` and records `COM_STMT_EXECUTE`
    /// as the command being written. On an error nothing is recorded or written.
    pub fn execute_command(&mut self, stmt: &Statement, params: Params) -> (r: Result<
        ExecRequest,
        DriverError,
    >)
        requires
            old(self).wf(),
            !old(self)@.has_results,
        ensures
            final(self).wf(),
            values_outcome(*stmt, params, request_values(r)),
            r.is_ok() ==> r.unwrap().values@.len() == stmt.info.num_params
                && r.unwrap().body@.subrange(0, 10) == execute_head(stmt.info.id)
                && final(self)@ == (ConnView {
                last_command: COM_STMT_EXECUTE,
                last_ok: None,
                ..old(self)@
            }),
            r.is_err() ==> final(self)@ == old(self)@,
    {
        let req = execute_request(stmt, params)?;
        self.record_command(COM_STMT_EXECUTE);
        Ok(req)
    }
}

} // verus!
