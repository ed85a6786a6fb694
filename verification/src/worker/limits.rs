//! Limits that a worker sets on its connection.
use crate::operation::{EffectiveLimits, LimitInstallError};
use crate::outside::{engine_limit, set_engine_limit, EngineLimit};
use crate::worker::error::SqliteFailure;
use vstd::prelude::*;

verus! {

/// The limits of a worker.
#[derive(Clone, Copy, Debug, PartialEq, Eq, Structural)]
pub struct WorkerLimits {
    pub cell_byte_limit: usize,
    pub sql_byte_limit: usize,
    pub column_limit: usize,
    pub expression_depth: usize,
    pub compound_terms: usize,
    pub parameter_limit: usize,
}

/// What came of setting one limit: the value in force is the requested one, or
/// the limit is refused.
pub open spec fn installed(
    field: &'static str,
    requested: usize,
    set: Result<(), SqliteFailure>,
    effective: Result<i32, SqliteFailure>,
) -> Result<i32, LimitInstallError> {
    match set {
        Err(source) => Err(LimitInstallError::Sqlite { field, source }),
        Ok(()) => match effective {
            Err(source) => Err(LimitInstallError::Sqlite { field, source }),
            Ok(value) => if value == requested {
                Ok(value)
            } else {
                Err(LimitInstallError::Unsupported { field, requested, effective: Some(value) })
            },
        },
    }
}

/// Judges what setting a limit and reading it back gave.
pub fn check_installed(
    field: &'static str,
    requested: usize,
    set: Result<(), SqliteFailure>,
    effective: Result<i32, SqliteFailure>,
) -> (r: Result<i32, LimitInstallError>)
    ensures
        r == installed(field, requested, set, effective),
{
    if let Err(source) = set {
        return Err(LimitInstallError::Sqlite { field, source });
    }
    match effective {
        Err(source) => Err(LimitInstallError::Sqlite { field, source }),
        Ok(value) => if value >= 0 && value as usize == requested {
            Ok(value)
        } else {
            Err(LimitInstallError::Unsupported { field, requested, effective: Some(value) })
        },
    }
}

/// What is asked of the engine: for each limit that it enforces the setting, the
/// limit and the value, in the order in which they are set.
pub open spec fn engine_requests(l: WorkerLimits) -> Seq<(Seq<char>, EngineLimit, usize)> {
    seq![
        ("cell_byte_limit"@, EngineLimit::Length, l.cell_byte_limit),
        ("expression_depth"@, EngineLimit::ExpressionDepth, l.expression_depth),
        ("compound_terms"@, EngineLimit::CompoundSelect, l.compound_terms),
        ("parameter_limit"@, EngineLimit::VariableNumber, l.parameter_limit),
    ]
}

/// One of the four requests to the engine.
pub fn engine_request(l: &WorkerLimits, i: usize) -> (r: (&'static str, EngineLimit, usize))
    requires
        i < 4,
    ensures
        (r.0@, r.1, r.2) == engine_requests(*l)[i as int],
{
    if i == 0 {
        ("cell_byte_limit", EngineLimit::Length, l.cell_byte_limit)
    } else if i == 1 {
        ("expression_depth", EngineLimit::ExpressionDepth, l.expression_depth)
    } else if i == 2 {
        ("compound_terms", EngineLimit::CompoundSelect, l.compound_terms)
    } else {
        ("parameter_limit", EngineLimit::VariableNumber, l.parameter_limit)
    }
}

/// A refusal of this setting and value: it does not fit the engine's type, or the
/// engine uses another value.
pub open spec fn refuses(e: LimitInstallError, name: Seq<char>, value: usize) -> bool {
    match e {
        LimitInstallError::Conversion { field, requested } => field@ == name && requested == value
            && value > i32::MAX,
        LimitInstallError::Unsupported { field, requested, effective } => field@ == name
            && requested == value && value <= i32::MAX && (effective matches Some(v) && v != value
            && v >= 0),
        LimitInstallError::Sqlite { .. } => false,
    }
}

/// The request at `i` is the first one that is not in force as configured.
pub open spec fn is_refused_at(l: WorkerLimits, e: LimitInstallError, i: int) -> bool {
    &&& 0 <= i < 4
    &&& refuses(e, engine_requests(l)[i].0, engine_requests(l)[i].2)
    &&& forall|j: int| 0 <= j < i ==> (#[trigger] engine_requests(l)[j]).2 <= i32::MAX
}

/// The values in force, in the order in which they are set.
pub open spec fn effective_values(e: EffectiveLimits) -> Seq<i32> {
    seq![e.cell_byte_limit, e.expression_depth, e.compound_terms, e.parameter_limit]
}

fn install_one(conn: &rusqlite::Connection, request: (&'static str, EngineLimit, usize)) -> (r:
    Result<i32, LimitInstallError>)
    ensures
        match r {
            Ok(value) => value == request.2,
            Err(e) => refuses(e, request.0@, request.2),
        },
{
    let (field, limit, requested) = request;
    if requested > i32::MAX as usize {
        return Err(LimitInstallError::Conversion { field, requested });
    }
    let set = set_engine_limit(conn, limit, requested as i32);
    if let Err(source) = set {
        return Err(LimitInstallError::Sqlite { field, source });
    }
    let effective = engine_limit(conn, limit);
    check_installed(field, requested, set, effective)
}

/// Sets the limits that the engine enforces, one request after the other, and
/// reads each back. The first that is not in force as configured ends it.
///
/// Nothing is said of the values that the engine has for its ceilings, nor of what
/// it enforces afterwards: both are inside the connection.
pub fn install_limits(conn: &rusqlite::Connection, limits: &WorkerLimits) -> (r: Result<
    EffectiveLimits,
    LimitInstallError,
>)
    ensures
        match r {
            Ok(e) => forall|i: int|
                0 <= i < 4 ==> #[trigger] effective_values(e)[i] == engine_requests(*limits)[i].2,
            Err(e) => exists|i: int| #[trigger] is_refused_at(*limits, e, i),
        },
{
    let mut values: Vec<i32> = Vec::new();
    let mut i: usize = 0;
    while i < 4
        invariant
            i <= 4,
            values@.len() == i,
            forall|j: int|
                0 <= j < i ==> #[trigger] values@[j] == engine_requests(*limits)[j].2,
        decreases 4 - i,
    {
        match install_one(conn, engine_request(limits, i)) {
            Ok(value) => {
                values.push(value);
            },
            Err(e) => {
                proof {
                    assert forall|j: int| 0 <= j < i implies (
                    #[trigger] engine_requests(*limits)[j]).2 <= i32::MAX by {
                        assert(values@[j] == engine_requests(*limits)[j].2);
                    }
                    assert(is_refused_at(*limits, e, i as int));
                }
                return Err(e);
            },
        }
        i += 1;
    }
    let effective = EffectiveLimits {
        cell_byte_limit: values[0],
        expression_depth: values[1],
        compound_terms: values[2],
        parameter_limit: values[3],
    };
    assert(effective_values(effective) =~= values@);
    Ok(effective)
}

/// A limit counts as set exactly where it could be set and read back and the value
/// read back is the one asked for.
pub proof fn limits_are_read_back(
    field: &'static str,
    requested: usize,
    set: Result<(), SqliteFailure>,
    effective: Result<i32, SqliteFailure>,
    r: Result<i32, LimitInstallError>,
)
    requires
        call_ensures(check_installed, (field, requested, set, effective), r),
    ensures
        r is Ok <==> set is Ok && (effective matches Ok(v) && v == requested),
        r matches Ok(v) ==> v == requested,
        set is Ok ==> (effective matches Ok(v) ==> (v != requested ==> r == Err::<
            i32,
            LimitInstallError,
        >(LimitInstallError::Unsupported { field, requested, effective: Some(v) }))),
{
}

/// The engine is asked for each of the four limits that it enforces, with the value
/// that is configured for it.
pub proof fn every_limit_is_asked_for(
    l: &WorkerLimits,
    a: (&'static str, EngineLimit, usize),
    b: (&'static str, EngineLimit, usize),
    c: (&'static str, EngineLimit, usize),
    d: (&'static str, EngineLimit, usize),
)
    requires
        call_ensures(engine_request, (l, 0), a),
        call_ensures(engine_request, (l, 1), b),
        call_ensures(engine_request, (l, 2), c),
        call_ensures(engine_request, (l, 3), d),
    ensures
        a.0@ == "cell_byte_limit"@ && a.1 == EngineLimit::Length && a.2 == l.cell_byte_limit,
        b.0@ == "expression_depth"@ && b.1 == EngineLimit::ExpressionDepth && b.2
            == l.expression_depth,
        c.0@ == "compound_terms"@ && c.1 == EngineLimit::CompoundSelect && c.2
            == l.compound_terms,
        d.0@ == "parameter_limit"@ && d.1 == EngineLimit::VariableNumber && d.2
            == l.parameter_limit,
{
}

/// Limits that are in force are those that are configured, each in its place.
pub proof fn limits_in_force_are_the_configured_ones(
    conn: &rusqlite::Connection,
    limits: &WorkerLimits,
    r: Result<EffectiveLimits, LimitInstallError>,
)
    requires
        call_ensures(install_limits, (conn, limits), r),
    ensures
        r matches Ok(e) ==> {
            &&& e.cell_byte_limit == limits.cell_byte_limit
            &&& e.expression_depth == limits.expression_depth
            &&& e.compound_terms == limits.compound_terms
            &&& e.parameter_limit == limits.parameter_limit
        },
{
    if r is Ok {
        let e = r->Ok_0;
        assert(effective_values(e)[0] == engine_requests(*limits)[0].2);
        assert(effective_values(e)[1] == engine_requests(*limits)[1].2);
        assert(effective_values(e)[2] == engine_requests(*limits)[2].2);
        assert(effective_values(e)[3] == engine_requests(*limits)[3].2);
    }
}

} // verus!
