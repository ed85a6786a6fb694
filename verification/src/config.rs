//! Process-wide settings and their bounds.
use crate::text;
use crate::text::decimal_text;
use vstd::prelude::*;

verus! {

/// The settings of a server process.
#[derive(Debug, Clone, Copy, PartialEq, Eq, Structural)]
pub struct Config {
    /// The largest number of open handles.
    pub max_handles: usize,
    /// The number of commands that may wait for one handle.
    pub queue_capacity: usize,
    pub query_timeout_ms: u64,
    /// How long a writable transaction may idle.
    pub writable_idle_seconds: u64,
    /// How long a read-only transaction may idle.
    pub readonly_idle_seconds: u64,
    pub result_row_limit: usize,
    pub result_byte_limit: usize,
    pub schema_byte_limit: usize,
    pub busy_wait_ms: u64,
    pub sql_byte_limit: usize,
    pub cell_byte_limit: usize,
    pub column_limit: usize,
    pub parameter_limit: usize,
    pub expression_depth: usize,
    pub compound_terms: usize,
}

/// The settings that hold where nothing is configured.
pub open spec fn default_config() -> Config {
    Config {
        max_handles: 32,
        queue_capacity: 16,
        query_timeout_ms: 30_000,
        writable_idle_seconds: 60,
        readonly_idle_seconds: 600,
        result_row_limit: 500,
        result_byte_limit: 1_048_576,
        schema_byte_limit: 2_097_152,
        busy_wait_ms: 2_000,
        sql_byte_limit: 102_400,
        cell_byte_limit: 1_048_576,
        column_limit: 256,
        parameter_limit: 1000,
        expression_depth: 100,
        compound_terms: 50,
    }
}

impl Default for Config {
    fn default() -> (r: Self)
        ensures
            r == default_config(),
    {
        Config {
            max_handles: 32,
            queue_capacity: 16,
            query_timeout_ms: 30_000,
            writable_idle_seconds: 60,
            readonly_idle_seconds: 600,
            result_row_limit: 500,
            result_byte_limit: 1_048_576,
            schema_byte_limit: 2_097_152,
            busy_wait_ms: 2_000,
            sql_byte_limit: 102_400,
            cell_byte_limit: 1_048_576,
            column_limit: 256,
            parameter_limit: 1000,
            expression_depth: 100,
            compound_terms: 50,
        }
    }
}

/// Why settings could not be loaded.
#[derive(Debug, Clone)]
pub enum ConfigError {
    /// The file could not be read.
    Io(String),
    /// The file is not of the expected form.
    Parse(String),
    /// A setting is out of bounds.
    Invalid(String),
}

impl ConfigError {
    /// The text of the error.
    pub open spec fn text(self) -> Seq<char> {
        match self {
            ConfigError::Io(m) => "config I/O: "@ + m@,
            ConfigError::Parse(m) => "invalid config: "@ + m@,
            ConfigError::Invalid(m) => "invalid config: "@ + m@,
        }
    }

    /// The text of the error.
    pub fn message(&self) -> (r: String)
        ensures
            r@ == self.text(),
    {
        match self {
            ConfigError::Io(m) => {
                let mut s = "config I/O: ".to_owned();
                s.append(m.as_str());
                s
            },
            ConfigError::Parse(m) => {
                let mut s = "invalid config: ".to_owned();
                s.append(m.as_str());
                s
            },
            ConfigError::Invalid(m) => {
                let mut s = "invalid config: ".to_owned();
                s.append(m.as_str());
                s
            },
        }
    }
}

/// A setting with its value and the largest value that it may have. The smallest
/// is one.
pub type Bound = (Seq<char>, nat, nat);

/// The settings and their bounds, in the order in which they are checked.
pub open spec fn bounds(c: Config) -> Seq<Bound> {
    seq![
        ("max_handles"@, c.max_handles as nat, 1024),
        ("queue_capacity"@, c.queue_capacity as nat, 4096),
        ("query_timeout_ms"@, c.query_timeout_ms as nat, 300_000),
        ("writable_idle_seconds"@, c.writable_idle_seconds as nat, 86_400),
        ("readonly_idle_seconds"@, c.readonly_idle_seconds as nat, 604_800),
        ("result_row_limit"@, c.result_row_limit as nat, 100_000),
        ("result_byte_limit"@, c.result_byte_limit as nat, 67_108_864),
        ("schema_byte_limit"@, c.schema_byte_limit as nat, 67_108_864),
        ("cell_byte_limit"@, c.cell_byte_limit as nat, 67_108_864),
        ("busy_wait_ms"@, c.busy_wait_ms as nat, 60_000),
        ("sql_byte_limit"@, c.sql_byte_limit as nat, 1_048_576),
        ("column_limit"@, c.column_limit as nat, 2048),
        ("parameter_limit"@, c.parameter_limit as nat, 32_766),
        ("expression_depth"@, c.expression_depth as nat, 1000),
        ("compound_terms"@, c.compound_terms as nat, 500),
    ]
}

pub open spec fn in_bounds(b: Bound) -> bool {
    1 <= b.1 <= b.2
}

/// Every setting is within its bounds.
pub open spec fn is_valid(c: Config) -> bool {
    forall|i: int| 0 <= i < bounds(c).len() ==> in_bounds(#[trigger] bounds(c)[i])
}

/// The first setting that is out of bounds.
pub open spec fn is_first_violation(c: Config, i: int) -> bool {
    &&& 0 <= i < bounds(c).len()
    &&& !in_bounds(bounds(c)[i])
    &&& forall|j: int| 0 <= j < i ==> in_bounds(#[trigger] bounds(c)[j])
}

/// The message for a setting that is out of bounds.
pub open spec fn violation(b: Bound) -> Seq<char> {
    b.0 + " must be 1..="@ + text::decimal(b.2) + " (got "@ + text::decimal(b.1) + ")"@
}

fn check_bound(field: &str, value: u64, maximum: u64) -> (r: Result<(), ConfigError>)
    ensures
        match r {
            Ok(()) => in_bounds((field@, value as nat, maximum as nat)),
            Err(e) => !in_bounds((field@, value as nat, maximum as nat)) && (e matches ConfigError::Invalid(
                m,
            ) && m@ == violation((field@, value as nat, maximum as nat))),
        },
{
    if 1 <= value && value <= maximum {
        return Ok(());
    }
    let mut m = field.to_owned();
    m.append(" must be 1..=");
    m.append(decimal_text(maximum).as_str());
    m.append(" (got ");
    m.append(decimal_text(value).as_str());
    m.append(")");
    Err(ConfigError::Invalid(m))
}

impl Config {
    /// Checks every setting against its bounds and reports the first that is out
    /// of them.
    pub fn validate(&self) -> (r: Result<(), ConfigError>)
        ensures
            match r {
                Ok(()) => is_valid(*self),
                Err(e) => exists|i: int| #[trigger]
                    is_first_violation(*self, i) && (e matches ConfigError::Invalid(m) && m@
                        == violation(bounds(*self)[i])),
            },
    {
        let ghost b = bounds(*self);
        if let Err(e) = check_bound("max_handles", self.max_handles as u64, 1024) {
            assert(is_first_violation(*self, 0));
            return Err(e);
        }
        assert(in_bounds(b[0]));
        if let Err(e) = check_bound("queue_capacity", self.queue_capacity as u64, 4096) {
            assert(is_first_violation(*self, 1));
            return Err(e);
        }
        assert(in_bounds(b[1]));
        if let Err(e) = check_bound("query_timeout_ms", self.query_timeout_ms, 300_000) {
            assert(is_first_violation(*self, 2));
            return Err(e);
        }
        assert(in_bounds(b[2]));
        if let Err(e) = check_bound("writable_idle_seconds", self.writable_idle_seconds, 86_400) {
            assert(is_first_violation(*self, 3));
            return Err(e);
        }
        assert(in_bounds(b[3]));
        if let Err(e) = check_bound("readonly_idle_seconds", self.readonly_idle_seconds, 604_800) {
            assert(is_first_violation(*self, 4));
            return Err(e);
        }
        assert(in_bounds(b[4]));
        if let Err(e) = check_bound("result_row_limit", self.result_row_limit as u64, 100_000) {
            assert(is_first_violation(*self, 5));
            return Err(e);
        }
        assert(in_bounds(b[5]));
        if let Err(e) = check_bound("result_byte_limit", self.result_byte_limit as u64, 67_108_864) {
            assert(is_first_violation(*self, 6));
            return Err(e);
        }
        assert(in_bounds(b[6]));
        if let Err(e) = check_bound("schema_byte_limit", self.schema_byte_limit as u64, 67_108_864) {
            assert(is_first_violation(*self, 7));
            return Err(e);
        }
        assert(in_bounds(b[7]));
        if let Err(e) = check_bound("cell_byte_limit", self.cell_byte_limit as u64, 67_108_864) {
            assert(is_first_violation(*self, 8));
            return Err(e);
        }
        assert(in_bounds(b[8]));
        if let Err(e) = check_bound("busy_wait_ms", self.busy_wait_ms, 60_000) {
            assert(is_first_violation(*self, 9));
            return Err(e);
        }
        assert(in_bounds(b[9]));
        if let Err(e) = check_bound("sql_byte_limit", self.sql_byte_limit as u64, 1_048_576) {
            assert(is_first_violation(*self, 10));
            return Err(e);
        }
        assert(in_bounds(b[10]));
        if let Err(e) = check_bound("column_limit", self.column_limit as u64, 2048) {
            assert(is_first_violation(*self, 11));
            return Err(e);
        }
        assert(in_bounds(b[11]));
        if let Err(e) = check_bound("parameter_limit", self.parameter_limit as u64, 32_766) {
            assert(is_first_violation(*self, 12));
            return Err(e);
        }
        assert(in_bounds(b[12]));
        if let Err(e) = check_bound("expression_depth", self.expression_depth as u64, 1000) {
            assert(is_first_violation(*self, 13));
            return Err(e);
        }
        assert(in_bounds(b[13]));
        if let Err(e) = check_bound("compound_terms", self.compound_terms as u64, 500) {
            assert(is_first_violation(*self, 14));
            return Err(e);
        }
        assert(in_bounds(b[14]));
        Ok(())
    }
}

/// The default settings are valid.
pub proof fn default_is_valid()
    ensures
        is_valid(default_config()),
{
}

/// Valid limits fit the 32-bit values that the engine takes.
pub proof fn valid_limits_fit_the_engine(c: Config)
    requires
        is_valid(c),
    ensures
        c.cell_byte_limit <= i32::MAX,
        c.expression_depth <= i32::MAX,
        c.compound_terms <= i32::MAX,
        c.parameter_limit <= i32::MAX,
{
    assert(in_bounds(bounds(c)[8]));
    assert(in_bounds(bounds(c)[12]));
    assert(in_bounds(bounds(c)[13]));
    assert(in_bounds(bounds(c)[14]));
}

/// Settings are taken exactly where each is at least one and at most its own
/// maximum.
pub proof fn settings_have_bounds(settings: &Config, r: Result<(), ConfigError>)
    requires
        call_ensures(Config::validate, (settings,), r),
    ensures
        r is Ok <==> {
            &&& 1 <= settings.max_handles <= 1024
            &&& 1 <= settings.queue_capacity <= 4096
            &&& 1 <= settings.query_timeout_ms <= 300_000
            &&& 1 <= settings.writable_idle_seconds <= 86_400
            &&& 1 <= settings.readonly_idle_seconds <= 604_800
            &&& 1 <= settings.result_row_limit <= 100_000
            &&& 1 <= settings.result_byte_limit <= 67_108_864
            &&& 1 <= settings.schema_byte_limit <= 67_108_864
            &&& 1 <= settings.cell_byte_limit <= 67_108_864
            &&& 1 <= settings.busy_wait_ms <= 60_000
            &&& 1 <= settings.sql_byte_limit <= 1_048_576
            &&& 1 <= settings.column_limit <= 2048
            &&& 1 <= settings.parameter_limit <= 32_766
            &&& 1 <= settings.expression_depth <= 1000
            &&& 1 <= settings.compound_terms <= 500
        },
{
    let c = *settings;
    if r is Ok {
        assert(in_bounds(bounds(c)[0]));
        assert(in_bounds(bounds(c)[1]));
        assert(in_bounds(bounds(c)[2]));
        assert(in_bounds(bounds(c)[3]));
        assert(in_bounds(bounds(c)[4]));
        assert(in_bounds(bounds(c)[5]));
        assert(in_bounds(bounds(c)[6]));
        assert(in_bounds(bounds(c)[7]));
        assert(in_bounds(bounds(c)[8]));
        assert(in_bounds(bounds(c)[9]));
        assert(in_bounds(bounds(c)[10]));
        assert(in_bounds(bounds(c)[11]));
        assert(in_bounds(bounds(c)[12]));
        assert(in_bounds(bounds(c)[13]));
        assert(in_bounds(bounds(c)[14]));
    }
}

/// A refusal names a setting with the bounds that it breaks and the value that it
/// has.
pub proof fn refusals_name_the_setting(settings: &Config, e: ConfigError)
    requires
        call_ensures(Config::validate, (settings,), Err::<(), ConfigError>(e)),
    ensures
        e is Invalid,
        !(1 <= settings.max_handles <= 1024) ==> e->Invalid_0@ == "max_handles"@ + " must be 1..="@
            + text::decimal(1024) + " (got "@ + text::decimal(settings.max_handles as nat) + ")"@,
        1 <= settings.max_handles <= 1024 && !(1 <= settings.queue_capacity <= 4096) ==>
            e->Invalid_0@ == "queue_capacity"@ + " must be 1..="@ + text::decimal(4096) + " (got "@
            + text::decimal(settings.queue_capacity as nat) + ")"@,
{
    let c = *settings;
    let i = choose|i: int| #[trigger]
        is_first_violation(c, i) && e->Invalid_0@ == violation(bounds(c)[i]);
    if !(1 <= c.max_handles <= 1024) {
        assert(!in_bounds(bounds(c)[0]));
        if i > 0 {
            assert(in_bounds(bounds(c)[0]));
        }
        assert(i == 0);
    } else if !(1 <= c.queue_capacity <= 4096) {
        assert(!in_bounds(bounds(c)[1]));
        if i > 1 {
            assert(in_bounds(bounds(c)[1]));
        }
        assert(i == 1);
    }
}

/// Each failure to load settings says what failed.
pub proof fn load_failures_say_what_failed(error: ConfigError, r: String)
    requires
        call_ensures(ConfigError::message, (&error,), r),
    ensures
        error matches ConfigError::Io(m) ==> r@ == "config I/O: "@ + m@,
        error matches ConfigError::Parse(m) ==> r@ == "invalid config: "@ + m@,
        error matches ConfigError::Invalid(m) ==> r@ == "invalid config: "@ + m@,
{
}

} // verus!
