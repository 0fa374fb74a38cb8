//! Sequences (`CREATE SEQUENCE`, `nextval`, `setval`, `serial` and identity
//! columns).
//!
//! As in PostgreSQL, a sequence is a relation holding one row: a table whose
//! columns are [`sequence_columns`] (PostgreSQL's `last_value`, `log_cnt`, and
//! `is_called`, then the sequence's options). `nextval` and `setval` advance it
//! in their own transaction, committed at once, so a value handed out is never
//! handed out again, even if the caller rolls back.
use vstd::prelude::*;
use crate::plan_types::ScalarExpr;
use crate::referential::{no_column_of, no_column_text};
use crate::text::{
    chars_of, concat2, concat3, decimal, index_of, int_text, lemma_index_of, lower, lower_text, opt_text, push_text,
    same_text, split, split_once, split_once_text, split_text, text_between, texts, trim_text,
    trimmed,
};
use crate::value::{vals, Val, Value};

verus! {

/// How many times `nextval`/`setval` retry after losing a write race.
pub const MAX_ATTEMPTS: usize = 64;

/// The names of a sequence relation's columns.
pub open spec fn sequence_names() -> Seq<Seq<char>> {
    seq![
        "last_value"@,
        "log_cnt"@,
        "is_called"@,
        "start_value"@,
        "min_value"@,
        "max_value"@,
        "increment_by"@,
        "cycle"@,
        "cache_size"@,
        "data_type"@,
    ]
}

/// The types of a sequence relation's columns.
pub open spec fn sequence_types() -> Seq<Seq<char>> {
    seq![
        "BIGINT"@,
        "BIGINT"@,
        "BOOLEAN"@,
        "BIGINT"@,
        "BIGINT"@,
        "BIGINT"@,
        "BIGINT"@,
        "BOOLEAN"@,
        "BIGINT"@,
        "TEXT"@,
    ]
}

/// A sequence relation's columns, in order, as names and types.
pub fn sequence_columns() -> (r: (Vec<String>, Vec<String>))
    ensures
        texts(r.0@) == sequence_names(),
        texts(r.1@) == sequence_types(),
{
    let mut names: Vec<String> = Vec::new();
    names.push("last_value".to_owned());
    names.push("log_cnt".to_owned());
    names.push("is_called".to_owned());
    names.push("start_value".to_owned());
    names.push("min_value".to_owned());
    names.push("max_value".to_owned());
    names.push("increment_by".to_owned());
    names.push("cycle".to_owned());
    names.push("cache_size".to_owned());
    names.push("data_type".to_owned());
    let mut types: Vec<String> = Vec::new();
    types.push("BIGINT".to_owned());
    types.push("BIGINT".to_owned());
    types.push("BOOLEAN".to_owned());
    types.push("BIGINT".to_owned());
    types.push("BIGINT".to_owned());
    types.push("BIGINT".to_owned());
    types.push("BIGINT".to_owned());
    types.push("BOOLEAN".to_owned());
    types.push("BIGINT".to_owned());
    types.push("TEXT".to_owned());
    assert(texts(names@) =~= sequence_names());
    assert(texts(types@) =~= sequence_types());
    (names, types)
}

/// Whether a table with these columns is a sequence relation.
pub fn is_sequence(columns: &Vec<String>) -> (r: bool)
    ensures
        r == (texts(columns@) == sequence_names()),
{
    let (names, _) = sequence_columns();
    assert(texts(names@).len() == names@.len());
    assert(texts(columns@).len() == columns@.len());
    if columns.len() != names.len() {
        return false;
    }
    let mut i: usize = 0;
    while i < names.len()
        invariant
            i <= names@.len() == columns@.len(),
            texts(names@) == sequence_names(),
            forall|k: int| 0 <= k < i ==> columns@[k]@ == names@[k]@,
        decreases names@.len() - i,
    {
        if !same_text(columns[i].as_str(), names[i].as_str()) {
            assert(texts(columns@)[i as int] != texts(names@)[i as int]);
            return false;
        }
        i = i + 1;
    }
    assert(texts(columns@) =~= texts(names@));
    true
}

/// The name of the sequence a `serial` or identity column draws from.
pub fn owned_sequence_name(table: &str, column: &str) -> (r: String)
    ensures
        r@ == table@ + "_"@ + column@ + "_seq"@,
{
    let mut out = concat3(table, "_", column);
    push_text(&mut out, "_seq");
    out
}

/// A sequence's definition, as `CREATE SEQUENCE` (or a `serial`/identity
/// column) specifies it. Unset bounds take the defaults for the data type and
/// direction.
#[derive(Debug, PartialEq)]
pub struct SequenceSpec {
    /// `smallint`, `integer`, or `bigint` (the default).
    pub data_type: Option<String>,
    pub increment: Option<i64>,
    pub min_value: Option<i64>,
    pub max_value: Option<i64>,
    pub start: Option<i64>,
    pub cache: Option<i64>,
    pub cycle: bool,
}

impl Default for SequenceSpec {
    /// A definition that sets nothing.
    fn default() -> (r: SequenceSpec)
        ensures
            r == (SequenceSpec {
                data_type: None,
                increment: None,
                min_value: None,
                max_value: None,
                start: None,
                cache: None,
                cycle: false,
            }),
    {
        SequenceSpec {
            data_type: None,
            increment: None,
            min_value: None,
            max_value: None,
            start: None,
            cache: None,
            cycle: false,
        }
    }
}

/// A sequence's stored state and options.
#[derive(Debug, PartialEq)]
pub struct SequenceState {
    pub last_value: i64,
    pub is_called: bool,
    pub start: i64,
    pub min: i64,
    pub max: i64,
    pub increment: i64,
    pub cycle: bool,
    pub cache: i64,
    pub data_type: String,
}

/// What a [`SequenceState`] stands for.
#[verifier::ext_equal]
pub struct StateView {
    pub last_value: i64,
    pub is_called: bool,
    pub start: i64,
    pub min: i64,
    pub max: i64,
    pub increment: i64,
    pub cycle: bool,
    pub cache: i64,
    pub data_type: Seq<char>,
}

impl View for SequenceState {
    type V = StateView;

    open spec fn view(&self) -> StateView {
        StateView {
            last_value: self.last_value,
            is_called: self.is_called,
            start: self.start,
            min: self.min,
            max: self.max,
            increment: self.increment,
            cycle: self.cycle,
            cache: self.cache,
            data_type: self.data_type@,
        }
    }
}

impl StateView {
    /// The last value and the start lie within the bounds, and a step moves.
    pub open spec fn well_formed(self) -> bool {
        &&& self.min < self.max
        &&& self.min <= self.last_value <= self.max
        &&& self.min <= self.start <= self.max
        &&& self.increment != 0
        &&& self.cache >= 1
    }
}

/// The canonical name of a sequence's data type.
pub open spec fn sequence_type(t: Option<Seq<char>>) -> Option<Seq<char>> {
    match t {
        None => Some("bigint"@),
        Some(name) => {
            let n = lower(trimmed(name));
            if n == "bigint"@ || n == "int8"@ {
                Some("bigint"@)
            } else if n == "integer"@ || n == "int"@ || n == "int4"@ {
                Some("integer"@)
            } else if n == "smallint"@ || n == "int2"@ {
                Some("smallint"@)
            } else {
                None
            }
        },
    }
}

/// The least and greatest value of a data type.
pub open spec fn type_range(t: Seq<char>) -> (i64, i64) {
    if t == "smallint"@ {
        (i16::MIN as i64, i16::MAX as i64)
    } else if t == "integer"@ {
        (i32::MIN as i64, i32::MAX as i64)
    } else {
        (i64::MIN, i64::MAX)
    }
}

/// The value of an option, or a default.
pub open spec fn or_else(v: Option<i64>, default: i64) -> i64 {
    match v {
        Some(x) => x,
        None => default,
    }
}

/// The initial state for a definition, or the message that refuses it.
pub open spec fn initial_state(s: SequenceSpec) -> Result<StateView, Seq<char>> {
    match sequence_type(opt_text(s.data_type)) {
        None => Err(
            "sequence type must be smallint, integer, or bigint, not "@ + lower(
                trimmed(s.data_type->0@),
            ),
        ),
        Some(t) => {
            let (type_min, type_max) = type_range(t);
            let increment = or_else(s.increment, 1);
            let up = increment > 0;
            let min = or_else(
                s.min_value,
                if up {
                    1
                } else {
                    type_min
                },
            );
            let max = or_else(
                s.max_value,
                if up {
                    type_max
                } else {
                    (-1) as i64
                },
            );
            let start = or_else(
                s.start,
                if up {
                    min
                } else {
                    max
                },
            );
            let cache = or_else(s.cache, 1);
            if increment == 0 {
                Err("INCREMENT must not be zero"@)
            } else if min < type_min || max > type_max {
                Err("MINVALUE and MAXVALUE must be within the range of type "@ + t)
            } else if min >= max {
                Err(
                    "MINVALUE ("@ + decimal(min as int) + ") must be less than MAXVALUE ("@
                        + decimal(max as int) + ")"@,
                )
            } else if start < min {
                Err(
                    "START value ("@ + decimal(start as int) + ") cannot be less than MINVALUE ("@
                        + decimal(min as int) + ")"@,
                )
            } else if start > max {
                Err(
                    "START value ("@ + decimal(start as int)
                        + ") cannot be greater than MAXVALUE ("@ + decimal(max as int) + ")"@,
                )
            } else if cache < 1 {
                Err("CACHE ("@ + decimal(cache as int) + ") must be greater than zero"@)
            } else {
                Ok(
                    StateView {
                        last_value: start,
                        is_called: false,
                        start,
                        min,
                        max,
                        increment,
                        cycle: s.cycle,
                        cache,
                        data_type: t,
                    },
                )
            }
        },
    }
}

/// What a state result stands for.
pub open spec fn state_result(r: Result<SequenceState, String>) -> Result<StateView, Seq<char>> {
    match r {
        Ok(s) => Ok(s@),
        Err(m) => Err(m@),
    }
}

/// What a value result stands for.
pub open spec fn value_result(r: Result<i64, String>) -> Result<i64, Seq<char>> {
    match r {
        Ok(v) => Ok(v),
        Err(m) => Err(m@),
    }
}

/// `a (x) b (y) c`, as the messages write two values.
fn two_values(a: &str, x: i64, b: &str, y: i64, c: &str) -> (r: String)
    ensures
        r@ == a@ + decimal(x as int) + b@ + decimal(y as int) + c@,
{
    let mut out = a.to_owned();
    let first = int_text(x);
    push_text(&mut out, first.as_str());
    push_text(&mut out, b);
    let second = int_text(y);
    push_text(&mut out, second.as_str());
    push_text(&mut out, c);
    out
}

/// The row a state is stored as.
pub open spec fn state_row(s: StateView) -> Seq<Val> {
    seq![
        Val::Int(s.last_value),
        Val::Int(0),
        Val::Bool(s.is_called),
        Val::Int(s.start),
        Val::Int(s.min),
        Val::Int(s.max),
        Val::Int(s.increment),
        Val::Bool(s.cycle),
        Val::Int(s.cache),
        Val::Text(s.data_type),
    ]
}

/// The integer at a position of a row.
pub open spec fn int_cell(row: Seq<Val>, i: int) -> Option<i64> {
    if i < row.len() {
        match row[i] {
            Val::Int(v) => Some(v),
            _ => None,
        }
    } else {
        None
    }
}

/// The boolean at a position of a row.
pub open spec fn bool_cell(row: Seq<Val>, i: int) -> Option<bool> {
    if i < row.len() {
        match row[i] {
            Val::Bool(v) => Some(v),
            _ => None,
        }
    } else {
        None
    }
}

/// The state a stored row holds; a missing data type is `bigint`.
pub open spec fn row_state(row: Seq<Val>) -> Option<StateView> {
    if int_cell(row, 0) is Some && bool_cell(row, 2) is Some && int_cell(row, 3) is Some
        && int_cell(row, 4) is Some && int_cell(row, 5) is Some && int_cell(row, 6) is Some
        && bool_cell(row, 7) is Some && int_cell(row, 8) is Some {
        Some(
            StateView {
                last_value: int_cell(row, 0)->0,
                is_called: bool_cell(row, 2)->0,
                start: int_cell(row, 3)->0,
                min: int_cell(row, 4)->0,
                max: int_cell(row, 5)->0,
                increment: int_cell(row, 6)->0,
                cycle: bool_cell(row, 7)->0,
                cache: int_cell(row, 8)->0,
                data_type: if row.len() > 9 && row[9] is Text {
                    row[9]->Text_0
                } else {
                    "bigint"@
                },
            },
        )
    } else {
        None
    }
}

fn read_int(row: &Vec<Value>, i: usize) -> (r: Option<i64>)
    ensures
        r == int_cell(vals(row@), i as int),
{
    if i < row.len() {
        assert(vals(row@)[i as int] == row@[i as int]@);
        match &row[i] {
            Value::Int(v) => Some(*v),
            _ => None,
        }
    } else {
        None
    }
}

fn read_bool(row: &Vec<Value>, i: usize) -> (r: Option<bool>)
    ensures
        r == bool_cell(vals(row@), i as int),
{
    if i < row.len() {
        assert(vals(row@)[i as int] == row@[i as int]@);
        match &row[i] {
            Value::Bool(v) => Some(*v),
            _ => None,
        }
    } else {
        None
    }
}

/// What `nextval` hands out next: the last value itself until it has been
/// handed out, then the next step, or on leaving the bounds the opposite bound
/// of a cycling sequence.
pub open spec fn next_value(s: StateView, name: Seq<char>) -> Result<i64, Seq<char>> {
    let stepped = s.last_value + s.increment;
    if !s.is_called {
        Ok(s.last_value)
    } else if i64::MIN <= stepped <= i64::MAX && s.min <= stepped <= s.max {
        Ok(stepped as i64)
    } else if s.cycle {
        Ok(
            if s.increment > 0 {
                s.min
            } else {
                s.max
            },
        )
    } else if s.increment > 0 {
        Err(
            "nextval: reached maximum value of sequence \""@ + name + "\" ("@ + decimal(
                s.max as int,
            ) + ")"@,
        )
    } else {
        Err(
            "nextval: reached minimum value of sequence \""@ + name + "\" ("@ + decimal(
                s.min as int,
            ) + ")"@,
        )
    }
}

/// The state after `nextval`.
pub open spec fn advanced(s: StateView, name: Seq<char>) -> Result<StateView, Seq<char>> {
    match next_value(s, name) {
        Ok(v) => Ok(StateView { last_value: v, is_called: true, ..s }),
        Err(m) => Err(m),
    }
}

/// The state after `setval`.
pub open spec fn set_to(s: StateView, name: Seq<char>, value: i64, is_called: bool) -> Result<
    StateView,
    Seq<char>,
> {
    if s.min <= value <= s.max {
        Ok(StateView { last_value: value, is_called, ..s })
    } else {
        Err(
            "setval: value "@ + decimal(value as int) + " is out of bounds for sequence \""@ + name
                + "\" ("@ + decimal(s.min as int) + ".."@ + decimal(s.max as int) + ")"@,
        )
    }
}

/// The state after a restart.
pub open spec fn restarted(s: StateView) -> StateView {
    StateView { last_value: s.start, is_called: false, ..s }
}

impl SequenceState {
    /// The initial state for a definition, with PostgreSQL's defaults and
    /// validation.
    pub fn new(spec: &SequenceSpec) -> (r: Result<SequenceState, String>)
        ensures
            state_result(r) == initial_state(*spec),
    {
        let data_type: &'static str = match &spec.data_type {
            None => "bigint",
            Some(t) => {
                let bare = trim_text(t.as_str());
                let low = lower_text(bare.as_str());
                let n = low.as_str();
                if same_text(n, "bigint") || same_text(n, "int8") {
                    "bigint"
                } else if same_text(n, "integer") || same_text(n, "int") || same_text(n, "int4") {
                    "integer"
                } else if same_text(n, "smallint") || same_text(n, "int2") {
                    "smallint"
                } else {
                    return Err(
                        concat2("sequence type must be smallint, integer, or bigint, not ", n),
                    );
                }
            },
        };
        let (type_min, type_max): (i64, i64) = if same_text(data_type, "smallint") {
            (-32768, 32767)
        } else if same_text(data_type, "integer") {
            (-2147483648, 2147483647)
        } else {
            (i64::MIN, i64::MAX)
        };
        let increment: i64 = spec.increment.unwrap_or(1);
        if increment == 0 {
            return Err("INCREMENT must not be zero".to_owned());
        }
        let up: bool = increment > 0;
        let min: i64 = spec.min_value.unwrap_or(
            if up {
                1
            } else {
                type_min
            },
        );
        let max: i64 = spec.max_value.unwrap_or(
            if up {
                type_max
            } else {
                -1
            },
        );
        if min < type_min || max > type_max {
            return Err(
                concat2("MINVALUE and MAXVALUE must be within the range of type ", data_type),
            );
        }
        if min >= max {
            return Err(
                two_values("MINVALUE (", min, ") must be less than MAXVALUE (", max, ")"),
            );
        }
        let start: i64 = spec.start.unwrap_or(
            if up {
                min
            } else {
                max
            },
        );
        if start < min {
            return Err(
                two_values("START value (", start, ") cannot be less than MINVALUE (", min, ")"),
            );
        }
        if start > max {
            return Err(
                two_values("START value (", start, ") cannot be greater than MAXVALUE (", max, ")"),
            );
        }
        let cache: i64 = spec.cache.unwrap_or(1);
        if cache < 1 {
            let shown = int_text(cache);
            return Err(concat3("CACHE (", shown.as_str(), ") must be greater than zero"));
        }
        Ok(
            SequenceState {
                last_value: start,
                is_called: false,
                start,
                min,
                max,
                increment,
                cycle: spec.cycle,
                cache,
                data_type: data_type.to_owned(),
            },
        )
    }

    /// The stored row, in [`sequence_columns`] order.
    pub fn to_row(&self) -> (r: Vec<Value>)
        ensures
            vals(r@) == state_row(self@),
    {
        let mut row: Vec<Value> = Vec::new();
        row.push(Value::Int(self.last_value));
        row.push(Value::Int(0));
        row.push(Value::Bool(self.is_called));
        row.push(Value::Int(self.start));
        row.push(Value::Int(self.min));
        row.push(Value::Int(self.max));
        row.push(Value::Int(self.increment));
        row.push(Value::Bool(self.cycle));
        row.push(Value::Int(self.cache));
        row.push(Value::Text(self.data_type.clone()));
        assert(vals(row@) =~= state_row(self@));
        row
    }

    /// The state a stored row holds.
    pub fn from_row(row: &Vec<Value>) -> (r: Result<SequenceState, String>)
        ensures
            match (r, row_state(vals(row@))) {
                (Ok(s), Some(v)) => s@ == v,
                (Err(m), None) => m@ == "sequence row is malformed"@,
                _ => false,
            },
    {
        match (
            read_int(row, 0),
            read_bool(row, 2),
            read_int(row, 3),
            read_int(row, 4),
            read_int(row, 5),
            read_int(row, 6),
            read_bool(row, 7),
            read_int(row, 8),
        ) {
            (
                Some(last_value),
                Some(is_called),
                Some(start),
                Some(min),
                Some(max),
                Some(increment),
                Some(cycle),
                Some(cache),
            ) => {
                let data_type = if row.len() > 9 {
                    assert(vals(row@)[9] == row@[9]@);
                    match &row[9] {
                        Value::Text(t) => t.clone(),
                        _ => "bigint".to_owned(),
                    }
                } else {
                    "bigint".to_owned()
                };
                Ok(
                    SequenceState {
                        last_value,
                        is_called,
                        start,
                        min,
                        max,
                        increment,
                        cycle,
                        cache,
                        data_type,
                    },
                )
            },
            _ => Err("sequence row is malformed".to_owned()),
        }
    }

    /// The state of the sequence stored under `name`, from the row it holds.
    pub fn stored(name: &str, row: Option<&Vec<Value>>) -> (r: Result<SequenceState, String>)
        ensures
            match (r, row) {
                (Ok(s), Some(row)) => row_state(vals(row@)) == Some(s@),
                (Err(m), Some(row)) => row_state(vals(row@)) is None && m@
                    == "sequence row is malformed"@,
                (Err(m), None) => m@ == "sequence \""@ + name@ + "\" has no state"@,
                _ => false,
            },
    {
        match row {
            Some(row) => SequenceState::from_row(row),
            None => Err(concat3("sequence \"", name, "\" has no state")),
        }
    }

    /// The value `nextval` hands out next.
    pub fn next(&self, name: &str) -> (r: Result<i64, String>)
        ensures
            value_result(r) == next_value(self@, name@),
    {
        if !self.is_called {
            return Ok(self.last_value);
        }
        if let Some(next) = self.last_value.checked_add(self.increment) {
            if self.min <= next && next <= self.max {
                return Ok(next);
            }
        }
        if self.cycle {
            return Ok(
                if self.increment > 0 {
                    self.min
                } else {
                    self.max
                },
            );
        }
        let (first, bound): (&'static str, i64) = if self.increment > 0 {
            ("nextval: reached maximum value of sequence \"", self.max)
        } else {
            ("nextval: reached minimum value of sequence \"", self.min)
        };
        let mut m = concat3(first, name, "\" (");
        let shown = int_text(bound);
        push_text(&mut m, shown.as_str());
        push_text(&mut m, ")");
        Err(m)
    }

    fn moved(&self, last_value: i64, is_called: bool) -> (r: SequenceState)
        ensures
            r@ == (StateView { last_value, is_called, ..self@ }),
    {
        SequenceState {
            last_value,
            is_called,
            start: self.start,
            min: self.min,
            max: self.max,
            increment: self.increment,
            cycle: self.cycle,
            cache: self.cache,
            data_type: self.data_type.clone(),
        }
    }

    /// The state after `nextval` has handed out the next value.
    pub fn advance(&self, name: &str) -> (r: Result<SequenceState, String>)
        ensures
            state_result(r) == advanced(self@, name@),
    {
        match self.next(name) {
            Ok(v) => Ok(self.moved(v, true)),
            Err(m) => Err(m),
        }
    }

    /// The state after `setval(name, value, is_called)`.
    pub fn set(&self, name: &str, value: i64, is_called: bool) -> (r: Result<SequenceState, String>)
        ensures
            state_result(r) == set_to(self@, name@, value, is_called),
    {
        if self.min <= value && value <= self.max {
            return Ok(self.moved(value, is_called));
        }
        let shown = int_text(value);
        let mut m = concat3("setval: value ", shown.as_str(), " is out of bounds for sequence \"");
        push_text(&mut m, name);
        push_text(&mut m, "\" (");
        let low = int_text(self.min);
        push_text(&mut m, low.as_str());
        push_text(&mut m, "..");
        let high = int_text(self.max);
        push_text(&mut m, high.as_str());
        push_text(&mut m, ")");
        Err(m)
    }

    /// The state after a restart at the start value (`TRUNCATE ... RESTART
    /// IDENTITY`).
    pub fn restart(&self) -> (r: SequenceState)
        ensures
            r@ == restarted(self@),
    {
        self.moved(self.start, false)
    }
}

/// A definition that is accepted starts out well formed.
pub proof fn law_new_sequence_is_well_formed(s: SequenceSpec)
    requires
        initial_state(s) is Ok,
    ensures
        initial_state(s)->Ok_0.well_formed(),
{
}

/// A stored state reads back unchanged.
pub proof fn law_state_reads_back(s: StateView)
    ensures
        row_state(state_row(s)) == Some(s),
{
}

/// `nextval`, `setval`, and a restart keep a sequence well formed.
pub proof fn law_sequence_stays_well_formed(
    s: StateView,
    name: Seq<char>,
    value: i64,
    is_called: bool,
)
    requires
        s.well_formed(),
    ensures
        advanced(s, name) is Ok ==> advanced(s, name)->Ok_0.well_formed(),
        set_to(s, name, value, is_called) is Ok ==> set_to(
            s,
            name,
            value,
            is_called,
        )->Ok_0.well_formed(),
        restarted(s).well_formed(),
{
}

/// The state after `n` values have been drawn.
pub open spec fn drawn(s: StateView, name: Seq<char>, n: nat) -> Result<StateView, Seq<char>>
    decreases n,
{
    if n == 0 {
        Ok(s)
    } else {
        match drawn(s, name, (n - 1) as nat) {
            Ok(t) => advanced(t, name),
            Err(m) => Err(m),
        }
    }
}

/// The value that the draw after `n` others hands out.
pub open spec fn draw(s: StateView, name: Seq<char>, n: nat) -> Result<i64, Seq<char>> {
    match drawn(s, name, n) {
        Ok(t) => next_value(t, name),
        Err(m) => Err(m),
    }
}

proof fn lemma_drawn_keeps_options(s: StateView, name: Seq<char>, n: nat)
    requires
        s.well_formed(),
        drawn(s, name, n) is Ok,
    ensures
        drawn(s, name, n)->Ok_0.well_formed(),
        drawn(s, name, n)->Ok_0.increment == s.increment,
        drawn(s, name, n)->Ok_0.cycle == s.cycle,
    decreases n,
{
    if n > 0 {
        lemma_drawn_keeps_options(s, name, (n - 1) as nat);
    }
}

/// A sequence that does not cycle never hands out a value twice: each value
/// lies beyond every one drawn before it, however many draws lie between.
pub proof fn law_values_are_not_repeated(s: StateView, name: Seq<char>, i: nat, j: nat)
    requires
        s.well_formed(),
        !s.cycle,
        i < j,
        draw(s, name, j) is Ok,
    ensures
        draw(s, name, i) is Ok,
        s.increment > 0 ==> draw(s, name, j)->Ok_0 > draw(s, name, i)->Ok_0,
        s.increment < 0 ==> draw(s, name, j)->Ok_0 < draw(s, name, i)->Ok_0,
    decreases j,
{
    let last = (j - 1) as nat;
    assert(drawn(s, name, last) is Ok);
    lemma_drawn_keeps_options(s, name, last);
    assert(drawn(s, name, j) == advanced(drawn(s, name, last)->Ok_0, name));
    if i < last {
        law_values_are_not_repeated(s, name, i, last);
    }
}

/// After `setval(name, value, false)` the next value is `value` itself; after
/// a restart it is the start value.
pub proof fn law_set_value_comes_next(s: StateView, name: Seq<char>, value: i64)
    requires
        s.min <= value <= s.max,
    ensures
        next_value(set_to(s, name, value, false)->Ok_0, name) == Ok::<i64, Seq<char>>(value),
        next_value(restarted(s), name) == Ok::<i64, Seq<char>>(s.start),
{
}

/// After an accepted `setval` the next value is the one set exactly if it does
/// not count as called, unless the sequence cycles.
pub proof fn law_a_called_value_does_not_come_next(
    s: StateView,
    name: Seq<char>,
    value: i64,
    is_called: bool,
)
    requires
        s.well_formed(),
        !s.cycle,
        s.min <= value <= s.max,
    ensures
        set_to(s, name, value, is_called) is Ok,
        (next_value(set_to(s, name, value, is_called)->Ok_0, name) == Ok::<i64, Seq<char>>(value))
            == !is_called,
{
}

// ---------------------------------------------------------------------------
// Defaults
// ---------------------------------------------------------------------------

/// The text an expression is a literal or a cast literal of.
pub open spec fn literal_text(e: ScalarExpr) -> Option<Seq<char>> {
    match e {
        ScalarExpr::Literal(Value::Text(t)) => Some(t@),
        ScalarExpr::Cast { expr, .. } => match *expr {
            ScalarExpr::Literal(Value::Text(t)) => Some(t@),
            _ => None,
        },
        _ => None,
    }
}

/// The sequence a column default draws from.
pub open spec fn drawn_sequence(e: ScalarExpr) -> Option<Seq<char>> {
    match e {
        ScalarExpr::Function { name, args } => if (name@ == "NEXTVAL"@ && args@.len() == 1) || (
        name@ == "__IDENTITY__"@ && args@.len() == 2) {
            literal_text(args@[0])
        } else {
            None
        },
        _ => None,
    }
}

/// The sequence a column default draws from: `nextval('s')` (a `serial`
/// column) or an identity column's generator.
pub fn default_sequence(default: &ScalarExpr) -> (r: Option<String>)
    ensures
        opt_text(r) == drawn_sequence(*default),
{
    match default {
        ScalarExpr::Function { name, args } => {
            if (same_text(name.as_str(), "NEXTVAL") && args.len() == 1) || (same_text(
                name.as_str(),
                "__IDENTITY__",
            ) && args.len() == 2) {
                match &args[0] {
                    ScalarExpr::Literal(Value::Text(t)) => Some(t.clone()),
                    ScalarExpr::Cast { expr, .. } => match &**expr {
                        ScalarExpr::Literal(Value::Text(t)) => Some(t.clone()),
                        _ => None,
                    },
                    _ => None,
                }
            } else {
                None
            }
        },
        _ => None,
    }
}

/// Whether a default makes its column an identity column, and if so whether
/// it is `GENERATED ALWAYS`.
pub open spec fn identity(e: ScalarExpr) -> Option<bool> {
    match e {
        ScalarExpr::Function { name, args } => if name@ == "__IDENTITY__"@ && args@.len() == 2 {
            Some(args@[1] == ScalarExpr::Literal(Value::Bool(true)))
        } else {
            None
        },
        _ => None,
    }
}

/// Whether a column default makes it an identity column, and if so whether
/// it is `GENERATED ALWAYS` (`Some(true)`) or `BY DEFAULT` (`Some(false)`).
pub fn identity_kind(default: &ScalarExpr) -> (r: Option<bool>)
    ensures
        r == identity(*default),
{
    match default {
        ScalarExpr::Function { name, args } => {
            if same_text(name.as_str(), "__IDENTITY__") && args.len() == 2 {
                Some(
                    match &args[1] {
                        ScalarExpr::Literal(Value::Bool(b)) => *b,
                        _ => false,
                    },
                )
            } else {
                None
            }
        },
        _ => None,
    }
}

// ---------------------------------------------------------------------------
// Names
// ---------------------------------------------------------------------------

/// The text between double quotes, if it stands between them.
pub open spec fn unquoted(s: Seq<char>) -> Option<Seq<char>> {
    if s.len() >= 2 && s[0] == '"' && s.last() == '"' {
        Some(s.subrange(1, s.len() - 1))
    } else {
        None
    }
}

/// A name as it is looked up: as written between double quotes, else in lower
/// case.
pub open spec fn folded(s: Seq<char>) -> Seq<char> {
    match unquoted(s) {
        Some(inner) => inner,
        None => lower(s),
    }
}

/// A name as it is looked up.
pub fn fold_name(s: &str) -> (r: String)
    ensures
        r@ == folded(s@),
{
    let chars = chars_of(s);
    let n: usize = chars.len();
    if n >= 2 && chars[0] == '"' && chars[n - 1] == '"' {
        text_between(&chars, 1, n - 1)
    } else {
        lower_text(s)
    }
}

/// The schema and relation that a sequence name means; `None` for too many
/// parts.
pub open spec fn sequence_path(name: Seq<char>) -> Option<(Seq<char>, Seq<char>)> {
    let parts = split(name, '.');
    let n = parts.len();
    if n == 1 {
        Some(("public"@, folded(trimmed(parts[0]))))
    } else if n == 2 || n == 3 {
        Some((folded(trimmed(parts[n - 2])), folded(trimmed(parts[n - 1]))))
    } else {
        None
    }
}

/// The schema and relation of a sequence named as `nextval` takes it: `'s'`,
/// `'schema.s'`, or `'"MixedCase"'` (unquoted parts fold to lower case).
pub fn resolve_path(name: &str) -> (r: Result<(String, String), String>)
    ensures
        match (r, sequence_path(name@)) {
            (Ok((s, t)), Some((a, b))) => s@ == a && t@ == b,
            (Err(m), None) => m@ == "improper relation name (too many dotted names): "@ + name@,
            _ => false,
        },
{
    let parts = split_text(name, '.');
    let n: usize = parts.len();
    assert(texts(parts@).len() == n);
    if n > 3 {
        return Err(concat2("improper relation name (too many dotted names): ", name));
    }
    assert(texts(parts@)[n - 1] == parts@[n - 1]@);
    let last = trim_text(parts[n - 1].as_str());
    let table = fold_name(last.as_str());
    if n == 1 {
        Ok(("public".to_owned(), table))
    } else {
        assert(texts(parts@)[n - 2] == parts@[n - 2]@);
        let before = trim_text(parts[n - 2].as_str());
        Ok((fold_name(before.as_str()), table))
    }
}

/// A table that the catalog found under a name.
#[derive(Debug, PartialEq)]
pub struct FoundTable {
    pub id: u128,
    pub name: String,
    pub columns: Vec<String>,
}

/// The message for a relation that is not there.
pub open spec fn no_relation(name: Seq<char>) -> Seq<char> {
    "relation \""@ + name + "\" does not exist"@
}

/// Why a name, with the columns of the table found under it, is no sequence.
pub open spec fn no_sequence(name: Seq<char>, columns: Option<Seq<Seq<char>>>) -> Option<
    Seq<char>,
> {
    match columns {
        None => Some(no_relation(name)),
        Some(c) => if c == sequence_names() {
            None
        } else {
            Some("\""@ + name + "\" is not a sequence"@)
        },
    }
}

/// The sequence that a name means, given the table found under its
/// [`resolve_path`]: it must be there, and have a sequence's columns.
pub fn resolve_sequence(name: &str, found: Option<FoundTable>) -> (r: Result<FoundTable, String>)
    ensures
        ({
            let columns = match found {
                Some(t) => Some(texts(t.columns@)),
                None => None,
            };
            match no_sequence(name@, columns) {
                Some(m) => r is Err && r->Err_0@ == m,
                None => found is Some && r == Ok::<FoundTable, String>(found->Some_0),
            }
        }),
{
    match found {
        None => Err(concat3("relation \"", name, "\" does not exist")),
        Some(t) => {
            if is_sequence(&t.columns) {
                Ok(t)
            } else {
                Err(concat3("\"", name, "\" is not a sequence"))
            }
        },
    }
}

/// The schema and table that `pg_get_serial_sequence` takes a table name to
/// mean.
pub open spec fn table_path(table: Seq<char>) -> (Seq<char>, Seq<char>) {
    match split_once(table, '.') {
        Some((schema, name)) => (folded(schema), folded(name)),
        None => (folded("public"@), folded(table)),
    }
}

/// The schema and table that `pg_get_serial_sequence` takes a table name to
/// mean.
pub fn serial_table_path(table: &str) -> (r: (String, String))
    ensures
        (r.0@, r.1@) == table_path(table@),
{
    match split_once_text(table, '.') {
        Some((schema, name)) => (fold_name(schema.as_str()), fold_name(name.as_str())),
        None => (fold_name("public"), fold_name(table)),
    }
}

/// The names of columns given with their defaults.
pub open spec fn defaulted_names(columns: Seq<(String, Option<ScalarExpr>)>) -> Seq<Seq<char>> {
    Seq::new(columns.len(), |i: int| columns[i].0@)
}

/// The sequence that a column of the table found draws from.
pub open spec fn serial_sequence(
    table: Seq<char>,
    column: Seq<char>,
    found: Option<Seq<(String, Option<ScalarExpr>)>>,
) -> Result<Option<Seq<char>>, Seq<char>> {
    let (schema, name) = table_path(table);
    match found {
        None => Err(no_relation(table)),
        Some(columns) => match index_of(defaulted_names(columns), column) {
            None => Err(no_column_of(column, name)),
            Some(i) => match columns[i].1 {
                Some(e) => match drawn_sequence(e) {
                    Some(s) => Ok(Some(schema + "."@ + s)),
                    None => Ok(None),
                },
                None => Ok(None),
            },
        },
    }
}

/// `pg_get_serial_sequence(table, column)`: the sequence a `serial` or
/// identity column draws from, schema-qualified; `None` for a column without
/// one. `found` are the columns, each with its default, of the table found
/// under its [`serial_table_path`].
pub fn owned_sequence(
    table: &str,
    column: &str,
    found: Option<&Vec<(String, Option<ScalarExpr>)>>,
) -> (r: Result<Option<String>, String>)
    ensures
        match (
            r,
            serial_sequence(
                table@,
                column@,
                match found {
                    Some(columns) => Some(columns@),
                    None => None,
                },
            ),
        ) {
            (Ok(a), Ok(b)) => opt_text(a) == b,
            (Err(a), Err(b)) => a@ == b,
            _ => false,
        },
{
    let (schema, name) = serial_table_path(table);
    let columns = match found {
        None => {
            return Err(concat3("relation \"", table, "\" does not exist"));
        },
        Some(columns) => columns,
    };
    let ghost names = defaulted_names(columns@);
    let mut i: usize = 0;
    while i < columns.len()
        invariant
            i <= columns@.len(),
            (schema@, name@) == table_path(table@),
            found == Some(columns),
            names == defaulted_names(columns@),
            forall|k: int| 0 <= k < i ==> #[trigger] names[k] != column@,
        decreases columns@.len() - i,
    {
        assert(names[i as int] == columns@[i as int].0@);
        if same_text(columns[i].0.as_str(), column) {
            proof {
                lemma_index_of(names, column@);
                assert(index_of(names, column@) == Some(i as int));
            }
            let drawn: Option<String> = match &columns[i].1 {
                Some(e) => match default_sequence(e) {
                    Some(s) => Some(concat3(schema.as_str(), ".", s.as_str())),
                    None => None,
                },
                None => None,
            };
            return Ok(drawn);
        }
        i = i + 1;
    }
    proof {
        lemma_index_of(names, column@);
    }
    Err(no_column_text(column, name.as_str()))
}

// ---------------------------------------------------------------------------
// Updating a stored sequence
// ---------------------------------------------------------------------------

/// How one attempt at updating a stored sequence ended.
pub enum Attempt {
    /// The new state is committed.
    Committed(SequenceState),
    /// The change was refused (a bound, a limit).
    Refused(String),
    /// The storage failed, or a concurrent caller won the race.
    Lost(String),
}

/// What to do after an attempt.
pub enum AfterAttempt {
    /// Return the new state.
    Finish(SequenceState),
    /// Release the attempt's transaction and fail.
    Fail(String),
    /// Release the attempt's transaction and try again from a fresh snapshot.
    Retry,
}

/// Decides what follows the attempt numbered `n`, counted from zero: a
/// committed change is final, a refused one fails at once, and a lost race is
/// tried again, up to [`MAX_ATTEMPTS`] attempts in all.
pub fn after_attempt(n: usize, attempt: Attempt) -> (r: AfterAttempt)
    ensures
        match (attempt, r) {
            (Attempt::Committed(s), AfterAttempt::Finish(t)) => s == t,
            (Attempt::Refused(m), AfterAttempt::Fail(e)) => m == e,
            (Attempt::Lost(m), AfterAttempt::Fail(e)) => n + 1 >= MAX_ATTEMPTS && m == e,
            (Attempt::Lost(_), AfterAttempt::Retry) => n + 1 < MAX_ATTEMPTS,
            _ => false,
        },
{
    match attempt {
        Attempt::Committed(s) => AfterAttempt::Finish(s),
        Attempt::Refused(m) => AfterAttempt::Fail(m),
        Attempt::Lost(m) => {
            if n >= MAX_ATTEMPTS - 1 {
                AfterAttempt::Fail(m)
            } else {
                AfterAttempt::Retry
            }
        },
    }
}

// ---------------------------------------------------------------------------
// Session values
// ---------------------------------------------------------------------------

/// A session's values from `nextval`, for `currval` and `lastval`.
pub struct SessionValues {
    pub session: String,
    /// Each sequence and the value it last gave.
    pub by_sequence: Vec<(u128, i64)>,
    pub last: Option<i64>,
}

/// What every session last drew.
pub struct Sessions {
    pub entries: Vec<SessionValues>,
}

/// The latest value of a sequence.
pub open spec fn latest(s: Seq<(u128, i64)>, id: u128) -> Option<i64>
    decreases s.len(),
{
    if s.len() == 0 {
        None
    } else if s.last().0 == id {
        Some(s.last().1)
    } else {
        latest(s.drop_last(), id)
    }
}

/// A call that sessions make on sequences, with what it came to.
pub enum SessionCall {
    /// `nextval` handed out a value.
    Drew { session: Seq<char>, id: u128, value: i64 },
    /// `setval` was accepted.
    Assigned { session: Seq<char>, id: u128, value: i64, is_called: bool },
    /// The session ended.
    Ended { session: Seq<char> },
}

impl SessionCall {
    /// The session that made the call.
    pub open spec fn caller(self) -> Seq<char> {
        match self {
            SessionCall::Drew { session, .. } => session,
            SessionCall::Assigned { session, .. } => session,
            SessionCall::Ended { session } => session,
        }
    }
}

/// A session's last value from a sequence after a call, given the one before:
/// its own `nextval` gives it, and its own `setval` only if the value counts
/// as called.
pub open spec fn current_after(
    before: Option<i64>,
    call: SessionCall,
    s: Seq<char>,
    i: u128,
) -> Option<i64> {
    match call {
        SessionCall::Drew { session, id, value } => if s == session && i == id {
            Some(value)
        } else {
            before
        },
        SessionCall::Assigned { session, id, value, is_called } => if is_called && s == session && i
            == id {
            Some(value)
        } else {
            before
        },
        SessionCall::Ended { session } => if s == session {
            None
        } else {
            before
        },
    }
}

/// A session's last value from any sequence after a call, given the one
/// before.
pub open spec fn last_after(before: Option<i64>, call: SessionCall, s: Seq<char>) -> Option<i64> {
    match call {
        SessionCall::Drew { session, value, .. } => if s == session {
            Some(value)
        } else {
            before
        },
        SessionCall::Assigned { session, value, is_called, .. } => if is_called && s == session {
            Some(value)
        } else {
            before
        },
        SessionCall::Ended { session } => if s == session {
            None
        } else {
            before
        },
    }
}

/// A session's last value from a sequence after calls, given the one before
/// them.
pub open spec fn current_after_all(
    before: Option<i64>,
    calls: Seq<SessionCall>,
    s: Seq<char>,
    i: u128,
) -> Option<i64>
    decreases calls.len(),
{
    if calls.len() == 0 {
        before
    } else {
        current_after(current_after_all(before, calls.drop_last(), s, i), calls.last(), s, i)
    }
}

/// A session's last value from any sequence after calls, given the one before
/// them.
pub open spec fn last_after_all(before: Option<i64>, calls: Seq<SessionCall>, s: Seq<char>) -> Option<
    i64,
>
    decreases calls.len(),
{
    if calls.len() == 0 {
        before
    } else {
        last_after(last_after_all(before, calls.drop_last(), s), calls.last(), s)
    }
}

/// `currval` and `lastval` of a session are untouched by any number of calls
/// of other sessions.
pub proof fn law_sessions_do_not_disturb_each_other(
    before: Option<i64>,
    last: Option<i64>,
    calls: Seq<SessionCall>,
    s: Seq<char>,
    i: u128,
)
    requires
        forall|n: int| 0 <= n < calls.len() ==> (#[trigger] calls[n]).caller() != s,
    ensures
        current_after_all(before, calls, s, i) == before,
        last_after_all(last, calls, s) == last,
    decreases calls.len(),
{
    if calls.len() > 0 {
        let rest = calls.drop_last();
        assert forall|n: int| 0 <= n < rest.len() implies (#[trigger] rest[n]).caller() != s by {
            assert(rest[n] == calls[n]);
        }
        law_sessions_do_not_disturb_each_other(before, last, rest, s, i);
        assert(calls[calls.len() - 1].caller() != s);
    }
}

/// A session that has drawn nothing, and set nothing as called, has no current
/// value, whatever the other sessions did; neither has one that has ended.
pub proof fn law_currval_needs_a_value_of_the_session(
    calls: Seq<SessionCall>,
    s: Seq<char>,
    i: u128,
    before: Option<i64>,
)
    requires
        forall|n: int|
            0 <= n < calls.len() ==> (#[trigger] calls[n]).caller() != s || match calls[n] {
                SessionCall::Drew { .. } => false,
                SessionCall::Assigned { is_called, .. } => !is_called,
                SessionCall::Ended { .. } => true,
            },
    ensures
        current_after_all(None, calls, s, i) is None,
        last_after_all(None, calls, s) is None,
        current_after(before, SessionCall::Ended { session: s }, s, i) is None,
    decreases calls.len(),
{
    if calls.len() > 0 {
        let rest = calls.drop_last();
        assert forall|n: int| 0 <= n < rest.len() implies (#[trigger] rest[n]).caller() != s
            || match rest[n] {
            SessionCall::Drew { .. } => false,
            SessionCall::Assigned { is_called, .. } => !is_called,
            SessionCall::Ended { .. } => true,
        } by {
            assert(rest[n] == calls[n]);
        }
        law_currval_needs_a_value_of_the_session(rest, s, i, before);
        let last = calls[calls.len() - 1];
        assert(last.caller() != s || !(last is Drew));
    }
}

/// The values an entry holds.
pub open spec fn drawn_view(e: SessionValues) -> Seq<(u128, i64)> {
    e.by_sequence@
}

impl Sessions {
    /// The position of a session's values.
    pub open spec fn at(self, session: Seq<char>) -> Option<int> {
        crate::text::index_of(self.names(), session)
    }

    /// The sessions that have values.
    pub open spec fn names(self) -> Seq<Seq<char>> {
        Seq::new(self.entries@.len(), |i: int| self.entries@[i].session@)
    }

    /// A session's last value from a sequence.
    pub open spec fn current(self, session: Seq<char>, id: u128) -> Option<i64> {
        match self.at(session) {
            Some(i) => latest(self.entries@[i].by_sequence@, id),
            None => None,
        }
    }

    /// A session's last value from any sequence.
    pub open spec fn last(self, session: Seq<char>) -> Option<i64> {
        match self.at(session) {
            Some(i) => self.entries@[i].last,
            None => None,
        }
    }

    /// No session has two entries.
    pub open spec fn well_formed(self) -> bool {
        forall|i: int, j: int|
            0 <= i < j < self.entries@.len() ==> self.entries@[i].session@
                != self.entries@[j].session@
    }

    /// No session has drawn anything.
    pub fn new() -> (r: Sessions)
        ensures
            r.well_formed(),
            forall|s: Seq<char>, id: u128| (#[trigger] r.current(s, id)) is None,
            forall|s: Seq<char>| (#[trigger] r.last(s)) is None,
    {
        Sessions { entries: Vec::new() }
    }

    fn find(&self, session: &str) -> (r: Option<usize>)
        ensures
            match (r, self.at(session@)) {
                (Some(a), Some(b)) => a == b && a < self.entries@.len(),
                (None, None) => true,
                _ => false,
            },
    {
        let mut i: usize = 0;
        while i < self.entries.len()
            invariant
                i <= self.entries@.len(),
                forall|k: int| 0 <= k < i ==> self.entries@[k].session@ != session@,
            decreases self.entries@.len() - i,
        {
            if same_text(self.entries[i].session.as_str(), session) {
                proof {
                    crate::text::lemma_index_of(self.names(), session@);
                    assert(self.names()[i as int] == session@);
                    assert(forall|k: int| 0 <= k < i ==> self.names()[k] != session@);
                }
                return Some(i);
            }
            i = i + 1;
        }
        proof {
            crate::text::lemma_index_of(self.names(), session@);
            assert(forall|k: int| 0 <= k < self.entries@.len() ==> self.names()[k] != session@);
        }
        None
    }

    /// `currval`: the session's last value from the sequence.
    pub fn currval(&self, session: &str, id: u128, name: &str) -> (r: Result<i64, String>)
        ensures
            match (r, self.current(session@, id)) {
                (Ok(v), Some(w)) => v == w,
                (Err(m), None) => m@ == "currval of sequence \""@ + name@
                    + "\" is not yet defined in this session"@,
                _ => false,
            },
    {
        if let Some(at) = self.find(session) {
            let drawn = &self.entries[at].by_sequence;
            let mut n: usize = drawn.len();
            assert(drawn@.take(n as int) =~= drawn@);
            while n > 0
                invariant
                    n <= drawn@.len(),
                    latest(drawn@, id) == latest(drawn@.take(n as int), id),
                    self.current(session@, id) == latest(drawn@, id),
                decreases n,
            {
                assert(drawn@.take(n as int).drop_last() =~= drawn@.take(n - 1));
                if drawn[n - 1].0 == id {
                    return Ok(drawn[n - 1].1);
                }
                n = n - 1;
            }
        }
        Err(concat3("currval of sequence \"", name, "\" is not yet defined in this session"))
    }

    /// `lastval`: the session's last value from any sequence.
    pub fn lastval(&self, session: &str) -> (r: Result<i64, String>)
        ensures
            match (r, self.last(session@)) {
                (Ok(v), Some(w)) => v == w,
                (Err(m), None) => m@ == "lastval is not yet defined in this session"@,
                _ => false,
            },
    {
        let found = match self.find(session) {
            Some(at) => self.entries[at].last,
            None => None,
        };
        match found {
            Some(v) => Ok(v),
            None => Err("lastval is not yet defined in this session".to_owned()),
        }
    }

    /// Notes what an accepted `setval` means to the session: it counts as the
    /// session's current value only if it is called.
    pub fn after_setval(&mut self, session: &str, id: u128, value: i64, is_called: bool)
        requires
            old(self).well_formed(),
        ensures
            final(self).well_formed(),
            forall|s: Seq<char>, i: u128| #[trigger]
                final(self).current(s, i) == current_after(
                    old(self).current(s, i),
                    SessionCall::Assigned { session: session@, id, value, is_called },
                    s,
                    i,
                ),
            forall|s: Seq<char>| #[trigger]
                final(self).last(s) == last_after(
                    old(self).last(s),
                    SessionCall::Assigned { session: session@, id, value, is_called },
                    s,
                ),
    {
        if is_called {
            self.record(session, id, value);
        }
    }

    /// Notes a value that a session drew from a sequence.
    pub fn record(&mut self, session: &str, id: u128, value: i64)
        requires
            old(self).well_formed(),
        ensures
            final(self).well_formed(),
            forall|s: Seq<char>, i: u128| #[trigger]
                final(self).current(s, i) == current_after(
                    old(self).current(s, i),
                    SessionCall::Drew { session: session@, id, value },
                    s,
                    i,
                ),
            forall|s: Seq<char>| #[trigger]
                final(self).last(s) == last_after(
                    old(self).last(s),
                    SessionCall::Drew { session: session@, id, value },
                    s,
                ),
    {
        let ghost before = *self;
        match self.find(session) {
            Some(at) => {
                let mut drawn: Vec<(u128, i64)> = Vec::new();
                let mut i: usize = 0;
                while i < self.entries[at].by_sequence.len()
                    invariant
                        *self == before,
                        at < self.entries@.len(),
                        i <= self.entries@[at as int].by_sequence@.len(),
                        drawn@ == self.entries@[at as int].by_sequence@.take(i as int),
                    decreases self.entries@[at as int].by_sequence@.len() - i,
                {
                    drawn.push(self.entries[at].by_sequence[i]);
                    i = i + 1;
                }
                let ghost old_drawn = before.entries@[at as int].by_sequence@;
                assert(drawn@ =~= old_drawn);
                drawn.push((id, value));
                let entry = SessionValues {
                    session: session.to_owned(),
                    by_sequence: drawn,
                    last: Some(value),
                };
                let ghost made = drawn_view(entry);
                self.entries[at] = entry;
                proof {
                    let now = *self;
                    crate::text::lemma_index_of(before.names(), session@);
                    assert(before.names()[at as int] == session@);
                    assert forall|k: int| 0 <= k < now.entries@.len() implies (
                    #[trigger] now.entries@[k]).session@ == before.entries@[k].session@ by {
                        if k == at {
                            assert(before.names()[k] == before.entries@[k].session@);
                        }
                    }
                    assert(now.names() =~= before.names());
                    assert(now.at(session@) == Some(at as int));
                    assert(now.entries@[at as int].by_sequence@ == made);
                    assert(made.drop_last() =~= old_drawn);
                    assert forall|s: Seq<char>|
                        #![trigger now.at(s)]
                        s != session@ && now.at(s) is Some implies now.entries@[now.at(s)->0]
                        == before.entries@[now.at(s)->0] by {
                        crate::text::lemma_index_of(now.names(), s);
                    }
                    assert(made.last() == (id, value));
                    assert forall|s: Seq<char>, i: u128| #[trigger] now.current(s, i) == (if s
                        == session@ && i == id {
                        Some(value)
                    } else {
                        before.current(s, i)
                    }) by {
                        if s == session@ {
                            assert(now.current(s, i) == latest(made, i));
                        } else {
                            assert(now.at(s) == before.at(s));
                        }
                    }
                }
            },
            None => {
                let mut drawn: Vec<(u128, i64)> = Vec::new();
                drawn.push((id, value));
                let ghost made = drawn@;
                self.entries.push(
                    SessionValues {
                        session: session.to_owned(),
                        by_sequence: drawn,
                        last: Some(value),
                    },
                );
                proof {
                    let now = *self;
                    let n = before.entries@.len() as int;
                    crate::text::lemma_index_of(before.names(), session@);
                    assert(now.names().drop_last() =~= before.names());
                    assert(now.names().last() == session@);
                    assert(now.at(session@) == Some(n));
                    assert(now.entries@[n].by_sequence@ == made);
                    assert(made.drop_last() =~= Seq::<(u128, i64)>::empty());
                    assert forall|s: Seq<char>|
                        #![trigger now.at(s)]
                        s != session@ implies now.at(s) == before.at(s) && (now.at(s) is Some
                        ==> now.entries@[now.at(s)->0] == before.entries@[now.at(s)->0]) by {
                        crate::text::lemma_index_of(before.names(), s);
                    }
                    assert forall|i: int, j: int|
                        0 <= i < j < now.entries@.len() implies now.entries@[i].session@
                        != now.entries@[j].session@ by {
                        if j == n {
                            assert(before.names()[i] == before.entries@[i].session@);
                        }
                    }
                    assert(made.last() == (id, value));
                    assert forall|s: Seq<char>, i: u128| #[trigger] now.current(s, i) == (if s
                        == session@ && i == id {
                        Some(value)
                    } else {
                        before.current(s, i)
                    }) by {
                        if s == session@ {
                            assert(latest(made.drop_last(), i) is None);
                            assert(now.current(s, i) == latest(made, i));
                        } else {
                            assert(now.at(s) == before.at(s));
                        }
                    }
                }
            },
        }
    }

    /// Forgets a finished session's values.
    pub fn end_session(&mut self, session: &str)
        requires
            old(self).well_formed(),
        ensures
            final(self).well_formed(),
            forall|s: Seq<char>, i: u128| #[trigger]
                final(self).current(s, i) == current_after(
                    old(self).current(s, i),
                    SessionCall::Ended { session: session@ },
                    s,
                    i,
                ),
            forall|s: Seq<char>| #[trigger]
                final(self).last(s) == last_after(
                    old(self).last(s),
                    SessionCall::Ended { session: session@ },
                    s,
                ),
    {
        let ghost before = *self;
        if let Some(at) = self.find(session) {
            self.entries.remove(at);
            proof {
                let ghost now = *self;
                crate::text::lemma_index_of(before.names(), session@);
                assert forall|s: Seq<char>| s != session@ implies now.current_entry(s)
                    == before.current_entry(s) by {
                    crate::text::lemma_index_of(before.names(), s);
                    crate::text::lemma_index_of(now.names(), s);
                    assert(forall|k: int| 0 <= k < at ==> now.names()[k] == before.names()[k]);
                    assert(forall|k: int|
                        at <= k < now.entries@.len() ==> now.names()[k] == before.names()[k + 1]);
                    if before.at(s) is Some {
                        let b = before.at(s)->0;
                        if b < at {
                            assert(now.names()[b] == s);
                        } else {
                            assert(now.names()[b - 1] == s);
                        }
                    }
                    if now.at(s) is Some {
                        let n = now.at(s)->0;
                        if n < at {
                            assert(before.names()[n] == s);
                        } else {
                            assert(before.names()[n + 1] == s);
                        }
                    }
                    if before.at(s) is Some && now.at(s) is Some {
                        let b = before.at(s)->0;
                        let n = now.at(s)->0;
                        let n_before = if n < at { n } else { n + 1 };
                        assert(before.entries@[b].session@ == before.entries@[n_before].session@);
                        assert(b == n_before);
                    }
                }
                assert(now.at(session@) is None) by {
                    crate::text::lemma_index_of(now.names(), session@);
                    if now.at(session@) is Some {
                        let n = now.at(session@)->0;
                        let n_before = if n < at { n } else { n + 1 };
                        assert(before.entries@[n_before].session@ == session@);
                        assert(before.entries@[at as int].session@ == session@) by {
                            assert(before.names()[at as int] == session@);
                        }
                    }
                }
                assert forall|s: Seq<char>, i: u128| #[trigger] now.current(s, i) == (if s
                    == session@ {
                    None
                } else {
                    before.current(s, i)
                }) by {
                    if s != session@ {
                        assert(now.current_entry(s) == before.current_entry(s));
                    }
                }
                assert forall|s: Seq<char>| #[trigger] now.last(s) == (if s == session@ {
                    None
                } else {
                    before.last(s)
                }) by {
                    if s != session@ {
                        assert(now.current_entry(s) == before.current_entry(s));
                    }
                }
            }
        }
    }

    /// A session's entry.
    pub open spec fn current_entry(self, session: Seq<char>) -> Option<SessionValues> {
        match self.at(session) {
            Some(i) => Some(self.entries@[i]),
            None => None,
        }
    }
}

} // verus!
