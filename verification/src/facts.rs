//! What evaluation learns from its surroundings.
//!
//! Some steps of evaluating an expression are not decided here: calling a
//! scalar function, floating-point arithmetic, reading dates and array
//! literals, and ordering or writing values of the richer types. Evaluation
//! looks such a step up among the [`Facts`] it is given, and stops with the
//! [`Request`] when the answer is not there; the caller finds the answer, adds
//! it, and evaluates again.
use vstd::prelude::*;
use crate::plan_types::{AggregateOp, ScalarBinaryOp};
use crate::text::same_text;
use crate::value::{same_values, vals, Val, Value};

verus! {

/// A step that evaluation hands out.
#[derive(Debug, PartialEq)]
pub enum Task {
    /// The text of a value: a `Text`.
    Render,
    /// How two values are ordered: an `Int`, negative, zero, or positive.
    Order,
    /// Whether two values are equal: a `Bool`.
    Equal,
    /// The form under which a value is grouped and deduplicated.
    KeyForm,
    /// A call of the named scalar function.
    Call(String),
    /// Arithmetic on two numbers, at least one of them floating-point.
    Arithmetic(ScalarBinaryOp),
    /// A finite floating-point number as the nearest integer, ties to even.
    RoundToInt,
    /// A number or numeric text as a floating-point number; NULL if it is none.
    ToFloat,
    /// Whether the first value contains the second: a `Bool`.
    Contains,
    /// The elements that the text of an array literal lists: an `Array`, or
    /// NULL for text that is no array literal.
    ArrayLiteral,
    /// The text of an array literal read as the named array type.
    ArrayOf(String),
    /// A date or timestamp text as `[day, second of the day, nanosecond,
    /// whether it has a time, whether it has an offset]`, in UTC if it has an
    /// offset, with the days counted from the first of the common era; NULL
    /// for other text.
    Temporal,
    /// A date or time text in the canonical form of the named type, or NULL.
    NormalizeTemporal(String),
    /// Whether a text has the shape of a date or time: a `Bool`.
    LooksTemporal,
    /// `[day, second of the day, nanosecond, whether zoned]` as the text of a
    /// timestamp.
    TimestampText,
    /// The text under which a value is grouped: a `Text`.
    GroupKey,
    /// The position in the first value, an array of column names, of the
    /// column that the second value names: an `Int`, or NULL for none.
    ColumnPosition,
    /// The JSON access that a reference writes, such as `doc->>'key'`: an
    /// `Array` of three `Text`s, the column, the operator, and the key; NULL
    /// for a reference that writes none.
    JsonReference,
    /// What a JSON access reads: the first value is the document, the second
    /// the operator, the third the key.
    JsonExtract,
    /// The row of the relation that a reference names, as one value: the row
    /// of a table or a query as a record, that of a function as its value;
    /// NULL for a reference that names no relation. The first value is the
    /// reference, the second the column names, the third the row.
    RelationRow,
    /// Whether a condition holds on each of the rows given: an `Array` with a
    /// `Bool` for each. The first value is the condition and the columns'
    /// types, the second the column names, the third the rows.
    Conditions,
    /// The values that the subqueries of an expression yield for each of the
    /// rows given, each with that row's values for its outer references: an
    /// `Array` with, for each row, the `Array` of the values of its subqueries
    /// in the order of their occurrence. The first value is the expression,
    /// the second the column names, the third the rows.
    Subqueries,
    /// The single value that a subquery yields for each of the rows given,
    /// with that row's values for its outer references: an `Array` with a
    /// value for each. The first value is the plan, the second the column
    /// names, the third the rows.
    ScalarSubquery,
    /// The value that an argument, written as a text, has in each of the rows
    /// given: an `Array` with a value for each. The first value is the
    /// argument, the second the column names, the third the rows.
    Argument,
    /// The value of an operand read as the named type, given the column names,
    /// the columns' types, the row, whether the operand names a column, and
    /// the operand itself.
    Operand(String),
    /// A floating-point number as the integer it truncates to, the nearest
    /// 64-bit integer beyond their range, and zero for NaN.
    Truncate,
    /// The texts of the elements of the array that a JSON text writes: an
    /// `Array` of `Text`, or NULL for other text.
    JsonElements,
    /// The text that a JSON element stands for: a `Text`, or NULL.
    JsonMember,
    /// Whether a condition holds on each of the groups of rows given: an
    /// `Array` with a `Bool` for each. The first value is the condition and,
    /// for each group, the values of the condition's subqueries; the second is
    /// the column names, the third the groups.
    GroupConditions,
    /// The value of an expression over each of the groups of rows given: an
    /// `Array` with a value for each. The first value is the expression and,
    /// for each group, the values of the expression's subqueries; the second
    /// is the column names, the third the groups.
    GroupValues,
    /// The aggregate of an argument, a column's name or `*`, over each of the
    /// groups of rows given: an `Array` with a value for each. The first value
    /// is the argument, the second the column names, the third the groups.
    GroupAggregate(AggregateOp),
    /// The aggregate of the given inputs, each an array of its arguments.
    Aggregate(AggregateOp),
    /// Whether every column referred to is one of the columns given: true, or
    /// an error that names the column. The first value lists what refers: a
    /// column's name, an expression, or a condition; the second is the column
    /// names.
    CheckColumns,
    /// Whether there is a scalar function of this name: a `Bool`.
    KnownFunction,
    /// The text under which a constant is passed to a function by name: a
    /// `Text`.
    LiteralArgument,
    /// The object identifier of the type of this name: an `Int`.
    TypeOid,
    /// The name of the type with this object identifier: a `Text`.
    TypeText,
    /// The result type of the named function on arguments of the given types
    /// (each a `Text`, or NULL if not known): a `Text`, or NULL.
    ReturnType(String),
    /// The name of a type as `pg_typeof` shows it: a `Text`.
    TypeDisplay,
    /// The name of a value's type, as messages write it: a `Text`.
    TypeName,
    /// The `Jsonb` that a text writes, or NULL.
    ParseJson,
    /// A value as the `Jsonb` it stands for, or NULL.
    ToJson,
}

/// What a [`Task`] stands for.
#[verifier::ext_equal]
pub enum TaskView {
    Render,
    Order,
    Equal,
    KeyForm,
    Call(Seq<char>),
    Arithmetic(ScalarBinaryOp),
    RoundToInt,
    ToFloat,
    Contains,
    ArrayLiteral,
    ArrayOf(Seq<char>),
    Temporal,
    NormalizeTemporal(Seq<char>),
    LooksTemporal,
    TimestampText,
    GroupKey,
    ColumnPosition,
    JsonReference,
    JsonExtract,
    RelationRow,
    Conditions,
    Subqueries,
    ScalarSubquery,
    Argument,
    Operand(Seq<char>),
    Truncate,
    JsonElements,
    JsonMember,
    GroupConditions,
    GroupValues,
    GroupAggregate(AggregateOp),
    Aggregate(AggregateOp),
    CheckColumns,
    KnownFunction,
    LiteralArgument,
    TypeOid,
    TypeText,
    ReturnType(Seq<char>),
    TypeDisplay,
    TypeName,
    ParseJson,
    ToJson,
}

impl View for Task {
    type V = TaskView;

    open spec fn view(&self) -> TaskView {
        match *self {
            Task::Render => TaskView::Render,
            Task::Order => TaskView::Order,
            Task::Equal => TaskView::Equal,
            Task::KeyForm => TaskView::KeyForm,
            Task::Call(n) => TaskView::Call(n@),
            Task::Arithmetic(op) => TaskView::Arithmetic(op),
            Task::RoundToInt => TaskView::RoundToInt,
            Task::ToFloat => TaskView::ToFloat,
            Task::Contains => TaskView::Contains,
            Task::ArrayLiteral => TaskView::ArrayLiteral,
            Task::ArrayOf(t) => TaskView::ArrayOf(t@),
            Task::Temporal => TaskView::Temporal,
            Task::NormalizeTemporal(t) => TaskView::NormalizeTemporal(t@),
            Task::LooksTemporal => TaskView::LooksTemporal,
            Task::TimestampText => TaskView::TimestampText,
            Task::GroupKey => TaskView::GroupKey,
            Task::ColumnPosition => TaskView::ColumnPosition,
            Task::JsonReference => TaskView::JsonReference,
            Task::JsonExtract => TaskView::JsonExtract,
            Task::RelationRow => TaskView::RelationRow,
            Task::Conditions => TaskView::Conditions,
            Task::Subqueries => TaskView::Subqueries,
            Task::ScalarSubquery => TaskView::ScalarSubquery,
            Task::Argument => TaskView::Argument,
            Task::Operand(n) => TaskView::Operand(n@),
            Task::Truncate => TaskView::Truncate,
            Task::JsonElements => TaskView::JsonElements,
            Task::JsonMember => TaskView::JsonMember,
            Task::GroupConditions => TaskView::GroupConditions,
            Task::GroupValues => TaskView::GroupValues,
            Task::GroupAggregate(op) => TaskView::GroupAggregate(op),
            Task::Aggregate(op) => TaskView::Aggregate(op),
            Task::CheckColumns => TaskView::CheckColumns,
            Task::KnownFunction => TaskView::KnownFunction,
            Task::LiteralArgument => TaskView::LiteralArgument,
            Task::TypeOid => TaskView::TypeOid,
            Task::TypeText => TaskView::TypeText,
            Task::ReturnType(n) => TaskView::ReturnType(n@),
            Task::TypeDisplay => TaskView::TypeDisplay,
            Task::TypeName => TaskView::TypeName,
            Task::ParseJson => TaskView::ParseJson,
            Task::ToJson => TaskView::ToJson,
        }
    }
}

impl Task {
    /// Whether two tasks are the same.
    pub fn same(&self, other: &Task) -> (r: bool)
        ensures
            r == (self@ == other@),
    {
        match (self, other) {
            (Task::Render, Task::Render) => true,
            (Task::Order, Task::Order) => true,
            (Task::Equal, Task::Equal) => true,
            (Task::KeyForm, Task::KeyForm) => true,
            (Task::Call(a), Task::Call(b)) => same_text(a.as_str(), b.as_str()),
            (Task::Arithmetic(a), Task::Arithmetic(b)) => *a == *b,
            (Task::RoundToInt, Task::RoundToInt) => true,
            (Task::ToFloat, Task::ToFloat) => true,
            (Task::Contains, Task::Contains) => true,
            (Task::ArrayLiteral, Task::ArrayLiteral) => true,
            (Task::ArrayOf(a), Task::ArrayOf(b)) => same_text(a.as_str(), b.as_str()),
            (Task::Temporal, Task::Temporal) => true,
            (Task::NormalizeTemporal(a), Task::NormalizeTemporal(b)) => same_text(
                a.as_str(),
                b.as_str(),
            ),
            (Task::LooksTemporal, Task::LooksTemporal) => true,
            (Task::TimestampText, Task::TimestampText) => true,
            (Task::GroupKey, Task::GroupKey) => true,
            (Task::ColumnPosition, Task::ColumnPosition) => true,
            (Task::JsonReference, Task::JsonReference) => true,
            (Task::JsonExtract, Task::JsonExtract) => true,
            (Task::RelationRow, Task::RelationRow) => true,
            (Task::Conditions, Task::Conditions) => true,
            (Task::Subqueries, Task::Subqueries) => true,
            (Task::ScalarSubquery, Task::ScalarSubquery) => true,
            (Task::Argument, Task::Argument) => true,
            (Task::Operand(a), Task::Operand(b)) => same_text(a.as_str(), b.as_str()),
            (Task::Truncate, Task::Truncate) => true,
            (Task::JsonElements, Task::JsonElements) => true,
            (Task::JsonMember, Task::JsonMember) => true,
            (Task::GroupConditions, Task::GroupConditions) => true,
            (Task::GroupValues, Task::GroupValues) => true,
            (Task::GroupAggregate(a), Task::GroupAggregate(b)) => *a == *b,
            (Task::Aggregate(a), Task::Aggregate(b)) => *a == *b,
            (Task::CheckColumns, Task::CheckColumns) => true,
            (Task::KnownFunction, Task::KnownFunction) => true,
            (Task::LiteralArgument, Task::LiteralArgument) => true,
            (Task::TypeOid, Task::TypeOid) => true,
            (Task::TypeText, Task::TypeText) => true,
            (Task::ReturnType(a), Task::ReturnType(b)) => same_text(a.as_str(), b.as_str()),
            (Task::TypeDisplay, Task::TypeDisplay) => true,
            (Task::TypeName, Task::TypeName) => true,
            (Task::ParseJson, Task::ParseJson) => true,
            (Task::ToJson, Task::ToJson) => true,
            _ => false,
        }
    }
}

/// A step to perform and the values to perform it on.
#[derive(Debug, PartialEq)]
pub struct Request {
    pub task: Task,
    pub args: Vec<Value>,
}

/// What a [`Request`] stands for.
#[verifier::ext_equal]
pub struct RequestView {
    pub task: TaskView,
    pub args: Seq<Val>,
}

impl View for Request {
    type V = RequestView;

    open spec fn view(&self) -> RequestView {
        RequestView { task: self.task@, args: vals(self.args@) }
    }
}

/// The broad category of a SQL type.
#[derive(Debug, Clone, Copy, PartialEq, Eq, Structural)]
pub enum ColumnType {
    Int,
    Float,
    Bool,
    Text,
}

/// What evaluation needs to know of a SQL type.
#[derive(Debug, PartialEq)]
pub struct TypeInfo {
    pub category: ColumnType,
    /// An array type's element type.
    pub element: Option<String>,
    /// The type's name as messages write it.
    pub shown: String,
    /// Whether it is a date or time type.
    pub temporal: bool,
}

/// What a [`TypeInfo`] stands for.
#[verifier::ext_equal]
pub struct TypeInfoView {
    pub category: ColumnType,
    pub element: Option<Seq<char>>,
    pub shown: Seq<char>,
    pub temporal: bool,
}

impl View for TypeInfo {
    type V = TypeInfoView;

    open spec fn view(&self) -> TypeInfoView {
        TypeInfoView {
            category: self.category,
            element: crate::text::opt_text(self.element),
            shown: self.shown@,
            temporal: self.temporal,
        }
    }
}

/// Why evaluation stopped without a value.
#[derive(Debug, PartialEq)]
pub enum Halt {
    /// The statement fails with this message.
    Raised(String),
    /// An answer is missing.
    Needs(Request),
    /// The description of this type is missing.
    NeedsType(String),
}

/// What a [`Halt`] stands for.
#[verifier::ext_equal]
pub enum Stop {
    Raised(Seq<char>),
    Needs(RequestView),
    NeedsType(Seq<char>),
}

impl View for Halt {
    type V = Stop;

    open spec fn view(&self) -> Stop {
        match *self {
            Halt::Raised(m) => Stop::Raised(m@),
            Halt::Needs(q) => Stop::Needs(q@),
            Halt::NeedsType(t) => Stop::NeedsType(t@),
        }
    }
}

/// What an evaluation's result stands for.
pub open spec fn outcome(r: Result<Value, Halt>) -> Result<Val, Stop> {
    match r {
        Ok(v) => Ok(v@),
        Err(h) => Err(h@),
    }
}

/// What a text result stands for.
pub open spec fn text_outcome(r: Result<String, Halt>) -> Result<Seq<char>, Stop> {
    match r {
        Ok(t) => Ok(t@),
        Err(h) => Err(h@),
    }
}

/// What a truth result stands for.
pub open spec fn bool_outcome(r: Result<bool, Halt>) -> Result<bool, Stop> {
    match r {
        Ok(b) => Ok(b),
        Err(h) => Err(h@),
    }
}

/// What a list result stands for.
pub open spec fn list_outcome(r: Result<Vec<Value>, Halt>) -> Result<Seq<Val>, Stop> {
    match r {
        Ok(v) => Ok(vals(v@)),
        Err(h) => Err(h@),
    }
}

/// The answers known so far.
pub struct Facts {
    pub answers: Vec<(Request, Result<Value, String>)>,
    pub types: Vec<(String, TypeInfo)>,
}

/// What [`Facts`] stand for.
#[verifier::ext_equal]
pub struct Known {
    pub answers: Seq<(RequestView, Result<Val, Seq<char>>)>,
    pub types: Seq<(Seq<char>, TypeInfoView)>,
}

pub open spec fn answer_view(r: Result<Value, String>) -> Result<Val, Seq<char>> {
    match r {
        Ok(v) => Ok(v@),
        Err(m) => Err(m@),
    }
}

impl View for Facts {
    type V = Known;

    open spec fn view(&self) -> Known {
        Known {
            answers: Seq::new(
                self.answers@.len(),
                |i: int| (self.answers@[i].0@, answer_view(self.answers@[i].1)),
            ),
            types: Seq::new(
                self.types@.len(),
                |i: int| (self.types@[i].0@, self.types@[i].1@),
            ),
        }
    }
}

/// The first answer to `q`.
pub open spec fn answer(
    answers: Seq<(RequestView, Result<Val, Seq<char>>)>,
    q: RequestView,
) -> Option<Result<Val, Seq<char>>>
    decreases answers.len(),
{
    if answers.len() == 0 {
        None
    } else if answers[0].0 == q {
        Some(answers[0].1)
    } else {
        answer(answers.skip(1), q)
    }
}

/// The first description of the type `t`.
pub open spec fn described(types: Seq<(Seq<char>, TypeInfoView)>, t: Seq<char>) -> Option<
    TypeInfoView,
>
    decreases types.len(),
{
    if types.len() == 0 {
        None
    } else if types[0].0 == t {
        Some(types[0].1)
    } else {
        described(types.skip(1), t)
    }
}

/// What asking for `q` gives.
pub open spec fn asked(k: Known, q: RequestView) -> Result<Val, Stop> {
    match answer(k.answers, q) {
        Some(Ok(v)) => Ok(v),
        Some(Err(m)) => Err(Stop::Raised(m)),
        None => Err(Stop::Needs(q)),
    }
}

/// The request for `task` on one value.
pub open spec fn on_one(task: TaskView, a: Val) -> RequestView {
    RequestView { task, args: seq![a] }
}

/// The request for `task` on three values.
pub open spec fn on_three(task: TaskView, a: Val, b: Val, c: Val) -> RequestView {
    RequestView { task, args: seq![a, b, c] }
}

/// The request for `task` on two values.
pub open spec fn on_two(task: TaskView, a: Val, b: Val) -> RequestView {
    RequestView { task, args: seq![a, b] }
}

impl Facts {
    /// Facts with nothing known.
    pub fn none() -> (r: Facts)
        ensures
            r@.answers.len() == 0,
            r@.types.len() == 0,
    {
        Facts { answers: Vec::new(), types: Vec::new() }
    }

    /// The answer to a request, or the request itself when it is not known.
    pub fn ask(&self, task: Task, args: Vec<Value>) -> (r: Result<Value, Halt>)
        ensures
            outcome(r) == asked(self@, RequestView { task: task@, args: vals(args@) }),
    {
        let ghost q = RequestView { task: task@, args: vals(args@) };
        let mut i: usize = 0;
        assert(self@.answers.skip(0) =~= self@.answers);
        while i < self.answers.len()
            invariant
                i <= self.answers@.len(),
                q == (RequestView { task: task@, args: vals(args@) }),
                answer(self@.answers, q) == answer(self@.answers.skip(i as int), q),
            decreases self.answers@.len() - i,
        {
            let entry = &self.answers[i];
            assert(self@.answers.skip(i as int)[0] == self@.answers[i as int]);
            assert(self@.answers.skip(i as int).skip(1) =~= self@.answers.skip(i + 1));
            if entry.0.task.same(&task) && same_values(&entry.0.args, &args) {
                assert(entry.0@ == q);
                return match &entry.1 {
                    Ok(v) => Ok(v.duplicate()),
                    Err(m) => Err(Halt::Raised(m.clone())),
                };
            }
            assert(entry.0@ != q);
            i = i + 1;
        }
        Err(Halt::Needs(Request { task, args }))
    }

    /// [`Facts::ask`] on one value.
    pub fn ask_one(&self, task: Task, a: &Value) -> (r: Result<Value, Halt>)
        ensures
            outcome(r) == asked(self@, on_one(task@, a@)),
    {
        let mut args: Vec<Value> = Vec::new();
        args.push(a.duplicate());
        assert(vals(args@) =~= seq![a@]);
        self.ask(task, args)
    }

    /// [`Facts::ask`] on two values.
    pub fn ask_two(&self, task: Task, a: &Value, b: &Value) -> (r: Result<Value, Halt>)
        ensures
            outcome(r) == asked(self@, on_two(task@, a@, b@)),
    {
        let mut args: Vec<Value> = Vec::new();
        args.push(a.duplicate());
        args.push(b.duplicate());
        assert(vals(args@) =~= seq![a@, b@]);
        self.ask(task, args)
    }

    /// [`Facts::ask`] on three values.
    pub fn ask_three(&self, task: Task, a: Value, b: Value, c: Value) -> (r: Result<Value, Halt>)
        ensures
            outcome(r) == asked(self@, on_three(task@, a@, b@, c@)),
    {
        let ghost (x, y, z) = (a@, b@, c@);
        let mut args: Vec<Value> = Vec::new();
        args.push(a);
        args.push(b);
        args.push(c);
        assert(vals(args@) =~= seq![x, y, z]);
        self.ask(task, args)
    }

    /// The description of a type, or a request for it.
    pub fn type_info(&self, t: &str) -> (r: Result<&TypeInfo, Halt>)
        ensures
            match (r, described(self@.types, t@)) {
                (Ok(a), Some(b)) => a@ == b,
                (Err(h), None) => h@ == Stop::NeedsType(t@),
                _ => false,
            },
    {
        let mut i: usize = 0;
        assert(self@.types.skip(0) =~= self@.types);
        while i < self.types.len()
            invariant
                i <= self.types@.len(),
                described(self@.types, t@) == described(self@.types.skip(i as int), t@),
            decreases self.types@.len() - i,
        {
            assert(self@.types.skip(i as int)[0] == self@.types[i as int]);
            assert(self@.types.skip(i as int).skip(1) =~= self@.types.skip(i + 1));
            if same_text(self.types[i].0.as_str(), t) {
                return Ok(&self.types[i].1);
            }
            i = i + 1;
        }
        Err(Halt::NeedsType(t.to_owned()))
    }
}

/// A step that is already answered is never asked for again.
pub proof fn law_answered_requests_do_not_halt(k: Known, q: RequestView, i: int)
    requires
        0 <= i < k.answers.len(),
        k.answers[i].0 == q,
    ensures
        asked(k, q) != Err::<Val, Stop>(Stop::Needs(q)),
    decreases k.answers.len(),
{
    if k.answers[0].0 != q {
        let rest = Known { answers: k.answers.skip(1), types: k.types };
        law_answered_requests_do_not_halt(rest, q, i - 1);
    }
}

} // verus!
