//! The names of output columns that have no alias.
use vstd::prelude::*;
use crate::syntax::{Body, ItemKind, Query, SqlExpr, SqlNode, TrimSide};
use crate::text::{
    chars_of, ends, lower, lower_text, opt_text, same_text, split, split_text, strip_both,
    strip_end, strip_start, text_between, texts, trim_text, trimmed, upper, upper_text,
};

verus! {

/// A type without the brackets that make it an array type.
pub open spec fn without_brackets(t: Seq<char>) -> Seq<char>
    decreases t.len(),
{
    if ends(t, seq!['[', ']']) {
        without_brackets(t.take(t.len() - 2))
    } else {
        t
    }
}

fn strip_brackets(t: &str) -> (r: String)
    ensures
        r@ == without_brackets(t@),
{
    let chars = chars_of(t);
    let mut n: usize = chars.len();
    assert(t@.take(n as int) =~= t@);
    while n >= 2 && chars[n - 2] == '[' && chars[n - 1] == ']'
        invariant
            n <= chars@.len(),
            chars@ == t@,
            without_brackets(t@) == without_brackets(t@.take(n as int)),
        decreases n,
    {
        let ghost whole = t@.take(n as int);
        assert(whole.skip(whole.len() - 2) =~= seq!['[', ']']);
        assert(whole.take(whole.len() - 2) =~= t@.take(n - 2));
        n = n - 2;
    }
    let ghost whole = t@.take(n as int);
    assert(!ends(whole, seq!['[', ']'])) by {
        if ends(whole, seq!['[', ']']) {
            let tail = whole.skip(whole.len() - 2);
            assert(tail[0] == '[' && tail[1] == ']');
            assert(whole[n - 2] == '[' && whole[n - 1] == ']');
        }
    }
    let r = text_between(&chars, 0, n);
    assert(r@ =~= whole);
    r
}

/// The upper-cased name of a type without its modifiers.
pub open spec fn type_base(t: Seq<char>) -> Seq<char> {
    trimmed(split(without_brackets(upper(trimmed(t))), '(')[0])
}

/// The internal name of a type as written in a cast (`int4` for `integer`,
/// `float8` for `double precision`).
pub open spec fn cast_name(t: Seq<char>) -> Seq<char> {
    let base = type_base(t);
    if base == "INT"@ || base == "INTEGER"@ || base == "INT4"@ {
        "int4"@
    } else if base == "BIGINT"@ || base == "INT8"@ {
        "int8"@
    } else if base == "SMALLINT"@ || base == "INT2"@ {
        "int2"@
    } else if base == "BOOL"@ || base == "BOOLEAN"@ {
        "bool"@
    } else if base == "REAL"@ || base == "FLOAT4"@ {
        "float4"@
    } else if base == "FLOAT"@ || base == "FLOAT8"@ || base == "DOUBLE"@ || base
        == "DOUBLE PRECISION"@ {
        "float8"@
    } else if base == "DECIMAL"@ || base == "DEC"@ || base == "NUMERIC"@ {
        "numeric"@
    } else if base == "VARCHAR"@ || base == "CHARACTER VARYING"@ {
        "varchar"@
    } else if base == "CHAR"@ || base == "CHARACTER"@ || base == "BPCHAR"@ {
        "bpchar"@
    } else if base == "TIMESTAMP"@ || base == "TIMESTAMP WITHOUT TIME ZONE"@ {
        "timestamp"@
    } else if base == "TIMESTAMPTZ"@ || base == "TIMESTAMP WITH TIME ZONE"@ {
        "timestamptz"@
    } else if base == "TIME"@ || base == "TIME WITHOUT TIME ZONE"@ {
        "time"@
    } else if base == "TIMETZ"@ || base == "TIME WITH TIME ZONE"@ {
        "timetz"@
    } else {
        strip_end(strip_start(lower(base), '"'), '"')
    }
}

/// The internal name of a type as written in a cast.
pub fn cast_type_name(data_type: &str) -> (r: String)
    ensures
        r@ == cast_name(data_type@),
{
    let trimmed_type = trim_text(data_type);
    let whole = upper_text(trimmed_type.as_str());
    let element = strip_brackets(whole.as_str());
    let pieces = split_text(element.as_str(), '(');
    proof {
        crate::text::lemma_split_nonempty(element@, '(');
        assert(texts(pieces@)[0] == pieces@[0]@);
    }
    let trimmed_base = trim_text(pieces[0].as_str());
    let base = trimmed_base.as_str();
    let known = if same_text(base, "INT") || same_text(base, "INTEGER") || same_text(base, "INT4") {
        "int4"
    } else if same_text(base, "BIGINT") || same_text(base, "INT8") {
        "int8"
    } else if same_text(base, "SMALLINT") || same_text(base, "INT2") {
        "int2"
    } else if same_text(base, "BOOL") || same_text(base, "BOOLEAN") {
        "bool"
    } else if same_text(base, "REAL") || same_text(base, "FLOAT4") {
        "float4"
    } else if same_text(base, "FLOAT") || same_text(base, "FLOAT8") || same_text(base, "DOUBLE")
        || same_text(base, "DOUBLE PRECISION") {
        "float8"
    } else if same_text(base, "DECIMAL") || same_text(base, "DEC") || same_text(base, "NUMERIC") {
        "numeric"
    } else if same_text(base, "VARCHAR") || same_text(base, "CHARACTER VARYING") {
        "varchar"
    } else if same_text(base, "CHAR") || same_text(base, "CHARACTER") || same_text(base, "BPCHAR") {
        "bpchar"
    } else if same_text(base, "TIMESTAMP") || same_text(base, "TIMESTAMP WITHOUT TIME ZONE") {
        "timestamp"
    } else if same_text(base, "TIMESTAMPTZ") || same_text(base, "TIMESTAMP WITH TIME ZONE") {
        "timestamptz"
    } else if same_text(base, "TIME") || same_text(base, "TIME WITHOUT TIME ZONE") {
        "time"
    } else if same_text(base, "TIMETZ") || same_text(base, "TIME WITH TIME ZONE") {
        "timetz"
    } else {
        let other = lower_text(base);
        return strip_both(other.as_str(), '"');
    };
    known.to_owned()
}

/// The last field's name among the accesses before position `n`.
pub open spec fn last_field(chain: Seq<Option<String>>, n: int) -> Option<Seq<char>>
    decreases n,
{
    if n <= 0 || n > chain.len() {
        None
    } else {
        match chain[n - 1] {
            Some(f) => Some(f@),
            None => last_field(chain, n - 1),
        }
    }
}

fn find_last_field(chain: &Vec<Option<String>>) -> (r: Option<String>)
    ensures
        opt_text(r) == last_field(chain@, chain@.len() as int),
{
    let mut n: usize = chain.len();
    while n > 0
        invariant
            n <= chain@.len(),
            last_field(chain@, chain@.len() as int) == last_field(chain@, n as int),
        decreases n,
    {
        if let Some(f) = &chain[n - 1] {
            return Some(f.clone());
        }
        n = n - 1;
    }
    None
}

/// The name that an expression suggests for its column: a column's or a
/// field's name, a function's name, the type of a cast of a constant, a keyword
/// for some other forms, and a subquery's first column.
pub open spec fn suggested(e: SqlExpr) -> Option<Seq<char>>
    decreases e, 0int,
{
    match e.node {
        SqlNode::Identifier(id) => Some(id.value@),
        SqlNode::Compound(ids) => if ids@.len() == 0 {
            None
        } else {
            Some(ids@.last().value@)
        },
        SqlNode::Access { root, chain } => match last_field(chain@, chain@.len() as int) {
            Some(f) => Some(f),
            None => suggested(*root),
        },
        SqlNode::Nested(x) | SqlNode::Collate(x) => suggested(*x),
        SqlNode::Function(call) => match call.last_part {
            Some(id) => Some(
                if id.quoted {
                    id.value@
                } else {
                    lower(id.value@)
                },
            ),
            None => None,
        },
        SqlNode::Cast { expr, data_type } => match suggested(*expr) {
            Some(name) => Some(
                if name == "case"@ {
                    cast_name(data_type@)
                } else {
                    name
                },
            ),
            None => Some(cast_name(data_type@)),
        },
        SqlNode::TypedString { data_type, .. } => Some(cast_name(data_type@)),
        SqlNode::Interval { .. } => Some("interval"@),
        SqlNode::Case { .. } => Some("case"@),
        SqlNode::Array(_) => Some("array"@),
        SqlNode::Tuple(_) => Some("row"@),
        SqlNode::Exists { .. } => Some("exists"@),
        SqlNode::Subquery(query) => body_name(*query.body),
        SqlNode::Extract { .. } => Some("extract"@),
        SqlNode::Position { .. } => Some("position"@),
        SqlNode::Substring { shorthand, .. } => Some(
            if shorthand {
                "substr"@
            } else {
                "substring"@
            },
        ),
        SqlNode::Overlay { .. } => Some("overlay"@),
        SqlNode::Rounded { up, .. } => Some(
            if up {
                "ceil"@
            } else {
                "floor"@
            },
        ),
        SqlNode::Trim { side, .. } => Some(
            match side {
                TrimSide::Leading => "ltrim"@,
                TrimSide::Trailing => "rtrim"@,
                TrimSide::Both => "btrim"@,
            },
        ),
        _ => None,
    }
}

/// The name of an unaliased item.
pub open spec fn default_name(e: SqlExpr) -> Seq<char>
    decreases e, 1int,
{
    match suggested(e) {
        Some(name) => name,
        None => "?column?"@,
    }
}

/// The name of the first output column of a query's body.
pub open spec fn body_name(b: Body) -> Option<Seq<char>>
    decreases b, 0int,
{
    match b {
        Body::Select(select) => if select.projection@.len() == 0 {
            None
        } else {
            match select.projection@[0].kind {
                ItemKind::Unnamed(e) => Some(default_name(e)),
                ItemKind::Aliased(_, alias) => Some(alias@),
                _ => None,
            }
        },
        Body::Query(inner) => body_name(*inner.body),
        Body::SetOperation { left, .. } => body_name(*left),
        _ => None,
    }
}

/// The default name for an unaliased select item: a column's name, a
/// function's name, a cast's type when it casts a constant, a keyword for
/// CASE/ARRAY/ROW/EXISTS, and `?column?` otherwise.
pub fn default_output_name(expr: &SqlExpr) -> (r: String)
    ensures
        r@ == default_name(*expr),
    decreases expr, 1int,
{
    match figure_colname(expr) {
        Some(name) => name,
        None => "?column?".to_owned(),
    }
}

/// The name that an expression suggests for its column.
pub fn figure_colname(expr: &SqlExpr) -> (r: Option<String>)
    ensures
        opt_text(r) == suggested(*expr),
    decreases expr, 0int,
{
    let keyword = match &expr.node {
        SqlNode::Identifier(id) => {
            return Some(id.value.clone());
        },
        SqlNode::Compound(ids) => {
            let n: usize = ids.len();
            return if n == 0 {
                None
            } else {
                Some(ids[n - 1].value.clone())
            };
        },
        SqlNode::Access { root, chain } => {
            return match find_last_field(chain) {
                Some(f) => Some(f),
                None => figure_colname(root),
            };
        },
        SqlNode::Nested(x) | SqlNode::Collate(x) => {
            return figure_colname(x);
        },
        SqlNode::Function(call) => {
            return match &call.last_part {
                Some(id) => {
                    if id.quoted {
                        Some(id.value.clone())
                    } else {
                        Some(lower_text(id.value.as_str()))
                    }
                },
                None => None,
            };
        },
        SqlNode::Cast { expr: inner, data_type } => {
            return match figure_colname(inner) {
                Some(name) => {
                    if same_text(name.as_str(), "case") {
                        Some(cast_type_name(data_type.as_str()))
                    } else {
                        Some(name)
                    }
                },
                None => Some(cast_type_name(data_type.as_str())),
            };
        },
        SqlNode::TypedString { data_type, .. } => {
            return Some(cast_type_name(data_type.as_str()));
        },
        SqlNode::Subquery(query) => {
            return query_output_name(&query.body);
        },
        SqlNode::Interval { .. } => "interval",
        SqlNode::Case { .. } => "case",
        SqlNode::Array(_) => "array",
        SqlNode::Tuple(_) => "row",
        SqlNode::Exists { .. } => "exists",
        SqlNode::Extract { .. } => "extract",
        SqlNode::Position { .. } => "position",
        SqlNode::Substring { shorthand, .. } => {
            if *shorthand {
                "substr"
            } else {
                "substring"
            }
        },
        SqlNode::Overlay { .. } => "overlay",
        SqlNode::Rounded { up, .. } => {
            if *up {
                "ceil"
            } else {
                "floor"
            }
        },
        SqlNode::Trim { side, .. } => match side {
            TrimSide::Leading => "ltrim",
            TrimSide::Trailing => "rtrim",
            TrimSide::Both => "btrim",
        },
        _ => {
            return None;
        },
    };
    Some(keyword.to_owned())
}

/// The name of the first output column of a query's body, as a scalar subquery
/// item takes it.
pub fn query_output_name(body: &Body) -> (r: Option<String>)
    ensures
        opt_text(r) == body_name(*body),
    decreases body, 0int,
{
    match body {
        Body::Select(select) => {
            if select.projection.len() == 0 {
                return None;
            }
            assert(decreases_to!(select.projection@ => select.projection@[0]));
            match &select.projection[0].kind {
                ItemKind::Unnamed(e) => Some(default_output_name(e)),
                ItemKind::Aliased(_, alias) => Some(alias.clone()),
                _ => None,
            }
        },
        Body::Query(inner) => query_output_name(&inner.body),
        Body::SetOperation { left, .. } => query_output_name(left),
        _ => None,
    }
}

} // verus!
