//! The system tables that list the built-in types and the settings.
use vstd::prelude::*;
use crate::session_vars::{default_session_var, default_var};
use crate::system_rows::{
    add_bool, add_int, add_row, add_text, add_value, new_row, new_rows,
};
use crate::text::{concat2, lower, lower_text};
use crate::value::{rows_view, vals, Val, Value};

verus! {

// ---------------------------------------------------------------------------
// pg_type
// ---------------------------------------------------------------------------

/// A built-in type, with the type of its arrays.
pub struct TypeSpec {
    pub oid: i64,
    pub name: &'static str,
    /// The size in bytes, -1 if it varies.
    pub length: i64,
    /// The OID of the type of its arrays.
    pub array: i64,
}

/// The number of built-in types.
pub const TYPE_COUNT: usize = 21;

/// The built-in types, by position.
pub open spec fn type_at(i: int) -> TypeSpec {
    if i == 0 {
        TypeSpec { oid: 16, name: "bool", length: 1, array: 1000 }
    } else if i == 1 {
        TypeSpec { oid: 17, name: "bytea", length: -1 as i64, array: 1001 }
    } else if i == 2 {
        TypeSpec { oid: 18, name: "char", length: 1, array: 1002 }
    } else if i == 3 {
        TypeSpec { oid: 19, name: "name", length: 64, array: 1003 }
    } else if i == 4 {
        TypeSpec { oid: 20, name: "int8", length: 8, array: 1016 }
    } else if i == 5 {
        TypeSpec { oid: 21, name: "int2", length: 2, array: 1005 }
    } else if i == 6 {
        TypeSpec { oid: 23, name: "int4", length: 4, array: 1007 }
    } else if i == 7 {
        TypeSpec { oid: 25, name: "text", length: -1 as i64, array: 1009 }
    } else if i == 8 {
        TypeSpec { oid: 26, name: "oid", length: 4, array: 1028 }
    } else if i == 9 {
        TypeSpec { oid: 700, name: "float4", length: 4, array: 1021 }
    } else if i == 10 {
        TypeSpec { oid: 701, name: "float8", length: 8, array: 1022 }
    } else if i == 11 {
        TypeSpec { oid: 1042, name: "bpchar", length: -1 as i64, array: 1014 }
    } else if i == 12 {
        TypeSpec { oid: 1043, name: "varchar", length: -1 as i64, array: 1015 }
    } else if i == 13 {
        TypeSpec { oid: 1082, name: "date", length: 4, array: 1182 }
    } else if i == 14 {
        TypeSpec { oid: 1083, name: "time", length: 8, array: 1183 }
    } else if i == 15 {
        TypeSpec { oid: 1114, name: "timestamp", length: 8, array: 1115 }
    } else if i == 16 {
        TypeSpec { oid: 1184, name: "timestamptz", length: 8, array: 1185 }
    } else if i == 17 {
        TypeSpec { oid: 1700, name: "numeric", length: -1 as i64, array: 1231 }
    } else if i == 18 {
        TypeSpec { oid: 2206, name: "regtype", length: 4, array: 2211 }
    } else if i == 19 {
        TypeSpec { oid: 2950, name: "uuid", length: 16, array: 2951 }
    } else {
        TypeSpec { oid: 3802, name: "jsonb", length: -1 as i64, array: 3807 }
    }
}

fn read_type(i: usize) -> (r: TypeSpec)
    ensures
        r == type_at(i as int),
{
    if i == 0 {
        TypeSpec { oid: 16, name: "bool", length: 1, array: 1000 }
    } else if i == 1 {
        TypeSpec { oid: 17, name: "bytea", length: -1, array: 1001 }
    } else if i == 2 {
        TypeSpec { oid: 18, name: "char", length: 1, array: 1002 }
    } else if i == 3 {
        TypeSpec { oid: 19, name: "name", length: 64, array: 1003 }
    } else if i == 4 {
        TypeSpec { oid: 20, name: "int8", length: 8, array: 1016 }
    } else if i == 5 {
        TypeSpec { oid: 21, name: "int2", length: 2, array: 1005 }
    } else if i == 6 {
        TypeSpec { oid: 23, name: "int4", length: 4, array: 1007 }
    } else if i == 7 {
        TypeSpec { oid: 25, name: "text", length: -1, array: 1009 }
    } else if i == 8 {
        TypeSpec { oid: 26, name: "oid", length: 4, array: 1028 }
    } else if i == 9 {
        TypeSpec { oid: 700, name: "float4", length: 4, array: 1021 }
    } else if i == 10 {
        TypeSpec { oid: 701, name: "float8", length: 8, array: 1022 }
    } else if i == 11 {
        TypeSpec { oid: 1042, name: "bpchar", length: -1, array: 1014 }
    } else if i == 12 {
        TypeSpec { oid: 1043, name: "varchar", length: -1, array: 1015 }
    } else if i == 13 {
        TypeSpec { oid: 1082, name: "date", length: 4, array: 1182 }
    } else if i == 14 {
        TypeSpec { oid: 1083, name: "time", length: 8, array: 1183 }
    } else if i == 15 {
        TypeSpec { oid: 1114, name: "timestamp", length: 8, array: 1115 }
    } else if i == 16 {
        TypeSpec { oid: 1184, name: "timestamptz", length: 8, array: 1185 }
    } else if i == 17 {
        TypeSpec { oid: 1700, name: "numeric", length: -1, array: 1231 }
    } else if i == 18 {
        TypeSpec { oid: 2206, name: "regtype", length: 4, array: 2211 }
    } else if i == 19 {
        TypeSpec { oid: 2950, name: "uuid", length: 16, array: 2951 }
    } else {
        TypeSpec { oid: 3802, name: "jsonb", length: -1, array: 3807 }
    }
}

/// Whether values of a size are passed by value.
pub open spec fn by_length(length: i64) -> bool {
    length == 1 || length == 2 || length == 4 || length == 8
}

fn passed_by_value(length: i64) -> (r: bool)
    ensures
        r == by_length(length),
{
    length == 1 || length == 2 || length == 4 || length == 8
}

/// The row of a type itself.
pub open spec fn base_row(t: TypeSpec, catalog: i64) -> Seq<Val> {
    seq![
        Val::Int(t.oid),
        Val::Text(t.name@),
        Val::Int(catalog),
        Val::Int(10),
        Val::Int(t.length),
        Val::Bool(by_length(t.length)),
        Val::Text("b"@),
        Val::Text("U"@),
        Val::Bool(false),
        Val::Bool(true),
        Val::Text(","@),
        Val::Int(0),
        Val::Int(0),
        Val::Int(t.array),
        Val::Int(0),
        Val::Int(0),
        Val::Int(0),
        Val::Int(0),
        Val::Int(0),
        Val::Int(0),
        Val::Int(0),
        Val::Text("i"@),
        Val::Text("p"@),
        Val::Bool(false),
        Val::Int(0),
        Val::Int(-1 as i64),
        Val::Int(0),
        Val::Int(100),
        Val::Null,
        Val::Null,
        Val::Null,
    ]
}

/// The row of the type of a type's arrays.
pub open spec fn array_row(t: TypeSpec, catalog: i64) -> Seq<Val> {
    seq![
        Val::Int(t.array),
        Val::Text("_"@ + t.name@),
        Val::Int(catalog),
        Val::Int(10),
        Val::Int(-1 as i64),
        Val::Bool(false),
        Val::Text("a"@),
        Val::Text("A"@),
        Val::Bool(false),
        Val::Bool(true),
        Val::Text(","@),
        Val::Int(0),
        Val::Int(t.oid),
        Val::Int(0),
        Val::Int(0),
        Val::Int(0),
        Val::Int(750),
        Val::Int(0),
        Val::Int(0),
        Val::Int(0),
        Val::Int(0),
        Val::Text("i"@),
        Val::Text("x"@),
        Val::Bool(false),
        Val::Int(0),
        Val::Int(-1 as i64),
        Val::Int(1),
        Val::Int(100),
        Val::Null,
        Val::Null,
        Val::Null,
    ]
}

fn make_base_row(t: &TypeSpec, catalog: i64) -> (r: Vec<Value>)
    ensures
        vals(r@) == base_row(*t, catalog),
{
    let mut row = new_row();
    add_int(&mut row, t.oid);
    add_text(&mut row, t.name);
    add_int(&mut row, catalog);
    add_int(&mut row, 10);
    add_int(&mut row, t.length);
    add_bool(&mut row, passed_by_value(t.length));
    add_text(&mut row, "b");
    add_text(&mut row, "U");
    add_bool(&mut row, false);
    add_bool(&mut row, true);
    add_text(&mut row, ",");
    add_int(&mut row, 0);
    add_int(&mut row, 0);
    add_int(&mut row, t.array);
    add_int(&mut row, 0);
    add_int(&mut row, 0);
    add_int(&mut row, 0);
    add_int(&mut row, 0);
    add_int(&mut row, 0);
    add_int(&mut row, 0);
    add_int(&mut row, 0);
    add_text(&mut row, "i");
    add_text(&mut row, "p");
    add_bool(&mut row, false);
    add_int(&mut row, 0);
    add_int(&mut row, -1);
    add_int(&mut row, 0);
    add_int(&mut row, 100);
    add_value(&mut row, Value::Null);
    add_value(&mut row, Value::Null);
    add_value(&mut row, Value::Null);
    row
}

fn make_array_row(t: &TypeSpec, catalog: i64) -> (r: Vec<Value>)
    ensures
        vals(r@) == array_row(*t, catalog),
{
    let array_name = concat2("_", t.name);
    let mut row = new_row();
    add_int(&mut row, t.array);
    add_text(&mut row, array_name.as_str());
    add_int(&mut row, catalog);
    add_int(&mut row, 10);
    add_int(&mut row, -1);
    add_bool(&mut row, false);
    add_text(&mut row, "a");
    add_text(&mut row, "A");
    add_bool(&mut row, false);
    add_bool(&mut row, true);
    add_text(&mut row, ",");
    add_int(&mut row, 0);
    add_int(&mut row, t.oid);
    add_int(&mut row, 0);
    add_int(&mut row, 0);
    add_int(&mut row, 0);
    add_int(&mut row, 750);
    add_int(&mut row, 0);
    add_int(&mut row, 0);
    add_int(&mut row, 0);
    add_int(&mut row, 0);
    add_text(&mut row, "i");
    add_text(&mut row, "x");
    add_bool(&mut row, false);
    add_int(&mut row, 0);
    add_int(&mut row, -1);
    add_int(&mut row, 1);
    add_int(&mut row, 100);
    add_value(&mut row, Value::Null);
    add_value(&mut row, Value::Null);
    add_value(&mut row, Value::Null);
    row
}

/// The rows of `pg_type`: the types, then the types of their arrays.
pub open spec fn type_rows(catalog: i64) -> Seq<Seq<Val>> {
    Seq::new(
        (2 * TYPE_COUNT) as nat,
        |i: int|
            if i < TYPE_COUNT {
                base_row(type_at(i), catalog)
            } else {
                array_row(type_at(i - TYPE_COUNT), catalog)
            },
    )
}

/// The rows of `pg_type`.
pub fn rows_of_types(catalog: i64) -> (r: Vec<Vec<Value>>)
    ensures
        rows_view(r@) == type_rows(catalog),
{
    let mut rows = new_rows();
    let mut i: usize = 0;
    assert(rows_view(rows@) =~= type_rows(catalog).take(0));
    while i < 2 * TYPE_COUNT
        invariant
            i <= 2 * TYPE_COUNT,
            rows_view(rows@) == type_rows(catalog).take(i as int),
        decreases 2 * TYPE_COUNT - i,
    {
        if i < TYPE_COUNT {
            let t = read_type(i);
            add_row(&mut rows, make_base_row(&t, catalog));
        } else {
            let t = read_type(i - TYPE_COUNT);
            add_row(&mut rows, make_array_row(&t, catalog));
        }
        assert(type_rows(catalog).take(i + 1) =~= type_rows(catalog).take(i as int).push(
            type_rows(catalog)[i as int],
        ));
        i = i + 1;
    }
    assert(type_rows(catalog).take(i as int) =~= type_rows(catalog));
    rows
}

/// The position of a type by its OID.
spec fn place(oid: i64) -> int {
    if oid == 16 {
        0
    } else if oid == 17 {
        1
    } else if oid == 18 {
        2
    } else if oid == 19 {
        3
    } else if oid == 20 {
        4
    } else if oid == 21 {
        5
    } else if oid == 23 {
        6
    } else if oid == 25 {
        7
    } else if oid == 26 {
        8
    } else if oid == 700 {
        9
    } else if oid == 701 {
        10
    } else if oid == 1042 {
        11
    } else if oid == 1043 {
        12
    } else if oid == 1082 {
        13
    } else if oid == 1083 {
        14
    } else if oid == 1114 {
        15
    } else if oid == 1184 {
        16
    } else if oid == 1700 {
        17
    } else if oid == 2206 {
        18
    } else if oid == 2950 {
        19
    } else if oid == 3802 {
        20
    } else if oid == 1000 {
        21
    } else if oid == 1001 {
        22
    } else if oid == 1002 {
        23
    } else if oid == 1003 {
        24
    } else if oid == 1016 {
        25
    } else if oid == 1005 {
        26
    } else if oid == 1007 {
        27
    } else if oid == 1009 {
        28
    } else if oid == 1028 {
        29
    } else if oid == 1021 {
        30
    } else if oid == 1022 {
        31
    } else if oid == 1014 {
        32
    } else if oid == 1015 {
        33
    } else if oid == 1182 {
        34
    } else if oid == 1183 {
        35
    } else if oid == 1115 {
        36
    } else if oid == 1185 {
        37
    } else if oid == 1231 {
        38
    } else if oid == 2211 {
        39
    } else if oid == 2951 {
        40
    } else if oid == 3807 {
        41
    } else {
        -1
    }
}

proof fn lemma_place(i: int)
    requires
        0 <= i < TYPE_COUNT,
    ensures
        place(type_at(i).oid) == i,
        place(type_at(i).array) == i + TYPE_COUNT,
{
}

/// No two rows of `pg_type` have the same OID.
pub proof fn law_type_oids_are_distinct(catalog: i64, i: int, j: int)
    requires
        0 <= i < j < type_rows(catalog).len(),
    ensures
        type_rows(catalog)[i][0] != type_rows(catalog)[j][0],
{
    let a = if i < TYPE_COUNT { i } else { i - TYPE_COUNT };
    let b = if j < TYPE_COUNT { j } else { j - TYPE_COUNT };
    lemma_place(a);
    lemma_place(b);
}

/// The `typarray` of each type names exactly one row of `pg_type`: that of the
/// type of its arrays, whose `typelem` is the type and whose name is the
/// type's after an underscore.
pub proof fn law_each_type_has_its_array_type(catalog: i64, i: int, j: int)
    requires
        0 <= i < TYPE_COUNT,
        0 <= j < type_rows(catalog).len(),
    ensures
        type_rows(catalog).len() == 2 * TYPE_COUNT,
        (type_rows(catalog)[j][0] == type_rows(catalog)[i][13]) == (j == i + TYPE_COUNT),
        type_rows(catalog)[i + TYPE_COUNT][12] == type_rows(catalog)[i][0],
        type_rows(catalog)[i + TYPE_COUNT][1] == Val::Text("_"@ + type_at(i).name@),
        type_rows(catalog)[i][1] == Val::Text(type_at(i).name@),
{
    let b = if j < TYPE_COUNT { j } else { j - TYPE_COUNT };
    lemma_place(i);
    lemma_place(b);
}

// ---------------------------------------------------------------------------
// pg_settings
// ---------------------------------------------------------------------------

/// A setting that `pg_settings` lists.
pub struct SettingSpec {
    pub name: &'static str,
    pub kind: &'static str,
}

/// The number of settings that `pg_settings` lists.
pub const SETTING_COUNT: usize = 12;

/// The settings that `pg_settings` lists, by position.
pub open spec fn setting_at(i: int) -> SettingSpec {
    if i == 0 {
        SettingSpec { name: "application_name", kind: "string" }
    } else if i == 1 {
        SettingSpec { name: "client_encoding", kind: "string" }
    } else if i == 2 {
        SettingSpec { name: "DateStyle", kind: "string" }
    } else if i == 3 {
        SettingSpec { name: "integer_datetimes", kind: "bool" }
    } else if i == 4 {
        SettingSpec { name: "IntervalStyle", kind: "string" }
    } else if i == 5 {
        SettingSpec { name: "is_superuser", kind: "bool" }
    } else if i == 6 {
        SettingSpec { name: "server_encoding", kind: "string" }
    } else if i == 7 {
        SettingSpec { name: "server_version", kind: "string" }
    } else if i == 8 {
        SettingSpec { name: "server_version_num", kind: "integer" }
    } else if i == 9 {
        SettingSpec { name: "standard_conforming_strings", kind: "bool" }
    } else if i == 10 {
        SettingSpec { name: "statement_timeout", kind: "integer" }
    } else {
        SettingSpec { name: "TimeZone", kind: "string" }
    }
}

fn read_setting(i: usize) -> (r: SettingSpec)
    ensures
        r == setting_at(i as int),
{
    if i == 0 {
        SettingSpec { name: "application_name", kind: "string" }
    } else if i == 1 {
        SettingSpec { name: "client_encoding", kind: "string" }
    } else if i == 2 {
        SettingSpec { name: "DateStyle", kind: "string" }
    } else if i == 3 {
        SettingSpec { name: "integer_datetimes", kind: "bool" }
    } else if i == 4 {
        SettingSpec { name: "IntervalStyle", kind: "string" }
    } else if i == 5 {
        SettingSpec { name: "is_superuser", kind: "bool" }
    } else if i == 6 {
        SettingSpec { name: "server_encoding", kind: "string" }
    } else if i == 7 {
        SettingSpec { name: "server_version", kind: "string" }
    } else if i == 8 {
        SettingSpec { name: "server_version_num", kind: "integer" }
    } else if i == 9 {
        SettingSpec { name: "standard_conforming_strings", kind: "bool" }
    } else if i == 10 {
        SettingSpec { name: "statement_timeout", kind: "integer" }
    } else {
        SettingSpec { name: "TimeZone", kind: "string" }
    }
}

/// The value a fresh session reports for a setting; empty if it has none.
pub open spec fn shown_default(name: Seq<char>) -> Seq<char> {
    match default_var(lower(name)) {
        Some(v) => v,
        None => ""@,
    }
}

/// The row of a setting.
pub open spec fn setting_row(s: SettingSpec) -> Seq<Val> {
    seq![
        Val::Text(s.name@),
        Val::Text(shown_default(s.name@)),
        Val::Null,
        Val::Text("Client Connection Defaults"@),
        Val::Text(s.name@),
        Val::Null,
        Val::Text("user"@),
        Val::Text(s.kind@),
        Val::Text("default"@),
        Val::Null,
        Val::Null,
        Val::Null,
        Val::Text(shown_default(s.name@)),
        Val::Text(shown_default(s.name@)),
        Val::Null,
        Val::Null,
        Val::Bool(false),
    ]
}

fn make_setting_row(s: &SettingSpec) -> (r: Vec<Value>)
    ensures
        vals(r@) == setting_row(*s),
{
    let low = lower_text(s.name);
    let shown: &'static str = match default_session_var(low.as_str()) {
        Some(v) => v,
        None => "",
    };
    let mut row = new_row();
    add_text(&mut row, s.name);
    add_text(&mut row, shown);
    add_value(&mut row, Value::Null);
    add_text(&mut row, "Client Connection Defaults");
    add_text(&mut row, s.name);
    add_value(&mut row, Value::Null);
    add_text(&mut row, "user");
    add_text(&mut row, s.kind);
    add_text(&mut row, "default");
    add_value(&mut row, Value::Null);
    add_value(&mut row, Value::Null);
    add_value(&mut row, Value::Null);
    add_text(&mut row, shown);
    add_text(&mut row, shown);
    add_value(&mut row, Value::Null);
    add_value(&mut row, Value::Null);
    add_bool(&mut row, false);
    row
}

/// The rows of `pg_settings`.
pub open spec fn setting_rows() -> Seq<Seq<Val>> {
    Seq::new(SETTING_COUNT as nat, |i: int| setting_row(setting_at(i)))
}

/// The rows of `pg_settings`.
pub fn rows_of_settings() -> (r: Vec<Vec<Value>>)
    ensures
        rows_view(r@) == setting_rows(),
{
    let mut rows = new_rows();
    let mut i: usize = 0;
    assert(rows_view(rows@) =~= setting_rows().take(0));
    while i < SETTING_COUNT
        invariant
            i <= SETTING_COUNT,
            rows_view(rows@) == setting_rows().take(i as int),
        decreases SETTING_COUNT - i,
    {
        let s = read_setting(i);
        add_row(&mut rows, make_setting_row(&s));
        assert(setting_rows().take(i + 1) =~= setting_rows().take(i as int).push(
            setting_rows()[i as int],
        ));
        i = i + 1;
    }
    assert(setting_rows().take(i as int) =~= setting_rows());
    rows
}

proof fn lemma_known_settings(i: int)
    requires
        0 <= i < SETTING_COUNT,
    ensures
        default_var(lower(setting_at(i).name@)) is Some,
{
    if i == 0 {
        reveal_strlit("application_name");
        assert(lower("application_name"@) =~= "application_name"@);
    }
    if i == 1 {
        reveal_strlit("client_encoding");
        assert(lower("client_encoding"@) =~= "client_encoding"@);
    }
    if i == 2 {
        reveal_strlit("DateStyle");
        reveal_strlit("datestyle");
        assert(lower("DateStyle"@) =~= "datestyle"@);
    }
    if i == 3 {
        reveal_strlit("integer_datetimes");
        assert(lower("integer_datetimes"@) =~= "integer_datetimes"@);
    }
    if i == 4 {
        reveal_strlit("IntervalStyle");
        reveal_strlit("intervalstyle");
        assert(lower("IntervalStyle"@) =~= "intervalstyle"@);
    }
    if i == 5 {
        reveal_strlit("is_superuser");
        assert(lower("is_superuser"@) =~= "is_superuser"@);
    }
    if i == 6 {
        reveal_strlit("server_encoding");
        assert(lower("server_encoding"@) =~= "server_encoding"@);
    }
    if i == 7 {
        reveal_strlit("server_version");
        assert(lower("server_version"@) =~= "server_version"@);
    }
    if i == 8 {
        reveal_strlit("server_version_num");
        assert(lower("server_version_num"@) =~= "server_version_num"@);
    }
    if i == 9 {
        reveal_strlit("standard_conforming_strings");
        assert(lower("standard_conforming_strings"@) =~= "standard_conforming_strings"@);
    }
    if i == 10 {
        reveal_strlit("statement_timeout");
        assert(lower("statement_timeout"@) =~= "statement_timeout"@);
    }
    if i == 11 {
        reveal_strlit("TimeZone");
        reveal_strlit("timezone");
        assert(lower("TimeZone"@) =~= "timezone"@);
    }
}

/// `pg_settings` advertises of each setting what a fresh session reports for
/// its name in small letters, as the setting, its boot value, and its reset
/// value alike; each row has seventeen values.
pub proof fn law_settings_are_the_defaults(i: int)
    requires
        0 <= i < setting_rows().len(),
    ensures
        setting_rows()[i].len() == 17,
        setting_rows()[i][0] is Text,
        match default_var(lower(setting_rows()[i][0]->Text_0)) {
            Some(v) => setting_rows()[i][1] == Val::Text(v),
            None => false,
        },
        setting_rows()[i][12] == setting_rows()[i][1],
        setting_rows()[i][13] == setting_rows()[i][1],
{
    lemma_known_settings(i);
}

} // verus!
