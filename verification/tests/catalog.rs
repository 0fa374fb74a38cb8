use nodus_executor::catalog::{
    name_of_constraint, name_of_not_null, Catalog, ColumnInfo, ConstraintInfo, DefaultInfo,
    IndexInfo, IndexKey, ReferentialAction, SchemaInfo, SequenceInfo, TableConstraint, TableInfo,
};
use nodus_executor::facts::{Facts, Request, Task};
use nodus_executor::identifiers::{
    constraint_definition, find_system_name, find_system_oid, find_view, index_definition,
    object_identifier, object_name, quote_ident, relation_oid,
};
use nodus_executor::join::Relation;
use nodus_executor::pg_catalog::{
    default_text, get_virtual_table, pg_catalog_virtual_table, pg_constraint_rows,
};
use nodus_executor::referential::{
    check_at_end, check_reference, checked_at_end, decide_child, decide_children, does_name_table, gone_keys,
    key_tuple, prepare_foreign_key, referenced_table, resolve_reference, restricted, same_key,
    schema_name_of,
    still_referenced, sweep, ChildStep, Keys, Parent, Reference,
};
use nodus_executor::sequences::{sequence_columns, SequenceSpec, SequenceState};
use nodus_executor::session_vars::default_session_var;
use nodus_executor::storage_keys::{has_pending_writes, table_range};
use nodus_executor::plan_types::{CompareOp, FilterExpr, Operand, Predicate, ScalarExpr};
use nodus_executor::table_sources::{find_indexes, schema_of_table};
use nodus_executor::value::Value;

fn names(list: &[&str]) -> Vec<String> {
    list.iter().map(|s| s.to_string()).collect()
}

fn column(id: u64, name: &str, nullable: bool) -> ColumnInfo {
    ColumnInfo {
        id,
        name: name.to_string(),
        data_type: "INTEGER".to_string(),
        nullable,
        default: None,
        type_oid: 23,
        type_length: 4,
        type_modifier: -1,
        type_storage: "p".to_string(),
        shown_type: "integer".to_string(),
    }
}

fn foreign_key(columns: &[&str], table: &str, referred: &[&str]) -> TableConstraint {
    TableConstraint::ForeignKey {
        name: None,
        columns: names(columns),
        foreign_table: table.to_string(),
        referred_columns: names(referred),
        on_delete: ReferentialAction::NoAction,
        on_update: ReferentialAction::NoAction,
    }
}

fn table(name: &str, oid: i64) -> TableInfo {
    let mut amount = column(2, "amount", true);
    amount.default = Some(DefaultInfo {
        expr: ScalarExpr::Literal(Value::Int(7)),
        generation: None,
        shown: "7".to_string(),
        oid: oid + 5,
        sequence_oid: 0,
    });
    TableInfo {
        name: name.to_string(),
        schema: "public".to_string(),
        oid,
        schema_oid: 2200,
        columns: vec![column(1, "id", false), amount],
        indexes: vec![
            IndexInfo {
                name: format!("{name}_pkey"),
                unique: true,
                primary: true,
                keys: vec![IndexKey { column_id: 1, descending: false }],
                partial: false,
                computed: false,
                oid: oid + 1,
            },
            IndexInfo {
                name: format!("{name}_amount"),
                unique: false,
                primary: false,
                keys: vec![IndexKey { column_id: 2, descending: true }],
                partial: false,
                computed: false,
                oid: oid + 2,
            },
        ],
        constraints: vec![
            ConstraintInfo {
                constraint: TableConstraint::Check {
                    name: None,
                    expr: "amount > 0".to_string(),
                },
                oid: oid + 3,
                referenced_oid: 0,
            },
            ConstraintInfo {
                constraint: foreign_key(&["amount"], "other", &["id"]),
                oid: oid + 4,
                referenced_oid: 999,
            },
        ],
        not_null_oids: vec![oid + 6, oid + 7],
        index_constraint_oids: vec![oid + 8, oid + 9],
        is_view: false,
        is_materialized: false,
        sequence: None,
    }
}

fn catalog() -> Catalog {
    let mut view = table("v", 300);
    view.is_view = true;
    view.indexes.clear();
    view.constraints.clear();
    let mut sequence = table("s", 400);
    sequence.indexes.clear();
    sequence.constraints.clear();
    sequence.columns = sequence_columns()
        .0
        .iter()
        .enumerate()
        .map(|(i, n)| column(i as u64 + 1, n, true))
        .collect();
    sequence.sequence = Some(SequenceInfo {
        state: SequenceState::new(&SequenceSpec::default()).unwrap(),
        type_oid: 20,
    });
    Catalog {
        database: "shop".to_string(),
        database_oid: 5,
        catalog_oid: 11,
        information_oid: 12,
        schemas: vec![
            SchemaInfo { name: "public".to_string(), oid: 2200 },
            SchemaInfo { name: "Sales".to_string(), oid: 2201 },
        ],
        tables: vec![table("items", 100), view, sequence],
        transactions: vec![42],
        extension_oid: 13,
        language_oid: 14,
    }
}

const TABLES: [&str; 51] = [
    "pg_database", "pg_namespace", "pg_class", "pg_attribute", "pg_index", "pg_constraint",
    "pg_type", "pg_proc", "pg_range", "pg_settings", "pg_roles", "pg_user", "pg_tables",
    "pg_indexes", "pg_attrdef", "pg_description", "pg_shdescription", "pg_enum", "pg_collation",
    "pg_am", "pg_operator", "pg_cast", "pg_locks", "pg_timezone_names", "pg_timezone_abbrevs",
    "pg_auth_members", "pg_tablespace", "pg_extension", "pg_event_trigger", "pg_language",
    "pg_depend", "pg_foreign_data_wrapper", "pg_foreign_server", "pg_user_mapping",
    "pg_available_extensions", "pg_available_extension_versions", "pg_opclass", "pg_opfamily",
    "pg_amop", "pg_amproc", "pg_aggregate", "pg_sequence", "pg_foreign_table", "pg_rewrite",
    "pg_policy", "pg_trigger", "pg_statistic_ext", "pg_publication", "pg_publication_namespace",
    "pg_publication_rel", "pg_inherits",
];

#[test]
fn every_system_table_is_as_wide_as_its_columns() {
    let c = catalog();
    for name in TABLES {
        let t = pg_catalog_virtual_table(name, &c).unwrap_or_else(|| panic!("no {name}"));
        assert!(!t.columns.is_empty(), "{name} has no columns");
        assert_eq!(t.columns.len(), t.types.len(), "types of {name}");
        for row in &t.rows {
            assert_eq!(row.len(), t.columns.len(), "a row of {name}");
        }
    }
    assert!(pg_catalog_virtual_table("pg_nothing", &c).is_none());
}

fn cell<'a>(t: &'a Relation, row: usize, column: &str) -> &'a Value {
    let at = t.columns.iter().position(|c| c == column).unwrap();
    &t.rows[row][at]
}

fn text(t: &str) -> Value {
    Value::Text(t.to_string())
}

#[test]
fn system_tables_describe_the_catalog() {
    let c = catalog();
    let class = pg_catalog_virtual_table("PG_CLASS", &c).unwrap();
    assert_eq!(cell(&class, 0, "relname"), &text("items"));
    assert_eq!(cell(&class, 0, "oid"), &Value::Int(100));
    assert_eq!(cell(&class, 0, "relkind"), &text("r"));
    let kinds: Vec<String> = class
        .rows
        .iter()
        .enumerate()
        .map(|(i, _)| format!("{:?} {:?}", cell(&class, i, "relname"), cell(&class, i, "relkind")))
        .collect();
    assert!(kinds.contains(&"Text(\"v\") Text(\"v\")".to_string()));
    assert!(kinds.contains(&"Text(\"s\") Text(\"S\")".to_string()));
    assert!(kinds.contains(&"Text(\"items_pkey\") Text(\"i\")".to_string()));

    let database = pg_catalog_virtual_table("pg_database", &c).unwrap();
    assert_eq!(cell(&database, 0, "datname"), &text("shop"));
    let locks = pg_catalog_virtual_table("pg_locks", &c).unwrap();
    assert_eq!(locks.rows.len(), 1);
    let sequences = pg_catalog_virtual_table("pg_sequence", &c).unwrap();
    assert_eq!(sequences.rows.len(), 1);
    let indexes = pg_catalog_virtual_table("pg_indexes", &c).unwrap();
    assert_eq!(
        cell(&indexes, 0, "indexdef"),
        &text("CREATE UNIQUE INDEX items_pkey ON public.items (id)")
    );
}

#[test]
fn each_type_has_its_array_type() {
    let types = pg_catalog_virtual_table("PG_TYPE", &catalog()).unwrap();
    assert_eq!(types.rows.len(), 42);
    for row in &types.rows[..21] {
        let arrays: Vec<&Vec<Value>> = types.rows.iter().filter(|r| r[0] == row[13]).collect();
        assert_eq!(arrays.len(), 1);
        assert_eq!(arrays[0][12], row[0]);
        match (&row[1], &arrays[0][1]) {
            (Value::Text(name), Value::Text(array)) => assert_eq!(array, &format!("_{name}")),
            other => panic!("names, not {other:?}"),
        }
    }
    let int4 = types.rows.iter().find(|r| r[1] == Value::Text("int4".into())).unwrap();
    assert_eq!((&int4[0], &int4[4], &int4[5], &int4[13]),
        (&Value::Int(23), &Value::Int(4), &Value::Bool(true), &Value::Int(1007)));
    let bytea = types.rows.iter().find(|r| r[1] == Value::Text("bytea".into())).unwrap();
    assert_eq!((&bytea[4], &bytea[5]), (&Value::Int(-1), &Value::Bool(false)));
}

#[test]
fn settings_are_advertised_as_sessions_report_them() {
    let settings = pg_catalog_virtual_table("pg_settings", &catalog()).unwrap();
    assert_eq!(settings.rows.len(), 12);
    for row in &settings.rows {
        let Value::Text(name) = &row[0] else { panic!("a name") };
        let default = default_session_var(&name.to_lowercase()).unwrap();
        assert_eq!(row.len(), 17);
        for i in [1, 12, 13] {
            assert_eq!(row[i], Value::Text(default.into()));
        }
    }
    let style = &settings.rows[2];
    assert_eq!(style[0], Value::Text("DateStyle".into()));
    assert_eq!(style[1], Value::Text("ISO, MDY".into()));
    assert_eq!(style[7], Value::Text("string".into()));
}

#[test]
fn constraints_list_checks_and_foreign_keys() {
    let c = catalog();
    let t = pg_catalog_virtual_table("pg_constraint", &c).unwrap();
    let rows = pg_constraint_rows(&c.tables);
    assert_eq!(t.rows.len(), rows.len());
    let kinds: Vec<&Value> = (0..t.rows.len()).map(|i| cell(&t, i, "contype")).collect();
    assert!(kinds.contains(&&text("c")));
    assert!(kinds.contains(&&text("f")));
    assert!(kinds.contains(&&text("p")));
    let f = kinds.iter().position(|k| *k == &text("f")).unwrap();
    assert_eq!(cell(&t, f, "confrelid"), &Value::Int(999));
    assert_eq!(
        cell(&t, f, "conkey"),
        &Value::Array(vec![Value::Int(2)])
    );
}

#[test]
fn a_virtual_table_is_found_by_its_schema() {
    let c = catalog();
    assert!(get_virtual_table("pg_catalog", "pg_class", &c, None).is_ok());
    assert_eq!(
        get_virtual_table("pg_catalog", "nope", &c, None).unwrap_err(),
        "relation \"pg_catalog.nope\" does not exist"
    );
    assert_eq!(
        get_virtual_table("information_schema", "nope", &c, None).unwrap_err(),
        "relation \"information_schema.nope\" does not exist"
    );
    assert_eq!(
        get_virtual_table("other", "t", &c, None).unwrap_err(),
        "relation \"other.t\" does not exist"
    );
}

#[test]
fn identifiers_are_quoted_unless_plain() {
    assert_eq!(quote_ident("plain_1"), "plain_1");
    assert_eq!(quote_ident("Odd"), "\"Odd\"");
    assert_eq!(quote_ident("1st"), "\"1st\"");
    assert_eq!(quote_ident("say \"x\""), "\"say \"\"x\"\"\"");
    assert_eq!(quote_ident(""), "\"\"");
}

#[test]
fn relations_have_identifiers() {
    let c = catalog();
    assert_eq!(relation_oid(&c, "items"), Some(100));
    assert_eq!(relation_oid(&c, "public.items"), Some(100));
    assert_eq!(relation_oid(&c, "items_pkey"), Some(101));
    assert_eq!(relation_oid(&c, "nope"), None);
    assert_eq!(find_system_oid("pg_class"), Some(1259));
    assert_eq!(find_system_name(1259).as_deref(), Some("pg_class"));
    assert_eq!(find_system_oid("pg_nothing"), None);
    assert_eq!(find_system_name(3), None);
    let facts = Facts::none();
    assert_eq!(
        object_identifier(&text("items"), "REGCLASS", Some(&c), &facts),
        Ok(Value::Int(100))
    );
    assert_eq!(
        object_name(&c, "REGCLASS", 100, &facts),
        Ok(Some("items".to_string()))
    );
    assert_eq!(
        object_name(&c, "REGNAMESPACE", 2201, &facts),
        Ok(Some("\"Sales\"".to_string()))
    );
    assert_eq!(find_view(&c, 300), Some(1));
    assert_eq!(find_view(&c, 100), None);
}

#[test]
fn definitions_are_written_as_sql() {
    let c = catalog();
    assert_eq!(
        index_definition(&c, 101, 0, false).as_deref(),
        Some("CREATE UNIQUE INDEX items_pkey ON public.items USING btree (id)")
    );
    assert_eq!(index_definition(&c, 101, 1, false).as_deref(), Some("id"));
    assert_eq!(index_definition(&c, 9999, 0, false), None);
    assert_eq!(
        constraint_definition(&c, 103, false).as_deref(),
        Some("CHECK ((amount > 0))")
    );
    assert_eq!(
        constraint_definition(&c, 103, true).as_deref(),
        Some("CHECK (amount > 0)")
    );
    assert_eq!(
        constraint_definition(&c, 104, false).as_deref(),
        Some("FOREIGN KEY (amount) REFERENCES other(id)")
    );
    assert_eq!(
        constraint_definition(&c, 108, false).as_deref(),
        Some("PRIMARY KEY (id)")
    );
    assert_eq!(constraint_definition(&c, 1, false), None);
}

#[test]
fn constraints_and_defaults_have_names() {
    let check = TableConstraint::Check { name: None, expr: "x".to_string() };
    assert_eq!(name_of_not_null("t", "a"), "t_a_not_null");
    assert_eq!(name_of_constraint("t", 0, &foreign_key(&["a", "b"], "p", &[])), "t_a_b_fkey");
    let named = TableConstraint::Check { name: Some("c".to_string()), expr: "x".to_string() };
    assert_eq!(name_of_constraint("t", 3, &named), "c");
    assert!(name_of_constraint("t", 0, &check).starts_with("t_"));
    let d = |expr: ScalarExpr| DefaultInfo {
        expr,
        generation: None,
        shown: "'x'".to_string(),
        oid: 1,
        sequence_oid: 0,
    };
    assert_eq!(
        default_text(&d(ScalarExpr::Literal(text("it's"))), "text"),
        "'it''s'::text"
    );
}

// Foreign keys --------------------------------------------------------------

fn keys(name: &str, columns: &[&str], primary: &[&str]) -> Keys {
    Keys {
        name: name.to_string(),
        columns: names(columns),
        primary: names(primary),
        unique: vec![],
    }
}

fn prepared(fk: TableConstraint, found: Option<&Keys>) -> Result<TableConstraint, String> {
    prepare_foreign_key(&keys("c", &["id", "a", "b"], &["id"]), "public", fk, found)
}

#[test]
fn a_foreign_key_is_checked_when_it_is_declared() {
    let parent = keys("p", &["x", "y"], &["x"]);
    match prepared(foreign_key(&["a"], "p", &[]), Some(&parent)).unwrap_or_else(|e| panic!("{e}")) {
        TableConstraint::ForeignKey { name, referred_columns, .. } => {
            assert_eq!(name.as_deref(), Some("c_a_fkey"));
            assert_eq!(referred_columns, names(&["x"]));
        }
        _ => panic!("a foreign key"),
    }
    let refused = |fk: TableConstraint, found: Option<&Keys>| match prepared(fk, found) {
        Ok(_) => panic!("accepted"),
        Err(m) => m,
    };
    assert_eq!(
        refused(foreign_key(&["z"], "p", &[]), Some(&parent)),
        "column \"z\" referenced in foreign key constraint does not exist"
    );
    assert_eq!(
        refused(foreign_key(&["a"], "q", &[]), None),
        "relation \"q\" does not exist"
    );
    assert_eq!(
        refused(foreign_key(&["a", "b"], "p", &[]), Some(&parent)),
        "number of referencing and referenced columns for foreign key disagree"
    );
    assert_eq!(
        refused(foreign_key(&["a"], "p", &["y"]), Some(&parent)),
        "there is no unique constraint matching given keys for referenced table \"p\""
    );
}

#[test]
fn a_table_may_reference_itself() {
    assert!(prepared(foreign_key(&["a"], "c", &["id"]), None).is_ok());
    assert!(does_name_table("c", "c"));
    assert!(!does_name_table("c", "d"));
    assert_eq!(
        referenced_table("s.t"),
        ("default".to_string(), "s".to_string(), "t".to_string())
    );
}

fn reference(on_delete: ReferentialAction, on_update: ReferentialAction) -> Reference {
    Reference {
        name: "c_a_fkey".to_string(),
        child_schema: "sales".to_string(),
        child: "c".to_string(),
        child_columns: names(&["id", "a"]),
        child_positions: vec![1],
        parent: "p".to_string(),
        parent_columns: names(&["x", "y"]),
        parent_positions: vec![0],
        is_own: false,
        on_delete,
        on_update,
    }
}

fn ints(row: &[i64]) -> Vec<Value> {
    row.iter().map(|n| Value::Int(*n)).collect()
}

#[test]
fn a_reference_is_resolved_against_both_tables() {
    let fk = foreign_key(&["a"], "p", &["x"]);
    let columns = names(&["x", "y"]);
    let parent = Parent { name: "p", columns: &columns, primary: &vec![0] };
    let x = resolve_reference("sales", "c", &names(&["id", "a"]), &parent, false, &fk)
        .unwrap()
        .unwrap();
    assert_eq!(x.child_positions, vec![1]);
    assert_eq!(x.parent_positions, vec![0]);
    assert_eq!((x.child_schema.as_str(), x.child.as_str()), ("sales", "c"));
    assert_eq!(schema_name_of(Some("sales".to_string())), "sales");
    assert_eq!(schema_name_of(None), "public");
    let missing = foreign_key(&["zz"], "p", &["x"]);
    assert!(resolve_reference("sales", "c", &names(&["id", "a"]), &parent, false, &missing).is_err());
    let check = TableConstraint::Check { name: None, expr: "x".to_string() };
    assert!(resolve_reference("sales", "c", &names(&["id", "a"]), &parent, false, &check)
        .unwrap()
        .is_none());
}

#[test]
fn a_row_must_reference_a_key_that_exists() {
    let x = reference(ReferentialAction::NoAction, ReferentialAction::NoAction);
    let facts = Facts::none();
    let parents = vec![ints(&[1, 10]), ints(&[2, 20])];
    assert!(check_reference(&x, &ints(&[5, 2]), None, &parents, &facts).unwrap().is_none());
    let nulls = vec![Value::Int(5), Value::Null];
    assert!(check_reference(&x, &nulls, None, &parents, &facts).unwrap().is_none());
    let v = check_reference(&x, &ints(&[5, 3]), None, &parents, &facts).unwrap().unwrap();
    assert_eq!(
        v.message,
        "insert or update on table \"c\" violates foreign key constraint \"c_a_fkey\""
    );
    assert_eq!(v.detail, "Key (a)=(3) is not present in table \"p\".");
    assert_eq!((v.schema.as_str(), v.table.as_str()), ("sales", "c"));
    assert_eq!(v.constraint, "c_a_fkey");
    // An update that keeps its key is not looked up again.
    assert!(check_reference(&x, &ints(&[5, 3]), Some(&ints(&[5, 3])), &parents, &facts)
        .unwrap()
        .is_none());
}

#[test]
fn keys_that_are_gone_act_on_their_references() {
    let facts = Facts::none();
    let gone = gone_keys(
        &vec![0],
        &vec![ints(&[1, 10])],
        &vec![(ints(&[2, 20]), ints(&[3, 20])), (ints(&[4, 0]), ints(&[4, 1]))],
        &facts,
    )
    .unwrap();
    assert_eq!(gone.len(), 2);
    let step = |on: ReferentialAction, row: &[i64]| {
        decide_child(&reference(on, on), &gone, &ints(&[77]), &ints(row), &facts).unwrap()
    };
    assert!(matches!(step(ReferentialAction::Cascade, &[5, 1]), ChildStep::Remove));
    assert!(matches!(step(ReferentialAction::Cascade, &[5, 2]),
        ChildStep::Update(row) if row == ints(&[5, 3])));
    assert!(matches!(step(ReferentialAction::Cascade, &[5, 4]), ChildStep::Keep));
    assert!(matches!(step(ReferentialAction::NoAction, &[5, 1]), ChildStep::Keep));
    assert!(matches!(step(ReferentialAction::SetNull, &[5, 1]),
        ChildStep::Update(row) if row == vec![Value::Int(5), Value::Null]));
    assert!(matches!(step(ReferentialAction::SetDefault, &[5, 1]),
        ChildStep::Update(row) if row == ints(&[5, 77])));
    let on = reference(ReferentialAction::Cascade, ReferentialAction::Cascade);
    let rows = vec![ints(&[5, 1]), ints(&[6, 8]), ints(&[7, 2])];
    let steps = decide_children(&on, &gone, &ints(&[77]), &rows, &facts).unwrap();
    assert!(matches!(steps[0], ChildStep::Remove));
    assert!(matches!(steps[1], ChildStep::Keep));
    assert!(matches!(&steps[2], ChildStep::Update(row) if row == &ints(&[7, 3])));
    let on = reference(ReferentialAction::Restrict, ReferentialAction::Cascade);
    let rows = vec![ints(&[7, 2]), ints(&[5, 1]), ints(&[8, 2])];
    let steps = decide_children(&on, &gone, &ints(&[77]), &rows, &facts).unwrap();
    assert_eq!(steps.len(), 2);
    assert!(matches!(steps[1], ChildStep::Refuse(_)));
    match step(ReferentialAction::Restrict, &[5, 1]) {
        ChildStep::Refuse(v) => {
            assert_eq!(
                v.message,
                "update or delete on table \"p\" violates RESTRICT setting of foreign key \
                 constraint \"c_a_fkey\" on table \"c\""
            );
            assert_eq!((v.schema.as_str(), v.table.as_str()), ("sales", "c"));
        }
        _ => panic!("a refusal"),
    }
}

#[test]
fn a_sweep_leaves_no_reference_to_a_gone_key() {
    let facts = Facts::none();
    let gone = gone_keys(
        &vec![0],
        &vec![ints(&[1, 10])],
        &vec![(ints(&[2, 20]), ints(&[3, 20]))],
        &facts,
    )
    .unwrap();
    let rows = vec![ints(&[5, 1]), ints(&[6, 8]), ints(&[7, 2]), ints(&[8, 1])];
    let on = reference(ReferentialAction::Cascade, ReferentialAction::Cascade);
    let steps = decide_children(&on, &gone, &ints(&[77]), &rows, &facts).unwrap();
    let swept = sweep(&rows, &steps);
    assert_eq!(swept.kept, vec![ints(&[6, 8]), ints(&[7, 3])]);
    assert_eq!(swept.removed, vec![ints(&[5, 1]), ints(&[8, 1])]);
    assert_eq!(swept.changed, vec![(ints(&[7, 2]), ints(&[7, 3]))]);
    let on = reference(ReferentialAction::SetNull, ReferentialAction::SetNull);
    let steps = decide_children(&on, &gone, &ints(&[77]), &rows, &facts).unwrap();
    let swept = sweep(&rows, &steps);
    assert_eq!(swept.kept[0], vec![Value::Int(5), Value::Null]);
    assert_eq!(swept.kept[1], ints(&[6, 8]));
    assert_eq!((swept.removed.len(), swept.changed.len()), (0, 3));
}

#[test]
fn deferred_references_are_checked_at_the_end() {
    let mut facts = Facts::none();
    for n in [1, 9] {
        facts.answers.push((
            Request { task: Task::KeyForm, args: ints(&[n]) },
            Ok(Value::Int(n)),
        ));
    }
    let x = reference(ReferentialAction::NoAction, ReferentialAction::Cascade);
    assert!(checked_at_end(&x));
    assert!(!checked_at_end(&reference(
        ReferentialAction::Cascade,
        ReferentialAction::Cascade
    )));
    let parents = vec![ints(&[1, 0])];
    assert!(check_at_end(&x, &parents, &vec![ints(&[5, 1])], &facts).unwrap().is_none());
    let v = check_at_end(&x, &parents, &vec![ints(&[5, 1]), ints(&[6, 9])], &facts)
        .unwrap()
        .unwrap();
    assert_eq!(v.detail, "Key (x)=(9) is still referenced from table \"c\".");
}

#[test]
fn keys_compare_and_report() {
    let facts = Facts::none();
    assert_eq!(key_tuple(&ints(&[1, 2, 3]), &vec![2, 0]), Some(ints(&[3, 1])));
    assert_eq!(key_tuple(&vec![Value::Null, Value::Int(1)], &vec![0]), None);
    assert_eq!(same_key(&ints(&[1, 2]), &ints(&[1, 2]), &facts), Ok(true));
    assert_eq!(same_key(&ints(&[1, 2]), &ints(&[1, 3]), &facts), Ok(false));
    let x = reference(ReferentialAction::NoAction, ReferentialAction::NoAction);
    assert_eq!(
        still_referenced(&x, &ints(&[4]), &facts).unwrap().detail,
        "Key (x)=(4) is still referenced from table \"c\"."
    );
    assert_eq!(
        restricted(&x, &ints(&[4]), &facts).unwrap().detail,
        "Key (x)=(4) is referenced from table \"c\"."
    );
}

// Where tables are read from ------------------------------------------------

#[test]
fn the_keys_of_a_table_lie_in_its_range() {
    assert_eq!(table_range("7"), ("7:".to_string(), "7;".to_string()));
    assert!(has_pending_writes(&names(&["6:1", "7:"]), "7"));
    assert!(has_pending_writes(&names(&["7:abc"]), "7"));
    assert!(!has_pending_writes(&names(&["71:1", "7", "7;", "8:1", ""]), "7"));
}

#[test]
fn an_equality_is_looked_up_in_the_indexes_of_its_column() {
    let t = table("items", 100);
    let compare = |left: &str, op: CompareOp| {
        Some(FilterExpr::Predicate(Predicate {
            left: left.to_string(),
            op,
            right: Operand::Literal(Value::Int(1)),
        }))
    };
    let find = |f: Option<FilterExpr>| find_indexes(&f, &t.columns, &t.indexes);
    assert_eq!(find(compare("items.amount", CompareOp::Eq)), Some((1, vec![1])));
    assert_eq!(find(compare("id", CompareOp::Eq)), Some((0, vec![0])));
    assert_eq!(find(compare("id", CompareOp::Lt)), None);
    assert_eq!(find(compare("nope", CompareOp::Eq)), None);
    assert_eq!(find(None), None);
}

#[test]
fn system_tables_are_found_without_their_schema() {
    assert_eq!(schema_of_table("PUBLIC", true), "pg_catalog");
    assert_eq!(schema_of_table("public", false), "public");
    assert_eq!(schema_of_table("s", true), "s");
}
