use nodus_executor::sequences::{
    after_attempt, default_sequence, identity_kind, is_sequence, owned_sequence,
    owned_sequence_name, resolve_path, resolve_sequence, sequence_columns, serial_table_path, AfterAttempt, Attempt, FoundTable,
    SequenceSpec, SequenceState, Sessions, MAX_ATTEMPTS,
};
use nodus_executor::plan_types::ScalarExpr;
use nodus_executor::value::Value;

#[test]
fn defaults_follow_postgresql() {
    let s = SequenceState::new(&SequenceSpec::default()).unwrap();
    assert_eq!((s.start, s.min, s.max, s.increment), (1, 1, i64::MAX, 1));
    let down = SequenceState::new(&SequenceSpec {
        increment: Some(-1),
        data_type: Some("integer".into()),
        ..Default::default()
    })
    .unwrap();
    assert_eq!((down.start, down.min, down.max), (-1, i32::MIN as i64, -1));
    assert!(
        SequenceState::new(&SequenceSpec {
            increment: Some(0),
            ..Default::default()
        })
        .is_err()
    );
}

#[test]
fn next_advances_cycles_and_stops_at_limits() {
    let mut s = SequenceState::new(&SequenceSpec {
        max_value: Some(3),
        ..Default::default()
    })
    .unwrap();
    assert_eq!(s.next("s").unwrap(), 1);
    s.is_called = true;
    s.last_value = 3;
    assert!(
        s.next("s")
            .unwrap_err()
            .to_string()
            .contains("maximum value")
    );
    s.cycle = true;
    assert_eq!(s.next("s").unwrap(), 1);
}

#[test]
fn each_invalid_definition_has_its_message() {
    let refuse = |spec: SequenceSpec| SequenceState::new(&spec).unwrap_err();
    assert_eq!(
        refuse(SequenceSpec { data_type: Some(" Text ".into()), ..Default::default() }),
        "sequence type must be smallint, integer, or bigint, not text"
    );
    assert_eq!(
        refuse(SequenceSpec { increment: Some(0), ..Default::default() }),
        "INCREMENT must not be zero"
    );
    assert_eq!(
        refuse(SequenceSpec {
            data_type: Some("INT2".into()),
            max_value: Some(40000),
            ..Default::default()
        }),
        "MINVALUE and MAXVALUE must be within the range of type smallint"
    );
    assert_eq!(
        refuse(SequenceSpec { max_value: Some(-7), ..Default::default() }),
        "MINVALUE (1) must be less than MAXVALUE (-7)"
    );
    assert_eq!(
        refuse(SequenceSpec { start: Some(0), ..Default::default() }),
        "START value (0) cannot be less than MINVALUE (1)"
    );
    assert_eq!(
        refuse(SequenceSpec { start: Some(9), max_value: Some(8), ..Default::default() }),
        "START value (9) cannot be greater than MAXVALUE (8)"
    );
    assert_eq!(
        refuse(SequenceSpec { cache: Some(0), ..Default::default() }),
        "CACHE (0) must be greater than zero"
    );
}

#[test]
fn a_stored_state_reads_back() {
    let s = SequenceState::new(&SequenceSpec {
        start: Some(5),
        max_value: Some(50),
        cycle: true,
        ..Default::default()
    })
    .unwrap();
    let row = s.to_row();
    assert_eq!(row.len(), sequence_columns().0.len());
    assert_eq!(row[0], Value::Int(5));
    assert_eq!(row[9], Value::Text("bigint".into()));
    assert_eq!(SequenceState::from_row(&row).unwrap(), s);
    let short = vec![Value::Int(1)];
    assert_eq!(
        SequenceState::from_row(&short).unwrap_err(),
        "sequence row is malformed"
    );
}

#[test]
fn values_move_on_and_never_repeat() {
    let mut s = SequenceState::new(&SequenceSpec {
        increment: Some(-2),
        min_value: Some(-6),
        max_value: Some(-1),
        ..Default::default()
    })
    .unwrap();
    let mut drawn = Vec::new();
    while let Ok(next) = s.advance("d") {
        drawn.push(next.last_value);
        s = next;
    }
    assert_eq!(drawn, vec![-1, -3, -5]);
    assert_eq!(
        s.advance("d").unwrap_err(),
        "nextval: reached minimum value of sequence \"d\" (-6)"
    );
    let back = s.restart();
    assert_eq!(back.next("d"), Ok(-1));
}

#[test]
fn setval_stays_within_bounds() {
    let s = SequenceState::new(&SequenceSpec { max_value: Some(9), ..Default::default() }).unwrap();
    let at_four = s.set("q", 4, true).unwrap();
    assert_eq!(at_four.next("q"), Ok(5));
    let from_four = s.set("q", 4, false).unwrap();
    assert_eq!(from_four.next("q"), Ok(4));
    assert_eq!(
        s.set("q", 10, true).unwrap_err(),
        "setval: value 10 is out of bounds for sequence \"q\" (1..9)"
    );
}

#[test]
fn names_of_sequences() {
    assert_eq!(owned_sequence_name("t", "id"), "t_id_seq");
    assert_eq!(
        resolve_path("S"),
        Ok(("public".to_string(), "s".to_string()))
    );
    assert_eq!(
        resolve_path(" App . \"Mixed\" "),
        Ok(("app".to_string(), "Mixed".to_string()))
    );
    assert_eq!(
        resolve_path("db.App.x"),
        Ok(("app".to_string(), "x".to_string()))
    );
    assert_eq!(
        resolve_path("a.b.c.d"),
        Err("improper relation name (too many dotted names): a.b.c.d".to_string())
    );
    assert_eq!(
        serial_table_path("App.T"),
        ("app".to_string(), "t".to_string())
    );
    assert_eq!(
        serial_table_path("\"T\""),
        ("public".to_string(), "T".to_string())
    );
}

fn call(name: &str, args: Vec<ScalarExpr>) -> ScalarExpr {
    ScalarExpr::Function { name: name.into(), args }
}

#[test]
fn defaults_that_draw_from_a_sequence() {
    let text = || ScalarExpr::Literal(Value::Text("t_id_seq".into()));
    let serial = call("NEXTVAL", vec![text()]);
    assert_eq!(default_sequence(&serial), Some("t_id_seq".to_string()));
    assert_eq!(identity_kind(&serial), None);
    let cast = call(
        "NEXTVAL",
        vec![ScalarExpr::Cast { expr: Box::new(text()), target: "REGCLASS".into() }],
    );
    assert_eq!(default_sequence(&cast), Some("t_id_seq".to_string()));
    let always = call("__IDENTITY__", vec![text(), ScalarExpr::Literal(Value::Bool(true))]);
    assert_eq!(identity_kind(&always), Some(true));
    let by_default = call("__IDENTITY__", vec![text(), ScalarExpr::Literal(Value::Bool(false))]);
    assert_eq!(identity_kind(&by_default), Some(false));
    assert_eq!(default_sequence(&call("NOW", vec![])), None);
    let columns = vec![("id".to_string(), Some(always)), ("note".to_string(), None)];
    assert_eq!(
        owned_sequence("App.T", "id", Some(&columns)),
        Ok(Some("app.t_id_seq".to_string()))
    );
    assert_eq!(owned_sequence("T", "id", Some(&columns)), Ok(Some("public.t_id_seq".to_string())));
    assert_eq!(owned_sequence("App.T", "note", Some(&columns)), Ok(None));
    assert_eq!(
        owned_sequence("App.T", "zz", Some(&columns)),
        Err("column \"zz\" of relation \"t\" does not exist".to_string())
    );
    assert_eq!(
        owned_sequence("App.T", "id", None),
        Err("relation \"App.T\" does not exist".to_string())
    );
}

#[test]
fn a_sequence_is_read_from_its_row() {
    let state = SequenceState::new(&SequenceSpec::default()).unwrap();
    assert_eq!(SequenceState::stored("s", Some(&state.to_row())), Ok(state));
    assert_eq!(
        SequenceState::stored("s", None),
        Err("sequence \"s\" has no state".to_string())
    );
    assert_eq!(
        SequenceState::stored("s", Some(&vec![Value::Int(1)])),
        Err("sequence row is malformed".to_string())
    );
}

#[test]
fn a_name_must_mean_a_sequence() {
    let table = |columns: Vec<String>| FoundTable { id: 7, name: "s".to_string(), columns };
    let (columns, _) = sequence_columns();
    assert_eq!(
        resolve_sequence("App.S", Some(table(columns.clone()))),
        Ok(table(columns.clone()))
    );
    assert_eq!(
        resolve_sequence("App.S", None),
        Err("relation \"App.S\" does not exist".to_string())
    );
    assert_eq!(
        resolve_sequence("App.S", Some(table(vec!["last_value".to_string()]))),
        Err("\"App.S\" is not a sequence".to_string())
    );
}

#[test]
fn sequence_relations_are_told_by_their_columns() {
    let (mut names, _) = sequence_columns();
    assert!(is_sequence(&names));
    names.pop();
    assert!(!is_sequence(&names));
}

#[test]
fn a_lost_race_is_retried_and_a_refusal_is_final() {
    let lost = || Attempt::Lost("conflict".into());
    assert!(matches!(after_attempt(0, lost()), AfterAttempt::Retry));
    assert!(matches!(
        after_attempt(MAX_ATTEMPTS - 1, lost()),
        AfterAttempt::Fail(m) if m == "conflict"
    ));
    assert!(matches!(
        after_attempt(0, Attempt::Refused("limit".into())),
        AfterAttempt::Fail(m) if m == "limit"
    ));
    let s = SequenceState::new(&SequenceSpec::default()).unwrap();
    assert!(matches!(
        after_attempt(3, Attempt::Committed(s)),
        AfterAttempt::Finish(t) if t.last_value == 1
    ));
}

#[test]
fn sessions_keep_their_own_values() {
    let mut sessions = Sessions::new();
    assert_eq!(
        sessions.currval("a", 7, "s").unwrap_err(),
        "currval of sequence \"s\" is not yet defined in this session"
    );
    assert_eq!(
        sessions.lastval("a").unwrap_err(),
        "lastval is not yet defined in this session"
    );
    sessions.record("a", 7, 1);
    sessions.record("a", 8, 10);
    sessions.record("b", 7, 2);
    sessions.record("a", 7, 3);
    assert_eq!(sessions.currval("a", 7, "s"), Ok(3));
    assert_eq!(sessions.currval("a", 8, "s"), Ok(10));
    assert_eq!(sessions.currval("b", 7, "s"), Ok(2));
    assert_eq!(sessions.lastval("a"), Ok(3));
    sessions.end_session("a");
    assert!(sessions.currval("a", 8, "s").is_err());
    assert_eq!(sessions.lastval("b"), Ok(2));
}

#[test]
fn setval_counts_for_a_session_only_if_called() {
    let mut sessions = Sessions::new();
    sessions.record("a", 7, 1);
    sessions.after_setval("a", 7, 40, false);
    assert_eq!(sessions.currval("a", 7, "s"), Ok(1));
    assert_eq!(sessions.lastval("a"), Ok(1));
    sessions.after_setval("a", 7, 41, true);
    assert_eq!(sessions.currval("a", 7, "s"), Ok(41));
    assert_eq!(sessions.lastval("a"), Ok(41));
    // However much others draw, the session keeps its value.
    for n in 0..50 {
        sessions.record("b", 7, n);
        sessions.after_setval("c", 7, n, n % 2 == 0);
    }
    sessions.end_session("b");
    assert_eq!(sessions.currval("a", 7, "s"), Ok(41));
    assert!(sessions.currval("b", 7, "s").is_err());
    assert_eq!(sessions.currval("c", 7, "s"), Ok(48));
}

#[test]
fn no_draw_repeats_an_earlier_one() {
    for increment in [3, -3] {
        let spec = SequenceSpec {
            increment: Some(increment),
            min_value: Some(-100),
            max_value: Some(100),
            start: Some(0),
            ..SequenceSpec::default()
        };
        let mut state = SequenceState::new(&spec).unwrap();
        let mut drawn = Vec::new();
        while let Ok(next) = state.advance("s") {
            assert!(drawn.iter().all(|d| (next.last_value > *d) == (increment > 0)));
            drawn.push(next.last_value);
            state = next;
        }
        assert_eq!(drawn.len(), 34);
    }
}
