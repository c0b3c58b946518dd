use value_probe::desc::Desc;
use value_probe::value::Value;
use value_probe::value::map_insert;
use value_probe::engine::{FloatAux, ProbeEvent, ValueProbe, Widget};
use value_probe::ident::Id;
use value_probe::rows::{apply_removals, DeleteMe};
use value_probe::store::Store;
use value_probe::text::{i64_to_dec, u64_to_dec};

fn probe_once(
    desc: Option<Desc>,
    value: &mut Value,
    store: &mut Store,
    event: ProbeEvent,
) -> Widget {
    let mut p = ValueProbe::new(desc, Id::new(0));
    p.probe(value, store, &event, &FloatAux::inert())
}

#[test]
fn default_value_kind_matches_desc_kind() {
    let descs = vec![
        Desc::Bool,
        Desc::Int { min: Some(3), max: None },
        Desc::Float { min: None, max: None },
        Desc::String { variants: None },
        Desc::String { variants: Some(vec!["x".to_string(), "y".to_string()]) },
        Desc::List { elem_desc: None },
        Desc::Dict { value_desc: None },
    ];
    for d in &descs {
        assert_eq!(d.default_value().kind(), d.kind());
    }
}

#[test]
fn default_values_are_neutral() {
    assert!(matches!(Desc::Bool.default_value(), Value::Bool(false)));
    match (Desc::Int { min: Some(3), max: Some(9) }).default_value() {
        Value::Int(v) => assert_eq!(v, 3),
        _ => panic!("expected an int"),
    }
    match (Desc::Int { min: None, max: None }).default_value() {
        Value::Int(v) => assert_eq!(v, 0),
        _ => panic!("expected an int"),
    }
    match (Desc::String { variants: Some(vec!["x".to_string(), "y".to_string()]) }).default_value() {
        Value::String(s) => assert_eq!(s, "x"),
        _ => panic!("expected a string"),
    }
    match (Desc::List { elem_desc: None }).default_value() {
        Value::List(l) => assert!(l.is_empty()),
        _ => panic!("expected a list"),
    }
    match (Desc::Dict { value_desc: None }).default_value() {
        Value::Dict(m) => assert!(m.is_empty()),
        _ => panic!("expected a map"),
    }
}

#[test]
fn kind_labels() {
    assert_eq!(Value::Bool(true).kind(), "bool");
    assert_eq!(Value::Int(1).kind(), "int");
    assert_eq!(Value::Float(0).kind(), "float");
    assert_eq!(Value::String(String::new()).kind(), "string");
    assert_eq!(Value::List(Vec::new()).kind(), "list");
    assert_eq!(Value::Dict(Vec::new()).kind(), "map");
    assert_eq!(Desc::Dict { value_desc: None }.kind(), "map");
}

#[test]
fn int_edits_are_clamped_to_range() {
    let desc = Desc::Int { min: Some(0), max: Some(10) };
    let mut store = Store::new();
    let mut value = Value::Int(5);
    probe_once(Some(desc.clone()), &mut value, &mut store, ProbeEvent::EditInt(42));
    assert!(matches!(value, Value::Int(10)));
    probe_once(Some(desc.clone()), &mut value, &mut store, ProbeEvent::EditInt(-7));
    assert!(matches!(value, Value::Int(0)));
    probe_once(Some(desc), &mut value, &mut store, ProbeEvent::EditInt(7));
    assert!(matches!(value, Value::Int(7)));
}

#[test]
fn int_edit_with_lower_bound_only() {
    let desc = Desc::Int { min: Some(2), max: None };
    let mut store = Store::new();
    let mut value = Value::Int(5);
    probe_once(Some(desc), &mut value, &mut store, ProbeEvent::EditInt(-3));
    assert!(matches!(value, Value::Int(2)));
}

#[test]
fn float_to_int_conversion_is_idempotent() {
    let desc = Desc::Int { min: Some(0), max: Some(10) };
    let mut store = Store::new();
    // The host computed `3.7 as i64 == 3` and hands it in.
    let mut aux = FloatAux::inert();
    aux.trunc = 3;
    let mut value = Value::Float(0x400D99999999999A); // bits of 3.7
    let mut p = ValueProbe::new(Some(desc.clone()), Id::new(0));
    let w = p.probe(&mut value, &mut store, &ProbeEvent::ClickFix, &aux);
    match w {
        Widget::Mismatch { message, button } => {
            assert_eq!(message, "Expected integer, but is float instead");
            assert_eq!(button, "Convert to 3");
        }
        _ => panic!("expected a mismatch row"),
    }
    assert!(matches!(value, Value::Int(3)));
    // The now-matching pair probed again performs no further coercion.
    let w2 = probe_once(Some(desc), &mut value, &mut store, ProbeEvent::Idle);
    assert!(matches!(w2, Widget::IntEditor { .. }));
    assert!(matches!(value, Value::Int(3)));
}

#[test]
fn invalid_range_renders_fixed_message_and_mutates_nothing() {
    let desc = Desc::Int { min: Some(5), max: Some(1) };
    let mut store = Store::new();
    let mut value = Value::Int(3);
    let w = probe_once(Some(desc.clone()), &mut value, &mut store, ProbeEvent::ClickFix);
    match w {
        Widget::InvalidRange { message } => {
            assert_eq!(message, "Invalid range. `min = 5` must be not greater than `max = 1`.");
        }
        _ => panic!("expected the invalid-range message"),
    }
    assert!(matches!(value, Value::Int(3)));
    let w2 = probe_once(Some(desc), &mut value, &mut store, ProbeEvent::EditInt(9));
    assert!(matches!(w2, Widget::InvalidRange { .. }));
    assert!(matches!(value, Value::Int(3)));
}

#[test]
fn map_insert_with_present_key_overwrites() {
    let mut entries = vec![("a".to_string(), Value::Int(1))];
    map_insert(&mut entries, "a".to_string(), Value::Int(2));
    assert_eq!(entries.len(), 1);
    assert_eq!(entries[0].0, "a");
    assert!(matches!(entries[0].1, Value::Int(2)));
}

#[test]
fn map_insert_with_fresh_key_appends() {
    let mut entries = vec![("a".to_string(), Value::Int(1))];
    map_insert(&mut entries, "b".to_string(), Value::Int(2));
    assert_eq!(entries.len(), 2);
    assert_eq!(entries[0].0, "a");
    assert_eq!(entries[1].0, "b");
}

#[test]
fn map_add_through_probe_overwrites_and_clears_key() {
    let desc = Desc::Dict {
        value_desc: Some(Box::new(Desc::Int { min: Some(2), max: None })),
    };
    let mut store = Store::new();
    let mut value = Value::Dict(vec![("a".to_string(), Value::Int(1))]);
    // One frame types the pending key, the next clicks add.
    probe_once(
        Some(desc.clone()),
        &mut value,
        &mut store,
        ProbeEvent::EditNewKey("a".to_string()),
    );
    let w = probe_once(Some(desc), &mut value, &mut store, ProbeEvent::ClickAdd);
    match &value {
        Value::Dict(entries) => {
            assert_eq!(entries.len(), 1);
            assert_eq!(entries[0].0, "a");
            assert!(matches!(entries[0].1, Value::Int(2)));
        }
        _ => panic!("expected a map"),
    }
    // Insertion takes the key buffer: a successful add clears the field.
    match w {
        Widget::MapHeader { value_kind, new_key } => {
            assert_eq!(value_kind, "int");
            assert_eq!(new_key, "");
        }
        _ => panic!("expected the map header"),
    }
}

#[test]
fn list_removal_preserves_remaining_order() {
    let mut value = Value::List(vec![Value::Int(1), Value::Int(2), Value::Int(3)]);
    let keep = vec![true, false, true];
    apply_removals(&mut value, &keep);
    match &value {
        Value::List(l) => {
            assert_eq!(l.len(), 2);
            assert!(matches!(l[0], Value::Int(1)));
            assert!(matches!(l[1], Value::Int(3)));
        }
        _ => panic!("expected a list"),
    }
}

#[test]
fn map_removal_keeps_other_entries() {
    let mut value = Value::Dict(vec![
        ("a".to_string(), Value::Int(1)),
        ("b".to_string(), Value::Int(2)),
        ("c".to_string(), Value::Int(3)),
    ]);
    let keep = vec![false, true, true];
    apply_removals(&mut value, &keep);
    match &value {
        Value::Dict(m) => {
            assert_eq!(m.len(), 2);
            assert_eq!(m[0].0, "b");
            assert_eq!(m[1].0, "c");
        }
        _ => panic!("expected a map"),
    }
}

#[test]
fn variant_mismatch_offers_reset_to_first_variant() {
    let desc = Desc::String {
        variants: Some(vec!["x".to_string(), "y".to_string()]),
    };
    let mut store = Store::new();
    let mut value = Value::Int(7);
    let w = probe_once(Some(desc.clone()), &mut value, &mut store, ProbeEvent::Idle);
    match w {
        Widget::Mismatch { message, button } => {
            assert_eq!(message, "Expected string, but is int instead");
            assert_eq!(button, "Reset to default value");
        }
        _ => panic!("expected a mismatch row"),
    }
    assert!(matches!(value, Value::Int(7)));
    probe_once(Some(desc), &mut value, &mut store, ProbeEvent::ClickFix);
    match &value {
        Value::String(s) => assert_eq!(s, "x"),
        _ => panic!("expected a string"),
    }
}

#[test]
fn idle_frames_mutate_nothing() {
    let cases = vec![
        (Some(Desc::Bool), Value::Bool(true)),
        (Some(Desc::Int { min: Some(0), max: Some(9) }), Value::Int(4)),
        (Some(Desc::String { variants: None }), Value::String("hi".to_string())),
        (Some(Desc::List { elem_desc: Some(Box::new(Desc::Bool)) }), Value::List(vec![])),
        (Some(Desc::Bool), Value::Int(5)),
        (None, Value::Bool(false)),
    ];
    for (desc, mut value) in cases {
        let mut store = Store::new();
        let snapshot = format!("{:?}", kind_of(&value));
        probe_once(desc.clone(), &mut value, &mut store, ProbeEvent::Idle);
        probe_once(desc, &mut value, &mut store, ProbeEvent::Idle);
        assert_eq!(format!("{:?}", kind_of(&value)), snapshot);
    }
    // And concretely: an idle bool stays what it was.
    let mut store = Store::new();
    let mut value = Value::Bool(true);
    probe_once(Some(Desc::Bool), &mut value, &mut store, ProbeEvent::Idle);
    assert!(matches!(value, Value::Bool(true)));
    let mut value = Value::Int(4);
    probe_once(
        Some(Desc::Int { min: Some(0), max: Some(9) }),
        &mut value,
        &mut store,
        ProbeEvent::Idle,
    );
    assert!(matches!(value, Value::Int(4)));
}

fn kind_of(v: &Value) -> (&'static str, String) {
    let detail = match v {
        Value::Bool(b) => format!("{b}"),
        Value::Int(i) => format!("{i}"),
        Value::Float(bits) => format!("{bits}"),
        Value::String(s) => s.clone(),
        Value::List(l) => format!("{}", l.len()),
        Value::Dict(m) => format!("{}", m.len()),
    };
    (v.kind(), detail)
}

#[test]
fn bool_mismatch_resets_to_false() {
    let mut store = Store::new();
    let mut value = Value::Int(3);
    let w = probe_once(Some(Desc::Bool), &mut value, &mut store, ProbeEvent::Idle);
    match w {
        Widget::Mismatch { message, button } => {
            assert_eq!(message, "Expected boolean, but is int instead");
            assert_eq!(button, "Reset to false");
        }
        _ => panic!("expected a mismatch row"),
    }
    probe_once(Some(Desc::Bool), &mut value, &mut store, ProbeEvent::ClickFix);
    assert!(matches!(value, Value::Bool(false)));
}

#[test]
fn int_to_string_conversion_uses_quoted_text() {
    let desc = Desc::String { variants: None };
    let mut store = Store::new();
    let mut value = Value::Int(7);
    let w = probe_once(Some(desc.clone()), &mut value, &mut store, ProbeEvent::Idle);
    match w {
        Widget::Mismatch { message, button } => {
            assert_eq!(message, "Expected string, but is int instead");
            assert_eq!(button, "Convert to \"7\"");
        }
        _ => panic!("expected a mismatch row"),
    }
    probe_once(Some(desc), &mut value, &mut store, ProbeEvent::ClickFix);
    match &value {
        Value::String(s) => assert_eq!(s, "7"),
        _ => panic!("expected a string"),
    }
}

#[test]
fn bool_to_string_conversion() {
    let desc = Desc::String { variants: None };
    let mut store = Store::new();
    let mut value = Value::Bool(true);
    let w = probe_once(Some(desc.clone()), &mut value, &mut store, ProbeEvent::ClickFix);
    match w {
        Widget::Mismatch { button, .. } => assert_eq!(button, "Convert to \"true\""),
        _ => panic!("expected a mismatch row"),
    }
    match &value {
        Value::String(s) => assert_eq!(s, "true"),
        _ => panic!("expected a string"),
    }
}

#[test]
fn list_mismatch_resets_to_empty_list() {
    let desc = Desc::List { elem_desc: Some(Box::new(Desc::Bool)) };
    let mut store = Store::new();
    let mut value = Value::String("nope".to_string());
    let w = probe_once(Some(desc.clone()), &mut value, &mut store, ProbeEvent::Idle);
    match w {
        Widget::Mismatch { message, button } => {
            assert_eq!(message, "Expected list, but is string instead");
            assert_eq!(button, "Reset to empty list");
        }
        _ => panic!("expected a mismatch row"),
    }
    probe_once(Some(desc), &mut value, &mut store, ProbeEvent::ClickFix);
    match &value {
        Value::List(l) => assert!(l.is_empty()),
        _ => panic!("expected a list"),
    }
}

#[test]
fn list_add_appends_element_default() {
    let desc = Desc::List { elem_desc: Some(Box::new(Desc::Int { min: Some(4), max: None })) };
    let mut store = Store::new();
    let mut value = Value::List(vec![Value::Int(9)]);
    let w = probe_once(Some(desc), &mut value, &mut store, ProbeEvent::ClickAdd);
    match w {
        Widget::ListHeader { elem_kind } => assert_eq!(elem_kind, "int"),
        _ => panic!("expected the list header"),
    }
    match &value {
        Value::List(l) => {
            assert_eq!(l.len(), 2);
            assert!(matches!(l[0], Value::Int(9)));
            assert!(matches!(l[1], Value::Int(4)));
        }
        _ => panic!("expected a list"),
    }
}

#[test]
fn inferred_list_schema_persists_across_frames() {
    let desc = Desc::List { elem_desc: None };
    let mut store = Store::new();
    let mut value = Value::List(vec![]);
    // First frame: the inferred schema defaults to Bool.
    let w = probe_once(Some(desc.clone()), &mut value, &mut store, ProbeEvent::Idle);
    match w {
        Widget::ListHeaderInfer { desc } => assert!(matches!(desc, Desc::Bool)),
        _ => panic!("expected the inferred list header"),
    }
    // The user edits the inferred schema; it persists at this identity.
    probe_once(
        Some(desc.clone()),
        &mut value,
        &mut store,
        ProbeEvent::EditDesc(Desc::Int { min: Some(1), max: None }),
    );
    let w = probe_once(Some(desc.clone()), &mut value, &mut store, ProbeEvent::Idle);
    match w {
        Widget::ListHeaderInfer { desc } => {
            assert!(matches!(desc, Desc::Int { min: Some(1), max: None }))
        }
        _ => panic!("expected the inferred list header"),
    }
    // Adding now appends that schema's default.
    probe_once(Some(desc), &mut value, &mut store, ProbeEvent::ClickAdd);
    match &value {
        Value::List(l) => {
            assert_eq!(l.len(), 1);
            assert!(matches!(l[0], Value::Int(1)));
        }
        _ => panic!("expected a list"),
    }
}

#[test]
fn variant_selection_writes_chosen_string() {
    let desc = Desc::String { variants: Some(vec!["x".to_string(), "y".to_string()]) };
    let mut store = Store::new();
    let mut value = Value::String("x".to_string());
    let w = probe_once(Some(desc), &mut value, &mut store, ProbeEvent::SelectVariant(1));
    match w {
        Widget::ComboBox { selected, variants } => {
            assert_eq!(selected, "y");
            assert_eq!(variants, vec!["x".to_string(), "y".to_string()]);
        }
        _ => panic!("expected the dropdown"),
    }
    match &value {
        Value::String(s) => assert_eq!(s, "y"),
        _ => panic!("expected a string"),
    }
}

#[test]
fn delete_me_marks_and_suppresses_expansion() {
    let mut row = DeleteMe::new(0u8);
    assert!(row.expands());
    row.probe_row(false);
    assert!(!row.delete);
    row.probe_row(true);
    assert!(row.delete);
    assert!(!row.expands());
    // A mark is never taken back within the frame.
    row.probe_row(false);
    assert!(row.delete);
}

#[test]
fn iterate_inner_labels_list_rows_by_index() {
    let desc = Desc::List { elem_desc: Some(Box::new(Desc::Bool)) };
    let mut store = Store::new();
    let value = Value::List(vec![Value::Bool(true), Value::Bool(false)]);
    let p = ValueProbe::new(Some(desc), Id::new(0));
    let rows = p.iterate_inner(&value, &mut store);
    assert_eq!(rows.len(), 2);
    assert_eq!(rows[0].label, "[0]");
    assert_eq!(rows[1].label, "[1]");
    assert!(matches!(rows[0].desc, Desc::Bool));
    assert!(!rows[0].id.same(&rows[1].id));
}

#[test]
fn iterate_inner_labels_map_rows_by_key() {
    let desc = Desc::Dict { value_desc: Some(Box::new(Desc::Bool)) };
    let mut store = Store::new();
    let value = Value::Dict(vec![
        ("alpha".to_string(), Value::Bool(true)),
        ("beta".to_string(), Value::Bool(false)),
    ]);
    let p = ValueProbe::new(Some(desc), Id::new(0));
    let rows = p.iterate_inner(&value, &mut store);
    assert_eq!(rows.len(), 2);
    assert_eq!(rows[0].label, "alpha");
    assert_eq!(rows[1].label, "beta");
}

#[test]
fn leaf_nodes_have_no_rows() {
    let mut store = Store::new();
    let p = ValueProbe::new(Some(Desc::Bool), Id::new(0));
    assert!(p.iterate_inner(&Value::Bool(true), &mut store).is_empty());
    let p = ValueProbe::new(Some(Desc::Int { min: None, max: None }), Id::new(0));
    assert!(p.iterate_inner(&Value::Int(1), &mut store).is_empty());
}

#[test]
fn decimal_rendering() {
    assert_eq!(u64_to_dec(0), "0");
    assert_eq!(u64_to_dec(907), "907");
    assert_eq!(i64_to_dec(-42), "-42");
    assert_eq!(i64_to_dec(i64::MIN), "-9223372036854775808");
}

#[test]
fn identity_paths_distinguish_siblings_and_are_stable() {
    let root = Id::new(7);
    let a = root.with(1).with(0);
    let b = root.with(1).with(1);
    let a_again = Id::new(7).with(1).with(0);
    assert!(!a.same(&b));
    assert!(a.same(&a_again));
}

#[test]
fn store_round_trips_state_by_identity() {
    let mut store = Store::new();
    let id = Id::new(3).with(1);
    let other = Id::new(3).with(2);
    assert!(store.get_desc(&id).is_none());
    store.insert_desc(&id, Desc::Bool);
    store.insert_key(&id, "pending".to_string());
    assert!(matches!(store.get_desc(&id), Some(Desc::Bool)));
    assert_eq!(store.get_key(&id).unwrap(), "pending");
    assert!(store.get_desc(&other).is_none());
    store.insert_desc(&id, Desc::Int { min: None, max: None });
    assert!(matches!(store.get_desc(&id), Some(Desc::Int { .. })));
}

#[test]
fn float_mismatch_uses_host_computed_aux() {
    let desc = Desc::Float { min: None, max: None };
    let mut store = Store::new();
    let mut aux = FloatAux::inert();
    aux.convert_bits = 0x4008000000000000; // bits of 3.0
    aux.convert_text = "3.0".to_string();
    let mut value = Value::Int(3);
    let mut p = ValueProbe::new(Some(desc), Id::new(0));
    let w = p.probe(&mut value, &mut store, &ProbeEvent::ClickFix, &aux);
    match w {
        Widget::Mismatch { message, button } => {
            assert_eq!(message, "Expected float, but is int instead");
            assert_eq!(button, "Convert to 3.0");
        }
        _ => panic!("expected a mismatch row"),
    }
    assert!(matches!(value, Value::Float(0x4008000000000000)));
}

#[test]
fn float_invalid_range_uses_host_rendered_bounds() {
    let desc = Desc::Float { min: Some(1), max: Some(0) };
    let mut store = Store::new();
    let mut aux = FloatAux::inert();
    aux.range_invalid = true;
    aux.min_text = "5.5".to_string();
    aux.max_text = "1.5".to_string();
    let mut value = Value::Float(7);
    let mut p = ValueProbe::new(Some(desc), Id::new(0));
    let w = p.probe(&mut value, &mut store, &ProbeEvent::ClickFix, &aux);
    match w {
        Widget::InvalidRange { message } => {
            assert_eq!(message, "Invalid range. `min = 5.5` must be not greater than `max = 1.5`.");
        }
        _ => panic!("expected the invalid-range message"),
    }
    assert!(matches!(value, Value::Float(7)));
}

#[test]
fn empty_variant_list_resets_to_empty_string() {
    let desc = Desc::String { variants: Some(vec![]) };
    let mut store = Store::new();
    let mut value = Value::Int(1);
    probe_once(Some(desc), &mut value, &mut store, ProbeEvent::ClickFix);
    match &value {
        Value::String(s) => assert_eq!(s, ""),
        _ => panic!("expected a string"),
    }
}

#[test]
fn free_text_edit_replaces_string() {
    let desc = Desc::String { variants: None };
    let mut store = Store::new();
    let mut value = Value::String("old".to_string());
    let w = probe_once(
        Some(desc),
        &mut value,
        &mut store,
        ProbeEvent::EditText("new".to_string()),
    );
    match w {
        Widget::TextEdit(s) => assert_eq!(s, "new"),
        _ => panic!("expected the text editor"),
    }
    match &value {
        Value::String(s) => assert_eq!(s, "new"),
        _ => panic!("expected a string"),
    }
}

#[test]
fn schema_absent_node_edits_inferred_schema() {
    let mut store = Store::new();
    let mut value = Value::Bool(false);
    // First frame: no schema stored yet, the editor defaults to Bool.
    let w = probe_once(None, &mut value, &mut store, ProbeEvent::Idle);
    match w {
        Widget::DescEditor { desc } => assert!(matches!(desc, Desc::Bool)),
        _ => panic!("expected the schema editor"),
    }
    // The user switches the schema; it persists at this identity.
    probe_once(
        None,
        &mut value,
        &mut store,
        ProbeEvent::EditDesc(Desc::String { variants: None }),
    );
    let w = probe_once(None, &mut value, &mut store, ProbeEvent::Idle);
    match w {
        Widget::DescEditor { desc } => assert!(matches!(desc, Desc::String { variants: None })),
        _ => panic!("expected the schema editor"),
    }
    // The value itself is never touched by the schema editor.
    assert!(matches!(value, Value::Bool(false)));
}

#[test]
fn schema_absent_node_exposes_one_value_row() {
    let mut store = Store::new();
    let value = Value::Bool(false);
    let mut p = ValueProbe::new(None, Id::new(0));
    let mut v = Value::Bool(false);
    p.probe(&mut v, &mut store, &ProbeEvent::Idle, &FloatAux::inert());
    let rows = p.iterate_inner(&value, &mut store);
    assert_eq!(rows.len(), 1);
    assert_eq!(rows[0].label, "value");
    assert!(matches!(rows[0].desc, Desc::Bool));
}
