use attribute::access::{by_name, find, lit_str, plain_value, plain_value_or, sub_model};
use attribute::ast::{IntTy, Lit, LitKind, MetaItem, StrStyle, UintTy};
use attribute::diagnostic::{
    CompileErrorLevel, Diagnostics, DiagnosticKind, DuplicateAttribute, Span,
};
use attribute::model::{
    AttributeArray, AttributeInfo, AttributeLitModel, AttributeModel, AttributeValue,
};
use attribute::model_checker::{check, check_all};

fn sp(lo: u32, hi: u32) -> Span {
    Span::new(lo, hi)
}

fn str_lit(text: &str, span: Span) -> Lit {
    Lit { node: LitKind::LitStr(text.to_string(), StrStyle::CookedStr), span }
}

fn uint_lit(n: u64, span: Span) -> Lit {
    Lit { node: LitKind::LitUint(n, UintTy::TyU32), span }
}

fn nested_schema(policy: DuplicateAttribute) -> AttributeArray {
    vec![
        AttributeInfo::new("flag", "a switch", AttributeModel::UnitValue(AttributeValue::new(policy))),
        AttributeInfo::new(
            "name",
            "a label",
            AttributeModel::KeyValue(AttributeLitModel::MLitStr(AttributeValue::new(policy))),
        ),
        AttributeInfo::new(
            "children",
            "nested attributes",
            AttributeModel::SubAttribute(vec![AttributeInfo::new(
                "id",
                "an identifier",
                AttributeModel::KeyValue(AttributeLitModel::MLitUint(AttributeValue::new(policy))),
            )]),
        ),
    ]
}

fn uint_slot<'a>(array: &'a AttributeArray, name: &'static str) -> &'a AttributeValue<(u64, UintTy)> {
    match by_name(array, name).key_value() {
        AttributeLitModel::MLitUint(slot) => slot,
        _ => panic!("not an unsigned integer slot"),
    }
}

#[test]
fn nested_shape_is_filled_without_diagnostics() {
    let mut cx = Diagnostics::new();
    let schema = nested_schema(DuplicateAttribute::simple(CompileErrorLevel::Warn));
    let nodes = vec![
        MetaItem::word("flag", sp(1, 5)),
        MetaItem::name_value("name", str_lit("widget", sp(13, 21)), sp(6, 21)),
        MetaItem::list(
            "children",
            vec![MetaItem::name_value("id", uint_lit(5, sp(35, 36)), sp(32, 36))],
            sp(22, 37),
        ),
    ];
    let result = check_all(&mut cx, schema, nodes);
    assert_eq!(cx.len(), 0);
    assert!(!cx.has_errors());
    assert_eq!(result.len(), 3);
    let flag = plain_value(&result, "flag");
    assert!(flag.has_value());
    assert_eq!(flag.span(), sp(1, 5));
    let name = lit_str(&result, "name");
    assert_eq!(name.value, Some(("widget".to_string(), StrStyle::CookedStr)));
    assert_eq!(name.span, sp(13, 21));
    let children = sub_model(&result, "children");
    let id = uint_slot(children, "id");
    assert_eq!(id.value, Some((5, UintTy::TyU32)));
    assert_eq!(id.span(), sp(35, 36));
    assert!(plain_value_or(&result, "flag", false));
}

#[test]
fn kind_mismatch_names_both_kinds() {
    let mut cx = Diagnostics::new();
    let schema = vec![AttributeInfo::new(
        "size",
        "a size",
        AttributeModel::KeyValue(AttributeLitModel::MLitInt(AttributeValue::simple())),
    )];
    let node = MetaItem::name_value("size", str_lit("big", sp(7, 12)), sp(0, 12));
    let result = check(&mut cx, schema, node);
    assert_eq!(cx.len(), 1);
    let d = cx.get(0);
    assert_eq!(d.kind, DiagnosticKind::Error);
    assert_eq!(d.span, sp(7, 12));
    assert_eq!(
        d.message,
        "Expected int literal (e.g. `key = 38`) but got string literal (e.g. `key = \"hello world\"`)."
    );
    assert!(d.message.contains("int"));
    assert!(d.message.contains("38"));
    assert!(d.message.contains("string"));
    assert!(d.message.contains("\"hello world\""));
    match by_name(&result, "size").key_value() {
        AttributeLitModel::MLitInt(slot) => {
            assert!(!slot.has_value());
            assert_eq!(slot.value, None::<(i64, IntTy)>);
        }
        _ => panic!("the declared kind changed"),
    }
    assert!(cx.has_errors());
}

fn flag_schema(policy: DuplicateAttribute) -> AttributeArray {
    vec![AttributeInfo::new("flag", "a switch", AttributeModel::UnitValue(AttributeValue::new(policy)))]
}

#[test]
fn duplicate_under_warn_keeps_first_and_reports_warning_and_note() {
    let mut cx = Diagnostics::new();
    let schema = flag_schema(DuplicateAttribute::simple(CompileErrorLevel::Warn));
    let nodes = vec![MetaItem::word("flag", sp(1, 5)), MetaItem::word("flag", sp(10, 14))];
    let result = check_all(&mut cx, schema, nodes);
    let slot = plain_value(&result, "flag");
    assert_eq!(slot.value, Some(()));
    assert_eq!(slot.span, sp(1, 5));
    assert_eq!(cx.len(), 2);
    assert_eq!(cx.get(0).kind, DiagnosticKind::Warning);
    assert_eq!(cx.get(0).span, sp(10, 14));
    assert_eq!(cx.get(0).message, "Duplicate attribute. ");
    assert_eq!(cx.get(1).kind, DiagnosticKind::Note);
    assert_eq!(cx.get(1).span, sp(1, 5));
    assert_eq!(cx.get(1).message, "Previous declaration here.");
    assert!(!cx.has_errors());
}

#[test]
fn duplicate_under_error_marks_the_pass_and_keeps_first() {
    let mut cx = Diagnostics::new();
    let schema = vec![AttributeInfo::new(
        "name",
        "a label",
        AttributeModel::KeyValue(AttributeLitModel::MLitStr(AttributeValue::new(
            DuplicateAttribute::error("Only one name is allowed."),
        ))),
    )];
    let nodes = vec![
        MetaItem::name_value("name", str_lit("first", sp(5, 12)), sp(0, 12)),
        MetaItem::name_value("name", str_lit("second", sp(25, 33)), sp(20, 33)),
    ];
    let result = check_all(&mut cx, schema, nodes);
    let slot = lit_str(&result, "name");
    assert_eq!(slot.value, Some(("first".to_string(), StrStyle::CookedStr)));
    assert_eq!(slot.span(), sp(5, 12));
    assert_eq!(cx.len(), 2);
    assert_eq!(cx.get(0).kind, DiagnosticKind::Error);
    assert_eq!(cx.get(0).span, sp(25, 33));
    assert_eq!(cx.get(0).message, "Duplicate attribute. Only one name is allowed.");
    assert_eq!(cx.get(1).kind, DiagnosticKind::Note);
    assert_eq!(cx.get(1).span, sp(5, 12));
    assert!(cx.has_errors());
}

#[test]
fn duplicate_under_silent_reports_nothing() {
    let mut cx = Diagnostics::new();
    let schema = flag_schema(DuplicateAttribute::simple(CompileErrorLevel::Silent));
    let nodes = vec![MetaItem::word("flag", sp(1, 5)), MetaItem::word("flag", sp(10, 14))];
    let result = check_all(&mut cx, schema, nodes);
    assert_eq!(plain_value(&result, "flag").span(), sp(1, 5));
    assert_eq!(cx.len(), 0);
}

#[test]
fn duplicates_are_seen_across_passes() {
    let mut cx = Diagnostics::new();
    let schema = flag_schema(DuplicateAttribute::simple(CompileErrorLevel::Warn));
    let once = check(&mut cx, schema, MetaItem::word("flag", sp(1, 5)));
    assert_eq!(cx.len(), 0);
    let twice = check_all(&mut cx, once, vec![MetaItem::word("flag", sp(7, 11))]);
    assert_eq!(cx.len(), 2);
    assert_eq!(plain_value(&twice, "flag").span(), sp(1, 5));
}

#[test]
fn unknown_name_is_one_error_and_schema_stays() {
    let mut cx = Diagnostics::new();
    let schema = nested_schema(DuplicateAttribute::simple(CompileErrorLevel::Warn));
    let result = check(&mut cx, schema, MetaItem::word("colour", sp(3, 9)));
    assert_eq!(cx.len(), 1);
    assert_eq!(cx.get(0).kind, DiagnosticKind::Error);
    assert_eq!(cx.get(0).span, sp(3, 9));
    assert_eq!(cx.get(0).message, "Unknown attribute.");
    assert_eq!(result.len(), 3);
    assert_eq!(result[0].name, "flag");
    assert_eq!(result[1].name, "name");
    assert_eq!(result[2].name, "children");
    assert!(!plain_value(&result, "flag").has_value());
    assert!(!lit_str(&result, "name").has_value());
    assert!(!uint_slot(sub_model(&result, "children"), "id").has_value());
    assert!(!plain_value_or(&result, "flag", false));
    assert!(plain_value_or(&result, "flag", true));
}

#[test]
fn wrong_shape_is_a_model_mismatch() {
    let mut cx = Diagnostics::new();
    let schema = nested_schema(DuplicateAttribute::simple(CompileErrorLevel::Warn));
    let nodes = vec![
        MetaItem::name_value("flag", str_lit("yes", sp(5, 10)), sp(0, 10)),
        MetaItem::word("name", sp(11, 15)),
        MetaItem::word("children", sp(16, 24)),
        MetaItem::list("flag", vec![], sp(25, 31)),
    ];
    let result = check_all(&mut cx, schema, nodes);
    assert_eq!(cx.len(), 4);
    let spans = [sp(0, 10), sp(11, 15), sp(16, 24), sp(25, 31)];
    for i in 0..4 {
        assert_eq!(cx.get(i).kind, DiagnosticKind::Error);
        assert_eq!(cx.get(i).message, "Model mismatch.");
        assert_eq!(cx.get(i).span, spans[i]);
    }
    assert!(!plain_value(&result, "flag").has_value());
    assert!(!lit_str(&result, "name").has_value());
    assert_eq!(sub_model(&result, "children").len(), 1);
}

#[test]
fn the_walk_goes_on_after_an_error() {
    let mut cx = Diagnostics::new();
    let schema = nested_schema(DuplicateAttribute::simple(CompileErrorLevel::Warn));
    let nodes = vec![
        MetaItem::word("nonsense", sp(0, 8)),
        MetaItem::word("name", sp(9, 13)),
        MetaItem::word("flag", sp(14, 18)),
    ];
    let result = check_all(&mut cx, schema, nodes);
    assert_eq!(cx.len(), 2);
    assert_eq!(cx.get(0).message, "Unknown attribute.");
    assert_eq!(cx.get(1).message, "Model mismatch.");
    assert_eq!(plain_value(&result, "flag").span(), sp(14, 18));
}

#[test]
fn matching_keeps_names_and_kinds() {
    let mut cx = Diagnostics::new();
    let schema = nested_schema(DuplicateAttribute::simple(CompileErrorLevel::Warn));
    let nodes = vec![
        MetaItem::word("flag", sp(1, 5)),
        MetaItem::name_value("name", uint_lit(3, sp(8, 9)), sp(6, 9)),
        MetaItem::list("children", vec![MetaItem::word("id", sp(20, 22))], sp(10, 23)),
        MetaItem::word("other", sp(30, 35)),
    ];
    let result = check_all(&mut cx, schema, nodes);
    assert_eq!(result.len(), 3);
    assert_eq!(result[0].name, "flag");
    assert_eq!(result[0].desc, "a switch");
    assert!(matches!(result[0].model, AttributeModel::UnitValue(_)));
    assert_eq!(result[1].name, "name");
    assert!(matches!(result[1].model, AttributeModel::KeyValue(AttributeLitModel::MLitStr(_))));
    assert_eq!(result[2].name, "children");
    match &result[2].model {
        AttributeModel::SubAttribute(sub) => {
            assert_eq!(sub.len(), 1);
            assert_eq!(sub[0].name, "id");
            assert!(matches!(sub[0].model, AttributeModel::KeyValue(AttributeLitModel::MLitUint(_))));
        }
        _ => panic!("the declared shape changed"),
    }
    assert_eq!(cx.len(), 3);
}

#[test]
fn a_node_goes_to_the_first_declaration_of_its_name() {
    let mut cx = Diagnostics::new();
    let policy = DuplicateAttribute::simple(CompileErrorLevel::Silent);
    let schema = vec![
        AttributeInfo::new("twin", "first", AttributeModel::UnitValue(AttributeValue::new(policy))),
        AttributeInfo::new("twin", "second", AttributeModel::UnitValue(AttributeValue::new(policy))),
    ];
    let result = check(&mut cx, schema, MetaItem::word("twin", sp(2, 6)));
    assert!(result[0].plain_value().has_value());
    assert!(!result[1].plain_value().has_value());
    assert_eq!(by_name(&result, "twin").desc, "first");
}

#[test]
fn every_literal_kind_fills_its_own_slot() {
    let mut cx = Diagnostics::new();
    let schema = vec![
        AttributeInfo::new("a", "", AttributeModel::KeyValue(AttributeLitModel::MLitBinary(AttributeValue::simple()))),
        AttributeInfo::new("b", "", AttributeModel::KeyValue(AttributeLitModel::MLitByte(AttributeValue::simple()))),
        AttributeInfo::new("c", "", AttributeModel::KeyValue(AttributeLitModel::MLitChar(AttributeValue::simple()))),
        AttributeInfo::new("d", "", AttributeModel::KeyValue(AttributeLitModel::MLitInt(AttributeValue::simple()))),
        AttributeInfo::new("e", "", AttributeModel::KeyValue(AttributeLitModel::MLitIntUnsuffixed(AttributeValue::simple()))),
        AttributeInfo::new("f", "", AttributeModel::KeyValue(AttributeLitModel::MLitFloat(AttributeValue::simple()))),
        AttributeInfo::new("g", "", AttributeModel::KeyValue(AttributeLitModel::MLitFloatUnsuffixed(AttributeValue::simple()))),
        AttributeInfo::new("h", "", AttributeModel::KeyValue(AttributeLitModel::MLitNil(AttributeValue::simple()))),
        AttributeInfo::new("i", "", AttributeModel::KeyValue(AttributeLitModel::MLitBool(AttributeValue::simple()))),
    ];
    let lit = |node: LitKind, at: u32| Lit { node, span: sp(at, at + 1) };
    let nodes = vec![
        MetaItem::name_value("a", lit(LitKind::LitBinary(vec![1, 2, 3]), 10), sp(0, 1)),
        MetaItem::name_value("b", lit(LitKind::LitByte(57), 11), sp(0, 1)),
        MetaItem::name_value("c", lit(LitKind::LitChar('x'), 12), sp(0, 1)),
        MetaItem::name_value("d", lit(LitKind::LitInt(-4, IntTy::TyI16), 13), sp(0, 1)),
        MetaItem::name_value("e", lit(LitKind::LitIntUnsuffixed(38), 14), sp(0, 1)),
        MetaItem::name_value(
            "f",
            lit(LitKind::LitFloat("0.01".to_string(), attribute::ast::FloatTy::TyF32), 15),
            sp(0, 1),
        ),
        MetaItem::name_value("g", lit(LitKind::LitFloatUnsuffixed("0.1".to_string()), 16), sp(0, 1)),
        MetaItem::name_value("h", lit(LitKind::LitNil, 17), sp(0, 1)),
        MetaItem::name_value("i", lit(LitKind::LitBool(true), 18), sp(0, 1)),
    ];
    let result = check_all(&mut cx, schema, nodes);
    assert_eq!(cx.len(), 0);
    match by_name(&result, "a").key_value() {
        AttributeLitModel::MLitBinary(s) => {
            assert_eq!(s.value, Some(vec![1, 2, 3]));
            assert_eq!(s.span, sp(10, 11));
        }
        _ => panic!(),
    }
    match by_name(&result, "b").key_value() {
        AttributeLitModel::MLitByte(s) => assert_eq!(s.value_or(0), 57),
        _ => panic!(),
    }
    match by_name(&result, "c").key_value() {
        AttributeLitModel::MLitChar(s) => assert_eq!(s.value, Some('x')),
        _ => panic!(),
    }
    match by_name(&result, "d").key_value() {
        AttributeLitModel::MLitInt(s) => assert_eq!(s.value, Some((-4, IntTy::TyI16))),
        _ => panic!(),
    }
    match by_name(&result, "e").key_value() {
        AttributeLitModel::MLitIntUnsuffixed(s) => assert_eq!(s.value, Some(38)),
        _ => panic!(),
    }
    match by_name(&result, "f").key_value() {
        AttributeLitModel::MLitFloat(s) => {
            assert_eq!(s.value, Some(("0.01".to_string(), attribute::ast::FloatTy::TyF32)))
        }
        _ => panic!(),
    }
    match by_name(&result, "g").key_value() {
        AttributeLitModel::MLitFloatUnsuffixed(s) => assert_eq!(s.value, Some("0.1".to_string())),
        _ => panic!(),
    }
    match by_name(&result, "h").key_value() {
        AttributeLitModel::MLitNil(s) => {
            assert_eq!(s.value, Some(()));
            assert_eq!(s.span, sp(17, 18));
        }
        _ => panic!(),
    }
    match by_name(&result, "i").key_value() {
        AttributeLitModel::MLitBool(s) => assert_eq!(s.value, Some(true)),
        _ => panic!(),
    }
}

#[test]
fn signed_and_unsigned_integers_are_different_kinds() {
    let mut cx = Diagnostics::new();
    let schema = vec![AttributeInfo::new(
        "id",
        "",
        AttributeModel::KeyValue(AttributeLitModel::MLitUint(AttributeValue::simple())),
    )];
    let node = MetaItem::name_value(
        "id",
        Lit { node: LitKind::LitInt(5, IntTy::TyI32), span: sp(5, 9) },
        sp(0, 9),
    );
    let result = check(&mut cx, schema, node);
    assert_eq!(cx.len(), 1);
    assert_eq!(
        cx.get(0).message,
        "Expected unsigned int literal (e.g. `key = 38u`) but got int literal (e.g. `key = 38`)."
    );
    assert!(!uint_slot(&result, "id").has_value());
}

#[test]
fn find_gives_the_first_place_or_nothing() {
    let schema = nested_schema(DuplicateAttribute::simple(CompileErrorLevel::Warn));
    assert_eq!(find(&schema, &"flag".to_string()), Some(0));
    assert_eq!(find(&schema, &"name".to_string()), Some(1));
    assert_eq!(find(&schema, &"children".to_string()), Some(2));
    assert_eq!(find(&schema, &"id".to_string()), None);
    assert_eq!(find(&Vec::new(), &"flag".to_string()), None);
    let twins = vec![AttributeInfo::simple("a", "x"), AttributeInfo::simple("a", "y")];
    assert_eq!(find(&twins, &"a".to_string()), Some(0));
}

#[test]
fn an_empty_list_changes_nothing() {
    let mut cx = Diagnostics::new();
    let schema = nested_schema(DuplicateAttribute::simple(CompileErrorLevel::Warn));
    let result = check_all(&mut cx, schema, Vec::new());
    assert_eq!(cx.len(), 0);
    assert_eq!(result.len(), 3);
    assert!(!plain_value(&result, "flag").has_value());
}

#[test]
fn nested_duplicates_and_unknowns_are_reported_in_order() {
    let mut cx = Diagnostics::new();
    let schema = nested_schema(DuplicateAttribute::simple(CompileErrorLevel::Warn));
    let nodes = vec![
        MetaItem::list(
            "children",
            vec![
                MetaItem::name_value("id", uint_lit(1, sp(12, 13)), sp(9, 13)),
                MetaItem::word("stray", sp(15, 20)),
            ],
            sp(0, 21),
        ),
        MetaItem::list(
            "children",
            vec![MetaItem::name_value("id", uint_lit(2, sp(35, 36)), sp(32, 36))],
            sp(22, 37),
        ),
    ];
    let result = check_all(&mut cx, schema, nodes);
    let id = uint_slot(sub_model(&result, "children"), "id");
    assert_eq!(id.value, Some((1, UintTy::TyU32)));
    assert_eq!(id.span, sp(12, 13));
    assert_eq!(cx.len(), 3);
    assert_eq!(cx.get(0).kind, DiagnosticKind::Error);
    assert_eq!(cx.get(0).span, sp(15, 20));
    assert_eq!(cx.get(0).message, "Unknown attribute.");
    assert_eq!(cx.get(1).kind, DiagnosticKind::Warning);
    assert_eq!(cx.get(1).span, sp(35, 36));
    assert_eq!(cx.get(2).kind, DiagnosticKind::Note);
    assert_eq!(cx.get(2).span, sp(12, 13));
}
