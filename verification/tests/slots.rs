use attribute::ast::{LitKind, StrStyle};
use attribute::diagnostic::{
    CompileErrorLevel, Diagnostics, DiagnosticKind, DuplicateAttribute, Span,
};
use attribute::model::{
    lit_to_lit_printer, AttributeInfo, AttributeLitModel, AttributeModel, AttributeValue,
    LitTypePrinter,
};

#[test]
fn levels_know_what_they_are() {
    assert!(CompileErrorLevel::Silent.is_silent());
    assert!(!CompileErrorLevel::Warn.is_silent());
    assert!(!CompileErrorLevel::Error.is_silent());
    assert!(CompileErrorLevel::Error.is_error());
    assert!(!CompileErrorLevel::Warn.is_error());
    assert!(!CompileErrorLevel::Silent.is_error());
}

#[test]
fn level_issue_emits_by_severity() {
    let mut cx = Diagnostics::new();
    CompileErrorLevel::Silent.issue(&mut cx, Span::new(1, 2), "quiet");
    assert_eq!(cx.len(), 0);
    CompileErrorLevel::Warn.issue(&mut cx, Span::new(3, 4), "careful");
    CompileErrorLevel::Error.issue(&mut cx, Span::new(5, 6), "wrong");
    assert_eq!(cx.len(), 2);
    assert_eq!(cx.get(0).kind, DiagnosticKind::Warning);
    assert_eq!(cx.get(0).span, Span::new(3, 4));
    assert_eq!(cx.get(0).message, "careful");
    assert_eq!(cx.get(1).kind, DiagnosticKind::Error);
    assert_eq!(cx.get(1).span, Span::new(5, 6));
    assert_eq!(cx.get(1).message, "wrong");
}

#[test]
fn policy_builders_set_level_and_note() {
    let p = DuplicateAttribute::new(CompileErrorLevel::Warn, Some("extra"));
    assert_eq!(p.level, CompileErrorLevel::Warn);
    assert_eq!(p.extra_msg, Some("extra"));
    let s = DuplicateAttribute::simple(CompileErrorLevel::Silent);
    assert_eq!(s.level, CompileErrorLevel::Silent);
    assert_eq!(s.extra_msg, None);
    let e = DuplicateAttribute::error("no");
    assert_eq!(e.level, CompileErrorLevel::Error);
    assert_eq!(e.extra_msg, Some("no"));
}

#[test]
fn policy_issue_reports_then_points_back() {
    let mut cx = Diagnostics::new();
    let silent = DuplicateAttribute::simple(CompileErrorLevel::Silent);
    assert!(!silent.issue(&mut cx, Span::new(1, 2), Span::new(3, 4)));
    assert_eq!(cx.len(), 0);
    let warn = DuplicateAttribute::new(CompileErrorLevel::Warn, Some("Keep one."));
    assert!(!warn.issue(&mut cx, Span::new(10, 12), Span::new(3, 4)));
    assert_eq!(cx.len(), 2);
    assert_eq!(cx.get(0).kind, DiagnosticKind::Warning);
    assert_eq!(cx.get(0).span, Span::new(10, 12));
    assert_eq!(cx.get(0).message, "Duplicate attribute. Keep one.");
    assert_eq!(cx.get(1).kind, DiagnosticKind::Note);
    assert_eq!(cx.get(1).span, Span::new(3, 4));
    assert_eq!(cx.get(1).message, "Previous declaration here.");
    assert!(!cx.has_errors());
    let error = DuplicateAttribute::error("Never twice.");
    assert!(error.issue(&mut cx, Span::new(20, 22), Span::new(3, 4)));
    assert_eq!(cx.len(), 4);
    assert_eq!(cx.get(2).kind, DiagnosticKind::Error);
    assert_eq!(cx.get(2).message, "Duplicate attribute. Never twice.");
    assert_eq!(cx.get(3).kind, DiagnosticKind::Note);
    assert!(cx.has_errors());
}

#[test]
fn a_new_slot_is_empty() {
    let slot: AttributeValue<u8> = AttributeValue::new(DuplicateAttribute::error("x"));
    assert!(!slot.has_value());
    assert_eq!(slot.value, None);
    assert_eq!(slot.span(), Span::dummy());
    assert_eq!(slot.span(), Span::new(0, 0));
    assert_eq!(slot.duplicate.level, CompileErrorLevel::Error);
    assert_eq!(slot.value_or(9), 9);
    let simple: AttributeValue<bool> = AttributeValue::simple();
    assert_eq!(simple.duplicate.level, CompileErrorLevel::Warn);
    assert_eq!(simple.duplicate.extra_msg, None);
    assert!(!simple.has_value());
}

#[test]
fn the_first_write_wins() {
    let mut cx = Diagnostics::new();
    let slot: AttributeValue<u8> = AttributeValue::simple();
    let slot = slot.update(&mut cx, 7, Span::new(1, 2));
    assert_eq!(cx.len(), 0);
    assert!(slot.has_value());
    assert_eq!(slot.value_or(0), 7);
    assert_eq!(slot.span(), Span::new(1, 2));
    let slot = slot.update(&mut cx, 8, Span::new(5, 6));
    assert_eq!(slot.value, Some(7));
    assert_eq!(slot.span(), Span::new(1, 2));
    assert_eq!(cx.len(), 2);
    assert_eq!(cx.get(0).kind, DiagnosticKind::Warning);
    assert_eq!(cx.get(0).span, Span::new(5, 6));
    assert_eq!(cx.get(1).kind, DiagnosticKind::Note);
    assert_eq!(cx.get(1).span, Span::new(1, 2));
}

#[test]
fn kinds_have_names_and_examples() {
    let table = [
        (LitTypePrinter::PLitStr, "string", "\"hello world\""),
        (LitTypePrinter::PLitBinary, "binary", "0b01010101"),
        (LitTypePrinter::PLitByte, "byte", "b'9'"),
        (LitTypePrinter::PLitChar, "char", "'a'"),
        (LitTypePrinter::PLitInt, "int", "38"),
        (LitTypePrinter::PLitUint, "unsigned int", "38u"),
        (LitTypePrinter::PLitIntUnsuffixed, "unsuffixed int", "38"),
        (LitTypePrinter::PLitFloat, "float", "0.01f32"),
        (LitTypePrinter::PLitFloatUnsuffixed, "unsuffixed float", "0.1"),
        (LitTypePrinter::PLitNil, "nil", "()"),
        (LitTypePrinter::PLitBool, "boolean", "true"),
    ];
    for (kind, name, example) in table {
        assert_eq!(kind.type_to_str(), name);
        assert_eq!(kind.type_example_to_str(), example);
    }
}

#[test]
fn printers_follow_the_kind() {
    assert_eq!(
        lit_to_lit_printer(&LitKind::LitStr("s".to_string(), StrStyle::RawStr(2))),
        LitTypePrinter::PLitStr
    );
    assert_eq!(lit_to_lit_printer(&LitKind::LitNil), LitTypePrinter::PLitNil);
    assert_eq!(lit_to_lit_printer(&LitKind::LitBool(false)), LitTypePrinter::PLitBool);
    assert_eq!(lit_to_lit_printer(&LitKind::LitByte(1)), LitTypePrinter::PLitByte);
    let slot = AttributeLitModel::MLitChar(AttributeValue::simple());
    assert_eq!(slot.to_lit_printer(), LitTypePrinter::PLitChar);
    let slot = AttributeLitModel::MLitFloatUnsuffixed(AttributeValue::simple());
    assert_eq!(slot.to_lit_printer(), LitTypePrinter::PLitFloatUnsuffixed);
}

#[test]
fn nodes_are_built_and_read() {
    let info = AttributeInfo::simple("flag", "a switch");
    assert_eq!(info.name, "flag");
    assert_eq!(info.desc, "a switch");
    assert!(!info.plain_value().has_value());
    assert_eq!(info.plain_value().duplicate.level, CompileErrorLevel::Warn);
    let info = info.update(AttributeModel::KeyValue(AttributeLitModel::MLitBool(
        AttributeValue::simple(),
    )));
    assert_eq!(info.name, "flag");
    assert_eq!(info.desc, "a switch");
    assert_eq!(info.key_value().to_lit_printer(), LitTypePrinter::PLitBool);
    let info = info.update(AttributeModel::SubAttribute(vec![AttributeInfo::simple("x", "y")]));
    assert_eq!(info.sub_model().len(), 1);
    assert_eq!(info.sub_model()[0].name, "x");
}
