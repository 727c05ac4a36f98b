//! Matching raw attribute nodes against a schema.
//!
//! The nodes are taken in order. Each fills the slot of the schema node that
//! declares its name; a node that fits nowhere is reported and dropped. The
//! walk never stops early.

use vstd::prelude::*;
use vstd::string::*;
use crate::access::find;
use crate::ast::{
    meta_items_view, Lit, LitKind, LitKindView, LitView, MetaItem, MetaItemKind, MetaItemKindView,
    MetaItemView,
};
use crate::diagnostic::{Diagnostics, DiagnosticKind, DiagnosticView, Span};
use crate::model::{
    array_view, has_name, lemma_position, lit_to_lit_printer, position, AttributeArray,
    AttributeInfo, AttributeLitModel, AttributeModel, AttributeValue, InfoView, LitModelView,
    LitTypePrinter, ModelView,
};

verus! {

/// A single error at `span`.
pub open spec fn error_at(span: Span, message: Seq<char>) -> Seq<DiagnosticView> {
    seq![DiagnosticView { kind: DiagnosticKind::Error, span, message }]
}

pub open spec fn unknown_attribute_message() -> Seq<char> {
    "Unknown attribute."@
}

pub open spec fn model_mismatch_message() -> Seq<char> {
    "Model mismatch."@
}

/// The text that reports a literal of kind `found` where `expected` was
/// declared: each kind by its name and one example.
pub open spec fn lit_mismatch_message(expected: LitTypePrinter, found: LitTypePrinter) -> Seq<
    char,
> {
    "Expected "@ + expected.display_name() + " literal (e.g. `key = "@ + expected.example()
        + "`) but got "@ + found.display_name() + " literal (e.g. `key = "@ + found.example()
        + "`)."@
}

/// A literal slot after the literal `lit` was offered to it, and what was
/// reported. Where the kinds agree the slot is written; else it stays and
/// the mismatch is reported at the literal.
pub open spec fn matched_lit(mlit: LitModelView, lit: LitView) -> (
    LitModelView,
    Seq<DiagnosticView>,
) {
    let sp = lit.span;
    match (mlit, lit.node) {
        (LitModelView::MLitStr(slot), LitKindView::LitStr(s, style)) => (
            LitModelView::MLitStr(slot.updated((s, style), sp)),
            slot.update_report(sp),
        ),
        (LitModelView::MLitBinary(slot), LitKindView::LitBinary(bytes)) => (
            LitModelView::MLitBinary(slot.updated(bytes, sp)),
            slot.update_report(sp),
        ),
        (LitModelView::MLitByte(slot), LitKindView::LitByte(b)) => (
            LitModelView::MLitByte(slot.updated(b, sp)),
            slot.update_report(sp),
        ),
        (LitModelView::MLitChar(slot), LitKindView::LitChar(c)) => (
            LitModelView::MLitChar(slot.updated(c, sp)),
            slot.update_report(sp),
        ),
        (LitModelView::MLitInt(slot), LitKindView::LitInt(n, ty)) => (
            LitModelView::MLitInt(slot.updated((n, ty), sp)),
            slot.update_report(sp),
        ),
        (LitModelView::MLitUint(slot), LitKindView::LitUint(n, ty)) => (
            LitModelView::MLitUint(slot.updated((n, ty), sp)),
            slot.update_report(sp),
        ),
        (LitModelView::MLitIntUnsuffixed(slot), LitKindView::LitIntUnsuffixed(n)) => (
            LitModelView::MLitIntUnsuffixed(slot.updated(n, sp)),
            slot.update_report(sp),
        ),
        (LitModelView::MLitFloat(slot), LitKindView::LitFloat(digits, ty)) => (
            LitModelView::MLitFloat(slot.updated((digits, ty), sp)),
            slot.update_report(sp),
        ),
        (LitModelView::MLitFloatUnsuffixed(slot), LitKindView::LitFloatUnsuffixed(digits)) => (
            LitModelView::MLitFloatUnsuffixed(slot.updated(digits, sp)),
            slot.update_report(sp),
        ),
        (LitModelView::MLitNil(slot), LitKindView::LitNil) => (
            LitModelView::MLitNil(slot.updated((), sp)),
            slot.update_report(sp),
        ),
        (LitModelView::MLitBool(slot), LitKindView::LitBool(b)) => (
            LitModelView::MLitBool(slot.updated(b, sp)),
            slot.update_report(sp),
        ),
        _ => (mlit, error_at(sp, lit_mismatch_message(mlit.kind(), lit.node.kind()))),
    }
}

/// A schema node after the raw node `item`, which carries its name, was
/// offered to it, and what was reported.
pub open spec fn matched_model(info: InfoView, item: MetaItemView) -> (
    InfoView,
    Seq<DiagnosticView>,
)
    decreases item, 0int,
{
    match (info.model, item.node) {
        (ModelView::UnitValue(slot), MetaItemKindView::MetaWord(_)) => (
            InfoView { model: ModelView::UnitValue(slot.updated((), item.span)), ..info },
            slot.update_report(item.span),
        ),
        (ModelView::KeyValue(mlit), MetaItemKindView::MetaNameValue(_, lit)) => (
            InfoView { model: ModelView::KeyValue(matched_lit(mlit, lit).0), ..info },
            matched_lit(mlit, lit).1,
        ),
        (ModelView::SubAttribute(sub), MetaItemKindView::MetaList(_, list)) => (
            InfoView { model: ModelView::SubAttribute(matched_all(sub, list).0), ..info },
            matched_all(sub, list).1,
        ),
        _ => (info, error_at(item.span, model_mismatch_message())),
    }
}

/// A schema after one raw node, and what was reported. The node goes to the
/// first schema node of its name; where there is none, the schema stays and
/// the node is reported as unknown.
pub open spec fn matched_item(model: Seq<InfoView>, item: MetaItemView) -> (
    Seq<InfoView>,
    Seq<DiagnosticView>,
)
    decreases item, 1int,
{
    if has_name(model, item.name()) {
        let i = position(model, item.name());
        (model.update(i, matched_model(model[i], item).0), matched_model(model[i], item).1)
    } else {
        (model, error_at(item.span, unknown_attribute_message()))
    }
}

/// A schema after the first `n` of `items`, taken in order, and everything
/// that was reported on the way.
pub open spec fn matched_prefix(model: Seq<InfoView>, items: Seq<MetaItemView>, n: nat) -> (
    Seq<InfoView>,
    Seq<DiagnosticView>,
)
    decreases items, n,
{
    if n == 0 || n > items.len() {
        (model, Seq::empty())
    } else {
        let before = matched_prefix(model, items, (n - 1) as nat);
        let last = matched_item(before.0, items[n - 1]);
        (last.0, before.1 + last.1)
    }
}

/// A schema after all of `items`, and everything that was reported.
pub open spec fn matched_all(model: Seq<InfoView>, items: Seq<MetaItemView>) -> (
    Seq<InfoView>,
    Seq<DiagnosticView>,
)
    decreases items, items.len() + 1,
{
    matched_prefix(model, items, items.len())
}

/// Matches every node of `attributes` against `model`, in order.
pub fn check_all(cx: &mut Diagnostics, model: AttributeArray, attributes: Vec<MetaItem>) -> (r:
    AttributeArray)
    ensures
        array_view(r@) == matched_all(array_view(model@), meta_items_view(attributes@)).0,
        final(cx)@ == old(cx)@ + matched_all(array_view(model@), meta_items_view(attributes@)).1,
{
    match_sub_attributes(cx, model, &attributes)
}

/// Matches the one node `attr` against `model`.
pub fn check(cx: &mut Diagnostics, model: AttributeArray, attr: MetaItem) -> (r: AttributeArray)
    ensures
        array_view(r@) == matched_item(array_view(model@), attr@).0,
        final(cx)@ == old(cx)@ + matched_item(array_view(model@), attr@).1,
{
    match_meta_item(cx, model, &attr)
}

/// Offers `meta_item` to the first node of `model` that declares its name.
pub fn match_meta_item(cx: &mut Diagnostics, model: AttributeArray, meta_item: &MetaItem) -> (r:
    AttributeArray)
    ensures
        array_view(r@) == matched_item(array_view(model@), meta_item@).0,
        final(cx)@ == old(cx)@ + matched_item(array_view(model@), meta_item@).1,
    decreases meta_item, 1int,
{
    let meta_name = meta_item_name(meta_item);
    match find(&model, meta_name) {
        Some(i) => {
            proof {
                lemma_position(array_view(model@), meta_name@, i as int);
            }
            let mut model = model;
            let ghost before = array_view(model@);
            let info = model.remove(i);
            let info = match_model(cx, info, meta_item);
            model.insert(i, info);
            assert(array_view(model@) =~= before.update(i as int, info@));
            model
        },
        None => {
            unknown_attribute(cx, meta_name, meta_item.span);
            model
        },
    }
}

/// The name that a raw node carries, whatever its shape.
pub fn meta_item_name(meta_item: &MetaItem) -> (r: &String)
    ensures
        r@ == meta_item@.name(),
{
    match &meta_item.node {
        MetaItemKind::MetaWord(name) => name,
        MetaItemKind::MetaList(name, _) => name,
        MetaItemKind::MetaNameValue(name, _) => name,
    }
}

/// Offers `meta_item` to the node `info`, which declares its name.
pub fn match_model(cx: &mut Diagnostics, info: AttributeInfo, meta_item: &MetaItem) -> (r:
    AttributeInfo)
    ensures
        r@ == matched_model(info@, meta_item@).0,
        final(cx)@ == old(cx)@ + matched_model(info@, meta_item@).1,
    decreases meta_item, 0int,
{
    let AttributeInfo { name, desc, model } = info;
    let model = match model {
        AttributeModel::UnitValue(value) => match &meta_item.node {
            MetaItemKind::MetaWord(_) => AttributeModel::UnitValue(
                match_value(cx, value, meta_item.span),
            ),
            _ => model_mismatch(cx, AttributeModel::UnitValue(value), meta_item),
        },
        AttributeModel::KeyValue(mlit) => match &meta_item.node {
            MetaItemKind::MetaNameValue(_, lit) => AttributeModel::KeyValue(
                match_lit(cx, mlit, lit),
            ),
            _ => model_mismatch(cx, AttributeModel::KeyValue(mlit), meta_item),
        },
        AttributeModel::SubAttribute(dict) => match &meta_item.node {
            MetaItemKind::MetaList(_, list) => AttributeModel::SubAttribute(
                match_sub_attributes(cx, dict, list),
            ),
            _ => model_mismatch(cx, AttributeModel::SubAttribute(dict), meta_item),
        },
    };
    AttributeInfo { name, desc, model }
}

/// Marks a bare-word attribute as given at `span`.
pub fn match_value(cx: &mut Diagnostics, value: AttributeValue<()>, span: Span) -> (r:
    AttributeValue<()>)
    ensures
        r@ == value@.updated((), span),
        final(cx)@ == old(cx)@ + value@.update_report(span),
{
    value.update(cx, (), span)
}

/// Offers the literal `lit` to the slot `mlit`.
pub fn match_lit(cx: &mut Diagnostics, mlit: AttributeLitModel, lit: &Lit) -> (r:
    AttributeLitModel)
    ensures
        r@ == matched_lit(mlit@, lit@).0,
        final(cx)@ == old(cx)@ + matched_lit(mlit@, lit@).1,
{
    let sp = lit.span;
    match (mlit, &lit.node) {
        (AttributeLitModel::MLitStr(value), LitKind::LitStr(s, style)) => {
            AttributeLitModel::MLitStr(value.update(cx, (s.clone(), *style), sp))
        },
        (AttributeLitModel::MLitBinary(value), LitKind::LitBinary(bytes)) => {
            AttributeLitModel::MLitBinary(value.update(cx, copy_bytes(bytes), sp))
        },
        (AttributeLitModel::MLitByte(value), LitKind::LitByte(b)) => {
            AttributeLitModel::MLitByte(value.update(cx, *b, sp))
        },
        (AttributeLitModel::MLitChar(value), LitKind::LitChar(c)) => {
            AttributeLitModel::MLitChar(value.update(cx, *c, sp))
        },
        (AttributeLitModel::MLitInt(value), LitKind::LitInt(n, ty)) => {
            AttributeLitModel::MLitInt(value.update(cx, (*n, *ty), sp))
        },
        (AttributeLitModel::MLitUint(value), LitKind::LitUint(n, ty)) => {
            AttributeLitModel::MLitUint(value.update(cx, (*n, *ty), sp))
        },
        (AttributeLitModel::MLitIntUnsuffixed(value), LitKind::LitIntUnsuffixed(n)) => {
            AttributeLitModel::MLitIntUnsuffixed(value.update(cx, *n, sp))
        },
        (AttributeLitModel::MLitFloat(value), LitKind::LitFloat(digits, ty)) => {
            AttributeLitModel::MLitFloat(value.update(cx, (digits.clone(), *ty), sp))
        },
        (AttributeLitModel::MLitFloatUnsuffixed(value), LitKind::LitFloatUnsuffixed(digits)) => {
            AttributeLitModel::MLitFloatUnsuffixed(value.update(cx, digits.clone(), sp))
        },
        (AttributeLitModel::MLitNil(value), LitKind::LitNil) => {
            AttributeLitModel::MLitNil(value.update(cx, (), sp))
        },
        (AttributeLitModel::MLitBool(value), LitKind::LitBool(b)) => {
            AttributeLitModel::MLitBool(value.update(cx, *b, sp))
        },
        (mlit, _) => lit_mismatch(cx, mlit, lit),
    }
}

/// A copy of `bytes`.
fn copy_bytes(bytes: &Vec<u8>) -> (r: Vec<u8>)
    ensures
        r@ == bytes@,
{
    let mut r: Vec<u8> = Vec::new();
    let mut i: usize = 0;
    while i < bytes.len()
        invariant
            i <= bytes@.len(),
            r@ == bytes@.take(i as int),
        decreases bytes@.len() - i,
    {
        r.push(bytes[i]);
        assert(bytes@.take(i + 1) =~= bytes@.take(i as int).push(bytes@[i as int]));
        i = i + 1;
    }
    assert(bytes@.take(bytes@.len() as int) =~= bytes@);
    r
}

/// Matches the nested nodes `meta_items` against the nested schema `model`.
pub fn match_sub_attributes(
    cx: &mut Diagnostics,
    model: AttributeArray,
    meta_items: &Vec<MetaItem>,
) -> (r: AttributeArray)
    ensures
        array_view(r@) == matched_all(array_view(model@), meta_items_view(meta_items@)).0,
        final(cx)@ == old(cx)@ + matched_all(array_view(model@), meta_items_view(meta_items@)).1,
    decreases meta_items, 0int,
{
    let ghost start = array_view(model@);
    let ghost items = meta_items_view(meta_items@);
    let ghost log = cx@;
    let mut model = model;
    let mut i: usize = 0;
    assert(cx@ =~= log + matched_prefix(start, items, 0).1);
    while i < meta_items.len()
        invariant
            i <= meta_items@.len(),
            items == meta_items_view(meta_items@),
            array_view(model@) == matched_prefix(start, items, i as nat).0,
            cx@ == log + matched_prefix(start, items, i as nat).1,
        decreases meta_items@.len() - i,
    {
        let ghost now = cx@;
        model = match_meta_item(cx, model, &meta_items[i]);
        assert(items[i as int] == meta_items@[i as int]@);
        assert(cx@ =~= log + matched_prefix(start, items, (i + 1) as nat).1);
        i = i + 1;
    }
    model
}

/// Reports that `meta_item` has not the shape that `model` declares.
pub fn model_mismatch(cx: &mut Diagnostics, model: AttributeModel, meta_item: &MetaItem) -> (r:
    AttributeModel)
    ensures
        r == model,
        final(cx)@ == old(cx)@ + error_at(meta_item@.span, model_mismatch_message()),
{
    cx.span_err(meta_item.span, "Model mismatch.");
    assert(cx@ =~= old(cx)@ + error_at(meta_item@.span, model_mismatch_message()));
    model
}

/// Reports that `lit` has not the kind that `mlit` declares.
pub fn lit_mismatch(cx: &mut Diagnostics, mlit: AttributeLitModel, lit: &Lit) -> (r:
    AttributeLitModel)
    ensures
        r == mlit,
        final(cx)@ == old(cx)@ + error_at(
            lit@.span,
            lit_mismatch_message(mlit@.kind(), lit@.node.kind()),
        ),
{
    let mlit_printer = mlit.to_lit_printer();
    let lit_printer = lit_to_lit_printer(&lit.node);
    let mut msg = String::from_str("Expected ");
    msg.append(mlit_printer.type_to_str());
    msg.append(" literal (e.g. `key = ");
    msg.append(mlit_printer.type_example_to_str());
    msg.append("`) but got ");
    msg.append(lit_printer.type_to_str());
    msg.append(" literal (e.g. `key = ");
    msg.append(lit_printer.type_example_to_str());
    msg.append("`).");
    cx.span_err(lit.span, msg.as_str());
    assert(cx@ =~= old(cx)@ + error_at(
        lit@.span,
        lit_mismatch_message(mlit@.kind(), lit@.node.kind()),
    ));
    mlit
}

/// Reports that no schema node declares `_meta_name`.
pub fn unknown_attribute(cx: &mut Diagnostics, _meta_name: &String, span: Span)
    ensures
        final(cx)@ == old(cx)@ + error_at(span, unknown_attribute_message()),
{
    cx.span_err(span, "Unknown attribute.");
    assert(cx@ =~= old(cx)@ + error_at(span, unknown_attribute_message()));
}

} // verus!
