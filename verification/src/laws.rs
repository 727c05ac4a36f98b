//! What holds of matching and merging on every input.

use vstd::prelude::*;
use crate::ast::{LitKindView, LitView, MetaItemKindView, MetaItemView};
use crate::diagnostic::{
    contains_error, duplicate_message, previous_message, CompileErrorLevel, DiagnosticKind,
    DiagnosticView, DuplicateAttribute, Span,
};
use crate::merger::{mergeable, merged, merged_lit, merged_prefix};
use crate::model::{
    has_name, lemma_has_first, lemma_position, position, unique_names, InfoView, LitModelView,
    ModelView, SlotView,
};
use crate::model::LitTypePrinter;
use crate::model_checker::{
    lit_mismatch_message, matched_all, matched_item, matched_model, matched_prefix,
    unknown_attribute_message,
};

verus! {

/// A literal slot as it was declared: of the same kind and policy, empty.
pub open spec fn declared_lit(lit: LitModelView) -> LitModelView {
    match lit {
        LitModelView::MLitStr(s) => LitModelView::MLitStr(SlotView::empty(s.duplicate)),
        LitModelView::MLitBinary(s) => LitModelView::MLitBinary(SlotView::empty(s.duplicate)),
        LitModelView::MLitByte(s) => LitModelView::MLitByte(SlotView::empty(s.duplicate)),
        LitModelView::MLitChar(s) => LitModelView::MLitChar(SlotView::empty(s.duplicate)),
        LitModelView::MLitInt(s) => LitModelView::MLitInt(SlotView::empty(s.duplicate)),
        LitModelView::MLitUint(s) => LitModelView::MLitUint(SlotView::empty(s.duplicate)),
        LitModelView::MLitIntUnsuffixed(s) => LitModelView::MLitIntUnsuffixed(
            SlotView::empty(s.duplicate),
        ),
        LitModelView::MLitFloat(s) => LitModelView::MLitFloat(SlotView::empty(s.duplicate)),
        LitModelView::MLitFloatUnsuffixed(s) => LitModelView::MLitFloatUnsuffixed(
            SlotView::empty(s.duplicate),
        ),
        LitModelView::MLitNil(s) => LitModelView::MLitNil(SlotView::empty(s.duplicate)),
        LitModelView::MLitBool(s) => LitModelView::MLitBool(SlotView::empty(s.duplicate)),
    }
}

/// A schema node as it was declared: the same name, description, shape,
/// literal kind and policies, with every slot empty.
pub open spec fn declared(info: InfoView) -> InfoView
    decreases info, 1int,
{
    InfoView {
        model: match info.model {
            ModelView::UnitValue(s) => ModelView::UnitValue(SlotView::empty(s.duplicate)),
            ModelView::KeyValue(lit) => ModelView::KeyValue(declared_lit(lit)),
            ModelView::SubAttribute(sub) => ModelView::SubAttribute(declared_all(sub)),
        },
        ..info
    }
}

/// A schema as it was declared.
pub open spec fn declared_all(model: Seq<InfoView>) -> Seq<InfoView>
    decreases model, 0int,
{
    Seq::new(
        model.len(),
        |i: int|
            if 0 <= i < model.len() {
                declared(model[i])
            } else {
                arbitrary()
            },
    )
}

proof fn lemma_matched_model_declared(info: InfoView, item: MetaItemView)
    ensures
        declared(matched_model(info, item).0) == declared(info),
    decreases item, 0int,
{
    match (info.model, item.node) {
        (ModelView::SubAttribute(sub), MetaItemKindView::MetaList(_, list)) => {
            matching_keeps_declaration(sub, list);
        },
        _ => {},
    }
}

proof fn lemma_matched_item_declared(model: Seq<InfoView>, item: MetaItemView)
    ensures
        declared_all(matched_item(model, item).0) == declared_all(model),
    decreases item, 1int,
{
    if has_name(model, item.name()) {
        lemma_has_first(model, item.name());
        let i = position(model, item.name());
        lemma_matched_model_declared(model[i], item);
        assert(declared_all(matched_item(model, item).0) =~= declared_all(model));
    }
}

proof fn lemma_matched_prefix_declared(model: Seq<InfoView>, items: Seq<MetaItemView>, n: nat)
    ensures
        declared_all(matched_prefix(model, items, n).0) == declared_all(model),
    decreases items, n,
{
    if n == 0 || n > items.len() {
    } else {
        lemma_matched_prefix_declared(model, items, (n - 1) as nat);
        lemma_matched_item_declared(matched_prefix(model, items, (n - 1) as nat).0, items[n - 1]);
    }
}

/// Matching changes what slots hold and nothing else: the schema that comes
/// out declares the same names in the same order, with the same shapes,
/// literal kinds and policies, at every depth.
pub proof fn matching_keeps_declaration(model: Seq<InfoView>, items: Seq<MetaItemView>)
    ensures
        declared_all(matched_all(model, items).0) == declared_all(model),
        matched_all(model, items).0.len() == model.len(),
        forall|i: int|
            0 <= i < model.len() ==> (#[trigger] matched_all(model, items).0[i]).name
                == model[i].name,
    decreases items, items.len() + 1,
{
    lemma_matched_prefix_declared(model, items, items.len());
    let out = matched_all(model, items).0;
    assert(declared_all(out).len() == out.len());
    assert forall|i: int| 0 <= i < model.len() implies (#[trigger] out[i]).name
        == model[i].name by {
        assert(declared_all(out)[i] == declared(out[i]));
        assert(declared_all(model)[i] == declared(model[i]));
    }
}

/// In a schema whose names are all different, a name is declared in one
/// place only: the node that a raw node goes to is the only node that could
/// take it.
pub proof fn unique_names_declare_once(model: Seq<InfoView>, name: Seq<char>, k: int)
    requires
        unique_names(model),
        0 <= k < model.len(),
        model[k].name == name,
    ensures
        has_name(model, name),
        position(model, name) == k,
{
    lemma_has_first(model, name);
    let p = position(model, name);
    if p < k {
        assert(model[p].name != model[k].name);
    }
    if k < p {
        assert(model[k].name != model[p].name);
    }
}

/// A node whose name the schema does not declare is dropped: the schema
/// stays as it is and exactly one error is reported, at the node.
pub proof fn unknown_name_is_one_error(model: Seq<InfoView>, item: MetaItemView)
    requires
        !has_name(model, item.name()),
    ensures
        matched_item(model, item).0 == model,
        matched_item(model, item).1 == seq![
            DiagnosticView {
                kind: DiagnosticKind::Error,
                span: item.span,
                message: unknown_attribute_message(),
            },
        ],
        matched_item(model, item).1.len() == 1,
        contains_error(matched_item(model, item).1),
{
    assert(matched_item(model, item).1[0].kind == DiagnosticKind::Error);
}

/// A duplicate report as a sequence: the report itself, as loud as the
/// policy says, then the note that points back.
pub open spec fn duplicate_pair(
    kind: DiagnosticKind,
    policy: DuplicateAttribute,
    span: Span,
    previous_span: Span,
) -> Seq<DiagnosticView> {
    seq![
        DiagnosticView { kind, span, message: duplicate_message(policy.extra_msg) },
        DiagnosticView {
            kind: DiagnosticKind::Note,
            span: previous_span,
            message: previous_message(),
        },
    ]
}

/// What a duplicate costs under each level: nothing when silent; exactly
/// one warning and one note under `Warn`; exactly one error and one note
/// under `Error`, and then the log contains an error.
pub proof fn duplicate_report_by_level(policy: DuplicateAttribute, span: Span, previous_span: Span)
    ensures
        policy.level == CompileErrorLevel::Silent ==> policy.report(span, previous_span)
            == Seq::<DiagnosticView>::empty(),
        policy.level == CompileErrorLevel::Warn ==> policy.report(span, previous_span)
            == duplicate_pair(DiagnosticKind::Warning, policy, span, previous_span),
        policy.level == CompileErrorLevel::Error ==> policy.report(span, previous_span)
            == duplicate_pair(DiagnosticKind::Error, policy, span, previous_span),
        policy.level == CompileErrorLevel::Error <==> contains_error(
            policy.report(span, previous_span),
        ),
{
    let report = policy.report(span, previous_span);
    match policy.level {
        CompileErrorLevel::Silent => {},
        CompileErrorLevel::Warn => {
            assert(report =~= duplicate_pair(DiagnosticKind::Warning, policy, span, previous_span));
        },
        CompileErrorLevel::Error => {
            assert(report =~= duplicate_pair(DiagnosticKind::Error, policy, span, previous_span));
            assert(report[0].kind == DiagnosticKind::Error);
        },
    }
}

/// The first write wins. Writing an empty slot twice leaves what the first
/// write left; the first write reports nothing, and the second reports one
/// duplicate at its own place with the note at the place of the first.
pub proof fn first_write_wins<V>(slot: SlotView<V>, v1: V, sp1: Span, v2: V, sp2: Span)
    requires
        slot.value is None,
    ensures
        slot.update_report(sp1) == Seq::<DiagnosticView>::empty(),
        slot.updated(v1, sp1).value == Some(v1),
        slot.updated(v1, sp1).span == sp1,
        slot.updated(v1, sp1).updated(v2, sp2) == slot.updated(v1, sp1),
        slot.updated(v1, sp1).update_report(sp2) == slot.duplicate.report(sp2, sp1),
{
}

/// Whether `needle` stands somewhere in `text`.
pub open spec fn occurs_in(needle: Seq<char>, text: Seq<char>) -> bool {
    exists|i: int|
        0 <= i && i + needle.len() <= text.len() && #[trigger] text.subrange(
            i,
            i + needle.len(),
        ) == needle
}

proof fn lemma_occurs_between(before: Seq<char>, needle: Seq<char>, after: Seq<char>)
    ensures
        occurs_in(needle, before + needle + after),
{
    let text = before + needle + after;
    let i = before.len() as int;
    assert(text.subrange(i, i + needle.len()) =~= needle);
}

/// The report of a literal of the wrong kind shows, for the kind that was
/// declared and for the kind that was found, its name and its example.
pub proof fn mismatch_message_shows_both_kinds(expected: LitTypePrinter, found: LitTypePrinter)
    ensures
        occurs_in(expected.display_name(), lit_mismatch_message(expected, found)),
        occurs_in(expected.example(), lit_mismatch_message(expected, found)),
        occurs_in(found.display_name(), lit_mismatch_message(expected, found)),
        occurs_in(found.example(), lit_mismatch_message(expected, found)),
{
    let msg = lit_mismatch_message(expected, found);
    let a = "Expected "@;
    let b = " literal (e.g. `key = "@;
    let c = "`) but got "@;
    let d = "`)."@;
    let en = expected.display_name();
    let ee = expected.example();
    let fnm = found.display_name();
    let fe = found.example();
    lemma_occurs_between(a, en, b + ee + c + fnm + b + fe + d);
    assert(msg =~= a + en + (b + ee + c + fnm + b + fe + d));
    lemma_occurs_between(a + en + b, ee, c + fnm + b + fe + d);
    assert(msg =~= (a + en + b) + ee + (c + fnm + b + fe + d));
    lemma_occurs_between(a + en + b + ee + c, fnm, b + fe + d);
    assert(msg =~= (a + en + b + ee + c) + fnm + (b + fe + d));
    lemma_occurs_between(a + en + b + ee + c + fnm + b, fe, d);
    assert(msg =~= (a + en + b + ee + c + fnm + b) + fe + d);
}

/// The place that a raw node's value is found at: the literal of a
/// `name = literal` node, else the node itself.
pub open spec fn value_place(item: MetaItemView) -> Span {
    match item.node {
        MetaItemKindView::MetaNameValue(_, lit) => lit.span,
        _ => item.span,
    }
}

/// Whether `info` is a presence or literal slot that holds nothing, under
/// `policy`, and `item` has the shape and kind that it declares.
pub open spec fn offers_to_empty(
    info: InfoView,
    policy: DuplicateAttribute,
    item: MetaItemView,
) -> bool {
    match (info.model, item.node) {
        (ModelView::UnitValue(s), MetaItemKindView::MetaWord(_)) => s.value is None && s.duplicate
            == policy,
        (ModelView::KeyValue(slot), MetaItemKindView::MetaNameValue(_, lit)) => !slot.is_filled()
            && slot.policy() == policy && slot.kind() == lit.node.kind(),
        _ => false,
    }
}

/// Of two nodes with one name, the first is kept. Where both fit an empty
/// presence or literal slot, the first fills it silently; the second leaves
/// the schema as it is and reports one duplicate under the slot's policy,
/// at its own value, with the note at the value of the first. Under `Warn`
/// that is exactly one warning and one note; under `Error` the log then
/// contains an error.
pub proof fn repeated_node_keeps_first(
    model: Seq<InfoView>,
    policy: DuplicateAttribute,
    first: MetaItemView,
    second: MetaItemView,
)
    requires
        has_name(model, first.name()),
        second.name() == first.name(),
        offers_to_empty(model[position(model, first.name())], policy, first),
        offers_to_empty(model[position(model, first.name())], policy, second),
    ensures
        matched_item(model, first).1 == Seq::<DiagnosticView>::empty(),
        has_name(matched_item(model, first).0, first.name()),
        holds(matched_item(model, first).0[position(model, first.name())], first),
        matched_item(matched_item(model, first).0, second).0 == matched_item(model, first).0,
        matched_item(matched_item(model, first).0, second).1 == policy.report(
            value_place(second),
            value_place(first),
        ),
        policy.level == CompileErrorLevel::Warn ==> matched_item(
            matched_item(model, first).0,
            second,
        ).1 == duplicate_pair(
            DiagnosticKind::Warning,
            policy,
            value_place(second),
            value_place(first),
        ),
        policy.level == CompileErrorLevel::Error ==> contains_error(
            matched_item(matched_item(model, first).0, second).1,
        ),
{
    duplicate_report_by_level(policy, value_place(second), value_place(first));
    let name = first.name();
    lemma_has_first(model, name);
    let p = position(model, name);
    let once = matched_item(model, first);
    assert(once.0 == model.update(p, matched_model(model[p], first).0));
    lemma_same_names(once.0, model, name);
    assert(position(once.0, name) == p);
    let twice = matched_item(once.0, second);
    assert(twice.0 == once.0.update(p, matched_model(once.0[p], second).0));
    assert(matched_model(once.0[p], second).0 == once.0[p]);
    assert(twice.0 =~= once.0);
}

/// Whether the literal slot holds exactly the literal: its decoded value,
/// found at the literal's place.
pub open spec fn lit_holds(slot: LitModelView, lit: LitView) -> bool {
    match (slot, lit.node) {
        (LitModelView::MLitStr(s), LitKindView::LitStr(v, style)) => s.value == Some((v, style))
            && s.span == lit.span,
        (LitModelView::MLitBinary(s), LitKindView::LitBinary(v)) => s.value == Some(v) && s.span
            == lit.span,
        (LitModelView::MLitByte(s), LitKindView::LitByte(v)) => s.value == Some(v) && s.span
            == lit.span,
        (LitModelView::MLitChar(s), LitKindView::LitChar(v)) => s.value == Some(v) && s.span
            == lit.span,
        (LitModelView::MLitInt(s), LitKindView::LitInt(v, ty)) => s.value == Some((v, ty))
            && s.span == lit.span,
        (LitModelView::MLitUint(s), LitKindView::LitUint(v, ty)) => s.value == Some((v, ty))
            && s.span == lit.span,
        (LitModelView::MLitIntUnsuffixed(s), LitKindView::LitIntUnsuffixed(v)) => s.value == Some(v)
            && s.span == lit.span,
        (LitModelView::MLitFloat(s), LitKindView::LitFloat(v, ty)) => s.value == Some((v, ty))
            && s.span == lit.span,
        (LitModelView::MLitFloatUnsuffixed(s), LitKindView::LitFloatUnsuffixed(v)) => s.value
            == Some(v) && s.span == lit.span,
        (LitModelView::MLitNil(s), LitKindView::LitNil) => s.value == Some(()) && s.span
            == lit.span,
        (LitModelView::MLitBool(s), LitKindView::LitBool(v)) => s.value == Some(v) && s.span
            == lit.span,
        _ => false,
    }
}

/// Whether no slot of the node holds a value, at any depth.
pub open spec fn all_empty(info: InfoView) -> bool
    decreases info,
{
    match info.model {
        ModelView::UnitValue(s) => s.value is None,
        ModelView::KeyValue(lit) => !lit.is_filled(),
        ModelView::SubAttribute(sub) => forall|i: int|
            0 <= i < sub.len() ==> all_empty(#[trigger] sub[i]),
    }
}

/// Whether the raw node has the shape that the schema node declares: a bare
/// word for a presence slot, a literal of the declared kind for a literal
/// slot, a conforming list for a nested schema.
pub open spec fn fits(info: InfoView, item: MetaItemView) -> bool
    decreases item, 0int,
{
    match (info.model, item.node) {
        (ModelView::UnitValue(_), MetaItemKindView::MetaWord(_)) => true,
        (ModelView::KeyValue(slot), MetaItemKindView::MetaNameValue(_, lit)) => slot.kind()
            == lit.node.kind(),
        (ModelView::SubAttribute(sub), MetaItemKindView::MetaList(_, list)) => conforms(sub, list),
        _ => false,
    }
}

/// Whether every node of `items` is declared by `model` and fits its
/// declaration, and no two of them have the same name; the same at every
/// depth.
pub open spec fn conforms(model: Seq<InfoView>, items: Seq<MetaItemView>) -> bool
    decreases items, 1int,
{
    &&& forall|i: int|
        0 <= i < items.len() ==> has_name(model, (#[trigger] items[i]).name()) && fits(
            model[position(model, items[i].name())],
            items[i],
        )
    &&& forall|i: int, j: int|
        0 <= i < j < items.len() ==> (#[trigger] items[i]).name() != (#[trigger] items[j]).name()
}

/// Whether the schema node holds exactly what the raw node carries.
pub open spec fn holds(info: InfoView, item: MetaItemView) -> bool
    decreases item, 0int,
{
    match (info.model, item.node) {
        (ModelView::UnitValue(s), MetaItemKindView::MetaWord(_)) => s.value == Some(()) && s.span
            == item.span,
        (ModelView::KeyValue(slot), MetaItemKindView::MetaNameValue(_, lit)) => lit_holds(
            slot,
            lit,
        ),
        (ModelView::SubAttribute(sub), MetaItemKindView::MetaList(_, list)) => reflects(sub, list),
        _ => false,
    }
}

/// Whether, for every node of `items`, the schema node of its name holds
/// exactly what the node carries; the same at every depth.
pub open spec fn reflects(model: Seq<InfoView>, items: Seq<MetaItemView>) -> bool
    decreases items, 1int,
{
    forall|i: int|
        0 <= i < items.len() ==> has_name(model, (#[trigger] items[i]).name()) && holds(
            model[position(model, items[i].name())],
            items[i],
        )
}

/// Whether one of the first `n` nodes of `items` is called `name`.
spec fn named_before(items: Seq<MetaItemView>, n: int, name: Seq<char>) -> bool {
    exists|i: int| 0 <= i < n && i < items.len() && (#[trigger] items[i]).name() == name
}

/// Two schemas with the same names in the same places find every name in
/// the same place.
proof fn lemma_same_names(a: Seq<InfoView>, b: Seq<InfoView>, name: Seq<char>)
    requires
        a.len() == b.len(),
        forall|k: int| 0 <= k < a.len() ==> (#[trigger] a[k]).name == b[k].name,
    ensures
        has_name(a, name) == has_name(b, name),
        has_name(a, name) ==> position(a, name) == position(b, name),
{
    if has_name(a, name) {
        lemma_has_first(a, name);
        let i = position(a, name);
        assert(b[i].name == name);
        assert forall|j: int| 0 <= j < i implies (#[trigger] b[j]).name != name by {
            assert(a[j].name != name);
        }
        lemma_position(b, name, i);
    }
    if has_name(b, name) {
        lemma_has_first(b, name);
        let i = position(b, name);
        assert(a[i].name == name);
    }
}

proof fn lemma_fitting_node_is_held(info: InfoView, item: MetaItemView)
    requires
        all_empty(info),
        fits(info, item),
    ensures
        matched_model(info, item).1 == Seq::<DiagnosticView>::empty(),
        holds(matched_model(info, item).0, item),
        matched_model(info, item).0.name == info.name,
    decreases item, 0int,
{
    match (info.model, item.node) {
        (ModelView::SubAttribute(sub), MetaItemKindView::MetaList(_, list)) => {
            conforming_nodes_fill_their_slots(sub, list);
        },
        _ => {},
    }
}

proof fn lemma_conforming_prefix(model: Seq<InfoView>, items: Seq<MetaItemView>, n: nat)
    requires
        forall|k: int| 0 <= k < model.len() ==> all_empty(#[trigger] model[k]),
        conforms(model, items),
        n <= items.len(),
    ensures
        matched_prefix(model, items, n).1 == Seq::<DiagnosticView>::empty(),
        matched_prefix(model, items, n).0.len() == model.len(),
        forall|k: int|
            0 <= k < model.len() ==> (#[trigger] matched_prefix(model, items, n).0[k]).name
                == model[k].name,
        forall|i: int|
            0 <= i < n ==> holds(
                matched_prefix(model, items, n).0[position(model, (#[trigger] items[i]).name())],
                items[i],
            ),
        forall|k: int|
            0 <= k < model.len() && !named_before(items, n as int, (#[trigger] model[k]).name)
                ==> matched_prefix(model, items, n).0[k] == model[k],
    decreases items, n,
{
    if n == 0 {
    } else {
        let before = matched_prefix(model, items, (n - 1) as nat);
        let item = items[n - 1];
        let name = item.name();
        lemma_conforming_prefix(model, items, (n - 1) as nat);
        lemma_same_names(before.0, model, name);
        lemma_has_first(model, name);
        let p = position(model, name);
        if named_before(items, n - 1, name) {
            let i = choose|i: int|
                0 <= i < n - 1 && i < items.len() && (#[trigger] items[i]).name() == name;
            assert(items[i].name() != items[n - 1].name());
        }
        assert(before.0[p] == model[p]);
        lemma_fitting_node_is_held(model[p], item);
        let after = matched_prefix(model, items, n);
        assert(has_name(before.0, name));
        assert(position(before.0, name) == p);
        assert(after.0 == matched_item(before.0, item).0);
        assert(after.0 == before.0.update(p, matched_model(model[p], item).0));
        assert(after.1 =~= Seq::<DiagnosticView>::empty());
        assert forall|i: int| 0 <= i < n implies holds(
            after.0[position(model, (#[trigger] items[i]).name())],
            items[i],
        ) by {
            if i < n - 1 {
                lemma_has_first(model, items[i].name());
                assert(items[i].name() != items[n - 1].name());
            }
        }
        assert forall|k: int|
            0 <= k < model.len() && !named_before(
                items,
                n as int,
                (#[trigger] model[k]).name,
            ) implies after.0[k] == model[k] by {
            assert(model[k].name != items[n - 1].name());
            if named_before(items, n - 1, model[k].name) {
                let i = choose|i: int|
                    0 <= i < n - 1 && i < items.len() && (#[trigger] items[i]).name()
                        == model[k].name;
                assert(0 <= i < n && items[i].name() == model[k].name);
            }
        }
    }
}

/// Nodes that conform to an empty schema fill it, and nothing is reported:
/// after matching, the slot of every node holds that node's decoded value
/// and place, at every depth.
pub proof fn conforming_nodes_fill_their_slots(model: Seq<InfoView>, items: Seq<MetaItemView>)
    requires
        forall|k: int| 0 <= k < model.len() ==> all_empty(#[trigger] model[k]),
        conforms(model, items),
    ensures
        matched_all(model, items).1 == Seq::<DiagnosticView>::empty(),
        reflects(matched_all(model, items).0, items),
    decreases items, items.len() + 1,
{
    lemma_conforming_prefix(model, items, items.len());
    let out = matched_all(model, items).0;
    assert forall|i: int| 0 <= i < items.len() implies has_name(
        out,
        (#[trigger] items[i]).name(),
    ) && holds(out[position(out, items[i].name())], items[i]) by {
        lemma_same_names(out, model, items[i].name());
    }
}

proof fn lemma_merged_prefix_declared(a: Seq<InfoView>, b: Seq<InfoView>, n: nat)
    requires
        declared_all(a) == declared_all(b),
        n <= a.len(),
    ensures
        a.len() == b.len(),
        forall|i: int| 0 <= i < a.len() ==> mergeable(#[trigger] a[i], b[i]),
        merged_prefix(a, b, n).0.len() == n,
        forall|i: int|
            0 <= i < n ==> declared(#[trigger] merged_prefix(a, b, n).0[i]) == declared(a[i]),
    decreases a, n,
{
    assert(declared_all(a).len() == a.len());
    assert(declared_all(b).len() == b.len());
    assert forall|i: int| 0 <= i < a.len() implies mergeable(#[trigger] a[i], b[i]) by {
        assert(declared_all(a)[i] == declared(a[i]));
        assert(declared_all(b)[i] == declared(b[i]));
        merging_keeps_declaration(a[i], b[i]);
    }
    if n > 0 {
        lemma_merged_prefix_declared(a, b, (n - 1) as nat);
        assert(declared_all(a)[n - 1] == declared(a[n - 1]));
        assert(declared_all(b)[n - 1] == declared(b[n - 1]));
        merging_keeps_declaration(a[n - 1], b[n - 1]);
    }
}

/// Two instances of one declaration can be combined, and the result is an
/// instance of that declaration too: merging changes what slots hold and
/// nothing else.
pub proof fn merging_keeps_declaration(a: InfoView, b: InfoView)
    requires
        declared(a) == declared(b),
    ensures
        mergeable(a, b),
        declared(merged(a, b).0) == declared(a),
    decreases a, 0int,
{
    match (a.model, b.model) {
        (ModelView::SubAttribute(x), ModelView::SubAttribute(y)) => {
            lemma_merged_prefix_declared(x, y, x.len());
            assert(declared_all(merged_prefix(x, y, x.len()).0) =~= declared_all(x));
        },
        _ => {},
    }
}

/// Whether no slot is filled on both sides, place by place.
pub open spec fn disjoint(a: InfoView, b: InfoView) -> bool
    decreases a,
{
    match (a.model, b.model) {
        (ModelView::UnitValue(x), ModelView::UnitValue(y)) => !(x.value is Some && y.value is Some),
        (ModelView::KeyValue(x), ModelView::KeyValue(y)) => !(x.is_filled() && y.is_filled()),
        (ModelView::SubAttribute(x), ModelView::SubAttribute(y)) => forall|i: int|
            0 <= i < x.len() && i < y.len() ==> disjoint(#[trigger] x[i], y[i]),
        _ => true,
    }
}

/// Whether every slot of `r` is the slot of `a` where that one is filled,
/// and the slot of `b` where it is not.
pub open spec fn picks(a: InfoView, b: InfoView, r: InfoView) -> bool
    decreases a,
{
    &&& r.name == a.name
    &&& match (a.model, b.model, r.model) {
        (ModelView::UnitValue(x), ModelView::UnitValue(y), ModelView::UnitValue(z)) => {
            z == if x.value is Some {
                x
            } else {
                y
            }
        },
        (ModelView::KeyValue(x), ModelView::KeyValue(y), ModelView::KeyValue(z)) => {
            z == if x.is_filled() {
                x
            } else {
                y
            }
        },
        (
            ModelView::SubAttribute(x),
            ModelView::SubAttribute(y),
            ModelView::SubAttribute(z),
        ) => {
            &&& z.len() == x.len()
            &&& forall|i: int| 0 <= i < x.len() ==> picks(#[trigger] x[i], y[i], z[i])
        },
        _ => false,
    }
}

proof fn lemma_disjoint_prefix(a: Seq<InfoView>, b: Seq<InfoView>, n: nat)
    requires
        a.len() == b.len(),
        n <= a.len(),
        forall|i: int| 0 <= i < a.len() ==> mergeable(#[trigger] a[i], b[i]),
        forall|i: int| 0 <= i < a.len() ==> disjoint(#[trigger] a[i], b[i]),
    ensures
        merged_prefix(a, b, n).1 == Seq::<DiagnosticView>::empty(),
        merged_prefix(a, b, n).0.len() == n,
        forall|i: int| 0 <= i < n ==> picks(#[trigger] a[i], b[i], merged_prefix(a, b, n).0[i]),
    decreases a, n,
{
    if n > 0 {
        lemma_disjoint_prefix(a, b, (n - 1) as nat);
        merging_disjoint_is_silent(a[n - 1], b[n - 1]);
        assert(merged_prefix(a, b, n).1 =~= Seq::<DiagnosticView>::empty());
    }
}

/// Two instances of one declaration that never fill the same slot combine
/// without a report, and every slot of the result holds what the one filled
/// side held, with its place.
pub proof fn merging_disjoint_is_silent(a: InfoView, b: InfoView)
    requires
        mergeable(a, b),
        disjoint(a, b),
    ensures
        merged(a, b).1 == Seq::<DiagnosticView>::empty(),
        picks(a, b, merged(a, b).0),
    decreases a, 0int,
{
    match (a.model, b.model) {
        (ModelView::SubAttribute(x), ModelView::SubAttribute(y)) => {
            lemma_disjoint_prefix(x, y, x.len());
        },
        _ => {},
    }
}

/// The number of slots that hold a value, at every depth.
pub open spec fn filled_slots(info: InfoView) -> nat
    decreases info, 0int,
{
    match info.model {
        ModelView::UnitValue(s) => if s.value is Some {
            1
        } else {
            0
        },
        ModelView::KeyValue(lit) => if lit.is_filled() {
            1
        } else {
            0
        },
        ModelView::SubAttribute(sub) => filled_slots_in(sub, sub.len()),
    }
}

/// The number of slots that hold a value in the first `n` nodes of `model`.
pub open spec fn filled_slots_in(model: Seq<InfoView>, n: nat) -> nat
    decreases model, n,
{
    if n == 0 || n > model.len() {
        0
    } else {
        filled_slots_in(model, (n - 1) as nat) + filled_slots(model[n - 1])
    }
}

/// Whether no slot of the node is silent about duplicates, at any depth.
pub open spec fn reporting(info: InfoView) -> bool
    decreases info,
{
    match info.model {
        ModelView::UnitValue(s) => s.duplicate.level != CompileErrorLevel::Silent,
        ModelView::KeyValue(lit) => lit.policy().level != CompileErrorLevel::Silent,
        ModelView::SubAttribute(sub) => forall|i: int|
            0 <= i < sub.len() ==> reporting(#[trigger] sub[i]),
    }
}

/// The number of notes in a log.
pub open spec fn note_count(log: Seq<DiagnosticView>) -> nat
    decreases log.len(),
{
    if log.len() == 0 {
        0
    } else if log.last().kind == DiagnosticKind::Note {
        note_count(log.drop_last()) + 1
    } else {
        note_count(log.drop_last())
    }
}

proof fn lemma_note_count_add(a: Seq<DiagnosticView>, b: Seq<DiagnosticView>)
    ensures
        note_count(a + b) == note_count(a) + note_count(b),
    decreases b.len(),
{
    if b.len() == 0 {
        assert(a + b =~= a);
    } else {
        assert((a + b).drop_last() =~= a + b.drop_last());
        assert((a + b).last() == b.last());
        lemma_note_count_add(a, b.drop_last());
    }
}

proof fn lemma_duplicate_has_one_note(policy: DuplicateAttribute, span: Span, previous: Span)
    requires
        policy.level != CompileErrorLevel::Silent,
    ensures
        policy.report(span, previous).len() == 2,
        note_count(policy.report(span, previous)) == 1,
{
    let report = policy.report(span, previous);
    let head = policy.level.report(span, duplicate_message(policy.extra_msg));
    assert(report.drop_last() =~= head);
    assert(head.len() == 1);
    assert(head.last().kind != DiagnosticKind::Note);
    assert(head.drop_last().len() == 0);
    assert(note_count(head.drop_last()) == 0);
    assert(note_count(head) == 0);
}

proof fn lemma_self_prefix(a: Seq<InfoView>, n: nat)
    requires
        n <= a.len(),
    ensures
        forall|i: int| 0 <= i < a.len() ==> mergeable(#[trigger] a[i], a[i]),
        merged_prefix(a, a, n).0 == a.take(n as int),
        merged_prefix(a, a, n).1.len() == 2 * filled_slots_in(a, n) || exists|i: int|
            0 <= i < a.len() && !reporting(#[trigger] a[i]),
        note_count(merged_prefix(a, a, n).1) == filled_slots_in(a, n) || exists|i: int|
            0 <= i < a.len() && !reporting(#[trigger] a[i]),
    decreases a, n,
{
    assert forall|i: int| 0 <= i < a.len() implies mergeable(#[trigger] a[i], a[i]) by {
        merging_with_itself(a[i]);
    }
    if n == 0 {
        assert(merged_prefix(a, a, n).0 =~= a.take(n as int));
    } else {
        lemma_self_prefix(a, (n - 1) as nat);
        merging_with_itself(a[n - 1]);
        let before = merged_prefix(a, a, (n - 1) as nat);
        let last = merged(a[n - 1], a[n - 1]);
        assert(merged_prefix(a, a, n).0 =~= a.take(n as int));
        lemma_note_count_add(before.1, last.1);
    }
}

/// A node combines with itself into itself. Where none of its slots is
/// silent, that reports one duplicate and one note for each slot that holds
/// a value, and nothing else.
pub proof fn merging_with_itself(a: InfoView)
    ensures
        mergeable(a, a),
        merged(a, a).0 == a,
        reporting(a) ==> merged(a, a).1.len() == 2 * filled_slots(a),
        reporting(a) ==> note_count(merged(a, a).1) == filled_slots(a),
    decreases a, 0int,
{
    match a.model {
        ModelView::UnitValue(s) => {
            if reporting(a) && s.value is Some {
                lemma_duplicate_has_one_note(s.duplicate, s.span, s.span);
            }
        },
        ModelView::KeyValue(lit) => {
            if reporting(a) && lit.is_filled() {
                lemma_lit_self_report(lit);
            }
        },
        ModelView::SubAttribute(x) => {
            lemma_self_prefix(x, x.len());
            assert(x.take(x.len() as int) =~= x);
        },
    }
}

proof fn lemma_lit_self_report(lit: LitModelView)
    requires
        lit.is_filled(),
        lit.policy().level != CompileErrorLevel::Silent,
    ensures
        merged_lit(lit, lit).1.len() == 2,
        note_count(merged_lit(lit, lit).1) == 1,
{
    match lit {
        LitModelView::MLitStr(s) => lemma_duplicate_has_one_note(s.duplicate, s.span, s.span),
        LitModelView::MLitBinary(s) => lemma_duplicate_has_one_note(s.duplicate, s.span, s.span),
        LitModelView::MLitByte(s) => lemma_duplicate_has_one_note(s.duplicate, s.span, s.span),
        LitModelView::MLitChar(s) => lemma_duplicate_has_one_note(s.duplicate, s.span, s.span),
        LitModelView::MLitInt(s) => lemma_duplicate_has_one_note(s.duplicate, s.span, s.span),
        LitModelView::MLitUint(s) => lemma_duplicate_has_one_note(s.duplicate, s.span, s.span),
        LitModelView::MLitIntUnsuffixed(s) => lemma_duplicate_has_one_note(
            s.duplicate,
            s.span,
            s.span,
        ),
        LitModelView::MLitFloat(s) => lemma_duplicate_has_one_note(s.duplicate, s.span, s.span),
        LitModelView::MLitFloatUnsuffixed(s) => lemma_duplicate_has_one_note(
            s.duplicate,
            s.span,
            s.span,
        ),
        LitModelView::MLitNil(s) => lemma_duplicate_has_one_note(s.duplicate, s.span, s.span),
        LitModelView::MLitBool(s) => lemma_duplicate_has_one_note(s.duplicate, s.span, s.span),
    }
}

} // verus!
