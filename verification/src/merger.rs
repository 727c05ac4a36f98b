//! Combining two populated instances of one declared schema node.
//!
//! Nested schemas are combined place by place, not by name: the first node
//! of one with the first node of the other, and so on. Both sides must list
//! their nodes in the same order.

use vstd::prelude::*;
use crate::diagnostic::{Diagnostics, DiagnosticView};
use crate::model::{
    array_view, AttributeArray, AttributeInfo, AttributeLitModel, AttributeModel, AttributeValue,
    InfoView, LitModelView, ModelView,
};

verus! {

/// Two literal slots of one kind combined, and what was reported.
pub open spec fn merged_lit(a: LitModelView, b: LitModelView) -> (
    LitModelView,
    Seq<DiagnosticView>,
) {
    match (a, b) {
        (LitModelView::MLitStr(x), LitModelView::MLitStr(y)) => (
            LitModelView::MLitStr(x.merged(y)),
            x.merge_report(y),
        ),
        (LitModelView::MLitBinary(x), LitModelView::MLitBinary(y)) => (
            LitModelView::MLitBinary(x.merged(y)),
            x.merge_report(y),
        ),
        (LitModelView::MLitByte(x), LitModelView::MLitByte(y)) => (
            LitModelView::MLitByte(x.merged(y)),
            x.merge_report(y),
        ),
        (LitModelView::MLitChar(x), LitModelView::MLitChar(y)) => (
            LitModelView::MLitChar(x.merged(y)),
            x.merge_report(y),
        ),
        (LitModelView::MLitInt(x), LitModelView::MLitInt(y)) => (
            LitModelView::MLitInt(x.merged(y)),
            x.merge_report(y),
        ),
        (LitModelView::MLitUint(x), LitModelView::MLitUint(y)) => (
            LitModelView::MLitUint(x.merged(y)),
            x.merge_report(y),
        ),
        (LitModelView::MLitIntUnsuffixed(x), LitModelView::MLitIntUnsuffixed(y)) => (
            LitModelView::MLitIntUnsuffixed(x.merged(y)),
            x.merge_report(y),
        ),
        (LitModelView::MLitFloat(x), LitModelView::MLitFloat(y)) => (
            LitModelView::MLitFloat(x.merged(y)),
            x.merge_report(y),
        ),
        (LitModelView::MLitFloatUnsuffixed(x), LitModelView::MLitFloatUnsuffixed(y)) => (
            LitModelView::MLitFloatUnsuffixed(x.merged(y)),
            x.merge_report(y),
        ),
        (LitModelView::MLitNil(x), LitModelView::MLitNil(y)) => (
            LitModelView::MLitNil(x.merged(y)),
            x.merge_report(y),
        ),
        (LitModelView::MLitBool(x), LitModelView::MLitBool(y)) => (
            LitModelView::MLitBool(x.merged(y)),
            x.merge_report(y),
        ),
        _ => (a, Seq::empty()),
    }
}

/// Whether `a` and `b` are instances of one declaration: the same name, the
/// same shape, the same literal kind, and nested schemas of one length whose
/// nodes pair up in the same way.
pub open spec fn mergeable(a: InfoView, b: InfoView) -> bool
    decreases a,
{
    &&& a.name == b.name
    &&& match (a.model, b.model) {
        (ModelView::UnitValue(_), ModelView::UnitValue(_)) => true,
        (ModelView::KeyValue(x), ModelView::KeyValue(y)) => x.kind() == y.kind(),
        (ModelView::SubAttribute(x), ModelView::SubAttribute(y)) => {
            &&& x.len() == y.len()
            &&& forall|i: int| 0 <= i < x.len() ==> mergeable(#[trigger] x[i], y[i])
        },
        _ => false,
    }
}

/// Two instances of one declaration combined, and what was reported. The
/// name and description are those of `a`.
pub open spec fn merged(a: InfoView, b: InfoView) -> (InfoView, Seq<DiagnosticView>)
    decreases a, 0int,
{
    match (a.model, b.model) {
        (ModelView::UnitValue(x), ModelView::UnitValue(y)) => (
            InfoView { model: ModelView::UnitValue(x.merged(y)), ..a },
            x.merge_report(y),
        ),
        (ModelView::KeyValue(x), ModelView::KeyValue(y)) => (
            InfoView { model: ModelView::KeyValue(merged_lit(x, y).0), ..a },
            merged_lit(x, y).1,
        ),
        (ModelView::SubAttribute(x), ModelView::SubAttribute(y)) => (
            InfoView { model: ModelView::SubAttribute(merged_prefix(x, y, x.len()).0), ..a },
            merged_prefix(x, y, x.len()).1,
        ),
        _ => (a, Seq::empty()),
    }
}

/// The first `n` nodes of `a` combined with the first `n` of `b`, place by
/// place, and everything that was reported on the way.
pub open spec fn merged_prefix(a: Seq<InfoView>, b: Seq<InfoView>, n: nat) -> (
    Seq<InfoView>,
    Seq<DiagnosticView>,
)
    decreases a, n,
{
    if n == 0 || n > a.len() {
        (Seq::empty(), Seq::empty())
    } else {
        let before = merged_prefix(a, b, (n - 1) as nat);
        let last = merged(a[n - 1], b[n - 1]);
        (before.0.push(last.0), before.1 + last.1)
    }
}

/// Tells whether `info` and `info2` are instances of one declaration, that
/// is, whether `merge` accepts them.
pub fn can_merge(info: &AttributeInfo, info2: &AttributeInfo) -> (r: bool)
    ensures
        r == mergeable(info@, info2@),
    decreases info, 1int,
{
    if !(info.name == info2.name) {
        return false;
    }
    match &info.model {
        AttributeModel::UnitValue(_) => match &info2.model {
            AttributeModel::UnitValue(_) => true,
            _ => false,
        },
        AttributeModel::KeyValue(lit) => match &info2.model {
            AttributeModel::KeyValue(lit2) => lit.to_lit_printer() == lit2.to_lit_printer(),
            _ => false,
        },
        AttributeModel::SubAttribute(sub) => match &info2.model {
            AttributeModel::SubAttribute(sub2) => {
                let r = can_merge_sub_attr(sub, sub2);
                assert(array_view(sub@).len() == sub@.len());
                assert(array_view(sub2@).len() == sub2@.len());
                r
            },
            _ => false,
        },
    }
}

/// Tells whether two nested schemas have one length and pair up, place by
/// place, as instances of one declaration.
pub fn can_merge_sub_attr(sub1: &AttributeArray, sub2: &AttributeArray) -> (r: bool)
    ensures
        r == (sub1@.len() == sub2@.len() && forall|i: int|
            0 <= i < sub1@.len() ==> mergeable(
                #[trigger] array_view(sub1@)[i],
                array_view(sub2@)[i],
            )),
    decreases sub1, 0int,
{
    if sub1.len() != sub2.len() {
        return false;
    }
    let mut i: usize = 0;
    while i < sub1.len()
        invariant
            i <= sub1@.len(),
            sub1@.len() == sub2@.len(),
            forall|j: int|
                0 <= j < i ==> mergeable(#[trigger] array_view(sub1@)[j], array_view(sub2@)[j]),
        decreases sub1@.len() - i,
    {
        if !can_merge(&sub1[i], &sub2[i]) {
            assert(!mergeable(array_view(sub1@)[i as int], array_view(sub2@)[i as int]));
            return false;
        }
        i = i + 1;
    }
    true
}

/// The elements of `v`, last first.
fn reversed<T>(v: Vec<T>) -> (r: Vec<T>)
    ensures
        r@ == v@.reverse(),
{
    let mut v = v;
    let mut r: Vec<T> = Vec::new();
    let ghost all = v@;
    while v.len() > 0
        invariant
            v@ == all.take(v@.len() as int),
            v@.len() <= all.len(),
            r@ == all.skip(v@.len() as int).reverse(),
        decreases v@.len(),
    {
        let ghost n = v@.len() as int;
        match v.pop() {
            Some(x) => {
                r.push(x);
                assert(v@ =~= all.take(n - 1));
                assert(r@ =~= all.skip(n - 1).reverse());
            },
            None => {},
        }
    }
    assert(all.skip(0) =~= all);
    r
}

/// Combines populated schema nodes and collects what that reports.
pub struct AttributeMerger {
    cx: Diagnostics,
}

impl View for AttributeMerger {
    type V = Seq<DiagnosticView>;

    /// Everything reported so far, oldest first.
    closed spec fn view(&self) -> Seq<DiagnosticView> {
        self.cx@
    }
}

impl AttributeMerger {
    /// A merger that reports after what `cx` already holds.
    pub fn new(cx: Diagnostics) -> (r: AttributeMerger)
        ensures
            r@ == cx@,
    {
        AttributeMerger { cx }
    }

    /// Hands back the log.
    pub fn into_diagnostics(self) -> (r: Diagnostics)
        ensures
            r@ == self@,
    {
        self.cx
    }

    /// Combines two instances of one declaration. A slot that only one side
    /// filled takes that side's value; where both did, `info` wins and one
    /// duplicate is reported under the slot's policy.
    pub fn merge(&mut self, info: AttributeInfo, info2: AttributeInfo) -> (r: AttributeInfo)
        requires
            mergeable(info@, info2@),
        ensures
            r@ == merged(info@, info2@).0,
            final(self)@ == old(self)@ + merged(info@, info2@).1,
        decreases info, 1int,
    {
        let AttributeInfo { name, desc, model } = info;
        let model = match (model, info2.model) {
            (AttributeModel::UnitValue(val), AttributeModel::UnitValue(val2)) => {
                AttributeModel::UnitValue(self.merge_value(val, val2))
            },
            (AttributeModel::KeyValue(lit), AttributeModel::KeyValue(lit2)) => {
                AttributeModel::KeyValue(self.merge_lit(lit, lit2))
            },
            (AttributeModel::SubAttribute(sub), AttributeModel::SubAttribute(sub2)) => {
                AttributeModel::SubAttribute(self.merge_sub_attr(sub, sub2))
            },
            _ => unreached(),
        };
        AttributeInfo { name, desc, model }
    }

    /// Combines two slots of one declaration.
    pub fn merge_value<T: View>(&mut self, val: AttributeValue<T>, val2: AttributeValue<T>) -> (r:
        AttributeValue<T>)
        ensures
            r@ == val@.merged(val2@),
            final(self)@ == old(self)@ + val@.merge_report(val2@),
    {
        if val.value.is_none() {
            assert(self@ =~= old(self)@ + val@.merge_report(val2@));
            val2
        } else if val2.value.is_none() {
            assert(self@ =~= old(self)@ + val@.merge_report(val2@));
            val
        } else {
            val.duplicate.issue(&mut self.cx, val.span, val2.span);
            val
        }
    }

    /// Combines two literal slots of one kind.
    pub fn merge_lit(&mut self, lit: AttributeLitModel, lit2: AttributeLitModel) -> (r:
        AttributeLitModel)
        requires
            lit@.kind() == lit2@.kind(),
        ensures
            r@ == merged_lit(lit@, lit2@).0,
            final(self)@ == old(self)@ + merged_lit(lit@, lit2@).1,
    {
        match (lit, lit2) {
            (AttributeLitModel::MLitStr(val), AttributeLitModel::MLitStr(val2)) => {
                AttributeLitModel::MLitStr(self.merge_value(val, val2))
            },
            (AttributeLitModel::MLitBinary(val), AttributeLitModel::MLitBinary(val2)) => {
                AttributeLitModel::MLitBinary(self.merge_value(val, val2))
            },
            (AttributeLitModel::MLitByte(val), AttributeLitModel::MLitByte(val2)) => {
                AttributeLitModel::MLitByte(self.merge_value(val, val2))
            },
            (AttributeLitModel::MLitChar(val), AttributeLitModel::MLitChar(val2)) => {
                AttributeLitModel::MLitChar(self.merge_value(val, val2))
            },
            (AttributeLitModel::MLitInt(val), AttributeLitModel::MLitInt(val2)) => {
                AttributeLitModel::MLitInt(self.merge_value(val, val2))
            },
            (AttributeLitModel::MLitUint(val), AttributeLitModel::MLitUint(val2)) => {
                AttributeLitModel::MLitUint(self.merge_value(val, val2))
            },
            (
                AttributeLitModel::MLitIntUnsuffixed(val),
                AttributeLitModel::MLitIntUnsuffixed(val2),
            ) => { AttributeLitModel::MLitIntUnsuffixed(self.merge_value(val, val2)) },
            (AttributeLitModel::MLitFloat(val), AttributeLitModel::MLitFloat(val2)) => {
                AttributeLitModel::MLitFloat(self.merge_value(val, val2))
            },
            (
                AttributeLitModel::MLitFloatUnsuffixed(val),
                AttributeLitModel::MLitFloatUnsuffixed(val2),
            ) => { AttributeLitModel::MLitFloatUnsuffixed(self.merge_value(val, val2)) },
            (AttributeLitModel::MLitNil(val), AttributeLitModel::MLitNil(val2)) => {
                AttributeLitModel::MLitNil(self.merge_value(val, val2))
            },
            (AttributeLitModel::MLitBool(val), AttributeLitModel::MLitBool(val2)) => {
                AttributeLitModel::MLitBool(self.merge_value(val, val2))
            },
            _ => unreached(),
        }
    }

    /// Combines two nested schemas of one length, place by place.
    pub fn merge_sub_attr(&mut self, sub1: AttributeArray, sub2: AttributeArray) -> (r:
        AttributeArray)
        requires
            sub1@.len() == sub2@.len(),
            forall|i: int|
                0 <= i < sub1@.len() ==> mergeable(
                    #[trigger] array_view(sub1@)[i],
                    array_view(sub2@)[i],
                ),
        ensures
            array_view(r@) == merged_prefix(
                array_view(sub1@),
                array_view(sub2@),
                sub1@.len() as nat,
            ).0,
            final(self)@ == old(self)@ + merged_prefix(
                array_view(sub1@),
                array_view(sub2@),
                sub1@.len() as nat,
            ).1,
        decreases sub1, 0int,
    {
        let ghost a = array_view(sub1@);
        let ghost b = array_view(sub2@);
        let ghost log = self@;
        let n = sub1.len();
        let mut rest1 = reversed(sub1);
        let mut rest2 = reversed(sub2);
        let mut out: Vec<AttributeInfo> = Vec::new();
        assert(array_view(out@) =~= merged_prefix(a, b, 0).0);
        assert(self@ =~= log + merged_prefix(a, b, 0).1);
        while out.len() < n
            invariant
                n == sub1@.len(),
                n == sub2@.len(),
                a == array_view(sub1@),
                b == array_view(sub2@),
                out@.len() <= n,
                rest1@ == sub1@.reverse().take(n - out@.len()),
                rest2@ == sub2@.reverse().take(n - out@.len()),
                forall|i: int| 0 <= i < n ==> mergeable(#[trigger] a[i], b[i]),
                array_view(out@) == merged_prefix(a, b, out@.len() as nat).0,
                self@ == log + merged_prefix(a, b, out@.len() as nat).1,
            decreases n - out@.len(),
        {
            let ghost i = out@.len() as int;
            let ghost left = rest1@.len() as int;
            let first = rest1.pop();
            let second = rest2.pop();
            match (first, second) {
                (Some(info), Some(info2)) => {
                    assert(info == sub1@[i]);
                    assert(info2 == sub2@[i]);
                    assert(info@ == a[i]);
                    assert(info2@ == b[i]);
                    let both = self.merge(info, info2);
                    let ghost shown = array_view(out@);
                    out.push(both);
                    assert(array_view(out@) =~= shown.push(both@));
                    assert(self@ =~= log + merged_prefix(a, b, (i + 1) as nat).1);
                    assert(rest1@ =~= sub1@.reverse().take(n - out@.len()));
                    assert(rest2@ =~= sub2@.reverse().take(n - out@.len()));
                },
                _ => {
                    unreached::<()>();
                },
            }
        }
        out
    }
}

} // verus!
