//! Reading a populated schema by attribute name.

use vstd::prelude::*;
use crate::model::{
    array_view, has_name, is_first, lemma_position, node_of, position, AttributeArray,
    AttributeInfo, AttributeLitModel, AttributeValue, LitModelView, ModelView,
};
use crate::ast::StrStyle;

verus! {

/// The first place where `array` declares `name`, or `None` where it does
/// not declare it.
pub fn find(array: &AttributeArray, name: &String) -> (r: Option<usize>)
    ensures
        match r {
            Some(i) => is_first(array_view(array@), name@, i as int),
            None => !has_name(array_view(array@), name@),
        },
{
    let mut i: usize = 0;
    while i < array.len()
        invariant
            i <= array@.len(),
            forall|j: int| 0 <= j < i ==> (#[trigger] array_view(array@)[j]).name != name@,
        decreases array@.len() - i,
    {
        if array[i].name == *name {
            return Some(i);
        }
        i = i + 1;
    }
    None
}

/// The node that declares `name`.
pub fn by_name<'a>(array: &'a AttributeArray, name: &'static str) -> (r: &'a AttributeInfo)
    requires
        has_name(array_view(array@), name@),
    ensures
        r@ == node_of(array_view(array@), name@),
        is_first(array_view(array@), name@, position(array_view(array@), name@)),
{
    let interned = name.to_owned();
    match find(array, &interned) {
        Some(i) => {
            proof {
                lemma_position(array_view(array@), name@, i as int);
            }
            &array[i]
        },
        None => unreached(),
    }
}

/// The slot of the bare-word attribute `name`.
pub fn plain_value<'a>(array: &'a AttributeArray, name: &'static str) -> (r: &'a AttributeValue<()>)
    requires
        has_name(array_view(array@), name@),
        node_of(array_view(array@), name@).model is UnitValue,
    ensures
        node_of(array_view(array@), name@).model == ModelView::UnitValue(r@),
{
    by_name(array, name).plain_value()
}

/// The nested schema of the attribute `name`.
pub fn sub_model<'a>(array: &'a AttributeArray, name: &'static str) -> (r: &'a AttributeArray)
    requires
        has_name(array_view(array@), name@),
        node_of(array_view(array@), name@).model is SubAttribute,
    ensures
        node_of(array_view(array@), name@).model == ModelView::SubAttribute(
            array_view(r@),
        ),
{
    by_name(array, name).sub_model()
}

/// The slot of the string attribute `name`.
pub fn lit_str<'a>(array: &'a AttributeArray, name: &'static str) -> (r: &'a AttributeValue<
    (String, StrStyle),
>)
    requires
        has_name(array_view(array@), name@),
        node_of(array_view(array@), name@).model is KeyValue,
        node_of(array_view(array@), name@).model->KeyValue_0 is MLitStr,
    ensures
        node_of(array_view(array@), name@).model == ModelView::KeyValue(
            LitModelView::MLitStr(r@),
        ),
{
    match by_name(array, name).key_value() {
        AttributeLitModel::MLitStr(val) => val,
        _ => unreached(),
    }
}

/// Whether the bare-word attribute `name` was given, or `def` where it was
/// not.
pub fn plain_value_or(array: &AttributeArray, name: &'static str, def: bool) -> (r: bool)
    requires
        has_name(array_view(array@), name@),
        node_of(array_view(array@), name@).model is UnitValue,
    ensures
        r == (node_of(array_view(array@), name@).model->UnitValue_0.value is Some || def),
{
    if plain_value(array, name).has_value() {
        true
    } else {
        def
    }
}

} // verus!
