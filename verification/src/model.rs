//! The declared shape of an attribute list: slots, literal kinds, models and
//! the schema nodes that carry them.

use vstd::prelude::*;
use crate::ast::{FloatTy, IntTy, LitKind, LitKindView, StrStyle, UintTy};
use crate::diagnostic::{CompileErrorLevel, Diagnostics, DiagnosticView, DuplicateAttribute, Span};

verus! {

/// A slot that is written once: the value, where it was found, and what to
/// do when a second value arrives.
#[derive(Clone, Debug)]
pub struct AttributeValue<T> {
    pub value: Option<T>,
    pub span: Span,
    pub duplicate: DuplicateAttribute,
}

/// A slot whose value is taken by its view.
pub ghost struct SlotView<V> {
    pub value: Option<V>,
    pub span: Span,
    pub duplicate: DuplicateAttribute,
}

impl<V> SlotView<V> {
    /// The slot that holds nothing.
    pub open spec fn empty(duplicate: DuplicateAttribute) -> SlotView<V> {
        SlotView { value: None, span: Span::spec_dummy(), duplicate }
    }

    /// The slot after a write: the first value stays.
    pub open spec fn updated(self, value: V, span: Span) -> SlotView<V> {
        if self.value is Some {
            self
        } else {
            SlotView { value: Some(value), span, duplicate: self.duplicate }
        }
    }

    /// What a write at `span` reports: where the slot is full, a duplicate
    /// at `span` with the note at the place of the value that stays.
    pub open spec fn update_report(self, span: Span) -> Seq<DiagnosticView> {
        if self.value is Some {
            self.duplicate.report(span, self.span)
        } else {
            Seq::empty()
        }
    }

    /// Two slots of one declaration combined: `self` stays where it is full.
    pub open spec fn merged(self, other: SlotView<V>) -> SlotView<V> {
        if self.value is Some {
            self
        } else {
            other
        }
    }

    /// What combining reports: where both slots are full, a duplicate at
    /// the place of `self`'s value with the note at the place of `other`'s,
    /// under the policy of `self`.
    pub open spec fn merge_report(self, other: SlotView<V>) -> Seq<DiagnosticView> {
        if self.value is Some && other.value is Some {
            self.duplicate.report(self.span, other.span)
        } else {
            Seq::empty()
        }
    }
}

impl<T: View> View for AttributeValue<T> {
    type V = SlotView<T::V>;

    open spec fn view(&self) -> SlotView<T::V> {
        SlotView {
            value: match self.value {
                Some(v) => Some(v@),
                None => None,
            },
            span: self.span,
            duplicate: self.duplicate,
        }
    }
}

impl<T: View> AttributeValue<T> {
    /// An empty slot under the policy `duplicate`.
    pub fn new(duplicate: DuplicateAttribute) -> (r: AttributeValue<T>)
        ensures
            r@ == SlotView::<T::V>::empty(duplicate),
    {
        AttributeValue { value: None, span: Span::dummy(), duplicate }
    }

    /// An empty slot that warns on a duplicate.
    pub fn simple() -> (r: AttributeValue<T>)
        ensures
            r@ == SlotView::<T::V>::empty(
                DuplicateAttribute { level: CompileErrorLevel::Warn, extra_msg: None },
            ),
    {
        AttributeValue::new(DuplicateAttribute::simple(CompileErrorLevel::Warn))
    }

    /// Writes `value`, found at `span`. A full slot keeps what it has and
    /// reports the duplicate at `span`, pointing back at the first value.
    pub fn update(self, cx: &mut Diagnostics, value: T, span: Span) -> (r: AttributeValue<T>)
        ensures
            r@ == self@.updated(value@, span),
            final(cx)@ == old(cx)@ + self@.update_report(span),
    {
        let mut this = self;
        if this.value.is_some() {
            this.duplicate.issue(cx, span, this.span);
        } else {
            this.value = Some(value);
            this.span = span;
            assert(cx@ =~= old(cx)@ + self@.update_report(span));
        }
        this
    }

    /// Whether the slot holds a value.
    pub fn has_value(&self) -> (r: bool)
        ensures
            r == (self@.value is Some),
    {
        self.value.is_some()
    }

    /// The value held, or `default` where the slot is empty.
    pub fn value_or(&self, default: T) -> (r: T) where T: Clone
        ensures
            self.value is None ==> r == default,
            self.value is Some ==> cloned(self.value->0, r),
    {
        match &self.value {
            None => default,
            Some(value) => value.clone(),
        }
    }

    /// Where the value was found; the dummy location while the slot is empty.
    pub fn span(&self) -> (r: Span)
        ensures
            r == self@.span,
    {
        self.span
    }
}

/// A literal kind, as named in messages.
#[derive(Clone, Copy, Debug, PartialEq, Eq, Structural)]
pub enum LitTypePrinter {
    PLitStr,
    PLitBinary,
    PLitByte,
    PLitChar,
    PLitInt,
    PLitUint,
    PLitIntUnsuffixed,
    PLitFloat,
    PLitFloatUnsuffixed,
    PLitNil,
    PLitBool,
}

impl LitTypePrinter {
    /// The kind's display name.
    pub open spec fn display_name(self) -> Seq<char> {
        match self {
            LitTypePrinter::PLitStr => "string"@,
            LitTypePrinter::PLitBinary => "binary"@,
            LitTypePrinter::PLitByte => "byte"@,
            LitTypePrinter::PLitChar => "char"@,
            LitTypePrinter::PLitInt => "int"@,
            LitTypePrinter::PLitUint => "unsigned int"@,
            LitTypePrinter::PLitIntUnsuffixed => "unsuffixed int"@,
            LitTypePrinter::PLitFloat => "float"@,
            LitTypePrinter::PLitFloatUnsuffixed => "unsuffixed float"@,
            LitTypePrinter::PLitNil => "nil"@,
            LitTypePrinter::PLitBool => "boolean"@,
        }
    }

    /// One literal of the kind, as it is written in source.
    pub open spec fn example(self) -> Seq<char> {
        match self {
            LitTypePrinter::PLitStr => "\"hello world\""@,
            LitTypePrinter::PLitBinary => "0b01010101"@,
            LitTypePrinter::PLitByte => "b'9'"@,
            LitTypePrinter::PLitChar => "'a'"@,
            LitTypePrinter::PLitInt => "38"@,
            LitTypePrinter::PLitUint => "38u"@,
            LitTypePrinter::PLitIntUnsuffixed => "38"@,
            LitTypePrinter::PLitFloat => "0.01f32"@,
            LitTypePrinter::PLitFloatUnsuffixed => "0.1"@,
            LitTypePrinter::PLitNil => "()"@,
            LitTypePrinter::PLitBool => "true"@,
        }
    }

    /// The kind's display name.
    pub fn type_to_str(&self) -> (r: &'static str)
        ensures
            r@ == self.display_name(),
    {
        match *self {
            LitTypePrinter::PLitStr => "string",
            LitTypePrinter::PLitBinary => "binary",
            LitTypePrinter::PLitByte => "byte",
            LitTypePrinter::PLitChar => "char",
            LitTypePrinter::PLitInt => "int",
            LitTypePrinter::PLitUint => "unsigned int",
            LitTypePrinter::PLitIntUnsuffixed => "unsuffixed int",
            LitTypePrinter::PLitFloat => "float",
            LitTypePrinter::PLitFloatUnsuffixed => "unsuffixed float",
            LitTypePrinter::PLitNil => "nil",
            LitTypePrinter::PLitBool => "boolean",
        }
    }

    /// One literal of the kind, as it is written in source.
    pub fn type_example_to_str(&self) -> (r: &'static str)
        ensures
            r@ == self.example(),
    {
        match *self {
            LitTypePrinter::PLitStr => "\"hello world\"",
            LitTypePrinter::PLitBinary => "0b01010101",
            LitTypePrinter::PLitByte => "b'9'",
            LitTypePrinter::PLitChar => "'a'",
            LitTypePrinter::PLitInt => "38",
            LitTypePrinter::PLitUint => "38u",
            LitTypePrinter::PLitIntUnsuffixed => "38",
            LitTypePrinter::PLitFloat => "0.01f32",
            LitTypePrinter::PLitFloatUnsuffixed => "0.1",
            LitTypePrinter::PLitNil => "()",
            LitTypePrinter::PLitBool => "true",
        }
    }
}

impl LitKindView {
    /// The kind of a raw literal.
    pub open spec fn kind(self) -> LitTypePrinter {
        match self {
            LitKindView::LitStr(_, _) => LitTypePrinter::PLitStr,
            LitKindView::LitBinary(_) => LitTypePrinter::PLitBinary,
            LitKindView::LitByte(_) => LitTypePrinter::PLitByte,
            LitKindView::LitChar(_) => LitTypePrinter::PLitChar,
            LitKindView::LitInt(_, _) => LitTypePrinter::PLitInt,
            LitKindView::LitUint(_, _) => LitTypePrinter::PLitUint,
            LitKindView::LitIntUnsuffixed(_) => LitTypePrinter::PLitIntUnsuffixed,
            LitKindView::LitFloat(_, _) => LitTypePrinter::PLitFloat,
            LitKindView::LitFloatUnsuffixed(_) => LitTypePrinter::PLitFloatUnsuffixed,
            LitKindView::LitNil => LitTypePrinter::PLitNil,
            LitKindView::LitBool(_) => LitTypePrinter::PLitBool,
        }
    }
}

/// The kind of a raw literal.
pub fn lit_to_lit_printer(lit: &LitKind) -> (r: LitTypePrinter)
    ensures
        r == lit@.kind(),
{
    match lit {
        LitKind::LitStr(_, _) => LitTypePrinter::PLitStr,
        LitKind::LitBinary(_) => LitTypePrinter::PLitBinary,
        LitKind::LitByte(_) => LitTypePrinter::PLitByte,
        LitKind::LitChar(_) => LitTypePrinter::PLitChar,
        LitKind::LitInt(_, _) => LitTypePrinter::PLitInt,
        LitKind::LitUint(_, _) => LitTypePrinter::PLitUint,
        LitKind::LitIntUnsuffixed(_) => LitTypePrinter::PLitIntUnsuffixed,
        LitKind::LitFloat(_, _) => LitTypePrinter::PLitFloat,
        LitKind::LitFloatUnsuffixed(_) => LitTypePrinter::PLitFloatUnsuffixed,
        LitKind::LitNil => LitTypePrinter::PLitNil,
        LitKind::LitBool(_) => LitTypePrinter::PLitBool,
    }
}

/// The slot of a `name = literal` attribute, typed by the literal's kind.
#[derive(Clone, Debug)]
pub enum AttributeLitModel {
    MLitStr(AttributeValue<(String, StrStyle)>),
    MLitBinary(AttributeValue<Vec<u8>>),
    MLitByte(AttributeValue<u8>),
    MLitChar(AttributeValue<char>),
    MLitInt(AttributeValue<(i64, IntTy)>),
    MLitUint(AttributeValue<(u64, UintTy)>),
    MLitIntUnsuffixed(AttributeValue<i64>),
    MLitFloat(AttributeValue<(String, FloatTy)>),
    MLitFloatUnsuffixed(AttributeValue<String>),
    MLitNil(AttributeValue<()>),
    MLitBool(AttributeValue<bool>),
}

/// A literal slot, with what it holds taken by its view.
pub ghost enum LitModelView {
    MLitStr(SlotView<(Seq<char>, StrStyle)>),
    MLitBinary(SlotView<Seq<u8>>),
    MLitByte(SlotView<u8>),
    MLitChar(SlotView<char>),
    MLitInt(SlotView<(i64, IntTy)>),
    MLitUint(SlotView<(u64, UintTy)>),
    MLitIntUnsuffixed(SlotView<i64>),
    MLitFloat(SlotView<(Seq<char>, FloatTy)>),
    MLitFloatUnsuffixed(SlotView<Seq<char>>),
    MLitNil(SlotView<()>),
    MLitBool(SlotView<bool>),
}

impl LitModelView {
    /// The kind that the slot was declared with.
    pub open spec fn kind(self) -> LitTypePrinter {
        match self {
            LitModelView::MLitStr(_) => LitTypePrinter::PLitStr,
            LitModelView::MLitBinary(_) => LitTypePrinter::PLitBinary,
            LitModelView::MLitByte(_) => LitTypePrinter::PLitByte,
            LitModelView::MLitChar(_) => LitTypePrinter::PLitChar,
            LitModelView::MLitInt(_) => LitTypePrinter::PLitInt,
            LitModelView::MLitUint(_) => LitTypePrinter::PLitUint,
            LitModelView::MLitIntUnsuffixed(_) => LitTypePrinter::PLitIntUnsuffixed,
            LitModelView::MLitFloat(_) => LitTypePrinter::PLitFloat,
            LitModelView::MLitFloatUnsuffixed(_) => LitTypePrinter::PLitFloatUnsuffixed,
            LitModelView::MLitNil(_) => LitTypePrinter::PLitNil,
            LitModelView::MLitBool(_) => LitTypePrinter::PLitBool,
        }
    }

    /// The policy that the slot was declared with.
    pub open spec fn policy(self) -> DuplicateAttribute {
        match self {
            LitModelView::MLitStr(s) => s.duplicate,
            LitModelView::MLitBinary(s) => s.duplicate,
            LitModelView::MLitByte(s) => s.duplicate,
            LitModelView::MLitChar(s) => s.duplicate,
            LitModelView::MLitInt(s) => s.duplicate,
            LitModelView::MLitUint(s) => s.duplicate,
            LitModelView::MLitIntUnsuffixed(s) => s.duplicate,
            LitModelView::MLitFloat(s) => s.duplicate,
            LitModelView::MLitFloatUnsuffixed(s) => s.duplicate,
            LitModelView::MLitNil(s) => s.duplicate,
            LitModelView::MLitBool(s) => s.duplicate,
        }
    }

    /// Whether the slot holds a value.
    pub open spec fn is_filled(self) -> bool {
        match self {
            LitModelView::MLitStr(s) => s.value is Some,
            LitModelView::MLitBinary(s) => s.value is Some,
            LitModelView::MLitByte(s) => s.value is Some,
            LitModelView::MLitChar(s) => s.value is Some,
            LitModelView::MLitInt(s) => s.value is Some,
            LitModelView::MLitUint(s) => s.value is Some,
            LitModelView::MLitIntUnsuffixed(s) => s.value is Some,
            LitModelView::MLitFloat(s) => s.value is Some,
            LitModelView::MLitFloatUnsuffixed(s) => s.value is Some,
            LitModelView::MLitNil(s) => s.value is Some,
            LitModelView::MLitBool(s) => s.value is Some,
        }
    }
}

impl View for AttributeLitModel {
    type V = LitModelView;

    open spec fn view(&self) -> LitModelView {
        match *self {
            AttributeLitModel::MLitStr(s) => LitModelView::MLitStr(s@),
            AttributeLitModel::MLitBinary(s) => LitModelView::MLitBinary(s@),
            AttributeLitModel::MLitByte(s) => LitModelView::MLitByte(s@),
            AttributeLitModel::MLitChar(s) => LitModelView::MLitChar(s@),
            AttributeLitModel::MLitInt(s) => LitModelView::MLitInt(s@),
            AttributeLitModel::MLitUint(s) => LitModelView::MLitUint(s@),
            AttributeLitModel::MLitIntUnsuffixed(s) => LitModelView::MLitIntUnsuffixed(s@),
            AttributeLitModel::MLitFloat(s) => LitModelView::MLitFloat(s@),
            AttributeLitModel::MLitFloatUnsuffixed(s) => LitModelView::MLitFloatUnsuffixed(s@),
            AttributeLitModel::MLitNil(s) => LitModelView::MLitNil(s@),
            AttributeLitModel::MLitBool(s) => LitModelView::MLitBool(s@),
        }
    }
}

impl AttributeLitModel {
    /// The kind that the slot was declared with.
    pub fn to_lit_printer(&self) -> (r: LitTypePrinter)
        ensures
            r == self@.kind(),
    {
        match self {
            AttributeLitModel::MLitStr(_) => LitTypePrinter::PLitStr,
            AttributeLitModel::MLitBinary(_) => LitTypePrinter::PLitBinary,
            AttributeLitModel::MLitByte(_) => LitTypePrinter::PLitByte,
            AttributeLitModel::MLitChar(_) => LitTypePrinter::PLitChar,
            AttributeLitModel::MLitInt(_) => LitTypePrinter::PLitInt,
            AttributeLitModel::MLitUint(_) => LitTypePrinter::PLitUint,
            AttributeLitModel::MLitIntUnsuffixed(_) => LitTypePrinter::PLitIntUnsuffixed,
            AttributeLitModel::MLitFloat(_) => LitTypePrinter::PLitFloat,
            AttributeLitModel::MLitFloatUnsuffixed(_) => LitTypePrinter::PLitFloatUnsuffixed,
            AttributeLitModel::MLitNil(_) => LitTypePrinter::PLitNil,
            AttributeLitModel::MLitBool(_) => LitTypePrinter::PLitBool,
        }
    }
}

/// What one attribute is expected to look like.
#[derive(Debug)]
pub enum AttributeModel {
    /// A bare word: present or not.
    UnitValue(AttributeValue<()>),
    /// A name with one literal.
    KeyValue(AttributeLitModel),
    /// A name with a nested list, described by a schema of its own.
    SubAttribute(AttributeArray),
}

/// One declared attribute: its name, what it is for, and its shape.
#[derive(Debug)]
pub struct AttributeInfo {
    pub name: String,
    pub desc: &'static str,
    pub model: AttributeModel,
}

/// A schema: the declared attributes, in the order of declaration.
pub type AttributeArray = Vec<AttributeInfo>;

/// A model, with its slots and nested schema taken by their views.
pub ghost enum ModelView {
    UnitValue(SlotView<()>),
    KeyValue(LitModelView),
    SubAttribute(Seq<InfoView>),
}

/// A schema node, with its texts as sequences of characters.
pub ghost struct InfoView {
    pub name: Seq<char>,
    pub desc: Seq<char>,
    pub model: ModelView,
}

/// The views of a schema's nodes, in order.
pub open spec fn array_view(array: Seq<AttributeInfo>) -> Seq<InfoView>
    decreases array, 0int,
{
    Seq::new(
        array.len(),
        |i: int|
            if 0 <= i < array.len() {
                info_view(array[i])
            } else {
                arbitrary()
            },
    )
}

/// The view of a model.
pub open spec fn model_view(model: AttributeModel) -> ModelView
    decreases model, 1int,
{
    match model {
        AttributeModel::UnitValue(slot) => ModelView::UnitValue(slot@),
        AttributeModel::KeyValue(lit) => ModelView::KeyValue(lit@),
        AttributeModel::SubAttribute(array) => ModelView::SubAttribute(array_view(array@)),
    }
}

/// The view of a schema node.
pub open spec fn info_view(info: AttributeInfo) -> InfoView
    decreases info, 2int,
{
    InfoView { name: info.name@, desc: info.desc@, model: model_view(info.model) }
}

impl View for AttributeModel {
    type V = ModelView;

    open spec fn view(&self) -> ModelView {
        model_view(*self)
    }
}

impl View for AttributeInfo {
    type V = InfoView;

    open spec fn view(&self) -> InfoView {
        info_view(*self)
    }
}

impl AttributeInfo {
    /// A node that declares `name` with the shape `model`.
    pub fn new(name: &'static str, desc: &'static str, model: AttributeModel) -> (r: AttributeInfo)
        ensures
            r@ == (InfoView { name: name@, desc: desc@, model: model@ }),
    {
        AttributeInfo { name: name.to_owned(), desc, model }
    }

    /// A bare-word attribute that warns on a duplicate.
    pub fn simple(name: &'static str, desc: &'static str) -> (r: AttributeInfo)
        ensures
            r@ == (InfoView {
                name: name@,
                desc: desc@,
                model: ModelView::UnitValue(
                    SlotView::empty(
                        DuplicateAttribute { level: CompileErrorLevel::Warn, extra_msg: None },
                    ),
                ),
            }),
    {
        AttributeInfo::new(name, desc, AttributeModel::UnitValue(AttributeValue::simple()))
    }

    /// The same node with another model.
    pub fn update(self, model: AttributeModel) -> (r: AttributeInfo)
        ensures
            r@ == (InfoView { name: self@.name, desc: self@.desc, model: model@ }),
    {
        let mut this = self;
        this.model = model;
        this
    }

    /// The slot of a bare-word attribute.
    pub fn plain_value(&self) -> (r: &AttributeValue<()>)
        requires
            self@.model is UnitValue,
        ensures
            self@.model == ModelView::UnitValue(r@),
    {
        match &self.model {
            AttributeModel::UnitValue(v) => v,
            _ => unreached(),
        }
    }

    /// The nested schema of a list attribute.
    pub fn sub_model(&self) -> (r: &AttributeArray)
        requires
            self@.model is SubAttribute,
        ensures
            self@.model == ModelView::SubAttribute(array_view(r@)),
    {
        match &self.model {
            AttributeModel::SubAttribute(array) => array,
            _ => unreached(),
        }
    }

    /// The literal slot of a `name = literal` attribute.
    pub fn key_value(&self) -> (r: &AttributeLitModel)
        requires
            self@.model is KeyValue,
        ensures
            self@.model == ModelView::KeyValue(r@),
    {
        match &self.model {
            AttributeModel::KeyValue(lit) => lit,
            _ => unreached(),
        }
    }
}

/// Whether `model` declares an attribute called `name`.
pub open spec fn has_name(model: Seq<InfoView>, name: Seq<char>) -> bool {
    exists|i: int| 0 <= i < model.len() && (#[trigger] model[i]).name == name
}

/// Whether `i` is the first place in `model` where `name` is declared.
pub open spec fn is_first(model: Seq<InfoView>, name: Seq<char>, i: int) -> bool {
    &&& 0 <= i < model.len()
    &&& model[i].name == name
    &&& forall|j: int| 0 <= j < i ==> (#[trigger] model[j]).name != name
}

/// The first place in `model` where `name` is declared, if there is one.
pub open spec fn position(model: Seq<InfoView>, name: Seq<char>) -> int {
    choose|i: int| is_first(model, name, i)
}

/// The node that a lookup of `name` in `model` finds: the first that
/// declares it.
pub open spec fn node_of(model: Seq<InfoView>, name: Seq<char>) -> InfoView {
    model[position(model, name)]
}

/// Whether no two nodes of `model` have the same name.
pub open spec fn unique_names(model: Seq<InfoView>) -> bool {
    forall|i: int, j: int|
        0 <= i < j < model.len() ==> (#[trigger] model[i]).name != (#[trigger] model[j]).name
}

/// A first place is the only first place.
pub proof fn lemma_position(model: Seq<InfoView>, name: Seq<char>, i: int)
    requires
        is_first(model, name, i),
    ensures
        has_name(model, name),
        position(model, name) == i,
{
    let p = position(model, name);
    assert(is_first(model, name, p));
    if p < i {
        assert(model[p].name != name);
    }
    if i < p {
        assert(model[i].name != name);
    }
}

/// A declared name has a first place.
pub proof fn lemma_has_first(model: Seq<InfoView>, name: Seq<char>)
    requires
        has_name(model, name),
    ensures
        is_first(model, name, position(model, name)),
    decreases model.len(),
{
    let k = choose|i: int| 0 <= i < model.len() && (#[trigger] model[i]).name == name;
    lemma_first_before(model, name, k);
}

proof fn lemma_first_before(model: Seq<InfoView>, name: Seq<char>, k: int)
    requires
        0 <= k < model.len(),
        model[k].name == name,
    ensures
        is_first(model, name, position(model, name)),
    decreases k,
{
    if forall|j: int| 0 <= j < k ==> (#[trigger] model[j]).name != name {
        assert(is_first(model, name, k));
    } else {
        let j = choose|j: int| 0 <= j < k && (#[trigger] model[j]).name == name;
        lemma_first_before(model, name, j);
    }
}

} // verus!
