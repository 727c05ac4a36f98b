//! The raw attribute nodes that the matcher walks: a bare word, a name with a
//! literal, or a name with a nested list of nodes.

use vstd::prelude::*;
use crate::diagnostic::Span;

verus! {

/// How a string literal was written.
#[derive(Clone, Copy, Debug, PartialEq, Eq, Structural)]
pub enum StrStyle {
    CookedStr,
    RawStr(usize),
}

/// The suffix of a signed integer literal.
#[derive(Clone, Copy, Debug, PartialEq, Eq, Structural)]
pub enum IntTy {
    TyI,
    TyI8,
    TyI16,
    TyI32,
    TyI64,
}

/// The suffix of an unsigned integer literal.
#[derive(Clone, Copy, Debug, PartialEq, Eq, Structural)]
pub enum UintTy {
    TyU,
    TyU8,
    TyU16,
    TyU32,
    TyU64,
}

/// The suffix of a float literal.
#[derive(Clone, Copy, Debug, PartialEq, Eq, Structural)]
pub enum FloatTy {
    TyF32,
    TyF64,
}

impl View for StrStyle {
    type V = StrStyle;

    open spec fn view(&self) -> StrStyle {
        *self
    }
}

impl View for IntTy {
    type V = IntTy;

    open spec fn view(&self) -> IntTy {
        *self
    }
}

impl View for UintTy {
    type V = UintTy;

    open spec fn view(&self) -> UintTy {
        *self
    }
}

impl View for FloatTy {
    type V = FloatTy;

    open spec fn view(&self) -> FloatTy {
        *self
    }
}

/// A literal with its decoded value. Floats keep their digits as text.
#[derive(Clone, Debug)]
pub enum LitKind {
    LitStr(String, StrStyle),
    LitBinary(Vec<u8>),
    LitByte(u8),
    LitChar(char),
    LitInt(i64, IntTy),
    LitUint(u64, UintTy),
    LitIntUnsuffixed(i64),
    LitFloat(String, FloatTy),
    LitFloatUnsuffixed(String),
    LitNil,
    LitBool(bool),
}

/// A literal with its text as sequences of characters and bytes.
pub ghost enum LitKindView {
    LitStr(Seq<char>, StrStyle),
    LitBinary(Seq<u8>),
    LitByte(u8),
    LitChar(char),
    LitInt(i64, IntTy),
    LitUint(u64, UintTy),
    LitIntUnsuffixed(i64),
    LitFloat(Seq<char>, FloatTy),
    LitFloatUnsuffixed(Seq<char>),
    LitNil,
    LitBool(bool),
}

impl View for LitKind {
    type V = LitKindView;

    open spec fn view(&self) -> LitKindView {
        match *self {
            LitKind::LitStr(s, style) => LitKindView::LitStr(s@, style),
            LitKind::LitBinary(bytes) => LitKindView::LitBinary(bytes@),
            LitKind::LitByte(b) => LitKindView::LitByte(b),
            LitKind::LitChar(c) => LitKindView::LitChar(c),
            LitKind::LitInt(n, ty) => LitKindView::LitInt(n, ty),
            LitKind::LitUint(n, ty) => LitKindView::LitUint(n, ty),
            LitKind::LitIntUnsuffixed(n) => LitKindView::LitIntUnsuffixed(n),
            LitKind::LitFloat(digits, ty) => LitKindView::LitFloat(digits@, ty),
            LitKind::LitFloatUnsuffixed(digits) => LitKindView::LitFloatUnsuffixed(digits@),
            LitKind::LitNil => LitKindView::LitNil,
            LitKind::LitBool(b) => LitKindView::LitBool(b),
        }
    }
}

/// A literal and where it stands.
#[derive(Clone, Debug)]
pub struct Lit {
    pub node: LitKind,
    pub span: Span,
}

/// A literal and where it stands.
pub ghost struct LitView {
    pub node: LitKindView,
    pub span: Span,
}

impl View for Lit {
    type V = LitView;

    open spec fn view(&self) -> LitView {
        LitView { node: self.node@, span: self.span }
    }
}

/// The three shapes of a raw node, each with the node's name.
#[derive(Debug)]
pub enum MetaItemKind {
    MetaWord(String),
    MetaList(String, Vec<MetaItem>),
    MetaNameValue(String, Lit),
}

/// A raw node and where it stands.
#[derive(Debug)]
pub struct MetaItem {
    pub node: MetaItemKind,
    pub span: Span,
}

/// The three shapes of a raw node, with names as sequences of characters.
pub ghost enum MetaItemKindView {
    MetaWord(Seq<char>),
    MetaList(Seq<char>, Seq<MetaItemView>),
    MetaNameValue(Seq<char>, LitView),
}

/// A raw node and where it stands.
pub ghost struct MetaItemView {
    pub node: MetaItemKindView,
    pub span: Span,
}

impl MetaItemView {
    /// The name that the node carries, whatever its shape.
    pub open spec fn name(self) -> Seq<char> {
        match self.node {
            MetaItemKindView::MetaWord(name) => name,
            MetaItemKindView::MetaList(name, _) => name,
            MetaItemKindView::MetaNameValue(name, _) => name,
        }
    }
}

/// The views of a list of raw nodes, in order.
pub open spec fn meta_items_view(items: Seq<MetaItem>) -> Seq<MetaItemView>
    decreases items, 0int,
{
    Seq::new(
        items.len(),
        |i: int|
            if 0 <= i < items.len() {
                meta_item_view(items[i])
            } else {
                arbitrary()
            },
    )
}

/// The view of one raw node.
pub open spec fn meta_item_view(item: MetaItem) -> MetaItemView
    decreases item, 1int,
{
    MetaItemView {
        node: match item.node {
            MetaItemKind::MetaWord(name) => MetaItemKindView::MetaWord(name@),
            MetaItemKind::MetaList(name, list) => MetaItemKindView::MetaList(
                name@,
                meta_items_view(list@),
            ),
            MetaItemKind::MetaNameValue(name, lit) => MetaItemKindView::MetaNameValue(name@, lit@),
        },
        span: item.span,
    }
}

impl View for MetaItem {
    type V = MetaItemView;

    open spec fn view(&self) -> MetaItemView {
        meta_item_view(*self)
    }
}

impl MetaItem {
    /// A bare word.
    pub fn word(name: &str, span: Span) -> (r: MetaItem)
        ensures
            r@ == (MetaItemView { node: MetaItemKindView::MetaWord(name@), span }),
    {
        MetaItem { node: MetaItemKind::MetaWord(name.to_owned()), span }
    }

    /// A name with a nested list of nodes.
    pub fn list(name: &str, items: Vec<MetaItem>, span: Span) -> (r: MetaItem)
        ensures
            r@ == (MetaItemView {
                node: MetaItemKindView::MetaList(name@, meta_items_view(items@)),
                span,
            }),
    {
        MetaItem { node: MetaItemKind::MetaList(name.to_owned(), items), span }
    }

    /// A name with a literal.
    pub fn name_value(name: &str, lit: Lit, span: Span) -> (r: MetaItem)
        ensures
            r@ == (MetaItemView { node: MetaItemKindView::MetaNameValue(name@, lit@), span }),
    {
        MetaItem { node: MetaItemKind::MetaNameValue(name.to_owned(), lit), span }
    }
}

} // verus!
