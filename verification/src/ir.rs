//! The intermediate representation that lowering produces.

use vstd::prelude::*;

verus! {

/// A span of template text, kept as it was written.
#[derive(Clone, Copy, Debug, PartialEq, Eq)]
pub struct VStr<'a> {
    pub raw: &'a str,
}

impl<'a> VStr<'a> {
    /// Wraps a span of text.
    pub fn raw(raw: &'a str) -> (r: Self)
        ensures
            r == (VStr { raw }),
    {
        VStr { raw }
    }
}

impl<'a> View for VStr<'a> {
    type V = Seq<char>;

    /// The characters of the span.
    open spec fn view(&self) -> Seq<char> {
        self.raw@
    }
}

/// An expression of the template's script language.
#[derive(Clone, Copy, Debug, PartialEq, Eq)]
pub enum JsExpr<'a> {
    /// Script text that is emitted as it stands.
    Src(&'a str),
    /// A string literal.
    StrLit(VStr<'a>),
    /// Expression text that has not been compiled yet.
    Simple(VStr<'a>),
}

/// What a `JsExpr` is, over the characters it holds.
pub ghost enum JsExprView {
    Src(Seq<char>),
    StrLit(Seq<char>),
    Simple(Seq<char>),
}

impl<'a> View for JsExpr<'a> {
    type V = JsExprView;

    open spec fn view(&self) -> JsExprView {
        match *self {
            JsExpr::Src(s) => JsExprView::Src(s@),
            JsExpr::StrLit(s) => JsExprView::StrLit(s@),
            JsExpr::Simple(s) => JsExprView::Simple(s@),
        }
    }
}

/// The names that a loop header binds: the item, and optionally its key and
/// its index.
#[derive(Clone, Copy, Debug, PartialEq, Eq)]
pub struct ForParseResult<'a> {
    pub value: JsExpr<'a>,
    pub key: Option<JsExpr<'a>>,
    pub index: Option<JsExpr<'a>>,
}

impl<'a> ForParseResult<'a> {
    /// An index is bound only together with a key.
    pub open spec fn well_formed(&self) -> bool {
        self.index is Some ==> self.key is Some
    }
}

/// What a `ForParseResult` is, over the characters it holds.
pub ghost struct ForParseResultView {
    pub value: JsExprView,
    pub key: Option<JsExprView>,
    pub index: Option<JsExprView>,
}

/// The view of an optional expression.
pub open spec fn option_expr_view(e: Option<JsExpr>) -> Option<JsExprView> {
    match e {
        Some(e) => Some(e@),
        None => None,
    }
}

impl<'a> View for ForParseResult<'a> {
    type V = ForParseResultView;

    open spec fn view(&self) -> ForParseResultView {
        ForParseResultView {
            value: self.value@,
            key: option_expr_view(self.key),
            index: option_expr_view(self.index),
        }
    }
}

/// A loop: the collection it walks, the names it binds, and the node it
/// repeats.
#[derive(Debug, PartialEq, Eq)]
pub struct ForNodeIR<'a> {
    pub source: JsExpr<'a>,
    pub parse_result: ForParseResult<'a>,
    pub child: Box<IRNode<'a>>,
}

/// A node of the intermediate representation.
#[derive(Debug, PartialEq, Eq)]
pub enum IRNode<'a> {
    /// Text content.
    Text(JsExpr<'a>),
    /// A comment.
    Comment(&'a str),
    /// A loop around another node.
    For(ForNodeIR<'a>),
}

} // verus!
