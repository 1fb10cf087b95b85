//! Parsed template elements and the attributes they carry.

use crate::error::{CompilationError, CompilationErrorKind, SourceLocation};
use crate::ir::VStr;
use crate::text::{is_blank, str_eq, str_is_blank};
use vstd::prelude::*;

verus! {

/// The text of an attribute's value, and where it was written.
#[derive(Clone, Copy, Debug, PartialEq, Eq)]
pub struct AttributeValue<'a> {
    pub content: VStr<'a>,
    pub location: SourceLocation,
}

/// A plain attribute.
#[derive(Clone, Copy, Debug, PartialEq, Eq)]
pub struct Attribute<'a> {
    pub name: &'a str,
    pub value: Option<AttributeValue<'a>>,
    pub location: SourceLocation,
}

/// An attribute that asks for special lowering, such as iteration.
#[derive(Clone, Copy, Debug, PartialEq, Eq)]
pub struct Directive<'a> {
    /// The directive's name, without any prefix: `for`, `if`.
    pub name: &'a str,
    pub expression: Option<AttributeValue<'a>>,
    pub location: SourceLocation,
}

/// One attribute of an element.
#[derive(Clone, Copy, Debug, PartialEq, Eq)]
pub enum ElemProp<'a> {
    Attr(Attribute<'a>),
    Dir(Directive<'a>),
}

/// A parsed element of the template.
#[derive(Debug, PartialEq, Eq)]
pub struct Element<'a> {
    pub tag_name: &'a str,
    pub properties: Vec<ElemProp<'a>>,
    pub location: SourceLocation,
}

/// Whether `p` is a directive of the given name.
pub open spec fn is_dir_named(p: ElemProp, name: Seq<char>) -> bool {
    match p {
        ElemProp::Dir(d) => d.name@ == name,
        ElemProp::Attr(_) => false,
    }
}

impl<'a> Directive<'a> {
    /// Whether the directive has no expression, or one of white space only.
    pub open spec fn lacks_expr(&self) -> bool {
        match self.expression {
            Some(v) => is_blank(v.content@),
            None => true,
        }
    }

    /// Whether the directive has no expression, or one of white space only.
    pub fn has_empty_expr(&self) -> (r: bool)
        ensures
            r == self.lacks_expr(),
    {
        match &self.expression {
            Some(v) => str_is_blank(v.content.raw),
            None => true,
        }
    }

    /// The diagnostic of the given kind, at the directive, if the directive
    /// has no expression or one of white space only.
    pub fn check_empty_expr(&self, kind: CompilationErrorKind) -> (r: Option<CompilationError>)
        ensures
            r == if self.lacks_expr() {
                Some(CompilationError { kind, location: self.location })
            } else {
                None
            },
    {
        if self.has_empty_expr() {
            Some(CompilationError::new(kind).with_location(self.location))
        } else {
            None
        }
    }
}

impl<'a> Element<'a> {
    /// Whether the element carries a directive of the given name.
    pub open spec fn has_dir(&self, name: Seq<char>) -> bool {
        exists|i: int|
            0 <= i < self.properties@.len() && is_dir_named(#[trigger] self.properties@[i], name)
    }

    /// Whether the first directive of the given name stands at index `i`.
    pub open spec fn first_dir_at(&self, name: Seq<char>, i: int) -> bool {
        &&& 0 <= i < self.properties@.len()
        &&& is_dir_named(self.properties@[i], name)
        &&& forall|j: int| 0 <= j < i ==> !is_dir_named(#[trigger] self.properties@[j], name)
    }

    /// Whether the element carries at most one directive of the given name.
    pub open spec fn at_most_one_dir(&self, name: Seq<char>) -> bool {
        forall|i: int, j: int|
            0 <= i < j < self.properties@.len() && is_dir_named(
                #[trigger] self.properties@[i],
                name,
            ) ==> !is_dir_named(#[trigger] self.properties@[j], name)
    }

    /// Whether `rest` is this element without its attribute at index `i`.
    pub open spec fn without(&self, i: int, rest: Element<'a>) -> bool {
        &&& rest.tag_name == self.tag_name
        &&& rest.location == self.location
        &&& rest.properties@ == self.properties@.remove(i)
    }

    /// Detaches the directive at index `pos` from the element.
    pub fn take_dir(&mut self, pos: usize) -> (d: Directive<'a>)
        requires
            pos < old(self).properties@.len(),
            old(self).properties@[pos as int] is Dir,
        ensures
            old(self).properties@[pos as int] == ElemProp::Dir(d),
            old(self).without(pos as int, *final(self)),
    {
        match self.properties.remove(pos) {
            ElemProp::Dir(d) => d,
            ElemProp::Attr(_) => vstd::pervasive::unreached(),
        }
    }
}

/// The index of the element's first directive of the given name.
pub fn find_dir(e: &Element, name: &str) -> (r: Option<usize>)
    ensures
        match r {
            Some(i) => e.first_dir_at(name@, i as int),
            None => !e.has_dir(name@),
        },
{
    let mut i: usize = 0;
    while i < e.properties.len()
        invariant
            i <= e.properties@.len(),
            forall|j: int| 0 <= j < i ==> !is_dir_named(#[trigger] e.properties@[j], name@),
        decreases e.properties@.len() - i,
    {
        match &e.properties[i] {
            ElemProp::Dir(d) => {
                if str_eq(d.name, name) {
                    return Some(i);
                }
            },
            ElemProp::Attr(_) => {},
        }
        i += 1;
    }
    None
}

} // verus!
