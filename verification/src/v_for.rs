//! Lowering of the iteration directive: the loop header's grammar, the loop
//! node, and the dispatcher that runs before an element's other attributes
//! are converted.

use crate::converter::BaseConverter;
use crate::element::{find_dir, is_dir_named, Directive, ElemProp, Element};
use crate::error::{CompilationError, CompilationErrorKind};
use crate::ir::{ForNodeIR, ForParseResult, ForParseResultView, IRNode, JsExpr, JsExprView, VStr};
use crate::text::{
    find, first_occurrence, is_trimmed, lemma_first_occurrence_ensures, lemma_trim, occurs_at,
    option_text, split_once, str_chars, trim, trim_range,
};
use vstd::prelude::*;
use vstd::string::*;

verus! {

/// The separator ` in `.
pub open spec fn sep_in() -> Seq<char> {
    seq![' ', 'i', 'n', ' ']
}

/// The separator ` of `.
pub open spec fn sep_of() -> Seq<char> {
    seq![' ', 'o', 'f', ' ']
}

/// The name of the iteration directive.
pub open spec fn for_name() -> Seq<char> {
    "for"@
}

/// The two sides of a loop header, as written: the header is cut at its
/// first ` in ` or, if it holds none, at its first ` of `.
pub open spec fn split_header(s: Seq<char>) -> Option<(Seq<char>, Seq<char>)> {
    match split_once(s, sep_in()) {
        Some(sides) => Some(sides),
        None => split_once(s, sep_of()),
    }
}

/// Whether `s` holds a closing brace or a closing square bracket.
pub open spec fn closes_bracket(s: Seq<char>) -> bool {
    s.contains('}') || s.contains(']')
}

/// `s` cut at its last comma, if what follows that comma holds no closing
/// bracket: what stands before the comma, and what follows it.
pub open spec fn split_last_name(s: Seq<char>) -> Option<(Seq<char>, Seq<char>)> {
    match s.index_of_last(',') {
        Some(i) => {
            let name = s.subrange(i + 1, s.len() as int);
            if closes_bracket(name) {
                None
            } else {
                Some((s.subrange(0, i), name))
            }
        },
        None => None,
    }
}

/// The names that a binding pattern holds: the value, the key, the index.
///
/// Up to two names are taken from the pattern's end, each after a comma. A
/// piece with a closing bracket is no name: it belongs to the value, together
/// with all that stands on its left, so that a destructuring pattern stays in
/// one piece. A pattern from which no name is taken is the value as it stands;
/// otherwise each part comes without the white space at its ends.
pub open spec fn split_binding(lhs: Seq<char>) -> (Seq<char>, Option<Seq<char>>, Option<Seq<char>>) {
    match split_last_name(lhs) {
        None => (lhs, None, None),
        Some((head, last)) => match split_last_name(head) {
            None => (trim(head), Some(trim(last)), None),
            Some((value, key)) => (trim(value), Some(trim(key)), Some(trim(last))),
        },
    }
}

/// What a loop header says: the source collection, and the names bound.
/// `None` for a header without separator.
pub open spec fn parse_header(s: Seq<char>) -> Option<
    (Seq<char>, (Seq<char>, Option<Seq<char>>, Option<Seq<char>>)),
> {
    match split_header(s) {
        Some((lhs, rhs)) => Some((trim(rhs), split_binding(trim(lhs)))),
        None => None,
    }
}

/// A simple expression with the given text, if there is a text.
pub open spec fn option_simple(s: Option<Seq<char>>) -> Option<JsExprView> {
    match s {
        Some(s) => Some(JsExprView::Simple(s)),
        None => None,
    }
}

/// The bound names as simple expressions.
pub open spec fn simple_binding(
    b: (Seq<char>, Option<Seq<char>>, Option<Seq<char>>),
) -> ForParseResultView {
    ForParseResultView {
        value: JsExprView::Simple(b.0),
        key: option_simple(b.1),
        index: option_simple(b.2),
    }
}

/// Wraps a span of text as a simple expression.
pub fn simple_var<'a>(v: &'a str) -> (r: JsExpr<'a>)
    ensures
        r == JsExpr::Simple(VStr { raw: v }),
{
    JsExpr::Simple(VStr::raw(v))
}

/// The index of the last comma of `v[..hi]`, if what follows it there holds
/// no closing bracket.
fn last_name_comma(v: &Vec<char>, hi: usize) -> (r: Option<usize>)
    requires
        hi <= v.len(),
    ensures
        match r {
            Some(i) => i < hi && split_last_name(v@.subrange(0, hi as int)) == Some(
                (v@.subrange(0, i as int), v@.subrange(i + 1, hi as int)),
            ),
            None => split_last_name(v@.subrange(0, hi as int)) is None,
        },
{
    let ghost s = v@.subrange(0, hi as int);
    let mut j: usize = hi;
    while j > 0
        invariant
            j <= hi <= v.len(),
            s == v@.subrange(0, hi as int),
            forall|k: int| j <= k < hi ==> s[k] != ',' && s[k] != '}' && s[k] != ']',
        decreases j,
    {
        let c = v[j - 1];
        if c == ',' {
            proof {
                s.index_of_last_ensures(',');
                assert(s[j - 1] == ',');
                assert(s.subrange(0, j - 1) =~= v@.subrange(0, j - 1));
                assert(s.subrange(j as int, hi as int) =~= v@.subrange(j as int, hi as int));
            }
            return Some(j - 1);
        }
        if c == '}' || c == ']' {
            proof {
                s.index_of_last_ensures(',');
                if let Some(i) = s.index_of_last(',') {
                    assert(s.subrange(i + 1, hi as int)[j - 1 - (i + 1)] == s[j - 1]);
                }
            }
            return None;
        }
        j -= 1;
    }
    proof {
        s.index_of_last_ensures(',');
    }
    None
}

/// Splits a binding pattern into the value and, where the pattern names
/// them, the key and the index.
pub fn split_v_for_iter<'a>(lhs: &'a str) -> (r: (&'a str, Option<&'a str>, Option<&'a str>))
    ensures
        (r.0@, option_text(r.1), option_text(r.2)) == split_binding(lhs@),
        r.1 is None ==> r.0 == lhs,
{
    let chars = str_chars(lhs);
    let n: usize = chars.len();
    assert(chars@.subrange(0, n as int) =~= lhs@);
    match last_name_comma(&chars, n) {
        None => (lhs, None, None),
        Some(i) => {
            let (a, b) = trim_range(&chars, i + 1, n);
            let last = lhs.substring_char(a, b);
            match last_name_comma(&chars, i) {
                None => {
                    let (a, b) = trim_range(&chars, 0, i);
                    (lhs.substring_char(a, b), Some(last), None)
                },
                Some(j) => {
                    assert(chars@.subrange(0, i as int).subrange(0, j as int) =~= chars@.subrange(
                        0,
                        j as int,
                    ));
                    assert(chars@.subrange(0, i as int).subrange(j + 1, i as int)
                        =~= chars@.subrange(j + 1, i as int));
                    let (a, b) = trim_range(&chars, j + 1, i);
                    let key = lhs.substring_char(a, b);
                    let (a, b) = trim_range(&chars, 0, j);
                    (lhs.substring_char(a, b), Some(key), Some(last))
                },
            }
        },
    }
}

/// The index at which the header's separator starts: that of its first
/// ` in ` or, if it holds none, of its first ` of `.
fn find_separator(chars: &Vec<char>) -> (r: Option<usize>)
    ensures
        match r {
            Some(i) => i + 4 <= chars@.len() && split_header(chars@) == Some(
                (chars@.subrange(0, i as int), chars@.subrange(i + 4, chars@.len() as int)),
            ),
            None => split_header(chars@) is None,
        },
{
    let sep: Vec<char> = vec![' ', 'i', 'n', ' '];
    assert(sep@ =~= sep_in());
    match find(chars, &sep) {
        Some(i) => {
            proof {
                lemma_first_occurrence_ensures(chars@, sep_in());
            }
            Some(i)
        },
        None => {
            let sep: Vec<char> = vec![' ', 'o', 'f', ' '];
            assert(sep@ =~= sep_of());
            proof {
                lemma_first_occurrence_ensures(chars@, sep_of());
            }
            find(chars, &sep)
        },
    }
}

/// Reads a loop header: the source collection after the separator, and the
/// names bound before it. `None` for a header without separator.
pub fn parse_for_expr<'a>(expr: VStr<'a>) -> (r: Option<(JsExpr<'a>, ForParseResult<'a>)>)
    ensures
        match parse_header(expr@) {
            Some((source, binding)) => r matches Some((s, p)) && s@ == JsExprView::Simple(source)
                && p@ == simple_binding(binding) && p.well_formed(),
            None => r is None,
        },
{
    let chars = str_chars(expr.raw);
    let n: usize = chars.len();
    match find_separator(&chars) {
        None => None,
        Some(i) => {
            let (a, b) = trim_range(&chars, 0, i);
            let lhs = expr.raw.substring_char(a, b);
            let (a, b) = trim_range(&chars, i + 4, n);
            let rhs = expr.raw.substring_char(a, b);
            let (val, key, idx) = split_v_for_iter(lhs);
            let key = match key {
                Some(k) => Some(simple_var(k)),
                None => None,
            };
            let index = match idx {
                Some(k) => Some(simple_var(k)),
                None => None,
            };
            Some((simple_var(rhs), ForParseResult { value: simple_var(val), key, index }))
        },
    }
}

/// What lowering a `for` directive `d` around the node `n` comes to: the
/// node `r` returned, and the diagnostics after it, given those before it.
///
/// A directive without expression, or with one of white space only, reports
/// `VForNoExpression` at the directive; a header without separator reports
/// `VForMalformedExpression` at the expression. Either way `n` comes back as
/// it is. Otherwise nothing is reported, and `r` is the loop around `n`.
pub open spec fn lowered<'a>(
    d: Directive<'a>,
    n: IRNode<'a>,
    before: Seq<CompilationError>,
    r: IRNode<'a>,
    after: Seq<CompilationError>,
) -> bool {
    match d.expression {
        Some(expr) if !d.lacks_expr() => match parse_header(expr.content@) {
            Some((source, binding)) => {
                &&& after == before
                &&& r matches IRNode::For(f)
                &&& *f.child == n
                &&& f.source@ == JsExprView::Simple(source)
                &&& f.parse_result@ == simple_binding(binding)
                &&& f.parse_result.well_formed()
            },
            None => {
                &&& r == n
                &&& after == before.push(
                    CompilationError {
                        kind: CompilationErrorKind::VForMalformedExpression,
                        location: expr.location,
                    },
                )
            },
        },
        _ => {
            &&& r == n
            &&& after == before.push(
                CompilationError {
                    kind: CompilationErrorKind::VForNoExpression,
                    location: d.location,
                },
            )
        },
    }
}

/// Lowers a detached `for` directive: wraps the node `n`, which the rest of
/// the element was converted to, in a loop. A directive that cannot be
/// lowered is reported, and `n` is returned as it is.
pub fn convert_for<'a>(bc: &mut BaseConverter, d: Directive<'a>, n: IRNode<'a>) -> (r: IRNode<'a>)
    ensures
        lowered(d, n, old(bc)@, r, final(bc)@),
{
    if let Some(error) = d.check_empty_expr(CompilationErrorKind::VForNoExpression) {
        bc.emit_error(error);
        return n;
    }
    let expr = d.expression.unwrap();
    match parse_for_expr(expr.content) {
        Some((source, parse_result)) => IRNode::For(
            ForNodeIR { source, parse_result, child: Box::new(n) },
        ),
        None => {
            let error = CompilationError::new(
                CompilationErrorKind::VForMalformedExpression,
            ).with_location(expr.location);
            bc.emit_error(error);
            n
        },
    }
}

/// A header fails to parse exactly if neither ` in ` nor ` of ` stands
/// anywhere in it.
pub proof fn lemma_fails_without_separator(s: Seq<char>)
    ensures
        parse_header(s) is None <==> forall|i: int|
            !occurs_at(s, sep_in(), i) && !occurs_at(s, sep_of(), i),
{
    lemma_first_occurrence_ensures(s, sep_in());
    lemma_first_occurrence_ensures(s, sep_of());
}

/// Whatever a header gives, the source and each name, comes without white
/// space at its ends.
pub proof fn lemma_parts_trimmed(s: Seq<char>)
    ensures
        match parse_header(s) {
            Some((source, (value, key, index))) => {
                &&& is_trimmed(source)
                &&& is_trimmed(value)
                &&& key matches Some(k) ==> is_trimmed(k)
                &&& index matches Some(i) ==> is_trimmed(i)
            },
            None => true,
        },
{
    if let Some((lhs, rhs)) = split_header(s) {
        lemma_trim(rhs);
        lemma_trim(lhs);
        if let Some((head, last)) = split_last_name(trim(lhs)) {
            lemma_trim(last);
            lemma_trim(head);
            if let Some((value, key)) = split_last_name(head) {
                lemma_trim(value);
                lemma_trim(key);
            }
        }
    }
}

/// Whether `x` is what the dispatcher hands to the continuation when it is
/// given `e`: `e` without its `for` directive, or `e` itself if it has none.
pub open spec fn continuation_input<'a>(e: Element<'a>, x: Element<'a>) -> bool {
    if e.has_dir(for_name()) {
        exists|i: int| e.first_dir_at(for_name(), i) && #[trigger] e.without(i, x)
    } else {
        x == e
    }
}

/// What dispatching `e` comes to: the node `r` returned, and the diagnostics
/// after it, given those before it.
///
/// An element without `for` directive goes to the continuation, whose result
/// is returned, and nothing is reported. Otherwise the continuation gets the
/// element without that directive, and the directive is lowered around the
/// node that the continuation made of it.
pub open spec fn dispatched<'a, K: FnOnce(Element<'a>) -> IRNode<'a>>(
    e: Element<'a>,
    base_convert: K,
    before: Seq<CompilationError>,
    r: IRNode<'a>,
    after: Seq<CompilationError>,
) -> bool {
    if e.has_dir(for_name()) {
        exists|i: int, x: Element<'a>, n: IRNode<'a>|
            #![trigger e.without(i, x), call_ensures(base_convert, (x,), n)]
            {
                &&& e.first_dir_at(for_name(), i)
                &&& e.without(i, x)
                &&& call_ensures(base_convert, (x,), n)
                &&& e.properties@[i] matches ElemProp::Dir(d)
                &&& lowered(d, n, before, r, after)
            }
    } else {
        call_ensures(base_convert, (e,), r) && after == before
    }
}

/// Lowers the `for` directive of an element, if it carries one.
///
/// The first `for` directive is detached. `base_convert`, the continuation,
/// then converts what is left of the element, and the loop is built around
/// its result. An element without `for` directive goes to the continuation
/// as it is.
pub fn pre_convert_for<'a, K>(
    c: &mut BaseConverter,
    e: Element<'a>,
    base_convert: K,
) -> (r: IRNode<'a>) where K: FnOnce(Element<'a>) -> IRNode<'a>
    requires
        forall|x: Element<'a>| continuation_input(e, x) ==> call_requires(base_convert, (x,)),
    ensures
        dispatched(e, base_convert, old(c)@, r, final(c)@),
{
    let ghost whole = e;
    let mut e = e;
    match find_dir(&e, "for") {
        Some(pos) => {
            let d = e.take_dir(pos);
            let ghost rest = e;
            assert(is_dir_named(whole.properties@[pos as int], for_name()));
            assert(whole.without(pos as int, rest));
            assert(continuation_input(whole, rest));
            let n = base_convert(e);
            assert(call_ensures(base_convert, (rest,), n));
            convert_for(c, d, n)
        },
        None => {
            assert(continuation_input(whole, e));
            base_convert(e)
        },
    }
}

/// Once its `for` directive is detached, an element that carried no other
/// carries none: dispatching what is left passes it to the continuation as
/// it is, returns the continuation's result, and reports nothing, as for an
/// element that never had the directive.
pub proof fn lemma_dispatch_after_detach<'a, K: FnOnce(Element<'a>) -> IRNode<'a>>(
    e: Element<'a>,
    i: int,
    x: Element<'a>,
    base_convert: K,
    before: Seq<CompilationError>,
    r: IRNode<'a>,
    after: Seq<CompilationError>,
)
    requires
        e.at_most_one_dir(for_name()),
        e.first_dir_at(for_name(), i),
        e.without(i, x),
    ensures
        !x.has_dir(for_name()),
        forall|y: Element<'a>| continuation_input(x, y) <==> y == x,
        dispatched(x, base_convert, before, r, after) <==> (call_ensures(base_convert, (x,), r)
            && after == before),
{
    assert forall|k: int| 0 <= k < x.properties@.len() implies !is_dir_named(
        #[trigger] x.properties@[k],
        for_name(),
    ) by {
        if k < i {
            assert(x.properties@[k] == e.properties@[k]);
        } else {
            assert(x.properties@[k] == e.properties@[k + 1]);
        }
    }
}

/// A header written as a pattern, a separator and a source gives back the
/// source without the white space at its ends, and the names that the
/// pattern holds once the white space at its ends is taken off, provided
/// that the header is cut at the separator written between the two: the
/// header's first ` in ` or, if the separator is ` of `, its first ` of ` with
/// no ` in ` anywhere.
pub proof fn lemma_header_recovered(pattern: Seq<char>, sep: Seq<char>, src: Seq<char>)
    requires
        sep == sep_in() || (sep == sep_of() && first_occurrence(pattern + sep + src, sep_in())
            is None),
        first_occurrence(pattern + sep + src, sep) == Some(pattern.len() as int),
    ensures
        parse_header(pattern + sep + src) == Some((trim(src), split_binding(trim(pattern)))),
{
    let header = pattern + sep + src;
    assert(header.subrange(0, pattern.len() as int) =~= pattern);
    assert(header.subrange((pattern.len() + sep.len()) as int, header.len() as int) =~= src);
}

} // verus!
