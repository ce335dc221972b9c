//! How the renderings of texts combine: a `Concat` writes its texts one
//! after the other, and a `Stack` writes them one per line.

use vstd::prelude::*;
use crate::doc::{SpecDoc, indent_doc, layout};
use crate::laws::{law_append_in_order, law_stack_separate_lines, law_stack_single};
use crate::render::{
    app, concat_doc, marked_line_doc, marked_lines_doc, numbered_line_start, region_doc, rendered,
    single_line_doc, stack_doc, text_doc,
};
use crate::strings::spaces;
use crate::style::{Styling, styled};
use crate::symbol::{Interns, ModuleId};
use crate::text::SpecText;

verus! {

/// The document holds no line break.
pub open spec fn line_free(d: SpecDoc) -> bool
    decreases d,
{
    match d {
        SpecDoc::Line => false,
        SpecDoc::Nest(_, b) => line_free(*b),
        SpecDoc::Align(b) => line_free(*b),
        SpecDoc::Annotated(_, b) => line_free(*b),
        SpecDoc::Append(a, b) => line_free(*a) && line_free(*b),
        _ => true,
    }
}

/// Every part of the document that is aligned to the column where it
/// starts holds no line break, so the column it starts at matters to
/// nothing it writes.
pub open spec fn column_free(d: SpecDoc) -> bool
    decreases d,
{
    match d {
        SpecDoc::Align(b) => line_free(*b),
        SpecDoc::Nest(_, b) => column_free(*b),
        SpecDoc::Annotated(_, b) => column_free(*b),
        SpecDoc::Append(a, b) => column_free(*a) && column_free(*b),
        _ => true,
    }
}

/// A document without line breaks writes the same pieces wherever it
/// starts.
pub proof fn lemma_line_free_layout(d: SpecDoc, i1: nat, c1: nat, i2: nat, c2: nat)
    requires
        line_free(d),
    ensures
        layout(d, i1, c1).0 == layout(d, i2, c2).0,
    decreases d,
{
    match d {
        SpecDoc::Nest(n, b) => lemma_line_free_layout(*b, i1 + n, c1, i2 + n, c2),
        SpecDoc::Align(b) => lemma_line_free_layout(*b, c1, c1, c2, c2),
        SpecDoc::Annotated(_, b) => lemma_line_free_layout(*b, i1, c1, i2, c2),
        SpecDoc::Append(a, b) => {
            lemma_line_free_layout(*a, i1, c1, i2, c2);
            lemma_line_free_layout(*b, i1, layout(*a, i1, c1).1, i2, layout(*a, i2, c2).1);
        },
        _ => {},
    }
}

/// A column-free document writes the same pieces whatever column it
/// starts at.
pub proof fn lemma_column_free_layout(d: SpecDoc, ind: nat, c1: nat, c2: nat)
    requires
        column_free(d),
    ensures
        layout(d, ind, c1).0 == layout(d, ind, c2).0,
    decreases d,
{
    match d {
        SpecDoc::Nest(n, b) => lemma_column_free_layout(*b, ind + n, c1, c2),
        SpecDoc::Align(b) => lemma_line_free_layout(*b, c1, c1, c2, c2),
        SpecDoc::Annotated(_, b) => lemma_column_free_layout(*b, ind, c1, c2),
        SpecDoc::Append(a, b) => {
            lemma_column_free_layout(*a, ind, c1, c2);
            lemma_column_free_layout(*b, ind, layout(*a, ind, c1).1, layout(*a, ind, c2).1);
        },
        _ => {},
    }
}

/// No `Indent` occurs in the text, at any depth.
pub open spec fn has_no_indent(t: SpecText) -> bool
    decreases t,
{
    match t {
        SpecText::Indent(..) => false,
        SpecText::Concat(ts) => texts_have_no_indent(ts),
        SpecText::Stack(ts) => texts_have_no_indent(ts),
        _ => true,
    }
}

/// No `Indent` occurs in the texts, at any depth.
pub open spec fn texts_have_no_indent(ts: Seq<SpecText>) -> bool
    decreases ts,
{
    if ts.len() == 0 {
        true
    } else {
        texts_have_no_indent(ts.drop_last()) && has_no_indent(ts.last())
    }
}

proof fn lemma_line_start_column_free(r: crate::syntax::Region, i: nat)
    ensures
        column_free(numbered_line_start(r, i)),
{
    reveal_with_fuel(column_free, 5);
}

proof fn lemma_indented_text_line_free(d: SpecDoc, n: nat)
    requires
        line_free(d),
    ensures
        column_free(indent_doc(d, n)),
{
    reveal_with_fuel(line_free, 3);
}

proof fn lemma_marked_lines_column_free(r: crate::syntax::Region, src: Seq<Seq<char>>, k: nat)
    ensures
        column_free(marked_lines_doc(r, src, k)),
    decreases k,
{
    if k > 0 {
        lemma_marked_lines_column_free(r, src, (k - 1) as nat);
        let i = (r.start_line + k - 1) as nat;
        lemma_line_start_column_free(r, i);
        reveal_with_fuel(line_free, 2);
        reveal_with_fuel(column_free, 4);
        lemma_indented_text_line_free(
            SpecDoc::Annotated(crate::style::Annotation::CodeBlock, Box::new(SpecDoc::Text(src[i as int]))),
            2,
        );
        assert(column_free(marked_line_doc(r, src, i)));
    }
}

proof fn lemma_region_column_free(r: crate::syntax::Region, src: Seq<Seq<char>>)
    ensures
        column_free(region_doc(r, src)),
{
    if r.start_line == r.end_line {
        lemma_line_start_column_free(r, r.start_line as nat);
        lemma_indented_text_line_free(SpecDoc::Text(src[r.start_line as int]), 2);
        lemma_indented_text_line_free(SpecDoc::Text(spaces(r.start_col as nat)), 2);
        reveal_with_fuel(column_free, 6);
        assert(column_free(single_line_doc(r, src)));
    } else {
        lemma_marked_lines_column_free(r, src, crate::render::region_line_count(r));
    }
    reveal_with_fuel(column_free, 5);
}

/// The document of a text without `Indent` is column-free.
pub proof fn lemma_text_column_free(t: SpecText, home: ModuleId, src: Seq<Seq<char>>, interns: Interns)
    requires
        has_no_indent(t),
    ensures
        column_free(text_doc(t, home, src, interns)),
    decreases t,
{
    reveal_with_fuel(column_free, 3);
    match t {
        SpecText::ErrorType(s) => {
            lemma_indented_text_line_free(SpecDoc::Text(s), 4);
            reveal_with_fuel(column_free, 4);
        },
        SpecText::Region(r) => lemma_region_column_free(r, src),
        SpecText::Concat(ts) => lemma_concat_column_free(ts, home, src, interns),
        SpecText::Stack(ts) => lemma_stack_column_free(ts, home, src, interns),
        _ => {},
    }
}

proof fn lemma_concat_column_free(ts: Seq<SpecText>, home: ModuleId, src: Seq<Seq<char>>, interns: Interns)
    requires
        texts_have_no_indent(ts),
    ensures
        column_free(concat_doc(ts, home, src, interns)),
    decreases ts,
{
    if ts.len() > 0 {
        lemma_concat_column_free(ts.drop_last(), home, src, interns);
        lemma_text_column_free(ts.last(), home, src, interns);
    }
}

proof fn lemma_stack_column_free(ts: Seq<SpecText>, home: ModuleId, src: Seq<Seq<char>>, interns: Interns)
    requires
        texts_have_no_indent(ts),
    ensures
        column_free(stack_doc(ts, home, src, interns)),
    decreases ts,
{
    reveal_with_fuel(column_free, 3);
    if ts.len() == 1 {
        assert(ts[0] == ts.last());
        lemma_text_column_free(ts[0], home, src, interns);
    } else if ts.len() > 1 {
        lemma_stack_column_free(ts.drop_last(), home, src, interns);
        lemma_text_column_free(ts.last(), home, src, interns);
    }
}

/// The parts, one after the other, with `sep` between each two.
pub open spec fn joined(parts: Seq<Seq<char>>, sep: Seq<char>) -> Seq<char>
    decreases parts.len(),
{
    if parts.len() == 0 {
        Seq::empty()
    } else if parts.len() == 1 {
        parts[0]
    } else {
        joined(parts.drop_last(), sep) + sep + parts.last()
    }
}

/// What each of the texts writes on its own, from the left margin.
pub open spec fn renderings(
    st: Styling,
    ts: Seq<SpecText>,
    home: ModuleId,
    src: Seq<Seq<char>>,
    interns: Interns,
) -> Seq<Seq<char>> {
    Seq::new(ts.len(), |i: int| rendered(st, ts[i], home, src, interns))
}

/// A `Concat` of texts without `Indent` writes what each of them writes on
/// its own, one after the other, with nothing between them; a `Concat` of
/// nothing writes nothing.
pub proof fn law_concat_joins(
    st: Styling,
    ts: Seq<SpecText>,
    home: ModuleId,
    src: Seq<Seq<char>>,
    interns: Interns,
)
    requires
        texts_have_no_indent(ts),
    ensures
        rendered(st, SpecText::Concat(ts), home, src, interns) == joined(
            renderings(st, ts, home, src, interns),
            Seq::empty(),
        ),
    decreases ts.len(),
{
    let parts = renderings(st, ts, home, src, interns);
    assert(text_doc(SpecText::Concat(ts), home, src, interns) == concat_doc(ts, home, src, interns));
    if ts.len() == 0 {
        assert(layout(SpecDoc::Nil, 0, 0).0.len() == 0);
    } else {
        let rest = ts.drop_last();
        let t = ts.last();
        let front = concat_doc(rest, home, src, interns);
        law_concat_joins(st, rest, home, src, interns);
        assert(text_doc(SpecText::Concat(rest), home, src, interns) == front);
        law_append_in_order(st, front, text_doc(t, home, src, interns), 0, 0);
        lemma_text_column_free(t, home, src, interns);
        lemma_column_free_layout(text_doc(t, home, src, interns), 0, layout(front, 0, 0).1, 0);
        assert(styled(st, text_doc(t, home, src, interns), 0, layout(front, 0, 0).1) == rendered(
            st,
            t,
            home,
            src,
            interns,
        ));
        assert(parts.drop_last() =~= renderings(st, rest, home, src, interns));
        assert(parts.last() == rendered(st, t, home, src, interns));
        if ts.len() == 1 {
            assert(layout(SpecDoc::Nil, 0, 0).0.len() == 0);
            assert(rest.len() == 0);
            assert(Seq::<char>::empty() + parts[0] =~= parts[0]);
        } else {
            assert(joined(parts.drop_last(), Seq::empty()) + Seq::<char>::empty() =~= joined(
                parts.drop_last(),
                Seq::empty(),
            ));
        }
    }
}

/// A `Stack` writes what each of its texts writes on its own, one per
/// line: exactly one line break between each two, none before the first
/// or after the last; a `Stack` of nothing writes nothing.
pub proof fn law_stack_joins(
    st: Styling,
    ts: Seq<SpecText>,
    home: ModuleId,
    src: Seq<Seq<char>>,
    interns: Interns,
)
    ensures
        rendered(st, SpecText::Stack(ts), home, src, interns) == joined(
            renderings(st, ts, home, src, interns),
            seq!['\n'],
        ),
    decreases ts.len(),
{
    let parts = renderings(st, ts, home, src, interns);
    assert(text_doc(SpecText::Stack(ts), home, src, interns) == stack_doc(ts, home, src, interns));
    if ts.len() == 0 {
        assert(layout(SpecDoc::Nil, 0, 0).0.len() == 0);
    } else if ts.len() == 1 {
        assert(ts =~= seq![ts[0]]);
        law_stack_single(st, ts[0], home, src, interns, 0, 0);
    } else {
        let rest = ts.drop_last();
        let t = ts.last();
        assert(rest.push(t) =~= ts);
        law_stack_joins(st, rest, home, src, interns);
        law_stack_separate_lines(st, rest, t, home, src, interns, 0, 0);
        assert(crate::doc::newline(0) =~= seq!['\n']);
        assert(parts.drop_last() =~= renderings(st, rest, home, src, interns));
        assert(parts.last() == rendered(st, t, home, src, interns));
    }
}

} // verus!
