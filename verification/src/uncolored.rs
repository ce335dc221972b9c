//! A color terminal given a palette of empty escape sequences writes what a
//! console writes, with reset sequences added: the console and color
//! writers differ only in styling, never in the characters of the report.

use vstd::prelude::*;
use crate::doc::{SpecDoc, SpecPiece, layout, newline};
use crate::laws::{
    law_console_has_no_colors, lines_lack_escape, names_lack_escape, text_lacks_escape,
};
use crate::render::{
    concat_doc, marked_line_doc, marked_lines_doc, numbered_line_start, region_doc, rendered,
    single_line_doc, stack_doc, text_doc, text_ok,
};
use crate::style::{
    Annotation, RESET_CODE, SpecPalette, Styling, ci_close, ci_open, color_close, color_open, emit,
};
use crate::symbol::{Interns, ModuleId};
use crate::text::SpecText;

verus! {

/// A palette whose escape sequences are all empty.
pub open spec fn blank_palette() -> SpecPalette {
    SpecPalette {
        primary: Seq::empty(),
        code_block: Seq::empty(),
        variable: Seq::empty(),
        type_variable: Seq::empty(),
        structure: Seq::empty(),
        alias: Seq::empty(),
        error: Seq::empty(),
        line_number: Seq::empty(),
        gutter_bar: Seq::empty(),
        module_name: Seq::empty(),
        binop: Seq::empty(),
    }
}

/// `s` with every occurrence of the reset sequence deleted.
pub open spec fn without_resets(s: Seq<char>) -> Seq<char>
    decreases s.len(),
{
    if s.len() >= 4 && s.subrange(s.len() - 4, s.len() as int) == RESET_CODE@ {
        without_resets(s.subrange(0, s.len() - 4))
    } else if s.len() == 0 {
        Seq::empty()
    } else {
        without_resets(s.drop_last()).push(s.last())
    }
}

/// A reset sequence starts at index `i` of `s`.
pub open spec fn reset_at(s: Seq<char>, i: int) -> bool {
    0 <= i && i + 4 <= s.len() && s.subrange(i, i + 4) == RESET_CODE@
}

/// No reset sequence occurs in `s`.
pub open spec fn holds_no_reset(s: Seq<char>) -> bool {
    forall|i: int| !#[trigger] reset_at(s, i)
}

/// `s` is empty or ends with a reset sequence.
pub open spec fn ends_at_reset(s: Seq<char>) -> bool {
    s.len() == 0 || (s.len() >= 4 && s.subrange(s.len() - 4, s.len() as int) == RESET_CODE@)
}

proof fn lemma_reset_chars()
    ensures
        RESET_CODE@ == seq!['\u{1b}', '[', '0', 'm'],
{
    reveal_strlit("\u{001b}[0m");
    assert(RESET_CODE@ =~= seq!['\u{1b}', '[', '0', 'm']);
}

/// What holds no reset sequence holds none in any of its parts.
proof fn lemma_no_reset_part(s: Seq<char>, a: int, b: int)
    requires
        holds_no_reset(s),
        0 <= a <= b <= s.len(),
    ensures
        holds_no_reset(s.subrange(a, b)),
{
    let part = s.subrange(a, b);
    assert forall|i: int| !#[trigger] reset_at(part, i) by {
        if reset_at(part, i) {
            assert(part.subrange(i, i + 4) =~= s.subrange(a + i, a + i + 4));
            assert(reset_at(s, a + i));
        }
    }
}

/// Text that holds no reset sequence, written after what is empty or ends
/// with a reset, is kept whole once the resets are deleted: no reset can
/// start before it and end within it.
proof fn lemma_without_resets_tail(x: Seq<char>, t: Seq<char>)
    requires
        ends_at_reset(x),
        holds_no_reset(t),
    ensures
        without_resets(x + t) == without_resets(x) + t,
    decreases t.len(),
{
    lemma_reset_chars();
    let s = x + t;
    if t.len() == 0 {
        assert(s =~= x);
        assert(without_resets(x) + t =~= without_resets(x));
    } else {
        let n = s.len() as int;
        if n >= 4 && s.subrange(n - 4, n) == RESET_CODE@ {
            if t.len() >= 4 {
                assert(s.subrange(n - 4, n) =~= t.subrange(t.len() - 4, t.len() as int));
                assert(reset_at(t, t.len() - 4));
            } else {
                assert(x.len() >= 4);
                assert(s.subrange(n - 4, n)[0] == s[n - 4]);
                assert(s[n - 4] == x[n - 4]);
                assert(x.subrange(x.len() - 4, x.len() as int)[t.len() as int] == x[n - 4]);
            }
        }
        assert(s.drop_last() =~= x + t.drop_last());
        lemma_no_reset_part(t, 0, t.len() - 1);
        assert(t.subrange(0, t.len() - 1) =~= t.drop_last());
        lemma_without_resets_tail(x, t.drop_last());
        assert(s.last() == t.last());
        assert((without_resets(x) + t.drop_last()).push(t.last()) =~= without_resets(x) + t);
    }
}

/// Whether the two writers write nothing but, on a color terminal, a
/// reset sequence around an annotation once the palette is blank: every
/// annotation but emphasis, URLs, tags and keywords.
pub open spec fn unmarked(a: Annotation) -> bool {
    match a {
        Annotation::Emphasized | Annotation::Url | Annotation::GlobalTag
        | Annotation::PrivateTag | Annotation::Keyword => false,
        _ => true,
    }
}

/// The pieces open only unmarked annotations.
pub open spec fn opens_only_unmarked(p: Seq<SpecPiece>) -> bool {
    forall|i: int| 0 <= i < p.len() ==> match #[trigger] p[i] {
        SpecPiece::Push(a) => unmarked(a),
        _ => true,
    }
}

/// Which annotations are open after the pieces does not depend on the
/// styling.
proof fn lemma_emit_open_same(s1: Styling, s2: Styling, p: Seq<SpecPiece>, stack: Seq<Annotation>)
    ensures
        emit(s1, p, stack).0 == emit(s2, p, stack).0,
    decreases p.len(),
{
    if p.len() > 0 {
        lemma_emit_open_same(s1, s2, p.drop_last(), stack);
    }
}

/// Writing pieces that open only unmarked annotations with the blank
/// palette writes what the console writes, with reset sequences added. The
/// result `tail` is the length of what both have written since the last
/// reset: before it, the color output ends at a reset and comes to the
/// console output once its resets are deleted; from it on, both are the
/// same.
proof fn lemma_emit_uncolored(p: Seq<SpecPiece>, stack: Seq<Annotation>) -> (tail: nat)
    requires
        opens_only_unmarked(p),
        forall|i: int| 0 <= i < stack.len() ==> unmarked(#[trigger] stack[i]),
        holds_no_reset(emit(Styling::Ci, p, stack).1),
    ensures
        ({
            let c = emit(Styling::Color(blank_palette()), p, stack).1;
            let k = emit(Styling::Ci, p, stack).1;
            &&& tail <= c.len()
            &&& tail <= k.len()
            &&& c.subrange(c.len() - tail, c.len() as int) == k.subrange(
                k.len() - tail,
                k.len() as int,
            )
            &&& ends_at_reset(c.subrange(0, c.len() - tail))
            &&& without_resets(c.subrange(0, c.len() - tail)) == k.subrange(0, k.len() - tail)
        }),
        forall|i: int|
            0 <= i < emit(Styling::Ci, p, stack).0.len() ==> unmarked(
                #[trigger] emit(Styling::Ci, p, stack).0[i],
            ),
    decreases p.len(),
{
    let color = Styling::Color(blank_palette());
    lemma_reset_chars();
    if p.len() == 0 {
        assert(without_resets(Seq::<char>::empty()) == Seq::<char>::empty());
        0
    } else {
        let front = p.drop_last();
        assert forall|i: int| 0 <= i < front.len() implies match #[trigger] front[i] {
            SpecPiece::Push(a) => unmarked(a),
            _ => true,
        } by {
            assert(front[i] == p[i]);
        }
        let c0 = emit(color, front, stack);
        let k0 = emit(Styling::Ci, front, stack);
        let k = emit(Styling::Ci, p, stack).1;
        let last = p.last();
        assert(last == p[p.len() - 1]);
        let extra = match last {
            SpecPiece::Text(t) => t,
            SpecPiece::Push(a) => ci_open(a),
            SpecPiece::Pop => if k0.0.len() == 0 {
                Seq::<char>::empty()
            } else {
                ci_close(k0.0.last())
            },
        };
        assert(k =~= k0.1 + extra);
        lemma_no_reset_part(k, 0, k0.1.len() as int);
        assert(k.subrange(0, k0.1.len() as int) =~= k0.1);
        let t0 = lemma_emit_uncolored(front, stack);
        lemma_emit_open_same(color, Styling::Ci, front, stack);
        let cut_c = (c0.1.len() - t0) as int;
        let cut_k = (k0.1.len() - t0) as int;
        match last {
            SpecPiece::Text(t) => {
                let c = c0.1 + t;
                assert(c.subrange(0, c.len() - (t0 + t.len())) =~= c0.1.subrange(0, cut_c));
                assert(k.subrange(0, k.len() - (t0 + t.len())) =~= k0.1.subrange(0, cut_k));
                assert(c.subrange(c.len() - (t0 + t.len()), c.len() as int) =~= c0.1.subrange(
                    cut_c,
                    c0.1.len() as int,
                ) + t);
                assert(k.subrange(k.len() - (t0 + t.len()), k.len() as int) =~= k0.1.subrange(
                    cut_k,
                    k0.1.len() as int,
                ) + t);
                t0 + t.len()
            },
            SpecPiece::Push(a) => {
                assert(unmarked(a));
                assert(color_open(blank_palette(), a) =~= Seq::<char>::empty());
                assert(ci_open(a) =~= Seq::<char>::empty());
                assert(c0.1 + color_open(blank_palette(), a) =~= c0.1);
                assert(k0.1 + ci_open(a) =~= k0.1);
                assert forall|i: int| 0 <= i < k0.0.push(a).len() implies unmarked(
                    #[trigger] k0.0.push(a)[i],
                ) by {
                    if i < k0.0.len() {
                        assert(k0.0.push(a)[i] == k0.0[i]);
                    }
                }
                t0
            },
            SpecPiece::Pop => {
                if k0.0.len() == 0 {
                    t0
                } else {
                    let a = k0.0.last();
                    assert(unmarked(k0.0[k0.0.len() - 1]));
                    assert(ci_close(a) =~= Seq::<char>::empty());
                    assert(k0.1 + ci_close(a) =~= k0.1);
                    assert forall|i: int| 0 <= i < k0.0.drop_last().len() implies unmarked(
                        #[trigger] k0.0.drop_last()[i],
                    ) by {
                        assert(k0.0.drop_last()[i] == k0.0[i]);
                    }
                    if color_close(a) == RESET_CODE@ {
                        let c = c0.1 + RESET_CODE@;
                        let pre = c0.1.subrange(0, cut_c);
                        let tl = c0.1.subrange(cut_c, c0.1.len() as int);
                        assert(c0.1 =~= pre + tl);
                        lemma_no_reset_part(k0.1, cut_k, k0.1.len() as int);
                        lemma_without_resets_tail(pre, tl);
                        assert(c.subrange(c.len() - 4, c.len() as int) =~= RESET_CODE@);
                        assert(c.subrange(0, c.len() - 4) =~= c0.1);
                        assert(c.subrange(0, c.len() - 0) =~= c);
                        assert(k.subrange(0, k.len() - 0) =~= k);
                        assert(k0.1 =~= k0.1.subrange(0, cut_k) + k0.1.subrange(
                            cut_k,
                            k0.1.len() as int,
                        ));
                        assert(c.subrange(c.len() - 0, c.len() as int) =~= Seq::<char>::empty());
                        assert(k.subrange(k.len() - 0, k.len() as int) =~= Seq::<char>::empty());
                        0
                    } else {
                        assert(color_close(a) =~= Seq::<char>::empty());
                        assert(c0.1 + color_close(a) =~= c0.1);
                        t0
                    }
                }
            },
        }
    }
}

/// Every annotation of the document is unmarked.
pub open spec fn doc_unmarked(d: SpecDoc) -> bool
    decreases d,
{
    match d {
        SpecDoc::Nest(_, b) => doc_unmarked(*b),
        SpecDoc::Align(b) => doc_unmarked(*b),
        SpecDoc::Annotated(a, b) => unmarked(a) && doc_unmarked(*b),
        SpecDoc::Append(a, b) => doc_unmarked(*a) && doc_unmarked(*b),
        _ => true,
    }
}

proof fn lemma_opens_only_unmarked_append(p1: Seq<SpecPiece>, p2: Seq<SpecPiece>)
    requires
        opens_only_unmarked(p1),
        opens_only_unmarked(p2),
    ensures
        opens_only_unmarked(p1 + p2),
{
    assert forall|i: int| 0 <= i < (p1 + p2).len() implies match #[trigger] (p1 + p2)[i] {
        SpecPiece::Push(a) => unmarked(a),
        _ => true,
    } by {
        if i < p1.len() {
            assert((p1 + p2)[i] == p1[i]);
        } else {
            assert((p1 + p2)[i] == p2[i - p1.len()]);
        }
    }
}

/// The layout of a document whose annotations are unmarked opens only
/// unmarked annotations.
proof fn lemma_layout_unmarked(d: SpecDoc, ind: nat, col: nat)
    requires
        doc_unmarked(d),
    ensures
        opens_only_unmarked(layout(d, ind, col).0),
    decreases d,
{
    let pieces = layout(d, ind, col).0;
    match d {
        SpecDoc::Nil => {},
        SpecDoc::Text(s) => {
            assert(pieces[0] == SpecPiece::Text(s));
        },
        SpecDoc::Line => {
            assert(pieces[0] == SpecPiece::Text(newline(ind)));
        },
        SpecDoc::Nest(n, b) => lemma_layout_unmarked(*b, ind + n, col),
        SpecDoc::Align(b) => lemma_layout_unmarked(*b, col, col),
        SpecDoc::Annotated(a, b) => {
            let open = seq![SpecPiece::Push(a)];
            let close = seq![SpecPiece::Pop];
            lemma_layout_unmarked(*b, ind, col);
            assert(open[0] == SpecPiece::Push(a));
            assert(close[0] == SpecPiece::Pop);
            lemma_opens_only_unmarked_append(open, layout(*b, ind, col).0);
            lemma_opens_only_unmarked_append(open + layout(*b, ind, col).0, close);
        },
        SpecDoc::Append(a, b) => {
            let left = layout(*a, ind, col);
            lemma_layout_unmarked(*a, ind, col);
            lemma_layout_unmarked(*b, ind, left.1);
            lemma_opens_only_unmarked_append(left.0, layout(*b, ind, left.1).0);
        },
    }
}

/// Neither emphasis, a URL, a tag nor a keyword occurs in the text, at any
/// depth.
pub open spec fn text_unmarked(t: SpecText) -> bool
    decreases t,
{
    match t {
        SpecText::EmText(_) | SpecText::Url(_) | SpecText::GlobalTag(_) | SpecText::PrivateTag(_)
        | SpecText::Keyword(_) => false,
        SpecText::Concat(ts) => texts_unmarked(ts),
        SpecText::Stack(ts) => texts_unmarked(ts),
        SpecText::Indent(_, b) => text_unmarked(*b),
        _ => true,
    }
}

/// Neither emphasis, a URL, a tag nor a keyword occurs in the texts, at
/// any depth.
pub open spec fn texts_unmarked(ts: Seq<SpecText>) -> bool
    decreases ts,
{
    if ts.len() == 0 {
        true
    } else {
        texts_unmarked(ts.drop_last()) && text_unmarked(ts.last())
    }
}

proof fn lemma_line_start_unmarked(r: crate::syntax::Region, i: nat)
    ensures
        doc_unmarked(numbered_line_start(r, i)),
{
    reveal_with_fuel(doc_unmarked, 5);
}

proof fn lemma_marked_lines_unmarked(r: crate::syntax::Region, src: Seq<Seq<char>>, k: nat)
    ensures
        doc_unmarked(marked_lines_doc(r, src, k)),
    decreases k,
{
    if k > 0 {
        lemma_marked_lines_unmarked(r, src, (k - 1) as nat);
        let i = (r.start_line + k - 1) as nat;
        lemma_line_start_unmarked(r, i);
        reveal_with_fuel(doc_unmarked, 6);
        assert(doc_unmarked(marked_line_doc(r, src, i)));
    }
}

proof fn lemma_region_unmarked(r: crate::syntax::Region, src: Seq<Seq<char>>)
    ensures
        doc_unmarked(region_doc(r, src)),
{
    reveal_with_fuel(doc_unmarked, 8);
    if r.start_line == r.end_line {
        lemma_line_start_unmarked(r, r.start_line as nat);
        assert(doc_unmarked(single_line_doc(r, src)));
    } else {
        lemma_marked_lines_unmarked(r, src, crate::render::region_line_count(r));
    }
}

proof fn lemma_text_doc_unmarked(t: SpecText, home: ModuleId, src: Seq<Seq<char>>, interns: Interns)
    requires
        text_unmarked(t),
    ensures
        doc_unmarked(text_doc(t, home, src, interns)),
    decreases t,
{
    reveal_with_fuel(doc_unmarked, 5);
    match t {
        SpecText::ErrorType(s) => {
            reveal_with_fuel(doc_unmarked, 7);
        },
        SpecText::Region(r) => lemma_region_unmarked(r, src),
        SpecText::Concat(ts) => lemma_concat_unmarked(ts, home, src, interns),
        SpecText::Stack(ts) => lemma_stack_unmarked(ts, home, src, interns),
        SpecText::Indent(n, b) => {
            lemma_text_doc_unmarked(*b, home, src, interns);
        },
        _ => {},
    }
}

proof fn lemma_concat_unmarked(ts: Seq<SpecText>, home: ModuleId, src: Seq<Seq<char>>, interns: Interns)
    requires
        texts_unmarked(ts),
    ensures
        doc_unmarked(concat_doc(ts, home, src, interns)),
    decreases ts,
{
    if ts.len() > 0 {
        lemma_concat_unmarked(ts.drop_last(), home, src, interns);
        lemma_text_doc_unmarked(ts.last(), home, src, interns);
    }
}

proof fn lemma_stack_unmarked(ts: Seq<SpecText>, home: ModuleId, src: Seq<Seq<char>>, interns: Interns)
    requires
        texts_unmarked(ts),
    ensures
        doc_unmarked(stack_doc(ts, home, src, interns)),
    decreases ts,
{
    reveal_with_fuel(doc_unmarked, 3);
    if ts.len() == 1 {
        assert(ts[0] == ts.last());
        lemma_text_doc_unmarked(ts[0], home, src, interns);
    } else if ts.len() > 1 {
        lemma_stack_unmarked(ts.drop_last(), home, src, interns);
        lemma_text_doc_unmarked(ts.last(), home, src, interns);
    }
}

/// With a palette whose escape sequences are all empty, deleting every
/// reset sequence from what a color terminal is written gives exactly what
/// a console is written, for every report without emphasis, URLs, tags or
/// keywords whose console rendering holds no reset sequence: the report
/// puts all the characters in, and the writers only add styling.
pub proof fn law_blank_palette_is_console(
    t: SpecText,
    home: ModuleId,
    src: Seq<Seq<char>>,
    interns: Interns,
)
    requires
        text_unmarked(t),
        holds_no_reset(rendered(Styling::Ci, t, home, src, interns)),
    ensures
        without_resets(rendered(Styling::Color(blank_palette()), t, home, src, interns)) == rendered(
            Styling::Ci,
            t,
            home,
            src,
            interns,
        ),
{
    let d = text_doc(t, home, src, interns);
    lemma_text_doc_unmarked(t, home, src, interns);
    lemma_layout_unmarked(d, 0, 0);
    let pieces = layout(d, 0, 0).0;
    let tail = lemma_emit_uncolored(pieces, seq![]);
    let c = emit(Styling::Color(blank_palette()), pieces, seq![]).1;
    let k = emit(Styling::Ci, pieces, seq![]).1;
    let pre = c.subrange(0, c.len() - tail);
    let tl = c.subrange(c.len() - tail, c.len() as int);
    assert(c =~= pre + tl);
    lemma_no_reset_part(k, k.len() - tail, k.len() as int);
    lemma_without_resets_tail(pre, tl);
    assert(k =~= k.subrange(0, k.len() - tail) + k.subrange(k.len() - tail, k.len() as int));
}

/// In particular, the law holds of every report without emphasis, URLs,
/// tags or keywords whose own text, names and source lines hold no escape
/// character.
pub proof fn law_blank_palette_is_console_without_escapes(
    t: SpecText,
    home: ModuleId,
    src: Seq<Seq<char>>,
    interns: Interns,
)
    requires
        text_ok(t, home, src, interns),
        text_unmarked(t),
        text_lacks_escape(t),
        names_lack_escape(interns),
        lines_lack_escape(src),
    ensures
        without_resets(rendered(Styling::Color(blank_palette()), t, home, src, interns)) == rendered(
            Styling::Ci,
            t,
            home,
            src,
            interns,
        ),
{
    let k = rendered(Styling::Ci, t, home, src, interns);
    law_console_has_no_colors(t, home, src, interns);
    lemma_reset_chars();
    assert forall|i: int| !#[trigger] reset_at(k, i) by {
        if reset_at(k, i) {
            assert(k.subrange(i, i + 4)[0] == k[i]);
        }
    }
    law_blank_palette_is_console(t, home, src, interns);
}

} // verus!
