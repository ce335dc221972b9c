//! What holds of every report: how each kind of text is shown, and how
//! texts combine.

use vstd::prelude::*;
use crate::doc::{SpecDoc, layout, newline};
use crate::render::{
    app, ann, gutter, marked_line_doc, marked_lines_doc, number_width, numbered_line_start,
    region_doc, region_line_count, region_ok, rendered, single_line_doc, symbol_name, text_doc,
};
use crate::strings::{decimal, is_blank, lemma_utf8_width_ascii, run_of, spaces};
use crate::syntax::{BinOp, Region, bin_op_text};
use crate::style::{
    Annotation, Styling, close_text, emit, lemma_emit_append, law_layout_balanced, open_text,
    styled,
};
use crate::symbol::{Interns, ModuleId, Symbol};
use crate::text::{ContentKind, SpecText};

verus! {

/// An annotation styles exactly the stretch it covers: the writer writes
/// what opens it, the stretch, and what closes it.
pub proof fn law_annotation_wraps(st: Styling, a: Annotation, d: SpecDoc, ind: nat, col: nat)
    ensures
        styled(st, ann(a, d), ind, col) == open_text(st, a) + styled(st, d, ind, col) + close_text(st, a),
{
    let inner = layout(d, ind, col).0;
    let open = seq![crate::doc::SpecPiece::Push(a)];
    let close = seq![crate::doc::SpecPiece::Pop];
    assert(layout(ann(a, d), ind, col).0 =~= open + inner + close);
    lemma_emit_append(st, open + inner, close, seq![]);
    lemma_emit_append(st, open, inner, seq![]);
    law_layout_balanced(st, d, ind, col, seq![a]);
    assert(open.drop_last() =~= Seq::<crate::doc::SpecPiece>::empty());
    assert(close.drop_last() =~= Seq::<crate::doc::SpecPiece>::empty());
    assert(Seq::<Annotation>::empty().push(a) =~= seq![a]);
    assert(seq![a].drop_last() =~= Seq::<Annotation>::empty());
    assert(emit(st, open.drop_last(), seq![]) == (Seq::<Annotation>::empty(), Seq::<char>::empty()));
    assert(emit(st, close.drop_last(), seq![a]) == (seq![a], Seq::<char>::empty()));
    assert(Seq::<char>::empty() + open_text(st, a) =~= open_text(st, a));
}

/// Two documents one after the other are written one after the other, the
/// second from the column where the first ends.
pub proof fn law_append_in_order(st: Styling, a: SpecDoc, b: SpecDoc, ind: nat, col: nat)
    ensures
        styled(st, app(a, b), ind, col) == styled(st, a, ind, col) + styled(
            st,
            b,
            ind,
            layout(a, ind, col).1,
        ),
{
    let left = layout(a, ind, col);
    lemma_emit_append(st, left.0, layout(b, ind, left.1).0, seq![]);
    law_layout_balanced(st, a, ind, col, seq![]);
    law_layout_balanced(st, b, ind, left.1, seq![]);
}

/// Text is written as it is.
pub proof fn law_text_as_is(st: Styling, s: Seq<char>, ind: nat, col: nat)
    ensures
        styled(st, SpecDoc::Text(s), ind, col) == s,
{
    let pieces = layout(SpecDoc::Text(s), ind, col).0;
    assert(pieces.drop_last() =~= Seq::<crate::doc::SpecPiece>::empty());
    assert(emit(st, pieces.drop_last(), seq![]) == (Seq::<Annotation>::empty(), Seq::<char>::empty()));
    assert(Seq::<char>::empty() + s =~= s);
}

/// A line break writes a newline and the current indentation.
pub proof fn law_line_break(st: Styling, ind: nat, col: nat)
    ensures
        styled(st, SpecDoc::Line, ind, col) == newline(ind),
        layout(SpecDoc::Line, ind, col).1 == ind,
{
    let pieces = layout(SpecDoc::Line, ind, col).0;
    assert(pieces.drop_last() =~= Seq::<crate::doc::SpecPiece>::empty());
    assert(emit(st, pieces.drop_last(), seq![]) == (Seq::<Annotation>::empty(), Seq::<char>::empty()));
    assert(Seq::<char>::empty() + newline(ind) =~= newline(ind));
}

/// A value is named by its own name if it is defined in the module the
/// report is about, and qualified by its module's name otherwise; the
/// writer styles it as a symbol.
pub proof fn law_value_qualified_unless_home(
    st: Styling,
    sym: Symbol,
    home: ModuleId,
    src: Seq<Seq<char>>,
    interns: Interns,
)
    ensures
        rendered(st, SpecText::Value(sym), home, src, interns) == open_text(st, Annotation::Symbol)
            + (if sym.module == home {
            interns.ident_name(sym)
        } else {
            interns.module_name_of(sym.module) + seq!['.'] + interns.ident_name(sym)
        }) + close_text(st, Annotation::Symbol),
{
    law_annotation_wraps(st, Annotation::Symbol, SpecDoc::Text(symbol_name(sym, home, interns)), 0, 0);
    law_text_as_is(st, symbol_name(sym, home, interns), 0, 0);
}

/// A private tag is named like a value, and styled as a tag.
pub proof fn law_private_tag_qualified_unless_home(
    st: Styling,
    sym: Symbol,
    home: ModuleId,
    src: Seq<Seq<char>>,
    interns: Interns,
)
    ensures
        rendered(st, SpecText::PrivateTag(sym), home, src, interns) == open_text(
            st,
            Annotation::PrivateTag,
        ) + symbol_name(sym, home, interns) + close_text(st, Annotation::PrivateTag),
{
    law_annotation_wraps(st, Annotation::PrivateTag, SpecDoc::Text(symbol_name(sym, home, interns)), 0, 0);
    law_text_as_is(st, symbol_name(sym, home, interns), 0, 0);
}

/// On a console without colors: plain text is written as it is, emphasis
/// between stars, a URL between angle brackets, a global tag, a private tag
/// or a keyword between backticks, and a record field after a dot.
pub proof fn law_console_markup(s: Seq<char>, sym: Symbol, home: ModuleId, src: Seq<Seq<char>>, interns: Interns)
    ensures
        rendered(Styling::Ci, SpecText::Plain(s), home, src, interns) == s,
        rendered(Styling::Ci, SpecText::EmText(s), home, src, interns) == seq!['*'] + s + seq!['*'],
        rendered(Styling::Ci, SpecText::Url(s), home, src, interns) == seq!['<'] + s + seq!['>'],
        rendered(Styling::Ci, SpecText::GlobalTag(s), home, src, interns) == seq!['`'] + s + seq!['`'],
        rendered(Styling::Ci, SpecText::Keyword(s), home, src, interns) == seq!['`'] + s + seq!['`'],
        rendered(Styling::Ci, SpecText::PrivateTag(sym), home, src, interns) == seq!['`']
            + symbol_name(sym, home, interns) + seq!['`'],
        rendered(Styling::Ci, SpecText::RecordField(s), home, src, interns) == seq!['.'] + s,
{
    let st = Styling::Ci;
    law_text_as_is(st, s, 0, 0);
    law_text_as_is(st, seq!['.'] + s, 0, 0);
    law_annotation_wraps(st, Annotation::PlainText, SpecDoc::Text(s), 0, 0);
    law_annotation_wraps(st, Annotation::Emphasized, SpecDoc::Text(s), 0, 0);
    law_annotation_wraps(st, Annotation::Url, SpecDoc::Text(s), 0, 0);
    law_annotation_wraps(st, Annotation::GlobalTag, SpecDoc::Text(s), 0, 0);
    law_annotation_wraps(st, Annotation::Keyword, SpecDoc::Text(s), 0, 0);
    law_annotation_wraps(st, Annotation::RecordField, SpecDoc::Text(seq!['.'] + s), 0, 0);
    law_private_tag_qualified_unless_home(st, sym, home, src, interns);
    assert(Seq::<char>::empty() + s + Seq::<char>::empty() =~= s);
    assert(Seq::<char>::empty() + (seq!['.'] + s) + Seq::<char>::empty() =~= seq!['.'] + s);
}

/// The texts of a `Concat` are written one after the other: the last one
/// from the column where the others end.
pub proof fn law_concat_in_order(
    st: Styling,
    ts: Seq<SpecText>,
    t: SpecText,
    home: ModuleId,
    src: Seq<Seq<char>>,
    interns: Interns,
    ind: nat,
    col: nat,
)
    ensures
        styled(st, text_doc(SpecText::Concat(ts.push(t)), home, src, interns), ind, col) == styled(
            st,
            text_doc(SpecText::Concat(ts), home, src, interns),
            ind,
            col,
        ) + styled(
            st,
            text_doc(t, home, src, interns),
            ind,
            layout(text_doc(SpecText::Concat(ts), home, src, interns), ind, col).1,
        ),
{
    assert(ts.push(t).drop_last() =~= ts);
    assert(text_doc(SpecText::Concat(ts.push(t)), home, src, interns) == crate::render::concat_doc(ts.push(t), home, src, interns));
    assert(crate::render::concat_doc(ts.push(t), home, src, interns) == app(crate::render::concat_doc(ts.push(t).drop_last(), home, src, interns), text_doc(ts.push(t).last(), home, src, interns)));
    assert(text_doc(SpecText::Concat(ts), home, src, interns) == crate::render::concat_doc(ts, home, src, interns));
    assert(text_doc(SpecText::Concat(ts.push(t)), home, src, interns) == app(
        text_doc(SpecText::Concat(ts), home, src, interns),
        text_doc(t, home, src, interns),
    ));
    law_append_in_order(
        st,
        text_doc(SpecText::Concat(ts), home, src, interns),
        text_doc(t, home, src, interns),
        ind,
        col,
    );
}

/// The texts of a `Stack` each get a line of their own: after the first,
/// each starts on a new line at the current indentation.
pub proof fn law_stack_separate_lines(
    st: Styling,
    ts: Seq<SpecText>,
    t: SpecText,
    home: ModuleId,
    src: Seq<Seq<char>>,
    interns: Interns,
    ind: nat,
    col: nat,
)
    requires
        ts.len() >= 1,
    ensures
        styled(st, text_doc(SpecText::Stack(ts.push(t)), home, src, interns), ind, col) == styled(
            st,
            text_doc(SpecText::Stack(ts), home, src, interns),
            ind,
            col,
        ) + newline(ind) + styled(st, text_doc(t, home, src, interns), ind, ind),
{
    assert(ts.push(t).drop_last() =~= ts);
    let first = text_doc(SpecText::Stack(ts), home, src, interns);
    assert(text_doc(SpecText::Stack(ts.push(t)), home, src, interns) == crate::render::stack_doc(ts.push(t), home, src, interns));
    assert(text_doc(SpecText::Stack(ts), home, src, interns) == crate::render::stack_doc(ts, home, src, interns));
    assert(crate::render::stack_doc(ts.push(t), home, src, interns) == app(app(crate::render::stack_doc(ts.push(t).drop_last(), home, src, interns), SpecDoc::Line), text_doc(ts.push(t).last(), home, src, interns)));
    assert(text_doc(SpecText::Stack(ts.push(t)), home, src, interns) == app(
        app(first, SpecDoc::Line),
        text_doc(t, home, src, interns),
    ));
    let end = layout(first, ind, col).1;
    law_append_in_order(st, app(first, SpecDoc::Line), text_doc(t, home, src, interns), ind, col);
    law_append_in_order(st, first, SpecDoc::Line, ind, col);
    law_line_break(st, ind, end);
}

/// A stack of one text is that text.
pub proof fn law_stack_single(
    st: Styling,
    t: SpecText,
    home: ModuleId,
    src: Seq<Seq<char>>,
    interns: Interns,
    ind: nat,
    col: nat,
)
    ensures
        styled(st, text_doc(SpecText::Stack(seq![t]), home, src, interns), ind, col) == styled(
            st,
            text_doc(t, home, src, interns),
            ind,
            col,
        ),
{
    assert(text_doc(SpecText::Stack(seq![t]), home, src, interns) == crate::render::stack_doc(seq![t], home, src, interns));
    assert(seq![t][0] == t);
    assert(text_doc(SpecText::Stack(seq![t]), home, src, interns) == app(
        SpecDoc::Nil,
        text_doc(t, home, src, interns),
    ));
    law_append_in_order(st, SpecDoc::Nil, text_doc(t, home, src, interns), ind, col);
    assert(emit(st, layout(SpecDoc::Nil, ind, col).0, seq![]).1 =~= Seq::<char>::empty());
    assert(Seq::<char>::empty() + styled(st, text_doc(t, home, src, interns), ind, col) =~= styled(
        st,
        text_doc(t, home, src, interns),
        ind,
        col,
    ));
}

/// `Indent(n, t)` writes `n` spaces, then `t`, each of whose lines starts
/// `n` columns right of the column where the indented text starts.
pub proof fn law_indent(
    st: Styling,
    n: nat,
    t: SpecText,
    home: ModuleId,
    src: Seq<Seq<char>>,
    interns: Interns,
    ind: nat,
    col: nat,
)
    ensures
        styled(st, text_doc(SpecText::Indent(n, Box::new(t)), home, src, interns), ind, col)
            == spaces(n) + styled(st, text_doc(t, home, src, interns), col + n, col + n),
{
    let d = text_doc(t, home, src, interns);
    let body = app(SpecDoc::Nil, d);
    assert(text_doc(SpecText::Indent(n, Box::new(t)), home, src, interns) == crate::doc::indent_doc(body, n));
    lemma_indented_doc(st, body, n, ind, col);
    law_append_in_order(st, SpecDoc::Nil, d, col + n, col + n);
    lemma_nil(st, col + n, col + n);
    assert(Seq::<char>::empty() + styled(st, d, col + n, col + n) =~= styled(st, d, col + n, col + n));
}

/// On a console, an annotation that has no markers there leaves its
/// stretch as it is.
proof fn lemma_console_unmarked(a: Annotation, d: SpecDoc, ind: nat, col: nat)
    requires
        crate::style::ci_open(a) == Seq::<char>::empty(),
        crate::style::ci_close(a) == Seq::<char>::empty(),
    ensures
        styled(Styling::Ci, ann(a, d), ind, col) == styled(Styling::Ci, d, ind, col),
{
    law_annotation_wraps(Styling::Ci, a, d, ind, col);
    assert(Seq::<char>::empty() + styled(Styling::Ci, d, ind, col) + Seq::<char>::empty()
        =~= styled(Styling::Ci, d, ind, col));
}

/// Nothing writes nothing.
proof fn lemma_nil(st: Styling, ind: nat, col: nat)
    ensures
        styled(st, SpecDoc::Nil, ind, col) == Seq::<char>::empty(),
        layout(SpecDoc::Nil, ind, col).1 == col,
{
    assert(layout(SpecDoc::Nil, ind, col).0.len() == 0);
}

/// Text indented by `n` is `n` spaces and the text.
proof fn lemma_indented_text(st: Styling, s: Seq<char>, n: nat, ind: nat, col: nat)
    ensures
        styled(st, crate::doc::indent_doc(SpecDoc::Text(s), n), ind, col) == spaces(n) + s,
{
    let body = app(SpecDoc::Text(spaces(n)), SpecDoc::Text(s));
    assert(layout(SpecDoc::Nest(n, Box::new(body)), col, col) == layout(body, col + n, col));
    assert(layout(crate::doc::indent_doc(SpecDoc::Text(s), n), ind, col) == layout(body, col + n, col));
    law_append_in_order(st, SpecDoc::Text(spaces(n)), SpecDoc::Text(s), col + n, col);
    law_text_as_is(st, spaces(n), col + n, col);
    law_text_as_is(st, s, col + n, layout(SpecDoc::Text(spaces(n)), col + n, col).1);
}

/// What a console shows at the start of a numbered source line: a line
/// break, the line number right-aligned to the widest one, and the gutter.
pub open spec fn console_line_start(r: Region, i: nat, ind: nat) -> Seq<char> {
    let num = decimal((i + 1) as nat);
    newline(ind) + spaces((number_width(r) - num.len()) as nat) + num + gutter()
}

/// What a console shows at the start of a numbered line.
proof fn lemma_console_line_start(r: Region, i: nat, ind: nat, col: nat)
    ensures
        styled(Styling::Ci, numbered_line_start(r, i), ind, col) == console_line_start(r, i, ind),
{
    let c = Styling::Ci;
    let num = decimal((i + 1) as nat);
    let pad = SpecDoc::Text(spaces((number_width(r) - num.len()) as nat));
    let d1 = app(SpecDoc::Line, pad);
    let d2 = app(d1, ann(Annotation::LineNumber, SpecDoc::Text(num)));
    let g = ann(Annotation::GutterBar, SpecDoc::Text(gutter()));
    law_append_in_order(c, d2, g, ind, col);
    law_append_in_order(c, d1, ann(Annotation::LineNumber, SpecDoc::Text(num)), ind, col);
    law_append_in_order(c, SpecDoc::Line, pad, ind, col);
    law_line_break(c, ind, col);
    law_text_as_is(c, spaces((number_width(r) - num.len()) as nat), ind, ind);
    let c1 = layout(d1, ind, col).1;
    let c2 = layout(d2, ind, col).1;
    lemma_console_unmarked(Annotation::LineNumber, SpecDoc::Text(num), ind, c1);
    law_text_as_is(c, num, ind, c1);
    lemma_console_unmarked(Annotation::GutterBar, SpecDoc::Text(gutter()), ind, c2);
    law_text_as_is(c, gutter(), ind, c2);
}

/// What a console shows of a region on a single line, at indentation
/// `ind`: a blank line; the numbered source line, indented by two if it
/// is not blank; under it, past the gutter, a caret under each column from
/// the start column to the end column; and two line breaks.
pub open spec fn console_single_line_region(r: Region, src: Seq<Seq<char>>, ind: nat) -> Seq<char> {
    let line = src[r.start_line as int];
    let width = number_width(r);
    newline(ind) + console_line_start(r, r.start_line as nat, ind) + (if is_blank(line) {
        Seq::<char>::empty()
    } else {
        spaces(2) + line
    }) + newline(ind) + spaces(width) + gutter() + spaces(2) + spaces(r.start_col as nat)
        + run_of('^', (r.end_col - r.start_col) as nat) + newline(ind) + newline(ind)
}

/// A region on a single line is shown with its line, and carets under the
/// columns it covers.
pub proof fn law_console_single_line_region(
    r: Region,
    src: Seq<Seq<char>>,
    home: ModuleId,
    interns: Interns,
    ind: nat,
    col: nat,
)
    requires
        r.start_line == r.end_line,
        region_ok(r, src),
    ensures
        styled(Styling::Ci, text_doc(SpecText::Region(r), home, src, interns), ind, col)
            == console_single_line_region(r, src, ind),
{
    let c = Styling::Ci;
    let line = src[r.start_line as int];
    let width = number_width(r);
    let start = numbered_line_start(r, r.start_line as nat);
    let rest = if is_blank(line) {
        SpecDoc::Nil
    } else {
        ann(Annotation::CodeBlock, app(SpecDoc::Nil, crate::doc::indent_doc(SpecDoc::Text(line), 2)))
    };
    let source_line = app(start, rest);
    let h1 = app(SpecDoc::Line, SpecDoc::Text(spaces(width)));
    let h2 = app(h1, ann(Annotation::GutterBar, SpecDoc::Text(gutter())));
    let h3 = app(h2, crate::doc::indent_doc(SpecDoc::Text(spaces(r.start_col as nat)), 2));
    let carets = ann(Annotation::Error, SpecDoc::Text(run_of('^', (r.end_col - r.start_col) as nat)));
    let highlight = app(h3, carets);
    let body = app(source_line, highlight);
    assert(single_line_doc(r, src) == body);
    let r1 = app(SpecDoc::Nil, SpecDoc::Line);
    let r2 = app(r1, body);
    let r3 = app(r2, SpecDoc::Line);
    assert(text_doc(SpecText::Region(r), home, src, interns) == app(r3, SpecDoc::Line));

    // The frame: a line break before the body, two after it.
    law_append_in_order(c, r3, SpecDoc::Line, ind, col);
    law_append_in_order(c, r2, SpecDoc::Line, ind, col);
    law_append_in_order(c, r1, body, ind, col);
    law_append_in_order(c, SpecDoc::Nil, SpecDoc::Line, ind, col);
    lemma_nil(c, ind, col);
    law_line_break(c, ind, col);
    law_line_break(c, ind, layout(r2, ind, col).1);
    law_line_break(c, ind, layout(r3, ind, col).1);

    // The source line.
    law_append_in_order(c, body, SpecDoc::Nil, ind, ind);
    law_append_in_order(c, source_line, highlight, ind, ind);
    law_append_in_order(c, start, rest, ind, ind);
    lemma_console_line_start(r, r.start_line as nat, ind, ind);
    let after_start = layout(start, ind, ind).1;
    if is_blank(line) {
        lemma_nil(c, ind, after_start);
    } else {
        let inner = app(SpecDoc::Nil, crate::doc::indent_doc(SpecDoc::Text(line), 2));
        lemma_console_unmarked(Annotation::CodeBlock, inner, ind, after_start);
        law_append_in_order(c, SpecDoc::Nil, crate::doc::indent_doc(SpecDoc::Text(line), 2), ind, after_start);
        lemma_nil(c, ind, after_start);
        lemma_indented_text(c, line, 2, ind, after_start);
        assert(Seq::<char>::empty() + (spaces(2) + line) =~= spaces(2) + line);
    }

    // The line of carets.
    let after_source = layout(source_line, ind, ind).1;
    law_append_in_order(c, h3, carets, ind, after_source);
    law_append_in_order(c, h2, crate::doc::indent_doc(SpecDoc::Text(spaces(r.start_col as nat)), 2), ind, after_source);
    law_append_in_order(c, h1, ann(Annotation::GutterBar, SpecDoc::Text(gutter())), ind, after_source);
    law_append_in_order(c, SpecDoc::Line, SpecDoc::Text(spaces(width)), ind, after_source);
    law_line_break(c, ind, after_source);
    law_text_as_is(c, spaces(width), ind, ind);
    let e1 = layout(h1, ind, after_source).1;
    let e2 = layout(h2, ind, after_source).1;
    let e3 = layout(h3, ind, after_source).1;
    lemma_console_unmarked(Annotation::GutterBar, SpecDoc::Text(gutter()), ind, e1);
    law_text_as_is(c, gutter(), ind, e1);
    lemma_indented_text(c, spaces(r.start_col as nat), 2, ind, e2);
    lemma_console_unmarked(Annotation::Error, SpecDoc::Text(run_of('^', (r.end_col - r.start_col) as nat)), ind, e3);
    law_text_as_is(c, run_of('^', (r.end_col - r.start_col) as nat), ind, e3);

    assert(styled(c, text_doc(SpecText::Region(r), home, src, interns), ind, col)
        =~= console_single_line_region(r, src, ind));
}

/// A document indented by `n` is `n` spaces and the document, whose lines
/// start `n` columns right of where the indented document starts.
proof fn lemma_indented_doc(st: Styling, d: SpecDoc, n: nat, ind: nat, col: nat)
    ensures
        styled(st, crate::doc::indent_doc(d, n), ind, col) == spaces(n) + styled(st, d, col + n, col + n),
{
    let body = app(SpecDoc::Text(spaces(n)), d);
    assert forall|i: int| 0 <= i < spaces(n).len() implies (#[trigger] spaces(n)[i] as u32) < 0x80 by {
        assert(spaces(n)[i] == ' ');
    }
    lemma_utf8_width_ascii(spaces(n));
    assert(layout(SpecDoc::Nest(n, Box::new(body)), col, col) == layout(body, col + n, col));
    assert(layout(crate::doc::indent_doc(d, n), ind, col) == layout(body, col + n, col));
    law_append_in_order(st, SpecDoc::Text(spaces(n)), d, col + n, col);
    law_text_as_is(st, spaces(n), col + n, col);
}

/// What a console shows of the first `k` lines of a region that spans
/// several lines, at indentation `ind`: each numbered, marked with `>`, and
/// indented by two if it is not blank.
pub open spec fn console_marked_lines(r: Region, src: Seq<Seq<char>>, k: nat, ind: nat) -> Seq<char>
    decreases k,
{
    if k == 0 {
        Seq::<char>::empty()
    } else {
        let i = (r.start_line + k - 1) as nat;
        let line = src[i as int];
        console_marked_lines(r, src, (k - 1) as nat, ind) + console_line_start(r, i, ind) + seq!['>']
            + (if is_blank(line) {
            Seq::<char>::empty()
        } else {
            spaces(2) + line
        })
    }
}

/// What a console shows of the marked lines of a region, from any column.
proof fn lemma_console_marked_lines(r: Region, src: Seq<Seq<char>>, k: nat, ind: nat, col: nat)
    ensures
        styled(Styling::Ci, marked_lines_doc(r, src, k), ind, col) == console_marked_lines(r, src, k, ind),
    decreases k,
{
    let c = Styling::Ci;
    if k == 0 {
        lemma_nil(c, ind, col);
    } else {
        let i = (r.start_line + k - 1) as nat;
        let line = src[i as int];
        let prev = marked_lines_doc(r, src, (k - 1) as nat);
        lemma_console_marked_lines(r, src, (k - 1) as nat, ind, col);
        law_append_in_order(c, prev, marked_line_doc(r, src, i), ind, col);
        let c0 = layout(prev, ind, col).1;
        let start = numbered_line_start(r, i);
        let mark = ann(Annotation::Error, SpecDoc::Text(seq!['>']));
        let rest = if !is_blank(line) {
            crate::doc::indent_doc(ann(Annotation::CodeBlock, SpecDoc::Text(line)), 2)
        } else {
            SpecDoc::Nil
        };
        law_append_in_order(c, app(start, mark), rest, ind, c0);
        law_append_in_order(c, start, mark, ind, c0);
        lemma_console_line_start(r, i, ind, c0);
        let c1 = layout(start, ind, c0).1;
        let c2 = layout(app(start, mark), ind, c0).1;
        lemma_console_unmarked(Annotation::Error, SpecDoc::Text(seq!['>']), ind, c1);
        law_text_as_is(c, seq!['>'], ind, c1);
        if is_blank(line) {
            lemma_nil(c, ind, c2);
        } else {
            lemma_indented_doc(c, ann(Annotation::CodeBlock, SpecDoc::Text(line)), 2, ind, c2);
            lemma_console_unmarked(Annotation::CodeBlock, SpecDoc::Text(line), c2 + 2, c2 + 2);
            law_text_as_is(c, line, c2 + 2, c2 + 2);
        }
        assert(styled(c, marked_lines_doc(r, src, k), ind, col) =~= console_marked_lines(r, src, k, ind));
    }
}

/// A region that spans several lines is shown with each of its lines
/// numbered and marked with `>`, between a blank line and two line breaks.
pub proof fn law_console_multi_line_region(
    r: Region,
    src: Seq<Seq<char>>,
    home: ModuleId,
    interns: Interns,
    ind: nat,
    col: nat,
)
    requires
        r.start_line != r.end_line,
    ensures
        styled(Styling::Ci, text_doc(SpecText::Region(r), home, src, interns), ind, col)
            == newline(ind) + console_marked_lines(r, src, region_line_count(r), ind) + newline(ind)
            + newline(ind),
{
    let c = Styling::Ci;
    let body = marked_lines_doc(r, src, region_line_count(r));
    let r1 = app(SpecDoc::Nil, SpecDoc::Line);
    let r2 = app(r1, body);
    let r3 = app(r2, SpecDoc::Line);
    assert(text_doc(SpecText::Region(r), home, src, interns) == app(r3, SpecDoc::Line));
    law_append_in_order(c, r3, SpecDoc::Line, ind, col);
    law_append_in_order(c, r2, SpecDoc::Line, ind, col);
    law_append_in_order(c, r1, body, ind, col);
    law_append_in_order(c, SpecDoc::Nil, SpecDoc::Line, ind, col);
    lemma_nil(c, ind, col);
    law_line_break(c, ind, col);
    law_line_break(c, ind, layout(r2, ind, col).1);
    law_line_break(c, ind, layout(r3, ind, col).1);
    lemma_console_marked_lines(r, src, region_line_count(r), ind, ind);
    assert(styled(c, text_doc(SpecText::Region(r), home, src, interns), ind, col) =~= newline(ind)
        + console_marked_lines(r, src, region_line_count(r), ind) + newline(ind) + newline(ind));
}

/// Which annotation styles a type of the given kind; an erroneous type is
/// not styled.
pub open spec fn type_annotation(kind: ContentKind) -> Option<Annotation> {
    match kind {
        ContentKind::FlexVar | ContentKind::RigidVar => Some(Annotation::TypeVariable),
        ContentKind::Structure => Some(Annotation::Structure),
        ContentKind::Alias => Some(Annotation::Alias),
        ContentKind::Error => None,
    }
}

/// A type is written as the type printer wrote it, styled by its kind; a
/// module by its name; an operator as it is written in the source.
pub proof fn law_types_modules_operators(
    st: Styling,
    kind: ContentKind,
    printed: Seq<char>,
    m: ModuleId,
    op: BinOp,
    home: ModuleId,
    src: Seq<Seq<char>>,
    interns: Interns,
)
    ensures
        rendered(st, SpecText::Type(kind, printed), home, src, interns) == match type_annotation(
            kind,
        ) {
            Some(a) => open_text(st, a) + printed + close_text(st, a),
            None => printed,
        },
        rendered(st, SpecText::Module(m), home, src, interns) == open_text(st, Annotation::Module)
            + interns.module_name_of(m) + close_text(st, Annotation::Module),
        rendered(st, SpecText::BinOp(op), home, src, interns) == open_text(st, Annotation::BinOp)
            + bin_op_text(op) + close_text(st, Annotation::BinOp),
{
    law_text_as_is(st, printed, 0, 0);
    law_text_as_is(st, interns.module_name_of(m), 0, 0);
    law_text_as_is(st, bin_op_text(op), 0, 0);
    match type_annotation(kind) {
        Some(a) => law_annotation_wraps(st, a, SpecDoc::Text(printed), 0, 0),
        None => {},
    }
    law_annotation_wraps(st, Annotation::Module, SpecDoc::Text(interns.module_name_of(m)), 0, 0);
    law_annotation_wraps(st, Annotation::BinOp, SpecDoc::Text(bin_op_text(op)), 0, 0);
}

/// A type error gets a line of its own, indented by four, between two line
/// breaks.
pub proof fn law_error_type_on_own_line(
    st: Styling,
    s: Seq<char>,
    home: ModuleId,
    src: Seq<Seq<char>>,
    interns: Interns,
    ind: nat,
    col: nat,
)
    ensures
        styled(st, text_doc(SpecText::ErrorType(s), home, src, interns), ind, col) == newline(ind)
            + spaces(4) + s + newline(ind),
{
    let d1 = app(SpecDoc::Nil, SpecDoc::Line);
    let d2 = app(d1, crate::doc::indent_doc(SpecDoc::Text(s), 4));
    assert(text_doc(SpecText::ErrorType(s), home, src, interns) == app(d2, SpecDoc::Line));
    law_append_in_order(st, d2, SpecDoc::Line, ind, col);
    law_append_in_order(st, d1, crate::doc::indent_doc(SpecDoc::Text(s), 4), ind, col);
    law_append_in_order(st, SpecDoc::Nil, SpecDoc::Line, ind, col);
    lemma_nil(st, ind, col);
    law_line_break(st, ind, col);
    lemma_indented_text(st, s, 4, ind, ind);
    law_line_break(st, ind, layout(d2, ind, col).1);
    assert(styled(st, text_doc(SpecText::ErrorType(s), home, src, interns), ind, col) =~= newline(ind)
        + spaces(4) + s + newline(ind));
}

/// On a color terminal, each stretch is written between the escape
/// sequence of its kind and the reset sequence; tags, record fields and
/// keywords are written as they are.
pub proof fn law_color_markup(
    p: crate::style::SpecPalette,
    s: Seq<char>,
    home: ModuleId,
    src: Seq<Seq<char>>,
    interns: Interns,
)
    ensures
        rendered(Styling::Color(p), SpecText::Plain(s), home, src, interns) == p.primary + s
            + crate::style::RESET_CODE@,
        rendered(Styling::Color(p), SpecText::EmText(s), home, src, interns) == crate::style::BOLD_CODE@
            + s + crate::style::RESET_CODE@,
        rendered(Styling::Color(p), SpecText::Url(s), home, src, interns)
            == crate::style::UNDERLINE_CODE@ + s + crate::style::RESET_CODE@,
        rendered(Styling::Color(p), SpecText::GlobalTag(s), home, src, interns) == s,
        rendered(Styling::Color(p), SpecText::Keyword(s), home, src, interns) == s,
        rendered(Styling::Color(p), SpecText::RecordField(s), home, src, interns) == seq!['.'] + s,
{
    let st = Styling::Color(p);
    law_text_as_is(st, s, 0, 0);
    law_text_as_is(st, seq!['.'] + s, 0, 0);
    law_annotation_wraps(st, Annotation::PlainText, SpecDoc::Text(s), 0, 0);
    law_annotation_wraps(st, Annotation::Emphasized, SpecDoc::Text(s), 0, 0);
    law_annotation_wraps(st, Annotation::Url, SpecDoc::Text(s), 0, 0);
    law_annotation_wraps(st, Annotation::GlobalTag, SpecDoc::Text(s), 0, 0);
    law_annotation_wraps(st, Annotation::Keyword, SpecDoc::Text(s), 0, 0);
    law_annotation_wraps(st, Annotation::RecordField, SpecDoc::Text(seq!['.'] + s), 0, 0);
    assert(Seq::<char>::empty() + s + Seq::<char>::empty() =~= s);
    assert(Seq::<char>::empty() + (seq!['.'] + s) + Seq::<char>::empty() =~= seq!['.'] + s);
}

/// `c` does not occur in `s`.
pub open spec fn lacks(s: Seq<char>, c: char) -> bool {
    forall|i: int| 0 <= i < s.len() ==> s[i] != c
}

/// `c` occurs in no text of the document, and is neither a newline nor a
/// space.
pub open spec fn doc_lacks(d: SpecDoc, c: char) -> bool
    decreases d,
{
    match d {
        SpecDoc::Nil => true,
        SpecDoc::Text(s) => lacks(s, c),
        SpecDoc::Line => c != '\n' && c != ' ',
        SpecDoc::Nest(_, b) => doc_lacks(*b, c),
        SpecDoc::Align(b) => doc_lacks(*b, c),
        SpecDoc::Annotated(_, b) => doc_lacks(*b, c),
        SpecDoc::Append(a, b) => doc_lacks(*a, c) && doc_lacks(*b, c),
    }
}

proof fn lemma_lacks_concat(a: Seq<char>, b: Seq<char>, c: char)
    requires
        lacks(a, c),
        lacks(b, c),
    ensures
        lacks(a + b, c),
{
    assert forall|i: int| 0 <= i < (a + b).len() implies (a + b)[i] != c by {
        if i >= a.len() {
            assert((a + b)[i] == b[i - a.len()]);
        }
    }
}

/// The console writer brings no character of its own but its markers
/// (stars, angle brackets and backticks): a character other than those
/// that occurs in no text of a document does not occur in what the console
/// shows of it. In particular, the console output holds no escape sequence
/// that the report's own text does not hold.
pub proof fn law_console_adds_only_markers(d: SpecDoc, c: char, ind: nat, col: nat)
    requires
        doc_lacks(d, c),
        c != '*' && c != '<' && c != '>' && c != '`',
    ensures
        lacks(styled(Styling::Ci, d, ind, col), c),
    decreases d,
{
    let st = Styling::Ci;
    match d {
        SpecDoc::Nil => {
            lemma_nil(st, ind, col);
        },
        SpecDoc::Text(s) => {
            law_text_as_is(st, s, ind, col);
        },
        SpecDoc::Line => {
            law_line_break(st, ind, col);
            assert forall|i: int| 0 <= i < newline(ind).len() implies newline(ind)[i] != c by {
                if i > 0 {
                    assert(newline(ind)[i] == spaces(ind)[i - 1]);
                }
            }
        },
        SpecDoc::Nest(n, b) => {
            law_console_adds_only_markers(*b, c, ind + n, col);
            assert(layout(d, ind, col) == layout(*b, ind + n, col));
        },
        SpecDoc::Align(b) => {
            law_console_adds_only_markers(*b, c, col, col);
            assert(layout(d, ind, col) == layout(*b, col, col));
        },
        SpecDoc::Annotated(a, b) => {
            law_annotation_wraps(st, a, *b, ind, col);
            law_console_adds_only_markers(*b, c, ind, col);
            lemma_lacks_concat(crate::style::ci_open(a), styled(st, *b, ind, col), c);
            lemma_lacks_concat(
                crate::style::ci_open(a) + styled(st, *b, ind, col),
                crate::style::ci_close(a),
                c,
            );
        },
        SpecDoc::Append(a, b) => {
            law_append_in_order(st, *a, *b, ind, col);
            law_console_adds_only_markers(*a, c, ind, col);
            law_console_adds_only_markers(*b, c, ind, layout(*a, ind, col).1);
            lemma_lacks_concat(styled(st, *a, ind, col), styled(st, *b, ind, layout(*a, ind, col).1), c);
        },
    }
}

/// The character that starts an ANSI escape sequence.
pub open spec fn escape() -> char {
    '\u{1b}'
}

/// No string of the text itself holds an escape character.
pub open spec fn text_lacks_escape(t: SpecText) -> bool
    decreases t,
{
    match t {
        SpecText::Type(_, s) => lacks(s, escape()),
        SpecText::ErrorType(s) => lacks(s, escape()),
        SpecText::Plain(s) => lacks(s, escape()),
        SpecText::EmText(s) => lacks(s, escape()),
        SpecText::GlobalTag(s) => lacks(s, escape()),
        SpecText::RecordField(s) => lacks(s, escape()),
        SpecText::Keyword(s) => lacks(s, escape()),
        SpecText::Url(s) => lacks(s, escape()),
        SpecText::Concat(ts) => texts_lack_escape(ts),
        SpecText::Stack(ts) => texts_lack_escape(ts),
        SpecText::Indent(_, b) => text_lacks_escape(*b),
        _ => true,
    }
}

/// No string of the texts holds an escape character.
pub open spec fn texts_lack_escape(ts: Seq<SpecText>) -> bool
    decreases ts,
{
    if ts.len() == 0 {
        true
    } else {
        texts_lack_escape(ts.drop_last()) && text_lacks_escape(ts.last())
    }
}

/// No name in the table holds an escape character.
pub open spec fn names_lack_escape(interns: Interns) -> bool {
    &&& forall|m: int| 0 <= m < interns.module_names@.len() ==> lacks(#[trigger] interns.module_names@[m]@, escape())
    &&& forall|m: int, i: int|
        0 <= m < interns.ident_names@.len() && 0 <= i < interns.ident_names@[m]@.len() ==> lacks(
            #[trigger] interns.ident_names@[m]@[i]@,
            escape(),
        )
}

/// No source line holds an escape character.
pub open spec fn lines_lack_escape(src: Seq<Seq<char>>) -> bool {
    forall|i: int| 0 <= i < src.len() ==> lacks(#[trigger] src[i], escape())
}

proof fn lemma_decimal_lacks_escape(n: nat)
    ensures
        lacks(decimal(n), escape()),
    decreases n,
{
    if n >= 10 {
        lemma_decimal_lacks_escape(n / 10);
        assert(lacks(seq![crate::strings::digit_char(n % 10)], escape()));
        lemma_lacks_concat(decimal(n / 10), seq![crate::strings::digit_char(n % 10)], escape());
        assert(decimal(n / 10).push(crate::strings::digit_char(n % 10)) =~= decimal(n / 10) + seq![
            crate::strings::digit_char(n % 10),
        ]);
    }
}

proof fn lemma_run_lacks(c0: char, n: nat, c: char)
    requires
        c0 != c,
    ensures
        lacks(run_of(c0, n), c),
{
    assert forall|i: int| 0 <= i < run_of(c0, n).len() implies run_of(c0, n)[i] != c by {
        assert(run_of(c0, n)[i] == c0);
    }
}

proof fn lemma_line_start_lacks_escape(r: Region, i: nat)
    ensures
        doc_lacks(numbered_line_start(r, i), escape()),
{
    reveal_with_fuel(doc_lacks, 5);
    let num = decimal((i + 1) as nat);
    lemma_decimal_lacks_escape((i + 1) as nat);
    lemma_run_lacks(' ', (number_width(r) - num.len()) as nat, escape());
    assert(lacks(gutter(), escape()));
}

proof fn lemma_marked_lines_lack_escape(r: Region, src: Seq<Seq<char>>, k: nat)
    requires
        lines_lack_escape(src),
        r.start_line != r.end_line,
        r.start_line < r.end_line ==> (r.end_line as int) < src.len(),
        k <= region_line_count(r),
    ensures
        doc_lacks(marked_lines_doc(r, src, k), escape()),
    decreases k,
{
    reveal_with_fuel(doc_lacks, 10);
    if k > 0 {
        lemma_marked_lines_lack_escape(r, src, (k - 1) as nat);
        let i = (r.start_line + k - 1) as nat;
        lemma_line_start_lacks_escape(r, i);
        lemma_run_lacks(' ', 2, escape());
        assert(lacks(seq!['>'], escape()));
        assert(r.start_line != r.end_line ==> (i as int) < src.len());
        if (i as int) < src.len() {
            assert(lacks(src[i as int], escape()));
        }
    }
}

proof fn lemma_region_lacks_escape(r: Region, src: Seq<Seq<char>>)
    requires
        lines_lack_escape(src),
        region_ok(r, src),
    ensures
        doc_lacks(region_doc(r, src), escape()),
{
    reveal_with_fuel(doc_lacks, 16);
    if r.start_line == r.end_line {
        lemma_line_start_lacks_escape(r, r.start_line as nat);
        assert(lacks(src[r.start_line as int], escape()));
        lemma_run_lacks(' ', 2, escape());
        lemma_run_lacks(' ', number_width(r), escape());
        lemma_run_lacks(' ', r.start_col as nat, escape());
        lemma_run_lacks('^', (r.end_col - r.start_col) as nat, escape());
        assert(lacks(gutter(), escape()));
    } else {
        lemma_marked_lines_lack_escape(r, src, region_line_count(r));
    }
}

proof fn lemma_text_doc_lacks_escape(t: SpecText, home: ModuleId, src: Seq<Seq<char>>, interns: Interns)
    requires
        text_lacks_escape(t),
        crate::render::text_ok(t, home, src, interns),
        names_lack_escape(interns),
        lines_lack_escape(src),
    ensures
        doc_lacks(text_doc(t, home, src, interns), escape()),
    decreases t,
{
    reveal_with_fuel(doc_lacks, 6);
    lemma_run_lacks(' ', 4, escape());
    match t {
        SpecText::Value(sym) => lemma_symbol_name_lacks_escape(sym, home, interns),
        SpecText::PrivateTag(sym) => lemma_symbol_name_lacks_escape(sym, home, interns),
        SpecText::Module(m) => {
            assert(lacks(interns.module_names@[m.0 as int]@, escape()));
        },
        SpecText::RecordField(s) => {
            lemma_lacks_concat(seq!['.'], s, escape());
        },
        SpecText::Region(r) => lemma_region_lacks_escape(r, src),
        SpecText::Concat(ts) => lemma_concat_lacks_escape(ts, home, src, interns),
        SpecText::Stack(ts) => lemma_stack_lacks_escape(ts, home, src, interns),
        SpecText::Indent(n, b) => {
            lemma_text_doc_lacks_escape(*b, home, src, interns);
            lemma_run_lacks(' ', n, escape());
        },
        SpecText::BinOp(op) => {
            assert(lacks(crate::syntax::bin_op_text(op), escape()));
        },
        _ => {},
    }
}

proof fn lemma_symbol_name_lacks_escape(sym: Symbol, home: ModuleId, interns: Interns)
    requires
        crate::render::symbol_ok(sym, home, interns),
        names_lack_escape(interns),
    ensures
        lacks(symbol_name(sym, home, interns), escape()),
{
    let ident = interns.ident_names@[sym.module.0 as int]@[sym.ident.0 as int]@;
    assert(lacks(ident, escape()));
    if sym.module != home {
        let module = interns.module_names@[sym.module.0 as int]@;
        assert(lacks(module, escape()));
        lemma_lacks_concat(module, seq!['.'], escape());
        lemma_lacks_concat(module + seq!['.'], ident, escape());
    }
}

proof fn lemma_concat_lacks_escape(ts: Seq<SpecText>, home: ModuleId, src: Seq<Seq<char>>, interns: Interns)
    requires
        texts_lack_escape(ts),
        crate::render::texts_ok(ts, home, src, interns),
        names_lack_escape(interns),
        lines_lack_escape(src),
    ensures
        doc_lacks(crate::render::concat_doc(ts, home, src, interns), escape()),
    decreases ts,
{
    if ts.len() > 0 {
        lemma_concat_lacks_escape(ts.drop_last(), home, src, interns);
        lemma_text_doc_lacks_escape(ts.last(), home, src, interns);
    }
}

proof fn lemma_stack_lacks_escape(ts: Seq<SpecText>, home: ModuleId, src: Seq<Seq<char>>, interns: Interns)
    requires
        texts_lack_escape(ts),
        crate::render::texts_ok(ts, home, src, interns),
        names_lack_escape(interns),
        lines_lack_escape(src),
    ensures
        doc_lacks(crate::render::stack_doc(ts, home, src, interns), escape()),
    decreases ts,
{
    reveal_with_fuel(doc_lacks, 3);
    if ts.len() == 1 {
        assert(ts[0] == ts.last());
        lemma_text_doc_lacks_escape(ts[0], home, src, interns);
    } else if ts.len() > 1 {
        lemma_stack_lacks_escape(ts.drop_last(), home, src, interns);
        lemma_text_doc_lacks_escape(ts.last(), home, src, interns);
    }
}

/// On a console no colors are written: what the console shows of a report
/// holds an escape character only where the report's own text, its names
/// or its source lines hold one.
pub proof fn law_console_has_no_colors(t: SpecText, home: ModuleId, src: Seq<Seq<char>>, interns: Interns)
    requires
        crate::render::text_ok(t, home, src, interns),
        text_lacks_escape(t),
        names_lack_escape(interns),
        lines_lack_escape(src),
    ensures
        lacks(rendered(Styling::Ci, t, home, src, interns), escape()),
{
    lemma_text_doc_lacks_escape(t, home, src, interns);
    law_console_adds_only_markers(text_doc(t, home, src, interns), escape(), 0, 0);
}

} // verus!
