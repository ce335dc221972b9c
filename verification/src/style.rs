//! How a laid-out report is styled: annotations, palettes, and the two
//! writers, one for consoles without colors and one for color terminals.

use vstd::prelude::*;
use crate::doc::{Piece, SpecDoc, SpecPiece, layout, pieces_view};

verus! {

pub const RED_CODE: &'static str = "\u{001b}[31m";
pub const WHITE_CODE: &'static str = "\u{001b}[37m";
pub const BLUE_CODE: &'static str = "\u{001b}[34m";
pub const YELLOW_CODE: &'static str = "\u{001b}[33m";
pub const GREEN_CODE: &'static str = "\u{001b}[42m";
pub const CYAN_CODE: &'static str = "\u{001b}[36m";
pub const MAGENTA_CODE: &'static str = "\u{001b}[35m";

pub const BOLD_CODE: &'static str = "\u{001b}[1m";

pub const UNDERLINE_CODE: &'static str = "\u{001b}[4m";

pub const RESET_CODE: &'static str = "\u{001b}[0m";

/// What a stretch of a report is.
#[derive(Clone, Copy, Debug, PartialEq, Eq, Structural)]
pub enum Annotation {
    Emphasized,
    Url,
    Keyword,
    GlobalTag,
    PrivateTag,
    RecordField,
    TypeVariable,
    Alias,
    Structure,
    Symbol,
    BinOp,
    Error,
    GutterBar,
    LineNumber,
    PlainText,
    CodeBlock,
    Module,
}

/// The escape sequences that start each kind of stretch on a color terminal.
pub struct Palette<'a> {
    pub primary: &'a str,
    pub code_block: &'a str,
    pub variable: &'a str,
    pub type_variable: &'a str,
    pub structure: &'a str,
    pub alias: &'a str,
    pub error: &'a str,
    pub line_number: &'a str,
    pub gutter_bar: &'a str,
    pub module_name: &'a str,
    pub binop: &'a str,
}

/// The mathematical value of a palette.
pub struct SpecPalette {
    pub primary: Seq<char>,
    pub code_block: Seq<char>,
    pub variable: Seq<char>,
    pub type_variable: Seq<char>,
    pub structure: Seq<char>,
    pub alias: Seq<char>,
    pub error: Seq<char>,
    pub line_number: Seq<char>,
    pub gutter_bar: Seq<char>,
    pub module_name: Seq<char>,
    pub binop: Seq<char>,
}

impl<'a> View for Palette<'a> {
    type V = SpecPalette;

    open spec fn view(&self) -> SpecPalette {
        SpecPalette {
            primary: self.primary@,
            code_block: self.code_block@,
            variable: self.variable@,
            type_variable: self.type_variable@,
            structure: self.structure@,
            alias: self.alias@,
            error: self.error@,
            line_number: self.line_number@,
            gutter_bar: self.gutter_bar@,
            module_name: self.module_name@,
            binop: self.binop@,
        }
    }
}

/// The colors of the palette that reports use unless told otherwise.
pub open spec fn default_colors() -> SpecPalette {
    SpecPalette {
        primary: WHITE_CODE@,
        code_block: WHITE_CODE@,
        variable: BLUE_CODE@,
        type_variable: YELLOW_CODE@,
        structure: GREEN_CODE@,
        alias: YELLOW_CODE@,
        error: RED_CODE@,
        line_number: CYAN_CODE@,
        gutter_bar: MAGENTA_CODE@,
        module_name: GREEN_CODE@,
        binop: GREEN_CODE@,
    }
}

/// The palette that reports use unless told otherwise.
pub fn default_palette() -> (p: Palette<'static>)
    ensures
        p@ == default_colors(),
        p.primary@ == WHITE_CODE@,
        p.code_block@ == WHITE_CODE@,
        p.variable@ == BLUE_CODE@,
        p.type_variable@ == YELLOW_CODE@,
        p.structure@ == GREEN_CODE@,
        p.alias@ == YELLOW_CODE@,
        p.error@ == RED_CODE@,
        p.line_number@ == CYAN_CODE@,
        p.gutter_bar@ == MAGENTA_CODE@,
        p.module_name@ == GREEN_CODE@,
        p.binop@ == GREEN_CODE@,
{
    Palette {
        primary: WHITE_CODE,
        code_block: WHITE_CODE,
        variable: BLUE_CODE,
        type_variable: YELLOW_CODE,
        structure: GREEN_CODE,
        alias: YELLOW_CODE,
        error: RED_CODE,
        line_number: CYAN_CODE,
        gutter_bar: MAGENTA_CODE,
        module_name: GREEN_CODE,
        binop: GREEN_CODE,
    }
}

/// The two ways a report can be styled.
pub enum Styling {
    /// Minimal formatting, for consoles without colors.
    Ci,
    /// ANSI escape sequences from the palette.
    Color(SpecPalette),
}

/// What the console writer writes where an annotation starts: emphasis
/// between stars, URLs between angle brackets, tags and keywords between
/// backticks, and nothing for the rest.
pub open spec fn ci_open(a: Annotation) -> Seq<char> {
    match a {
        Annotation::Emphasized => seq!['*'],
        Annotation::Url => seq!['<'],
        Annotation::GlobalTag | Annotation::PrivateTag | Annotation::Keyword => seq!['`'],
        _ => seq![],
    }
}

/// What the console writer writes where an annotation ends.
pub open spec fn ci_close(a: Annotation) -> Seq<char> {
    match a {
        Annotation::Emphasized => seq!['*'],
        Annotation::Url => seq!['>'],
        Annotation::GlobalTag | Annotation::PrivateTag | Annotation::Keyword => seq!['`'],
        _ => seq![],
    }
}

/// What the color writer writes where an annotation starts.
pub open spec fn color_open(p: SpecPalette, a: Annotation) -> Seq<char> {
    match a {
        Annotation::Emphasized => BOLD_CODE@,
        Annotation::Url => UNDERLINE_CODE@,
        Annotation::PlainText => p.primary,
        Annotation::CodeBlock => p.code_block,
        Annotation::TypeVariable => p.type_variable,
        Annotation::Alias => p.alias,
        Annotation::BinOp => p.alias,
        Annotation::Symbol => p.variable,
        Annotation::GutterBar => p.gutter_bar,
        Annotation::Error => p.error,
        Annotation::LineNumber => p.line_number,
        Annotation::Structure => p.structure,
        Annotation::Module => p.module_name,
        Annotation::GlobalTag | Annotation::PrivateTag | Annotation::RecordField
        | Annotation::Keyword => seq![],
    }
}

/// What the color writer writes where an annotation ends: the reset
/// sequence, except for tags, record fields and keywords, which get nothing.
pub open spec fn color_close(a: Annotation) -> Seq<char> {
    match a {
        Annotation::GlobalTag | Annotation::PrivateTag | Annotation::RecordField
        | Annotation::Keyword => seq![],
        _ => RESET_CODE@,
    }
}

/// What a writer with the given styling writes where an annotation starts.
pub open spec fn open_text(st: Styling, a: Annotation) -> Seq<char> {
    match st {
        Styling::Ci => ci_open(a),
        Styling::Color(p) => color_open(p, a),
    }
}

/// What a writer with the given styling writes where an annotation ends.
pub open spec fn close_text(st: Styling, a: Annotation) -> Seq<char> {
    match st {
        Styling::Ci => ci_close(a),
        Styling::Color(_) => color_close(a),
    }
}

/// Writing `pieces` with a writer whose open annotations are `stack`: the
/// open annotations afterwards, and what is written. The end of an
/// annotation writes what closes the innermost open one; with none open it
/// writes nothing.
pub open spec fn emit(st: Styling, pieces: Seq<SpecPiece>, stack: Seq<Annotation>) -> (
    Seq<Annotation>,
    Seq<char>,
)
    decreases pieces.len(),
{
    if pieces.len() == 0 {
        (stack, seq![])
    } else {
        let before = emit(st, pieces.drop_last(), stack);
        match pieces.last() {
            SpecPiece::Text(t) => (before.0, before.1 + t),
            SpecPiece::Push(a) => (before.0.push(a), before.1 + open_text(st, a)),
            SpecPiece::Pop => if before.0.len() == 0 {
                before
            } else {
                (before.0.drop_last(), before.1 + close_text(st, before.0.last()))
            },
        }
    }
}

/// What writing a layout from a writer with no open annotations writes.
pub open spec fn styled(st: Styling, d: SpecDoc, ind: nat, col: nat) -> Seq<char> {
    emit(st, layout(d, ind, col).0, seq![]).1
}

/// Writing two runs of pieces is writing the first, then the second from
/// where the first left the open annotations.
pub proof fn lemma_emit_append(st: Styling, p1: Seq<SpecPiece>, p2: Seq<SpecPiece>, stack: Seq<Annotation>)
    ensures
        emit(st, p1 + p2, stack) == (
            emit(st, p2, emit(st, p1, stack).0).0,
            emit(st, p1, stack).1 + emit(st, p2, emit(st, p1, stack).0).1,
        ),
    decreases p2.len(),
{
    let first = emit(st, p1, stack);
    if p2.len() == 0 {
        assert(p1 + p2 =~= p1);
        assert(first.1 + Seq::<char>::empty() =~= first.1);
    } else {
        assert((p1 + p2).drop_last() =~= p1 + p2.drop_last());
        assert((p1 + p2).last() == p2.last());
        lemma_emit_append(st, p1, p2.drop_last(), stack);
        let mid = emit(st, p2.drop_last(), first.0);
        match p2.last() {
            SpecPiece::Text(t) => {
                assert(first.1 + mid.1 + t =~= first.1 + (mid.1 + t));
            },
            SpecPiece::Push(a) => {
                assert(first.1 + mid.1 + open_text(st, a) =~= first.1 + (mid.1 + open_text(st, a)));
            },
            SpecPiece::Pop => {
                if mid.0.len() > 0 {
                    assert(first.1 + mid.1 + close_text(st, mid.0.last()) =~= first.1 + (mid.1
                        + close_text(st, mid.0.last())));
                }
            },
        }
    }
}

/// The layout of a document closes every annotation it opens: writing it
/// leaves the open annotations as they were, and what it writes does not
/// depend on which annotations were open before.
pub proof fn law_layout_balanced(st: Styling, d: SpecDoc, ind: nat, col: nat, stack: Seq<Annotation>)
    ensures
        emit(st, layout(d, ind, col).0, stack) == (stack, styled(st, d, ind, col)),
    decreases d,
{
    let pieces = layout(d, ind, col).0;
    match d {
        SpecDoc::Nil => {
            assert(pieces.len() == 0);
        },
        SpecDoc::Text(s) => {
            assert(pieces.drop_last() =~= Seq::<SpecPiece>::empty());
            assert(emit(st, pieces.drop_last(), stack) == (stack, Seq::<char>::empty()));
            assert(emit(st, pieces.drop_last(), seq![]) == (Seq::<Annotation>::empty(), Seq::<char>::empty()));
        },
        SpecDoc::Line => {
            assert(pieces.drop_last() =~= Seq::<SpecPiece>::empty());
            assert(emit(st, pieces.drop_last(), stack) == (stack, Seq::<char>::empty()));
            assert(emit(st, pieces.drop_last(), seq![]) == (Seq::<Annotation>::empty(), Seq::<char>::empty()));
        },
        SpecDoc::Nest(n, b) => {
            law_layout_balanced(st, *b, ind + n, col, stack);
        },
        SpecDoc::Align(b) => {
            law_layout_balanced(st, *b, col, col, stack);
        },
        SpecDoc::Annotated(a, b) => {
            let inner = layout(*b, ind, col).0;
            let open = seq![SpecPiece::Push(a)];
            let close = seq![SpecPiece::Pop];
            assert(pieces =~= open + inner + close);
            assert(open.drop_last() =~= Seq::<SpecPiece>::empty());
            assert(close.drop_last() =~= Seq::<SpecPiece>::empty());
            lemma_emit_append(st, open + inner, close, stack);
            lemma_emit_append(st, open, inner, stack);
            law_layout_balanced(st, *b, ind, col, stack.push(a));
            lemma_emit_append(st, open + inner, close, seq![]);
            lemma_emit_append(st, open, inner, seq![]);
            law_layout_balanced(st, *b, ind, col, seq![a]);
            assert(Seq::<Annotation>::empty().push(a) =~= seq![a]);
            assert(stack.push(a).drop_last() =~= stack);
            assert(seq![a].drop_last() =~= Seq::<Annotation>::empty());
            assert(emit(st, open.drop_last(), stack) == (stack, Seq::<char>::empty()));
            assert(emit(st, open.drop_last(), seq![]) == (Seq::<Annotation>::empty(), Seq::<char>::empty()));
            assert(emit(st, open, stack) == (stack.push(a), Seq::<char>::empty() + open_text(st, a)));
            assert(emit(st, open, seq![]) == (seq![a], Seq::<char>::empty() + open_text(st, a)));
            let x = styled(st, *b, ind, col);
            assert(emit(st, open + inner, stack) == (stack.push(a), Seq::<char>::empty() + open_text(st, a) + x));
            assert(emit(st, open + inner, seq![]) == (seq![a], Seq::<char>::empty() + open_text(st, a) + x));
            assert(emit(st, close.drop_last(), stack.push(a)) == (stack.push(a), Seq::<char>::empty()));
            assert(emit(st, close.drop_last(), seq![a]) == (seq![a], Seq::<char>::empty()));
        },
        SpecDoc::Append(a, b) => {
            let left = layout(*a, ind, col);
            lemma_emit_append(st, left.0, layout(*b, ind, left.1).0, stack);
            lemma_emit_append(st, left.0, layout(*b, ind, left.1).0, seq![]);
            law_layout_balanced(st, *a, ind, col, stack);
            law_layout_balanced(st, *a, ind, col, seq![]);
            law_layout_balanced(st, *b, ind, left.1, stack);
            law_layout_balanced(st, *b, ind, left.1, seq![]);
        },
    }
}

/// How many more annotations the pieces open than they close.
pub open spec fn depth(p: Seq<SpecPiece>) -> int
    decreases p.len(),
{
    if p.len() == 0 {
        0
    } else {
        depth(p.drop_last()) + match p.last() {
            SpecPiece::Push(_) => 1int,
            SpecPiece::Pop => -1int,
            SpecPiece::Text(_) => 0int,
        }
    }
}

/// No piece closes an annotation that the pieces before it did not open.
pub open spec fn closes_only_own(p: Seq<SpecPiece>) -> bool
    decreases p.len(),
{
    p.len() == 0 || (closes_only_own(p.drop_last()) && depth(p) >= 0)
}

/// The pieces close exactly the annotations they open, each after opening
/// it.
pub open spec fn balanced(p: Seq<SpecPiece>) -> bool {
    closes_only_own(p) && depth(p) == 0
}

/// Pieces that close only what they open work on top of whatever was open
/// before: the annotations they leave open are pushed on the ones that
/// were, and what they write does not depend on those.
proof fn lemma_emit_on_top(st: Styling, p: Seq<SpecPiece>, stack: Seq<Annotation>)
    requires
        closes_only_own(p),
    ensures
        emit(st, p, stack).0 == stack + emit(st, p, seq![]).0,
        emit(st, p, stack).1 == emit(st, p, seq![]).1,
        emit(st, p, seq![]).0.len() == depth(p),
    decreases p.len(),
{
    if p.len() == 0 {
        assert(stack + Seq::<Annotation>::empty() =~= stack);
    } else {
        let front = p.drop_last();
        lemma_emit_on_top(st, front, stack);
        let mine = emit(st, front, seq![]).0;
        match p.last() {
            SpecPiece::Text(_) => {},
            SpecPiece::Push(a) => {
                assert((stack + mine).push(a) =~= stack + mine.push(a));
            },
            SpecPiece::Pop => {
                assert(mine.len() >= 1);
                assert((stack + mine).drop_last() =~= stack + mine.drop_last());
                assert((stack + mine).last() == mine.last());
            },
        }
    }
}

/// Balanced pieces leave open what was open before them, and write the
/// same whatever that was.
pub proof fn law_balanced_keeps_open(st: Styling, p: Seq<SpecPiece>, stack: Seq<Annotation>)
    requires
        balanced(p),
    ensures
        emit(st, p, stack) == (stack, emit(st, p, seq![]).1),
{
    lemma_emit_on_top(st, p, stack);
    assert(emit(st, p, seq![]).0 =~= Seq::<Annotation>::empty());
    assert(stack + Seq::<Annotation>::empty() =~= stack);
}

/// After any run of pieces, opening an annotation, writing balanced pieces
/// and closing the innermost open annotation closes exactly the one just
/// opened: the writer writes what opens it, what the pieces write, and what
/// closes it, and the annotations left open are those open before.
pub proof fn law_push_pop_nest(
    st: Styling,
    p: Seq<SpecPiece>,
    a: Annotation,
    q: Seq<SpecPiece>,
    stack: Seq<Annotation>,
)
    requires
        balanced(q),
    ensures
        emit(st, p + seq![SpecPiece::Push(a)] + q + seq![SpecPiece::Pop], stack) == (
            emit(st, p, stack).0,
            emit(st, p, stack).1 + open_text(st, a) + emit(st, q, seq![]).1 + close_text(st, a),
        ),
{
    let open = seq![SpecPiece::Push(a)];
    let close = seq![SpecPiece::Pop];
    let before = emit(st, p, stack);
    lemma_emit_append(st, p + open + q, close, stack);
    lemma_emit_append(st, p + open, q, stack);
    lemma_emit_append(st, p, open, stack);
    assert(open.drop_last() =~= Seq::<SpecPiece>::empty());
    assert(close.drop_last() =~= Seq::<SpecPiece>::empty());
    assert(emit(st, open.drop_last(), before.0) == (before.0, Seq::<char>::empty()));
    assert(emit(st, open, before.0) == (before.0.push(a), Seq::<char>::empty() + open_text(st, a)));
    assert(emit(st, close.drop_last(), before.0.push(a)) == (before.0.push(a), Seq::<char>::empty()));
    law_balanced_keeps_open(st, q, before.0.push(a));
    assert(emit(st, close, before.0.push(a)) == (before.0.push(a).drop_last(), Seq::<char>::empty()
        + close_text(st, a)));
    assert(before.0.push(a).drop_last() =~= before.0);
    assert(before.1 + (Seq::<char>::empty() + open_text(st, a)) + emit(st, q, seq![]).1 + (
    Seq::<char>::empty() + close_text(st, a)) =~= before.1 + open_text(st, a) + emit(
        st,
        q,
        seq![],
    ).1 + close_text(st, a));
}

/// In any run of pieces, a pop closes the most recently opened annotation
/// still open: if the pieces between a push of `a` and a pop are balanced,
/// `a` is the innermost open annotation when the pop comes, the pop writes
/// what closes `a`, and it leaves open what was open before the push.
pub proof fn law_pop_closes_latest_open(
    st: Styling,
    p: Seq<SpecPiece>,
    i: int,
    j: int,
    a: Annotation,
    stack: Seq<Annotation>,
)
    requires
        0 <= i < j < p.len(),
        p[i] == SpecPiece::Push(a),
        p[j] == SpecPiece::Pop,
        balanced(p.subrange(i + 1, j)),
    ensures
        emit(st, p.take(j), stack).0.len() > 0,
        emit(st, p.take(j), stack).0.last() == a,
        emit(st, p.take(j + 1), stack) == (
            emit(st, p.take(i), stack).0,
            emit(st, p.take(j), stack).1 + close_text(st, a),
        ),
{
    let front = p.take(i);
    let q = p.subrange(i + 1, j);
    let open = seq![SpecPiece::Push(a)];
    let before = emit(st, front, stack);
    assert(p.take(j + 1) =~= front + open + q + seq![SpecPiece::Pop]);
    assert(p.take(j) =~= front + open + q);
    law_push_pop_nest(st, front, a, q, stack);
    lemma_emit_append(st, front + open, q, stack);
    lemma_emit_append(st, front, open, stack);
    assert(open.drop_last() =~= Seq::<SpecPiece>::empty());
    assert(emit(st, open.drop_last(), before.0) == (before.0, Seq::<char>::empty()));
    law_balanced_keeps_open(st, q, before.0.push(a));
    let mid = emit(st, front + open + q, stack);
    assert(mid.0 == before.0.push(a));
    assert(mid.1 =~= before.1 + open_text(st, a) + emit(st, q, seq![]).1);
}

/// The annotations that the pushes among the pieces open, in order.
pub open spec fn pushed(p: Seq<SpecPiece>) -> Seq<Annotation>
    decreases p.len(),
{
    if p.len() == 0 {
        Seq::empty()
    } else {
        match p.last() {
            SpecPiece::Push(a) => pushed(p.drop_last()).push(a),
            _ => pushed(p.drop_last()),
        }
    }
}

/// Pieces without a pop leave open what was open before them, then every
/// annotation they open, in the order they open them.
pub proof fn law_pushes_stay_open_in_order(st: Styling, p: Seq<SpecPiece>, stack: Seq<Annotation>)
    requires
        forall|k: int| 0 <= k < p.len() ==> !(#[trigger] p[k] is Pop),
    ensures
        emit(st, p, stack).0 == stack + pushed(p),
    decreases p.len(),
{
    if p.len() == 0 {
        assert(stack + Seq::<Annotation>::empty() =~= stack);
    } else {
        let front = p.drop_last();
        assert forall|k: int| 0 <= k < front.len() implies !(#[trigger] front[k] is Pop) by {
            assert(front[k] == p[k]);
        }
        law_pushes_stay_open_in_order(st, front, stack);
        assert(!(p[p.len() - 1] is Pop));
        match p.last() {
            SpecPiece::Push(a) => {
                assert((stack + pushed(front)).push(a) =~= stack + pushed(front).push(a));
            },
            _ => {},
        }
    }
}

proof fn lemma_depth_append(p1: Seq<SpecPiece>, p2: Seq<SpecPiece>)
    ensures
        depth(p1 + p2) == depth(p1) + depth(p2),
    decreases p2.len(),
{
    if p2.len() == 0 {
        assert(p1 + p2 =~= p1);
    } else {
        assert((p1 + p2).drop_last() =~= p1 + p2.drop_last());
        assert((p1 + p2).last() == p2.last());
        lemma_depth_append(p1, p2.drop_last());
    }
}

proof fn lemma_closes_only_own_append(p1: Seq<SpecPiece>, p2: Seq<SpecPiece>)
    requires
        closes_only_own(p1),
        closes_only_own(p2),
        depth(p1) >= 0,
    ensures
        closes_only_own(p1 + p2),
    decreases p2.len(),
{
    if p2.len() == 0 {
        assert(p1 + p2 =~= p1);
    } else {
        assert((p1 + p2).drop_last() =~= p1 + p2.drop_last());
        lemma_closes_only_own_append(p1, p2.drop_last());
        lemma_depth_append(p1, p2);
    }
}

/// The layout of a document is balanced: every annotation it opens, it
/// closes, after what it covers.
pub proof fn law_layout_is_balanced(d: SpecDoc, ind: nat, col: nat)
    ensures
        balanced(layout(d, ind, col).0),
    decreases d,
{
    let pieces = layout(d, ind, col).0;
    match d {
        SpecDoc::Nil => {
            assert(pieces =~= Seq::<SpecPiece>::empty());
            assert(depth(pieces) == 0);
            assert(closes_only_own(pieces));
        },
        SpecDoc::Text(_) => {
            assert(pieces.drop_last() =~= Seq::<SpecPiece>::empty());
            assert(depth(pieces.drop_last()) == 0);
            assert(closes_only_own(pieces.drop_last()));
        },
        SpecDoc::Line => {
            assert(pieces.drop_last() =~= Seq::<SpecPiece>::empty());
            assert(depth(pieces.drop_last()) == 0);
            assert(closes_only_own(pieces.drop_last()));
        },
        SpecDoc::Nest(n, b) => law_layout_is_balanced(*b, ind + n, col),
        SpecDoc::Align(b) => law_layout_is_balanced(*b, col, col),
        SpecDoc::Annotated(a, b) => {
            let inner = layout(*b, ind, col).0;
            let open = seq![SpecPiece::Push(a)];
            law_layout_is_balanced(*b, ind, col);
            assert(open.drop_last() =~= Seq::<SpecPiece>::empty());
            assert(depth(open.drop_last()) == 0);
            assert(closes_only_own(open.drop_last()));
            assert(open.last() == SpecPiece::Push(a));
            assert(depth(open) == 1);
            assert(closes_only_own(open));
            lemma_closes_only_own_append(open, inner);
            lemma_depth_append(open, inner);
            assert(pieces.drop_last() =~= open + inner);
        },
        SpecDoc::Append(a, b) => {
            let left = layout(*a, ind, col);
            law_layout_is_balanced(*a, ind, col);
            law_layout_is_balanced(*b, ind, left.1);
            lemma_closes_only_own_append(left.0, layout(*b, ind, left.1).0);
            lemma_depth_append(left.0, layout(*b, ind, left.1).0);
        },
    }
}

/// `std::fmt::Error`, what a refused write returns, carried through as an
/// opaque value; nothing is claimed of it.
#[verifier::external_type_specification]
#[verifier::external_body]
pub struct ExFmtError(std::fmt::Error);

/// Where a writer sends its text: a sink that may refuse a write.
pub trait Upstream: Sized {
    /// What has been written to the sink so far.
    spec fn written(&self) -> Seq<char>;

    /// Whether every write to a sink of this type succeeds; a sink that
    /// does not say may refuse writes.
    open spec fn never_fails() -> bool {
        false
    }

    /// Writes `s`; on success the sink holds what it held, then `s`; a
    /// refused write leaves the sink as it was.
    fn write_str(&mut self, s: &str) -> (r: Result<(), std::fmt::Error>)
        ensures
            r is Ok ==> final(self).written() == old(self).written() + s@,
            r is Err ==> final(self).written() == old(self).written(),
            Self::never_fails() ==> r is Ok,
    ;
}

impl Upstream for String {
    open spec fn written(&self) -> Seq<char> {
        self@
    }

    open spec fn never_fails() -> bool {
        true
    }

    fn write_str(&mut self, s: &str) -> (r: Result<(), std::fmt::Error>) {
        self.append(s);
        Ok(())
    }
}

/// Whether the console writer writes a marker around an annotation.
pub open spec fn ci_marked(a: Annotation) -> bool {
    match a {
        Annotation::Emphasized | Annotation::Url | Annotation::GlobalTag
        | Annotation::PrivateTag | Annotation::Keyword => true,
        _ => false,
    }
}

/// Whether the color writer writes escape sequences around an annotation.
pub open spec fn color_coded(a: Annotation) -> bool {
    match a {
        Annotation::GlobalTag | Annotation::PrivateTag | Annotation::RecordField
        | Annotation::Keyword => false,
        _ => true,
    }
}

/// Renders with minimal formatting.
pub struct CiWrite<W> {
    style_stack: Vec<Annotation>,
    upstream: W,
}

impl<W> CiWrite<W> {
    /// The annotations open, innermost last.
    pub closed spec fn styles(&self) -> Seq<Annotation> {
        self.style_stack@
    }

    /// Where the writer writes.
    pub closed spec fn target(&self) -> W {
        self.upstream
    }

    /// A writer to `upstream`, with no annotation open.
    pub fn new(upstream: W) -> (w: CiWrite<W>)
        ensures
            w.styles() == Seq::<Annotation>::empty(),
            w.target() == upstream,
    {
        CiWrite { style_stack: vec![], upstream }
    }

    /// Gives back where the writer wrote.
    pub fn into_upstream(self) -> (w: W)
        ensures
            w == self.target(),
    {
        self.upstream
    }
}

impl<W: Upstream> CiWrite<W> {
    /// Writes `s`; returns its length in bytes.
    pub fn write_str(&mut self, s: &str) -> (r: Result<usize, std::fmt::Error>)
        ensures
            final(self).styles() == old(self).styles(),
            r is Ok ==> r->Ok_0 == s.len() && final(self).target().written() == old(
                self,
            ).target().written() + s@,
            r is Err ==> final(self).target().written() == old(self).target().written(),
            W::never_fails() ==> r is Ok,
    {
        match self.write_str_all(s) {
            Ok(()) => Ok(s.len()),
            Err(e) => Err(e),
        }
    }

    /// Writes `s`.
    pub fn write_str_all(&mut self, s: &str) -> (r: Result<(), std::fmt::Error>)
        ensures
            final(self).styles() == old(self).styles(),
            r is Ok ==> final(self).target().written() == old(self).target().written() + s@,
            r is Err ==> final(self).target().written() == old(self).target().written(),
            W::never_fails() ==> r is Ok,
    {
        self.upstream.write_str(s)
    }

    /// Starts a stretch annotated `annotation`. Where its marker cannot be
    /// written, the annotation is not opened.
    pub fn push_annotation(&mut self, annotation: &Annotation) -> (r: Result<(), std::fmt::Error>)
        ensures
            r is Ok ==> final(self).styles() == old(self).styles().push(*annotation)
                && final(self).target().written() == old(self).target().written() + ci_open(
                *annotation,
            ),
            r is Err ==> final(self).styles() == old(self).styles() && ci_marked(*annotation),
            r is Err ==> final(self).target().written() == old(self).target().written(),
            !ci_marked(*annotation) ==> r is Ok && final(self).target() == old(self).target(),
            W::never_fails() ==> r is Ok,
    {
        proof {
            reveal_strlit("*");
            reveal_strlit("<");
            reveal_strlit("`");
        }
        match annotation {
            Annotation::Emphasized => {
                if let Err(e) = self.write_str("*") {
                    return Err(e);
                }
            },
            Annotation::Url => {
                if let Err(e) = self.write_str("<") {
                    return Err(e);
                }
            },
            Annotation::GlobalTag | Annotation::PrivateTag | Annotation::Keyword => {
                if let Err(e) = self.write_str("`") {
                    return Err(e);
                }
            },
            Annotation::CodeBlock | Annotation::PlainText | Annotation::LineNumber
            | Annotation::Error | Annotation::GutterBar | Annotation::TypeVariable
            | Annotation::Alias | Annotation::RecordField | Annotation::Module
            | Annotation::Structure | Annotation::Symbol | Annotation::BinOp => {
                assert(self.upstream.written() =~= old(self).upstream.written() + ci_open(
                    *annotation,
                ));
            },
        }
        self.style_stack.push(*annotation);
        Ok(())
    }

    /// Ends the innermost open stretch; does nothing if none is open. The
    /// stretch is closed even where its marker cannot be written.
    pub fn pop_annotation(&mut self) -> (r: Result<(), std::fmt::Error>)
        ensures
            old(self).styles().len() == 0 ==> r is Ok && final(self).styles() == old(self).styles()
                && final(self).target() == old(self).target(),
            old(self).styles().len() > 0 ==> final(self).styles() == old(self).styles().drop_last(),
            old(self).styles().len() > 0 && r is Ok ==> final(self).target().written() == old(
                self,
            ).target().written() + ci_close(old(self).styles().last()),
            r is Err ==> old(self).styles().len() > 0 && ci_marked(old(self).styles().last()),
            r is Err ==> final(self).target().written() == old(self).target().written(),
            old(self).styles().len() > 0 && !ci_marked(old(self).styles().last()) ==> r is Ok
                && final(self).target() == old(self).target(),
            W::never_fails() ==> r is Ok,
    {
        proof {
            reveal_strlit("*");
            reveal_strlit(">");
            reveal_strlit("`");
        }
        match self.style_stack.pop() {
            None => {},
            Some(annotation) => match annotation {
                Annotation::Emphasized => {
                    if let Err(e) = self.write_str("*") {
                        return Err(e);
                    }
                },
                Annotation::Url => {
                    if let Err(e) = self.write_str(">") {
                        return Err(e);
                    }
                },
                Annotation::GlobalTag | Annotation::PrivateTag | Annotation::Keyword => {
                    if let Err(e) = self.write_str("`") {
                        return Err(e);
                    }
                },
                Annotation::CodeBlock | Annotation::PlainText | Annotation::LineNumber
                | Annotation::Error | Annotation::GutterBar | Annotation::TypeVariable
                | Annotation::Alias | Annotation::RecordField | Annotation::Module
                | Annotation::Structure | Annotation::Symbol | Annotation::BinOp => {
                    assert(self.upstream.written() =~= old(self).upstream.written() + ci_close(
                        annotation,
                    ));
                },
            },
        }
        Ok(())
    }

    /// Writes laid-out pieces: text as it is, and the markers of each
    /// annotation where it starts and ends. Stops at the first write that
    /// fails.
    pub fn write_pieces(&mut self, pieces: &Vec<Piece>) -> (r: Result<(), std::fmt::Error>)
        ensures
            r is Ok ==> final(self).styles() == emit(
                Styling::Ci,
                pieces_view(pieces@),
                old(self).styles(),
            ).0 && final(self).target().written() == old(self).target().written() + emit(
                Styling::Ci,
                pieces_view(pieces@),
                old(self).styles(),
            ).1,
            r is Err ==> exists|k: int|
                0 <= k < pieces@.len() && final(self).target().written() == old(
                    self,
                ).target().written() + emit(
                    Styling::Ci,
                    #[trigger] pieces_view(pieces@).take(k),
                    old(self).styles(),
                ).1 && (final(self).styles() == emit(
                    Styling::Ci,
                    pieces_view(pieces@).take(k),
                    old(self).styles(),
                ).0 || final(self).styles() == emit(
                    Styling::Ci,
                    pieces_view(pieces@).take(k + 1),
                    old(self).styles(),
                ).0),
            W::never_fails() ==> r is Ok,
    {
        let ghost pv = pieces_view(pieces@);
        let ghost start = self.target().written();
        let ghost stack = self.styles();
        let mut i: usize = 0;
        assert(pv.take(0) =~= Seq::<SpecPiece>::empty());
        assert(self.target().written() =~= start + emit(Styling::Ci, pv.take(0), stack).1);
        while i < pieces.len()
            invariant
                i <= pieces.len(),
                pv == pieces_view(pieces@),
                start == old(self).target().written(),
                stack == old(self).styles(),
                self.styles() == emit(Styling::Ci, pv.take(i as int), stack).0,
                self.target().written() == start + emit(Styling::Ci, pv.take(i as int), stack).1,
            decreases pieces.len() - i,
        {
            assert(pv.take(i + 1).drop_last() =~= pv.take(i as int));
            assert(pv.take(i + 1).last() == pieces@[i as int]@);
            let step = match &pieces[i] {
                Piece::Text(t) => self.write_str_all(t.as_str()),
                Piece::Push(a) => self.push_annotation(a),
                Piece::Pop => self.pop_annotation(),
            };
            if let Err(e) = step {
                assert(pv.take(i as int) == pieces_view(pieces@).take(i as int));
                return Err(e);
            }
            assert(self.target().written() =~= start + emit(Styling::Ci, pv.take(i + 1), stack).1);
            i = i + 1;
        }
        assert(pv.take(pieces.len() as int) =~= pv);
        Ok(())
    }
}

/// Renders with ANSI escape sequences from a palette.
pub struct ColorWrite<'a, W> {
    style_stack: Vec<Annotation>,
    palette: &'a Palette<'a>,
    upstream: W,
}

impl<'a, W> ColorWrite<'a, W> {
    /// The annotations open, innermost last.
    pub closed spec fn styles(&self) -> Seq<Annotation> {
        self.style_stack@
    }

    /// The palette the writer takes its escape sequences from.
    pub closed spec fn colors(&self) -> SpecPalette {
        self.palette@
    }

    /// Where the writer writes.
    pub closed spec fn target(&self) -> W {
        self.upstream
    }

    /// A writer to `upstream` with the given palette, with no annotation open.
    pub fn new(palette: &'a Palette, upstream: W) -> (w: ColorWrite<'a, W>)
        ensures
            w.styles() == Seq::<Annotation>::empty(),
            w.colors() == palette@,
            w.target() == upstream,
    {
        ColorWrite { style_stack: vec![], palette, upstream }
    }

    /// Gives back where the writer wrote.
    pub fn into_upstream(self) -> (w: W)
        ensures
            w == self.target(),
    {
        self.upstream
    }
}

impl<'a, W: Upstream> ColorWrite<'a, W> {
    /// Writes `s`; returns its length in bytes.
    pub fn write_str(&mut self, s: &str) -> (r: Result<usize, std::fmt::Error>)
        ensures
            final(self).styles() == old(self).styles(),
            final(self).colors() == old(self).colors(),
            r is Ok ==> r->Ok_0 == s.len() && final(self).target().written() == old(
                self,
            ).target().written() + s@,
            r is Err ==> final(self).target().written() == old(self).target().written(),
            W::never_fails() ==> r is Ok,
    {
        match self.write_str_all(s) {
            Ok(()) => Ok(s.len()),
            Err(e) => Err(e),
        }
    }

    /// Writes `s`.
    pub fn write_str_all(&mut self, s: &str) -> (r: Result<(), std::fmt::Error>)
        ensures
            final(self).styles() == old(self).styles(),
            final(self).colors() == old(self).colors(),
            r is Ok ==> final(self).target().written() == old(self).target().written() + s@,
            r is Err ==> final(self).target().written() == old(self).target().written(),
            W::never_fails() ==> r is Ok,
    {
        self.upstream.write_str(s)
    }

    /// Starts a stretch annotated `annotation`. Where its escape sequence
    /// cannot be written, the annotation is not opened.
    pub fn push_annotation(&mut self, annotation: &Annotation) -> (r: Result<(), std::fmt::Error>)
        ensures
            final(self).colors() == old(self).colors(),
            r is Ok ==> final(self).styles() == old(self).styles().push(*annotation)
                && final(self).target().written() == old(self).target().written() + color_open(
                old(self).colors(),
                *annotation,
            ),
            r is Err ==> final(self).styles() == old(self).styles() && color_coded(*annotation),
            r is Err ==> final(self).target().written() == old(self).target().written(),
            !color_coded(*annotation) ==> r is Ok && final(self).target() == old(self).target(),
            W::never_fails() ==> r is Ok,
    {
        let code: Option<&str> = match annotation {
            Annotation::Emphasized => Some(BOLD_CODE),
            Annotation::Url => Some(UNDERLINE_CODE),
            Annotation::PlainText => Some(self.palette.primary),
            Annotation::CodeBlock => Some(self.palette.code_block),
            Annotation::TypeVariable => Some(self.palette.type_variable),
            Annotation::Alias => Some(self.palette.alias),
            Annotation::BinOp => Some(self.palette.alias),
            Annotation::Symbol => Some(self.palette.variable),
            Annotation::GutterBar => Some(self.palette.gutter_bar),
            Annotation::Error => Some(self.palette.error),
            Annotation::LineNumber => Some(self.palette.line_number),
            Annotation::Structure => Some(self.palette.structure),
            Annotation::Module => Some(self.palette.module_name),
            Annotation::GlobalTag | Annotation::PrivateTag | Annotation::RecordField
            | Annotation::Keyword => None,
        };
        match code {
            Some(c) => {
                if let Err(e) = self.write_str(c) {
                    return Err(e);
                }
            },
            None => {
                assert(self.upstream.written() =~= old(self).upstream.written() + color_open(
                    old(self).colors(),
                    *annotation,
                ));
            },
        }
        self.style_stack.push(*annotation);
        Ok(())
    }

    /// Ends the innermost open stretch; does nothing if none is open. The
    /// stretch is closed even where the reset sequence cannot be written.
    pub fn pop_annotation(&mut self) -> (r: Result<(), std::fmt::Error>)
        ensures
            final(self).colors() == old(self).colors(),
            old(self).styles().len() == 0 ==> r is Ok && final(self).styles() == old(self).styles()
                && final(self).target() == old(self).target(),
            old(self).styles().len() > 0 ==> final(self).styles() == old(self).styles().drop_last(),
            old(self).styles().len() > 0 && r is Ok ==> final(self).target().written() == old(
                self,
            ).target().written() + color_close(old(self).styles().last()),
            r is Err ==> old(self).styles().len() > 0 && color_coded(old(self).styles().last()),
            r is Err ==> final(self).target().written() == old(self).target().written(),
            old(self).styles().len() > 0 && !color_coded(old(self).styles().last()) ==> r is Ok
                && final(self).target() == old(self).target(),
            W::never_fails() ==> r is Ok,
    {
        match self.style_stack.pop() {
            None => {},
            Some(annotation) => match annotation {
                Annotation::Emphasized | Annotation::Url | Annotation::TypeVariable
                | Annotation::Alias | Annotation::Symbol | Annotation::BinOp | Annotation::Error
                | Annotation::GutterBar | Annotation::Structure | Annotation::CodeBlock
                | Annotation::PlainText | Annotation::LineNumber | Annotation::Module => {
                    if let Err(e) = self.write_str(RESET_CODE) {
                        return Err(e);
                    }
                },
                Annotation::GlobalTag | Annotation::PrivateTag | Annotation::RecordField
                | Annotation::Keyword => {
                    assert(self.upstream.written() =~= old(self).upstream.written() + color_close(
                        annotation,
                    ));
                },
            },
        }
        Ok(())
    }

    /// Writes laid-out pieces: text as it is, and the escape sequences of
    /// each annotation where it starts and ends. Stops at the first write
    /// that fails.
    pub fn write_pieces(&mut self, pieces: &Vec<Piece>) -> (r: Result<(), std::fmt::Error>)
        ensures
            final(self).colors() == old(self).colors(),
            r is Ok ==> final(self).styles() == emit(
                Styling::Color(old(self).colors()),
                pieces_view(pieces@),
                old(self).styles(),
            ).0 && final(self).target().written() == old(self).target().written() + emit(
                Styling::Color(old(self).colors()),
                pieces_view(pieces@),
                old(self).styles(),
            ).1,
            r is Err ==> exists|k: int|
                0 <= k < pieces@.len() && final(self).target().written() == old(
                    self,
                ).target().written() + emit(
                    Styling::Color(old(self).colors()),
                    #[trigger] pieces_view(pieces@).take(k),
                    old(self).styles(),
                ).1 && (final(self).styles() == emit(
                    Styling::Color(old(self).colors()),
                    pieces_view(pieces@).take(k),
                    old(self).styles(),
                ).0 || final(self).styles() == emit(
                    Styling::Color(old(self).colors()),
                    pieces_view(pieces@).take(k + 1),
                    old(self).styles(),
                ).0),
            W::never_fails() ==> r is Ok,
    {
        let ghost pv = pieces_view(pieces@);
        let ghost start = self.target().written();
        let ghost stack = self.styles();
        let ghost st = Styling::Color(self.colors());
        let mut i: usize = 0;
        assert(pv.take(0) =~= Seq::<SpecPiece>::empty());
        assert(self.target().written() =~= start + emit(st, pv.take(0), stack).1);
        while i < pieces.len()
            invariant
                i <= pieces.len(),
                pv == pieces_view(pieces@),
                start == old(self).target().written(),
                stack == old(self).styles(),
                self.colors() == old(self).colors(),
                st == Styling::Color(self.colors()),
                self.styles() == emit(st, pv.take(i as int), stack).0,
                self.target().written() == start + emit(st, pv.take(i as int), stack).1,
            decreases pieces.len() - i,
        {
            assert(pv.take(i + 1).drop_last() =~= pv.take(i as int));
            assert(pv.take(i + 1).last() == pieces@[i as int]@);
            let step = match &pieces[i] {
                Piece::Text(t) => self.write_str_all(t.as_str()),
                Piece::Push(a) => self.push_annotation(a),
                Piece::Pop => self.pop_annotation(),
            };
            if let Err(e) = step {
                assert(pv.take(i as int) == pieces_view(pieces@).take(i as int));
                return Err(e);
            }
            assert(self.target().written() =~= start + emit(st, pv.take(i + 1), stack).1);
            i = i + 1;
        }
        assert(pv.take(pieces.len() as int) =~= pv);
        Ok(())
    }
}

} // verus!
