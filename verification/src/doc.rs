//! Documents and their layout.
//!
//! A document is text, line breaks and indentation, with annotations that say
//! how a stretch of it is styled. Laying a document out turns it into a
//! sequence of pieces: runs of text, the opening of an annotation and the
//! closing of the innermost open one. The documents built here never ask to
//! be fitted into a width, so every line break is taken.

use vstd::prelude::*;
use crate::strings::{spaces, spaces_string, utf8_width};
use crate::style::Annotation;

verus! {

/// A document.
#[derive(Debug)]
pub enum Doc {
    /// Nothing.
    Nil,
    /// Text without line breaks.
    Text(String),
    /// A line break, followed by the current indentation.
    Line,
    /// The document, with the indentation increased.
    Nest(usize, Box<Doc>),
    /// The document, with the indentation set to the column where it starts.
    Align(Box<Doc>),
    /// The document, styled by the annotation.
    Annotated(Annotation, Box<Doc>),
    /// One document after the other.
    Append(Box<Doc>, Box<Doc>),
}

/// The mathematical value of a document.
pub enum SpecDoc {
    Nil,
    Text(Seq<char>),
    Line,
    Nest(nat, Box<SpecDoc>),
    Align(Box<SpecDoc>),
    Annotated(Annotation, Box<SpecDoc>),
    Append(Box<SpecDoc>, Box<SpecDoc>),
}

/// The mathematical value of a document.
pub open spec fn doc_view(d: Doc) -> SpecDoc
    decreases d,
{
    match d {
        Doc::Nil => SpecDoc::Nil,
        Doc::Text(s) => SpecDoc::Text(s@),
        Doc::Line => SpecDoc::Line,
        Doc::Nest(n, b) => SpecDoc::Nest(n as nat, Box::new(doc_view(*b))),
        Doc::Align(b) => SpecDoc::Align(Box::new(doc_view(*b))),
        Doc::Annotated(a, b) => SpecDoc::Annotated(a, Box::new(doc_view(*b))),
        Doc::Append(a, b) => SpecDoc::Append(Box::new(doc_view(*a)), Box::new(doc_view(*b))),
    }
}

impl View for Doc {
    type V = SpecDoc;

    open spec fn view(&self) -> SpecDoc {
        doc_view(*self)
    }
}

/// A piece of laid-out output.
#[derive(Clone, Debug)]
pub enum Piece {
    /// Text to write.
    Text(String),
    /// An annotation starts.
    Push(Annotation),
    /// The innermost open annotation ends.
    Pop,
}

pub enum SpecPiece {
    Text(Seq<char>),
    Push(Annotation),
    Pop,
}

impl View for Piece {
    type V = SpecPiece;

    open spec fn view(&self) -> SpecPiece {
        match self {
            Piece::Text(s) => SpecPiece::Text(s@),
            Piece::Push(a) => SpecPiece::Push(*a),
            Piece::Pop => SpecPiece::Pop,
        }
    }
}

/// The mathematical values of pieces.
pub open spec fn pieces_view(v: Seq<Piece>) -> Seq<SpecPiece> {
    v.map_values(|p: Piece| p@)
}

/// What a line break writes at indentation `ind`.
pub open spec fn newline(ind: nat) -> Seq<char> {
    seq!['\n'] + spaces(ind)
}

/// The layout of `d` started at indentation `ind` and column `col`: the
/// pieces it writes, and the column where it ends. The column advances by
/// the UTF-8 width of the text written.
pub open spec fn layout(d: SpecDoc, ind: nat, col: nat) -> (Seq<SpecPiece>, nat)
    decreases d,
{
    match d {
        SpecDoc::Nil => (seq![], col),
        SpecDoc::Text(s) => (seq![SpecPiece::Text(s)], col + utf8_width(s)),
        SpecDoc::Line => (seq![SpecPiece::Text(newline(ind))], ind),
        SpecDoc::Nest(n, b) => layout(*b, ind + n, col),
        SpecDoc::Align(b) => layout(*b, col, col),
        SpecDoc::Annotated(a, b) => {
            let inner = layout(*b, ind, col);
            (seq![SpecPiece::Push(a)] + inner.0 + seq![SpecPiece::Pop], inner.1)
        },
        SpecDoc::Append(a, b) => {
            let left = layout(*a, ind, col);
            let right = layout(*b, ind, left.1);
            (left.0 + right.0, right.1)
        },
    }
}

/// The pieces of a layout started at the left margin.
pub open spec fn layout_pieces(d: SpecDoc) -> Seq<SpecPiece> {
    layout(d, 0, 0).0
}

/// The largest column or indentation that the layout of `d` reaches.
pub open spec fn peak(d: SpecDoc, ind: nat, col: nat) -> nat
    decreases d,
{
    let here = if ind < col { col } else { ind };
    match d {
        SpecDoc::Nil => here,
        SpecDoc::Text(s) => here + utf8_width(s),
        SpecDoc::Line => here,
        SpecDoc::Nest(n, b) => {
            let p = peak(*b, ind + n, col);
            if p < here + n { here + n } else { p }
        },
        SpecDoc::Align(b) => {
            let p = peak(*b, col, col);
            if p < here { here } else { p }
        },
        SpecDoc::Annotated(a, b) => peak(*b, ind, col),
        SpecDoc::Append(a, b) => {
            let left = layout(*a, ind, col);
            let pa = peak(*a, ind, col);
            let pb = peak(*b, ind, left.1);
            if pa < pb { pb } else { pa }
        },
    }
}

/// The peak bounds the starting point and the column where the layout ends.
pub proof fn lemma_peak_bounds(d: SpecDoc, ind: nat, col: nat)
    ensures
        ind <= peak(d, ind, col),
        col <= peak(d, ind, col),
        layout(d, ind, col).1 <= peak(d, ind, col),
    decreases d,
{
    match d {
        SpecDoc::Nest(n, b) => lemma_peak_bounds(*b, ind + n, col),
        SpecDoc::Align(b) => lemma_peak_bounds(*b, col, col),
        SpecDoc::Annotated(a, b) => lemma_peak_bounds(*b, ind, col),
        SpecDoc::Append(a, b) => {
            lemma_peak_bounds(*a, ind, col);
            lemma_peak_bounds(*b, ind, layout(*a, ind, col).1);
        },
        _ => {},
    }
}

// Builders.

/// The empty document.
pub fn nil() -> (d: Doc)
    ensures
        d@ == SpecDoc::Nil,
{
    Doc::Nil
}

/// A document of text without line breaks.
pub fn text(s: String) -> (d: Doc)
    ensures
        d@ == SpecDoc::Text(s@),
{
    Doc::Text(s)
}

/// A document of text without line breaks, copied from `s`.
pub fn text_str(s: &str) -> (d: Doc)
    ensures
        d@ == SpecDoc::Text(s@),
{
    Doc::Text(s.to_owned())
}

/// A line break.
pub fn line() -> (d: Doc)
    ensures
        d@ == SpecDoc::Line,
{
    Doc::Line
}

/// `a`, then `b`.
pub fn append(a: Doc, b: Doc) -> (d: Doc)
    ensures
        d@ == SpecDoc::Append(Box::new(a@), Box::new(b@)),
{
    Doc::Append(Box::new(a), Box::new(b))
}

/// `d`, styled by `a`.
pub fn annotate(d: Doc, a: Annotation) -> (r: Doc)
    ensures
        r@ == SpecDoc::Annotated(a, Box::new(d@)),
{
    Doc::Annotated(a, Box::new(d))
}

/// `d`, with the indentation increased by `n`.
pub fn nest(d: Doc, n: usize) -> (r: Doc)
    ensures
        r@ == SpecDoc::Nest(n as nat, Box::new(d@)),
{
    Doc::Nest(n, Box::new(d))
}

/// `d`, with the indentation set to the column where it starts.
pub fn align(d: Doc) -> (r: Doc)
    ensures
        r@ == SpecDoc::Align(Box::new(d@)),
{
    Doc::Align(Box::new(d))
}

/// `d` indented by `n` spaces from the column where it starts: `n` spaces,
/// then `d`, whose further lines start `n` columns right of that column.
pub open spec fn indent_doc(d: SpecDoc, n: nat) -> SpecDoc {
    SpecDoc::Align(
        Box::new(
            SpecDoc::Nest(
                n,
                Box::new(SpecDoc::Append(Box::new(SpecDoc::Text(spaces(n))), Box::new(d))),
            ),
        ),
    )
}

/// `d`, indented by `n` spaces from the column where it starts.
pub fn indent(d: Doc, n: usize) -> (r: Doc)
    ensures
        r@ == indent_doc(d@, n as nat),
{
    align(nest(append(text(spaces_string(n)), d), n))
}

/// The text of a line break at indentation `ind`.
fn newline_string(ind: usize) -> (s: String)
    ensures
        s@ == newline(ind as nat),
{
    proof {
        reveal_strlit("\n");
    }
    let mut s = String::new();
    s.append("\n");
    let sp = spaces_string(ind);
    s.append(sp.as_str());
    s
}

/// Lays `d` out from indentation `ind` and column `col`, adding its pieces to
/// `out`; returns the column where the layout ends.
pub fn layout_into(d: &Doc, ind: usize, col: usize, out: &mut Vec<Piece>) -> (end: usize)
    requires
        peak(d@, ind as nat, col as nat) <= usize::MAX,
    ensures
        pieces_view(final(out)@) == pieces_view(old(out)@) + layout(d@, ind as nat, col as nat).0,
        end == layout(d@, ind as nat, col as nat).1,
    decreases d,
{
    let ghost start = old(out)@;
    proof {
        lemma_peak_bounds(d@, ind as nat, col as nat);
    }
    match d {
        Doc::Nil => {
            assert(pieces_view(out@) =~= pieces_view(start) + layout(d@, ind as nat, col as nat).0);
            col
        },
        Doc::Text(s) => {
            let w = s.as_str().len();
            out.push(Piece::Text(s.clone()));
            assert(pieces_view(out@) =~= pieces_view(start) + layout(d@, ind as nat, col as nat).0);
            col + w
        },
        Doc::Line => {
            out.push(Piece::Text(newline_string(ind)));
            assert(pieces_view(out@) =~= pieces_view(start) + layout(d@, ind as nat, col as nat).0);
            ind
        },
        Doc::Nest(n, b) => {
            layout_into(b, ind + *n, col, out)
        },
        Doc::Align(b) => {
            layout_into(b, col, col, out)
        },
        Doc::Annotated(a, b) => {
            out.push(Piece::Push(*a));
            assert(pieces_view(out@) =~= pieces_view(start) + seq![SpecPiece::Push(*a)]);
            let end = layout_into(b, ind, col, out);
            let ghost mid = out@;
            out.push(Piece::Pop);
            assert(pieces_view(out@) =~= pieces_view(mid) + seq![SpecPiece::Pop]);
            assert(pieces_view(out@) =~= pieces_view(start) + layout(d@, ind as nat, col as nat).0);
            end
        },
        Doc::Append(a, b) => {
            let mid = layout_into(a, ind, col, out);
            proof {
                lemma_peak_bounds(a@, ind as nat, col as nat);
            }
            let end = layout_into(b, ind, mid, out);
            assert(pieces_view(out@) =~= pieces_view(start) + layout(d@, ind as nat, col as nat).0);
            end
        },
    }
}

/// The pieces of the layout of `d` from the left margin.
pub fn layout_doc(d: &Doc) -> (pieces: Vec<Piece>)
    requires
        peak(d@, 0, 0) <= usize::MAX,
    ensures
        pieces_view(pieces@) == layout_pieces(d@),
{
    let mut out: Vec<Piece> = Vec::new();
    layout_into(d, 0, 0, &mut out);
    assert(pieces_view(out@) =~= layout_pieces(d@));
    out
}

} // verus!
