//! Laying a report out as a document, and rendering it.

use vstd::prelude::*;
use crate::doc::{
    Doc, SpecDoc, annotate, append, indent, indent_doc, layout_doc, line, nil, peak, text, text_str,
};
use crate::strings::{
    decimal, decimal_string, is_blank, lemma_decimal_len_mono, line_is_blank, repeat_char, run_of,
    spaces, spaces_string,
};
use crate::style::{Annotation, CiWrite, ColorWrite, Palette, Styling, styled};
use crate::symbol::{Interns, ModuleId, Symbol};
use crate::syntax::{Region, bin_op_text};
use crate::text::{ContentKind, ReportText, SpecText, lemma_children_view};

verus! {

/// The views of the source lines.
pub open spec fn lines_view(src_lines: Seq<&str>) -> Seq<Seq<char>> {
    src_lines.map_values(|s: &str| s@)
}

/// How a symbol is named in a report written for module `home`: by its own
/// name if it is defined there, else qualified by its module's name.
pub open spec fn symbol_name(sym: Symbol, home: ModuleId, interns: Interns) -> Seq<char> {
    if sym.module == home {
        interns.ident_name(sym)
    } else {
        interns.module_name_of(sym.module) + seq!['.'] + interns.ident_name(sym)
    }
}

/// The names that naming a symbol needs are known.
pub open spec fn symbol_ok(sym: Symbol, home: ModuleId, interns: Interns) -> bool {
    &&& interns.has_ident(sym)
    &&& sym.module != home ==> interns.has_module(sym.module)
}

/// A region can be shown with the source lines at hand: the lines it covers
/// exist, its last line number can be counted one further, and on a single
/// line it does not end before it starts.
pub open spec fn region_ok(r: Region, src: Seq<Seq<char>>) -> bool {
    &&& (r.end_line as int) < u32::MAX
    &&& r.start_line == r.end_line ==> r.start_col <= r.end_col && (r.start_line as int) < src.len()
    &&& r.start_line < r.end_line ==> (r.end_line as int) < src.len()
}

/// Everything in the text can be shown: no documentation to show, only
/// known names, and regions within the source.
pub open spec fn text_ok(t: SpecText, home: ModuleId, src: Seq<Seq<char>>, interns: Interns) -> bool
    decreases t,
{
    match t {
        SpecText::Value(s) => symbol_ok(s, home, interns),
        SpecText::PrivateTag(s) => symbol_ok(s, home, interns),
        SpecText::Module(m) => interns.has_module(m),
        SpecText::Docs(_) => false,
        SpecText::Region(r) => region_ok(r, src),
        SpecText::Concat(ts) => texts_ok(ts, home, src, interns),
        SpecText::Stack(ts) => texts_ok(ts, home, src, interns),
        SpecText::Indent(_, b) => text_ok(*b, home, src, interns),
        _ => true,
    }
}

/// Every text of the sequence can be shown.
pub open spec fn texts_ok(ts: Seq<SpecText>, home: ModuleId, src: Seq<Seq<char>>, interns: Interns) -> bool
    decreases ts,
{
    if ts.len() == 0 {
        true
    } else {
        texts_ok(ts.drop_last(), home, src, interns) && text_ok(ts.last(), home, src, interns)
    }
}

/// The gutter between the line numbers and the source.
pub open spec fn gutter() -> Seq<char> {
    seq![' ', '\u{2506}']
}

/// `a`, then `b`.
pub open spec fn app(a: SpecDoc, b: SpecDoc) -> SpecDoc {
    SpecDoc::Append(Box::new(a), Box::new(b))
}

/// `d`, styled by `a`.
pub open spec fn ann(a: Annotation, d: SpecDoc) -> SpecDoc {
    SpecDoc::Annotated(a, Box::new(d))
}

/// The width of the largest line number of a region.
pub open spec fn number_width(r: Region) -> nat {
    decimal((r.end_line + 1) as nat).len()
}

/// The start of a source line of a region: a line break, the line number
/// right-aligned to the widest one, and the gutter.
pub open spec fn numbered_line_start(r: Region, i: nat) -> SpecDoc {
    let num = decimal((i + 1) as nat);
    app(
        app(app(SpecDoc::Line, SpecDoc::Text(spaces((number_width(r) - num.len()) as nat))),
            ann(Annotation::LineNumber, SpecDoc::Text(num))),
        ann(Annotation::GutterBar, SpecDoc::Text(gutter())),
    )
}

/// A region on a single line: the line, and under it a row of carets from
/// the start column to the end column.
pub open spec fn single_line_doc(r: Region, src: Seq<Seq<char>>) -> SpecDoc {
    let line = src[r.start_line as int];
    let rest = if is_blank(line) {
        SpecDoc::Nil
    } else {
        ann(Annotation::CodeBlock, app(SpecDoc::Nil, indent_doc(SpecDoc::Text(line), 2)))
    };
    let source_line = app(numbered_line_start(r, r.start_line as nat), rest);
    let highlight_line = app(
        app(
            app(app(SpecDoc::Line, SpecDoc::Text(spaces(number_width(r)))),
                ann(Annotation::GutterBar, SpecDoc::Text(gutter()))),
            indent_doc(SpecDoc::Text(spaces(r.start_col as nat)), 2),
        ),
        ann(Annotation::Error, SpecDoc::Text(run_of('^', (r.end_col - r.start_col) as nat))),
    );
    app(source_line, highlight_line)
}

/// Line `i` of a region that spans several lines, marked with `>`.
pub open spec fn marked_line_doc(r: Region, src: Seq<Seq<char>>, i: nat) -> SpecDoc {
    let line = src[i as int];
    let rest = if !is_blank(line) {
        indent_doc(ann(Annotation::CodeBlock, SpecDoc::Text(line)), 2)
    } else {
        SpecDoc::Nil
    };
    app(app(numbered_line_start(r, i), ann(Annotation::Error, SpecDoc::Text(seq!['>']))), rest)
}

/// The first `k` lines of a region that spans several lines.
pub open spec fn marked_lines_doc(r: Region, src: Seq<Seq<char>>, k: nat) -> SpecDoc
    decreases k,
{
    if k == 0 {
        SpecDoc::Nil
    } else {
        app(
            marked_lines_doc(r, src, (k - 1) as nat),
            marked_line_doc(r, src, (r.start_line + k - 1) as nat),
        )
    }
}

/// The number of lines a region spans.
pub open spec fn region_line_count(r: Region) -> nat {
    if r.start_line <= r.end_line {
        (r.end_line - r.start_line + 1) as nat
    } else {
        0
    }
}

/// A region: a blank line, the source lines it covers, and two line breaks.
pub open spec fn region_doc(r: Region, src: Seq<Seq<char>>) -> SpecDoc {
    let body = if r.start_line == r.end_line {
        single_line_doc(r, src)
    } else {
        marked_lines_doc(r, src, region_line_count(r))
    };
    app(app(app(app(SpecDoc::Nil, SpecDoc::Line), body), SpecDoc::Line), SpecDoc::Line)
}

/// The document of a text. Every character is put in here; what styles
/// the text is up to the writer.
pub open spec fn text_doc(t: SpecText, home: ModuleId, src: Seq<Seq<char>>, interns: Interns) -> SpecDoc
    decreases t,
{
    match t {
        SpecText::Url(s) => ann(Annotation::Url, SpecDoc::Text(s)),
        SpecText::Plain(s) => ann(Annotation::PlainText, SpecDoc::Text(s)),
        SpecText::EmText(s) => ann(Annotation::Emphasized, SpecDoc::Text(s)),
        SpecText::Keyword(s) => ann(Annotation::Keyword, SpecDoc::Text(s)),
        SpecText::GlobalTag(s) => ann(Annotation::GlobalTag, SpecDoc::Text(s)),
        SpecText::RecordField(s) => ann(Annotation::RecordField, SpecDoc::Text(seq!['.'] + s)),
        SpecText::PrivateTag(sym) => ann(
            Annotation::PrivateTag,
            SpecDoc::Text(symbol_name(sym, home, interns)),
        ),
        SpecText::Value(sym) => ann(Annotation::Symbol, SpecDoc::Text(symbol_name(sym, home, interns))),
        SpecText::Module(m) => ann(Annotation::Module, SpecDoc::Text(interns.module_name_of(m))),
        SpecText::Type(kind, s) => match kind {
            ContentKind::FlexVar | ContentKind::RigidVar => ann(
                Annotation::TypeVariable,
                SpecDoc::Text(s),
            ),
            ContentKind::Structure => ann(Annotation::Structure, SpecDoc::Text(s)),
            ContentKind::Alias => ann(Annotation::Alias, SpecDoc::Text(s)),
            ContentKind::Error => SpecDoc::Text(s),
        },
        SpecText::ErrorType(s) => app(
            app(app(SpecDoc::Nil, SpecDoc::Line), indent_doc(SpecDoc::Text(s), 4)),
            SpecDoc::Line,
        ),
        SpecText::Indent(n, b) => indent_doc(app(SpecDoc::Nil, text_doc(*b, home, src, interns)), n),
        SpecText::Docs(_) => SpecDoc::Nil,
        SpecText::Concat(ts) => concat_doc(ts, home, src, interns),
        SpecText::Stack(ts) => stack_doc(ts, home, src, interns),
        SpecText::BinOp(op) => ann(Annotation::BinOp, SpecDoc::Text(bin_op_text(op))),
        SpecText::Region(r) => region_doc(r, src),
    }
}

/// The documents of the texts, one after the other.
pub open spec fn concat_doc(ts: Seq<SpecText>, home: ModuleId, src: Seq<Seq<char>>, interns: Interns) -> SpecDoc
    decreases ts,
{
    if ts.len() == 0 {
        SpecDoc::Nil
    } else {
        app(concat_doc(ts.drop_last(), home, src, interns), text_doc(ts.last(), home, src, interns))
    }
}

/// The documents of the texts, with a line break between each two.
pub open spec fn stack_doc(ts: Seq<SpecText>, home: ModuleId, src: Seq<Seq<char>>, interns: Interns) -> SpecDoc
    decreases ts,
{
    if ts.len() == 0 {
        SpecDoc::Nil
    } else if ts.len() == 1 {
        app(SpecDoc::Nil, text_doc(ts[0], home, src, interns))
    } else {
        app(
            app(stack_doc(ts.drop_last(), home, src, interns), SpecDoc::Line),
            text_doc(ts.last(), home, src, interns),
        )
    }
}

/// What the text writes with the given styling, from the left margin.
pub open spec fn rendered(st: Styling, t: SpecText, home: ModuleId, src: Seq<Seq<char>>, interns: Interns) -> Seq<char> {
    styled(st, text_doc(t, home, src, interns), 0, 0)
}

/// The text fits the machine: no column or indentation of its layout
/// exceeds `usize::MAX`.
pub open spec fn fits(t: SpecText, home: ModuleId, src: Seq<Seq<char>>, interns: Interns) -> bool {
    peak(text_doc(t, home, src, interns), 0, 0) <= usize::MAX
}


/// The name of a symbol as a report shows it.
fn symbol_name_string(sym: &Symbol, home: ModuleId, interns: &Interns) -> (s: String)
    requires
        symbol_ok(*sym, home, *interns),
    ensures
        s@ == symbol_name(*sym, home, *interns),
{
    if sym.module_id() == home {
        // Render it unqualified if it's in the current module.
        sym.ident_string(interns).to_owned()
    } else {
        proof {
            reveal_strlit(".");
        }
        let mut s = sym.module_string(interns).to_owned();
        s.append(".");
        s.append(sym.ident_string(interns));
        s
    }
}

/// The gutter between the line numbers and the source.
fn gutter_doc() -> (d: Doc)
    ensures
        d@ == SpecDoc::Text(gutter()),
{
    proof {
        reveal_strlit(" \u{2506}");
        assert(" \u{2506}"@ =~= gutter());
    }
    text_str(" \u{2506}")
}

/// A line break, the line number `i + 1` right-aligned to `width`
/// characters, and the gutter.
fn numbered_line_start_doc(region: &Region, i: u32, width: usize) -> (d: Doc)
    requires
        i <= region.end_line,
        (region.end_line as int) < u32::MAX,
        width == decimal((region.end_line + 1) as nat).len(),
    ensures
        d@ == numbered_line_start(*region, i as nat),
{
    let line_number = decimal_string(i as u64 + 1);
    let this_line_number_length = line_number.as_str().unicode_len();
    proof {
        lemma_decimal_len_mono((i + 1) as nat, (region.end_line + 1) as nat);
    }
    let g = gutter_doc();
    let pad = spaces_string(width - this_line_number_length);
    append(
        append(
            append(line(), text(pad)),
            annotate(text(line_number), Annotation::LineNumber),
        ),
        annotate(g, Annotation::GutterBar),
    )
}

/// The document of a region.
fn region_to_doc(region: &Region, src_lines: &[&str]) -> (d: Doc)
    requires
        region_ok(*region, lines_view(src_lines@)),
    ensures
        d@ == region_doc(*region, lines_view(src_lines@)),
{
    let ghost src = lines_view(src_lines@);
    let max_line_number_length = decimal_string(region.end_line as u64 + 1).as_str().unicode_len();
    let indent_by: usize = 2;

    let body = if region.start_line == region.end_line {
        let i = region.start_line;
        let line_text = src_lines[i as usize];
        assert(line_text@ == src[i as int]);
        let rest_of_line = if line_is_blank(line_text) {
            nil()
        } else {
            annotate(append(nil(), indent(text_str(line_text), 2)), Annotation::CodeBlock)
        };
        let source_line = append(numbered_line_start_doc(region, i, max_line_number_length), rest_of_line);
        proof {
            reveal_strlit("^");
        }
        let highlight_line = append(
            append(
                append(
                    append(line(), text(spaces_string(max_line_number_length))),
                    annotate(gutter_doc(), Annotation::GutterBar),
                ),
                indent(text(spaces_string(region.start_col as usize)), indent_by),
            ),
            annotate(
                text(repeat_char("^", (region.end_col - region.start_col) as usize)),
                Annotation::Error,
            ),
        );
        append(source_line, highlight_line)
    } else {
        let mut result = nil();
        let mut i = region.start_line;
        while i <= region.end_line
            invariant
                region.start_line != region.end_line,
                indent_by == 2,
                region_ok(*region, src),
                src == lines_view(src_lines@),
                max_line_number_length == decimal((region.end_line + 1) as nat).len(),
                region.start_line <= i <= region.end_line + 1 || i == region.start_line,
                result@ == marked_lines_doc(*region, src, (i - region.start_line) as nat),
            decreases region.end_line + 1 - i,
        {
            proof {
                reveal_strlit(">");
                assert(">"@ =~= seq!['>']);
            }
            let line_text = src_lines[i as usize];
            assert(line_text@ == src[i as int]);
            let rest_of_line = if !line_is_blank(line_text) {
                indent(annotate(text_str(line_text), Annotation::CodeBlock), indent_by)
            } else {
                nil()
            };
            let start_doc = numbered_line_start_doc(region, i, max_line_number_length);
            let mark = annotate(text_str(">"), Annotation::Error);
            let source_line = append(append(start_doc, mark), rest_of_line);
            result = append(result, source_line);
            i = i + 1;
        }
        result
    };
    append(append(append(append(nil(), line()), body), line()), line())
}


impl ReportText {
    /// Lays the text out as a document. Every character is put in here; the
    /// styling (emphasis, colors, monospace font, etc) is up to the writer
    /// of the document.
    pub fn pretty(self, home: ModuleId, src_lines: &[&str], interns: &Interns) -> (d: Doc)
        requires
            text_ok(self@, home, lines_view(src_lines@), *interns),
        ensures
            d@ == text_doc(self@, home, lines_view(src_lines@), *interns),
    {
        self.to_doc(home, src_lines, interns)
    }

    fn to_doc(&self, home: ModuleId, src_lines: &[&str], interns: &Interns) -> (d: Doc)
        requires
            text_ok(self@, home, lines_view(src_lines@), *interns),
        ensures
            d@ == text_doc(self@, home, lines_view(src_lines@), *interns),
        decreases self,
    {
        let ghost src = lines_view(src_lines@);
        match self {
            ReportText::Url(s) => annotate(text(s.clone()), Annotation::Url),
            ReportText::Plain(s) => annotate(text(s.clone()), Annotation::PlainText),
            ReportText::EmText(s) => annotate(text(s.clone()), Annotation::Emphasized),
            ReportText::Keyword(s) => annotate(text(s.clone()), Annotation::Keyword),
            ReportText::GlobalTag(s) => annotate(text(s.clone()), Annotation::GlobalTag),
            ReportText::RecordField(s) => {
                proof {
                    reveal_strlit(".");
                }
                let mut field = String::new();
                field.append(".");
                field.append(s.as_str());
                assert(field@ =~= seq!['.'] + s@);
                annotate(text(field), Annotation::RecordField)
            },
            ReportText::PrivateTag(symbol) => annotate(
                text(symbol_name_string(symbol, home, interns)),
                Annotation::PrivateTag,
            ),
            ReportText::Value(symbol) => annotate(
                text(symbol_name_string(symbol, home, interns)),
                Annotation::Symbol,
            ),
            ReportText::Module(module_id) => annotate(
                text_str(interns.module_name(*module_id)),
                Annotation::Module,
            ),
            ReportText::Type(content) => match content.kind {
                ContentKind::FlexVar | ContentKind::RigidVar => annotate(
                    text(content.printed.clone()),
                    Annotation::TypeVariable,
                ),
                ContentKind::Structure => annotate(
                    text(content.printed.clone()),
                    Annotation::Structure,
                ),
                ContentKind::Alias => annotate(text(content.printed.clone()), Annotation::Alias),
                ContentKind::Error => text(content.printed.clone()),
            },
            ReportText::ErrorType(error_type) => append(
                append(append(nil(), line()), indent(text(error_type.clone()), 4)),
                line(),
            ),
            ReportText::Indent(n, nested) => {
                let rest = nested.to_doc(home, src_lines, interns);
                indent(append(nil(), rest), *n)
            },
            ReportText::Docs(_) => {
                // `text_ok` rules documentation out.
                nil()
            },
            ReportText::Concat(report_texts) => {
                let ghost ts = self@->Concat_0;
                proof {
                    lemma_children_view(*self, report_texts.len() as nat);
                }
                let mut result = nil();
                let mut i: usize = 0;
                while i < report_texts.len()
                    invariant
                        i <= report_texts.len(),
                        *self == ReportText::Concat(*report_texts),
                        ts == self@->Concat_0,
                        ts.len() == report_texts.len(),
                        forall|j: int| 0 <= j < ts.len() ==> #[trigger] ts[j] == report_texts@[j]@,
                        texts_ok(ts, home, src, *interns),
                        src == lines_view(src_lines@),
                        result@ == concat_doc(ts.take(i as int), home, src, *interns),
                    decreases report_texts.len() - i,
                {
                    proof {
                        assert(ts.take(i + 1).drop_last() =~= ts.take(i as int));
                        lemma_texts_ok_index(ts, i as int, home, src, *interns);
                        assert(decreases_to!(*self => report_texts@[i as int]));
                    }
                    let d = report_texts[i].to_doc(home, src_lines, interns);
                    result = append(result, d);
                    i = i + 1;
                }
                assert(ts.take(report_texts.len() as int) =~= ts);
                result
            },
            ReportText::Stack(report_texts) => {
                let ghost ts = self@->Stack_0;
                proof {
                    lemma_children_view(*self, report_texts.len() as nat);
                }
                let mut result = nil();
                let mut i: usize = 0;
                while i < report_texts.len()
                    invariant
                        i <= report_texts.len(),
                        *self == ReportText::Stack(*report_texts),
                        ts == self@->Stack_0,
                        ts.len() == report_texts.len(),
                        forall|j: int| 0 <= j < ts.len() ==> #[trigger] ts[j] == report_texts@[j]@,
                        texts_ok(ts, home, src, *interns),
                        src == lines_view(src_lines@),
                        result@ == stack_doc(ts.take(i as int), home, src, *interns),
                    decreases report_texts.len() - i,
                {
                    proof {
                        assert(ts.take(i + 1).drop_last() =~= ts.take(i as int));
                        lemma_texts_ok_index(ts, i as int, home, src, *interns);
                        assert(decreases_to!(*self => report_texts@[i as int]));
                    }
                    let d = report_texts[i].to_doc(home, src_lines, interns);
                    if i == 0 {
                        result = append(result, d);
                    } else {
                        result = append(append(result, line()), d);
                    }
                    i = i + 1;
                }
                assert(ts.take(report_texts.len() as int) =~= ts);
                result
            },
            ReportText::BinOp(bin_op) => annotate(text_str(bin_op.as_str()), Annotation::BinOp),
            ReportText::Region(region) => region_to_doc(region, src_lines),
        }
    }
}

/// Every text of a sequence whose texts can be shown can be shown.
pub proof fn lemma_texts_ok_index(ts: Seq<SpecText>, i: int, home: ModuleId, src: Seq<Seq<char>>, interns: Interns)
    requires
        texts_ok(ts, home, src, interns),
        0 <= i < ts.len(),
    ensures
        text_ok(ts[i], home, src, interns),
    decreases ts.len(),
{
    if i < ts.len() - 1 {
        lemma_texts_ok_index(ts.drop_last(), i, home, src, interns);
    }
}


impl ReportText {
    /// Renders to CI console output, where no colors are available.
    pub fn render_ci(self, buf: &mut String, home: ModuleId, src_lines: &[&str], interns: &Interns)
        requires
            text_ok(self@, home, lines_view(src_lines@), *interns),
            fits(self@, home, lines_view(src_lines@), *interns),
        ensures
            final(buf)@ == old(buf)@ + rendered(
                Styling::Ci,
                self@,
                home,
                lines_view(src_lines@),
                *interns,
            ),
    {
        let doc = self.pretty(home, src_lines, interns);
        let pieces = layout_doc(&doc);
        let mut writer = CiWrite::new(String::new());
        let outcome = writer.write_pieces(&pieces);
        assert(outcome is Ok);
        let out = writer.into_upstream();
        assert(out@ =~= rendered(Styling::Ci, self@, home, lines_view(src_lines@), *interns));
        buf.append(out.as_str());
    }

    /// Renders to a color terminal using ANSI escape sequences.
    pub fn render_color_terminal(
        self,
        buf: &mut String,
        home: ModuleId,
        src_lines: &[&str],
        interns: &Interns,
        palette: &Palette,
    )
        requires
            text_ok(self@, home, lines_view(src_lines@), *interns),
            fits(self@, home, lines_view(src_lines@), *interns),
        ensures
            final(buf)@ == old(buf)@ + rendered(
                Styling::Color(palette@),
                self@,
                home,
                lines_view(src_lines@),
                *interns,
            ),
    {
        let doc = self.pretty(home, src_lines, interns);
        let pieces = layout_doc(&doc);
        let mut writer = ColorWrite::new(palette, String::new());
        let outcome = writer.write_pieces(&pieces);
        assert(outcome is Ok);
        let out = writer.into_upstream();
        assert(out@ =~= rendered(
            Styling::Color(palette@),
            self@,
            home,
            lines_view(src_lines@),
            *interns,
        ));
        buf.append(out.as_str());
    }
}

} // verus!
