//! Renders sample reports both through this library and through the
//! `pretty` crate's own layout engine, driven the way the compiler drives
//! it, and checks that the two agree character for character.

use pretty::{BoxAllocator, DocAllocator, DocBuilder, Render, RenderAnnotated};
use roc_reporting::style::{default_palette, Annotation, Palette, BOLD_CODE, RESET_CODE, UNDERLINE_CODE};
use roc_reporting::symbol::{IdentId, Interns, ModuleId, Symbol};
use roc_reporting::syntax::{BinOp, Region};
use roc_reporting::text::{Content, ContentKind, ReportText};

struct EngineCi {
    stack: Vec<Annotation>,
    out: String,
}

impl Render for EngineCi {
    type Error = std::fmt::Error;

    fn write_str(&mut self, s: &str) -> Result<usize, std::fmt::Error> {
        self.out.push_str(s);
        Ok(s.len())
    }
}

impl RenderAnnotated<Annotation> for EngineCi {
    fn push_annotation(&mut self, a: &Annotation) -> Result<(), Self::Error> {
        match a {
            Annotation::Emphasized => self.out.push('*'),
            Annotation::Url => self.out.push('<'),
            Annotation::GlobalTag | Annotation::PrivateTag | Annotation::Keyword => self.out.push('`'),
            _ => {}
        }
        self.stack.push(*a);
        Ok(())
    }

    fn pop_annotation(&mut self) -> Result<(), Self::Error> {
        match self.stack.pop() {
            Some(Annotation::Emphasized) => self.out.push('*'),
            Some(Annotation::Url) => self.out.push('>'),
            Some(Annotation::GlobalTag) | Some(Annotation::PrivateTag) | Some(Annotation::Keyword) => self.out.push('`'),
            _ => {}
        }
        Ok(())
    }
}

struct EngineColor<'a> {
    stack: Vec<Annotation>,
    palette: &'a Palette<'a>,
    out: String,
}

impl<'a> Render for EngineColor<'a> {
    type Error = std::fmt::Error;

    fn write_str(&mut self, s: &str) -> Result<usize, std::fmt::Error> {
        self.out.push_str(s);
        Ok(s.len())
    }
}

impl<'a> RenderAnnotated<Annotation> for EngineColor<'a> {
    fn push_annotation(&mut self, a: &Annotation) -> Result<(), Self::Error> {
        let p = self.palette;
        let code = match a {
            Annotation::Emphasized => BOLD_CODE,
            Annotation::Url => UNDERLINE_CODE,
            Annotation::PlainText => p.primary,
            Annotation::CodeBlock => p.code_block,
            Annotation::TypeVariable => p.type_variable,
            Annotation::Alias => p.alias,
            Annotation::BinOp => p.alias,
            Annotation::Symbol => p.variable,
            Annotation::GutterBar => p.gutter_bar,
            Annotation::Error => p.error,
            Annotation::LineNumber => p.line_number,
            Annotation::Structure => p.structure,
            Annotation::Module => p.module_name,
            Annotation::GlobalTag | Annotation::PrivateTag | Annotation::RecordField | Annotation::Keyword => "",
        };
        self.out.push_str(code);
        self.stack.push(*a);
        Ok(())
    }

    fn pop_annotation(&mut self) -> Result<(), Self::Error> {
        match self.stack.pop() {
            None | Some(Annotation::GlobalTag) | Some(Annotation::PrivateTag) | Some(Annotation::RecordField) | Some(Annotation::Keyword) => {}
            Some(_) => self.out.push_str(RESET_CODE),
        }
        Ok(())
    }
}

fn name(symbol: &Symbol, home: ModuleId, interns: &Interns) -> String {
    let ident = &interns.ident_names[symbol.module.0 as usize][symbol.ident.0 as usize];
    if symbol.module == home {
        ident.clone()
    } else {
        format!("{}.{}", interns.module_names[symbol.module.0 as usize], ident)
    }
}

/// The document of a text, built with the layout engine's own combinators.
fn engine_doc<'b, D>(
    t: &ReportText,
    alloc: &'b D,
    home: ModuleId,
    src_lines: &'b [&'b str],
    interns: &Interns,
) -> DocBuilder<'b, D, Annotation>
where
    D: DocAllocator<'b, Annotation>,
    D::Doc: Clone,
{
    match t {
        ReportText::Url(s) => alloc.text(s.clone()).annotate(Annotation::Url),
        ReportText::Plain(s) => alloc.text(s.clone()).annotate(Annotation::PlainText),
        ReportText::EmText(s) => alloc.text(s.clone()).annotate(Annotation::Emphasized),
        ReportText::Keyword(s) => alloc.text(s.clone()).annotate(Annotation::Keyword),
        ReportText::GlobalTag(s) => alloc.text(s.clone()).annotate(Annotation::GlobalTag),
        ReportText::RecordField(s) => alloc.text(format!(".{}", s)).annotate(Annotation::RecordField),
        ReportText::PrivateTag(sym) => alloc.text(name(sym, home, interns)).annotate(Annotation::PrivateTag),
        ReportText::Value(sym) => alloc.text(name(sym, home, interns)).annotate(Annotation::Symbol),
        ReportText::Module(m) => alloc
            .text(interns.module_names[m.0 as usize].clone())
            .annotate(Annotation::Module),
        ReportText::Type(content) => match content.kind {
            ContentKind::FlexVar | ContentKind::RigidVar => {
                alloc.text(content.printed.clone()).annotate(Annotation::TypeVariable)
            }
            ContentKind::Structure => alloc.text(content.printed.clone()).annotate(Annotation::Structure),
            ContentKind::Alias => alloc.text(content.printed.clone()).annotate(Annotation::Alias),
            ContentKind::Error => alloc.text(content.printed.clone()),
        },
        ReportText::ErrorType(s) => alloc
            .nil()
            .append(alloc.hardline())
            .append(alloc.text(s.clone()).indent(4))
            .append(alloc.hardline()),
        ReportText::Indent(n, nested) => {
            let rest = engine_doc(nested, alloc, home, src_lines, interns);
            alloc.nil().append(rest).indent(*n)
        }
        ReportText::Docs(_) => panic!("no docs"),
        ReportText::Concat(ts) => alloc.concat(ts.iter().map(|t| engine_doc(t, alloc, home, src_lines, interns))),
        ReportText::Stack(ts) => alloc.intersperse(
            ts.iter().map(|t| engine_doc(t, alloc, home, src_lines, interns)),
            alloc.hardline(),
        ),
        ReportText::BinOp(op) => alloc.text(op.as_str()).annotate(Annotation::BinOp),
        ReportText::Region(region) => {
            let max_line_number_length = (region.end_line + 1).to_string().len();
            let indent = 2;
            let body = if region.start_line == region.end_line {
                let i = region.start_line;
                let line_number = (i + 1).to_string();
                let this_line_number_length = line_number.len();
                let line = src_lines[i as usize];
                let rest_of_line = if line.trim().is_empty() {
                    alloc.nil()
                } else {
                    alloc.nil().append(alloc.text(line).indent(2)).annotate(Annotation::CodeBlock)
                };
                let source_line = alloc
                    .line()
                    .append(alloc.text(" ".repeat(max_line_number_length - this_line_number_length)))
                    .append(alloc.text(line_number).annotate(Annotation::LineNumber))
                    .append(alloc.text(" \u{2506}").annotate(Annotation::GutterBar))
                    .append(rest_of_line);
                let highlight_line = alloc
                    .line()
                    .append(alloc.text(" ".repeat(max_line_number_length)))
                    .append(alloc.text(" \u{2506}").annotate(Annotation::GutterBar))
                    .append(alloc.text(" ".repeat(region.start_col as usize)).indent(indent))
                    .append(
                        alloc
                            .text("^".repeat((region.end_col - region.start_col) as usize))
                            .annotate(Annotation::Error),
                    );
                source_line.append(highlight_line)
            } else {
                let mut result = alloc.nil();
                for i in region.start_line..=region.end_line {
                    let line_number = (i + 1).to_string();
                    let this_line_number_length = line_number.len();
                    let line = src_lines[i as usize];
                    let rest_of_line = if !line.trim().is_empty() {
                        alloc.text(line).annotate(Annotation::CodeBlock).indent(indent)
                    } else {
                        alloc.nil()
                    };
                    let source_line = alloc
                        .line()
                        .append(alloc.text(" ".repeat(max_line_number_length - this_line_number_length)))
                        .append(alloc.text(line_number).annotate(Annotation::LineNumber))
                        .append(alloc.text(" \u{2506}").annotate(Annotation::GutterBar))
                        .append(alloc.text(">").annotate(Annotation::Error))
                        .append(rest_of_line);
                    result = result.append(source_line);
                }
                result
            };
            alloc.nil().append(alloc.line()).append(body).append(alloc.line()).append(alloc.line())
        }
    }
}

fn engine_ci(t: &ReportText, home: ModuleId, src_lines: &[&str], interns: &Interns) -> String {
    let alloc = BoxAllocator;
    let mut w = EngineCi { stack: vec![], out: String::new() };
    engine_doc(t, &alloc, home, src_lines, interns).1.render_raw(70, &mut w).unwrap();
    w.out
}

fn engine_color(t: &ReportText, home: ModuleId, src_lines: &[&str], interns: &Interns, p: &Palette) -> String {
    let alloc = BoxAllocator;
    let mut w = EngineColor { stack: vec![], palette: p, out: String::new() };
    engine_doc(t, &alloc, home, src_lines, interns).1.render_raw(70, &mut w).unwrap();
    w.out
}

fn interns() -> Interns {
    Interns {
        module_names: vec!["Main".to_string(), "List".to_string()],
        ident_names: vec![
            vec!["foo".to_string(), "bar".to_string()],
            vec!["map".to_string()],
        ],
    }
}

fn main_sym(i: u32) -> Symbol {
    Symbol::new(ModuleId(0), IdentId(i))
}

fn region(start_line: u32, end_line: u32, start_col: u16, end_col: u16) -> Region {
    Region { start_line, end_line, start_col, end_col }
}

fn p(s: &str) -> ReportText {
    ReportText::Plain(s.to_string())
}

fn samples() -> Vec<ReportText> {
    let list_map = Symbol::new(ModuleId(1), IdentId(0));
    let content = |kind, s: &str| ReportText::Type(Content { kind, printed: s.to_string() });
    vec![
        p("hello"),
        ReportText::EmText("loud".to_string()),
        ReportText::Url("https://example.org".to_string()),
        ReportText::Keyword("if".to_string()),
        ReportText::GlobalTag("Ok".to_string()),
        ReportText::RecordField("name".to_string()),
        ReportText::PrivateTag(main_sym(1)),
        ReportText::PrivateTag(list_map),
        ReportText::Value(main_sym(0)),
        ReportText::Value(list_map),
        ReportText::Module(ModuleId(1)),
        content(ContentKind::FlexVar, "a"),
        content(ContentKind::RigidVar, "b"),
        content(ContentKind::Structure, "List a"),
        content(ContentKind::Alias, "Str"),
        content(ContentKind::Error, "?"),
        ReportText::ErrorType("Int -> Int".to_string()),
        ReportText::BinOp(BinOp::Pizza),
        ReportText::Region(region(1, 1, 4, 7)),
        ReportText::Region(region(2, 2, 0, 0)),
        ReportText::Region(region(0, 2, 1, 3)),
        ReportText::Region(region(3, 1, 0, 0)),
        ReportText::Region(region(9, 10, 0, 5)),
        ReportText::Concat(vec![]),
        ReportText::Stack(vec![]),
        ReportText::Concat(vec![p("a"), ReportText::Value(main_sym(0)), p("b")]),
        ReportText::Stack(vec![p("one"), p("two"), ReportText::EmText("three".to_string())]),
        ReportText::Indent(4, Box::new(ReportText::Stack(vec![p("one"), p("two")]))),
        ReportText::Concat(vec![
            p("abc"),
            ReportText::Indent(2, Box::new(ReportText::Stack(vec![p("x"), ReportText::Region(region(1, 1, 0, 2))]))),
            p("after"),
        ]),
        ReportText::Concat(vec![
            p("\u{2506}\u{2506}"),
            ReportText::Indent(3, Box::new(ReportText::Stack(vec![p("x"), ReportText::ErrorType("T".to_string())]))),
        ]),
        ReportText::Stack(vec![
            ReportText::Indent(1, Box::new(ReportText::Indent(2, Box::new(ReportText::Stack(vec![p("a"), p("b")]))))),
            ReportText::Region(region(0, 1, 0, 0)),
        ]),
    ]
}

fn source() -> Vec<&'static str> {
    vec![
        "main = 1",
        "x = foo bar",
        "   ",
        "",
        "    y",
        "",
        "",
        "",
        "",
        "nine",
        "ten \u{2506}",
    ]
}

#[test]
fn console_renders_agree_with_layout_engine() {
    let interns = interns();
    let src = source();
    for t in samples() {
        let expected = engine_ci(&t, ModuleId(0), &src, &interns);
        let mut buf = String::new();
        t.render_ci(&mut buf, ModuleId(0), &src, &interns);
        assert_eq!(buf, expected);
    }
}

#[test]
fn color_renders_agree_with_layout_engine() {
    let interns = interns();
    let src = source();
    let palette = default_palette();
    for t in samples() {
        let expected = engine_color(&t, ModuleId(0), &src, &interns, &palette);
        let mut buf = String::new();
        t.render_color_terminal(&mut buf, ModuleId(0), &src, &interns, &palette);
        assert_eq!(buf, expected);
    }
}

struct Lcg(u64);

impl Lcg {
    fn next(&mut self, bound: u64) -> u64 {
        self.0 = self.0.wrapping_mul(6364136223846793005).wrapping_add(1442695040888963407);
        (self.0 >> 33) % bound
    }
}

fn generated(rng: &mut Lcg, depth: u32) -> ReportText {
    let words = ["a", "word", "\u{2506}x", "\u{e9}t\u{e9}", "", "two words"];
    let pick = |rng: &mut Lcg| words[rng.next(words.len() as u64) as usize].to_string();
    let leaf_kinds = 10;
    let kinds = if depth == 0 { leaf_kinds } else { leaf_kinds + 3 };
    match rng.next(kinds) {
        0 => ReportText::Plain(pick(rng)),
        1 => ReportText::EmText(pick(rng)),
        2 => ReportText::Url(pick(rng)),
        3 => ReportText::RecordField(pick(rng)),
        4 => ReportText::Value(Symbol::new(ModuleId(rng.next(2) as u32), IdentId(0))),
        5 => ReportText::ErrorType(pick(rng)),
        6 => ReportText::BinOp(BinOp::And),
        7 => {
            let start = rng.next(10) as u32;
            let end = start + rng.next(2) as u32;
            let c1 = rng.next(5) as u16;
            let c2 = c1 + rng.next(5) as u16;
            ReportText::Region(region(start, end, c1, c2))
        }
        8 => ReportText::Module(ModuleId(1)),
        9 => ReportText::Keyword(pick(rng)),
        10 => {
            let n = rng.next(4);
            ReportText::Concat((0..n).map(|_| generated(rng, depth - 1)).collect())
        }
        11 => {
            let n = rng.next(4);
            ReportText::Stack((0..n).map(|_| generated(rng, depth - 1)).collect())
        }
        _ => ReportText::Indent(rng.next(5) as usize, Box::new(generated(rng, depth - 1))),
    }
}

#[test]
fn generated_reports_agree_with_layout_engine() {
    let interns = interns();
    let src = source();
    let palette = default_palette();
    for seed in 0..400u64 {
        let t = generated(&mut Lcg(seed), 4);
        let expected_ci = engine_ci(&t, ModuleId(0), &src, &interns);
        let expected_color = engine_color(&t, ModuleId(0), &src, &interns, &palette);
        let described = format!("{:?}", t);

        let mut buf = String::new();
        t.render_ci(&mut buf, ModuleId(0), &src, &interns);
        assert_eq!(buf, expected_ci, "{}", described);

        let mut buf = String::new();
        generated(&mut Lcg(seed), 4).render_color_terminal(&mut buf, ModuleId(0), &src, &interns, &palette);
        assert_eq!(buf, expected_color, "{}", described);
    }
}
