use roc_reporting::doc::Piece;
use roc_reporting::style::{
    default_palette, Annotation, CiWrite, ColorWrite, Upstream, BLUE_CODE, BOLD_CODE, GREEN_CODE,
    RESET_CODE, UNDERLINE_CODE, WHITE_CODE, YELLOW_CODE,
};

/// A sink that takes a given number of writes, then refuses every write.
struct Limited {
    out: String,
    left: usize,
}

impl Upstream for Limited {
    // What the sink holds is what `out` holds.
    fn written(&self) -> vstd::seq::Seq<char> {
        Upstream::written(&self.out)
    }

    fn write_str(&mut self, s: &str) -> Result<(), std::fmt::Error> {
        if self.left == 0 {
            Err(std::fmt::Error)
        } else {
            self.left -= 1;
            self.out.push_str(s);
            Ok(())
        }
    }
}

fn limited(left: usize) -> Limited {
    Limited { out: String::new(), left }
}

fn ci_wrapped(a: Annotation) -> String {
    let mut w = CiWrite::new(String::new());
    w.push_annotation(&a).unwrap();
    w.write_str_all("x").unwrap();
    w.pop_annotation().unwrap();
    w.into_upstream()
}

fn color_wrapped(a: Annotation) -> String {
    let palette = default_palette();
    let mut w = ColorWrite::new(&palette, String::new());
    w.push_annotation(&a).unwrap();
    w.write_str_all("x").unwrap();
    w.pop_annotation().unwrap();
    w.into_upstream()
}

#[test]
fn ci_write_starts_empty() {
    let w = CiWrite::new(String::from("before"));
    assert_eq!(w.into_upstream(), "before");
}

#[test]
fn ci_markers() {
    assert_eq!(ci_wrapped(Annotation::Emphasized), "*x*");
    assert_eq!(ci_wrapped(Annotation::Url), "<x>");
    assert_eq!(ci_wrapped(Annotation::GlobalTag), "`x`");
    assert_eq!(ci_wrapped(Annotation::PrivateTag), "`x`");
    assert_eq!(ci_wrapped(Annotation::Keyword), "`x`");
    for a in [
        Annotation::RecordField,
        Annotation::TypeVariable,
        Annotation::Alias,
        Annotation::Structure,
        Annotation::Symbol,
        Annotation::BinOp,
        Annotation::Error,
        Annotation::GutterBar,
        Annotation::LineNumber,
        Annotation::PlainText,
        Annotation::CodeBlock,
        Annotation::Module,
    ] {
        assert_eq!(ci_wrapped(a), "x");
    }
}

#[test]
fn ci_pop_with_nothing_open_writes_nothing() {
    let mut w = CiWrite::new(String::new());
    w.pop_annotation().unwrap();
    w.write_str_all("a").unwrap();
    w.pop_annotation().unwrap();
    assert_eq!(w.into_upstream(), "a");
}

#[test]
fn ci_nested_annotations_close_innermost_first() {
    let mut w = CiWrite::new(String::new());
    w.push_annotation(&Annotation::Url).unwrap();
    w.push_annotation(&Annotation::Emphasized).unwrap();
    w.write_str_all("x").unwrap();
    w.pop_annotation().unwrap();
    w.pop_annotation().unwrap();
    assert_eq!(w.into_upstream(), "<*x*>");
}

#[test]
fn write_str_returns_byte_length() {
    let mut w = CiWrite::new(String::new());
    assert_eq!(w.write_str("a\u{2506}"), Ok(4));
    assert_eq!(w.into_upstream(), "a\u{2506}");
}

#[test]
fn color_write_starts_empty() {
    let palette = default_palette();
    let w = ColorWrite::new(&palette, String::new());
    assert_eq!(w.into_upstream(), "");
}

#[test]
fn color_codes() {
    let r = RESET_CODE;
    assert_eq!(color_wrapped(Annotation::Emphasized), format!("{}x{}", BOLD_CODE, r));
    assert_eq!(color_wrapped(Annotation::Url), format!("{}x{}", UNDERLINE_CODE, r));
    assert_eq!(color_wrapped(Annotation::PlainText), format!("{}x{}", WHITE_CODE, r));
    assert_eq!(color_wrapped(Annotation::CodeBlock), format!("{}x{}", WHITE_CODE, r));
    assert_eq!(color_wrapped(Annotation::TypeVariable), format!("{}x{}", YELLOW_CODE, r));
    assert_eq!(color_wrapped(Annotation::Alias), format!("{}x{}", YELLOW_CODE, r));
    // An operator takes the alias color of the palette.
    assert_eq!(color_wrapped(Annotation::BinOp), format!("{}x{}", YELLOW_CODE, r));
    assert_eq!(color_wrapped(Annotation::Symbol), format!("{}x{}", BLUE_CODE, r));
    assert_eq!(color_wrapped(Annotation::Structure), format!("{}x{}", GREEN_CODE, r));
    assert_eq!(color_wrapped(Annotation::Module), format!("{}x{}", GREEN_CODE, r));
    assert_eq!(color_wrapped(Annotation::Error), "\u{1b}[31mx\u{1b}[0m");
    assert_eq!(color_wrapped(Annotation::LineNumber), "\u{1b}[36mx\u{1b}[0m");
    assert_eq!(color_wrapped(Annotation::GutterBar), "\u{1b}[35mx\u{1b}[0m");
    for a in [
        Annotation::GlobalTag,
        Annotation::PrivateTag,
        Annotation::RecordField,
        Annotation::Keyword,
    ] {
        assert_eq!(color_wrapped(a), "x");
    }
}

#[test]
fn color_pop_with_nothing_open_writes_nothing() {
    let palette = default_palette();
    let mut w = ColorWrite::new(&palette, String::new());
    w.pop_annotation().unwrap();
    assert_eq!(w.into_upstream(), "");
}

#[test]
fn default_palette_values() {
    let p = default_palette();
    assert_eq!(p.primary, "\u{1b}[37m");
    assert_eq!(p.code_block, "\u{1b}[37m");
    assert_eq!(p.variable, "\u{1b}[34m");
    assert_eq!(p.type_variable, "\u{1b}[33m");
    assert_eq!(p.structure, "\u{1b}[42m");
    assert_eq!(p.alias, "\u{1b}[33m");
    assert_eq!(p.error, "\u{1b}[31m");
    assert_eq!(p.line_number, "\u{1b}[36m");
    assert_eq!(p.gutter_bar, "\u{1b}[35m");
    assert_eq!(p.module_name, "\u{1b}[42m");
    assert_eq!(p.binop, "\u{1b}[42m");
}

#[test]
fn ci_push_that_cannot_write_opens_nothing() {
    let mut w = CiWrite::new(limited(0));
    assert_eq!(w.push_annotation(&Annotation::Emphasized), Err(std::fmt::Error));
    // Nothing is written for these, so the refusing sink is never asked.
    assert_eq!(w.push_annotation(&Annotation::PlainText), Ok(()));
    assert_eq!(w.pop_annotation(), Ok(()));
    // The emphasis was never opened, so there is nothing left to close.
    assert_eq!(w.pop_annotation(), Ok(()));
    assert_eq!(w.into_upstream().out, "");
}

#[test]
fn ci_pop_that_cannot_write_still_closes() {
    let mut w = CiWrite::new(limited(1));
    assert_eq!(w.push_annotation(&Annotation::Url), Ok(()));
    assert_eq!(w.pop_annotation(), Err(std::fmt::Error));
    // The stretch was closed all the same: the next pop has nothing to do.
    assert_eq!(w.pop_annotation(), Ok(()));
    assert_eq!(w.into_upstream().out, "<");
}

#[test]
fn color_push_that_cannot_write_opens_nothing() {
    let palette = default_palette();
    let mut w = ColorWrite::new(&palette, limited(0));
    assert_eq!(w.push_annotation(&Annotation::Error), Err(std::fmt::Error));
    assert_eq!(w.push_annotation(&Annotation::Keyword), Ok(()));
    assert_eq!(w.pop_annotation(), Ok(()));
    assert_eq!(w.pop_annotation(), Ok(()));
    assert_eq!(w.into_upstream().out, "");
}

#[test]
fn color_pop_that_cannot_write_still_closes() {
    let palette = default_palette();
    let mut w = ColorWrite::new(&palette, limited(1));
    assert_eq!(w.push_annotation(&Annotation::Error), Ok(()));
    assert_eq!(w.pop_annotation(), Err(std::fmt::Error));
    assert_eq!(w.pop_annotation(), Ok(()));
    assert_eq!(w.into_upstream().out, RED_CODE_TEXT);
}

const RED_CODE_TEXT: &str = "\u{1b}[31m";

#[test]
fn write_pieces_stops_at_the_first_refused_write() {
    let pieces = vec![
        Piece::Text(String::from("a")),
        Piece::Push(Annotation::Emphasized),
        Piece::Text(String::from("b")),
        Piece::Pop,
    ];
    let mut w = CiWrite::new(limited(2));
    assert_eq!(w.write_pieces(&pieces), Err(std::fmt::Error));
    assert_eq!(w.into_upstream().out, "a*");
    let mut w = CiWrite::new(limited(4));
    assert_eq!(w.write_pieces(&pieces), Ok(()));
    assert_eq!(w.into_upstream().out, "a*b*");
}

#[test]
fn writers_to_a_string_never_fail() {
    let mut s = String::from("x");
    assert_eq!(Upstream::write_str(&mut s, "y"), Ok(()));
    assert_eq!(s, "xy");
}

#[test]
fn a_refused_write_leaves_the_sink_as_it_was() {
    let mut w = CiWrite::new(limited(1));
    assert_eq!(w.write_str_all("kept"), Ok(()));
    assert_eq!(w.write_str("lost"), Err(std::fmt::Error));
    assert_eq!(w.push_annotation(&Annotation::Keyword), Err(std::fmt::Error));
    assert_eq!(w.into_upstream().out, "kept");
}

#[test]
fn each_pop_closes_the_latest_open_annotation() {
    let pieces = vec![
        Piece::Push(Annotation::Url),
        Piece::Text(String::from("a")),
        Piece::Push(Annotation::Emphasized),
        Piece::Push(Annotation::Keyword),
        Piece::Text(String::from("b")),
        Piece::Pop,
        Piece::Pop,
        Piece::Text(String::from("c")),
        Piece::Pop,
        Piece::Pop,
    ];
    let mut w = CiWrite::new(String::new());
    assert_eq!(w.write_pieces(&pieces), Ok(()));
    assert_eq!(w.into_upstream(), "<a*`b`*c>");
}
