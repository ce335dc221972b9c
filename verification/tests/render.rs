use roc_reporting::style::{default_palette, Annotation, Palette, BLUE_CODE, RESET_CODE, WHITE_CODE};
use roc_reporting::symbol::{IdentId, Interns, ModuleId, Symbol};
use roc_reporting::syntax::{BinOp, Region};
use roc_reporting::text::{
    em_text, global_tag_text, keyword_text, plain_text, private_tag_text, record_field_text, url,
    Content, ContentKind, ReportText,
};
use roc_reporting::doc::{layout_doc, Doc, Piece};

fn interns() -> Interns {
    Interns {
        module_names: vec!["Main".to_string(), "List".to_string()],
        ident_names: vec![
            vec!["foo".to_string(), "bar".to_string()],
            vec!["map".to_string()],
        ],
    }
}

const SRC: [&str; 4] = ["main = 1", "x = foo bar", "   ", "    y"];

fn ci(t: ReportText) -> String {
    let mut buf = String::new();
    t.render_ci(&mut buf, ModuleId(0), &SRC, &interns());
    buf
}

fn color(t: ReportText) -> String {
    let mut buf = String::new();
    t.render_color_terminal(&mut buf, ModuleId(0), &SRC, &interns(), &default_palette());
    buf
}

fn region(start_line: u32, end_line: u32, start_col: u16, end_col: u16) -> ReportText {
    ReportText::Region(Region { start_line, end_line, start_col, end_col })
}

#[test]
fn render_appends_to_buffer() {
    let mut buf = String::from("so far: ");
    plain_text("more").render_ci(&mut buf, ModuleId(0), &SRC, &interns());
    assert_eq!(buf, "so far: more");
}

#[test]
fn console_markup() {
    assert_eq!(ci(plain_text("plain")), "plain");
    assert_eq!(ci(em_text("loud")), "*loud*");
    assert_eq!(ci(url("https://roc-lang.org")), "<https://roc-lang.org>");
    assert_eq!(ci(global_tag_text("Ok")), "`Ok`");
    assert_eq!(ci(keyword_text("when")), "`when`");
    assert_eq!(ci(record_field_text("name")), ".name");
    assert_eq!(ci(ReportText::BinOp(BinOp::DoubleSlash)), "//");
    assert_eq!(ci(ReportText::Module(ModuleId(1))), "List");
}

#[test]
fn values_qualified_unless_in_home_module() {
    let foo = Symbol::new(ModuleId(0), IdentId(0));
    let map = Symbol::new(ModuleId(1), IdentId(0));
    assert_eq!(ci(ReportText::Value(foo)), "foo");
    assert_eq!(ci(ReportText::Value(map)), "List.map");
    assert_eq!(ci(private_tag_text(foo)), "`foo`");
    assert_eq!(ci(private_tag_text(map)), "`List.map`");
    assert_eq!(color(ReportText::Value(map)), format!("{}List.map{}", BLUE_CODE, RESET_CODE));
}

#[test]
fn color_markup() {
    assert_eq!(color(plain_text("plain")), format!("{}plain{}", WHITE_CODE, RESET_CODE));
    assert_eq!(color(em_text("loud")), "\u{1b}[1mloud\u{1b}[0m");
    assert_eq!(color(url("u")), "\u{1b}[4mu\u{1b}[0m");
    assert_eq!(color(global_tag_text("Ok")), "Ok");
    assert_eq!(color(keyword_text("if")), "if");
    assert_eq!(color(record_field_text("f")), ".f");
}

#[test]
fn types_by_kind() {
    let ty = |kind, s: &str| ReportText::Type(Content { kind, printed: s.to_string() });
    assert_eq!(ci(ty(ContentKind::FlexVar, "a")), "a");
    assert_eq!(color(ty(ContentKind::FlexVar, "a")), "\u{1b}[33ma\u{1b}[0m");
    assert_eq!(color(ty(ContentKind::RigidVar, "b")), "\u{1b}[33mb\u{1b}[0m");
    assert_eq!(color(ty(ContentKind::Structure, "List a")), "\u{1b}[42mList a\u{1b}[0m");
    assert_eq!(color(ty(ContentKind::Alias, "Str")), "\u{1b}[33mStr\u{1b}[0m");
    assert_eq!(color(ty(ContentKind::Error, "?")), "?");
}

#[test]
fn error_type_on_its_own_line() {
    assert_eq!(ci(ReportText::ErrorType("Int -> Int".to_string())), "\n    Int -> Int\n");
}

#[test]
fn concat_writes_in_order() {
    let t = ReportText::Concat(vec![plain_text("a"), em_text("b"), plain_text("c")]);
    assert_eq!(ci(t), "a*b*c");
    assert_eq!(ci(ReportText::Concat(vec![])), "");
}

#[test]
fn stack_puts_each_on_its_own_line() {
    let t = ReportText::Stack(vec![plain_text("one"), plain_text("two"), plain_text("three")]);
    assert_eq!(ci(t), "one\ntwo\nthree");
    assert_eq!(ci(ReportText::Stack(vec![plain_text("only")])), "only");
    assert_eq!(ci(ReportText::Stack(vec![])), "");
}

#[test]
fn indent_shifts_every_line() {
    let t = ReportText::Indent(4, Box::new(ReportText::Stack(vec![plain_text("one"), plain_text("two")])));
    assert_eq!(ci(t), "    one\n    two");
    let after_text = ReportText::Concat(vec![
        plain_text("ab"),
        ReportText::Indent(2, Box::new(ReportText::Stack(vec![plain_text("x"), plain_text("y")]))),
    ]);
    assert_eq!(ci(after_text), "ab  x\n    y");
}

#[test]
fn single_line_region() {
    assert_eq!(ci(region(1, 1, 4, 7)), "\n\n2 \u{2506}  x = foo bar\n  \u{2506}      ^^^\n\n");
    // A blank line shows no source, and an empty region no carets.
    assert_eq!(ci(region(2, 2, 0, 0)), "\n\n3 \u{2506}\n  \u{2506}  \n\n");
}

#[test]
fn multi_line_region() {
    assert_eq!(
        ci(region(0, 2, 1, 3)),
        "\n\n1 \u{2506}>  main = 1\n2 \u{2506}>  x = foo bar\n3 \u{2506}>\n\n"
    );
    // A region whose end comes before its start shows no lines.
    assert_eq!(ci(region(3, 1, 0, 0)), "\n\n\n");
}

#[test]
fn line_numbers_are_right_aligned() {
    let src: Vec<&str> = (0..12).map(|_| "z").collect();
    let mut buf = String::new();
    region(8, 9, 0, 1).render_ci(&mut buf, ModuleId(0), &src, &interns());
    assert_eq!(buf, "\n\n 9 \u{2506}>  z\n10 \u{2506}>  z\n\n");
}

#[test]
fn colored_region() {
    let c = color(region(0, 0, 0, 4));
    let expected = format!(
        "\n\n{ln}1{r}{gb} \u{2506}{r}{cb}  main = 1{r}\n {gb} \u{2506}{r}  {er}^^^^{r}\n\n",
        ln = "\u{1b}[36m",
        gb = "\u{1b}[35m",
        cb = "\u{1b}[37m",
        er = "\u{1b}[31m",
        r = RESET_CODE,
    );
    assert_eq!(c, expected);
}

#[test]
fn pretty_builds_annotated_text() {
    let doc = plain_text("hi").pretty(ModuleId(0), &SRC, &interns());
    match doc {
        Doc::Annotated(Annotation::PlainText, inner) => match *inner {
            Doc::Text(s) => assert_eq!(s, "hi"),
            _ => panic!("expected text"),
        },
        _ => panic!("expected an annotation"),
    }
}

#[test]
fn layout_pieces_of_a_line_break() {
    let doc = roc_reporting::doc::nest(
        roc_reporting::doc::append(roc_reporting::doc::text_str("a"), roc_reporting::doc::line()),
        3,
    );
    let pieces = layout_doc(&doc);
    assert_eq!(pieces.len(), 2);
    match &pieces[1] {
        Piece::Text(s) => assert_eq!(s, "\n   "),
        _ => panic!("expected text"),
    }
}

#[test]
fn console_output_has_no_escape() {
    let foo = Symbol::new(ModuleId(0), IdentId(0));
    let t = ReportText::Stack(vec![
        ReportText::Concat(vec![em_text("Oops"), plain_text(": "), ReportText::Value(foo)]),
        region(0, 1, 0, 2),
        ReportText::Indent(2, Box::new(ReportText::ErrorType("Str".to_string()))),
        url("https://example.org"),
    ]);
    let out = ci(t);
    assert!(!out.contains('\u{1b}'));
    assert!(out.contains("*Oops*: foo"));
}

#[test]
fn color_output_resets_every_stretch() {
    let out = color(ReportText::Concat(vec![plain_text("a"), em_text("b")]));
    assert_eq!(out, "\u{1b}[37ma\u{1b}[0m\u{1b}[1mb\u{1b}[0m");
}

/// Texts without `Indent`, of every kind that can stand in a report
/// without emphasis, URLs, tags or keywords.
fn unmarked_parts() -> Vec<ReportText> {
    let foo = Symbol::new(ModuleId(0), IdentId(0));
    let map = Symbol::new(ModuleId(1), IdentId(0));
    vec![
        plain_text("The value "),
        ReportText::Value(foo),
        plain_text(" calls "),
        ReportText::Value(map),
        ReportText::Module(ModuleId(1)),
        record_field_text("name"),
        ReportText::BinOp(BinOp::Plus),
        ReportText::Type(Content { kind: ContentKind::Alias, printed: "Str".to_string() }),
        ReportText::ErrorType("List a".to_string()),
        region(1, 1, 4, 7),
        region(0, 3, 0, 1),
        ReportText::Stack(vec![plain_text("a"), plain_text("b")]),
        ReportText::Concat(vec![]),
    ]
}

#[test]
fn concat_writes_its_parts_one_after_the_other() {
    let whole = ci(ReportText::Concat(unmarked_parts()));
    let parts: String = unmarked_parts().into_iter().map(ci).collect();
    assert_eq!(whole, parts);
    let whole = color(ReportText::Concat(unmarked_parts()));
    let parts: String = unmarked_parts().into_iter().map(color).collect();
    assert_eq!(whole, parts);
    assert_eq!(ci(ReportText::Concat(vec![])), "");
}

#[test]
fn concat_with_an_indent_after_other_text_is_not_a_plain_join() {
    let indented = || ReportText::Indent(2, Box::new(ReportText::Stack(vec![plain_text("x"), plain_text("y")])));
    let whole = ci(ReportText::Concat(vec![plain_text("ab"), indented()]));
    assert_eq!(whole, "ab  x\n    y");
    assert_eq!(format!("{}{}", ci(plain_text("ab")), ci(indented())), "ab  x\n  y");
}

#[test]
fn stack_puts_each_part_on_a_line_of_its_own() {
    let mut parts: Vec<String> = unmarked_parts().into_iter().map(ci).collect();
    parts.push(ci(em_text("loud")));
    let mut texts = unmarked_parts();
    texts.push(em_text("loud"));
    assert_eq!(ci(ReportText::Stack(texts)), parts.join("\n"));
    assert_eq!(ci(ReportText::Stack(vec![])), "");
    assert_eq!(ci(ReportText::Stack(vec![plain_text("one")])), "one");
}

#[test]
fn color_with_a_blank_palette_is_console_plus_resets() {
    let blank = Palette {
        primary: "",
        code_block: "",
        variable: "",
        type_variable: "",
        structure: "",
        alias: "",
        error: "",
        line_number: "",
        gutter_bar: "",
        module_name: "",
        binop: "",
    };
    let mut buf = String::new();
    ReportText::Concat(unmarked_parts()).render_color_terminal(
        &mut buf,
        ModuleId(0),
        &SRC,
        &interns(),
        &blank,
    );
    assert!(buf.contains(RESET_CODE));
    assert_eq!(buf.replace(RESET_CODE, ""), ci(ReportText::Concat(unmarked_parts())));
}

#[test]
fn a_cloned_text_renders_the_same() {
    let original = ReportText::Stack(vec![
        ReportText::Concat(unmarked_parts()),
        ReportText::Indent(4, Box::new(em_text("deep"))),
        keyword_text("when"),
    ]);
    let copy = original.clone();
    assert_eq!(ci(copy), ci(original.clone()));
    assert_eq!(color(original.clone()), color(original));
}

fn blank_palette() -> Palette<'static> {
    Palette {
        primary: "",
        code_block: "",
        variable: "",
        type_variable: "",
        structure: "",
        alias: "",
        error: "",
        line_number: "",
        gutter_bar: "",
        module_name: "",
        binop: "",
    }
}

fn blank(t: ReportText) -> String {
    let mut buf = String::new();
    t.render_color_terminal(&mut buf, ModuleId(0), &SRC, &interns(), &blank_palette());
    buf
}

#[test]
fn blank_palette_law_allows_escapes_that_form_no_reset() {
    let text = || {
        ReportText::Concat(vec![
            plain_text("a\u{1b}[3"),
            ReportText::Value(Symbol::new(ModuleId(0), IdentId(1))),
            plain_text("m\u{1b}"),
        ])
    };
    assert!(!ci(text()).contains(RESET_CODE));
    assert_eq!(blank(text()).replace(RESET_CODE, ""), ci(text()));
}

#[test]
fn blank_palette_law_fails_where_the_console_output_holds_a_reset() {
    // No text holds a reset sequence, but the console output does.
    let text = || {
        ReportText::Concat(vec![
            ReportText::Type(Content { kind: ContentKind::Error, printed: "\u{1b}[".to_string() }),
            plain_text("0m"),
        ])
    };
    assert_eq!(ci(text()), RESET_CODE);
    assert_eq!(blank(text()), format!("{}{}", RESET_CODE, RESET_CODE));
    assert_eq!(blank(text()).replace(RESET_CODE, ""), "");
}
