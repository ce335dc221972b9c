use std::path::PathBuf;

use roc_reporting::report::{can_problem, ReportText as ReportTextFromReport};
use roc_reporting::symbol::{IdentId, Interns, ModuleId, Symbol};
use roc_reporting::syntax::{BinOp, LocatedBinOp, PrecedenceProblem, Problem, Region};
use roc_reporting::text::ReportText;

fn interns() -> Interns {
    Interns {
        module_names: vec!["Main".to_string(), "List".to_string()],
        ident_names: vec![vec!["foo".to_string(), "f".to_string(), "x".to_string()], vec!["map".to_string()]],
    }
}

const SRC: [&str; 2] = ["foo = 1", "f = \\x -> 2"];

fn region(line: u32, start_col: u16, end_col: u16) -> Region {
    Region { start_line: line, end_line: line, start_col, end_col }
}

fn render(problem: Problem) -> String {
    let report = can_problem(PathBuf::from("Main.roc"), problem);
    assert_eq!(report.title, "SYNTAX PROBLEM");
    assert_eq!(report.filename, PathBuf::from("Main.roc"));
    let mut buf = String::new();
    report.text.render_ci(&mut buf, ModuleId(0), &SRC, &interns());
    buf
}

#[test]
fn unused_def() {
    let foo = Symbol::new(ModuleId(0), IdentId(0));
    assert_eq!(
        render(Problem::UnusedDef(foo, region(0, 0, 3))),
        "foo is not used anywhere in your code.\n\n1 \u{2506}  foo = 1\n  \u{2506}  ^^^\n\nIf you didn't intend on using foo then remove it so future readers of your code don't wonder why it is there."
    );
}

#[test]
fn unused_import() {
    assert_eq!(
        render(Problem::UnusedImport(ModuleId(1), region(0, 0, 3))),
        "Nothing from List is used in this module.\n\n1 \u{2506}  foo = 1\n  \u{2506}  ^^^\n\nSince List isn't used, you don't need to import it."
    );
}

#[test]
fn unused_argument() {
    let f = Symbol::new(ModuleId(0), IdentId(1));
    let x = Symbol::new(ModuleId(0), IdentId(2));
    assert_eq!(
        render(Problem::UnusedArgument(f, x, region(1, 5, 6))),
        "f doesn't use x.\n\n2 \u{2506}  f = \\x -> 2\n  \u{2506}       ^\n\nIf you don't need x, then you can just remove it. However, if you really do need x as an argument of f, prefix it with an underscore, like this: \"_x\". Adding an underscore at the start of a variable name is a way of saying that the variable is not used."
    );
}

#[test]
fn same_operator_twice() {
    let op = |c: u16| LocatedBinOp { region: region(0, c, c + 1), value: BinOp::Equals };
    let problem = Problem::PrecedenceProblem(PrecedenceProblem::BothNonAssociative(region(0, 0, 7), op(2), op(4)));
    assert_eq!(
        render(problem),
        "Using more than one == like this requires parentheses, to clarify how things should be grouped.\n\n1 \u{2506}  foo = 1\n  \u{2506}  ^^^^^^^\n\n"
    );
}

#[test]
fn two_different_operators() {
    let left = LocatedBinOp { region: region(0, 1, 2), value: BinOp::LessThan };
    let right = LocatedBinOp { region: region(0, 3, 4), value: BinOp::GreaterThan };
    let problem = Problem::PrecedenceProblem(PrecedenceProblem::BothNonAssociative(region(0, 0, 1), left, right));
    assert_eq!(
        render(problem),
        "Using < and > together requires parentheses, to clarify how they should be grouped.\n\n1 \u{2506}  foo = 1\n  \u{2506}  ^\n\n"
    );
}

#[test]
fn report_is_a_concat() {
    let foo = Symbol::new(ModuleId(0), IdentId(0));
    let report = can_problem(PathBuf::from("a.roc"), Problem::UnusedDef(foo, region(0, 0, 1)));
    match report.text {
        ReportText::Concat(texts) => assert_eq!(texts.len(), 6),
        _ => panic!("expected a concatenation"),
    }
}

#[test]
fn report_module_offers_the_text_helpers() {
    let t: ReportTextFromReport = roc_reporting::report::plain_text("x");
    let mut buf = String::new();
    t.render_ci(&mut buf, ModuleId(0), &SRC, &interns());
    assert_eq!(buf, "x");
}
