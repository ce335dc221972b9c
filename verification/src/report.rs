//! Reports of the problems found while canonicalizing a module.

use vstd::prelude::*;
use std::path::PathBuf;
use crate::syntax::{PrecedenceProblem, Problem};
use crate::text::SpecText;

pub use crate::style::{
    default_palette, Annotation, CiWrite, ColorWrite, Palette, BLUE_CODE, BOLD_CODE, CYAN_CODE,
    GREEN_CODE, MAGENTA_CODE, RED_CODE, RESET_CODE, UNDERLINE_CODE, WHITE_CODE, YELLOW_CODE,
};
pub use crate::text::{
    em_text, global_tag_text, keyword_text, plain_text, private_tag_text, record_field_text, url,
    ReportText,
};

verus! {

#[verifier::external_type_specification]
#[verifier::external_body]
pub struct ExPathBuf(PathBuf);

/// A textual report.
pub struct Report {
    pub title: String,
    pub filename: PathBuf,
    pub text: ReportText,
}

/// The problems that have a report.
pub open spec fn has_report(problem: Problem) -> bool {
    match problem {
        Problem::UnusedDef(..) | Problem::UnusedImport(..) | Problem::UnusedArgument(..)
        | Problem::PrecedenceProblem(..) => true,
        _ => false,
    }
}

/// Plain text.
pub open spec fn plain(s: &str) -> SpecText {
    SpecText::Plain(s@)
}

/// What the report of a problem says, in order.
pub open spec fn problem_texts(problem: Problem) -> Seq<SpecText> {
    match problem {
        Problem::UnusedDef(symbol, region) => seq![
            SpecText::Value(symbol),
            plain(" is not used anywhere in your code."),
            SpecText::Region(region),
            plain("If you didn't intend on using "),
            SpecText::Value(symbol),
            plain(" then remove it so future readers of your code don't wonder why it is there."),
        ],
        Problem::UnusedImport(module_id, region) => seq![
            plain("Nothing from "),
            SpecText::Module(module_id),
            plain(" is used in this module."),
            SpecText::Region(region),
            plain("Since "),
            SpecText::Module(module_id),
            plain(" isn't used, you don't need to import it."),
        ],
        Problem::UnusedArgument(closure_symbol, argument_symbol, region) => seq![
            SpecText::Value(closure_symbol),
            plain(" doesn't use "),
            SpecText::Value(argument_symbol),
            plain("."),
            SpecText::Region(region),
            plain("If you don't need "),
            SpecText::Value(argument_symbol),
            plain(", then you can just remove it. However, if you really do need "),
            SpecText::Value(argument_symbol),
            plain(" as an argument of "),
            SpecText::Value(closure_symbol),
            plain(", prefix it with an underscore, like this: \"_"),
            SpecText::Value(argument_symbol),
            plain("\". Adding an underscore at the start of a variable name is a way of saying that the variable is not used."),
        ],
        Problem::PrecedenceProblem(PrecedenceProblem::BothNonAssociative(region, left_bin_op, right_bin_op)) =>
            if left_bin_op.value == right_bin_op.value {
                seq![
                    plain("Using more than one "),
                    SpecText::BinOp(left_bin_op.value),
                    plain(" like this requires parentheses, to clarify how things should be grouped."),
                    SpecText::Region(region),
                ]
            } else {
                seq![
                    plain("Using "),
                    SpecText::BinOp(left_bin_op.value),
                    plain(" and "),
                    SpecText::BinOp(right_bin_op.value),
                    plain(" together requires parentheses, to clarify how they should be grouped."),
                    SpecText::Region(region),
                ]
            },
        _ => seq![],
    }
}

/// The views of a vector of texts.
pub open spec fn texts_view(v: Seq<ReportText>) -> Seq<SpecText> {
    v.map_values(|t: ReportText| t@)
}

/// The report of a problem found while canonicalizing.
pub fn can_problem(filename: PathBuf, problem: Problem) -> (report: Report)
    requires
        has_report(problem),
    ensures
        report.title@ == "SYNTAX PROBLEM"@,
        report.filename == filename,
        report.text@ == SpecText::Concat(problem_texts(problem)),
{
    let mut texts: Vec<ReportText> = Vec::new();

    match problem {
        Problem::UnusedDef(symbol, region) => {
            texts.push(ReportText::Value(symbol));
            texts.push(plain_text(" is not used anywhere in your code."));
            texts.push(ReportText::Region(region));
            texts.push(plain_text("If you didn't intend on using "));
            texts.push(ReportText::Value(symbol));
            texts.push(plain_text(
                " then remove it so future readers of your code don't wonder why it is there.",
            ));
        },
        Problem::UnusedImport(module_id, region) => {
            texts.push(plain_text("Nothing from "));
            texts.push(ReportText::Module(module_id));
            texts.push(plain_text(" is used in this module."));
            texts.push(ReportText::Region(region));
            texts.push(plain_text("Since "));
            texts.push(ReportText::Module(module_id));
            texts.push(plain_text(" isn't used, you don't need to import it."));
        },
        Problem::UnusedArgument(closure_symbol, argument_symbol, region) => {
            texts.push(ReportText::Value(closure_symbol));
            texts.push(plain_text(" doesn't use "));
            texts.push(ReportText::Value(argument_symbol));
            texts.push(plain_text("."));
            texts.push(ReportText::Region(region));
            texts.push(plain_text("If you don't need "));
            texts.push(ReportText::Value(argument_symbol));
            texts.push(plain_text(", then you can just remove it. However, if you really do need "),
            );
            texts.push(ReportText::Value(argument_symbol));
            texts.push(plain_text(" as an argument of "));
            texts.push(ReportText::Value(closure_symbol));
            texts.push(plain_text(", prefix it with an underscore, like this: \"_"));
            texts.push(ReportText::Value(argument_symbol));
            texts.push(plain_text(
                "\". Adding an underscore at the start of a variable name is a way of saying that the variable is not used.",
            ));
        },
        Problem::PrecedenceProblem(
            PrecedenceProblem::BothNonAssociative(region, left_bin_op, right_bin_op),
        ) => {
            if left_bin_op.value == right_bin_op.value {
                texts.push(plain_text("Using more than one "));
                texts.push(ReportText::BinOp(left_bin_op.value));
                texts.push(plain_text(
                    " like this requires parentheses, to clarify how things should be grouped.",
                ));
            } else {
                texts.push(plain_text("Using "));
                texts.push(ReportText::BinOp(left_bin_op.value));
                texts.push(plain_text(" and "));
                texts.push(ReportText::BinOp(right_bin_op.value));
                texts.push(plain_text(
                    " together requires parentheses, to clarify how they should be grouped.",
                ));
            }
            texts.push(ReportText::Region(region));
        },
        // `has_report` rules the other problems out.
        _ => {},
    }

    assert(texts_view(texts@) =~= problem_texts(problem));
    let text = ReportText::Concat(texts);
    proof {
        crate::text::lemma_children_view(text, texts@.len() as nat);
        assert(text@->Concat_0 =~= problem_texts(problem));
    }
    Report { title: "SYNTAX PROBLEM".to_owned(), filename, text }
}

} // verus!
