//! What the library's tables are, stated against what they stand for: how
//! the language spells its operators, which characters Unicode counts as
//! white space, which escape sequence colors each kind of stretch, and what
//! the report of an operator-precedence problem says.

use vstd::prelude::*;
use crate::laws::law_types_modules_operators;
use crate::render::rendered;
use crate::report::problem_texts;
use crate::doc::newline;
use crate::render::number_width;
use crate::strings::{decimal, digit_char, is_blank, is_white_space, run_of, spaces, utf8_width};
use crate::style::{
    Annotation, BLUE_CODE, BOLD_CODE, CYAN_CODE, GREEN_CODE, MAGENTA_CODE, RED_CODE, RESET_CODE,
    SpecPalette, Styling, UNDERLINE_CODE, WHITE_CODE, YELLOW_CODE, ci_close, ci_open, close_text,
    color_close, color_open, open_text,
};
use crate::symbol::{Interns, ModuleId, Symbol};
use crate::syntax::{BinOp, LocatedBinOp, PrecedenceProblem, Problem, Region};
use crate::text::SpecText;

verus! {

/// Every operator is shown as it is written in the source, styled as an
/// operator.
pub proof fn law_operator_spelling(st: Styling, home: ModuleId, src: Seq<Seq<char>>, interns: Interns)
    ensures
        ({
            let shown = |op: BinOp| rendered(st, SpecText::BinOp(op), home, src, interns);
            let o = open_text(st, Annotation::BinOp);
            let c = close_text(st, Annotation::BinOp);
            &&& shown(BinOp::Caret) == o + seq!['^'] + c
            &&& shown(BinOp::Star) == o + seq!['*'] + c
            &&& shown(BinOp::Slash) == o + seq!['/'] + c
            &&& shown(BinOp::DoubleSlash) == o + seq!['/', '/'] + c
            &&& shown(BinOp::Percent) == o + seq!['%'] + c
            &&& shown(BinOp::DoublePercent) == o + seq!['%', '%'] + c
            &&& shown(BinOp::Plus) == o + seq!['+'] + c
            &&& shown(BinOp::Minus) == o + seq!['-'] + c
            &&& shown(BinOp::Equals) == o + seq!['=', '='] + c
            &&& shown(BinOp::NotEquals) == o + seq!['!', '='] + c
            &&& shown(BinOp::LessThan) == o + seq!['<'] + c
            &&& shown(BinOp::GreaterThan) == o + seq!['>'] + c
            &&& shown(BinOp::LessThanOrEq) == o + seq!['<', '='] + c
            &&& shown(BinOp::GreaterThanOrEq) == o + seq!['>', '='] + c
            &&& shown(BinOp::And) == o + seq!['&', '&'] + c
            &&& shown(BinOp::Or) == o + seq!['|', '|'] + c
            &&& shown(BinOp::Pizza) == o + seq!['|', '>'] + c
        }),
{
    let k = crate::text::ContentKind::Error;
    let e = Seq::<char>::empty();
    let m = ModuleId(0);
    law_types_modules_operators(st, k, e, m, BinOp::Caret, home, src, interns);
    law_types_modules_operators(st, k, e, m, BinOp::Star, home, src, interns);
    law_types_modules_operators(st, k, e, m, BinOp::Slash, home, src, interns);
    law_types_modules_operators(st, k, e, m, BinOp::DoubleSlash, home, src, interns);
    law_types_modules_operators(st, k, e, m, BinOp::Percent, home, src, interns);
    law_types_modules_operators(st, k, e, m, BinOp::DoublePercent, home, src, interns);
    law_types_modules_operators(st, k, e, m, BinOp::Plus, home, src, interns);
    law_types_modules_operators(st, k, e, m, BinOp::Minus, home, src, interns);
    law_types_modules_operators(st, k, e, m, BinOp::Equals, home, src, interns);
    law_types_modules_operators(st, k, e, m, BinOp::NotEquals, home, src, interns);
    law_types_modules_operators(st, k, e, m, BinOp::LessThan, home, src, interns);
    law_types_modules_operators(st, k, e, m, BinOp::GreaterThan, home, src, interns);
    law_types_modules_operators(st, k, e, m, BinOp::LessThanOrEq, home, src, interns);
    law_types_modules_operators(st, k, e, m, BinOp::GreaterThanOrEq, home, src, interns);
    law_types_modules_operators(st, k, e, m, BinOp::And, home, src, interns);
    law_types_modules_operators(st, k, e, m, BinOp::Or, home, src, interns);
    law_types_modules_operators(st, k, e, m, BinOp::Pizza, home, src, interns);
}

/// The report of two operators that do not associate names the operator
/// once when both are the same operator, and names both otherwise.
pub proof fn law_precedence_report(region: Region, left: LocatedBinOp, right: LocatedBinOp)
    ensures
        ({
            let texts = problem_texts(
                Problem::PrecedenceProblem(PrecedenceProblem::BothNonAssociative(region, left, right)),
            );
            &&& left.value == right.value ==> texts == seq![
                SpecText::Plain("Using more than one "@),
                SpecText::BinOp(left.value),
                SpecText::Plain(
                    " like this requires parentheses, to clarify how things should be grouped."@,
                ),
                SpecText::Region(region),
            ]
            &&& left.value != right.value ==> texts == seq![
                SpecText::Plain("Using "@),
                SpecText::BinOp(left.value),
                SpecText::Plain(" and "@),
                SpecText::BinOp(right.value),
                SpecText::Plain(
                    " together requires parentheses, to clarify how they should be grouped."@,
                ),
                SpecText::Region(region),
            ]
        }),
{
}

/// The characters that Unicode gives the `White_Space` property.
pub proof fn law_white_space_chars(c: char)
    ensures
        is_white_space(c) <==> {
            ||| c == '\t' || c == '\n' || c == '\u{0B}' || c == '\u{0C}' || c == '\r'
            ||| c == ' ' || c == '\u{85}' || c == '\u{A0}' || c == '\u{1680}'
            ||| c == '\u{2000}' || c == '\u{2001}' || c == '\u{2002}' || c == '\u{2003}'
            ||| c == '\u{2004}' || c == '\u{2005}' || c == '\u{2006}' || c == '\u{2007}'
            ||| c == '\u{2008}' || c == '\u{2009}' || c == '\u{200A}'
            ||| c == '\u{2028}' || c == '\u{2029}' || c == '\u{202F}' || c == '\u{205F}'
            ||| c == '\u{3000}'
        },
{
    let u = c as u32;
    if 0x9 <= u <= 0xD || 0x2000 <= u <= 0x200A {
        assert(u == 0x9 || u == 0xA || u == 0xB || u == 0xC || u == 0xD || u == 0x2000 || u
            == 0x2001 || u == 0x2002 || u == 0x2003 || u == 0x2004 || u == 0x2005 || u == 0x2006
            || u == 0x2007 || u == 0x2008 || u == 0x2009 || u == 0x200A);
    }
}

/// A line is blank exactly when every character of it is white space: a
/// line holding anything else, a bracket or any other punctuation among
/// them, is not blank.
pub proof fn law_blank_is_white_space(s: Seq<char>)
    ensures
        is_blank(s) <==> forall|i: int| 0 <= i < s.len() ==> #[trigger] is_white_space(s[i]),
        (exists|i: int| 0 <= i < s.len() && '!' <= #[trigger] s[i] <= '~') ==> !is_blank(s),
{
    if exists|i: int| 0 <= i < s.len() && '!' <= #[trigger] s[i] <= '~' {
        let i = choose|i: int| 0 <= i < s.len() && '!' <= #[trigger] s[i] <= '~';
        law_white_space_chars(s[i]);
    }
}

/// The escape sequences of the writers, character by character.
pub proof fn law_escape_codes()
    ensures
        RED_CODE@ == seq!['\u{1b}', '[', '3', '1', 'm'],
        WHITE_CODE@ == seq!['\u{1b}', '[', '3', '7', 'm'],
        BLUE_CODE@ == seq!['\u{1b}', '[', '3', '4', 'm'],
        YELLOW_CODE@ == seq!['\u{1b}', '[', '3', '3', 'm'],
        GREEN_CODE@ == seq!['\u{1b}', '[', '4', '2', 'm'],
        CYAN_CODE@ == seq!['\u{1b}', '[', '3', '6', 'm'],
        MAGENTA_CODE@ == seq!['\u{1b}', '[', '3', '5', 'm'],
        BOLD_CODE@ == seq!['\u{1b}', '[', '1', 'm'],
        UNDERLINE_CODE@ == seq!['\u{1b}', '[', '4', 'm'],
        RESET_CODE@ == seq!['\u{1b}', '[', '0', 'm'],
{
    reveal_strlit("\u{001b}[31m");
    reveal_strlit("\u{001b}[37m");
    reveal_strlit("\u{001b}[34m");
    reveal_strlit("\u{001b}[33m");
    reveal_strlit("\u{001b}[42m");
    reveal_strlit("\u{001b}[36m");
    reveal_strlit("\u{001b}[35m");
    reveal_strlit("\u{001b}[1m");
    reveal_strlit("\u{001b}[4m");
    reveal_strlit("\u{001b}[0m");
    assert(RED_CODE@ =~= seq!['\u{1b}', '[', '3', '1', 'm']);
    assert(WHITE_CODE@ =~= seq!['\u{1b}', '[', '3', '7', 'm']);
    assert(BLUE_CODE@ =~= seq!['\u{1b}', '[', '3', '4', 'm']);
    assert(YELLOW_CODE@ =~= seq!['\u{1b}', '[', '3', '3', 'm']);
    assert(GREEN_CODE@ =~= seq!['\u{1b}', '[', '4', '2', 'm']);
    assert(CYAN_CODE@ =~= seq!['\u{1b}', '[', '3', '6', 'm']);
    assert(MAGENTA_CODE@ =~= seq!['\u{1b}', '[', '3', '5', 'm']);
    assert(BOLD_CODE@ =~= seq!['\u{1b}', '[', '1', 'm']);
    assert(UNDERLINE_CODE@ =~= seq!['\u{1b}', '[', '4', 'm']);
    assert(RESET_CODE@ =~= seq!['\u{1b}', '[', '0', 'm']);
}

/// Which escape sequence the color writer writes where each kind of
/// stretch starts and ends: bold and underline for emphasis and URLs, the
/// palette's field of the same name for the rest (operators take the alias
/// color), nothing for tags, record fields and keywords, and the reset
/// sequence at the end of every stretch that was colored.
pub proof fn law_color_codes(p: SpecPalette)
    ensures
        color_open(p, Annotation::Emphasized) == seq!['\u{1b}', '[', '1', 'm'],
        color_open(p, Annotation::Url) == seq!['\u{1b}', '[', '4', 'm'],
        color_open(p, Annotation::PlainText) == p.primary,
        color_open(p, Annotation::CodeBlock) == p.code_block,
        color_open(p, Annotation::Symbol) == p.variable,
        color_open(p, Annotation::TypeVariable) == p.type_variable,
        color_open(p, Annotation::Structure) == p.structure,
        color_open(p, Annotation::Alias) == p.alias,
        color_open(p, Annotation::BinOp) == p.alias,
        color_open(p, Annotation::Error) == p.error,
        color_open(p, Annotation::LineNumber) == p.line_number,
        color_open(p, Annotation::GutterBar) == p.gutter_bar,
        color_open(p, Annotation::Module) == p.module_name,
        color_open(p, Annotation::GlobalTag) == Seq::<char>::empty(),
        color_open(p, Annotation::PrivateTag) == Seq::<char>::empty(),
        color_open(p, Annotation::RecordField) == Seq::<char>::empty(),
        color_open(p, Annotation::Keyword) == Seq::<char>::empty(),
        forall|a: Annotation|
            #![trigger color_close(a)]
            match a {
                Annotation::GlobalTag | Annotation::PrivateTag | Annotation::RecordField
                | Annotation::Keyword => color_close(a) == Seq::<char>::empty(),
                _ => color_close(a) == seq!['\u{1b}', '[', '0', 'm'],
            },
{
    law_escape_codes();
}

/// On a color terminal a module is written in the palette's module color,
/// a value in its variable color and an operator in its alias color, each
/// followed by the reset sequence.
pub proof fn law_color_modules_values_operators(
    p: SpecPalette,
    m: ModuleId,
    op: BinOp,
    home: ModuleId,
    src: Seq<Seq<char>>,
    interns: Interns,
)
    ensures
        rendered(Styling::Color(p), SpecText::Module(m), home, src, interns) == p.module_name
            + interns.module_name_of(m) + seq!['\u{1b}', '[', '0', 'm'],
        rendered(Styling::Color(p), SpecText::BinOp(op), home, src, interns) == p.alias
            + crate::syntax::bin_op_text(op) + seq!['\u{1b}', '[', '0', 'm'],
{
    law_color_codes(p);
    law_types_modules_operators(
        Styling::Color(p),
        crate::text::ContentKind::Error,
        Seq::empty(),
        m,
        op,
        home,
        src,
        interns,
    );
    assert(color_close(Annotation::Module) == seq!['\u{1b}', '[', '0', 'm']);
    assert(color_close(Annotation::BinOp) == seq!['\u{1b}', '[', '0', 'm']);
}

/// The number that a string of decimal digits stands for.
pub open spec fn read_decimal(s: Seq<char>) -> int
    decreases s.len(),
{
    if s.len() == 0 {
        0
    } else {
        read_decimal(s.drop_last()) * 10 + (s.last() as int - '0' as int)
    }
}

proof fn lemma_digit_char(d: nat)
    requires
        d < 10,
    ensures
        digit_char(d) as int - '0' as int == d,
        '0' <= digit_char(d) <= '9',
        d > 0 ==> digit_char(d) != '0',
{
}

/// A line number is written in decimal digits, without leading zeros, and
/// read back gives the number.
pub proof fn law_decimal_reads_back(n: nat)
    ensures
        read_decimal(decimal(n)) == n,
        forall|i: int| 0 <= i < decimal(n).len() ==> '0' <= #[trigger] decimal(n)[i] <= '9',
        decimal(n).len() > 1 ==> decimal(n)[0] != '0',
    decreases n,
{
    if n < 10 {
        lemma_digit_char(n);
        assert(decimal(n).drop_last() =~= Seq::<char>::empty());
        assert(read_decimal(decimal(n).drop_last()) == 0);
        assert(decimal(n).last() == digit_char(n));
    } else {
        let q = n / 10;
        let r = n % 10;
        law_decimal_reads_back(q);
        lemma_digit_char(r);
        crate::strings::lemma_decimal_nonempty(q);
        let d = decimal(n);
        assert(d == decimal(q).push(digit_char(r)));
        assert(d.drop_last() =~= decimal(q));
        assert(d.last() == digit_char(r));
        assert(read_decimal(d) == read_decimal(decimal(q)) * 10 + (digit_char(r) as int - '0' as int));
        assert(q * 10 + r == n) by (nonlinear_arith)
            requires
                q == n / 10,
                r == n % 10,
        ;
        assert forall|i: int| 0 <= i < d.len() implies '0' <= #[trigger] d[i] <= '9' by {
            if i < decimal(q).len() {
                assert(d[i] == decimal(q)[i]);
            }
        }
        assert(d[0] == decimal(q)[0]);
        if decimal(q).len() == 1 {
            assert(q < 10) by {
                if q >= 10 {
                    crate::strings::lemma_decimal_nonempty(q / 10);
                }
            }
            lemma_digit_char(q);
        }
    }
}

/// The gutter between line numbers and source: a space and a dashed
/// vertical bar.
pub proof fn law_gutter()
    ensures
        crate::render::gutter() == seq![' ', '\u{2506}'],
{
}

/// What the console writer writes around each kind of stretch: stars
/// around emphasis, angle brackets around URLs, backticks around tags and
/// keywords, and nothing around the rest.
pub proof fn law_console_codes(a: Annotation)
    ensures
        match a {
            Annotation::Emphasized => ci_open(a) == seq!['*'] && ci_close(a) == seq!['*'],
            Annotation::Url => ci_open(a) == seq!['<'] && ci_close(a) == seq!['>'],
            Annotation::GlobalTag | Annotation::PrivateTag | Annotation::Keyword => ci_open(a)
                == seq!['`'] && ci_close(a) == seq!['`'],
            _ => ci_open(a) == Seq::<char>::empty() && ci_close(a) == Seq::<char>::empty(),
        },
{
}

/// What the reports of unused definitions, imports and arguments say, in
/// order.
pub proof fn law_unused_reports(
    symbol: Symbol,
    argument: Symbol,
    module_id: ModuleId,
    region: Region,
)
    ensures
        problem_texts(Problem::UnusedDef(symbol, region)) == seq![
            SpecText::Value(symbol),
            SpecText::Plain(" is not used anywhere in your code."@),
            SpecText::Region(region),
            SpecText::Plain("If you didn't intend on using "@),
            SpecText::Value(symbol),
            SpecText::Plain(
                " then remove it so future readers of your code don't wonder why it is there."@,
            ),
        ],
        problem_texts(Problem::UnusedImport(module_id, region)) == seq![
            SpecText::Plain("Nothing from "@),
            SpecText::Module(module_id),
            SpecText::Plain(" is used in this module."@),
            SpecText::Region(region),
            SpecText::Plain("Since "@),
            SpecText::Module(module_id),
            SpecText::Plain(" isn't used, you don't need to import it."@),
        ],
        problem_texts(Problem::UnusedArgument(symbol, argument, region)) == seq![
            SpecText::Value(symbol),
            SpecText::Plain(" doesn't use "@),
            SpecText::Value(argument),
            SpecText::Plain("."@),
            SpecText::Region(region),
            SpecText::Plain("If you don't need "@),
            SpecText::Value(argument),
            SpecText::Plain(", then you can just remove it. However, if you really do need "@),
            SpecText::Value(argument),
            SpecText::Plain(" as an argument of "@),
            SpecText::Value(symbol),
            SpecText::Plain(", prefix it with an underscore, like this: \"_"@),
            SpecText::Value(argument),
            SpecText::Plain(
                "\". Adding an underscore at the start of a variable name is a way of saying that the variable is not used."@,
            ),
        ],
{
}

/// A run of a character holds that character, as many times as asked;
/// indentation is spaces, and a line break is a newline character followed
/// by the indentation.
pub proof fn law_runs(c: char, n: nat)
    ensures
        run_of(c, n).len() == n,
        forall|i: int| 0 <= i < n ==> #[trigger] run_of(c, n)[i] == c,
        spaces(n) == run_of(' ', n),
        newline(n) == seq!['\n'] + run_of(' ', n),
{
}

/// A name is looked up in the table by the module's number, then the
/// identifier's number within that module.
pub proof fn law_names(interns: Interns, sym: Symbol, m: ModuleId)
    ensures
        interns.module_name_of(m) == interns.module_names@[m.0 as int]@,
        interns.ident_name(sym) == interns.ident_names@[sym.module.0 as int]@[sym.ident.0 as int]@,
{
}

/// Line numbers count from one, and are right-aligned to the width of the
/// number of the last line of the region.
pub proof fn law_number_width(r: Region)
    ensures
        number_width(r) == decimal(r.end_line as nat + 1).len(),
{
}

/// How many bytes the UTF-8 encoding of a character takes.
pub open spec fn char_bytes(c: char) -> nat {
    let u = c as u32;
    if u < 0x80 {
        1
    } else if u < 0x800 {
        2
    } else if u < 0x10000 {
        3
    } else {
        4
    }
}

/// How many bytes the UTF-8 encoding of the characters takes, one
/// character after the other.
pub open spec fn total_bytes(s: Seq<char>) -> nat
    decreases s.len(),
{
    if s.len() == 0 {
        0
    } else {
        char_bytes(s[0]) + total_bytes(s.drop_first())
    }
}

/// Columns advance by the number of bytes that text takes in UTF-8.
pub proof fn law_utf8_width(s: Seq<char>)
    ensures
        utf8_width(s) == total_bytes(s),
    decreases s.len(),
{
    if s.len() > 0 {
        law_utf8_width(s.drop_first());
        let u = s[0] as u32;
        vstd::utf8::char_is_scalar(s[0]);
        assert(vstd::utf8::encode_utf8(s) == vstd::utf8::encode_scalar(u) + vstd::utf8::encode_utf8(
            s.drop_first(),
        ));
        assert(vstd::utf8::encode_scalar(u).len() == char_bytes(s[0]));
    } else {
        assert(vstd::utf8::encode_utf8(s) =~= Seq::<u8>::empty());
    }
}

/// The default palette: white for plain text and code, blue for values,
/// yellow for type variables, aliases and operators, a green background for
/// structures and modules, red for errors, cyan for line numbers and
/// magenta for the gutter.
pub proof fn law_default_colors()
    ensures
        ({
            let p = crate::style::default_colors();
            let white = seq!['\u{1b}', '[', '3', '7', 'm'];
            let blue = seq!['\u{1b}', '[', '3', '4', 'm'];
            let yellow = seq!['\u{1b}', '[', '3', '3', 'm'];
            let green = seq!['\u{1b}', '[', '4', '2', 'm'];
            &&& p.primary == white && p.code_block == white
            &&& p.variable == blue
            &&& p.type_variable == yellow && p.alias == yellow
            &&& p.structure == green && p.module_name == green && p.binop == green
            &&& p.error == seq!['\u{1b}', '[', '3', '1', 'm']
            &&& p.line_number == seq!['\u{1b}', '[', '3', '6', 'm']
            &&& p.gutter_bar == seq!['\u{1b}', '[', '3', '5', 'm']
        }),
{
    law_escape_codes();
}

/// Reports exist for unused definitions, imports and arguments, and for
/// operator-precedence problems; for no other problem.
pub proof fn law_reported_problems(problem: Problem)
    ensures
        crate::report::has_report(problem) <==> (problem is UnusedDef || problem is UnusedImport
            || problem is UnusedArgument || problem is PrecedenceProblem),
{
}

} // verus!
