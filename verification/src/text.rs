//! What a report says: a tree of text fragments, each of a kind that says
//! how it is shown.

use vstd::prelude::*;
use crate::symbol::{ModuleId, Symbol};
use crate::syntax::{BinOp, Region};

verus! {

/// Which kind of type a type's content is.
#[derive(Clone, Copy, Debug, PartialEq, Eq, Structural)]
pub enum ContentKind {
    FlexVar,
    RigidVar,
    Structure,
    Alias,
    Error,
}

/// A type, as a report shows it: its kind, and how the type printer
/// writes it out.
#[derive(Clone, Debug)]
pub struct Content {
    pub kind: ContentKind,
    pub printed: String,
}

/// The text of a report.
#[derive(Debug)]
pub enum ReportText {
    /// A value. Render it qualified unless it was defined in the current module.
    Value(Symbol),
    /// A module.
    Module(ModuleId),
    /// A type.
    Type(Content),
    /// A type error, as the type printer writes it out.
    ErrorType(String),
    /// Plain text
    Plain(String),
    /// Emphasized text (might be bold, italics, a different color, etc)
    EmText(String),
    /// A global tag rendered as code (e.g. a monospace font, or with backticks around it).
    GlobalTag(String),
    /// A private tag rendered as code (e.g. a monospace font, or with backticks around it).
    PrivateTag(Symbol),
    /// A record field name rendered as code (e.g. a monospace font, or with backticks around it).
    RecordField(String),
    /// A language keyword like `if`, rendered as code (e.g. a monospace font, or with backticks around it).
    Keyword(String),
    /// A region in the original source
    Region(Region),
    /// A URL, which should be rendered as a hyperlink.
    Url(String),
    /// The documentation for this symbol.
    Docs(Symbol),
    BinOp(BinOp),
    /// Many ReportText that should be concatenated together.
    Concat(Vec<ReportText>),
    /// Many ReportText that each get separate lines
    Stack(Vec<ReportText>),
    Indent(usize, Box<ReportText>),
}

/// The mathematical value of a `ReportText`.
pub enum SpecText {
    Value(Symbol),
    Module(ModuleId),
    Type(ContentKind, Seq<char>),
    ErrorType(Seq<char>),
    Plain(Seq<char>),
    EmText(Seq<char>),
    GlobalTag(Seq<char>),
    PrivateTag(Symbol),
    RecordField(Seq<char>),
    Keyword(Seq<char>),
    Region(Region),
    Url(Seq<char>),
    Docs(Symbol),
    BinOp(BinOp),
    Concat(Seq<SpecText>),
    Stack(Seq<SpecText>),
    Indent(nat, Box<SpecText>),
}

/// The mathematical value of a text.
pub open spec fn text_view(t: ReportText) -> SpecText
    decreases t, 1nat, 0nat,
{
    match t {
        ReportText::Value(s) => SpecText::Value(s),
        ReportText::Module(m) => SpecText::Module(m),
        ReportText::Type(c) => SpecText::Type(c.kind, c.printed@),
        ReportText::ErrorType(s) => SpecText::ErrorType(s@),
        ReportText::Plain(s) => SpecText::Plain(s@),
        ReportText::EmText(s) => SpecText::EmText(s@),
        ReportText::GlobalTag(s) => SpecText::GlobalTag(s@),
        ReportText::PrivateTag(s) => SpecText::PrivateTag(s),
        ReportText::RecordField(s) => SpecText::RecordField(s@),
        ReportText::Keyword(s) => SpecText::Keyword(s@),
        ReportText::Region(r) => SpecText::Region(r),
        ReportText::Url(s) => SpecText::Url(s@),
        ReportText::Docs(s) => SpecText::Docs(s),
        ReportText::BinOp(op) => SpecText::BinOp(op),
        ReportText::Concat(v) => SpecText::Concat(children_view(t, v.len() as nat)),
        ReportText::Stack(v) => SpecText::Stack(children_view(t, v.len() as nat)),
        ReportText::Indent(n, b) => SpecText::Indent(n as nat, Box::new(text_view(*b))),
    }
}

/// The views of the first `i` children of a `Concat` or a `Stack`.
pub open spec fn children_view(parent: ReportText, i: nat) -> Seq<SpecText>
    decreases parent, 0nat, i,
{
    match parent {
        ReportText::Concat(v) => if i == 0 || i > v.len() {
            Seq::empty()
        } else {
            children_view(parent, (i - 1) as nat).push(text_view(v@[i - 1]))
        },
        ReportText::Stack(v) => if i == 0 || i > v.len() {
            Seq::empty()
        } else {
            children_view(parent, (i - 1) as nat).push(text_view(v@[i - 1]))
        },
        _ => Seq::empty(),
    }
}

impl View for ReportText {
    type V = SpecText;

    open spec fn view(&self) -> SpecText {
        text_view(*self)
    }
}

impl Clone for ReportText {
    /// A copy of the text, equal to it.
    fn clone(&self) -> (res: Self)
        ensures
            res@ == self@,
        decreases self,
    {
        match self {
            ReportText::Value(s) => ReportText::Value(*s),
            ReportText::Module(m) => ReportText::Module(*m),
            ReportText::Type(c) => ReportText::Type(Content { kind: c.kind, printed: c.printed.clone() }),
            ReportText::ErrorType(s) => ReportText::ErrorType(s.clone()),
            ReportText::Plain(s) => ReportText::Plain(s.clone()),
            ReportText::EmText(s) => ReportText::EmText(s.clone()),
            ReportText::GlobalTag(s) => ReportText::GlobalTag(s.clone()),
            ReportText::PrivateTag(s) => ReportText::PrivateTag(*s),
            ReportText::RecordField(s) => ReportText::RecordField(s.clone()),
            ReportText::Keyword(s) => ReportText::Keyword(s.clone()),
            ReportText::Region(r) => ReportText::Region(*r),
            ReportText::Url(s) => ReportText::Url(s.clone()),
            ReportText::Docs(s) => ReportText::Docs(*s),
            ReportText::BinOp(op) => ReportText::BinOp(*op),
            ReportText::Concat(v) => {
                let w = clone_all(self, v);
                let res = ReportText::Concat(w);
                proof {
                    lemma_same_children(res, *self);
                }
                res
            },
            ReportText::Stack(v) => {
                let w = clone_all(self, v);
                let res = ReportText::Stack(w);
                proof {
                    lemma_same_children(res, *self);
                }
                res
            },
            ReportText::Indent(n, b) => ReportText::Indent(*n, Box::new((**b).clone())),
        }
    }
}

/// Two texts whose children have equal views, one for one, have equal
/// views of their children.
proof fn lemma_same_children(a: ReportText, b: ReportText)
    requires
        children(a).len() == children(b).len(),
        forall|j: int| 0 <= j < children(a).len() ==> #[trigger] children(a)[j]@ == children(b)[j]@,
    ensures
        children_view(a, children(a).len()) == children_view(b, children(b).len()),
{
    let n = children(a).len();
    lemma_children_view(a, n);
    lemma_children_view(b, n);
    assert forall|j: int| 0 <= j < n implies #[trigger] children_view(a, n)[j] == children_view(
        b,
        n,
    )[j] by {
        assert(children(a)[j]@ == children(b)[j]@);
    }
    assert(children_view(a, n) =~= children_view(b, n));
}

/// Copies of the children of `parent`, each equal to its original.
fn clone_all(parent: &ReportText, v: &Vec<ReportText>) -> (w: Vec<ReportText>)
    requires
        children(*parent) == v@,
    ensures
        w@.len() == v@.len(),
        forall|j: int| 0 <= j < v@.len() ==> #[trigger] w@[j]@ == v@[j]@,
    decreases parent, 0nat,
{
    let mut w: Vec<ReportText> = Vec::new();
    let mut i: usize = 0;
    while i < v.len()
        invariant
            i <= v.len(),
            children(*parent) == v@,
            w@.len() == i,
            forall|j: int| 0 <= j < i ==> #[trigger] w@[j]@ == v@[j]@,
        decreases v.len() - i,
    {
        proof {
            assert(decreases_to!(*parent => v@[i as int]));
        }
        let c = v[i].clone();
        w.push(c);
        i = i + 1;
    }
    w
}

/// The children of a `Concat` or a `Stack`.
pub open spec fn children(t: ReportText) -> Seq<ReportText> {
    match t {
        ReportText::Concat(v) => v@,
        ReportText::Stack(v) => v@,
        _ => Seq::empty(),
    }
}

/// The view of the children is the sequence of the children's views.
pub proof fn lemma_children_view(parent: ReportText, i: nat)
    requires
        i <= children(parent).len(),
    ensures
        children_view(parent, i).len() == i,
        forall|j: int|
            0 <= j < i ==> #[trigger] children_view(parent, i)[j] == text_view(children(parent)[j]),
    decreases i,
{
    if i > 0 {
        lemma_children_view(parent, (i - 1) as nat);
    }
}

/// Plain text.
pub fn plain_text(str: &str) -> (t: ReportText)
    ensures
        t@ == SpecText::Plain(str@),
{
    ReportText::Plain(str.to_owned())
}

/// Emphasized text.
pub fn em_text(str: &str) -> (t: ReportText)
    ensures
        t@ == SpecText::EmText(str@),
{
    ReportText::EmText(str.to_owned())
}

/// A private tag.
pub fn private_tag_text(symbol: Symbol) -> (t: ReportText)
    ensures
        t@ == SpecText::PrivateTag(symbol),
{
    ReportText::PrivateTag(symbol)
}

/// A global tag.
pub fn global_tag_text(str: &str) -> (t: ReportText)
    ensures
        t@ == SpecText::GlobalTag(str@),
{
    ReportText::GlobalTag(str.to_owned())
}

/// The name of a record field.
pub fn record_field_text(str: &str) -> (t: ReportText)
    ensures
        t@ == SpecText::RecordField(str@),
{
    ReportText::RecordField(str.to_owned())
}

/// A keyword of the language.
pub fn keyword_text(str: &str) -> (t: ReportText)
    ensures
        t@ == SpecText::Keyword(str@),
{
    ReportText::Keyword(str.to_owned())
}

/// A URL.
pub fn url(str: &str) -> (t: ReportText)
    ensures
        t@ == SpecText::Url(str@),
{
    ReportText::Url(str.to_owned())
}

} // verus!
