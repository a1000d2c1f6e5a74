//! The shapes in which a snippet or action file states a text.
use vstd::prelude::*;
use vstd::string::StringExecFns;

verus! {

/// A text that is written as one string or as a list of lines.
#[derive(Debug, PartialEq, Eq)]
pub enum StrOrSeq {
    String(String),
    Array(Vec<String>),
}

/// A `StrOrSeq` by its plain values.
pub enum StrOrSeqView {
    String(Seq<char>),
    Array(Seq<Seq<char>>),
}

/// The lines joined by line feeds.
pub open spec fn join_lines(lines: Seq<Seq<char>>) -> Seq<char>
    decreases lines.len(),
{
    if lines.len() == 0 {
        Seq::empty()
    } else if lines.len() == 1 {
        lines[0]
    } else {
        join_lines(lines.drop_last()) + seq!['\n'] + lines.last()
    }
}

impl StrOrSeqView {
    /// The text as one string: the string itself, or the lines joined by line feeds.
    pub open spec fn text(self) -> Seq<char> {
        match self {
            StrOrSeqView::String(s) => s,
            StrOrSeqView::Array(lines) => join_lines(lines),
        }
    }

    /// The string itself, or the first of the lines where there is one.
    pub open spec fn first(self) -> Option<Seq<char>> {
        match self {
            StrOrSeqView::String(s) => Some(s),
            StrOrSeqView::Array(lines) => if lines.len() > 0 {
                Some(lines[0])
            } else {
                None
            },
        }
    }
}

impl View for StrOrSeq {
    type V = StrOrSeqView;

    open spec fn view(&self) -> StrOrSeqView {
        match self {
            StrOrSeq::String(s) => StrOrSeqView::String(s@),
            StrOrSeq::Array(lines) => StrOrSeqView::Array(
                Seq::new(lines@.len(), |i: int| lines@[i]@),
            ),
        }
    }
}

/// A copy of a list of strings.
pub fn clone_strings(lines: &Vec<String>) -> (copy: Vec<String>)
    ensures
        copy@.len() == lines@.len(),
        forall|i: int| 0 <= i < lines@.len() ==> copy@[i]@ == lines@[i]@,
{
    let mut copy: Vec<String> = Vec::new();
    let mut i: usize = 0;
    while i < lines.len()
        invariant
            i <= lines@.len(),
            copy@.len() == i,
            forall|j: int| 0 <= j < i ==> copy@[j]@ == lines@[j]@,
        decreases lines@.len() - i,
    {
        copy.push(lines[i].clone());
        i = i + 1;
    }
    copy
}

impl Clone for StrOrSeq {
    fn clone(&self) -> (copy: StrOrSeq)
        ensures
            copy@ == self@,
    {
        match self {
            StrOrSeq::String(s) => StrOrSeq::String(s.clone()),
            StrOrSeq::Array(lines) => {
                let copy = StrOrSeq::Array(clone_strings(lines));
                assert(copy@->Array_0 =~= self@->Array_0);
                copy
            },
        }
    }
}

impl StrOrSeq {
    /// The text as one string.
    pub fn to_string(&self) -> (text: String)
        ensures
            text@ == self@.text(),
    {
        match self {
            StrOrSeq::String(s) => s.clone(),
            StrOrSeq::Array(lines) => {
                let ghost views = self@->Array_0;
                let mut text = String::new();
                let mut i: usize = 0;
                while i < lines.len()
                    invariant
                        i <= lines@.len() == views.len(),
                        forall|j: int| 0 <= j < views.len() ==> views[j] == lines@[j]@,
                        text@ == join_lines(views.take(i as int)),
                    decreases lines@.len() - i,
                {
                    proof {
                        reveal_strlit("\n");
                        assert(views.take(i + 1).drop_last() =~= views.take(i as int));
                        assert("\n"@ =~= seq!['\n']);
                    }
                    if i > 0 {
                        text.append("\n");
                    }
                    text.append(lines[i].as_str());
                    i = i + 1;
                }
                assert(views.take(views.len() as int) =~= views);
                text
            },
        }
    }

    /// The string itself, or the first of the lines.
    pub fn first(&self) -> (first: Option<String>)
        ensures
            match self@.first() {
                Some(text) => first matches Some(s) && s@ == text,
                None => first is None,
            },
    {
        match self {
            StrOrSeq::String(s) => Some(s.clone()),
            StrOrSeq::Array(lines) => if lines.len() > 0 {
                Some(lines[0].clone())
            } else {
                None
            },
        }
    }
}

} // verus!
