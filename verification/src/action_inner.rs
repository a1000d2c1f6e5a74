//! The actions that the server offers by itself: a selected identifier in
//! another case.
use vstd::prelude::*;
use vstd::string::StringSliceAdditionalSpecFns;

use crate::encoding::{Range, TextEdit};
use crate::strings::str_eq;

verus! {

/// The cases into which a selected identifier can be turned.
#[derive(Clone, Copy, Debug, PartialEq, Eq, Structural)]
pub enum CaseKind {
    Snake,
    Pascal,
    Camel,
}

/// A text turned into a case.
pub uninterp spec fn case_converted(text: Seq<char>, case: CaseKind) -> Seq<char>;

/// `Casing::to_case` of `convert_case`: the text split into words at the default
/// boundaries and joined again in the pattern of `Case::Snake`, `Case::Pascal` or
/// `Case::Camel`.
#[verifier::external_body]
fn to_case(text: &str, case: CaseKind) -> (converted: String)
    ensures
        converted@ == case_converted(text@, case),
{
    convert_case::Casing::to_case(
        &text,
        match case {
            CaseKind::Snake => convert_case::Case::Snake,
            CaseKind::Pascal => convert_case::Case::Pascal,
            CaseKind::Camel => convert_case::Case::Camel,
        },
    )
}

/// An offer to rewrite the selection.
#[derive(Clone, Debug, PartialEq, Eq)]
pub struct CaseAction {
    pub title: String,
    pub edit: TextEdit,
}

/// An offer by its plain values: title, range and new text.
pub open spec fn offer_of(action: CaseAction) -> (Seq<char>, Range, Seq<char>) {
    (action.title@, action.edit.range, action.edit.new_text@)
}

/// The title under which a case is offered.
pub open spec fn case_title(case: CaseKind) -> Seq<char> {
    match case {
        CaseKind::Snake => "case_snake"@,
        CaseKind::Pascal => "CasePascal"@,
        CaseKind::Camel => "caseCamel"@,
    }
}

/// Whether a selection is offered in other cases at all: it lies in one line, is
/// ASCII and is not a single byte.
pub open spec fn case_convertible(content: Seq<char>, range: Range) -> bool {
    range.start.line == range.end.line && vstd::utf8::is_ascii_chars(content) && content.len()
        != 1
}

/// The offer to put `converted` in the place of the selection, under the title of
/// the case: one, unless the selection reads like that already.
pub open spec fn offer_if_changed(
    content: Seq<char>,
    range: Range,
    case: CaseKind,
    converted: Seq<char>,
) -> Seq<(Seq<char>, Range, Seq<char>)> {
    if converted == content {
        Seq::empty()
    } else {
        seq![(case_title(case), range, converted)]
    }
}

/// The offers for one case: one, unless the selection is in that case already.
pub open spec fn case_offer(content: Seq<char>, range: Range, case: CaseKind) -> Seq<
    (Seq<char>, Range, Seq<char>),
> {
    offer_if_changed(content, range, case, case_converted(content, case))
}

/// The offers for a selection, each as title, range and new text: snake case,
/// Pascal case and camel case, in that order.
pub open spec fn case_offers(content: Seq<char>, range: Range) -> Seq<
    (Seq<char>, Range, Seq<char>),
> {
    if case_convertible(content, range) {
        case_offer(content, range, CaseKind::Snake) + case_offer(content, range, CaseKind::Pascal)
            + case_offer(content, range, CaseKind::Camel)
    } else {
        Seq::empty()
    }
}

/// Offers `converted`, which is the selection in the case `case`, in the place of
/// the selection, unless the selection reads like that already.
pub fn push_case(
    actions: &mut Vec<CaseAction>,
    content: &str,
    range: Range,
    case: CaseKind,
    converted: String,
)
    ensures
        final(actions)@.len() == old(actions)@.len() + offer_if_changed(
            content@,
            range,
            case,
            converted@,
        ).len(),
        forall|i: int| 0 <= i < old(actions)@.len() ==> final(actions)@[i] == old(actions)@[i],
        forall|i: int|
            old(actions)@.len() <= i < final(actions)@.len() ==> offer_of(
                #[trigger] final(actions)@[i],
            ) == offer_if_changed(content@, range, case, converted@)[i - old(actions)@.len()],
{
    if !str_eq(converted.as_str(), content) {
        let title = match case {
            CaseKind::Snake => "case_snake",
            CaseKind::Pascal => "CasePascal",
            CaseKind::Camel => "caseCamel",
        };
        actions.push(
            CaseAction { title: title.to_owned(), edit: TextEdit { range, new_text: converted } },
        );
    }
}

/// The offers to turn the selected text into another case.
pub fn case_actions(range_content: &str, range: Range) -> (actions: Vec<CaseAction>)
    ensures
        actions@.len() == case_offers(range_content@, range).len(),
        forall|i: int|
            0 <= i < actions@.len() ==> offer_of(#[trigger] actions@[i]) == case_offers(
                range_content@,
                range,
            )[i],
{
    let mut actions: Vec<CaseAction> = Vec::new();
    if range.start.line != range.end.line {
        return actions;
    }
    if !range_content.is_ascii() || range_content.unicode_len() == 1 {
        return actions;
    }
    let snake = to_case(range_content, CaseKind::Snake);
    push_case(&mut actions, range_content, range, CaseKind::Snake, snake);
    let pascal = to_case(range_content, CaseKind::Pascal);
    push_case(&mut actions, range_content, range, CaseKind::Pascal, pascal);
    let camel = to_case(range_content, CaseKind::Camel);
    push_case(&mut actions, range_content, range, CaseKind::Camel, camel);
    actions
}

} // verus!
