//! Snippets: pieces of text that a completion offers under a prefix.
use vstd::prelude::*;

use crate::keyed::Keyed;
use crate::parser::{StrOrSeq, StrOrSeqView};
use crate::strings::str_eq;
use crate::variables::{replaces_variables, VariableInit, Variables};

verus! {

/// One snippet: the prefixes under which it is offered, and the text it inserts.
#[derive(Debug)]
pub struct Snippet {
    prefix: StrOrSeq,
    body: StrOrSeq,
    description: Option<String>,
}

/// A `Snippet` by its plain values.
pub struct SnippetView {
    pub prefix: StrOrSeqView,
    pub body: StrOrSeqView,
    pub description: Option<Seq<char>>,
}

impl View for Snippet {
    type V = SnippetView;

    closed spec fn view(&self) -> SnippetView {
        SnippetView {
            prefix: self.prefix@,
            body: self.body@,
            description: match self.description {
                Some(d) => Some(d@),
                None => None,
            },
        }
    }
}

impl Clone for Snippet {
    fn clone(&self) -> (copy: Snippet)
        ensures
            copy@ == self@,
    {
        Snippet {
            prefix: self.prefix.clone(),
            body: self.body.clone(),
            description: match &self.description {
                Some(d) => Some(d.clone()),
                None => None,
            },
        }
    }
}

/// What a completion shows of a snippet under one prefix.
#[derive(Debug, PartialEq, Eq)]
pub struct CompletionItem {
    pub label: String,
    pub detail: String,
    pub insert_text: String,
}

impl SnippetView {
    /// The description, or an empty text where there is none.
    pub open spec fn description_text(self) -> Seq<char> {
        match self.description {
            Some(d) => d,
            None => Seq::empty(),
        }
    }

    /// The prefixes under which the snippet is offered.
    pub open spec fn prefixes(self) -> Seq<Seq<char>> {
        match self.prefix {
            StrOrSeqView::String(s) => seq![s],
            StrOrSeqView::Array(prefixes) => prefixes,
        }
    }
}

impl Snippet {
    pub fn new(prefix: StrOrSeq, body: StrOrSeq, description: Option<String>) -> (snippet: Snippet)
        ensures
            snippet@ == (SnippetView {
                prefix: prefix@,
                body: body@,
                description: match description {
                    Some(d) => Some(d@),
                    None => None,
                },
            }),
    {
        Snippet { prefix, body, description }
    }

    pub fn prefix(&self) -> (prefix: &StrOrSeq)
        ensures
            prefix@ == self@.prefix,
    {
        &self.prefix
    }

    pub fn body(&self) -> (body: &StrOrSeq)
        ensures
            body@ == self@.body,
    {
        &self.body
    }

    /// The description, or an empty text where there is none.
    pub fn description(&self) -> (description: String)
        ensures
            description@ == self@.description_text(),
    {
        match &self.description {
            Some(s) => s.clone(),
            None => String::new(),
        }
    }

    /// One item for each prefix of the snippet, all with `body` as the text to
    /// insert.
    pub fn completion_items(&self, body: &str) -> (items: Vec<CompletionItem>)
        ensures
            items@.len() == self@.prefixes().len(),
            forall|i: int|
                0 <= i < items@.len() ==> (#[trigger] items@[i]).label@ == self@.prefixes()[i]
                    && items@[i].detail@ == self@.description_text() && items@[i].insert_text@
                    == body@,
    {
        let mut items: Vec<CompletionItem> = Vec::new();
        match &self.prefix {
            StrOrSeq::String(s) => {
                items.push(
                    CompletionItem {
                        label: s.clone(),
                        detail: self.description(),
                        insert_text: body.to_owned(),
                    },
                );
            },
            StrOrSeq::Array(prefixes) => {
                let mut i: usize = 0;
                while i < prefixes.len()
                    invariant
                        i <= prefixes@.len(),
                        items@.len() == i,
                        self@.prefixes().len() == prefixes@.len(),
                        forall|j: int|
                            0 <= j < prefixes@.len() ==> self@.prefixes()[j] == prefixes@[j]@,
                        forall|j: int|
                            0 <= j < i ==> (#[trigger] items@[j]).label@ == self@.prefixes()[j]
                                && items@[j].detail@ == self@.description_text()
                                && items@[j].insert_text@ == body@,
                    decreases prefixes@.len() - i,
                {
                    items.push(
                        CompletionItem {
                            label: prefixes[i].clone(),
                            detail: self.description(),
                            insert_text: body.to_owned(),
                        },
                    );
                    i = i + 1;
                }
            },
        }
        items
    }

    /// One item for each prefix of the snippet. The text to insert is the body
    /// with its variables replaced.
    pub fn to_completion_item(&self, variable_init: &VariableInit) -> (items: Vec<CompletionItem>)
        ensures
            items@.len() == self@.prefixes().len(),
            forall|i: int|
                0 <= i < items@.len() ==> (#[trigger] items@[i]).label@ == self@.prefixes()[i]
                    && items@[i].detail@ == self@.description_text() && items@[i].insert_text@
                    == items@[0].insert_text@ && replaces_variables(
                    self@.body.text(),
                    *variable_init,
                    items@[i].insert_text@,
                ),
    {
        let body = self.body.to_string();
        let body = Variables::replace_all(body.as_str(), variable_init);
        self.completion_items(body.as_str())
    }
}

/// The snippets of one language, by title.
pub struct Snippets {
    name: String,
    snippets: Keyed<Snippet>,
}

/// A `Snippets` by its plain values.
pub struct SnippetsView {
    pub name: Seq<char>,
    pub snippets: Map<Seq<char>, SnippetView>,
}

impl View for Snippets {
    type V = SnippetsView;

    closed spec fn view(&self) -> SnippetsView {
        SnippetsView {
            name: self.name@,
            snippets: self.snippets@.map_values(|s: Snippet| s@),
        }
    }
}

/// What a list of snippet sets gives when it is merged from its last set to its
/// first: where two sets have a title, the set that stands earlier in the list
/// decides. A place without a set adds nothing.
pub open spec fn merged_snippets(files: Seq<Option<Snippets>>) -> Map<Seq<char>, SnippetView>
    decreases files.len(),
{
    if files.len() == 0 {
        Map::empty()
    } else {
        match files[0] {
            Some(snippets) => merged_snippets(files.drop_first()).union_prefer_right(
                snippets@.snippets,
            ),
            None => merged_snippets(files.drop_first()),
        }
    }
}

impl Default for Snippets {
    fn default() -> (set: Snippets)
        ensures
            set@.name == "default"@,
            set@.snippets == Map::<Seq<char>, SnippetView>::empty(),
    {
        Snippets::new("default".to_owned(), Keyed::new())
    }
}

impl Snippets {
    pub fn new(name: String, snippets: Keyed<Snippet>) -> (set: Snippets)
        ensures
            set@.name == name@,
            set@.snippets == snippets@.map_values(|s: Snippet| s@),
            set.spec_len() == snippets.spec_len(),
            forall|i: int|
                0 <= i < set.spec_len() ==> set.spec_title(i) == snippets.spec_key(i)
                    && set.spec_snippet(i) == snippets.spec_value(i)@,
    {
        Snippets { name, snippets }
    }

    /// The number of snippets.
    pub closed spec fn spec_len(&self) -> nat {
        self.snippets.spec_len()
    }

    /// The title of the `i`-th snippet.
    pub closed spec fn spec_title(&self, i: int) -> Seq<char> {
        self.snippets.spec_key(i)
    }

    /// The `i`-th snippet.
    pub closed spec fn spec_snippet(&self, i: int) -> SnippetView {
        self.snippets.spec_value(i)@
    }

    pub fn name(&self) -> (name: &String)
        ensures
            name@ == self@.name,
    {
        &self.name
    }

    pub fn len(&self) -> (n: usize)
        ensures
            n == self.spec_len(),
    {
        self.snippets.len()
    }

    /// The title of the `i`-th snippet.
    pub fn title(&self, i: usize) -> (title: &String)
        requires
            i < self.spec_len(),
        ensures
            title@ == self.spec_title(i as int),
            self@.snippets.contains_key(title@),
    {
        self.snippets.key(i)
    }

    /// The `i`-th snippet.
    pub fn snippet(&self, i: usize) -> (snippet: &Snippet)
        requires
            i < self.spec_len(),
        ensures
            snippet@ == self.spec_snippet(i as int),
            snippet@ == self@.snippets[self.spec_title(i as int)],
    {
        self.snippets.recall_entries();
        self.snippets.value(i)
    }

    /// The snippet with a title.
    pub fn get(&self, title: &str) -> (snippet: Option<&Snippet>)
        ensures
            match snippet {
                Some(s) => self@.snippets.contains_key(title@) && s@ == self@.snippets[title@],
                None => !self@.snippets.contains_key(title@),
            },
    {
        self.snippets.get(title)
    }

    /// Takes in the snippets of `other`. Where both have a title, the snippet of
    /// `other` stays.
    pub fn extend(&mut self, other: Snippets)
        ensures
            final(self)@.name == old(self)@.name,
            final(self)@.snippets == old(self)@.snippets.union_prefer_right(other@.snippets),
    {
        self.snippets.extend(other.snippets);
        assert(final(self)@.snippets =~= old(self)@.snippets.union_prefer_right(
            other@.snippets,
        ));
    }

    /// Merges the sets that were read from a list of files, from the last file to
    /// the first, so that an earlier file decides where two have a title. A file
    /// that could not be read has no set.
    pub fn from_files(name: String, files: Vec<Option<Snippets>>) -> (set: Snippets)
        ensures
            set@.name == name@,
            set@.snippets == merged_snippets(files@),
    {
        let mut set = Snippets { name, snippets: Keyed::new() };
        let mut rest = files;
        let ghost all = rest@;
        assert(set@.snippets =~= Map::<Seq<char>, SnippetView>::empty());
        assert(all.skip(all.len() as int) =~= Seq::<Option<Snippets>>::empty());
        while rest.len() > 0
            invariant
                rest@.len() <= all.len(),
                rest@ == all.take(rest@.len() as int),
                set@.name == name@,
                set@.snippets == merged_snippets(all.skip(rest@.len() as int)),
            decreases rest@.len(),
        {
            let ghost n = rest@.len() as int;
            let file = rest.pop().unwrap();
            proof {
                assert(file == all[n - 1]);
                assert(all.skip(n - 1)[0] == all[n - 1]);
                assert(all.skip(n - 1).drop_first() =~= all.skip(n));
                assert(rest@ =~= all.take(n - 1));
            }
            match file {
                Some(snippets) => {
                    set.extend(snippets);
                },
                None => {},
            }
        }
        assert(all.skip(0) =~= all);
        set
    }

    /// Whether the `i`-th snippet stays when the snippets are filtered by a list of
    /// names: its prefix, as one text, is one of the names, and no later snippet
    /// has the same prefix.
    pub open spec fn keeps(&self, i: int, names: Seq<Seq<char>>) -> bool {
        &&& 0 <= i < self.spec_len()
        &&& names.contains(self.spec_snippet(i).prefix.text())
        &&& forall|j: int|
            i < j < self.spec_len() ==> (#[trigger] self.spec_snippet(j)).prefix.text()
                != self.spec_snippet(i).prefix.text()
    }

    /// Whether a later snippet than the `i`-th has the prefix `text`.
    fn prefix_repeats_later(&self, i: usize, text: &str) -> (repeats: bool)
        requires
            i < self.spec_len(),
        ensures
            repeats == exists|j: int|
                i < j < self.spec_len() && (#[trigger] self.spec_snippet(j)).prefix.text()
                    == text@,
    {
        let len: usize = self.snippets.len();
        let mut j: usize = i + 1;
        while j < len
            invariant
                i < j <= self.spec_len() == len,
                forall|k: int|
                    i < k < j ==> (#[trigger] self.spec_snippet(k)).prefix.text() != text@,
            decreases self.spec_len() - j,
        {
            let prefix = self.snippets.value(j).prefix.to_string();
            if str_eq(prefix.as_str(), text) {
                assert(self.spec_snippet(j as int).prefix.text() == text@);
                return true;
            }
            j = j + 1;
        }
        false
    }

    /// The snippets whose prefix a matcher has picked. `names` holds the prefixes
    /// that it picked, each as one text. Of several snippets with one prefix the
    /// last one stays.
    pub fn filter(&self, names: &Vec<String>) -> (kept: Snippets)
        ensures
            kept@.name == self@.name,
            forall|title: Seq<char>| #[trigger]
                kept@.snippets.contains_key(title) <==> exists|i: int|
                    self.keeps(i, Seq::new(names@.len(), |k: int| names@[k]@))
                        && #[trigger] self.spec_title(i) == title,
            forall|title: Seq<char>| #[trigger]
                kept@.snippets.contains_key(title) ==> self@.snippets.contains_key(title)
                    && kept@.snippets[title] == self@.snippets[title],
    {
        let ghost listed = Seq::new(names@.len(), |k: int| names@[k]@);
        let mut kept: Keyed<Snippet> = Keyed::new();
        let mut i: usize = 0;
        self.snippets.recall_entries();
        while i < self.snippets.len()
            invariant
                i <= self.spec_len(),
                listed == Seq::new(names@.len(), |k: int| names@[k]@),
                forall|title: Seq<char>| #[trigger]
                    kept@.contains_key(title) <==> exists|k: int|
                        0 <= k < i && self.keeps(k, listed) && #[trigger] self.spec_title(k)
                            == title,
                forall|title: Seq<char>| #[trigger]
                    kept@.contains_key(title) ==> self.snippets@.contains_key(title)
                        && kept@[title]@ == self.snippets@[title]@,
                forall|k: int|
                    0 <= k < self.spec_len() ==> self.snippets@.contains_key(
                        #[trigger] self.spec_title(k),
                    ) && self.snippets@[self.spec_title(k)]@ == self.spec_snippet(k),
            decreases self.spec_len() - i,
        {
            let snippet = self.snippets.value(i);
            let prefix = snippet.prefix.to_string();
            let mut is_listed = false;
            let mut n: usize = 0;
            while n < names.len()
                invariant
                    n <= names@.len(),
                    listed == Seq::new(names@.len(), |k: int| names@[k]@),
                    is_listed == exists|k: int| 0 <= k < n && #[trigger] listed[k] == prefix@,
                decreases names@.len() - n,
            {
                if str_eq(names[n].as_str(), prefix.as_str()) {
                    assert(listed[n as int] == prefix@);
                    is_listed = true;
                }
                n = n + 1;
            }
            assert(is_listed == listed.contains(prefix@));
            let ghost before = kept@;
            if is_listed && !self.prefix_repeats_later(i, prefix.as_str()) {
                assert(self.keeps(i as int, listed));
                kept.insert(self.snippets.key(i).clone(), snippet.clone());
                assert forall|title: Seq<char>| #[trigger]
                    kept@.contains_key(title) <==> exists|k: int|
                        0 <= k < i + 1 && self.keeps(k, listed) && #[trigger] self.spec_title(k)
                            == title by {
                    if title == self.spec_title(i as int) {
                        assert(self.keeps(i as int, listed) && self.spec_title(i as int)
                            == title);
                    } else if before.contains_key(title) {
                        let k = choose|k: int|
                            0 <= k < i && self.keeps(k, listed) && #[trigger] self.spec_title(k)
                                == title;
                        assert(0 <= k < i + 1 && self.keeps(k, listed) && self.spec_title(k)
                            == title);
                    }
                }
            } else {
                assert(!self.keeps(i as int, listed));
                assert forall|title: Seq<char>| #[trigger]
                    kept@.contains_key(title) <==> exists|k: int|
                        0 <= k < i + 1 && self.keeps(k, listed) && #[trigger] self.spec_title(k)
                            == title by {
                    if before.contains_key(title) {
                        let k = choose|k: int|
                            0 <= k < i && self.keeps(k, listed) && #[trigger] self.spec_title(k)
                                == title;
                        assert(0 <= k < i + 1 && self.keeps(k, listed) && self.spec_title(k)
                            == title);
                    }
                }
            }
            i = i + 1;
        }
        let kept = Snippets { name: self.name.clone(), snippets: kept };
        assert forall|title: Seq<char>| #[trigger]
            kept@.snippets.contains_key(title) <==> exists|i: int|
                self.keeps(i, listed) && #[trigger] self.spec_title(i) == title by {
            if kept@.snippets.contains_key(title) {
                let k = choose|k: int|
                    0 <= k < self.spec_len() && self.keeps(k, listed) && #[trigger] self.spec_title(
                        k,
                    ) == title;
                assert(self.keeps(k, listed) && self.spec_title(k) == title);
            }
        }
        kept
    }

    /// The label, the detail and the body of the items of the first `n` snippets, in
    /// the order of the snippets and of their prefixes.
    pub open spec fn listed(&self, n: int) -> Seq<(Seq<char>, Seq<char>, Seq<char>)>
        decreases n,
    {
        if n <= 0 {
            Seq::empty()
        } else {
            self.listed(n - 1) + Seq::new(
                self.spec_snippet(n - 1).prefixes().len(),
                |i: int|
                    (
                        self.spec_snippet(n - 1).prefixes()[i],
                        self.spec_snippet(n - 1).description_text(),
                        self.spec_snippet(n - 1).body.text(),
                    ),
            )
        }
    }

    /// The items of every snippet, in the order of the snippets. The text that an
    /// item inserts is the body of its snippet with the variables replaced.
    pub fn to_completion_items(&self, variable_init: &VariableInit) -> (items: Vec<
        CompletionItem,
    >)
        ensures
            items@.len() == self.listed(self.spec_len() as int).len(),
            forall|i: int|
                0 <= i < items@.len() ==> (#[trigger] items@[i]).label@ == self.listed(
                    self.spec_len() as int,
                )[i].0 && items@[i].detail@ == self.listed(self.spec_len() as int)[i].1
                    && replaces_variables(
                    self.listed(self.spec_len() as int)[i].2,
                    *variable_init,
                    items@[i].insert_text@,
                ),
    {
        let mut items: Vec<CompletionItem> = Vec::new();
        let len: usize = self.snippets.len();
        let mut k: usize = 0;
        while k < len
            invariant
                k <= self.spec_len() == len,
                items@.len() == self.listed(k as int).len(),
                forall|i: int|
                    0 <= i < items@.len() ==> (#[trigger] items@[i]).label@ == self.listed(
                        k as int,
                    )[i].0 && items@[i].detail@ == self.listed(k as int)[i].1
                        && replaces_variables(
                        self.listed(k as int)[i].2,
                        *variable_init,
                        items@[i].insert_text@,
                    ),
            decreases len - k,
        {
            let snippet = self.snippets.value(k);
            let mut more = snippet.to_completion_item(variable_init);
            let ghost before = items@;
            let ghost added = more@;
            items.append(&mut more);
            assert forall|i: int| 0 <= i < items@.len() implies (#[trigger] items@[i]).label@
                == self.listed(k + 1)[i].0 && items@[i].detail@ == self.listed(k + 1)[i].1
                && replaces_variables(
                self.listed(k + 1)[i].2,
                *variable_init,
                items@[i].insert_text@,
            ) by {
                if i >= before.len() {
                    assert(items@[i] == added[i - before.len()]);
                } else {
                    assert(items@[i] == before[i]);
                }
            }
            k = k + 1;
        }
        items
    }
}

} // verus!
