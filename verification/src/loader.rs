//! Where the snippet and action files of a user are looked for.
use vstd::prelude::*;

verus! {

/// The two kinds of files that are loaded, each with a directory of its own.
#[derive(Clone, Copy, Debug, PartialEq, Eq, Structural)]
pub enum Dirs {
    Snippets,
    Actions,
}

impl Dirs {
    /// The name of the directory.
    pub open spec fn name(self) -> Seq<char> {
        match self {
            Dirs::Snippets => "snippets"@,
            Dirs::Actions => "actions"@,
        }
    }

    pub fn to_string(&self) -> (name: String)
        ensures
            name@ == self.name(),
    {
        match self {
            Dirs::Snippets => "snippets".to_owned(),
            Dirs::Actions => "actions".to_owned(),
        }
    }
}

} // verus!
