//! Code actions: what the listing of actions leaves behind for their resolution.
use vstd::prelude::*;
use vstd::string::StringExecFns;

use crate::encoding::Range;
use crate::errors::Error;
use crate::keyed::Keyed;
use crate::parser::{StrOrSeq, StrOrSeqView};
use crate::variables::{replaces_variables, VariableInit, Variables};
use crate::strings::{
    from_utf8_lossy, is_utf8, lowercase, str_eq, to_lowercase, trim_end, trimmed_end, utf8_lossy,
};

verus! {

/// What is kept of a listed action until the client asks to resolve it: the
/// document and range it was listed for, and the command that computes its edit.
#[derive(Debug, PartialEq, Eq)]
pub struct ActionData {
    pub text_document: String,
    pub range: Range,
    pub command: Option<String>,
}

/// An `ActionData` by its plain values.
pub struct ActionDataView {
    pub text_document: Seq<char>,
    pub range: Range,
    pub command: Option<Seq<char>>,
}

impl View for ActionData {
    type V = ActionDataView;

    open spec fn view(&self) -> ActionDataView {
        ActionDataView {
            text_document: self.text_document@,
            range: self.range,
            command: match self.command {
                Some(c) => Some(c@),
                None => None,
            },
        }
    }
}

impl Clone for ActionData {
    fn clone(&self) -> (copy: ActionData)
        ensures
            copy@ == self@,
    {
        ActionData {
            text_document: self.text_document.clone(),
            range: self.range,
            command: match &self.command {
                Some(c) => Some(c.clone()),
                None => None,
            },
        }
    }
}

impl ActionData {
    /// An action on `range` of a document, without a command yet.
    pub fn new(text_document: String, range: Range) -> (data: ActionData)
        ensures
            data@ == (ActionDataView { text_document: text_document@, range, command: None }),
    {
        ActionData { text_document, range, command: None }
    }

    /// The same action with `command` as its command.
    pub fn with_command(&self, command: String) -> (data: ActionData)
        ensures
            data@ == (ActionDataView { command: Some(command@), ..self@ }),
    {
        ActionData {
            text_document: self.text_document.clone(),
            range: self.range,
            command: Some(command),
        }
    }
}

/// The seconds that a command gets to finish.
pub const COMMAND_TIMEOUT_SECS: u64 = 5;

/// The shell that runs a command line, and the flag before the command line: `sh
/// -c`, or `cmd /C` on Windows.
pub fn get_shell(windows: bool) -> (shell: Vec<String>)
    ensures
        shell@.len() == 2,
        shell@[0]@ == if windows {
            "cmd"@
        } else {
            "sh"@
        },
        shell@[1]@ == if windows {
            "/C"@
        } else {
            "-c"@
        },
{
    let mut shell: Vec<String> = Vec::new();
    if windows {
        shell.push("cmd".to_owned());
        shell.push("/C".to_owned());
    } else {
        shell.push("sh".to_owned());
        shell.push("-c".to_owned());
    }
    shell
}

/// What the standard input of a command is bound to.
#[derive(Debug, PartialEq, Eq)]
pub enum StdinPlan {
    /// A null device: the command reads nothing and never waits for input.
    Null,
    /// A pipe that is closed at once.
    PipedEmpty,
    /// A pipe into which the text is written and which is then closed.
    Piped(String),
}

/// How a command line is to be run.
#[derive(Debug, PartialEq, Eq)]
pub struct CommandPlan {
    pub program: String,
    /// The arguments: the shell's flag, then the whole command line as one argument.
    pub args: Vec<String>,
    pub stdin: StdinPlan,
    pub timeout_secs: u64,
}

/// Plans the run of a command line: the platform's shell interprets it, its input
/// comes through a pipe where there is input or the platform wants a pipe, and
/// it gets `COMMAND_TIMEOUT_SECS` seconds.
pub fn plan_command(cmd: &str, input: &Option<String>, windows: bool) -> (plan: CommandPlan)
    ensures
        plan.program@ == if windows {
            "cmd"@
        } else {
            "sh"@
        },
        plan.args@.len() == 2,
        plan.args@[0]@ == if windows {
            "/C"@
        } else {
            "-c"@
        },
        plan.args@[1]@ == cmd@,
        match input {
            Some(text) => plan.stdin matches StdinPlan::Piped(t) && t@ == text@,
            None => plan.stdin == if windows {
                StdinPlan::PipedEmpty
            } else {
                StdinPlan::Null
            },
        },
        plan.timeout_secs == COMMAND_TIMEOUT_SECS,
{
    let mut shell = get_shell(windows);
    let flag = shell.pop().unwrap();
    let program = shell.pop().unwrap();
    let mut args: Vec<String> = Vec::new();
    args.push(flag);
    args.push(cmd.to_owned());
    let stdin = match input {
        Some(text) => StdinPlan::Piped(text.clone()),
        None => if windows {
            StdinPlan::PipedEmpty
        } else {
            StdinPlan::Null
        },
    };
    CommandPlan { program, args, stdin, timeout_secs: COMMAND_TIMEOUT_SECS }
}

/// How the run of a command ended.
#[derive(Debug, PartialEq, Eq)]
pub enum CommandEvent {
    /// The command could not be started.
    SpawnFailed,
    /// The input could not be handed to the command.
    StdinFailed,
    /// Waiting for the command failed.
    WaitFailed,
    /// The command was still running when its time was over.
    TimedOut { elapsed_secs: u64 },
    /// The command ran to its end.
    Exited { success: bool, code: Option<i32>, stdout: Vec<u8>, stderr: Vec<u8> },
}

/// The text that a command wrote: its bytes decoded as UTF-8, what is not UTF-8
/// replaced, and the whitespace at the end left out.
pub open spec fn output_text(bytes: Seq<u8>) -> Seq<char> {
    trimmed_end(utf8_lossy(bytes))
}

fn decode_output(bytes: &Vec<u8>) -> (text: String)
    ensures
        text@ == output_text(bytes@),
{
    let decoded = from_utf8_lossy(bytes);
    trim_end(decoded.as_str()).to_owned()
}

/// What the caller of a command gets for the way its run ended: the text of its
/// standard output where it ran to a successful end, else the error.
pub fn command_outcome(event: CommandEvent) -> (outcome: Result<String, Error>)
    ensures
        match event {
            CommandEvent::SpawnFailed | CommandEvent::StdinFailed | CommandEvent::WaitFailed =>
                outcome == Err::<String, Error>(Error::CommandSpawnFailure),
            CommandEvent::TimedOut { elapsed_secs } => outcome == Err::<String, Error>(
                Error::CommandTimeout(elapsed_secs),
            ),
            CommandEvent::Exited { success, code, stdout, stderr } => if success {
                outcome matches Ok(text) && text@ == output_text(stdout@)
            } else {
                outcome matches Err(Error::CommandNonZeroExit(status, text)) && status == code
                    && text@ == output_text(stderr@)
            },
        },
{
    match event {
        CommandEvent::SpawnFailed => Err(Error::CommandSpawnFailure),
        CommandEvent::StdinFailed => Err(Error::CommandSpawnFailure),
        CommandEvent::WaitFailed => Err(Error::CommandSpawnFailure),
        CommandEvent::TimedOut { elapsed_secs } => Err(Error::CommandTimeout(elapsed_secs)),
        CommandEvent::Exited { success, code, stdout, stderr } => if success {
            Ok(decode_output(&stdout))
        } else {
            Err(Error::CommandNonZeroExit(code, decode_output(&stderr)))
        },
    }
}

/// What is worth a line in the log though the command did well: that its output
/// was not valid UTF-8 and was recovered.
pub fn output_warning(event: &CommandEvent) -> (warning: Option<Error>)
    ensures
        warning == if *event matches CommandEvent::Exited { success, stdout, .. } && success
            && !vstd::utf8::valid_utf8(stdout@) {
            Some(Error::Utf8DecodeRecovered)
        } else {
            None
        },
{
    match event {
        CommandEvent::Exited { success, stdout, .. } => if *success && !is_utf8(stdout) {
            Some(Error::Utf8DecodeRecovered)
        } else {
            None
        },
        _ => None,
    }
}

/// Whether a text in lower case is one that lets an action through.
pub open spec fn is_acceptance(lower: Seq<char>) -> bool {
    lower == "true"@ || lower == "1"@
}

/// Whether the output of a filter command lets its action through: `true` or `1`,
/// in any case of the letters.
pub open spec fn filter_accepts(output: Seq<char>) -> bool {
    is_acceptance(lowercase(output))
}

/// Whether the output of a filter command, given in lower case, lets its action
/// through.
pub fn accepts(lower: &str) -> (accepted: bool)
    ensures
        accepted == is_acceptance(lower@),
{
    str_eq(lower, "true") || str_eq(lower, "1")
}

/// Whether an action stays in the list, given how the run of its filter command
/// ended. Only a successful run with an accepting output lets it stay.
pub fn filter_passes(outcome: &Result<String, Error>) -> (keep: bool)
    ensures
        keep == (outcome matches Ok(text) && filter_accepts(text@)),
{
    match outcome {
        Ok(text) => accepts(to_lowercase(text.as_str()).as_str()),
        Err(_) => false,
    }
}

/// One action: its title, the command that says whether it is offered, and the
/// command that computes its edit.
#[derive(Debug)]
pub struct Action {
    title: String,
    filter: StrOrSeq,
    shell: StrOrSeq,
    description: Option<String>,
}

/// An `Action` by its plain values.
pub struct ActionView {
    pub title: Seq<char>,
    pub filter: StrOrSeqView,
    pub shell: StrOrSeqView,
    pub description: Option<Seq<char>>,
}

impl View for Action {
    type V = ActionView;

    closed spec fn view(&self) -> ActionView {
        ActionView {
            title: self.title@,
            filter: self.filter@,
            shell: self.shell@,
            description: match self.description {
                Some(d) => Some(d@),
                None => None,
            },
        }
    }
}

impl Clone for Action {
    fn clone(&self) -> (copy: Action)
        ensures
            copy@ == self@,
    {
        Action {
            title: self.title.clone(),
            filter: self.filter.clone(),
            shell: self.shell.clone(),
            description: match &self.description {
                Some(d) => Some(d.clone()),
                None => None,
            },
        }
    }
}

/// A listed action: its title, and what is kept for its resolution.
#[derive(Debug, PartialEq, Eq)]
pub struct CodeActionItem {
    pub title: String,
    pub data: ActionData,
}

/// Whether an item lists an action for a document and range: it has the title of
/// the action, the document and the range, and as its command the shell command
/// of the action with the variables replaced.
pub open spec fn lists(
    item: CodeActionItem,
    action: ActionView,
    data: ActionDataView,
    init: VariableInit,
) -> bool {
    &&& item.title@ == action.title
    &&& item.data@.text_document == data.text_document
    &&& item.data@.range == data.range
    &&& item.data@.command matches Some(command) && replaces_variables(
        action.shell.text(),
        init,
        command,
    )
}

impl Action {
    pub fn new(
        title: String,
        filter: StrOrSeq,
        shell: StrOrSeq,
        description: Option<String>,
    ) -> (action: Action)
        ensures
            action@ == (ActionView {
                title: title@,
                filter: filter@,
                shell: shell@,
                description: match description {
                    Some(d) => Some(d@),
                    None => None,
                },
            }),
    {
        Action { title, filter, shell, description }
    }

    pub fn title(&self) -> (title: &String)
        ensures
            title@ == self@.title,
    {
        &self.title
    }

    pub fn filter(&self) -> (filter: &StrOrSeq)
        ensures
            filter@ == self@.filter,
    {
        &self.filter
    }

    pub fn shell(&self) -> (shell: &StrOrSeq)
        ensures
            shell@ == self@.shell,
    {
        &self.shell
    }

    /// The description, or an empty text where there is none.
    pub fn description(&self) -> (description: String)
        ensures
            description@ == match self@.description {
                Some(d) => d,
                None => Seq::empty(),
            },
    {
        match &self.description {
            Some(s) => s.clone(),
            None => String::new(),
        }
    }

    /// The command that says whether the action is offered, its variables
    /// replaced. An action without such a command is always offered.
    pub fn filter_script(&self, init: &VariableInit) -> (script: Option<String>)
        ensures
            script is None <==> self@.filter.text().len() == 0,
            script matches Some(text) ==> replaces_variables(self@.filter.text(), *init, text@),
    {
        let filter = self.filter.to_string();
        if filter.as_str().unicode_len() == 0 {
            None
        } else {
            Some(Variables::replace_all(filter.as_str(), init))
        }
    }

    /// The action as it is listed, with `command` as the command that computes
    /// its edit.
    pub fn code_action_item(&self, command: String, data: &ActionData) -> (item: CodeActionItem)
        ensures
            item.title@ == self@.title,
            item.data@ == (ActionDataView { command: Some(command@), ..data@ }),
    {
        CodeActionItem { title: self.title.clone(), data: data.with_command(command) }
    }

    /// The action as it is listed. Its command is the shell command of the action
    /// with the variables replaced.
    pub fn to_code_action_item(&self, variable_init: &VariableInit, data: &ActionData) -> (item:
        Option<CodeActionItem>)
        ensures
            item matches Some(listed) && lists(listed, self@, data@, *variable_init),
    {
        let shell = self.shell.to_string();
        let shell = Variables::replace_all(shell.as_str(), variable_init);
        Some(self.code_action_item(shell, data))
    }
}

/// The actions of one language, by name.
pub struct Actions {
    name: String,
    actions: Keyed<Action>,
}

/// An `Actions` by its plain values.
pub struct ActionsView {
    pub name: Seq<char>,
    pub actions: Map<Seq<char>, ActionView>,
}

impl View for Actions {
    type V = ActionsView;

    closed spec fn view(&self) -> ActionsView {
        ActionsView { name: self.name@, actions: self.actions@.map_values(|a: Action| a@) }
    }
}

/// What a list of action sets gives when it is merged from its last set to its
/// first: where two sets have a name, the set that stands earlier in the list
/// decides. A place without a set adds nothing.
pub open spec fn merged_actions(files: Seq<Option<Actions>>) -> Map<Seq<char>, ActionView>
    decreases files.len(),
{
    if files.len() == 0 {
        Map::empty()
    } else {
        match files[0] {
            Some(actions) => merged_actions(files.drop_first()).union_prefer_right(
                actions@.actions,
            ),
            None => merged_actions(files.drop_first()),
        }
    }
}

/// The name of the file that holds what belongs to a language: the name of the
/// language in lower case, with the extension `.json`.
pub fn lang_file_name(lang_name: &str) -> (file_name: String)
    ensures
        file_name@ == lowercase(lang_name@) + ".json"@,
{
    let mut file_name = to_lowercase(lang_name);
    file_name.append(".json");
    file_name
}

impl Default for Actions {
    fn default() -> (set: Actions)
        ensures
            set@.name == "default"@,
            set@.actions == Map::<Seq<char>, ActionView>::empty(),
    {
        Actions::new("default".to_owned(), Keyed::new())
    }
}

impl Actions {
    pub fn new(name: String, actions: Keyed<Action>) -> (set: Actions)
        ensures
            set@.name == name@,
            set@.actions == actions@.map_values(|a: Action| a@),
            set.spec_len() == actions.spec_len(),
            forall|i: int|
                0 <= i < set.spec_len() ==> set.spec_name(i) == actions.spec_key(i)
                    && set.spec_action(i) == actions.spec_value(i)@,
    {
        Actions { name, actions }
    }

    /// The number of actions.
    pub closed spec fn spec_len(&self) -> nat {
        self.actions.spec_len()
    }

    /// The name of the `i`-th action.
    pub closed spec fn spec_name(&self, i: int) -> Seq<char> {
        self.actions.spec_key(i)
    }

    /// The `i`-th action.
    pub closed spec fn spec_action(&self, i: int) -> ActionView {
        self.actions.spec_value(i)@
    }

    pub fn name(&self) -> (name: &String)
        ensures
            name@ == self@.name,
    {
        &self.name
    }

    pub fn len(&self) -> (n: usize)
        ensures
            n == self.spec_len(),
    {
        self.actions.len()
    }

    /// The name of the `i`-th action.
    pub fn name_at(&self, i: usize) -> (name: &String)
        requires
            i < self.spec_len(),
        ensures
            name@ == self.spec_name(i as int),
            self@.actions.contains_key(name@),
    {
        self.actions.key(i)
    }

    /// The `i`-th action.
    pub fn action(&self, i: usize) -> (action: &Action)
        requires
            i < self.spec_len(),
        ensures
            action@ == self.spec_action(i as int),
            action@ == self@.actions[self.spec_name(i as int)],
    {
        self.actions.recall_entries();
        self.actions.value(i)
    }

    /// The action with a name.
    pub fn get(&self, name: &str) -> (action: Option<&Action>)
        ensures
            match action {
                Some(a) => self@.actions.contains_key(name@) && a@ == self@.actions[name@],
                None => !self@.actions.contains_key(name@),
            },
    {
        self.actions.get(name)
    }

    /// Takes in the actions of `other`. Where both have a name, the action of
    /// `other` stays.
    pub fn extend(&mut self, other: Actions)
        ensures
            final(self)@.name == old(self)@.name,
            final(self)@.actions == old(self)@.actions.union_prefer_right(other@.actions),
    {
        self.actions.extend(other.actions);
        assert(final(self)@.actions =~= old(self)@.actions.union_prefer_right(other@.actions));
    }

    /// Merges the sets that were read from a list of files, from the last file to
    /// the first, so that an earlier file decides where two have a name. A file
    /// that could not be read has no set.
    pub fn from_files(name: String, files: Vec<Option<Actions>>) -> (set: Actions)
        ensures
            set@.name == name@,
            set@.actions == merged_actions(files@),
    {
        let mut set = Actions { name, actions: Keyed::new() };
        let mut rest = files;
        let ghost all = rest@;
        assert(set@.actions =~= Map::<Seq<char>, ActionView>::empty());
        assert(all.skip(all.len() as int) =~= Seq::<Option<Actions>>::empty());
        while rest.len() > 0
            invariant
                rest@.len() <= all.len(),
                rest@ == all.take(rest@.len() as int),
                set@.name == name@,
                set@.actions == merged_actions(all.skip(rest@.len() as int)),
            decreases rest@.len(),
        {
            let ghost n = rest@.len() as int;
            let file = rest.pop().unwrap();
            proof {
                assert(file == all[n - 1]);
                assert(all.skip(n - 1)[0] == all[n - 1]);
                assert(all.skip(n - 1).drop_first() =~= all.skip(n));
                assert(rest@ =~= all.take(n - 1));
            }
            match file {
                Some(actions) => {
                    set.extend(actions);
                },
                None => {},
            }
        }
        assert(all.skip(0) =~= all);
        set
    }

    /// The actions as they are listed, in their order.
    pub fn to_code_action_items(&self, variable_init: &VariableInit, data: &ActionData) -> (items:
        Vec<CodeActionItem>)
        ensures
            items@.len() == self.spec_len(),
            forall|i: int|
                0 <= i < items@.len() ==> lists(
                    #[trigger] items@[i],
                    self.spec_action(i),
                    data@,
                    *variable_init,
                ),
    {
        let mut items: Vec<CodeActionItem> = Vec::new();
        let len: usize = self.actions.len();
        let mut i: usize = 0;
        while i < len
            invariant
                i <= self.spec_len() == len,
                items@.len() == i,
                forall|j: int|
                    0 <= j < i ==> lists(
                        #[trigger] items@[j],
                        self.spec_action(j),
                        data@,
                        *variable_init,
                    ),
            decreases len - i,
        {
            match self.actions.value(i).to_code_action_item(variable_init, data) {
                Some(item) => {
                    items.push(item);
                },
                None => {},
            }
            i = i + 1;
        }
        items
    }

    /// Keeps the actions that passed their filter: the `i`-th action stays where
    /// `keep` has `true` at `i`.
    pub fn filter(&mut self, keep: &Vec<bool>)
        ensures
            final(self)@.name == old(self)@.name,
            forall|name: Seq<char>| #[trigger]
                final(self)@.actions.contains_key(name) <==> exists|i: int|
                    0 <= i < old(self).spec_len() && i < keep@.len() && keep@[i]
                        && #[trigger] old(self).spec_name(i) == name,
            forall|name: Seq<char>| #[trigger]
                final(self)@.actions.contains_key(name) ==> old(self)@.actions.contains_key(name)
                    && final(self)@.actions[name] == old(self)@.actions[name],
    {
        let mut kept: Keyed<Action> = Keyed::new();
        let len: usize = self.actions.len();
        let mut i: usize = 0;
        self.actions.recall_entries();
        while i < len
            invariant
                i <= self.spec_len() == len,
                *self == *old(self),
                forall|name: Seq<char>| #[trigger]
                    kept@.contains_key(name) <==> exists|k: int|
                        0 <= k < i && k < keep@.len() && keep@[k] && #[trigger] self.spec_name(k)
                            == name,
                forall|name: Seq<char>| #[trigger]
                    kept@.contains_key(name) ==> self.actions@.contains_key(name)
                        && kept@[name]@ == self.actions@[name]@,
                forall|k: int|
                    0 <= k < self.spec_len() ==> self.actions@.contains_key(
                        #[trigger] self.spec_name(k),
                    ) && self.actions@[self.spec_name(k)]@ == self.spec_action(k),
            decreases len - i,
        {
            let ghost before = kept@;
            if i < keep.len() && keep[i] {
                kept.insert(self.actions.key(i).clone(), self.actions.value(i).clone());
                assert forall|name: Seq<char>| #[trigger]
                    kept@.contains_key(name) <==> exists|k: int|
                        0 <= k < i + 1 && k < keep@.len() && keep@[k] && #[trigger] self.spec_name(
                            k,
                        ) == name by {
                    if name == self.spec_name(i as int) {
                        assert(keep@[i as int] && self.spec_name(i as int) == name);
                    } else if before.contains_key(name) {
                        let k = choose|k: int|
                            0 <= k < i && k < keep@.len() && keep@[k] && #[trigger] self.spec_name(
                                k,
                            ) == name;
                        assert(0 <= k < i + 1 && keep@[k] && self.spec_name(k) == name);
                    }
                }
            } else {
                assert forall|name: Seq<char>| #[trigger]
                    kept@.contains_key(name) <==> exists|k: int|
                        0 <= k < i + 1 && k < keep@.len() && keep@[k] && #[trigger] self.spec_name(
                            k,
                        ) == name by {
                    if before.contains_key(name) {
                        let k = choose|k: int|
                            0 <= k < i && k < keep@.len() && keep@[k] && #[trigger] self.spec_name(
                                k,
                            ) == name;
                        assert(0 <= k < i + 1 && keep@[k] && self.spec_name(k) == name);
                    }
                }
            }
            i = i + 1;
        }
        self.actions = kept;
    }
}

} // verus!
