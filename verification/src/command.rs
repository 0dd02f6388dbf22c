//! A launch request and the command resolved from it.

use vstd::prelude::*;

verus! {

/// One change to the environment of the launched process.
#[derive(Clone, Debug, PartialEq, Eq)]
pub struct EnvChange {
    /// The variable's name.
    pub name: String,
    /// Its new value, or `None` where the variable is removed.
    pub value: Option<String>,
}

/// The request to run a program, as the caller made it.
#[derive(Clone, Debug, PartialEq, Eq)]
pub struct Invocation {
    /// The path of the program.
    pub program: String,
    /// Its arguments, in order.
    pub args: Vec<String>,
    /// The working directory to launch in, or `None` to inherit it.
    pub current_dir: Option<String>,
    /// The changes to the inherited environment, applied in order.
    pub envs: Vec<EnvChange>,
}

/// The command to launch in place of a request.
#[derive(Clone, Debug, PartialEq, Eq)]
pub struct ResolvedCommand {
    /// The program of the association.
    pub program: String,
    /// Its arguments, every placeholder replaced.
    pub args: Vec<String>,
    /// The working directory to launch in, or `None` to inherit it.
    pub current_dir: Option<String>,
    /// The changes to the inherited environment, applied in order.
    pub envs: Vec<EnvChange>,
}

/// An environment change as plain values.
pub struct EnvChangeView {
    pub name: Seq<char>,
    pub value: Option<Seq<char>>,
}

/// A request or a resolved command as plain values.
pub struct CommandView {
    pub program: Seq<char>,
    pub args: Seq<Seq<char>>,
    pub current_dir: Option<Seq<char>>,
    pub envs: Seq<EnvChangeView>,
}

/// The characters of each text of a list.
pub open spec fn texts(list: Seq<String>) -> Seq<Seq<char>> {
    Seq::new(list.len(), |i: int| list[i]@)
}

/// The characters of a text that may be absent.
pub open spec fn text_of(text: Option<String>) -> Option<Seq<char>> {
    match text {
        Some(t) => Some(t@),
        None => None,
    }
}

/// Each change of a list as plain values.
pub open spec fn changes(list: Seq<EnvChange>) -> Seq<EnvChangeView> {
    Seq::new(list.len(), |i: int| list[i]@)
}

/// The characters of a list with one more text are those of the list with
/// the characters of that text after them.
pub proof fn lemma_texts_push(list: Seq<String>, text: String)
    ensures
        texts(list.push(text)) == texts(list).push(text@),
{
    assert(texts(list.push(text)) =~= texts(list).push(text@));
}

/// The changes of a list with one more change are those of the list with
/// that change after them.
pub proof fn lemma_changes_push(list: Seq<EnvChange>, change: EnvChange)
    ensures
        changes(list.push(change)) == changes(list).push(change@),
{
    assert(changes(list.push(change)) =~= changes(list).push(change@));
}

impl View for EnvChange {
    type V = EnvChangeView;

    open spec fn view(&self) -> EnvChangeView {
        EnvChangeView { name: self.name@, value: text_of(self.value) }
    }
}

impl View for Invocation {
    type V = CommandView;

    open spec fn view(&self) -> CommandView {
        CommandView {
            program: self.program@,
            args: texts(self.args@),
            current_dir: text_of(self.current_dir),
            envs: changes(self.envs@),
        }
    }
}

impl View for ResolvedCommand {
    type V = CommandView;

    open spec fn view(&self) -> CommandView {
        CommandView {
            program: self.program@,
            args: texts(self.args@),
            current_dir: text_of(self.current_dir),
            envs: changes(self.envs@),
        }
    }
}

/// The environment that a process gets when `changes` are applied, in order,
/// to the variables `inherited` from its parent.
pub open spec fn environment(
    inherited: Map<Seq<char>, Seq<char>>,
    changes: Seq<EnvChangeView>,
) -> Map<Seq<char>, Seq<char>>
    decreases changes.len(),
{
    if changes.len() == 0 {
        inherited
    } else {
        let before = environment(inherited, changes.drop_last());
        match changes.last().value {
            Some(v) => before.insert(changes.last().name, v),
            None => before.remove(changes.last().name),
        }
    }
}

/// A variable that no change names is inherited as it is: present with its
/// value, or absent.
pub proof fn lemma_unnamed_variable_inherited(
    inherited: Map<Seq<char>, Seq<char>>,
    changes: Seq<EnvChangeView>,
    name: Seq<char>,
)
    requires
        forall|i: int| 0 <= i < changes.len() ==> changes[i].name != name,
    ensures
        environment(inherited, changes).dom().contains(name) == inherited.dom().contains(name),
        inherited.dom().contains(name) ==> environment(inherited, changes)[name]
            == inherited[name],
    decreases changes.len(),
{
    if changes.len() > 0 {
        lemma_unnamed_variable_inherited(inherited, changes.drop_last(), name);
    }
}

/// The last change that names a variable decides: it is set to that change's
/// value, or it is absent where the change removes it.
pub proof fn lemma_last_change_decides(
    inherited: Map<Seq<char>, Seq<char>>,
    changes: Seq<EnvChangeView>,
    i: int,
)
    requires
        0 <= i < changes.len(),
        forall|j: int| i < j < changes.len() ==> changes[j].name != changes[i].name,
    ensures
        match changes[i].value {
            Some(v) => environment(inherited, changes).dom().contains(changes[i].name)
                && environment(inherited, changes)[changes[i].name] == v,
            None => !environment(inherited, changes).dom().contains(changes[i].name),
        },
    decreases changes.len(),
{
    if i < changes.len() - 1 {
        lemma_last_change_decides(inherited, changes.drop_last(), i);
    }
}

} // verus!
