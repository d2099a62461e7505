//! The command that a driver wants run.

use vstd::prelude::*;

use crate::text::texts;

verus! {

/// A change to the environment that the child process starts from.
pub enum EnvEdit {
    Assign { name: String, value: String },
    Remove { name: String },
}

/// A change to the environment, as contracts see it.
pub enum EnvEditView {
    Assign { name: Seq<char>, value: Seq<char> },
    Remove { name: Seq<char> },
}

impl View for EnvEdit {
    type V = EnvEditView;

    open spec fn view(&self) -> EnvEditView {
        match *self {
            EnvEdit::Assign { name, value } => EnvEditView::Assign { name: name@, value: value@ },
            EnvEdit::Remove { name } => EnvEditView::Remove { name: name@ },
        }
    }
}

/// A program, its arguments, and what to change in the environment before it starts.
pub struct Command {
    pub program: String,
    pub args: Vec<String>,
    /// The changes, in the order in which they are made; what they do not name is
    /// inherited.
    pub env: Vec<EnvEdit>,
    /// Whether the program is written to; if not, its standard input is empty.
    pub stdin_piped: bool,
}

/// A command, as contracts see it.
pub struct CommandView {
    pub program: Seq<char>,
    pub args: Seq<Seq<char>>,
    pub env: Seq<EnvEditView>,
    pub stdin_piped: bool,
}

impl View for Command {
    type V = CommandView;

    open spec fn view(&self) -> CommandView {
        CommandView {
            program: self.program@,
            args: texts(self.args@),
            env: edit_views(self.env@),
            stdin_piped: self.stdin_piped,
        }
    }
}

/// The views of changes to the environment.
pub open spec fn edit_views(edits: Seq<EnvEdit>) -> Seq<EnvEditView> {
    edits.map_values(|e: EnvEdit| e@)
}

/// The environment that results from making `edits`, one after the other, to `parent`.
pub open spec fn child_env(
    parent: Map<Seq<char>, Seq<char>>,
    edits: Seq<EnvEditView>,
) -> Map<Seq<char>, Seq<char>>
    decreases edits.len(),
{
    if edits.len() == 0 {
        parent
    } else {
        let before = child_env(parent, edits.drop_last());
        match edits.last() {
            EnvEditView::Assign { name, value } => before.insert(name, value),
            EnvEditView::Remove { name } => before.remove(name),
        }
    }
}

impl Command {
    /// Sets the variable `name` for the child process.
    pub fn set_env(&mut self, name: &str, value: &str)
        ensures
            final(self)@ == (CommandView {
                env: old(self)@.env.push(EnvEditView::Assign { name: name@, value: value@ }),
                ..old(self)@
            }),
    {
        let ghost before = self.env@;
        self.env.push(EnvEdit::Assign { name: name.to_string(), value: value.to_string() });
        assert(edit_views(self.env@) =~= edit_views(before).push(
            EnvEditView::Assign { name: name@, value: value@ },
        ));
    }

    /// Keeps the variable `name` from the child process.
    pub fn remove_env(&mut self, name: &str)
        ensures
            final(self)@ == (CommandView {
                env: old(self)@.env.push(EnvEditView::Remove { name: name@ }),
                ..old(self)@
            }),
    {
        let ghost before = self.env@;
        self.env.push(EnvEdit::Remove { name: name.to_string() });
        assert(edit_views(self.env@) =~= edit_views(before).push(
            EnvEditView::Remove { name: name@ },
        ));
    }
}

} // verus!
