use vstd::prelude::*;
use vstd::string::StringExecFns;

verus! {

/// The question put to the user before all nodes are deleted.
pub const PROMPT_ALL: &'static str = "Are you sure you want to delete all nodes?";

/// The question put to the user before one node is deleted.
pub const PROMPT_ONE: &'static str = "Are you sure you want to delete this node?";

/// What is said when all nodes have been deleted.
pub const ALL_DELETED: &'static str = "All nodes have been deleted";

/// How the command finds out whether it may go ahead.
#[derive(Debug, Clone, Copy, PartialEq, Eq)]
pub enum Confirmation {
    /// The user has confirmed on the command line; nothing is asked.
    Granted,
    /// The user is to be asked this question.
    Ask(&'static str),
}

/// What the command does once it knows whether the user has confirmed.
#[derive(Debug, Clone, PartialEq, Eq)]
pub enum DeleteAction {
    /// Nothing: the user did not confirm.
    Nothing,
    /// Every node is stopped and deleted.
    DeleteAll { force: bool },
    /// One node is stopped and deleted: the one named, or the default node
    /// where no name is given.
    DeleteNode { node_name: Option<String>, force: bool },
}

/// Delete nodes.
#[derive(Debug, Clone)]
pub struct DeleteCommand {
    /// Name of the node to be deleted.
    node_name: Option<String>,
    /// Terminate all node processes and delete all node configurations.
    all: bool,
    /// Terminate node processes immediately.
    force: bool,
    /// Confirm the deletion without prompting.
    yes: bool,
}

impl DeleteCommand {
    /// The name that no node bears is told from a name by the option; the
    /// view of a name is its characters.
    pub closed spec fn spec_node_name(&self) -> Option<Seq<char>> {
        match self.node_name {
            Some(name) => Some(name@),
            None => None,
        }
    }

    /// Whether all nodes are to be deleted.
    pub closed spec fn spec_all(&self) -> bool {
        self.all
    }

    /// Whether node processes are to be killed at once.
    pub closed spec fn spec_force(&self) -> bool {
        self.force
    }

    /// Whether the user has confirmed on the command line.
    pub closed spec fn spec_yes(&self) -> bool {
        self.yes
    }

    /// The command with the given arguments.
    pub fn new(node_name: Option<String>, all: bool, force: bool, yes: bool) -> (command:
        DeleteCommand)
        ensures
            command.spec_node_name() == match node_name {
                Some(name) => Some(name@),
                None => None,
            },
            command.spec_all() == all,
            command.spec_force() == force,
            command.spec_yes() == yes,
    {
        DeleteCommand { node_name, all, force, yes }
    }

    /// The name of the node to be deleted, if one was given.
    pub fn node_name(&self) -> (name: Option<&String>)
        ensures
            match name {
                Some(n) => self.spec_node_name() == Some(n@),
                None => self.spec_node_name() is None,
            },
    {
        self.node_name.as_ref()
    }

    /// Whether all nodes are to be deleted.
    pub fn all(&self) -> (all: bool)
        ensures
            all == self.spec_all(),
    {
        self.all
    }

    /// Whether node processes are to be killed at once.
    pub fn force(&self) -> (force: bool)
        ensures
            force == self.spec_force(),
    {
        self.force
    }

    /// Whether the user has confirmed on the command line.
    pub fn yes(&self) -> (yes: bool)
        ensures
            yes == self.spec_yes(),
    {
        self.yes
    }

    /// The question that stands before the deletion.
    pub fn prompt(&self) -> (question: &'static str)
        ensures
            question@ == if self.spec_all() {
                PROMPT_ALL@
            } else {
                PROMPT_ONE@
            },
    {
        if self.all {
            PROMPT_ALL
        } else {
            PROMPT_ONE
        }
    }

    /// Whether the user must be asked, and what.
    pub fn confirmation(&self) -> (confirmation: Confirmation)
        ensures
            self.spec_yes() ==> confirmation == Confirmation::Granted,
            !self.spec_yes() ==> confirmation is Ask && confirmation->Ask_0@ == if self.spec_all() {
                PROMPT_ALL@
            } else {
                PROMPT_ONE@
            },
    {
        if self.yes {
            Confirmation::Granted
        } else {
            Confirmation::Ask(self.prompt())
        }
    }

    /// What is to be done, given whether the user has confirmed: nothing
    /// without confirmation; with it, all nodes are deleted if that was
    /// asked for, else the node named, or the default node.
    pub fn run(&self, confirmed: bool) -> (action: DeleteAction)
        ensures
            !confirmed ==> action == DeleteAction::Nothing,
            confirmed && self.spec_all() ==> action == (DeleteAction::DeleteAll {
                force: self.spec_force(),
            }),
            confirmed && !self.spec_all() ==> action is DeleteNode && action->DeleteNode_force
                == self.spec_force() && match action->DeleteNode_node_name {
                Some(name) => self.spec_node_name() == Some(name@),
                None => self.spec_node_name() is None,
            },
    {
        if !confirmed {
            DeleteAction::Nothing
        } else if self.all {
            DeleteAction::DeleteAll { force: self.force }
        } else {
            DeleteAction::DeleteNode { node_name: self.node_name.clone(), force: self.force }
        }
    }
}

/// What is said when the node `node_name` has been deleted.
pub fn deleted_message(node_name: &str) -> (message: String)
    ensures
        message@ == "Node with name '"@ + node_name@ + "' has been deleted"@,
{
    String::from_str("Node with name '").concat(node_name).concat("' has been deleted")
}

} // verus!
