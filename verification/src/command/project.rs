use vstd::prelude::*;
use vstd::string::StringExecFns;

verus! {

/// What can be done with projects.
#[derive(Debug, Clone, Copy, PartialEq, Eq, Structural)]
pub enum ProjectSubcommand {
    Enroll,
    Import,
    List,
    Show,
    Version,
    Information,
    Ticket,
    Create,
    Delete,
    Addon,
}

/// Manage projects.
#[derive(Debug, Clone, Copy, PartialEq, Eq, Structural)]
pub struct ProjectCommand {
    pub subcommand: ProjectSubcommand,
}

/// The name of each subcommand, as it is reported.
pub open spec fn subcommand_name(subcommand: ProjectSubcommand) -> Seq<char> {
    match subcommand {
        ProjectSubcommand::Enroll => "project enroll"@,
        ProjectSubcommand::Import => "project import"@,
        ProjectSubcommand::List => "project list"@,
        ProjectSubcommand::Show => "project show"@,
        ProjectSubcommand::Version => "project version"@,
        ProjectSubcommand::Information => "project information"@,
        ProjectSubcommand::Ticket => "project ticket"@,
        ProjectSubcommand::Create => "project create"@,
        ProjectSubcommand::Delete => "project delete"@,
        ProjectSubcommand::Addon => "project addon"@,
    }
}

impl ProjectCommand {
    /// The name of the command: that of its subcommand.
    pub fn name(&self) -> (name: String)
        ensures
            name@ == subcommand_name(self.subcommand),
    {
        match self.subcommand {
            ProjectSubcommand::Enroll => String::from_str("project enroll"),
            ProjectSubcommand::Import => String::from_str("project import"),
            ProjectSubcommand::List => String::from_str("project list"),
            ProjectSubcommand::Show => String::from_str("project show"),
            ProjectSubcommand::Version => String::from_str("project version"),
            ProjectSubcommand::Information => String::from_str("project information"),
            ProjectSubcommand::Ticket => String::from_str("project ticket"),
            ProjectSubcommand::Create => String::from_str("project create"),
            ProjectSubcommand::Delete => String::from_str("project delete"),
            ProjectSubcommand::Addon => String::from_str("project addon"),
        }
    }
}

} // verus!
