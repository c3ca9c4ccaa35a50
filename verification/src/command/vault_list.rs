use vstd::prelude::*;
use crate::command::list::{build_list, item_texts, list_text};

verus! {

/// The heading of the list of vaults.
pub const TITLE: &'static str = "Vaults";

/// What is shown when there are no vaults.
pub const EMPTY_MESSAGE: &'static str = "No vaults found on this system.";

/// List vaults.
#[derive(Debug, Clone, Copy, PartialEq, Eq, Structural)]
pub struct ListCommand;

impl ListCommand {
    /// The list of the vaults with the names `vaults`, as it is shown to a
    /// person.
    pub fn run(self, vaults: &Vec<String>) -> (plain: String)
        ensures
            plain@ == list_text(Some(TITLE@), item_texts(vaults@), EMPTY_MESSAGE@),
    {
        build_list(Some(TITLE), vaults, EMPTY_MESSAGE)
    }
}

} // verus!
