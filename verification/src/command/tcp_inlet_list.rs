use vstd::prelude::*;
use vstd::string::StringExecFns;
use crate::command::list::{build_list, item_texts, list_text};
use crate::command::node_opts::NodeOpts;

verus! {

/// Where a node answers the question for its TCP inlets.
pub const REQUEST_PATH: &'static str = "/node/inlet";

/// List TCP inlets on the default node.
#[derive(Debug, Clone)]
pub struct ListCommand {
    pub node: NodeOpts,
}

impl ListCommand {
    /// The name of the command.
    pub fn name(&self) -> (name: String)
        ensures
            name@ == "tcp-inlet list"@,
    {
        String::from_str("tcp-inlet list")
    }

    /// What is shown while the node `node_name` is being asked.
    pub fn progress_message(&self, node_name: &str) -> (message: String)
        ensures
            message@ == "Listing TCP Inlets on "@ + node_name@ + "..."@,
    {
        String::from_str("Listing TCP Inlets on ").concat(node_name).concat("...")
    }

    /// What is shown when the node `node_name` has no TCP inlets.
    pub fn empty_message(&self, node_name: &str) -> (message: String)
        ensures
            message@ == "No TCP Inlets found on "@ + node_name@,
    {
        String::from_str("No TCP Inlets found on ").concat(node_name)
    }

    /// The list of the TCP inlets of the node `node_name`, as it is shown to a
    /// person: each on a line of its own, or the message that there are
    /// none.
    pub fn plain(&self, node_name: &str, items: &Vec<String>) -> (text: String)
        ensures
            text@ == list_text(None, item_texts(items@), "No TCP Inlets found on "@ + node_name@),
    {
        let empty = self.empty_message(node_name);
        build_list(None, items, empty.as_str())
    }
}

} // verus!
