use vstd::prelude::*;
use vstd::string::StringExecFns;
use crate::command::color::{colored, painted, Shade};
use crate::command::list::{build_list, item_texts, list_text};
use crate::command::node_opts::NodeOpts;

verus! {

/// Where a node answers the question for its TCP connections.
pub const REQUEST_PATH: &'static str = "/node/tcp/connection";

/// List TCP connections.
#[derive(Debug, Clone)]
pub struct ListCommand {
    pub node_opts: NodeOpts,
}

impl ListCommand {
    /// The name of the command.
    pub fn name(&self) -> (name: String)
        ensures
            name@ == "tcp-connection list"@,
    {
        String::from_str("tcp-connection list")
    }

    /// What is shown while the node `node_name` is being asked. The name
    /// stands out in colour.
    pub fn progress_message(&self, node_name: &str) -> (message: String)
        ensures
            message@ == "Listing TCP Connections on "@ + painted(node_name@, Shade::PrimaryResource.spec_rgb())
                + "...\n"@,
    {
        let name = colored(node_name, Shade::PrimaryResource);
        String::from_str("Listing TCP Connections on ").concat(name.as_str()).concat("...\n")
    }

    /// What is shown when the node `node_name` has no TCP connections. The
    /// name stands out in colour.
    pub fn empty_message(&self, node_name: &str) -> (message: String)
        ensures
            message@ == "No TCP Connections found on "@ + painted(node_name@, Shade::PrimaryResource.spec_rgb()),
    {
        let name = colored(node_name, Shade::PrimaryResource);
        String::from_str("No TCP Connections found on ").concat(name.as_str())
    }

    /// The list of the TCP connections of the node `node_name`, as it is shown to a
    /// person: each on a line of its own, or the message that there are
    /// none.
    pub fn plain(&self, node_name: &str, items: &Vec<String>) -> (text: String)
        ensures
            text@ == list_text(None, item_texts(items@), "No TCP Connections found on "@ + painted(node_name@, Shade::PrimaryResource.spec_rgb())),
    {
        let empty = self.empty_message(node_name);
        build_list(None, items, empty.as_str())
    }
}

} // verus!
