use vstd::prelude::*;
use vstd::string::StringExecFns;
use crate::command::node_opts::NodeOpts;

verus! {

/// Show a TCP listener.
#[derive(Debug, Clone)]
pub struct ShowCommand {
    pub node_opts: NodeOpts,
    /// TCP listener internal address or socket address.
    pub address: String,
}

impl ShowCommand {
    /// The name of the command.
    pub fn name(&self) -> (name: String)
        ensures
            name@ == "tcp-listener show"@,
    {
        String::from_str("tcp-listener show")
    }

    /// Where a node answers the question for the listener.
    pub fn request_path(&self) -> (path: String)
        ensures
            path@ == "/node/tcp/listener/"@ + self.address@,
    {
        String::from_str("/node/tcp/listener/").concat(self.address.as_str())
    }
}

} // verus!
