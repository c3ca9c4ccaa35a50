use vstd::prelude::*;

verus! {

/// The node that a command is for.
#[derive(Debug, Clone)]
pub struct NodeOpts {
    /// The name of the node; the default node if none is given.
    pub at_node: Option<String>,
}

impl NodeOpts {
    /// The options that name `at_node`, or the default node.
    pub fn new(at_node: Option<String>) -> (opts: NodeOpts)
        ensures
            opts.at_node == at_node,
    {
        NodeOpts { at_node }
    }
}

} // verus!
