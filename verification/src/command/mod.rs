pub mod color;
pub mod list;
pub mod node_delete;
pub mod node_opts;
pub mod project;
pub mod tcp_connection_list;
pub mod tcp_inlet_list;
pub mod tcp_listener_show;
pub mod vault_list;
