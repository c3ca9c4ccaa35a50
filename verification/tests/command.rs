use ockam_relay::command::color::{colored, fmt_ok, Shade};
use ockam_relay::command::list::build_list;
use ockam_relay::command::node_delete::{
    deleted_message, Confirmation, DeleteAction, DeleteCommand, ALL_DELETED, PROMPT_ALL,
    PROMPT_ONE,
};
use ockam_relay::command::node_opts::NodeOpts;
use ockam_relay::command::project::{ProjectCommand, ProjectSubcommand};
use ockam_relay::command::tcp_connection_list;
use ockam_relay::command::tcp_inlet_list;
use ockam_relay::command::tcp_listener_show::ShowCommand;
use ockam_relay::command::vault_list;

#[test]
fn commands_bear_their_names() {
    let connection = tcp_connection_list::ListCommand { node_opts: NodeOpts::new(None) };
    assert_eq!(connection.name(), "tcp-connection list");
    let inlet = tcp_inlet_list::ListCommand { node: NodeOpts::new(Some("n1".to_string())) };
    assert_eq!(inlet.name(), "tcp-inlet list");
    let show = ShowCommand { node_opts: NodeOpts::new(None), address: "0.0.0.0:4000".to_string() };
    assert_eq!(show.name(), "tcp-listener show");
    let names = [
        (ProjectSubcommand::Enroll, "project enroll"),
        (ProjectSubcommand::Import, "project import"),
        (ProjectSubcommand::List, "project list"),
        (ProjectSubcommand::Show, "project show"),
        (ProjectSubcommand::Version, "project version"),
        (ProjectSubcommand::Information, "project information"),
        (ProjectSubcommand::Ticket, "project ticket"),
        (ProjectSubcommand::Create, "project create"),
        (ProjectSubcommand::Delete, "project delete"),
        (ProjectSubcommand::Addon, "project addon"),
    ];
    for (subcommand, name) in names {
        assert_eq!(ProjectCommand { subcommand }.name(), name);
    }
}

#[test]
fn commands_word_their_requests_and_messages() {
    let connection = tcp_connection_list::ListCommand { node_opts: NodeOpts::new(None) };
    assert_eq!(tcp_connection_list::REQUEST_PATH, "/node/tcp/connection");
    assert_eq!(
        connection.progress_message("n1"),
        "Listing TCP Connections on \x1b[38;2;79;218;184mn1\x1b[0m...\n"
    );
    assert_eq!(
        connection.empty_message("n1"),
        "No TCP Connections found on \x1b[38;2;79;218;184mn1\x1b[0m"
    );
    let inlet = tcp_inlet_list::ListCommand { node: NodeOpts::new(None) };
    assert_eq!(tcp_inlet_list::REQUEST_PATH, "/node/inlet");
    assert_eq!(inlet.progress_message("n1"), "Listing TCP Inlets on n1...");
    assert_eq!(inlet.empty_message("n1"), "No TCP Inlets found on n1");
    let show = ShowCommand { node_opts: NodeOpts::new(None), address: "0.0.0.0:4000".to_string() };
    assert_eq!(show.request_path(), "/node/tcp/listener/0.0.0.0:4000");
    assert_eq!(vault_list::TITLE, "Vaults");
    assert_eq!(vault_list::EMPTY_MESSAGE, "No vaults found on this system.");
    assert_eq!(vault_list::ListCommand, vault_list::ListCommand);
}

#[test]
fn deleting_asks_first_unless_confirmed() {
    let one = DeleteCommand::new(Some("n1".to_string()), false, false, false);
    assert_eq!(one.prompt(), "Are you sure you want to delete this node?");
    assert_eq!(one.confirmation(), Confirmation::Ask(PROMPT_ONE));
    let all = DeleteCommand::new(None, true, false, false);
    assert_eq!(all.prompt(), "Are you sure you want to delete all nodes?");
    assert_eq!(all.confirmation(), Confirmation::Ask(PROMPT_ALL));
    let sure = DeleteCommand::new(None, true, false, true);
    assert_eq!(sure.confirmation(), Confirmation::Granted);
}

#[test]
fn deleting_does_what_was_confirmed() {
    let one = DeleteCommand::new(Some("n1".to_string()), false, true, false);
    assert_eq!(one.run(false), DeleteAction::Nothing);
    assert_eq!(
        one.run(true),
        DeleteAction::DeleteNode { node_name: Some("n1".to_string()), force: true }
    );
    let default = DeleteCommand::new(None, false, false, true);
    assert_eq!(
        default.run(true),
        DeleteAction::DeleteNode { node_name: None, force: false }
    );
    let all = DeleteCommand::new(Some("ignored".to_string()), true, true, true);
    assert_eq!(all.run(true), DeleteAction::DeleteAll { force: true });
    assert_eq!(all.run(false), DeleteAction::Nothing);
    assert_eq!(deleted_message("n1"), "Node with name 'n1' has been deleted");
    assert_eq!(ALL_DELETED, "All nodes have been deleted");
}

#[test]
fn colours_are_written_as_escape_sequences() {
    assert_eq!(Shade::PrimaryResource.rgb(), (0x4f, 0xda, 0xb8));
    assert_eq!(Shade::OkMark.rgb(), (168, 201, 125));
    assert_eq!(
        colored("node", Shade::PrimaryResource),
        "\x1b[38;2;79;218;184mnode\x1b[0m"
    );
    assert_eq!(colored("", Shade::OkMark), "\x1b[38;2;168;201;125m\x1b[0m");
    assert_eq!(
        fmt_ok("All nodes have been deleted"),
        "\x1b[38;2;168;201;125m\u{2714}\x1b[0m All nodes have been deleted"
    );
}

fn strings(items: &[&str]) -> Vec<String> {
    items.iter().map(|s| s.to_string()).collect()
}

#[test]
fn a_list_shows_its_items_line_by_line() {
    assert_eq!(build_list(None, &strings(&[]), "nothing here"), "nothing here");
    assert_eq!(build_list(Some("Title"), &strings(&[]), "nothing here"), "nothing here");
    assert_eq!(build_list(None, &strings(&["a"]), "nothing here"), "a");
    assert_eq!(build_list(None, &strings(&["a", "b", "c"]), ""), "a\nb\nc");
    assert_eq!(build_list(Some("Title"), &strings(&["a"]), ""), "Title\na");
    assert_eq!(build_list(Some("Title"), &strings(&["a", "b"]), ""), "Title\na\nb");
    assert_eq!(build_list(Some(""), &strings(&["", ""]), "x"), "\n\n");
}

#[test]
fn commands_list_what_they_found() {
    assert_eq!(
        vault_list::ListCommand.run(&strings(&[])),
        "No vaults found on this system."
    );
    assert_eq!(
        vault_list::ListCommand.run(&strings(&["v1", "v2"])),
        "Vaults\nv1\nv2"
    );
    let inlet = tcp_inlet_list::ListCommand { node: NodeOpts::new(None) };
    assert_eq!(inlet.plain("n1", &strings(&[])), "No TCP Inlets found on n1");
    assert_eq!(inlet.plain("n1", &strings(&["i1", "i2"])), "i1\ni2");
    let connection = tcp_connection_list::ListCommand { node_opts: NodeOpts::new(None) };
    assert_eq!(
        connection.plain("n1", &strings(&[])),
        "No TCP Connections found on \x1b[38;2;79;218;184mn1\x1b[0m"
    );
    assert_eq!(connection.plain("n1", &strings(&["c1"])), "c1");
}
