use rpi_kernel::console::{console, register_console};
use rpi_kernel::synchronization::FakeLock;
use rpi_kernel::tasks::{parse_command, register_cmd, Command, CommandList, CommandListInner, ShellAction, NUM_CMDS};

#[test]
fn commands_are_found_by_first_word() {
    let mut list = CommandList::new();
    register_cmd(&mut list, "ptable", 1);
    list.register_cmd("uptime", 2);
    list.register_cmd("uptime", 3);
    assert_eq!(list.run_cmd("uptime extra args").unwrap().entry, 2);
    assert_eq!(list.run_cmd("ptable").unwrap().name, "ptable");
    assert!(list.run_cmd("upt").is_none());
    assert!(list.run_cmd("uptimes").is_none());
    assert!(list.run_cmd("").is_none());
    assert_eq!(list.print_cmds(), vec!["ptable", "uptime", "uptime"]);
    assert!(!list.is_full());
}

#[test]
fn command_list_has_fixed_capacity() {
    let mut inner = CommandListInner::new();
    for i in 0..NUM_CMDS {
        assert!(!inner.is_full());
        inner.register_cmd("c", i);
        assert_eq!(inner.cmds[i].unwrap().entry, i);
    }
    assert!(inner.is_full());
    assert_eq!(inner.next_idx, NUM_CMDS);
    let c = Command::new("x", 4);
    assert_eq!((c.name, c.entry), ("x", 4));
}

#[test]
fn shell_lines() {
    assert_eq!(parse_command("help"), ShellAction::Help);
    assert_eq!(parse_command(""), ShellAction::Nothing);
    assert_eq!(parse_command("ls -l"), ShellAction::Run);
    assert_eq!(parse_command("helpme"), ShellAction::Run);
}

#[test]
fn console_slot_holds_registered_console() {
    let mut slot = FakeLock::new(1u32);
    assert_eq!(console(&slot), 1);
    register_console(&mut slot, 5);
    assert_eq!(console(&slot), 5);
}
