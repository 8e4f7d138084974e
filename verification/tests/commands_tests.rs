use eva_core::commands::{CommandAction, CustomCommand, CustomCommandManager};

#[test]
fn test_add_command() {
    let mut mgr = CustomCommandManager::new();

    let cmd = CustomCommand {
        trigger: "good morning".to_string(),
        action: CommandAction::SendText("Hello!".to_string()),
        description: "Morning greeting".to_string(),
    };

    mgr.add_command(cmd);
    assert_eq!(mgr.count(), 1);
}

#[test]
fn test_find_command() {
    let mut mgr = CustomCommandManager::new();

    let cmd = CustomCommand {
        trigger: "test".to_string(),
        action: CommandAction::SendText("Test response".to_string()),
        description: "Test command".to_string(),
    };

    mgr.add_command(cmd);

    // Exact match
    assert!(mgr.find_command("test").is_some());

    // Partial match
    assert!(mgr.find_command("this is a test").is_some());

    // No match
    assert!(mgr.find_command("nothing").is_none());
}

#[test]
fn test_remove_command() {
    let mut mgr = CustomCommandManager::new();

    let cmd = CustomCommand {
        trigger: "remove_me".to_string(),
        action: CommandAction::SendText("Test".to_string()),
        description: "Test".to_string(),
    };

    mgr.add_command(cmd);
    assert_eq!(mgr.count(), 1);

    mgr.remove_command("remove_me");
    assert_eq!(mgr.count(), 0);
}

#[test]
fn test_add_command_same_trigger_replaces() {
    let mut mgr = CustomCommandManager::new();
    mgr.add_command(CustomCommand {
        trigger: "greet".to_string(),
        action: CommandAction::SendText("Hi".to_string()),
        description: "first".to_string(),
    });
    mgr.add_command(CustomCommand {
        trigger: "greet".to_string(),
        action: CommandAction::SendText("Hello".to_string()),
        description: "second".to_string(),
    });
    assert_eq!(mgr.count(), 1);
    let found = mgr.find_command("greet").unwrap();
    assert_eq!(found.description, "second");
}

#[test]
fn test_find_command_lowercases_request() {
    let mut mgr = CustomCommandManager::new();
    mgr.add_command(CustomCommand {
        trigger: "lights on".to_string(),
        action: CommandAction::Custom("lights".to_string()),
        description: "".to_string(),
    });
    assert!(mgr.find_command("Lights On").is_some());
    assert!(mgr.find_command("please turn the LIGHTS ON now").is_some());
}

#[test]
fn test_list_commands_keeps_order() {
    let mut mgr = CustomCommandManager::new();
    mgr.add_command(CustomCommand {
        trigger: "a".to_string(),
        action: CommandAction::Custom("x".to_string()),
        description: "".to_string(),
    });
    mgr.add_command(CustomCommand {
        trigger: "b".to_string(),
        action: CommandAction::Custom("y".to_string()),
        description: "".to_string(),
    });
    let all = mgr.list_commands();
    assert_eq!(all.len(), 2);
    assert_eq!(all[0].trigger, "a");
    assert_eq!(all[1].trigger, "b");
}
