use eva_core::voice_macros::{MacroError, MacroManager, MacroStep, VoiceMacro};

#[test]
fn test_start_stop_recording() {
    let mut mgr = MacroManager::new();

    mgr.start_recording("test_macro".to_string());
    assert!(mgr.is_recording());

    mgr.add_step("command 1".to_string(), 100);
    mgr.add_step("command 2".to_string(), 200);

    let macro_rec = mgr.stop_recording().unwrap();
    assert_eq!(macro_rec.name, "test_macro");
    assert_eq!(macro_rec.steps.len(), 2);
    assert!(!mgr.is_recording());
}

#[test]
fn test_save_macro() {
    let mut mgr = MacroManager::new();

    let macro_rec = VoiceMacro {
        name: "test".to_string(),
        steps: vec![MacroStep {
            command: "test command".to_string(),
            delay_ms: 100,
        }],
        created_at_ms: 0,
    };

    mgr.save_macro(macro_rec);
    assert_eq!(mgr.count(), 1);
}

#[test]
fn test_delete_macro() {
    let mut mgr = MacroManager::new();

    let macro_rec = VoiceMacro {
        name: "delete_me".to_string(),
        steps: vec![],
        created_at_ms: 0,
    };

    mgr.save_macro(macro_rec);
    assert_eq!(mgr.count(), 1);

    mgr.delete_macro("delete_me");
    assert_eq!(mgr.count(), 0);
}

#[test]
fn test_play_macro() {
    let mut mgr = MacroManager::new();

    let macro_rec = VoiceMacro {
        name: "play_test".to_string(),
        steps: vec![
            MacroStep {
                command: "cmd1".to_string(),
                delay_ms: 10,
            },
            MacroStep {
                command: "cmd2".to_string(),
                delay_ms: 10,
            },
        ],
        created_at_ms: 0,
    };

    mgr.save_macro(macro_rec);

    let commands = mgr.play_macro("play_test").unwrap();
    assert_eq!(commands.len(), 2);
    assert_eq!(commands[0], "cmd1");
    assert_eq!(commands[1], "cmd2");
}

#[test]
fn test_play_macro_missing_name() {
    let mgr = MacroManager::new();
    assert_eq!(mgr.play_macro("absent").unwrap_err(), MacroError::NotFound);
}

#[test]
fn test_stop_recording_without_recording() {
    let mut mgr = MacroManager::new();
    assert_eq!(mgr.stop_recording().unwrap_err(), MacroError::NoRecording);
}

#[test]
fn test_save_macro_same_name_replaces() {
    let mut mgr = MacroManager::new();
    mgr.save_macro(VoiceMacro {
        name: "m".to_string(),
        steps: vec![],
        created_at_ms: 1,
    });
    mgr.save_macro(VoiceMacro {
        name: "m".to_string(),
        steps: vec![MacroStep { command: "only".to_string(), delay_ms: 0 }],
        created_at_ms: 2,
    });
    assert_eq!(mgr.count(), 1);
    assert_eq!(mgr.get_macro("m").unwrap().steps.len(), 1);
}
