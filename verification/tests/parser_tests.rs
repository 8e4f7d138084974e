use eva_core::parser::{CommandIntent, CommandParser, FileOperation, ParseError, ProcessOperation, SystemOperation};

#[test]
fn test_parse_file_create() {
    let parser = CommandParser::new();
    let result = parser.parse("create a file called test.txt").unwrap();

    assert!(matches!(result, CommandIntent::File(FileOperation::Create { .. })));
}

#[test]
fn test_parse_file_list() {
    let parser = CommandParser::new();
    let result = parser.parse("list files").unwrap();

    assert!(matches!(result, CommandIntent::File(FileOperation::List { .. })));
}

#[test]
fn test_parse_memory_info() {
    let parser = CommandParser::new();
    let result = parser.parse("show memory usage").unwrap();

    assert!(matches!(result, CommandIntent::System(SystemOperation::MemoryInfo)));
}

#[test]
fn test_parse_process_list() {
    let parser = CommandParser::new();
    let result = parser.parse("show running processes").unwrap();

    assert!(matches!(result, CommandIntent::Process(ProcessOperation::List)));
}

#[test]
fn test_parse_unknown() {
    let parser = CommandParser::new();
    let result = parser.parse("hello world").unwrap();

    assert!(matches!(result, CommandIntent::Unknown));
}

#[test]
fn test_parse_create_extracts_name() {
    let parser = CommandParser::new();
    match parser.parse("create a file called test.txt").unwrap() {
        CommandIntent::File(FileOperation::Create { path, content }) => {
            assert_eq!(path, b"test.txt".to_vec());
            assert!(content.is_none());
        }
        other => panic!("unexpected intent: {:?}", other),
    }
}

#[test]
fn test_parse_create_untitled_fallback() {
    let parser = CommandParser::new();
    match parser.parse("create a file").unwrap() {
        CommandIntent::File(FileOperation::Create { path, .. }) => {
            assert_eq!(path, b"untitled.txt".to_vec());
        }
        other => panic!("unexpected intent: {:?}", other),
    }
}

#[test]
fn test_parse_copy_extracts_both_names() {
    let parser = CommandParser::new();
    match parser.parse("copy a.txt to b.txt").unwrap() {
        CommandIntent::File(FileOperation::Copy { from, to }) => {
            assert_eq!(from, b"a.txt".to_vec());
            assert_eq!(to, b"b.txt".to_vec());
        }
        other => panic!("unexpected intent: {:?}", other),
    }
}

#[test]
fn test_parse_copy_without_destination_fails() {
    let parser = CommandParser::new();
    let result = parser.parse("copy a.txt");
    assert_eq!(result.unwrap_err(), ParseError::BadCopyFormat);
}

#[test]
fn test_parse_move_without_destination_fails() {
    let parser = CommandParser::new();
    let result = parser.parse("move a.txt somewhere");
    assert_eq!(result.unwrap_err(), ParseError::BadMoveFormat);
}

#[test]
fn test_parse_delete_without_name_fails() {
    let parser = CommandParser::new();
    let result = parser.parse("delete the file ");
    assert_eq!(result.unwrap_err(), ParseError::NoFilename);
}

#[test]
fn test_parse_is_case_insensitive() {
    let parser = CommandParser::new();
    let result = parser.parse("Show Memory Usage").unwrap();
    assert!(matches!(result, CommandIntent::System(SystemOperation::MemoryInfo)));
}

#[test]
fn test_parse_type_trims_quotes() {
    let parser = CommandParser::new();
    match parser.parse("type 'hello there'").unwrap() {
        CommandIntent::Text(eva_core::parser::TextOperation::Type { text }) => {
            assert_eq!(text, b"hello there".to_vec());
        }
        other => panic!("unexpected intent: {:?}", other),
    }
}

#[test]
fn test_parse_ping_takes_last_token() {
    let parser = CommandParser::new();
    match parser.parse("ping example.com").unwrap() {
        CommandIntent::Network(eva_core::parser::NetworkOperation::Ping { host }) => {
            assert_eq!(host, b"example.com".to_vec());
        }
        other => panic!("unexpected intent: {:?}", other),
    }
}
