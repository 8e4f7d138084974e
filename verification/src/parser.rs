//! Natural-language command parsing: keyword-driven classification of a
//! request into a structured intent.
//!
//! Matching is ASCII case-insensitive and byte-level; extracted arguments
//! (paths, program names, hosts, text) are byte strings taken from the
//! lowercased request, as whitespace-separated tokens.

use crate::text::{
    contains_sub, find_sub, first_token, last_token, lower_bytes, spec_contains, spec_find,
    spec_first_token, spec_last_token, spec_lower, spec_trim, spec_trim_byte, trim_byte,
    trim_bytes,
};
use vstd::prelude::*;
use vstd::string::{StringExecFns, StringSliceAdditionalSpecFns};

verus! {

/// Reasons a request fails to parse.
#[derive(Debug, Clone, Copy, PartialEq, Eq, Structural)]
pub enum ParseError {
    /// A file operation without a usable file name.
    NoFilename,
    /// A copy request without both a source and a destination.
    BadCopyFormat,
    /// A move request without both a source and a destination.
    BadMoveFormat,
    /// A start request without a program name.
    NoProgramName,
    /// A type request without any text.
    NoText,
}

/// File operations.
#[derive(Debug, Clone, PartialEq)]
pub enum FileOperation {
    Create { path: Vec<u8>, content: Option<Vec<u8>> },
    Delete { path: Vec<u8> },
    Copy { from: Vec<u8>, to: Vec<u8> },
    Move { from: Vec<u8>, to: Vec<u8> },
    List { path: Option<Vec<u8>> },
    Read { path: Vec<u8> },
}

/// Process operations.
#[derive(Debug, Clone, PartialEq)]
pub enum ProcessOperation {
    List,
    Start { name: Vec<u8> },
    Kill { pid: u32 },
}

/// System operations.
#[derive(Debug, Clone, Copy, PartialEq, Eq, Structural)]
pub enum SystemOperation {
    MemoryInfo,
    DiskInfo,
    CpuInfo,
    Uptime,
}

/// Network operations.
#[derive(Debug, Clone, PartialEq)]
pub enum NetworkOperation {
    GetIP,
    Ping { host: Vec<u8> },
}

/// Text operations.
#[derive(Debug, Clone, PartialEq)]
pub enum TextOperation {
    Type { text: Vec<u8> },
    Select,
    Copy,
    Paste,
}

/// Command intent types.
#[derive(Debug, Clone, PartialEq)]
pub enum CommandIntent {
    File(FileOperation),
    Process(ProcessOperation),
    System(SystemOperation),
    Network(NetworkOperation),
    Text(TextOperation),
    Unknown,
}

/// Mathematical form of a file operation.
pub enum FileOpView {
    Create { path: Seq<u8>, content: Option<Seq<u8>> },
    Delete { path: Seq<u8> },
    Copy { from: Seq<u8>, to: Seq<u8> },
    Move { from: Seq<u8>, to: Seq<u8> },
    List { path: Option<Seq<u8>> },
    Read { path: Seq<u8> },
}

/// Mathematical form of a process operation.
pub enum ProcessOpView {
    List,
    Start { name: Seq<u8> },
    Kill { pid: u32 },
}

/// Mathematical form of a network operation.
pub enum NetworkOpView {
    GetIP,
    Ping { host: Seq<u8> },
}

/// Mathematical form of a text operation.
pub enum TextOpView {
    Type { text: Seq<u8> },
    Select,
    Copy,
    Paste,
}

/// Mathematical form of a command intent.
pub enum IntentView {
    File(FileOpView),
    Process(ProcessOpView),
    System(SystemOperation),
    Network(NetworkOpView),
    Text(TextOpView),
    Unknown,
}

impl View for FileOperation {
    type V = FileOpView;

    open spec fn view(&self) -> FileOpView {
        match self {
            FileOperation::Create { path, content } => FileOpView::Create {
                path: path@,
                content: match content {
                    Some(c) => Some(c@),
                    None => None,
                },
            },
            FileOperation::Delete { path } => FileOpView::Delete { path: path@ },
            FileOperation::Copy { from, to } => FileOpView::Copy { from: from@, to: to@ },
            FileOperation::Move { from, to } => FileOpView::Move { from: from@, to: to@ },
            FileOperation::List { path } => FileOpView::List {
                path: match path {
                    Some(p) => Some(p@),
                    None => None,
                },
            },
            FileOperation::Read { path } => FileOpView::Read { path: path@ },
        }
    }
}

impl View for ProcessOperation {
    type V = ProcessOpView;

    open spec fn view(&self) -> ProcessOpView {
        match self {
            ProcessOperation::List => ProcessOpView::List,
            ProcessOperation::Start { name } => ProcessOpView::Start { name: name@ },
            ProcessOperation::Kill { pid } => ProcessOpView::Kill { pid: *pid },
        }
    }
}

impl View for NetworkOperation {
    type V = NetworkOpView;

    open spec fn view(&self) -> NetworkOpView {
        match self {
            NetworkOperation::GetIP => NetworkOpView::GetIP,
            NetworkOperation::Ping { host } => NetworkOpView::Ping { host: host@ },
        }
    }
}

impl View for TextOperation {
    type V = TextOpView;

    open spec fn view(&self) -> TextOpView {
        match self {
            TextOperation::Type { text } => TextOpView::Type { text: text@ },
            TextOperation::Select => TextOpView::Select,
            TextOperation::Copy => TextOpView::Copy,
            TextOperation::Paste => TextOpView::Paste,
        }
    }
}

impl View for CommandIntent {
    type V = IntentView;

    open spec fn view(&self) -> IntentView {
        match self {
            CommandIntent::File(op) => IntentView::File(op@),
            CommandIntent::Process(op) => IntentView::Process(op@),
            CommandIntent::System(op) => IntentView::System(*op),
            CommandIntent::Network(op) => IntentView::Network(op@),
            CommandIntent::Text(op) => IntentView::Text(op@),
            CommandIntent::Unknown => IntentView::Unknown,
        }
    }
}


/// `"untitled.txt"` as bytes: the fallback file name of a create request.
pub open spec fn spec_untitled() -> Seq<u8> {
    seq![117u8, 110u8, 116u8, 105u8, 116u8, 108u8, 101u8, 100u8, 46u8, 116u8, 120u8, 116u8]
}

/// `"."` as bytes: the fallback directory of a list request.
pub open spec fn spec_dot() -> Seq<u8> {
    seq![46u8]
}

/// `"localhost"` as bytes: the fallback host of a ping request.
pub open spec fn spec_localhost() -> Seq<u8> {
    seq![108u8, 111u8, 99u8, 97u8, 108u8, 104u8, 111u8, 115u8, 116u8]
}

/// A token taken from behind a marker such as `"called "`: the first token
/// after the first occurrence of the marker, or nothing when the marker is
/// absent or no token follows it.
pub open spec fn spec_token_after(l: Seq<u8>, marker: Seq<u8>) -> Option<Seq<u8>> {
    match spec_find(l, marker) {
        Some(i) => {
            let tok = spec_first_token(l.subrange(i + marker.len(), l.len() as int));
            if tok.len() == 0 {
                None
            } else {
                Some(tok)
            }
        },
        None => None,
    }
}

/// Parse of a create request: the file name named by `"called "` or
/// `"named "`, with a fixed fallback name.
pub open spec fn spec_parse_file_create(l: Seq<u8>) -> Result<IntentView, ParseError> {
    let path = match spec_token_after(l, ("called ").spec_bytes()) {
        Some(tok) => tok,
        None => if spec_find(l, ("called ").spec_bytes()) is None {
            match spec_token_after(l, ("named ").spec_bytes()) {
                Some(tok) => tok,
                None => spec_untitled(),
            }
        } else {
            spec_untitled()
        },
    };
    Ok(IntentView::File(FileOpView::Create { path, content: None }))
}

/// Parse of a delete request: the token after `"file "`, required.
pub open spec fn spec_parse_file_delete(l: Seq<u8>) -> Result<IntentView, ParseError> {
    match spec_token_after(l, ("file ").spec_bytes()) {
        Some(tok) => Ok(IntentView::File(FileOpView::Delete { path: tok })),
        None => Err(ParseError::NoFilename),
    }
}

/// Parse of a copy request: the token before `" to "` and the token after
/// it, both required.
pub open spec fn spec_parse_file_copy(l: Seq<u8>) -> Result<IntentView, ParseError> {
    match spec_find(l, (" to ").spec_bytes()) {
        Some(i) => {
            let from = spec_last_token(l.subrange(0, i));
            let to = spec_first_token(l.subrange(i + (" to ").spec_bytes().len(), l.len() as int));
            if from.len() > 0 && to.len() > 0 {
                Ok(IntentView::File(FileOpView::Copy { from, to }))
            } else {
                Err(ParseError::BadCopyFormat)
            }
        },
        None => Err(ParseError::BadCopyFormat),
    }
}

/// Parse of a move request, shaped like a copy request.
pub open spec fn spec_parse_file_move(l: Seq<u8>) -> Result<IntentView, ParseError> {
    match spec_find(l, (" to ").spec_bytes()) {
        Some(i) => {
            let from = spec_last_token(l.subrange(0, i));
            let to = spec_first_token(l.subrange(i + (" to ").spec_bytes().len(), l.len() as int));
            if from.len() > 0 && to.len() > 0 {
                Ok(IntentView::File(FileOpView::Move { from, to }))
            } else {
                Err(ParseError::BadMoveFormat)
            }
        },
        None => Err(ParseError::BadMoveFormat),
    }
}

/// Parse of a list request: the optional directory after `" in "`, with a
/// fixed fallback.
pub open spec fn spec_parse_file_list(l: Seq<u8>) -> Result<IntentView, ParseError> {
    let path = match spec_find(l, (" in ").spec_bytes()) {
        Some(i) => {
            let tok = spec_first_token(l.subrange(i + (" in ").spec_bytes().len(), l.len() as int));
            if tok.len() == 0 {
                Some(spec_dot())
            } else {
                Some(tok)
            }
        },
        None => None,
    };
    Ok(IntentView::File(FileOpView::List { path }))
}

/// Parse of a read request: the token after `"file "`, required.
pub open spec fn spec_parse_file_read(l: Seq<u8>) -> Result<IntentView, ParseError> {
    match spec_token_after(l, ("file ").spec_bytes()) {
        Some(tok) => Ok(IntentView::File(FileOpView::Read { path: tok })),
        None => Err(ParseError::NoFilename),
    }
}

/// Parse of a start request: the last token of the request, required.
pub open spec fn spec_parse_process_start(l: Seq<u8>) -> Result<IntentView, ParseError> {
    let name = spec_last_token(l);
    if name.len() == 0 {
        Err(ParseError::NoProgramName)
    } else {
        Ok(IntentView::Process(ProcessOpView::Start { name }))
    }
}

/// Parse of a ping request: the last token of the request, with a fixed
/// fallback host.
pub open spec fn spec_parse_network_ping(l: Seq<u8>) -> Result<IntentView, ParseError> {
    let host = spec_last_token(l);
    Ok(
        IntentView::Network(
            NetworkOpView::Ping {
                host: if host.len() == 0 {
                    spec_localhost()
                } else {
                    host
                },
            },
        ),
    )
}

/// Parse of a type request: everything after `"type "`, trimmed of
/// whitespace and of surrounding quotes, required.
pub open spec fn spec_parse_text_type(l: Seq<u8>) -> Result<IntentView, ParseError> {
    match spec_find(l, ("type ").spec_bytes()) {
        Some(i) => {
            let t = spec_trim_byte(
                spec_trim_byte(
                    spec_trim(l.subrange(i + ("type ").spec_bytes().len(), l.len() as int)),
                    39,
                ),
                34,
            );
            if t.len() == 0 {
                Err(ParseError::NoText)
            } else {
                Ok(IntentView::Text(TextOpView::Type { text: t }))
            }
        },
        None => Err(ParseError::NoText),
    }
}

/// Parse of a whole request: lowercase it, then classify by keywords in a
/// fixed order and extract the arguments of the matched form.
pub open spec fn spec_parse(t: Seq<u8>) -> Result<IntentView, ParseError> {
    let l = spec_lower(t);
    if spec_contains(l, ("create").spec_bytes()) && spec_contains(l, ("file").spec_bytes()) {
        spec_parse_file_create(l)
    } else if spec_contains(l, ("delete").spec_bytes()) && spec_contains(
        l,
        ("file").spec_bytes(),
    ) {
        spec_parse_file_delete(l)
    } else if spec_contains(l, ("copy").spec_bytes()) {
        spec_parse_file_copy(l)
    } else if spec_contains(l, ("move").spec_bytes()) {
        spec_parse_file_move(l)
    } else if spec_contains(l, ("list").spec_bytes()) || (spec_contains(l, ("show").spec_bytes())
        && spec_contains(l, ("file").spec_bytes())) {
        spec_parse_file_list(l)
    } else if spec_contains(l, ("read").spec_bytes()) && spec_contains(l, ("file").spec_bytes()) {
        spec_parse_file_read(l)
    } else if spec_contains(l, ("process").spec_bytes()) || spec_contains(
        l,
        ("running").spec_bytes(),
    ) {
        Ok(IntentView::Process(ProcessOpView::List))
    } else if spec_contains(l, ("start").spec_bytes()) || spec_contains(l, ("open").spec_bytes())
        || spec_contains(l, ("launch").spec_bytes()) {
        spec_parse_process_start(l)
    } else if spec_contains(l, ("memory").spec_bytes()) || spec_contains(l, ("ram").spec_bytes()) {
        Ok(IntentView::System(SystemOperation::MemoryInfo))
    } else if spec_contains(l, ("disk").spec_bytes()) || spec_contains(
        l,
        ("storage").spec_bytes(),
    ) {
        Ok(IntentView::System(SystemOperation::DiskInfo))
    } else if spec_contains(l, ("cpu").spec_bytes()) || spec_contains(
        l,
        ("processor").spec_bytes(),
    ) {
        Ok(IntentView::System(SystemOperation::CpuInfo))
    } else if spec_contains(l, ("ip").spec_bytes()) && spec_contains(
        l,
        ("address").spec_bytes(),
    ) {
        Ok(IntentView::Network(NetworkOpView::GetIP))
    } else if spec_contains(l, ("ping").spec_bytes()) {
        spec_parse_network_ping(l)
    } else if spec_contains(l, ("type").spec_bytes()) {
        spec_parse_text_type(l)
    } else {
        Ok(IntentView::Unknown)
    }
}

/// Keyword-driven command parser.
pub struct CommandParser {
    whitelist: Vec<String>,
}

impl CommandParser {
    /// The verbs the parser knows, as character sequences.
    pub closed spec fn whitelist_view(self) -> Seq<Seq<char>> {
        Seq::new(self.whitelist@.len(), |i: int| self.whitelist@[i]@)
    }

    /// Create a new command parser, with its fixed verb whitelist.
    pub fn new() -> (r: CommandParser)
        ensures
            r.whitelist_view() =~= seq![
                ("create")@,
                ("delete")@,
                ("copy")@,
                ("move")@,
                ("list")@,
                ("read")@,
                ("start")@,
                ("kill")@,
                ("processes")@,
                ("memory")@,
                ("disk")@,
                ("cpu")@,
                ("ip")@,
                ("ping")@,
                ("type")@,
            ],
    {
        let mut whitelist: Vec<String> = Vec::new();
        whitelist.push(String::from_str("create"));
        whitelist.push(String::from_str("delete"));
        whitelist.push(String::from_str("copy"));
        whitelist.push(String::from_str("move"));
        whitelist.push(String::from_str("list"));
        whitelist.push(String::from_str("read"));
        whitelist.push(String::from_str("start"));
        whitelist.push(String::from_str("kill"));
        whitelist.push(String::from_str("processes"));
        whitelist.push(String::from_str("memory"));
        whitelist.push(String::from_str("disk"));
        whitelist.push(String::from_str("cpu"));
        whitelist.push(String::from_str("ip"));
        whitelist.push(String::from_str("ping"));
        whitelist.push(String::from_str("type"));
        CommandParser { whitelist }
    }

    /// Parse a request into a command intent.  The result is exactly what
    /// the keyword classification of the lowercased request prescribes.
    pub fn parse(&self, text: &str) -> (r: Result<CommandIntent, ParseError>)
        ensures
            match r {
                Ok(intent) => spec_parse(text.spec_bytes()) == Ok::<IntentView, ParseError>(
                    intent@,
                ),
                Err(e) => spec_parse(text.spec_bytes()) == Err::<IntentView, ParseError>(e),
            },
    {
        let lower = lower_bytes(text.as_bytes());
        let l = lower.as_slice();
        if contains_sub(l, "create".as_bytes()) && contains_sub(l, "file".as_bytes()) {
            self.parse_file_create(l)
        } else if contains_sub(l, "delete".as_bytes()) && contains_sub(l, "file".as_bytes()) {
            self.parse_file_delete(l)
        } else if contains_sub(l, "copy".as_bytes()) {
            self.parse_file_copy(l)
        } else if contains_sub(l, "move".as_bytes()) {
            self.parse_file_move(l)
        } else if contains_sub(l, "list".as_bytes()) || (contains_sub(l, "show".as_bytes())
            && contains_sub(l, "file".as_bytes())) {
            self.parse_file_list(l)
        } else if contains_sub(l, "read".as_bytes()) && contains_sub(l, "file".as_bytes()) {
            self.parse_file_read(l)
        } else if contains_sub(l, "process".as_bytes()) || contains_sub(l, "running".as_bytes()) {
            Ok(CommandIntent::Process(ProcessOperation::List))
        } else if contains_sub(l, "start".as_bytes()) || contains_sub(l, "open".as_bytes())
            || contains_sub(l, "launch".as_bytes()) {
            self.parse_process_start(l)
        } else if contains_sub(l, "memory".as_bytes()) || contains_sub(l, "ram".as_bytes()) {
            Ok(CommandIntent::System(SystemOperation::MemoryInfo))
        } else if contains_sub(l, "disk".as_bytes()) || contains_sub(l, "storage".as_bytes()) {
            Ok(CommandIntent::System(SystemOperation::DiskInfo))
        } else if contains_sub(l, "cpu".as_bytes()) || contains_sub(l, "processor".as_bytes()) {
            Ok(CommandIntent::System(SystemOperation::CpuInfo))
        } else if contains_sub(l, "ip".as_bytes()) && contains_sub(l, "address".as_bytes()) {
            Ok(CommandIntent::Network(NetworkOperation::GetIP))
        } else if contains_sub(l, "ping".as_bytes()) {
            self.parse_network_ping(l)
        } else if contains_sub(l, "type".as_bytes()) {
            self.parse_text_type(l)
        } else {
            Ok(CommandIntent::Unknown)
        }
    }

    fn parse_file_create(&self, l: &[u8]) -> (r: Result<CommandIntent, ParseError>)
        ensures
            match r {
                Ok(intent) => spec_parse_file_create(l@) == Ok::<IntentView, ParseError>(intent@),
                Err(e) => spec_parse_file_create(l@) == Err::<IntentView, ParseError>(e),
            },
    {
        let path = match token_after(l, "called ".as_bytes()) {
            Some(tok) => tok,
            None => {
                if find_sub(l, "called ".as_bytes()).is_none() {
                    match token_after(l, "named ".as_bytes()) {
                        Some(tok) => tok,
                        None => untitled(),
                    }
                } else {
                    untitled()
                }
            },
        };
        Ok(CommandIntent::File(FileOperation::Create { path, content: None }))
    }

    fn parse_file_delete(&self, l: &[u8]) -> (r: Result<CommandIntent, ParseError>)
        ensures
            match r {
                Ok(intent) => spec_parse_file_delete(l@) == Ok::<IntentView, ParseError>(intent@),
                Err(e) => spec_parse_file_delete(l@) == Err::<IntentView, ParseError>(e),
            },
    {
        match token_after(l, "file ".as_bytes()) {
            Some(tok) => Ok(CommandIntent::File(FileOperation::Delete { path: tok })),
            None => Err(ParseError::NoFilename),
        }
    }

    fn parse_file_copy(&self, l: &[u8]) -> (r: Result<CommandIntent, ParseError>)
        ensures
            match r {
                Ok(intent) => spec_parse_file_copy(l@) == Ok::<IntentView, ParseError>(intent@),
                Err(e) => spec_parse_file_copy(l@) == Err::<IntentView, ParseError>(e),
            },
    {
        match split_around(l, " to ".as_bytes()) {
            Some((from, to)) => {
                if from.len() > 0 && to.len() > 0 {
                    Ok(CommandIntent::File(FileOperation::Copy { from, to }))
                } else {
                    Err(ParseError::BadCopyFormat)
                }
            },
            None => Err(ParseError::BadCopyFormat),
        }
    }

    fn parse_file_move(&self, l: &[u8]) -> (r: Result<CommandIntent, ParseError>)
        ensures
            match r {
                Ok(intent) => spec_parse_file_move(l@) == Ok::<IntentView, ParseError>(intent@),
                Err(e) => spec_parse_file_move(l@) == Err::<IntentView, ParseError>(e),
            },
    {
        match split_around(l, " to ".as_bytes()) {
            Some((from, to)) => {
                if from.len() > 0 && to.len() > 0 {
                    Ok(CommandIntent::File(FileOperation::Move { from, to }))
                } else {
                    Err(ParseError::BadMoveFormat)
                }
            },
            None => Err(ParseError::BadMoveFormat),
        }
    }

    fn parse_file_list(&self, l: &[u8]) -> (r: Result<CommandIntent, ParseError>)
        ensures
            match r {
                Ok(intent) => spec_parse_file_list(l@) == Ok::<IntentView, ParseError>(intent@),
                Err(e) => spec_parse_file_list(l@) == Err::<IntentView, ParseError>(e),
            },
    {
        let path = match token_after(l, " in ".as_bytes()) {
            Some(tok) => Some(tok),
            None => {
                if find_sub(l, " in ".as_bytes()).is_some() {
                    let mut dot: Vec<u8> = Vec::new();
                    dot.push(46);
                    proof {
                        assert(dot@ =~= spec_dot());
                    }
                    Some(dot)
                } else {
                    None
                }
            },
        };
        Ok(CommandIntent::File(FileOperation::List { path }))
    }

    fn parse_file_read(&self, l: &[u8]) -> (r: Result<CommandIntent, ParseError>)
        ensures
            match r {
                Ok(intent) => spec_parse_file_read(l@) == Ok::<IntentView, ParseError>(intent@),
                Err(e) => spec_parse_file_read(l@) == Err::<IntentView, ParseError>(e),
            },
    {
        match token_after(l, "file ".as_bytes()) {
            Some(tok) => Ok(CommandIntent::File(FileOperation::Read { path: tok })),
            None => Err(ParseError::NoFilename),
        }
    }

    fn parse_process_start(&self, l: &[u8]) -> (r: Result<CommandIntent, ParseError>)
        ensures
            match r {
                Ok(intent) => spec_parse_process_start(l@) == Ok::<IntentView, ParseError>(
                    intent@,
                ),
                Err(e) => spec_parse_process_start(l@) == Err::<IntentView, ParseError>(e),
            },
    {
        let name = last_token(l);
        if name.len() == 0 {
            Err(ParseError::NoProgramName)
        } else {
            Ok(CommandIntent::Process(ProcessOperation::Start { name }))
        }
    }

    fn parse_network_ping(&self, l: &[u8]) -> (r: Result<CommandIntent, ParseError>)
        ensures
            match r {
                Ok(intent) => spec_parse_network_ping(l@) == Ok::<IntentView, ParseError>(
                    intent@,
                ),
                Err(e) => spec_parse_network_ping(l@) == Err::<IntentView, ParseError>(e),
            },
    {
        let host = last_token(l);
        let host = if host.len() == 0 {
            let mut h: Vec<u8> = Vec::new();
            h.push(108);
            h.push(111);
            h.push(99);
            h.push(97);
            h.push(108);
            h.push(104);
            h.push(111);
            h.push(115);
            h.push(116);
            proof {
                assert(h@ =~= spec_localhost());
            }
            h
        } else {
            host
        };
        Ok(CommandIntent::Network(NetworkOperation::Ping { host }))
    }

    fn parse_text_type(&self, l: &[u8]) -> (r: Result<CommandIntent, ParseError>)
        ensures
            match r {
                Ok(intent) => spec_parse_text_type(l@) == Ok::<IntentView, ParseError>(intent@),
                Err(e) => spec_parse_text_type(l@) == Err::<IntentView, ParseError>(e),
            },
    {
        let marker = "type ".as_bytes();
        match find_sub(l, marker) {
            Some(i) => {
                proof {
                    crate::text::lemma_find_some(l@, marker@, 0, i as int);
                }
                let n = l.len();
                let tail = crate::text::sub_bytes(l, i + marker.len(), n);
                let t = trim_byte(trim_byte(trim_bytes(tail.as_slice()).as_slice(), 39).as_slice(), 34);
                if t.len() == 0 {
                    Err(ParseError::NoText)
                } else {
                    Ok(CommandIntent::Text(TextOperation::Type { text: t }))
                }
            },
            None => Err(ParseError::NoText),
        }
    }
}

impl Default for CommandParser {
    fn default() -> (r: CommandParser)
        ensures
            r.whitelist_view().len() == 15,
    {
        CommandParser::new()
    }
}

/// The first token after the first occurrence of a marker, or nothing when
/// the marker is absent or no token follows it.
fn token_after(l: &[u8], marker: &[u8]) -> (r: Option<Vec<u8>>)
    ensures
        match r {
            Some(tok) => spec_token_after(l@, marker@) == Some(tok@),
            None => spec_token_after(l@, marker@) is None,
        },
{
    match find_sub(l, marker) {
        Some(i) => {
            proof {
                crate::text::lemma_find_some(l@, marker@, 0, i as int);
            }
            let n = l.len();
            let tail = crate::text::sub_bytes(l, i + marker.len(), n);
            let tok = first_token(tail.as_slice());
            if tok.len() == 0 {
                None
            } else {
                Some(tok)
            }
        },
        None => None,
    }
}

/// The last token before the first occurrence of a marker and the first
/// token after it.
fn split_around(l: &[u8], marker: &[u8]) -> (r: Option<(Vec<u8>, Vec<u8>)>)
    ensures
        match r {
            Some(pair) => spec_find(l@, marker@) matches Some(i) && pair.0@ == spec_last_token(
                l@.subrange(0, i),
            ) && pair.1@ == spec_first_token(l@.subrange(i + marker@.len(), l@.len() as int)),
            None => spec_find(l@, marker@) is None,
        },
{
    match find_sub(l, marker) {
        Some(i) => {
            proof {
                crate::text::lemma_find_some(l@, marker@, 0, i as int);
            }
            let n = l.len();
            let before = crate::text::sub_bytes(l, 0, i);
            let tail = crate::text::sub_bytes(l, i + marker.len(), n);
            let from = last_token(before.as_slice());
            let to = first_token(tail.as_slice());
            Some((from, to))
        },
        None => None,
    }
}

fn untitled() -> (r: Vec<u8>)
    ensures
        r@ == spec_untitled(),
{
    let mut v: Vec<u8> = Vec::new();
    v.push(117);
    v.push(110);
    v.push(116);
    v.push(105);
    v.push(116);
    v.push(108);
    v.push(101);
    v.push(100);
    v.push(46);
    v.push(116);
    v.push(120);
    v.push(116);
    proof {
        assert(v@ =~= spec_untitled());
    }
    v
}

} // verus!
