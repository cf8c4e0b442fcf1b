use helios::ipc::ack_reply;
use helios::ipc::cli_payload;
use helios::ipc::new_task;
use helios::ipc::parse_command;
use helios::ipc::read_command;
use helios::ipc::message_text;
use helios::ipc::task_for;
use helios::ipc::IpcRequest;

fn request(compiler: &str, source: &str) -> IpcRequest {
    IpcRequest { compiler: compiler.to_string(), source_file: source.to_string() }
}

#[test]
fn command_names_compiler_and_source() {
    let r = parse_command("rustc C:\\Users\\me\\test.rs").unwrap();
    assert_eq!(r.compiler, "rustc");
    assert_eq!(r.source_file, "C:\\Users\\me\\test.rs");
}

#[test]
fn command_whitespace_is_any_unicode_space() {
    let r = parse_command("  clang++\t\u{3000}main.cpp \n extra words ").unwrap();
    assert_eq!(r.compiler, "clang++");
    assert_eq!(r.source_file, "main.cpp");
}

#[test]
fn short_commands_name_nothing() {
    assert!(parse_command("ping").is_none());
    assert!(parse_command("").is_none());
    assert!(parse_command(" \t ").is_none());
}

#[test]
fn received_bytes_must_be_utf8() {
    let r = read_command(b"gcc hello.c").unwrap();
    assert_eq!(r.compiler, "gcc");
    assert_eq!(r.source_file, "hello.c");
    assert!(read_command(b"gcc \xff hello.c").is_none());
}

#[test]
fn ack_text() {
    assert_eq!(ack_reply(), "ACK: Task queued!");
}

#[test]
fn cli_sends_ping_or_joined_args() {
    assert_eq!(cli_payload(&vec![]), "ping");
    assert_eq!(cli_payload(&vec!["rustc".to_string()]), "rustc");
    assert_eq!(
        cli_payload(&vec!["rustc".to_string(), "a.rs".to_string(), "-O".to_string()]),
        "rustc a.rs -O"
    );
}

#[test]
fn cli_request_round_trip() {
    let args = vec!["clang++".to_string(), "/tmp/x y.cpp".to_string()];
    let payload = cli_payload(&args);
    let r = read_command(payload.as_bytes()).unwrap();
    assert_eq!(r.compiler, "clang++");
    assert_eq!(r.source_file, "/tmp/x");
    let args = vec!["rustc".to_string(), "main.rs".to_string(), "--edition".to_string()];
    let r = read_command(cli_payload(&args).as_bytes()).unwrap();
    assert_eq!(r.compiler, "rustc");
    assert_eq!(r.source_file, "main.rs");
}

#[test]
fn reply_is_shown_as_text() {
    assert_eq!(message_text(b"ACK: Task queued!"), "ACK: Task queued!");
    assert_eq!(message_text(b"\xc3"), "");
}

#[test]
fn task_carries_request() {
    let t = task_for(request("rustc", "a.rs"), vec![7, 8], "id-1".to_string());
    assert_eq!(t.task_id, "id-1");
    assert_eq!(t.source_filename, "a.rs");
    assert_eq!(t.source_content, vec![7, 8]);
    assert!(t.compiler_flags.is_empty());
    assert_eq!(t.compiler_version, "rustc");
    assert_eq!(t.target_triple, "");
    assert!(t.env_vars.is_empty());
}

#[test]
fn new_task_gets_random_uuid() {
    let a = new_task(request("gcc", "b.c"), vec![1]);
    let b = new_task(request("gcc", "b.c"), vec![1]);
    for t in [&a, &b] {
        let id: Vec<char> = t.task_id.chars().collect();
        assert_eq!(id.len(), 36);
        for (i, c) in id.iter().enumerate() {
            if i == 8 || i == 13 || i == 18 || i == 23 {
                assert_eq!(*c, '-');
            } else {
                assert!(c.is_ascii_digit() || ('a'..='f').contains(c));
            }
        }
        assert_eq!(id[14], '4');
        assert!(['8', '9', 'a', 'b'].contains(&id[19]));
        assert_eq!(t.source_filename, "b.c");
        assert_eq!(t.compiler_version, "gcc");
    }
    assert_ne!(a.task_id, b.task_id);
}
