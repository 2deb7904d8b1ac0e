use pico_os::commands::{CommandRegistry, CommandResult, Context};
use pico_os::flash::FlashStore;
use pico_os::shell::{render_result, LineEvent, Shell};
use pico_os::{Error, MAX_COMMAND_LENGTH};

fn feed(shell: &mut Shell, bytes: &[u8]) -> Vec<Vec<u8>> {
    let mut lines = Vec::new();
    for &b in bytes {
        if let LineEvent::Line(l) = shell.process_byte(b) {
            lines.push(l);
        }
    }
    lines
}

#[test]
fn backspace_on_empty_line_is_noop() {
    let mut shell = Shell::new();
    assert!(matches!(shell.process_byte(0x08), LineEvent::Nothing));
    assert!(matches!(shell.process_byte(0x7f), LineEvent::Nothing));
    assert_eq!(shell.position(), 0);
    assert_eq!(feed(&mut shell, b"ok\r"), vec![b"ok".to_vec()]);
}

#[test]
fn backspace_drops_last_byte() {
    let mut shell = Shell::new();
    feed(&mut shell, b"helx");
    assert!(matches!(shell.process_byte(0x7f), LineEvent::Erase));
    assert_eq!(shell.position(), 3);
    assert_eq!(feed(&mut shell, b"p\n"), vec![b"help".to_vec()]);
}

#[test]
fn long_line_is_truncated_and_dispatched() {
    let mut shell = Shell::new();
    let long = vec![b'a'; MAX_COMMAND_LENGTH + 20];
    assert!(feed(&mut shell, &long).is_empty());
    assert_eq!(shell.position(), MAX_COMMAND_LENGTH);
    assert_eq!(feed(&mut shell, b"\r"), vec![vec![b'a'; MAX_COMMAND_LENGTH]]);
    assert_eq!(shell.position(), 0);
}

#[test]
fn terminator_on_empty_line_dispatches_nothing() {
    let mut shell = Shell::new();
    assert!(feed(&mut shell, b"\r\n\r").is_empty());
    assert_eq!(feed(&mut shell, b"echo hi\r\n"), vec![b"echo hi".to_vec()]);
}

#[test]
fn non_printable_bytes_are_ignored() {
    let mut shell = Shell::new();
    assert_eq!(feed(&mut shell, b"ec\x01ho\x1b \xffx\r"), vec![b"echo x".to_vec()]);
}

#[test]
fn reset_forgets_partial_line() {
    let mut shell = Shell::new();
    feed(&mut shell, b"partial");
    shell.reset();
    assert_eq!(shell.position(), 0);
    assert_eq!(feed(&mut shell, b"x\r"), vec![b"x".to_vec()]);
}

#[test]
fn render_each_result() {
    assert_eq!(render_result(&CommandResult::Idle), Vec::<u8>::new());
    assert_eq!(render_result(&CommandResult::Halt), Vec::<u8>::new());
    assert_eq!(render_result(&CommandResult::Success(None)), b"\r\nOK".to_vec());
    assert_eq!(render_result(&CommandResult::Success(Some(b"a b".to_vec()))), b"\r\na b".to_vec());
    assert_eq!(
        render_result(&CommandResult::Error(Error::UnknownCommand)),
        b"\r\nError: Unknown command".to_vec()
    );
}

#[test]
fn typed_line_runs_command() {
    let mut shell = Shell::new();
    let reg = CommandRegistry::new();
    let mut ctx = Context::new(FlashStore::new());
    let lines = feed(&mut shell, b"echo  a b c\r");
    assert_eq!(lines.len(), 1);
    let out = render_result(&reg.execute_bytes(&lines[0], &mut ctx));
    assert_eq!(out, b"\r\na b c".to_vec());
}
