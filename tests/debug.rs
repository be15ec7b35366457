use kernel_text::debug::{DebugResource, DebugScheme};

#[test]
fn scheme_is_named_debug() {
    let scheme = DebugScheme::new();
    assert_eq!(scheme.scheme(), "debug");
}

#[test]
fn open_gives_no_pending_command() {
    let mut scheme = DebugScheme::new();
    let res = scheme.open("debug:anything", 3);
    assert!(res.command.is_empty());
}

#[test]
fn path_fits_whole() {
    let res = DebugResource { command: Vec::new() };
    let mut buf = [7u8; 10];
    assert_eq!(res.path(&mut buf), 6);
    assert_eq!(&buf[..6], b"debug:");
    assert_eq!(&buf[6..], &[7, 7, 7, 7]);
}

#[test]
fn path_truncated_to_buffer() {
    let res = DebugResource { command: Vec::new() };
    let mut buf = [0u8; 3];
    assert_eq!(res.path(&mut buf), 3);
    assert_eq!(&buf, b"deb");
    let mut none: [u8; 0] = [];
    assert_eq!(res.path(&mut none), 0);
}

#[test]
fn read_drains_front_of_command() {
    let mut res = DebugResource { command: b"ls -l\n".to_vec() };
    let mut buf = [0u8; 4];
    assert_eq!(res.read(&mut buf), 4);
    assert_eq!(&buf, b"ls -");
    assert_eq!(res.command, b"l\n".to_vec());
    let mut buf = [9u8; 4];
    assert_eq!(res.read(&mut buf), 2);
    assert_eq!(&buf, &[b'l', b'\n', 9, 9]);
    assert!(res.command.is_empty());
    assert_eq!(res.read(&mut buf), 0);
}

#[test]
fn dup_copies_pending_command() {
    let mut res = DebugResource { command: b"help".to_vec() };
    let copy = res.dup();
    let mut buf = [0u8; 2];
    res.read(&mut buf);
    assert_eq!(copy.command, b"help".to_vec());
    assert_eq!(res.command, b"lp".to_vec());
}

#[test]
fn needs_command_only_when_drained() {
    let mut res = DebugResource { command: b"ab".to_vec() };
    assert!(!res.needs_command());
    let mut buf = [0u8; 8];
    res.read(&mut buf);
    assert!(res.needs_command());
}

#[test]
fn sync_succeeds_and_keeps_state() {
    let mut res = DebugResource { command: b"ab".to_vec() };
    assert!(res.sync().is_ok());
    assert_eq!(res.command, b"ab".to_vec());
}
