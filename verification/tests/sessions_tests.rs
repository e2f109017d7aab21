use docker_native_manager::sessions::TerminalSessions;

#[test]
fn lookup_gives_back_what_was_stored() {
    let mut m: TerminalSessions<u32> = TerminalSessions::new();
    m.insert("a".to_string(), 1);
    m.insert("b".to_string(), 2);
    m.insert("a".to_string(), 3);
    assert_eq!(m.get(&"a".to_string()), Some(&3));
    assert_eq!(m.get(&"b".to_string()), Some(&2));
    assert_eq!(m.get(&"c".to_string()), None);
}

#[test]
fn removed_session_refuses_input() {
    let mut m: TerminalSessions<u32> = TerminalSessions::new();
    m.insert("a".to_string(), 1);
    m.insert("b".to_string(), 2);
    m.remove(&"a".to_string());
    assert_eq!(m.get(&"a".to_string()), None);
    assert_eq!(m.get(&"b".to_string()), Some(&2));
    match m.session_for(&"a".to_string()) {
        Err(e) => assert_eq!(e, "No active terminal session for this container"),
        Ok(_) => panic!("session should be closed"),
    }
    assert_eq!(*m.session_for(&"b".to_string()).unwrap(), 2);
    m.remove(&"zzz".to_string());
    assert_eq!(m.get(&"b".to_string()), Some(&2));
}
