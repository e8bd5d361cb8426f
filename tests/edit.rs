use fillmem::edit::{EditError, EditState, Line, LogStep, Next, ReadEvent, Session, Step, WinSize};

const CLEAR: &[u8] = b"\r\x1b[0K";

fn editing(prompt: &[u8]) -> Session {
    let mut s = Session::new(prompt);
    let shown = s.begin_line().unwrap();
    assert_eq!(shown, prompt.to_vec());
    s
}

fn feed(s: &mut Session, bytes: &[u8]) {
    for b in bytes {
        s.input_event(ReadEvent::Byte(*b));
    }
}

/// Runs turns until one waits or finishes; returns everything written and
/// the last step.
fn run(s: &mut Session) -> (Vec<u8>, Step) {
    let mut written = Vec::new();
    loop {
        let st = s.poll(false);
        written.extend_from_slice(&st.out);
        match st.next {
            Next::Again => continue,
            _ => return (written, st),
        }
    }
}

fn interleaved(prompt: &[u8], buffer: &[u8], msg: &[u8]) -> Vec<u8> {
    let mut v = CLEAR.to_vec();
    v.extend_from_slice(msg);
    v.extend_from_slice(b"\r\n");
    v.extend_from_slice(CLEAR);
    v.extend_from_slice(prompt);
    v.extend_from_slice(buffer);
    v
}

#[test]
fn grow_command_line() {
    let mut s = editing(b"fillmem> ");
    feed(&mut s, b"grow 5\r");
    let (written, st) = run(&mut s);
    assert_eq!(written, b"grow 5\r\n".to_vec());
    match st.next {
        Next::Done(Line::Line(text)) => assert_eq!(text, "grow 5"),
        other => panic!("unexpected {:?}", other),
    }
    assert_eq!(s.state(), EditState::Rest);
    assert!(s.buffer().is_empty());
    let megs: usize = 5;
    assert_eq!(megs * 1024 * 1024, 5_242_880);
}

#[test]
fn next_line_starts_after_submit() {
    let mut s = editing(b"> ");
    feed(&mut s, b"a\rb");
    let (_, st) = run(&mut s);
    assert!(matches!(st.next, Next::Done(Line::Line(_))));
    assert_eq!(s.begin_line().unwrap(), b"> ".to_vec());
    let (written, st) = run(&mut s);
    assert_eq!(written, b"b".to_vec());
    assert!(matches!(st.next, Next::Wait));
    assert_eq!(s.buffer(), b"b");
}

#[test]
fn interrupt_key_ends_session() {
    let mut s = editing(b"> ");
    feed(&mut s, b"abc");
    s.input_event(ReadEvent::Byte(0x03));
    feed(&mut s, b"d");
    let st = s.poll(false);
    assert!(st.out.is_empty());
    assert!(matches!(st.next, Next::Done(Line::End)));
    assert!(s.cleanup());
    assert_eq!(s.state(), EditState::CleanedUp);
    assert!(!s.take_ctrlc());
}

#[test]
fn end_of_text_key_ends_session() {
    let mut s = editing(b"> ");
    feed(&mut s, b"ab");
    let (_, st) = run(&mut s);
    assert!(matches!(st.next, Next::Wait));
    let mut t = editing(b"> ");
    feed(&mut t, &[b'x', 0x04]);
    let (written, st) = run(&mut t);
    assert_eq!(written, b"x".to_vec());
    assert!(matches!(st.next, Next::Done(Line::End)));
    assert!(t.cleanup());
    assert_eq!(t.state(), EditState::CleanedUp);
}

#[test]
fn interrupt_drops_queued_keys() {
    let mut s = editing(b"> ");
    feed(&mut s, b"xyz");
    s.input_event(ReadEvent::Byte(0x03));
    assert!(s.take_ctrlc());
    assert!(!s.take_ctrlc());
    let st = s.poll(false);
    assert!(matches!(st.next, Next::Wait));
    assert!(s.buffer().is_empty());
}

#[test]
fn sigterm_ends_session() {
    let mut s = editing(b"> ");
    feed(&mut s, b"abc");
    let st = s.poll(true);
    assert!(matches!(st.next, Next::Done(Line::End)));
    assert!(s.cleanup());
    assert!(!s.cleanup());
    assert!(!s.cleanup());
}

#[test]
fn end_of_input_ends_session() {
    let mut s = editing(b"> ");
    s.input_event(ReadEvent::Closed);
    let st = s.poll(false);
    assert!(matches!(st.next, Next::Done(Line::End)));
}

#[test]
fn interrupted_read_is_retried() {
    let mut s = editing(b"> ");
    s.input_event(ReadEvent::Interrupted);
    feed(&mut s, b"q");
    let st = s.poll(false);
    assert!(st.out.is_empty());
    assert!(matches!(st.next, Next::Again));
    let (written, st) = run(&mut s);
    assert_eq!(written, b"q".to_vec());
    assert!(matches!(st.next, Next::Wait));
}

#[test]
fn printable_keys_fill_buffer_up_to_cap() {
    let mut s = editing(b"> ");
    let keys: Vec<u8> = (0..70).map(|i| b'a' + (i % 26) as u8).collect();
    feed(&mut s, &keys);
    let (written, st) = run(&mut s);
    assert!(matches!(st.next, Next::Wait));
    assert_eq!(s.buffer(), &keys[..60]);
    assert_eq!(written, keys[..60].to_vec());
}

#[test]
fn backspace_on_empty_buffer_is_noop() {
    let mut s = editing(b"> ");
    feed(&mut s, &[0x7f]);
    let st = s.poll(false);
    assert!(st.out.is_empty());
    assert!(matches!(st.next, Next::Again));
    assert!(s.buffer().is_empty());
}

#[test]
fn backspace_erases_last_char() {
    let mut s = editing(b"> ");
    feed(&mut s, &[b'a', b'b', 0x7f]);
    let (written, _) = run(&mut s);
    assert_eq!(written, b"ab\x08 \x08".to_vec());
    assert_eq!(s.buffer(), b"a");
}

#[test]
fn ctrl_u_clears_and_redraws() {
    let mut s = editing(b"> ");
    feed(&mut s, &[b'a', b'b', 0x15]);
    let (written, _) = run(&mut s);
    assert_eq!(written, b"ab\r\x1b[0K> ".to_vec());
    assert!(s.buffer().is_empty());
}

#[test]
fn unknown_control_byte_is_reported() {
    let mut s = editing(b"> ");
    feed(&mut s, &[b'a', 0x01]);
    let (written, _) = run(&mut s);
    let mut expect = b"a".to_vec();
    expect.extend(interleaved(b"> ", b"a", b"unknown b: 1"));
    expect.push(0x07);
    assert_eq!(written, expect);

    let mut t = editing(b"> ");
    feed(&mut t, &[0x1b]);
    let (written, _) = run(&mut t);
    let mut expect = interleaved(b"> ", b"", b"unknown b: 27");
    expect.push(0x07);
    assert_eq!(written, expect);

    let mut u = editing(b"> ");
    feed(&mut u, &[0xff]);
    let (written, _) = run(&mut u);
    let mut expect = interleaved(b"> ", b"", b"unknown b: 255");
    expect.push(0x07);
    assert_eq!(written, expect);
}

#[test]
fn log_at_rest_is_emitted_once() {
    let mut s = Session::new(b"> ");
    match s.log(b"hello") {
        LogStep::Emit(out) => assert_eq!(out, b"hello\r\n".to_vec()),
        other => panic!("unexpected {:?}", other),
    }
    s.begin_line().unwrap();
    let (written, _) = run(&mut s);
    assert!(written.is_empty());
}

#[test]
fn log_while_editing_redraws_prompt() {
    let mut s = editing(b"fillmem> ");
    feed(&mut s, b"gr");
    run(&mut s);
    assert!(matches!(s.log(b"stats"), LogStep::Deposited));
    let st = s.poll(false);
    assert!(matches!(st.next, Next::Again));
    assert_eq!(st.out, interleaved(b"fillmem> ", b"gr", b"stats"));
    assert_eq!(s.buffer(), b"gr");
}

#[test]
fn two_logs_during_edit_keep_order() {
    let mut s = editing(b"> ");
    feed(&mut s, b"ab");
    run(&mut s);
    assert!(matches!(s.log(b"first"), LogStep::Deposited));
    assert!(matches!(s.log(b"second"), LogStep::Wait));
    let st = s.poll(false);
    assert_eq!(st.out, interleaved(b"> ", b"ab", b"first"));
    assert!(matches!(s.log(b"second"), LogStep::Deposited));
    let st = s.poll(false);
    assert_eq!(st.out, interleaved(b"> ", b"ab", b"second"));
    let st = s.poll(false);
    assert!(matches!(st.next, Next::Wait));
}

#[test]
fn log_after_cleanup_prints_plainly() {
    let mut s = Session::new(b"> ");
    assert!(s.cleanup());
    assert!(matches!(s.log(b"bye"), LogStep::Print));
}

#[test]
fn second_editor_is_refused() {
    let mut s = editing(b"> ");
    assert_eq!(s.begin_line(), Err(EditError::Busy));
    s.cleanup();
    assert_eq!(s.begin_line(), Err(EditError::CleanedUp));
}

#[test]
fn poll_after_cleanup_ends() {
    let mut s = editing(b"> ");
    assert!(s.cleanup());
    feed(&mut s, b"x\r");
    let st = s.poll(false);
    assert!(matches!(st.next, Next::Done(Line::End)));
    assert_eq!(s.state(), EditState::CleanedUp);
}

#[test]
fn window_size_holds_dimensions() {
    let w = WinSize::new(24, 80);
    assert_eq!(w.rows(), 24);
    assert_eq!(w.cols(), 80);
}
