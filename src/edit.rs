//! The editing state machine: one prompt line, a bounded edit buffer, an
//! input queue fed by a reader thread, and a one-slot mailbox for log lines
//! that arrive while a line is being edited.
//!
//! Each method makes one decision under the caller's lock and hands back the
//! bytes to write; the caller owns the terminal, the lock and the waiting.

use vstd::prelude::*;

verus! {

/// The longest line the buffer holds.
pub const BUFFER_CAP: usize = 60;

pub const KEY_CTRL_C: u8 = 0x03;
pub const KEY_CTRL_D: u8 = 0x04;
pub const KEY_RETURN: u8 = 0x0d;
pub const KEY_CTRL_U: u8 = 0x15;
pub const KEY_BACKSPACE: u8 = 0x7f;

/// A byte that is echoed and kept: space and the visible ASCII characters.
pub open spec fn is_printable(b: u8) -> bool {
    0x20 <= b && b <= 0x7e
}

/// Carriage return, then erase to the end of the line.
pub open spec fn clear_line() -> Seq<u8> {
    seq![13u8, 27u8, 91u8, 48u8, 75u8]
}

pub open spec fn crlf() -> Seq<u8> {
    seq![13u8, 10u8]
}

/// Step back, overwrite with a space, step back again.
pub open spec fn rubout() -> Seq<u8> {
    seq![8u8, 32u8, 8u8]
}

pub open spec fn bell() -> Seq<u8> {
    seq![7u8]
}

/// What is on screen after a redraw: the prompt and the buffer on a clean line.
pub open spec fn redraw(prompt: Seq<u8>, buffer: Seq<u8>) -> Seq<u8> {
    clear_line() + prompt + buffer
}

/// A log line slipped in above the prompt, which is then drawn again.
pub open spec fn interleave(prompt: Seq<u8>, buffer: Seq<u8>, msg: Seq<u8>) -> Seq<u8> {
    clear_line() + msg + crlf() + redraw(prompt, buffer)
}

/// The ASCII decimal digits of `n`.
pub open spec fn decimal(n: nat) -> Seq<u8>
    decreases n,
{
    if n < 10 {
        seq![(48 + n) as u8]
    } else {
        decimal(n / 10).push((48 + n % 10) as u8)
    }
}

/// The report for a control byte that has no meaning here: `unknown b: <n>`.
pub open spec fn unknown_byte_message(b: u8) -> Seq<u8> {
    seq![117u8, 110u8, 107u8, 110u8, 111u8, 119u8, 110u8, 32u8, 98u8, 58u8, 32u8]
        + decimal(b as nat)
}

/// Bytes below 0x80 read as the characters of the same code points.
pub open spec fn ascii_text(b: Seq<u8>) -> Seq<char> {
    b.map_values(|c: u8| c as char)
}

#[derive(Clone, Copy, PartialEq, Eq, Structural, Debug)]
pub enum EditState {
    /// No caller is reading a line.
    Rest,
    /// A caller is inside a line read.
    Editing,
    /// The terminal was restored; no more interaction.
    CleanedUp,
}

/// The abstract content of a session.
#[verifier::ext_equal]
pub struct SessionView {
    pub state: EditState,
    pub input: Seq<u8>,
    pub eof: bool,
    pub interrupted: bool,
    pub ctrlc: bool,
    pub buffer: Seq<u8>,
    pub prompt: Seq<u8>,
    pub log: Option<Seq<u8>>,
}

/// A session is well formed when the buffer holds at most `BUFFER_CAP`
/// printable bytes and no log waits in the mailbox while nobody edits.
pub open spec fn session_wf(s: SessionView) -> bool {
    &&& s.buffer.len() <= BUFFER_CAP
    &&& forall|i: int| 0 <= i < s.buffer.len() ==> is_printable(#[trigger] s.buffer[i])
    &&& s.state == EditState::Rest ==> s.log is None
}

/// What the reader thread observed.
#[derive(Clone, Copy, PartialEq, Eq, Structural, Debug)]
pub enum ReadEvent {
    Byte(u8),
    Interrupted,
    Closed,
}

/// The reader's effect: an interrupt key drops what is queued and raises the
/// flag instead of being queued; other bytes join the queue. Keys typed
/// between two interrupt presses are dropped as well, never replayed. A read
/// error other than an interrupted call counts as the end of input.
pub open spec fn input_spec(s: SessionView, ev: ReadEvent) -> SessionView {
    match ev {
        ReadEvent::Byte(b) => if b == KEY_CTRL_C {
            SessionView { ctrlc: true, input: Seq::empty(), ..s }
        } else {
            SessionView { input: s.input.push(b), ..s }
        },
        ReadEvent::Interrupted => SessionView { interrupted: true, ..s },
        ReadEvent::Closed => SessionView { eof: true, ..s },
    }
}


/// How one turn of the line loop ends.
pub enum Outcome {
    /// Something was handled; look again at once.
    Again,
    /// Nothing to do: wait for a wake-up or the poll timeout.
    Wait,
    /// The line is complete.
    Submit(Seq<u8>),
    /// The session ends: the terminal is to be restored.
    End,
}

/// The buffer after one key, while editing.
pub open spec fn key_buffer(buffer: Seq<u8>, b: u8) -> Seq<u8> {
    if is_printable(b) {
        if buffer.len() < BUFFER_CAP {
            buffer.push(b)
        } else {
            buffer
        }
    } else if b == KEY_RETURN || b == KEY_CTRL_U {
        Seq::empty()
    } else if b == KEY_BACKSPACE && buffer.len() > 0 {
        buffer.drop_last()
    } else {
        buffer
    }
}

/// One key while editing: the new session, what is written, how the turn ends.
pub open spec fn key_spec(s: SessionView, b: u8) -> (SessionView, Seq<u8>, Outcome) {
    let t = SessionView { buffer: key_buffer(s.buffer, b), ..s };
    if is_printable(b) {
        if s.buffer.len() < BUFFER_CAP {
            (t, seq![b], Outcome::Again)
        } else {
            (t, Seq::empty(), Outcome::Again)
        }
    } else if b == KEY_CTRL_C || b == KEY_CTRL_D {
        (t, Seq::empty(), Outcome::End)
    } else if b == KEY_RETURN {
        (SessionView { state: EditState::Rest, ..t }, crlf(), Outcome::Submit(s.buffer))
    } else if b == KEY_BACKSPACE {
        if s.buffer.len() > 0 {
            (t, rubout(), Outcome::Again)
        } else {
            (t, Seq::empty(), Outcome::Again)
        }
    } else if b == KEY_CTRL_U {
        (t, redraw(s.prompt, Seq::empty()), Outcome::Again)
    } else {
        (t, interleave(s.prompt, s.buffer, unknown_byte_message(b)) + bell(), Outcome::Again)
    }
}

/// One turn of the line loop, given whether termination was requested.
/// The checks come in a fixed order: termination, interrupt key, retry hint,
/// end of input, a pending log line, then the next queued key.
pub open spec fn poll_spec(s: SessionView, sigterm: bool) -> (SessionView, Seq<u8>, Outcome) {
    if s.state != EditState::Editing || sigterm {
        (s, Seq::empty(), Outcome::End)
    } else if s.ctrlc {
        (SessionView { ctrlc: false, ..s }, Seq::empty(), Outcome::End)
    } else if s.interrupted {
        (SessionView { interrupted: false, ..s }, Seq::empty(), Outcome::Again)
    } else if s.eof {
        (s, Seq::empty(), Outcome::End)
    } else if s.log is Some {
        (SessionView { log: None, ..s }, interleave(s.prompt, s.buffer, s.log->0), Outcome::Again)
    } else if s.input.len() == 0 {
        (s, Seq::empty(), Outcome::Wait)
    } else {
        key_spec(SessionView { input: s.input.drop_first(), ..s }, s.input[0])
    }
}

/// What a `log` call is told to do.
pub enum LogOutcome {
    /// Nobody edits: write these bytes now.
    Emit(Seq<u8>),
    /// The terminal is restored: print the message plainly.
    Print,
    /// The mailbox is full: wait until it drains, then ask again.
    Wait,
    /// The message is in the mailbox; the editing loop draws it.
    Deposited,
}

pub open spec fn log_spec(s: SessionView, msg: Seq<u8>) -> (SessionView, LogOutcome) {
    match s.state {
        EditState::Rest => (s, LogOutcome::Emit(msg + crlf())),
        EditState::CleanedUp => (s, LogOutcome::Print),
        EditState::Editing => if s.log is Some {
            (s, LogOutcome::Wait)
        } else {
            (SessionView { log: Some(msg), ..s }, LogOutcome::Deposited)
        },
    }
}

/// Starting a line read: only from `Rest`.
pub open spec fn begin_spec(s: SessionView) -> SessionView {
    if s.state == EditState::Rest {
        SessionView { state: EditState::Editing, buffer: Seq::empty(), ..s }
    } else {
        s
    }
}

/// Reports and clears the interrupt flag.
pub open spec fn take_ctrlc_spec(s: SessionView) -> (SessionView, bool) {
    (SessionView { ctrlc: false, ..s }, s.ctrlc)
}

/// Teardown: the terminal is restored only on the first call.
pub open spec fn cleanup_spec(s: SessionView) -> (SessionView, bool) {
    (SessionView { state: EditState::CleanedUp, ..s }, s.state != EditState::CleanedUp)
}

/// A finished line read.
#[derive(Debug)]
pub enum Line {
    Line(String),
    End,
}

/// How an exec turn of the line loop ends.
#[derive(Debug)]
pub enum Next {
    Again,
    Wait,
    Done(Line),
}

/// One turn of the line loop: the bytes to write, then what to do.
#[derive(Debug)]
pub struct Step {
    pub out: Vec<u8>,
    pub next: Next,
}

pub open spec fn step_is(st: Step, out: Seq<u8>, o: Outcome) -> bool {
    &&& st.out@ == out
    &&& match o {
        Outcome::Again => st.next is Again,
        Outcome::Wait => st.next is Wait,
        Outcome::Submit(b) => match st.next {
            Next::Done(Line::Line(text)) => text@ == ascii_text(b),
            _ => false,
        },
        Outcome::End => match st.next {
            Next::Done(Line::End) => true,
            _ => false,
        },
    }
}

/// What a `log` call is to do.
#[derive(Debug)]
pub enum LogStep {
    Emit(Vec<u8>),
    Print,
    Wait,
    Deposited,
}

pub open spec fn log_step_is(st: LogStep, o: LogOutcome) -> bool {
    match o {
        LogOutcome::Emit(bytes) => match st {
            LogStep::Emit(out) => out@ == bytes,
            _ => false,
        },
        LogOutcome::Print => st is Print,
        LogOutcome::Wait => st is Wait,
        LogOutcome::Deposited => st is Deposited,
    }
}

/// Why a line read could not start.
#[derive(Clone, Copy, PartialEq, Eq, Structural, Debug)]
pub enum EditError {
    /// Another caller is already editing.
    Busy,
    /// The terminal was restored already.
    CleanedUp,
}

/// Relies on String::from_utf8: ASCII bytes are valid UTF-8 and decode one
/// byte to one character of the same code point.
#[verifier::external_body]
fn text_of(b: Vec<u8>) -> (r: String)
    requires
        forall|i: int| 0 <= i < b@.len() ==> b@[i] < 128,
    ensures
        r@ == ascii_text(b@),
{
    match String::from_utf8(b) {
        Ok(s) => s,
        Err(_) => String::new(),
    }
}

fn copy_bytes(src: &[u8]) -> (r: Vec<u8>)
    ensures
        r@ == src@,
{
    let mut r: Vec<u8> = Vec::new();
    let mut i: usize = 0;
    while i < src.len()
        invariant
            i <= src@.len(),
            r@ == src@.subrange(0, i as int),
        decreases src@.len() - i,
    {
        r.push(src[i]);
        i = i + 1;
        assert(r@ =~= src@.subrange(0, i as int));
    }
    assert(src@.subrange(0, src@.len() as int) =~= src@);
    r
}

fn append_bytes(out: &mut Vec<u8>, src: &[u8])
    ensures
        final(out)@ == old(out)@ + src@,
{
    let ghost start = out@;
    let mut i: usize = 0;
    while i < src.len()
        invariant
            i <= src@.len(),
            out@ == start + src@.subrange(0, i as int),
        decreases src@.len() - i,
    {
        out.push(src[i]);
        i = i + 1;
        assert(out@ =~= start + src@.subrange(0, i as int));
    }
    assert(src@.subrange(0, src@.len() as int) =~= src@);
}

fn clear_line_bytes() -> (r: Vec<u8>)
    ensures
        r@ == clear_line(),
{
    let r: Vec<u8> = vec![13u8, 27u8, 91u8, 48u8, 75u8];
    assert(r@ =~= clear_line());
    r
}

fn crlf_bytes() -> (r: Vec<u8>)
    ensures
        r@ == crlf(),
{
    let r: Vec<u8> = vec![13u8, 10u8];
    assert(r@ =~= crlf());
    r
}

fn redraw_bytes(prompt: &[u8], buffer: &[u8]) -> (r: Vec<u8>)
    ensures
        r@ == redraw(prompt@, buffer@),
{
    let mut r = clear_line_bytes();
    append_bytes(&mut r, prompt);
    append_bytes(&mut r, buffer);
    r
}

fn interleave_bytes(prompt: &[u8], buffer: &[u8], msg: &[u8]) -> (r: Vec<u8>)
    ensures
        r@ == interleave(prompt@, buffer@, msg@),
{
    let mut r = clear_line_bytes();
    append_bytes(&mut r, msg);
    let nl = crlf_bytes();
    append_bytes(&mut r, nl.as_slice());
    let tail = redraw_bytes(prompt, buffer);
    append_bytes(&mut r, tail.as_slice());
    assert(r@ =~= interleave(prompt@, buffer@, msg@));
    r
}

fn decimal_bytes(n: u8) -> (r: Vec<u8>)
    ensures
        r@ == decimal(n as nat),
{
    if n < 10 {
        let r: Vec<u8> = vec![48u8 + n];
        assert(r@ =~= decimal(n as nat));
        r
    } else if n < 100 {
        let r: Vec<u8> = vec![48u8 + n / 10, 48u8 + n % 10];
        assert(decimal((n / 10) as nat) =~= seq![(48 + n / 10) as u8]);
        assert(r@ =~= decimal(n as nat));
        r
    } else {
        let r: Vec<u8> = vec![48u8 + n / 100, 48u8 + (n / 10) % 10, 48u8 + n % 10];
        assert((n / 10) / 10 == n / 100);
        assert(decimal((n / 100) as nat) =~= seq![(48 + n / 100) as u8]);
        assert(decimal((n / 10) as nat) =~= seq![(48 + n / 100) as u8, (48 + (n / 10) % 10) as u8]);
        assert(r@ =~= decimal(n as nat));
        r
    }
}

fn unknown_byte_bytes(b: u8) -> (r: Vec<u8>)
    ensures
        r@ == unknown_byte_message(b),
{
    let mut r: Vec<u8> = vec![117u8, 110u8, 107u8, 110u8, 111u8, 119u8, 110u8, 32u8, 98u8, 58u8, 32u8];
    let d = decimal_bytes(b);
    append_bytes(&mut r, d.as_slice());
    assert(r@ =~= unknown_byte_message(b));
    r
}

/// The shared editing state; one lock guards all of it.
pub struct Session {
    state: EditState,
    input: Vec<u8>,
    eof: bool,
    interrupted: bool,
    ctrlc: bool,
    buffer: Vec<u8>,
    prompt: Vec<u8>,
    log: Option<Vec<u8>>,
}

impl View for Session {
    type V = SessionView;

    closed spec fn view(&self) -> SessionView {
        SessionView {
            state: self.state,
            input: self.input@,
            eof: self.eof,
            interrupted: self.interrupted,
            ctrlc: self.ctrlc,
            buffer: self.buffer@,
            prompt: self.prompt@,
            log: match self.log {
                Some(m) => Some(m@),
                None => None,
            },
        }
    }
}

impl Session {
    pub open spec fn wf(&self) -> bool {
        session_wf(self@)
    }

    /// A session at rest with the given prompt and nothing queued.
    pub fn new(prompt: &[u8]) -> (r: Session)
        ensures
            r.wf(),
            r@ == (SessionView {
                state: EditState::Rest,
                input: Seq::empty(),
                eof: false,
                interrupted: false,
                ctrlc: false,
                buffer: Seq::empty(),
                prompt: prompt@,
                log: None,
            }),
    {
        Session {
            state: EditState::Rest,
            input: Vec::new(),
            eof: false,
            interrupted: false,
            ctrlc: false,
            buffer: Vec::new(),
            prompt: copy_bytes(prompt),
            log: None,
        }
    }

    pub fn state(&self) -> (r: EditState)
        ensures
            r == self@.state,
    {
        self.state
    }

    /// The line typed so far.
    pub fn buffer(&self) -> (r: &[u8])
        ensures
            r@ == self@.buffer,
    {
        self.buffer.as_slice()
    }

    /// Records what the reader thread saw.
    pub fn input_event(&mut self, ev: ReadEvent)
        requires
            old(self).wf(),
        ensures
            final(self).wf(),
            final(self)@ == input_spec(old(self)@, ev),
    {
        match ev {
            ReadEvent::Byte(b) => {
                if b == KEY_CTRL_C {
                    self.ctrlc = true;
                    self.input.clear();
                } else {
                    self.input.push(b);
                }
            },
            ReadEvent::Interrupted => {
                self.interrupted = true;
            },
            ReadEvent::Closed => {
                self.eof = true;
            },
        }
    }

    /// Starts a line read: clears the buffer, enters `Editing` and returns
    /// the prompt to draw.
    pub fn begin_line(&mut self) -> (r: Result<Vec<u8>, EditError>)
        requires
            old(self).wf(),
        ensures
            final(self).wf(),
            final(self)@ == begin_spec(old(self)@),
            old(self)@.state == EditState::Rest ==> r is Ok && r->Ok_0@ == old(self)@.prompt,
            old(self)@.state == EditState::Editing ==> r == Err::<Vec<u8>, EditError>(EditError::Busy),
            old(self)@.state == EditState::CleanedUp ==> r == Err::<Vec<u8>, EditError>(EditError::CleanedUp),
    {
        match self.state {
            EditState::Rest => {
                self.buffer.clear();
                self.state = EditState::Editing;
                Ok(copy_bytes(self.prompt.as_slice()))
            },
            EditState::Editing => Err(EditError::Busy),
            EditState::CleanedUp => Err(EditError::CleanedUp),
        }
    }

    /// Handles one key taken from the queue.
    fn key(&mut self, b: u8) -> (r: Step)
        requires
            old(self).wf(),
            old(self)@.state == EditState::Editing,
            old(self)@.log is None,
        ensures
            final(self).wf(),
            final(self)@ == key_spec(old(self)@, b).0,
            step_is(r, key_spec(old(self)@, b).1, key_spec(old(self)@, b).2),
    {
        if 0x20 <= b && b <= 0x7e {
            if self.buffer.len() < BUFFER_CAP {
                self.buffer.push(b);
                let out: Vec<u8> = vec![b];
                assert(out@ =~= seq![b]);
                Step { out, next: Next::Again }
            } else {
                Step { out: Vec::new(), next: Next::Again }
            }
        } else if b == KEY_CTRL_C || b == KEY_CTRL_D {
            Step { out: Vec::new(), next: Next::Done(Line::End) }
        } else if b == KEY_RETURN {
            self.state = EditState::Rest;
            let text = copy_bytes(self.buffer.as_slice());
            self.buffer.clear();
            Step { out: crlf_bytes(), next: Next::Done(Line::Line(text_of(text))) }
        } else if b == KEY_BACKSPACE {
            if self.buffer.len() > 0 {
                self.buffer.pop();
                assert(self.buffer@ =~= old(self)@.buffer.drop_last());
                Step { out: vec![8u8, 32u8, 8u8], next: Next::Again }
            } else {
                Step { out: Vec::new(), next: Next::Again }
            }
        } else if b == KEY_CTRL_U {
            self.buffer.clear();
            let empty: Vec<u8> = Vec::new();
            Step { out: redraw_bytes(self.prompt.as_slice(), empty.as_slice()), next: Next::Again }
        } else {
            let msg = unknown_byte_bytes(b);
            let mut out = interleave_bytes(self.prompt.as_slice(), self.buffer.as_slice(), msg.as_slice());
            out.push(7u8);
            assert(out@ =~= interleave(self.prompt@, self.buffer@, unknown_byte_message(b)) + bell());
            Step { out, next: Next::Again }
        }
    }

    /// One turn of the line loop. `sigterm` tells whether termination was
    /// requested. On `Done(Line::End)` the caller restores the terminal.
    pub fn poll(&mut self, sigterm: bool) -> (r: Step)
        requires
            old(self).wf(),
        ensures
            final(self).wf(),
            final(self)@ == poll_spec(old(self)@, sigterm).0,
            step_is(r, poll_spec(old(self)@, sigterm).1, poll_spec(old(self)@, sigterm).2),
    {
        if self.state != EditState::Editing || sigterm {
            return Step { out: Vec::new(), next: Next::Done(Line::End) };
        }
        if self.ctrlc {
            self.ctrlc = false;
            return Step { out: Vec::new(), next: Next::Done(Line::End) };
        }
        if self.interrupted {
            self.interrupted = false;
            return Step { out: Vec::new(), next: Next::Again };
        }
        if self.eof {
            return Step { out: Vec::new(), next: Next::Done(Line::End) };
        }
        let out = match &self.log {
            Some(m) => Some(interleave_bytes(self.prompt.as_slice(), self.buffer.as_slice(), m.as_slice())),
            None => None,
        };
        if let Some(out) = out {
            self.log = None;
            return Step { out, next: Next::Again };
        }
        if self.input.len() == 0 {
            return Step { out: Vec::new(), next: Next::Wait };
        }
        let b = self.input.remove(0);
        assert(self.input@ =~= old(self)@.input.drop_first());
        self.key(b)
    }

    /// Decides what a `log` call does with `msg`.
    pub fn log(&mut self, msg: &[u8]) -> (r: LogStep)
        requires
            old(self).wf(),
        ensures
            final(self).wf(),
            final(self)@ == log_spec(old(self)@, msg@).0,
            log_step_is(r, log_spec(old(self)@, msg@).1),
    {
        match self.state {
            EditState::Rest => {
                let mut out = copy_bytes(msg);
                let nl = crlf_bytes();
                append_bytes(&mut out, nl.as_slice());
                LogStep::Emit(out)
            },
            EditState::CleanedUp => LogStep::Print,
            EditState::Editing => {
                if self.log.is_some() {
                    LogStep::Wait
                } else {
                    self.log = Some(copy_bytes(msg));
                    LogStep::Deposited
                }
            },
        }
    }

    /// Reports whether the interrupt key was pressed, and clears the flag.
    pub fn take_ctrlc(&mut self) -> (r: bool)
        requires
            old(self).wf(),
        ensures
            final(self).wf(),
            final(self)@ == take_ctrlc_spec(old(self)@).0,
            r == take_ctrlc_spec(old(self)@).1,
    {
        let r = self.ctrlc;
        self.ctrlc = false;
        r
    }

    /// Enters `CleanedUp`; true when the terminal is still to be restored,
    /// which is so on the first call only.
    pub fn cleanup(&mut self) -> (r: bool)
        requires
            old(self).wf(),
        ensures
            final(self).wf(),
            final(self)@ == cleanup_spec(old(self)@).0,
            r == cleanup_spec(old(self)@).1,
    {
        if self.state == EditState::CleanedUp {
            false
        } else {
            self.state = EditState::CleanedUp;
            true
        }
    }
}

/// The session after `n` turns of the line loop with no termination request.
pub open spec fn polls(s: SessionView, n: nat) -> SessionView
    decreases n,
{
    if n == 0 {
        s
    } else {
        poll_spec(polls(s, (n - 1) as nat), false).0
    }
}

/// `b` cut to at most `BUFFER_CAP` bytes.
pub open spec fn capped(b: Seq<u8>) -> Seq<u8> {
    if b.len() <= BUFFER_CAP {
        b
    } else {
        b.take(BUFFER_CAP as int)
    }
}

proof fn lemma_capped_push(a: Seq<u8>, b: u8)
    ensures
        capped(a).len() < BUFFER_CAP ==> capped(a.push(b)) == capped(a).push(b),
        capped(a).len() >= BUFFER_CAP ==> capped(a.push(b)) == capped(a),
{
    if a.len() < BUFFER_CAP {
        assert(capped(a.push(b)) =~= capped(a).push(b));
    } else {
        assert(capped(a.push(b)) =~= capped(a));
    }
}

proof fn lemma_typing_prefix(s: SessionView, k: nat)
    requires
        session_wf(s),
        s.state == EditState::Editing,
        !s.ctrlc,
        !s.interrupted,
        !s.eof,
        s.log is None,
        forall|i: int| 0 <= i < s.input.len() ==> is_printable(#[trigger] s.input[i]),
        k <= s.input.len(),
    ensures
        polls(s, k) == (SessionView {
            input: s.input.skip(k as int),
            buffer: capped(s.buffer + s.input.take(k as int)),
            ..s
        }),
    decreases k,
{
    if k == 0 {
        assert(capped(s.buffer + s.input.take(0)) =~= s.buffer);
        assert(polls(s, 0) =~= SessionView {
            input: s.input.skip(0),
            buffer: capped(s.buffer + s.input.take(0)),
            ..s
        });
    } else {
        let j = (k - 1) as nat;
        lemma_typing_prefix(s, j);
        let p = polls(s, j);
        let b = s.input[j as int];
        assert(p.input[0] == b);
        lemma_capped_push(s.buffer + s.input.take(j as int), b);
        assert((s.buffer + s.input.take(j as int)).push(b) =~= s.buffer + s.input.take(k as int));
        assert(p.input.drop_first() =~= s.input.skip(k as int));
        assert(polls(s, k) == poll_spec(p, false).0);
        assert(polls(s, k) =~= SessionView {
            input: s.input.skip(k as int),
            buffer: capped(s.buffer + s.input.take(k as int)),
            ..s
        });
    }
}

/// Typing printable keys: once each queued key has had its turn, the buffer
/// holds the earlier content followed by the keys in order, cut at the cap,
/// and the session is still editing with an empty queue.
pub proof fn lemma_typing_fills_buffer(s: SessionView)
    requires
        session_wf(s),
        s.state == EditState::Editing,
        !s.ctrlc,
        !s.interrupted,
        !s.eof,
        s.log is None,
        forall|i: int| 0 <= i < s.input.len() ==> is_printable(#[trigger] s.input[i]),
    ensures
        polls(s, s.input.len()).buffer == capped(s.buffer + s.input),
        polls(s, s.input.len()).input.len() == 0,
        polls(s, s.input.len()).state == EditState::Editing,
{
    lemma_typing_prefix(s, s.input.len());
    assert(s.input.take(s.input.len() as int) =~= s.input);
}

/// Backspace on an empty buffer changes nothing and writes nothing.
pub proof fn lemma_backspace_on_empty(s: SessionView)
    requires
        session_wf(s),
        s.buffer.len() == 0,
    ensures
        key_spec(s, KEY_BACKSPACE) == (s, Seq::<u8>::empty(), Outcome::Again),
{
    assert(key_spec(s, KEY_BACKSPACE).0 =~= s);
}

/// A log line at rest is written at once, with a line break, and leaves the
/// mailbox empty, so no later turn writes it again.
pub proof fn lemma_log_at_rest(s: SessionView, msg: Seq<u8>)
    requires
        session_wf(s),
        s.state == EditState::Rest,
    ensures
        log_spec(s, msg) == (s, LogOutcome::Emit(msg + crlf())),
        log_spec(s, msg).0.log is None,
{
}

/// A log line during an edit is drawn by the next turn: the line is cleared,
/// the message written, and the prompt and buffer drawn again unchanged.
pub proof fn lemma_log_while_editing(s: SessionView, msg: Seq<u8>)
    requires
        session_wf(s),
        s.state == EditState::Editing,
        s.log is None,
        !s.ctrlc,
        !s.interrupted,
        !s.eof,
    ensures
        log_spec(s, msg).1 == LogOutcome::Deposited,
        poll_spec(log_spec(s, msg).0, false) == (s, interleave(s.prompt, s.buffer, msg), Outcome::Again),
{
    assert(poll_spec(log_spec(s, msg).0, false).0 =~= s);
}

/// The number of terminal restorations that `n` teardown calls perform.
pub open spec fn restorations(s: SessionView, n: nat) -> nat
    decreases n,
{
    if n == 0 {
        0
    } else {
        (if cleanup_spec(s).1 { 1nat } else { 0nat }) + restorations(cleanup_spec(s).0, (n - 1) as nat)
    }
}

/// Teardown is idempotent: any number of calls, at least one, restore the
/// terminal exactly once, or never if it was restored before.
pub proof fn lemma_cleanup_idempotent(s: SessionView, n: nat)
    requires
        n >= 1,
    ensures
        restorations(s, n) == (if s.state == EditState::CleanedUp { 0nat } else { 1nat }),
    decreases n,
{
    let t = cleanup_spec(s).0;
    if n > 1 {
        lemma_cleanup_idempotent(t, (n - 1) as nat);
    } else {
        assert(restorations(t, 0) == 0);
    }
    assert(restorations(s, n) == (if cleanup_spec(s).1 { 1nat } else { 0nat }) + restorations(t, (n - 1) as nat));
}

/// An interrupt key ends the line read once and is consumed: the flag is
/// clear afterwards, so a later check reports no interrupt, and after
/// teardown no new line read can start.
pub proof fn lemma_ctrlc_consumed(s: SessionView)
    requires
        session_wf(s),
        s.state == EditState::Editing,
        s.ctrlc,
    ensures
        poll_spec(s, false).2 == Outcome::End,
        !poll_spec(s, false).0.ctrlc,
        !take_ctrlc_spec(poll_spec(s, false).0).1,
        begin_spec(cleanup_spec(poll_spec(s, false).0).0).state == EditState::CleanedUp,
{
}

/// A raised interrupt flag is reported once: the next check reports none.
pub proof fn lemma_take_ctrlc_once(s: SessionView)
    ensures
        !take_ctrlc_spec(take_ctrlc_spec(s).0).1,
{
}

/// `CleanedUp` is final: no turn, log call, input, interrupt check, teardown
/// or attempt to start a line leaves it, and a line read cannot start.
pub proof fn lemma_cleaned_up_is_final(s: SessionView, sigterm: bool, msg: Seq<u8>, ev: ReadEvent)
    requires
        s.state == EditState::CleanedUp,
    ensures
        poll_spec(s, sigterm).0.state == EditState::CleanedUp,
        poll_spec(s, sigterm).2 == Outcome::End,
        log_spec(s, msg).0.state == EditState::CleanedUp,
        log_spec(s, msg).1 == LogOutcome::Print,
        input_spec(s, ev).state == EditState::CleanedUp,
        take_ctrlc_spec(s).0.state == EditState::CleanedUp,
        cleanup_spec(s).0.state == EditState::CleanedUp,
        begin_spec(s) == s,
{
}

/// The size of the terminal window, in character cells.
#[derive(Clone, Copy, PartialEq, Eq, Structural, Debug)]
pub struct WinSize {
    height: usize,
    width: usize,
}

impl WinSize {
    pub fn new(height: usize, width: usize) -> (r: WinSize)
        ensures
            r.height() == height,
            r.width() == width,
    {
        WinSize { height, width }
    }

    pub closed spec fn height(&self) -> usize {
        self.height
    }

    pub closed spec fn width(&self) -> usize {
        self.width
    }

    #[verifier::when_used_as_spec(height)]
    pub fn rows(&self) -> (r: usize)
        ensures
            r == self.height(),
    {
        self.height
    }

    #[verifier::when_used_as_spec(width)]
    pub fn cols(&self) -> (r: usize)
        ensures
            r == self.width(),
    {
        self.width
    }
}

} // verus!
