use vstd::prelude::*;
use crate::lines::{
    complete_lines, decode_utf8, ends_line, lemma_split_chunk, partial_line, utf8_text,
    well_formed_chunk, NEWLINE,
};

verus! {

/// The error kinds that appear as items of the sequence.
#[derive(Clone, Copy, Debug, PartialEq, Eq, Structural)]
pub enum FollowError {
    /// Reading from the open file failed.
    ReadError,
    /// The bytes of a line are not valid UTF-8.
    DecodeError,
}

/// One item of the sequence: a numbered line, or an error.
pub type Item = Result<(usize, String), FollowError>;

/// An item as a mathematical value.
pub type ItemView = Result<(nat, Seq<char>), FollowError>;

/// An item with its line number as `nat` and its text as characters.
pub open spec fn item_view(i: Item) -> ItemView {
    match i {
        Ok((n, t)) => Ok((n as nat, t@)),
        Err(e) => Err(e),
    }
}

/// `item_view` under `Option`.
pub open spec fn opt_item_view(i: Option<Item>) -> Option<ItemView> {
    match i {
        Some(x) => Some(item_view(x)),
        None => None,
    }
}

/// The item for line number `n` whose bytes, delimiter removed, are `bytes`.
pub open spec fn line_item(n: nat, bytes: Seq<u8>) -> ItemView {
    match utf8_text(bytes) {
        Some(t) => Ok((n, t)),
        None => Err(FollowError::DecodeError),
    }
}

/// The item for line number `n`, given what decoding its bytes gave.
pub fn line_result(n: usize, text: Option<String>) -> (r: Item)
    ensures
        item_view(r) == match text {
            Some(t) => Ok((n as nat, t@)),
            None => Err::<(nat, Seq<char>), FollowError>(FollowError::DecodeError),
        },
{
    match text {
        Some(t) => Ok((n, t)),
        None => Err(FollowError::DecodeError),
    }
}

/// The state of the follow engine; it also names what the driver does next.
#[derive(Clone, Copy, Debug, PartialEq, Eq, Structural)]
pub enum State {
    /// (Re)open the file and report its length.
    Open,
    /// Read the next chunk, up to and including the next delimiter.
    Read,
    /// Wait for the polling interval.
    Sleep,
    /// Query the file's current length.
    CheckLength,
}

/// What the driver reports back after doing what the state asks.
pub enum Event {
    /// The file was opened; it had this length.
    Opened(u64),
    /// Opening the file, or reading its length, failed.
    OpenFailed,
    /// A read returned these bytes; none means no new data for now.
    Chunk(Vec<u8>),
    /// A read failed.
    ReadFailed,
    /// The polling interval elapsed.
    Slept,
    /// The file's length is now this.
    Length(u64),
    /// The length query failed.
    LengthFailed,
}

/// A session as a mathematical value: the path, the last known length, and
/// every byte read since the file was opened.
pub struct SessionView {
    pub path: Seq<char>,
    pub len: u64,
    pub seen: Seq<u8>,
}

/// The engine as a mathematical value.
pub struct FollowView {
    pub state: State,
    pub interval_ms: u64,
    pub session: SessionView,
}

/// One open view of the followed file: where reading stands in it.
pub struct Inner {
    path: String,
    buffer: Vec<u8>,
    len: u64,
    pos: usize,
    seen: Ghost<Seq<u8>>,
}

impl View for Inner {
    type V = SessionView;

    closed spec fn view(&self) -> SessionView {
        SessionView { path: self.path@, len: self.len, seen: self.seen@ }
    }
}

impl Inner {
    /// The line counter counts the complete lines read, and the buffer holds
    /// the partial line.
    pub closed spec fn wf(&self) -> bool {
        &&& self.pos == complete_lines(self.seen@).len()
        &&& self.buffer@ == partial_line(self.seen@)
    }

    /// A fresh session on a file just opened with length `len`.
    pub fn new(path: String, len: u64) -> (r: Inner)
        ensures
            r.wf(),
            r@ == (SessionView { path: path@, len, seen: Seq::<u8>::empty() }),
    {
        let r = Inner { path, buffer: Vec::new(), len, pos: 0, seen: Ghost(Seq::empty()) };
        assert(r.buffer@ =~= partial_line(r.seen@));
        r
    }

    /// The number of lines delivered in this session.
    pub fn line_number(&self) -> (r: usize)
        requires
            self.wf(),
        ensures
            r == complete_lines(self@.seen).len(),
    {
        self.pos
    }
}

/// A session that nothing has been read from yet.
pub open spec fn fresh(path: Seq<char>, len: u64) -> SessionView {
    SessionView { path, len, seen: Seq::empty() }
}

/// One transition of the engine: the next state, and the item it delivers,
/// if any. An event that does not answer the current state changes nothing.
pub open spec fn next(v: FollowView, e: Event) -> (FollowView, Option<ItemView>) {
    match e {
        Event::Opened(n) => if v.state == State::Open {
            (FollowView { state: State::Read, session: fresh(v.session.path, n), ..v }, None)
        } else {
            (v, None)
        },
        Event::OpenFailed => if v.state == State::Open {
            (FollowView { state: State::Sleep, ..v }, None)
        } else {
            (v, None)
        },
        Event::Chunk(c) => if v.state == State::Read {
            if c@.len() == 0 {
                (FollowView { state: State::Sleep, ..v }, None)
            } else {
                let seen = v.session.seen + c@;
                let w = FollowView { session: SessionView { seen, ..v.session }, ..v };
                if ends_line(c@) {
                    let lines = complete_lines(seen);
                    (w, Some(line_item(lines.len(), lines.last())))
                } else {
                    (w, None)
                }
            }
        } else {
            (v, None)
        },
        Event::ReadFailed => if v.state == State::Read {
            (v, Some(Err(FollowError::ReadError)))
        } else {
            (v, None)
        },
        Event::Slept => if v.state == State::Sleep {
            (FollowView { state: State::CheckLength, ..v }, None)
        } else {
            (v, None)
        },
        Event::Length(n) => if v.state == State::CheckLength {
            if n > v.session.len {
                (
                    FollowView {
                        state: State::Read,
                        session: SessionView { len: n, ..v.session },
                        ..v
                    },
                    None,
                )
            } else if n == v.session.len {
                (FollowView { state: State::Sleep, ..v }, None)
            } else {
                (FollowView { state: State::Open, ..v }, None)
            }
        } else {
            (v, None)
        },
        Event::LengthFailed => if v.state == State::CheckLength {
            (FollowView { state: State::Sleep, ..v }, None)
        } else {
            (v, None)
        },
    }
}

/// Whether the driver may hand `e` to the engine: a chunk holds a delimiter,
/// if any, only as its last byte.
pub open spec fn event_ok(e: Event) -> bool {
    e matches Event::Chunk(c) ==> well_formed_chunk(c@)
}

/// Follows one file: the engine that decides, from each reported event, what
/// to do next and which item to deliver.
pub struct FollowFile {
    inner: Inner,
    state: State,
    interval_ms: u64,
}

impl View for FollowFile {
    type V = FollowView;

    closed spec fn view(&self) -> FollowView {
        FollowView { state: self.state, interval_ms: self.interval_ms, session: self.inner@ }
    }
}

impl FollowFile {
    /// The session's line counter and buffer agree with the bytes read.
    pub closed spec fn wf(&self) -> bool {
        self.inner.wf()
    }

    /// An engine on a file just opened with length `len`, ready to read; it
    /// waits `interval_ms` milliseconds between length checks.
    pub fn new(path: String, len: u64, interval_ms: u64) -> (r: FollowFile)
        ensures
            r.wf(),
            r@ == (FollowView { state: State::Read, interval_ms, session: fresh(path@, len) }),
    {
        let inner = Inner::new(path, len);
        FollowFile { inner, state: State::Read, interval_ms }
    }

    /// The current state: what the driver is to do next.
    pub fn state(&self) -> (r: State)
        ensures
            r == self@.state,
    {
        self.state
    }

    /// The followed path.
    pub fn path(&self) -> (r: &String)
        ensures
            r@ == self@.session.path,
    {
        &self.inner.path
    }

    /// The wait between length checks, in milliseconds.
    pub fn interval_ms(&self) -> (r: u64)
        ensures
            r == self@.interval_ms,
    {
        self.interval_ms
    }

    /// The number of lines delivered since the file was last opened.
    pub fn line_number(&self) -> (r: usize)
        requires
            self.wf(),
        ensures
            r == complete_lines(self@.session.seen).len(),
    {
        self.inner.line_number()
    }

    /// Takes the outcome of what the current state asked for, moves to the
    /// next state, and returns the item to deliver, if any.
    pub fn step(&mut self, e: Event) -> (r: Option<Item>)
        requires
            old(self).wf(),
            event_ok(e),
            complete_lines(old(self)@.session.seen).len() < usize::MAX,
        ensures
            final(self).wf(),
            final(self)@ == next(old(self)@, e).0,
            opt_item_view(r) == next(old(self)@, e).1,
    {
        match e {
            Event::Opened(n) => {
                if self.state == State::Open {
                    self.inner.buffer = Vec::new();
                    self.inner.len = n;
                    self.inner.pos = 0;
                    self.inner.seen = Ghost(Seq::empty());
                    assert(self.inner.buffer@ =~= partial_line(self.inner.seen@));
                    self.state = State::Read;
                }
                None
            },
            Event::OpenFailed => {
                if self.state == State::Open {
                    self.state = State::Sleep;
                }
                None
            },
            Event::Chunk(c) => {
                if self.state != State::Read {
                    return None;
                }
                if c.len() == 0 {
                    self.state = State::Sleep;
                    return None;
                }
                let ends = c[c.len() - 1] == NEWLINE;
                let ghost old_seen = self.inner.seen@;
                let ghost bytes = c@;
                proof {
                    lemma_split_chunk(old_seen, bytes);
                }
                let mut c = c;
                self.inner.buffer.append(&mut c);
                self.inner.seen = Ghost(old_seen + bytes);
                if ends {
                    self.inner.pos = self.inner.pos + 1;
                    let mut line: Vec<u8> = Vec::new();
                    std::mem::swap(&mut self.inner.buffer, &mut line);
                    line.pop();
                    assert(line@ =~= partial_line(old_seen) + bytes.drop_last());
                    assert(self.inner.buffer@ =~= partial_line(self.inner.seen@));
                    let text = decode_utf8(line);
                    Some(line_result(self.inner.pos, text))
                } else {
                    None
                }
            },
            Event::ReadFailed => {
                if self.state == State::Read {
                    Some(Err(FollowError::ReadError))
                } else {
                    None
                }
            },
            Event::Slept => {
                if self.state == State::Sleep {
                    self.state = State::CheckLength;
                }
                None
            },
            Event::Length(n) => {
                if self.state == State::CheckLength {
                    if n > self.inner.len {
                        self.inner.len = n;
                        self.state = State::Read;
                    } else if n == self.inner.len {
                        self.state = State::Sleep;
                    } else {
                        self.state = State::Open;
                    }
                }
                None
            },
            Event::LengthFailed => {
                if self.state == State::CheckLength {
                    self.state = State::Sleep;
                }
                None
            },
        }
    }
}

} // verus!
