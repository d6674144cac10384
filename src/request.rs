//! Reading the head of an HTTP request, one line at a time.
use vstd::prelude::*;

verus! {

/// Number of bytes before the first space of `s` (all of `s` if it has none).
pub open spec fn token_len(s: Seq<u8>) -> nat
    decreases s.len(),
{
    if s.len() == 0 || s[0] == 32 {
        0
    } else {
        1 + token_len(s.skip(1))
    }
}

/// The first space-delimited token of `s`.
pub open spec fn first_token(s: Seq<u8>) -> Seq<u8> {
    s.take(token_len(s) as int)
}

/// Method and target of a request line: its first two tokens split on single
/// spaces, or `None` when the line holds fewer than two tokens.
pub open spec fn parse_line(s: Seq<u8>) -> Option<(Seq<u8>, Seq<u8>)> {
    if token_len(s) == s.len() {
        None
    } else {
        let rest = s.skip(token_len(s) as int + 1);
        Some((first_token(s), first_token(rest)))
    }
}

/// A line with its terminator removed: a final `\n`, then a final `\r`.
pub open spec fn strip_line_ending(s: Seq<u8>) -> Seq<u8> {
    let t = if s.len() > 0 && s.last() == 10 {
        s.drop_last()
    } else {
        s
    };
    if t.len() > 0 && t.last() == 13 {
        t.drop_last()
    } else {
        t
    }
}

proof fn lemma_token_len(s: Seq<u8>, i: int)
    requires
        0 <= i <= s.len(),
        forall|j: int| 0 <= j < i ==> s[j] != 32,
        i == s.len() || s[i] == 32,
    ensures
        token_len(s) == i,
    decreases i,
{
    if i > 0 {
        let t = s.skip(1);
        assert forall|j: int| 0 <= j < i - 1 implies t[j] != 32 by {
            assert(t[j] == s[j + 1]);
        }
        if i < s.len() {
            assert(t[i - 1] == s[i]);
        }
        lemma_token_len(t, i - 1);
    }
}

/// Index of the first space in `s` at or after `from`, or its length.
fn find_space(s: &[u8], from: usize) -> (r: usize)
    requires
        from <= s@.len(),
    ensures
        r as int == from + token_len(s@.skip(from as int)),
        r <= s@.len(),
{
    let mut i: usize = from;
    while i < s.len() && s[i] != 32
        invariant
            from <= i <= s@.len(),
            forall|j: int| from <= j < i ==> s@[j] != 32,
        decreases s@.len() - i,
    {
        i = i + 1;
    }
    proof {
        let t = s@.skip(from as int);
        assert forall|j: int| 0 <= j < i - from implies t[j] != 32 by {
            assert(t[j] == s@[from + j]);
        }
        if i < s@.len() {
            assert(t[i - from] == s@[i as int]);
        }
        lemma_token_len(t, i - from);
    }
    i
}

fn copy_range(s: &[u8], from: usize, to: usize) -> (r: Vec<u8>)
    requires
        from <= to <= s@.len(),
    ensures
        r@ == s@.subrange(from as int, to as int),
{
    let mut out: Vec<u8> = Vec::new();
    let mut i: usize = from;
    while i < to
        invariant
            from <= i <= to <= s@.len(),
            out@ == s@.subrange(from as int, i as int),
        decreases to - i,
    {
        out.push(s[i]);
        assert(s@.subrange(from as int, i + 1) == s@.subrange(from as int, i as int).push(
            s@[i as int],
        ));
        i = i + 1;
    }
    out
}

/// The two leading tokens of a request line.
#[derive(Debug)]
pub struct RequestLine {
    pub method: Vec<u8>,
    pub target: Vec<u8>,
}

/// Splits a request line (without terminator) on single spaces and keeps the
/// first two tokens as method and target.
pub fn parse_request_line(line: &[u8]) -> (r: Option<RequestLine>)
    ensures
        r is None <==> parse_line(line@) is None,
        r matches Some(rl) ==> parse_line(line@) == Some((rl.method@, rl.target@)),
{
    let end = find_space(line, 0);
    assert(line@.skip(0) == line@);
    if end == line.len() {
        return None;
    }
    let method = copy_range(line, 0, end);
    let target_end = find_space(line, end + 1);
    let target = copy_range(line, end + 1, target_end);
    proof {
        let rest = line@.skip(end + 1);
        assert(method@ == first_token(line@));
        assert(target@ == first_token(rest));
    }
    Some(RequestLine { method, target })
}

/// Removes the line terminator that a line reader leaves on a line.
pub fn strip_terminator(line: &[u8]) -> (r: Vec<u8>)
    ensures
        r@ == strip_line_ending(line@),
{
    let mut end: usize = line.len();
    if end > 0 && line[end - 1] == 10 {
        end = end - 1;
    }
    if end > 0 && line[end - 1] == 13 {
        end = end - 1;
    }
    let out = copy_range(line, 0, end);
    assert(out@ =~= strip_line_ending(line@));
    out
}

/// Abstract state of a request reader.
pub struct ReaderState {
    pub request: Option<(Seq<u8>, Seq<u8>)>,
    pub started: bool,
    pub done: bool,
}

/// The reader state after one more line (terminator included or not) arrives.
/// Only the first non-empty line is interpreted; an empty line ends the head.
pub open spec fn next_state(st: ReaderState, raw: Seq<u8>) -> ReaderState {
    let line = strip_line_ending(raw);
    if st.done {
        st
    } else if line.len() == 0 {
        ReaderState { done: true, ..st }
    } else if !st.started {
        ReaderState { request: parse_line(line), started: true, done: false }
    } else {
        st
    }
}

/// Collects the request line of a connection from the lines of its head.
pub struct RequestReader {
    pub request: Option<RequestLine>,
    pub started: bool,
    pub done: bool,
}

impl View for RequestReader {
    type V = ReaderState;

    open spec fn view(&self) -> ReaderState {
        ReaderState {
            request: match self.request {
                Some(rl) => Some((rl.method@, rl.target@)),
                None => None,
            },
            started: self.started,
            done: self.done,
        }
    }
}

impl RequestReader {
    /// A reader that has seen no line yet.
    pub fn new() -> (r: RequestReader)
        ensures
            r@ == (ReaderState { request: None, started: false, done: false }),
    {
        RequestReader { request: None, started: false, done: false }
    }

    /// Takes one line of the request head and says whether the head is over.
    pub fn feed_line(&mut self, raw: &[u8]) -> (done: bool)
        ensures
            final(self)@ == next_state(old(self)@, raw@),
            done == final(self).done,
    {
        if self.done {
            return true;
        }
        let line = strip_terminator(raw);
        if line.len() == 0 {
            self.done = true;
        } else if !self.started {
            self.request = parse_request_line(line.as_slice());
            self.started = true;
        }
        self.done
    }

    /// Whether the blank line that ends the head has been seen.
    pub fn is_done(&self) -> (r: bool)
        ensures
            r == self.done,
    {
        self.done
    }
}

} // verus!
