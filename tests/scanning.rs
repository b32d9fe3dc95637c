use buf_redux::Buffer;
use scanner::input::Input;
use scanner::scan::{ScanError, Scanner, SplitResult, Splitter};
use scanner::stream::{ByteReader, InputStream, MAX_CAPACITY};

#[derive(Debug)]
struct TestError {
    what: String,
    kind: Option<std::io::ErrorKind>,
    at: Option<(u64, usize)>,
}

impl From<std::io::Error> for TestError {
    fn from(e: std::io::Error) -> Self {
        TestError { what: "io".to_string(), kind: Some(e.kind()), at: None }
    }
}

impl ScanError for TestError {
    fn position(&mut self, line: u64, column: usize) {
        self.at = Some((line, column));
    }
}

/// Tokens end at `,` or `\n`; a trailing run at the end is a token too.
#[derive(Debug)]
struct CommaSplitter {
    calls: usize,
}

impl Splitter for CommaSplitter {
    type Error = TestError;
    type TokenType = Vec<u8>;

    fn split(&mut self, data: &[u8], eof: bool) -> SplitResult<Vec<u8>, TestError> {
        self.calls += 1;
        if let Some(i) = data.iter().position(|b| *b == b',' || *b == b'\n') {
            return Ok((Some(data[..i].to_vec()), i + 1));
        }
        if eof && !data.is_empty() {
            return Ok((Some(data.to_vec()), data.len()));
        }
        Ok((None, 0))
    }
}

/// The whole input, once complete, is one token.
struct WholeSplitter;

impl Splitter for WholeSplitter {
    type Error = TestError;
    type TokenType = Vec<u8>;

    fn split(&mut self, data: &[u8], eof: bool) -> SplitResult<Vec<u8>, TestError> {
        if eof && !data.is_empty() {
            Ok((Some(data.to_vec()), data.len()))
        } else {
            Ok((None, 0))
        }
    }
}

/// Skips runs of spaces and newlines; emits nothing.
struct SkipSplitter;

impl Splitter for SkipSplitter {
    type Error = TestError;
    type TokenType = Vec<u8>;

    fn split(&mut self, data: &[u8], _eof: bool) -> SplitResult<Vec<u8>, TestError> {
        let n = data.iter().take_while(|b| **b == b' ' || **b == b'\n').count();
        Ok((None, n))
    }
}

/// One token per byte; fails on `x`.
struct ByteSplitter;

impl Splitter for ByteSplitter {
    type Error = TestError;
    type TokenType = u8;

    fn split(&mut self, data: &[u8], _eof: bool) -> SplitResult<u8, TestError> {
        match data.first() {
            None => Ok((None, 0)),
            Some(b'x') => Err(TestError { what: "bad byte".to_string(), kind: None, at: None }),
            Some(b) => Ok((Some(*b), 1)),
        }
    }
}

/// Hands out its bytes a few at a time.
struct ChunkReader {
    data: Vec<u8>,
    pos: usize,
    chunk: usize,
}

impl ByteReader for ChunkReader {
    fn read_into(&mut self, buf: &mut Buffer) -> Result<usize, std::io::Error> {
        let end = std::cmp::min(self.pos + self.chunk, self.data.len());
        let n = buf.copy_from_slice(&self.data[self.pos..end]);
        self.pos += n;
        Ok(n)
    }
}

/// Always fails.
struct BrokenReader;

impl ByteReader for BrokenReader {
    fn read_into(&mut self, _buf: &mut Buffer) -> Result<usize, std::io::Error> {
        Err(std::io::Error::from(std::io::ErrorKind::BrokenPipe))
    }
}

fn collect<I: Input, S: Splitter>(s: &mut Scanner<I, S>) -> Vec<S::TokenType>
where
    S::Error: std::fmt::Debug,
{
    let mut out = Vec::new();
    while let Some(t) = s.scan().unwrap() {
        out.push(t);
    }
    out
}

#[test]
fn comma_separated_tokens() {
    let input: &[u8] = b"a,bb,,ccc\n";
    let mut s = Scanner::new(input, CommaSplitter { calls: 0 });
    let toks = collect(&mut s);
    assert_eq!(toks, vec![b"a".to_vec(), b"bb".to_vec(), b"".to_vec(), b"ccc".to_vec()]);
    assert_eq!(s.line(), 2);
    assert_eq!(s.column(), 1);
    assert!(s.scan().unwrap().is_none());
}

#[test]
fn comma_separated_tokens_from_vec() {
    let mut s = Scanner::new(b"a,bb,,ccc\n".to_vec(), CommaSplitter { calls: 0 });
    let toks = collect(&mut s);
    assert_eq!(toks, vec![b"a".to_vec(), b"bb".to_vec(), b"".to_vec(), b"ccc".to_vec()]);
    assert_eq!(s.line(), 2);
}

#[test]
fn whole_input_is_one_token() {
    let input: &[u8] = b"no delimiters here";
    let mut s = Scanner::new(input, WholeSplitter);
    assert_eq!(s.scan().unwrap(), Some(b"no delimiters here".to_vec()));
    assert_eq!(s.column(), 19);
    assert_eq!(s.scan().unwrap(), None);
    assert_eq!(s.scan().unwrap(), None);
    assert_eq!(s.scan().unwrap(), None);
    assert_eq!((s.line(), s.column()), (1, 19));
}

#[test]
fn empty_input_ends_at_once() {
    let input: &[u8] = b"";
    let mut s = Scanner::new(input, WholeSplitter);
    assert_eq!(s.scan().unwrap(), None);
    assert_eq!((s.line(), s.column()), (1, 1));
}

#[test]
fn only_delimiters_end_at_once() {
    let input: &[u8] = b"  \n \n   ";
    let mut s = Scanner::new(input, SkipSplitter);
    assert_eq!(s.scan().unwrap(), None);
    assert_eq!((s.line(), s.column()), (3, 4));
}

#[test]
fn position_follows_consumed_bytes() {
    let input: &[u8] = b"ab\ncd\nefg";
    let mut s = Scanner::new(input, WholeSplitter);
    assert!(s.consume(2));
    assert_eq!((s.line(), s.column()), (1, 3));
    assert!(s.consume(6));
    assert_eq!((s.line(), s.column()), (3, 3));
    assert!(s.consume(1));
    assert_eq!((s.line(), s.column()), (3, 4));
}

#[test]
fn splitter_error_carries_position() {
    let input: &[u8] = b"ab\ncx";
    let mut s = Scanner::new(input, ByteSplitter);
    assert_eq!(s.scan().unwrap(), Some(b'a'));
    assert_eq!(s.scan().unwrap(), Some(b'b'));
    assert_eq!(s.scan().unwrap(), Some(b'\n'));
    assert_eq!(s.scan().unwrap(), Some(b'c'));
    let e = s.scan().unwrap_err();
    assert_eq!(e.what, "bad byte");
    assert_eq!(e.at, Some((2, 2)));
}

#[test]
fn reset_restarts_position_and_keeps_splitter() {
    let input: &[u8] = b"a\nb";
    let mut s = Scanner::new(input, CommaSplitter { calls: 0 });
    assert_eq!(collect(&mut s).len(), 2);
    let calls = s.splitter().calls;
    assert!(calls > 0);
    let again: &[u8] = b"c,d";
    s.reset(again);
    assert_eq!((s.line(), s.column()), (1, 1));
    assert_eq!(s.splitter().calls, calls);
    assert_eq!(collect(&mut s), vec![b"c".to_vec(), b"d".to_vec()]);
}

#[test]
fn streaming_matches_in_memory() {
    let text: &[u8] = b"alpha,beta\ngamma,,delta\nepsilon";
    let mut mem = Scanner::new(text, CommaSplitter { calls: 0 });
    let expected = collect(&mut mem);
    for chunk in 1..5 {
        let reader = ChunkReader { data: text.to_vec(), pos: 0, chunk };
        let mut st = Scanner::new(InputStream::new(reader), CommaSplitter { calls: 0 });
        assert_eq!(collect(&mut st), expected);
        assert_eq!((st.line(), st.column()), (mem.line(), mem.column()));
    }
}

#[test]
fn streaming_from_a_slice() {
    let text: &[u8] = b"x,y\nz";
    let mut st = Scanner::new(InputStream::new(text), CommaSplitter { calls: 0 });
    assert_eq!(collect(&mut st), vec![b"x".to_vec(), b"y".to_vec(), b"z".to_vec()]);
    assert_eq!((st.line(), st.column()), (2, 2));
}

#[test]
fn long_token_grows_the_buffer() {
    let mut data = vec![b'a'; 10000];
    data.push(b',');
    let reader = ChunkReader { data, pos: 0, chunk: 3000 };
    let mut st = Scanner::new(InputStream::with_limits(reader, 4096, MAX_CAPACITY), CommaSplitter { calls: 0 });
    let tok = st.scan().unwrap().unwrap();
    assert_eq!(tok.len(), 10000);
    assert_eq!(st.column(), 10002);
}

#[test]
fn run_past_the_ceiling_fails() {
    let reader = ChunkReader { data: vec![b'a'; 100000], pos: 0, chunk: 100000 };
    let mut st = Scanner::new(InputStream::with_limits(reader, 4096, 8192), CommaSplitter { calls: 0 });
    let e = st.scan().unwrap_err();
    assert_eq!(e.kind, Some(std::io::ErrorKind::OutOfMemory));
    assert_eq!(e.at, Some((1, 1)));
}

#[test]
fn read_failure_carries_position() {
    let mut st = Scanner::new(InputStream::new(BrokenReader), CommaSplitter { calls: 0 });
    let e = st.scan().unwrap_err();
    assert_eq!(e.kind, Some(std::io::ErrorKind::BrokenPipe));
    assert_eq!(e.at, Some((1, 1)));
}

#[test]
fn stream_input_reports_its_state() {
    let text: &[u8] = b"hello";
    let mut inp = InputStream::new(text);
    assert!(!inp.eof());
    assert!(inp.is_empty());
    inp.fill_buf().unwrap();
    assert_eq!(inp.buffer(), b"hello");
    assert_eq!(inp.len(), 5);
    inp.consume(2);
    assert_eq!(inp.buffer(), b"llo");
    inp.consume(3);
    inp.fill_buf().unwrap();
    assert!(inp.eof());
    assert!(inp.is_empty());
}

#[test]
fn memory_inputs_are_complete() {
    let mut v = b"abc".to_vec();
    assert!(Input::eof(&v));
    Input::fill_buf(&mut v).unwrap();
    Input::consume(&mut v, 1);
    assert_eq!(Input::buffer(&v), b"bc");
    assert_eq!(Input::len(&v), 2);
    let mut s: &[u8] = b"abc";
    Input::consume(&mut s, 3);
    assert!(Input::is_empty(&s));
}

#[test]
fn debug_output_shows_position() {
    let input: &[u8] = b"a\nb";
    let mut s = Scanner::new(input, CommaSplitter { calls: 0 });
    s.scan().unwrap();
    let text = format!("{:?}", s);
    assert!(text.contains("line: 2"));
    assert!(text.contains("column: 1"));
    let stream = InputStream::new(input);
    assert!(format!("{:?}", stream).contains("eof: false"));
}

#[test]
fn finishing_a_read_marks_the_end_only_on_zero() {
    let text: &[u8] = b"ab";
    let mut inp = InputStream::new(text);
    assert!(inp.finish_read(Ok(3)).is_ok());
    assert!(!inp.eof());
    assert!(inp.finish_read(Ok(0)).is_ok());
    assert!(inp.eof());
    let e = inp.finish_read(Err(std::io::Error::from(std::io::ErrorKind::Interrupted))).unwrap_err();
    assert_eq!(e.kind(), std::io::ErrorKind::Interrupted);
    assert!(inp.eof());
}

#[test]
fn refill_appends_what_was_read() {
    let reader = ChunkReader { data: b"abcdef".to_vec(), pos: 0, chunk: 4 };
    let mut inp = InputStream::new(reader);
    inp.refill().unwrap();
    assert_eq!(inp.buffer(), b"abcd");
    assert!(!inp.eof());
    inp.discard(1);
    inp.refill().unwrap();
    assert_eq!(inp.buffer(), b"bcdef");
    inp.refill().unwrap();
    assert!(inp.eof());
    assert_eq!(inp.buffer(), b"bcdef");
}

#[test]
fn full_buffer_at_the_ceiling_fails_and_keeps_its_bytes() {
    let reader = ChunkReader { data: vec![b'z'; 20000], pos: 0, chunk: 20000 };
    let mut inp = InputStream::with_limits(reader, 4096, 4096);
    inp.refill().unwrap();
    let held = inp.buffer().to_vec();
    assert!(!held.is_empty());
    let mut failed = false;
    for _ in 0..10 {
        let before = inp.buffer().to_vec();
        if let Err(e) = inp.refill() {
            assert_eq!(e.kind(), std::io::ErrorKind::OutOfMemory);
            assert_eq!(inp.buffer(), &before[..]);
            assert!(!inp.eof());
            failed = true;
            break;
        }
    }
    assert!(failed);
}

#[test]
fn doubling_up_to_the_ceiling_is_allowed() {
    let mut data = vec![b'q'; 6000];
    data.push(b',');
    let reader = ChunkReader { data, pos: 0, chunk: 100000 };
    let mut st = Scanner::new(InputStream::with_limits(reader, 4096, 8192), CommaSplitter { calls: 0 });
    assert_eq!(st.scan().unwrap().unwrap().len(), 6000);
}
