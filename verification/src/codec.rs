//! The DAP wire codec: frames messages as `Content-Length: N\r\n\r\n`
//! followed by exactly `N` bytes of payload.
//!
//! The decoder is a two-state machine, restartable across partial reads:
//! in `ReadingHeaders` it consumes CRLF-delimited header lines until an
//! empty line, recognizing `Content-Length` case-insensitively; in
//! `ReadingBody` it waits until the announced number of bytes is buffered
//! and slices them out. It never discards bytes that might belong to the
//! next frame. `spec_decode` is the functional specification of one
//! decoder step; `decode` is proved to follow it exactly.

use vstd::prelude::*;

use crate::text::{dec_bytes, dec_value, is_ascii_digit, lemma_dec_bytes_digits,
    lemma_dec_round_trip, parse_dec_bytes, push_dec_bytes};

verus! {

use vstd::slice::slice_subrange;

/// How the decoder failed on one frame.
#[derive(Clone, Debug, PartialEq, Eq)]
pub enum DapCodecError {
    /// A header line had no colon, the terminating empty line arrived
    /// before any `Content-Length`, or its value was not a decimal
    /// number that fits in `usize`.
    MalformedHeader,
    /// The body bytes of a frame were not a valid message; carries the
    /// parser's rendering of the fault, but not the bytes.
    ParseError(String),
}

/// The decoder's two states.
#[derive(Clone, Copy, Debug, PartialEq, Eq)]
pub enum DecodeMode {
    ReadingHeaders,
    ReadingBody,
}

/// What one decoder step produced.
pub ghost enum DecodeStep {
    /// More bytes are needed before anything can be decoded.
    NeedMore,
    /// A full frame body was sliced out.
    Frame(Seq<u8>),
    /// A malformed header line was consumed.
    Fail,
}

/// The decoder state and outcome after one step.
pub ghost struct DecodeOutcome {
    pub mode: DecodeMode,
    pub clen: Option<nat>,
    pub rem: Seq<u8>,
    pub step: DecodeStep,
}

/// The position of the first adjacent pair `first, second` in `s`.
pub open spec fn spec_find_delim(s: Seq<u8>, first: u8, second: u8) -> Option<int>
    decreases s.len(),
{
    if s.len() < 2 {
        None
    } else if s[0] == first && s[1] == second {
        Some(0int)
    } else {
        match spec_find_delim(s.skip(1), first, second) {
            Some(i) => Some(i + 1),
            None => None,
        }
    }
}

/// One unfolding step of `spec_find_delim` past a non-matching position.
proof fn lemma_find_delim_step(s: Seq<u8>, first: u8, second: u8)
    requires
        s.len() >= 2,
        !(s[0] == first && s[1] == second),
    ensures
        spec_find_delim(s, first, second) == match spec_find_delim(s.skip(1), first, second) {
            Some(i) => Some(i + 1),
            None => None::<int>,
        },
{
}

/// Where `spec_find_delim` finds a pair, that pair stands there and no
/// earlier position holds one.
pub proof fn lemma_find_delim_char(s: Seq<u8>, first: u8, second: u8)
    ensures
        match spec_find_delim(s, first, second) {
            Some(i) => 0 <= i && i + 1 < s.len() && s[i] == first && s[i + 1] == second
                && forall|j: int| 0 <= j < i ==> !(#[trigger] s[j] == first && s[j + 1] == second),
            None => forall|j: int| 0 <= j && j + 1 < s.len() ==> !(#[trigger] s[j] == first && s[j
                + 1] == second),
        },
    decreases s.len(),
{
    if s.len() >= 2 && !(s[0] == first && s[1] == second) {
        lemma_find_delim_char(s.skip(1), first, second);
        match spec_find_delim(s.skip(1), first, second) {
            Some(i) => {
                assert(s.skip(1)[i] == s[i + 1]);
                assert(s.skip(1)[i + 1] == s[i + 2]);
                assert forall|j: int| 0 <= j < i + 1 implies !(#[trigger] s[j] == first && s[j + 1]
                    == second) by {
                    if j > 0 {
                        assert(s.skip(1)[j - 1] == s[j]);
                        assert(s.skip(1)[j] == s[j + 1]);
                    }
                }
            },
            None => {
                assert forall|j: int| 0 <= j && j + 1 < s.len() implies !(#[trigger] s[j] == first
                    && s[j + 1] == second) by {
                    if j > 0 {
                        assert(s.skip(1)[j - 1] == s[j]);
                        assert(s.skip(1)[j] == s[j + 1]);
                    }
                }
            },
        }
    }
}

/// A pair standing at `k`, with no `first` byte anywhere before it, is
/// the one `spec_find_delim` finds.
pub proof fn lemma_find_delim_at(s: Seq<u8>, first: u8, second: u8, k: int)
    requires
        0 <= k,
        k + 1 < s.len(),
        s[k] == first,
        s[k + 1] == second,
        forall|j: int| 0 <= j < k ==> s[j] != first,
    ensures
        spec_find_delim(s, first, second) == Some(k),
    decreases k,
{
    if k == 0 {
    } else {
        lemma_find_delim_at(s.skip(1), first, second, k - 1);
        assert(s.skip(1)[k - 1] == s[k]);
        assert(s.skip(1)[k] == s[k + 1]);
        assert forall|j: int| 0 <= j < k - 1 implies s.skip(1)[j] != first by {
            assert(s.skip(1)[j] == s[j + 1]);
        }
        lemma_find_delim_step(s, first, second);
    }
}

/// Finds the first adjacent pair `first, second` in `src`.
pub fn find_delim(src: &[u8], first: u8, second: u8) -> (r: Option<usize>)
    ensures
        match r {
            Some(i) => spec_find_delim(src@, first, second) == Some(i as int),
            None => spec_find_delim(src@, first, second) is None,
        },
{
    let len = src.len();
    if len < 2 {
        return None;
    }
    let mut i: usize = 0;
    proof {
        assert(src@.skip(0) =~= src@);
    }
    while i + 1 < len
        invariant
            len == src@.len(),
            len >= 2,
            0 <= i <= len - 1,
            spec_find_delim(src@, first, second) == match spec_find_delim(
                src@.skip(i as int),
                first,
                second,
            ) {
                Some(k) => Some(k + i),
                None => None::<int>,
            },
        decreases len - i,
    {
        if src[i] == first && src[i + 1] == second {
            proof {
                assert(src@.skip(i as int)[0] == src@[i as int]);
                assert(src@.skip(i as int)[1] == src@[i as int + 1]);
            }
            return Some(i);
        }
        proof {
            let sub = src@.skip(i as int);
            assert(sub[0] == src@[i as int]);
            assert(sub[1] == src@[i as int + 1]);
            lemma_find_delim_step(sub, first, second);
            assert(sub.skip(1) =~= src@.skip(i as int + 1));
        }
        i = i + 1;
    }
    proof {
        assert(src@.skip(i as int).len() < 2);
    }
    None
}

/// The position of the first `b` in `s`.
pub open spec fn spec_find_byte(s: Seq<u8>, b: u8) -> Option<int>
    decreases s.len(),
{
    if s.len() == 0 {
        None
    } else if s[0] == b {
        Some(0int)
    } else {
        match spec_find_byte(s.skip(1), b) {
            Some(i) => Some(i + 1),
            None => None,
        }
    }
}

/// Finds the first `b` in `src`.
pub fn find_byte(src: &[u8], b: u8) -> (r: Option<usize>)
    ensures
        match r {
            Some(i) => spec_find_byte(src@, b) == Some(i as int),
            None => spec_find_byte(src@, b) is None,
        },
{
    let len = src.len();
    let mut i: usize = 0;
    proof {
        assert(src@.skip(0) =~= src@);
    }
    while i < len
        invariant
            len == src@.len(),
            0 <= i <= len,
            spec_find_byte(src@, b) == match spec_find_byte(src@.skip(i as int), b) {
                Some(k) => Some(k + i),
                None => None::<int>,
            },
        decreases len - i,
    {
        if src[i] == b {
            proof {
                assert(src@.skip(i as int)[0] == src@[i as int]);
            }
            return Some(i);
        }
        proof {
            let sub = src@.skip(i as int);
            assert(sub[0] == src@[i as int]);
            assert(sub.skip(1) =~= src@.skip(i as int + 1));
        }
        i = i + 1;
    }
    None
}

/// ASCII lower-casing of one byte.
pub open spec fn to_lower(b: u8) -> u8 {
    if 65 <= b <= 90 {
        (b + 32) as u8
    } else {
        b
    }
}

/// ASCII lower-casing of a byte sequence.
pub open spec fn lower_seq(s: Seq<u8>) -> Seq<u8> {
    s.map_values(|b: u8| to_lower(b))
}

/// The bytes of `content-length`, the one recognized header name.
pub open spec fn content_length_label() -> Seq<u8> {
    seq![99u8, 111u8, 110u8, 116u8, 101u8, 110u8, 116u8, 45u8, 108u8, 101u8, 110u8, 103u8, 116u8,
        104u8]
}

/// The byte of the canonical outbound header `Content-Length: ` at
/// position `i`.
fn header_label_byte(i: usize) -> (r: u8)
    requires
        i < 16,
    ensures
        r == header_label()[i as int],
{
    match i {
        0 => 67,
        1 => 111,
        2 => 110,
        3 => 116,
        4 => 101,
        5 => 110,
        6 => 116,
        7 => 45,
        8 => 76,
        9 => 101,
        10 => 110,
        11 => 103,
        12 => 116,
        13 => 104,
        14 => 58,
        _ => 32,
    }
}

/// The bytes of the canonical outbound header prefix `Content-Length: `.
pub open spec fn header_label() -> Seq<u8> {
    seq![67u8, 111u8, 110u8, 116u8, 101u8, 110u8, 116u8, 45u8, 76u8, 101u8, 110u8, 103u8, 116u8,
        104u8, 58u8, 32u8]
}

/// A space or tab, as `trim` removes around a header value.
pub open spec fn is_blank(b: u8) -> bool {
    b == 32 || b == 9
}

/// Drops leading blanks.
pub open spec fn trim_front(s: Seq<u8>) -> Seq<u8>
    decreases s.len(),
{
    if s.len() > 0 && is_blank(s[0]) {
        trim_front(s.skip(1))
    } else {
        s
    }
}

/// Drops trailing blanks.
pub open spec fn trim_back(s: Seq<u8>) -> Seq<u8>
    decreases s.len(),
{
    if s.len() > 0 && is_blank(s.last()) {
        trim_back(s.drop_last())
    } else {
        s
    }
}

/// Drops blanks on both ends.
pub open spec fn spec_trim(s: Seq<u8>) -> Seq<u8> {
    trim_back(trim_front(s))
}

/// What one header line means.
pub ghost enum HeaderParse {
    /// No colon, or a `Content-Length` whose value is not a decimal
    /// number that fits in `usize`.
    Malformed,
    /// A `Content-Length` announcing a body of this many bytes.
    Length(nat),
    /// Any other header; ignored.
    Other,
}

/// The meaning of one non-empty header line.
pub open spec fn spec_parse_header(line: Seq<u8>) -> HeaderParse {
    match spec_find_byte(line, 58) {
        None => HeaderParse::Malformed,
        Some(c) => {
            let name = line.take(c);
            let value = spec_trim(line.skip(c + 1));
            if lower_seq(name) == content_length_label() {
                if value.len() > 0 && (forall|i: int|
                    0 <= i < value.len() ==> is_ascii_digit(#[trigger] value[i])) && dec_value(
                    value,
                ) <= usize::MAX {
                    HeaderParse::Length(dec_value(value))
                } else {
                    HeaderParse::Malformed
                }
            } else {
                HeaderParse::Other
            }
        },
    }
}

/// The functional specification of one decoder step on state
/// `(mode, clen)` with buffered bytes `r`.
pub open spec fn spec_decode(mode: DecodeMode, clen: Option<nat>, r: Seq<u8>) -> DecodeOutcome
    decreases r.len(),
    via spec_decode_decreases
{
    match mode {
        DecodeMode::ReadingHeaders => match spec_find_delim(r, 13, 10) {
            None => DecodeOutcome { mode, clen, rem: r, step: DecodeStep::NeedMore },
            Some(p) => {
                let line = r.take(p);
                let rest = r.skip(p + 2);
                if line.len() == 0 {
                    match clen {
                        None => DecodeOutcome {
                            mode: DecodeMode::ReadingHeaders,
                            clen: None,
                            rem: rest,
                            step: DecodeStep::Fail,
                        },
                        Some(n) => spec_decode(DecodeMode::ReadingBody, Some(n), rest),
                    }
                } else {
                    match spec_parse_header(line) {
                        HeaderParse::Malformed => DecodeOutcome {
                            mode: DecodeMode::ReadingHeaders,
                            clen,
                            rem: rest,
                            step: DecodeStep::Fail,
                        },
                        HeaderParse::Length(n) => spec_decode(
                            DecodeMode::ReadingHeaders,
                            Some(n),
                            rest,
                        ),
                        HeaderParse::Other => spec_decode(DecodeMode::ReadingHeaders, clen, rest),
                    }
                }
            },
        },
        DecodeMode::ReadingBody => {
            let n = clen.unwrap_or(0);
            if r.len() < n {
                DecodeOutcome { mode, clen, rem: r, step: DecodeStep::NeedMore }
            } else {
                DecodeOutcome {
                    mode: DecodeMode::ReadingHeaders,
                    clen: None,
                    rem: r.skip(n as int),
                    step: DecodeStep::Frame(r.take(n as int)),
                }
            }
        },
    }
}

#[via_fn]
proof fn spec_decode_decreases(mode: DecodeMode, clen: Option<nat>, r: Seq<u8>) {
    lemma_find_delim_char(r, 13, 10);
}

/// ASCII lower-casing of one byte.
fn to_lower_byte(b: u8) -> (r: u8)
    ensures
        r == to_lower(b),
{
    if 65 <= b && b <= 90 {
        b + 32
    } else {
        b
    }
}

/// The byte of `content-length` at position `i`.
fn content_length_byte(i: usize) -> (r: u8)
    requires
        i < 14,
    ensures
        r == content_length_label()[i as int],
{
    match i {
        0 => 99,
        1 => 111,
        2 => 110,
        3 => 116,
        4 => 101,
        5 => 110,
        6 => 116,
        7 => 45,
        8 => 108,
        9 => 101,
        10 => 110,
        11 => 103,
        12 => 116,
        13 => 104,
        _ => 0,
    }
}

/// Whether `name` reads `Content-Length`, compared case-insensitively.
fn is_content_length(name: &[u8]) -> (r: bool)
    ensures
        r == (lower_seq(name@) == content_length_label()),
{
    proof {
        assert(lower_seq(name@).len() == name@.len());
    }
    if name.len() != 14 {
        return false;
    }
    let mut i: usize = 0;
    while i < 14
        invariant
            name@.len() == 14,
            0 <= i <= 14,
            forall|j: int| 0 <= j < i ==> to_lower(#[trigger] name@[j]) == content_length_label()[j],
        decreases 14 - i,
    {
        if to_lower_byte(name[i]) != content_length_byte(i) {
            proof {
                assert(lower_seq(name@)[i as int] == to_lower(name@[i as int]));
                assert(lower_seq(name@) != content_length_label());
            }
            return false;
        }
        i = i + 1;
    }
    proof {
        assert forall|j: int| 0 <= j < 14 implies lower_seq(name@)[j] == content_length_label()[j]
        by {
            assert(lower_seq(name@)[j] == to_lower(name@[j]));
        }
        assert(lower_seq(name@) =~= content_length_label());
    }
    true
}

/// A space or tab.
fn is_blank_byte(b: u8) -> (r: bool)
    ensures
        r == is_blank(b),
{
    b == 32 || b == 9
}

/// Narrows `[lo0, hi0)` within `s` to the blank-trimmed value range.
fn trim_range(s: &[u8], lo0: usize, hi0: usize) -> (r: (usize, usize))
    requires
        lo0 <= hi0 <= s@.len(),
    ensures
        ({
            let (lo, hi) = r;
            lo0 <= lo <= hi <= hi0 && s@.subrange(lo as int, hi as int) == spec_trim(
                s@.subrange(lo0 as int, hi0 as int),
            )
        }),
{
    let mut lo: usize = lo0;
    while lo < hi0 && is_blank_byte(s[lo])
        invariant
            lo0 <= lo <= hi0 <= s@.len(),
            trim_front(s@.subrange(lo as int, hi0 as int)) == trim_front(
                s@.subrange(lo0 as int, hi0 as int),
            ),
        decreases hi0 - lo,
    {
        proof {
            let cur = s@.subrange(lo as int, hi0 as int);
            assert(cur[0] == s@[lo as int]);
            assert(cur.skip(1) =~= s@.subrange(lo as int + 1, hi0 as int));
        }
        lo = lo + 1;
    }
    proof {
        let cur = s@.subrange(lo as int, hi0 as int);
        if cur.len() > 0 {
            assert(cur[0] == s@[lo as int]);
        }
        assert(trim_front(cur) == cur);
    }
    let mut hi: usize = hi0;
    while hi > lo && is_blank_byte(s[hi - 1])
        invariant
            lo <= hi <= hi0 <= s@.len(),
            trim_back(s@.subrange(lo as int, hi as int)) == trim_back(
                s@.subrange(lo as int, hi0 as int),
            ),
        decreases hi,
    {
        proof {
            let cur = s@.subrange(lo as int, hi as int);
            assert(cur.last() == s@[hi as int - 1]);
            assert(cur.drop_last() =~= s@.subrange(lo as int, hi as int - 1));
        }
        hi = hi - 1;
    }
    proof {
        let cur = s@.subrange(lo as int, hi as int);
        if cur.len() > 0 {
            assert(cur.last() == s@[hi as int - 1]);
        }
        assert(trim_back(cur) == cur);
        assert(s@.subrange(lo as int, hi as int) == spec_trim(
            s@.subrange(lo0 as int, hi0 as int),
        ));
    }
    (lo, hi)
}

/// The streaming decoder for DAP frames. It owns the bytes fed so far;
/// `remaining()` is what has not yet been consumed.
pub struct DapCodec {
    pub mode: DecodeMode,
    pub content_len: Option<usize>,
    pub buf: Vec<u8>,
    pub start: usize,
}

impl DapCodec {
    /// The unconsumed bytes cannot outrun the buffer.
    pub open spec fn wf(&self) -> bool {
        self.start <= self.buf@.len()
    }

    /// The bytes fed but not yet consumed.
    pub open spec fn remaining(&self) -> Seq<u8> {
        self.buf@.skip(self.start as int)
    }

    /// The pending `Content-Length`, as a mathematical value.
    pub open spec fn clen(&self) -> Option<nat> {
        match self.content_len {
            Some(n) => Some(n as nat),
            None => None,
        }
    }

    /// A fresh decoder, awaiting the first header.
    pub fn new() -> (c: DapCodec)
        ensures
            c.wf(),
            c.mode == DecodeMode::ReadingHeaders,
            c.clen() is None,
            c.remaining() == Seq::<u8>::empty(),
    {
        let c = DapCodec { mode: DecodeMode::ReadingHeaders, content_len: None, buf: Vec::new(), start: 0 };
        proof {
            assert(c.remaining() =~= Seq::<u8>::empty());
        }
        c
    }

    /// Appends freshly read bytes to the decoder's buffer.
    pub fn feed(&mut self, bytes: &[u8])
        requires
            old(self).wf(),
        ensures
            final(self).wf(),
            final(self).mode == old(self).mode,
            final(self).clen() == old(self).clen(),
            final(self).remaining() == old(self).remaining() + bytes@,
    {
        let mut k: usize = 0;
        proof {
            assert(bytes@.take(0) =~= Seq::<u8>::empty());
            assert(old(self).buf@ + Seq::<u8>::empty() =~= old(self).buf@);
        }
        while k < bytes.len()
            invariant
                self.wf(),
                0 <= k <= bytes@.len(),
                self.mode == old(self).mode,
                self.content_len == old(self).content_len,
                self.start == old(self).start,
                self.buf@ == old(self).buf@ + bytes@.take(k as int),
            decreases bytes@.len() - k,
        {
            self.buf.push(bytes[k]);
            proof {
                assert(self.buf@ =~= old(self).buf@ + bytes@.take(k as int + 1));
            }
            k = k + 1;
        }
        proof {
            assert(bytes@.take(bytes@.len() as int) =~= bytes@);
            assert(self.remaining() =~= old(self).remaining() + bytes@);
        }
    }

    /// Runs the decoder one step: consumes header lines until it can
    /// yield a frame body (`Ok(Some(..))`), report that more bytes are
    /// needed (`Ok(None)`), or signal a malformed header. Follows
    /// `spec_decode` exactly; bytes of the next frame are never lost.
    #[verifier::loop_isolation(false)]
    pub fn decode(&mut self) -> (r: Result<Option<Vec<u8>>, DapCodecError>)
        requires
            old(self).wf(),
        ensures
            final(self).wf(),
            ({
                let o = spec_decode(old(self).mode, old(self).clen(), old(self).remaining());
                &&& final(self).mode == o.mode
                &&& final(self).clen() == o.clen
                &&& final(self).remaining() == o.rem
                &&& match r {
                    Ok(None) => o.step is NeedMore,
                    Ok(Some(v)) => o.step matches DecodeStep::Frame(b) && v@ == b,
                    Err(e) => o.step is Fail && e == DapCodecError::MalformedHeader,
                }
            }),
    {
        let ghost o = spec_decode(self.mode, self.clen(), self.remaining());
        loop
            invariant
                self.wf(),
                spec_decode(self.mode, self.clen(), self.remaining()) == o,
            decreases self.buf@.len() - self.start,
        {
            match self.mode {
                DecodeMode::ReadingHeaders => {
                    let buf_len = self.buf.len();
                    let sub = slice_subrange(self.buf.as_slice(), self.start, buf_len);
                    proof {
                        assert(sub@ =~= self.remaining());
                    }
                    let found = find_delim(sub, 13, 10);
                    match found {
                        None => {
                            return Ok(None);
                        },
                        Some(p) => {
                            proof {
                                lemma_find_delim_char(self.remaining(), 13, 10);
                            }
                            let ghost r0 = self.remaining();
                            let ghost clen0 = self.clen();
                            let ghost snap = *self;
                            // Copy the header line out of the buffer.
                            let mut line: Vec<u8> = Vec::new();
                            let mut k: usize = 0;
                            proof {
                                assert(r0.take(p as int).take(0) =~= Seq::<u8>::empty());
                            }
                            while k < p
                                invariant
                                    0 <= k <= p,
                                    p + 1 < r0.len(),
                                    *self == snap,
                                    r0 == self.remaining(),
                                    self.wf(),
                                    line@ == r0.take(p as int).take(k as int),
                                decreases p - k,
                            {
                                proof {
                                    assert(r0.len() == self.buf@.len() - self.start);
                                }
                                line.push(self.buf[self.start + k]);
                                proof {
                                    assert(r0.take(p as int).take(k as int + 1) =~= r0.take(
                                        p as int,
                                    ).take(k as int).push(r0[k as int]));
                                    assert(r0[k as int] == self.buf@[self.start + k]);
                                }
                                k = k + 1;
                            }
                            proof {
                                assert(line@ =~= r0.take(p as int));
                            }
                            // Consume the line and its CRLF.
                            self.start = self.start + p + 2;
                            proof {
                                assert(self.remaining() =~= r0.skip(p as int + 2));
                            }
                            if line.len() == 0 {
                                match self.content_len {
                                    None => {
                                        return Err(DapCodecError::MalformedHeader);
                                    },
                                    Some(_) => {
                                        self.mode = DecodeMode::ReadingBody;
                                    },
                                }
                            } else {
                                let colon = find_byte(line.as_slice(), 58);
                                match colon {
                                    None => {
                                        return Err(DapCodecError::MalformedHeader);
                                    },
                                    Some(c) => {
                                        proof {
                                            lemma_find_byte_char(line@, 58);
                                        }
                                        let name = slice_subrange(line.as_slice(), 0, c);
                                        proof {
                                            assert(name@ =~= line@.take(c as int));
                                        }
                                        if is_content_length(name) {
                                            let line_len = line.len();
                                            let (lo, hi) = trim_range(
                                                line.as_slice(),
                                                c + 1,
                                                line_len,
                                            );
                                            proof {
                                                assert(line@.subrange(c as int + 1, line@.len() as int)
                                                    =~= line@.skip(c as int + 1));
                                            }
                                            let value = slice_subrange(line.as_slice(), lo, hi);
                                            match parse_dec_bytes(value) {
                                                Some(n) => {
                                                    self.content_len = Some(n);
                                                },
                                                None => {
                                                    return Err(DapCodecError::MalformedHeader);
                                                },
                                            }
                                        }
                                        // Other headers are ignored.
                                    },
                                }
                            }
                        },
                    }
                },
                DecodeMode::ReadingBody => {
                    let n: usize = match self.content_len {
                        Some(n) => n,
                        None => 0,
                    };
                    if self.buf.len() - self.start < n {
                        return Ok(None);
                    }
                    let ghost r0 = self.remaining();
                    let ghost snap = *self;
                    let mut body: Vec<u8> = Vec::new();
                    let mut k: usize = 0;
                    proof {
                        assert(r0.take(n as int).take(0) =~= Seq::<u8>::empty());
                    }
                    while k < n
                        invariant
                            0 <= k <= n,
                            n <= r0.len(),
                            *self == snap,
                            r0 == self.remaining(),
                            self.wf(),
                            body@ == r0.take(n as int).take(k as int),
                        decreases n - k,
                    {
                        proof {
                            assert(r0.len() == self.buf@.len() - self.start);
                        }
                        body.push(self.buf[self.start + k]);
                        proof {
                            assert(r0.take(n as int).take(k as int + 1) =~= r0.take(n as int).take(
                                k as int,
                            ).push(r0[k as int]));
                            assert(r0[k as int] == self.buf@[self.start + k]);
                        }
                        k = k + 1;
                    }
                    proof {
                        assert(body@ =~= r0.take(n as int));
                    }
                    self.start = self.start + n;
                    self.mode = DecodeMode::ReadingHeaders;
                    self.content_len = None;
                    proof {
                        assert(self.remaining() =~= r0.skip(n as int));
                    }
                    return Ok(Some(body));
                },
            }
        }
    }
}

/// Extending the bytes does not move an already-found pair.
proof fn lemma_find_delim_append(s: Seq<u8>, ext: Seq<u8>, first: u8, second: u8)
    requires
        spec_find_delim(s, first, second) is Some,
    ensures
        spec_find_delim(s + ext, first, second) == spec_find_delim(s, first, second),
    decreases s.len(),
{
    let t = s + ext;
    assert(t.len() >= s.len());
    assert(t[0] == s[0]);
    assert(t[1] == s[1]);
    if s[0] == first && s[1] == second {
    } else {
        lemma_find_delim_append(s.skip(1), ext, first, second);
        assert(s.skip(1) + ext =~= t.skip(1));
        lemma_find_delim_step(t, first, second);
    }
}

/// A byte standing at `k`, with none of its kind before it, is the one
/// `spec_find_byte` finds.
proof fn lemma_find_byte_at(s: Seq<u8>, b: u8, k: int)
    requires
        0 <= k < s.len(),
        s[k] == b,
        forall|j: int| 0 <= j < k ==> s[j] != b,
    ensures
        spec_find_byte(s, b) == Some(k),
    decreases k,
{
    if k == 0 {
    } else {
        lemma_find_byte_at(s.skip(1), b, k - 1);
        assert(s.skip(1)[k - 1] == s[k]);
        assert forall|j: int| 0 <= j < k - 1 implies s.skip(1)[j] != b by {
            assert(s.skip(1)[j] == s[j + 1]);
        }
    }
}

/// A sequence that does not start with a blank is already front-trimmed.
proof fn lemma_trim_front_id(s: Seq<u8>)
    requires
        s.len() == 0 || !is_blank(s[0]),
    ensures
        trim_front(s) == s,
{
}

/// A sequence that does not end with a blank is already back-trimmed.
proof fn lemma_trim_back_id(s: Seq<u8>)
    requires
        s.len() == 0 || !is_blank(s.last()),
    ensures
        trim_back(s) == s,
{
}

/// Feeding the missing bytes later decodes the same as having had them
/// from the start: when one step ends in `NeedMore`, appending `ext` to
/// the original bytes or to what that step left over comes to the same.
pub proof fn lemma_decode_extend(mode: DecodeMode, clen: Option<nat>, r: Seq<u8>, ext: Seq<u8>)
    ensures
        ({
            let o = spec_decode(mode, clen, r);
            o.step is NeedMore ==> spec_decode(mode, clen, r + ext) == spec_decode(
                o.mode,
                o.clen,
                o.rem + ext,
            )
        }),
    decreases r.len(),
{
    let o = spec_decode(mode, clen, r);
    match mode {
        DecodeMode::ReadingHeaders => {
            match spec_find_delim(r, 13, 10) {
                None => {
                    assert(o.rem == r);
                },
                Some(p) => {
                    lemma_find_delim_char(r, 13, 10);
                    lemma_find_delim_append(r, ext, 13, 10);
                    let t = r + ext;
                    assert(t.take(p) =~= r.take(p));
                    assert(t.skip(p + 2) =~= r.skip(p + 2) + ext);
                    let line = r.take(p);
                    let rest = r.skip(p + 2);
                    if line.len() == 0 {
                        match clen {
                            None => {},
                            Some(n) => {
                                lemma_decode_extend(DecodeMode::ReadingBody, Some(n), rest, ext);
                            },
                        }
                    } else {
                        match spec_parse_header(line) {
                            HeaderParse::Malformed => {},
                            HeaderParse::Length(n) => {
                                lemma_decode_extend(
                                    DecodeMode::ReadingHeaders,
                                    Some(n),
                                    rest,
                                    ext,
                                );
                            },
                            HeaderParse::Other => {
                                lemma_decode_extend(DecodeMode::ReadingHeaders, clen, rest, ext);
                            },
                        }
                    }
                },
            }
        },
        DecodeMode::ReadingBody => {
            assert(o.step is NeedMore ==> o.rem == r);
        },
    }
}

/// Decoding an encoded frame yields exactly the body that was framed,
/// with any following bytes left untouched for the next frame.
pub proof fn lemma_frame_round_trip(body: Seq<u8>, tail: Seq<u8>)
    requires
        body.len() <= usize::MAX,
    ensures
        ({
            let o = spec_decode(DecodeMode::ReadingHeaders, None, spec_encode(body) + tail);
            &&& o.mode == DecodeMode::ReadingHeaders
            &&& o.clen is None
            &&& o.rem == tail
            &&& o.step == DecodeStep::Frame(body)
        }),
{
    let d = dec_bytes(body.len());
    let dl = d.len() as int;
    lemma_dec_bytes_digits(body.len());
    lemma_dec_round_trip(body.len());
    let s = spec_encode(body) + tail;
    assert(s =~= header_label() + d + seq![13u8, 10u8, 13u8, 10u8] + body + tail);
    // The first CRLF closes the Content-Length line.
    assert forall|j: int| 0 <= j < 16 + dl implies s[j] != 13 by {
        if j < 16 {
            assert(s[j] == header_label()[j]);
        } else {
            assert(s[j] == d[j - 16]);
            assert(is_ascii_digit(d[j - 16]));
        }
    }
    assert(s[16 + dl] == 13);
    assert(s[16 + dl + 1] == 10);
    lemma_find_delim_at(s, 13, 10, 16 + dl);
    let line = s.take(16 + dl);
    let rest = s.skip(16 + dl + 2);
    assert(line =~= header_label() + d);
    assert(rest =~= seq![13u8, 10u8] + body + tail);
    // The line parses as a Content-Length of the body's length.
    assert forall|j: int| 0 <= j < 14 implies line[j] != 58 by {
        assert(line[j] == header_label()[j]);
    }
    assert(line[14] == 58);
    lemma_find_byte_at(line, 58, 14);
    let name = line.take(14);
    assert(name =~= header_label().take(14));
    assert(lower_seq(name) =~= content_length_label());
    let value_part = line.skip(15);
    assert(value_part =~= seq![32u8] + d);
    assert(value_part.skip(1) =~= d);
    assert(is_blank(value_part[0]));
    assert(trim_front(value_part) == trim_front(d));
    assert(!is_blank(d[0]));
    lemma_trim_front_id(d);
    assert(!is_blank(d.last()));
    lemma_trim_back_id(d);
    assert(spec_trim(value_part) == d);
    assert(spec_parse_header(line) == HeaderParse::Length(body.len() as nat));
    assert(line.len() != 0);
    assert(spec_decode(DecodeMode::ReadingHeaders, None, s) == spec_decode(
        DecodeMode::ReadingHeaders,
        Some(body.len() as nat),
        rest,
    ));
    // The empty line switches to the body, which is fully present.
    assert(rest[0] == 13);
    assert(rest[1] == 10);
    assert(spec_find_delim(rest, 13, 10) == Some(0int));
    let rest2 = rest.skip(2);
    assert(rest.take(0).len() == 0);
    assert(spec_decode(DecodeMode::ReadingHeaders, Some(body.len() as nat), rest) == spec_decode(
        DecodeMode::ReadingBody,
        Some(body.len() as nat),
        rest2,
    ));
    assert(rest2 =~= body + tail);
    assert(rest.take(0).len() == 0);
    assert(rest2.take(body.len() as int) =~= body);
    assert(rest2.skip(body.len() as int) =~= tail);
    assert(spec_decode(DecodeMode::ReadingBody, Some(body.len()), rest2) == DecodeOutcome {
        mode: DecodeMode::ReadingHeaders,
        clen: None::<nat>,
        rem: tail,
        step: DecodeStep::Frame(body),
    });
}

/// Where `spec_find_byte` finds a byte, it stands there and nowhere
/// earlier.
pub proof fn lemma_find_byte_char(s: Seq<u8>, b: u8)
    ensures
        match spec_find_byte(s, b) {
            Some(i) => 0 <= i < s.len() && s[i] == b && forall|j: int| 0 <= j < i ==> #[trigger] s[j]
                != b,
            None => forall|j: int| 0 <= j < s.len() ==> #[trigger] s[j] != b,
        },
    decreases s.len(),
{
    if s.len() > 0 && s[0] != b {
        lemma_find_byte_char(s.skip(1), b);
        match spec_find_byte(s.skip(1), b) {
            Some(i) => {
                assert(s.skip(1)[i] == s[i + 1]);
                assert forall|j: int| 0 <= j < i + 1 implies #[trigger] s[j] != b by {
                    if j > 0 {
                        assert(s.skip(1)[j - 1] == s[j]);
                    }
                }
            },
            None => {
                assert forall|j: int| 0 <= j < s.len() implies #[trigger] s[j] != b by {
                    if j > 0 {
                        assert(s.skip(1)[j - 1] == s[j]);
                    }
                }
            },
        }
    }
}

/// The bytes of one encoded frame: the canonical header, the body
/// length in decimal, a blank line, then the body itself.
pub open spec fn spec_encode(body: Seq<u8>) -> Seq<u8> {
    header_label() + dec_bytes(body.len()) + seq![13u8, 10u8, 13u8, 10u8] + body
}

/// Encodes one frame around `body`.
pub fn encode_frame(body: &[u8]) -> (r: Vec<u8>)
    ensures
        r@ == spec_encode(body@),
{
    // Room for the header up front, so the body extends in place.
    let cap = if body.len() < usize::MAX - 32 {
        body.len() + 32
    } else {
        usize::MAX
    };
    let mut out: Vec<u8> = Vec::with_capacity(cap);
    let mut i: usize = 0;
    while i < 16
        invariant
            0 <= i <= 16,
            out@ =~= header_label().take(i as int),
        decreases 16 - i,
    {
        out.push(header_label_byte(i));
        proof {
            assert(out@ =~= header_label().take(i as int + 1));
        }
        i = i + 1;
    }
    proof {
        assert(out@ =~= header_label());
    }
    push_dec_bytes(body.len(), &mut out);
    out.push(13);
    out.push(10);
    out.push(13);
    out.push(10);
    let mut j: usize = 0;
    while j < body.len()
        invariant
            0 <= j <= body@.len(),
            out@ =~= header_label() + dec_bytes(body@.len()) + seq![13u8, 10u8, 13u8, 10u8]
                + body@.take(j as int),
        decreases body@.len() - j,
    {
        out.push(body[j]);
        proof {
            assert(body@.take(j as int + 1) =~= body@.take(j as int).push(body@[j as int]));
        }
        j = j + 1;
    }
    proof {
        assert(body@.take(body@.len() as int) =~= body@);
        assert(out@ =~= spec_encode(body@));
    }
    out
}

} // verus!
