use vstd::prelude::*;
use vstd::string::StringExecFns;
use vstd::utf8::{
    decode_utf8, is_continuation_byte, is_leading_byte_width_1, is_leading_byte_width_2, is_leading_byte_width_3,
    is_leading_byte_width_4, valid_utf8,
};

use crate::text::{chars_of, slice_chars, starts_with, starts_with_chars, string_of, trim, trim_chars};
use crate::urls::views;

verus! {

// ---------------------------------------------------------------------------
// Lines of a server-sent event stream
// ---------------------------------------------------------------------------

/// The complete lines of `s` (each without its `'\n'`), and the text after the last `'\n'`.
pub open spec fn split_lines(s: Seq<char>) -> (Seq<Seq<char>>, Seq<char>)
    decreases s.len(),
{
    if s.len() == 0 {
        (Seq::empty(), Seq::empty())
    } else {
        let (lines, rest) = split_lines(s.drop_last());
        if s.last() == '\n' {
            (lines.push(rest), Seq::empty())
        } else {
            (lines, rest.push(s.last()))
        }
    }
}

/// What one line of the stream means.
pub enum LineKind {
    /// An empty line, a comment (`:` first), or a line that carries no data.
    Skip,
    /// The `data: [DONE]` terminator.
    Done,
    /// A `data: ` line and the text after that prefix.
    Data(Seq<char>),
}

/// The meaning of a raw line: it is trimmed; empty lines and comments are skipped; a line that
/// starts with `data: ` carries the text after the prefix, unless that text trims to `[DONE]`.
pub open spec fn line_kind(raw: Seq<char>) -> LineKind {
    let line = trim(raw);
    if line.len() == 0 || line[0] == ':' {
        LineKind::Skip
    } else if starts_with(line, "data: "@) {
        let data = line.subrange("data: "@.len() as int, line.len() as int);
        if trim(data) == "[DONE]"@ {
            LineKind::Done
        } else {
            LineKind::Data(data)
        }
    } else {
        LineKind::Skip
    }
}

/// The data payloads of `lines` up to the first terminator, and whether there is one.
pub open spec fn scan(lines: Seq<Seq<char>>) -> (Seq<Seq<char>>, bool)
    decreases lines.len(),
{
    if lines.len() == 0 {
        (Seq::empty(), false)
    } else {
        let (payloads, done) = scan(lines.drop_last());
        if done {
            (payloads, true)
        } else {
            match line_kind(lines.last()) {
                LineKind::Done => (payloads, true),
                LineKind::Skip => (payloads, false),
                LineKind::Data(d) => (payloads.push(d), false),
            }
        }
    }
}

/// What feeding `text` to a decoder that holds `buffer` (and has not seen the terminator)
/// gives: the payloads to parse, whether the terminator came, and the partial line kept.
pub open spec fn feed_spec(buffer: Seq<char>, text: Seq<char>) -> (Seq<Seq<char>>, bool, Seq<char>) {
    let (lines, rest) = split_lines(buffer + text);
    let (payloads, done) = scan(lines);
    (payloads, done, if done {
        Seq::empty()
    } else {
        rest
    })
}

/// The classification of one line (see `line_kind`).
pub enum SseLine {
    Skip,
    Done,
    Data(String),
}

pub open spec fn sse_line_matches(l: SseLine, k: LineKind) -> bool {
    match (l, k) {
        (SseLine::Skip, LineKind::Skip) => true,
        (SseLine::Done, LineKind::Done) => true,
        (SseLine::Data(s), LineKind::Data(d)) => s@ == d,
        _ => false,
    }
}

/// Classifies one raw line of the stream.
pub fn classify_line(raw: &Vec<char>) -> (r: SseLine)
    ensures
        sse_line_matches(r, line_kind(raw@)),
{
    let line = trim_chars(raw);
    if line.len() == 0 || line[0] == ':' {
        return SseLine::Skip;
    }
    let prefix = chars_of("data: ");
    if starts_with_chars(&line, &prefix) {
        let data = slice_chars(&line, prefix.len(), line.len());
        let t = trim_chars(&data);
        let done_mark = chars_of("[DONE]");
        if crate::text::chars_eq(&t, &done_mark) {
            SseLine::Done
        } else {
            SseLine::Data(string_of(data.as_slice()))
        }
    } else {
        SseLine::Skip
    }
}

// ---------------------------------------------------------------------------
// The decoder
// ---------------------------------------------------------------------------

/// What `String::from_utf8_lossy` makes of `bytes`.
pub uninterp spec fn utf8_lossy(bytes: Seq<u8>) -> Seq<char>;

/// `String::from_utf8_lossy`. Claimed: the result is `utf8_lossy` of the bytes, and, as its
/// documentation says, the decoded text itself when the bytes are valid UTF-8. How invalid
/// sequences are replaced is not stated.
#[verifier::external_body]
pub(crate) fn decode_lossy(bytes: &[u8]) -> (s: String)
    ensures
        s@ == utf8_lossy(bytes@),
        valid_utf8(bytes@) ==> s@ == decode_utf8(bytes@),
{
    String::from_utf8_lossy(bytes).to_string()
}

/// How many of `b`'s bytes can be decoded now: all of them, but for a trailing lead byte of
/// a multi-byte character followed by fewer continuation bytes than that character needs.
pub open spec fn complete_len(b: Seq<u8>) -> int {
    let n = b.len() as int;
    if n >= 1 && (is_leading_byte_width_2(b[n - 1]) || is_leading_byte_width_3(b[n - 1])
        || is_leading_byte_width_4(b[n - 1])) {
        n - 1
    } else if n >= 2 && is_continuation_byte(b[n - 1]) && (is_leading_byte_width_3(b[n - 2])
        || is_leading_byte_width_4(b[n - 2])) {
        n - 2
    } else if n >= 3 && is_continuation_byte(b[n - 1]) && is_continuation_byte(b[n - 2])
        && is_leading_byte_width_4(b[n - 3]) {
        n - 3
    } else {
        n
    }
}

fn complete_prefix_len(b: &Vec<u8>) -> (r: usize)
    ensures
        r == complete_len(b@),
        r <= b@.len(),
{
    let n = b.len();
    if n >= 1 && b[n - 1] >= 0xc0 && b[n - 1] <= 0xf7 {
        n - 1
    } else if n >= 2 && b[n - 1] >= 0x80 && b[n - 1] <= 0xbf && b[n - 2] >= 0xe0 && b[n - 2] <= 0xf7 {
        n - 2
    } else if n >= 3 && b[n - 1] >= 0x80 && b[n - 1] <= 0xbf && b[n - 2] >= 0x80 && b[n - 2] <= 0xbf
        && b[n - 3] >= 0xf0 && b[n - 3] <= 0xf7 {
        n - 3
    } else {
        n
    }
}

/// The content delta of a streamed completion chunk.
pub struct StreamDelta {
    pub content: Option<String>,
}

/// One choice of a streamed completion chunk.
pub struct StreamChoice {
    pub delta: Option<StreamDelta>,
}

/// A streamed completion chunk (the JSON object after `data: `).
pub struct StreamChunk {
    pub choices: Option<Vec<StreamChoice>>,
}

/// The text a choice carries, if any.
pub open spec fn choice_text(c: StreamChoice) -> Option<Seq<char>> {
    match c.delta {
        Some(d) => match d.content {
            Some(s) => Some(s@),
            None => None,
        },
        None => None,
    }
}

/// The texts of the choices that carry one, in order.
pub open spec fn choices_texts(cs: Seq<StreamChoice>) -> Seq<Seq<char>>
    decreases cs.len(),
{
    if cs.len() == 0 {
        Seq::empty()
    } else {
        let d = choices_texts(cs.drop_last());
        match choice_text(cs.last()) {
            Some(s) => d.push(s),
            None => d,
        }
    }
}

/// The deltas of a parsed chunk; a payload that did not parse (`None`) has none.
pub open spec fn chunk_texts(chunk: Option<StreamChunk>) -> Seq<Seq<char>> {
    match chunk {
        Some(c) => match c.choices {
            Some(cs) => choices_texts(cs@),
            None => Seq::empty(),
        },
        None => Seq::empty(),
    }
}

/// The concatenation of all of `parts`.
pub open spec fn concat_all(parts: Seq<Seq<char>>) -> Seq<char>
    decreases parts.len(),
{
    if parts.len() == 0 {
        Seq::empty()
    } else {
        concat_all(parts.drop_last()) + parts.last()
    }
}

/// Incremental decoder for an OpenAI-compatible server-sent event stream. Bytes go in chunk by
/// chunk; complete `data: ` lines come out as payloads to parse; the parsed chunks go back in,
/// and the decoder accumulates their content deltas.
pub struct SseDecoder {
    buffer: Vec<char>,
    pending: Vec<u8>,
    done: bool,
    content: String,
}

impl SseDecoder {
    /// Well-formedness: the partial line never holds a line break.
    pub closed spec fn wf(&self) -> bool {
        !self.buffer@.contains('\n')
    }

    /// The partial line held back until its `'\n'` arrives.
    pub closed spec fn buffer(&self) -> Seq<char> {
        self.buffer@
    }

    /// The bytes at the end of what was fed that begin a character whose remaining bytes
    /// have not arrived yet.
    pub closed spec fn pending(&self) -> Seq<u8> {
        self.pending@
    }

    /// Whether the `[DONE]` terminator has been seen.
    pub closed spec fn is_done(&self) -> bool {
        self.done
    }

    /// All content received so far.
    pub closed spec fn content(&self) -> Seq<char> {
        self.content@
    }

    pub fn new() -> (d: Self)
        ensures
            d.wf(),
            d.buffer() == Seq::<char>::empty(),
            d.pending() == Seq::<u8>::empty(),
            !d.is_done(),
            d.content() == Seq::<char>::empty(),
    {
        SseDecoder { buffer: Vec::new(), pending: Vec::new(), done: false, content: String::new() }
    }

    /// Whether the terminator has been seen.
    pub fn done(&self) -> (r: bool)
        ensures
            r == self.is_done(),
    {
        self.done
    }

    /// The content accumulated so far.
    pub fn full_content(&self) -> (r: String)
        ensures
            r@ == self.content(),
    {
        self.content.clone()
    }

    /// Feeds decoded text; returns the data payloads of the lines it completes, up to the
    /// terminator. Once the terminator has been seen, further text is ignored.
    pub fn feed_text(&mut self, text: &str) -> (payloads: Vec<String>)
        requires
            old(self).wf(),
        ensures
            final(self).wf(),
            final(self).content() == old(self).content(),
            final(self).pending() == old(self).pending(),
            old(self).is_done() ==> {
                &&& payloads@.len() == 0
                &&& final(self).is_done()
                &&& final(self).buffer() == old(self).buffer()
            },
            !old(self).is_done() ==> {
                let (p, d, b) = feed_spec(old(self).buffer(), text@);
                &&& views(payloads@) == p
                &&& final(self).is_done() == d
                &&& final(self).buffer() == b
            },
    {
        let mut payloads: Vec<String> = Vec::new();
        if self.done {
            return payloads;
        }
        let cs = chars_of(text);
        let ghost start = self.buffer@;
        let ghost mut lines: Seq<Seq<char>> = Seq::empty();
        let mut i: usize = 0;
        proof {
            assert(start + cs@.take(0) =~= start);
            lemma_split_lines_no_newline(start);
        }
        while i < cs.len()
            invariant
                i <= cs.len(),
                cs@ == text@,
                !self.done,
                self.content@ == old(self).content@,
                self.pending@ == old(self).pending@,
                split_lines(start + cs@.take(i as int)) == (lines, self.buffer@),
                scan(lines) == (views(payloads@), false),
                start == old(self).buffer@,
                !start.contains('\n'),
                !old(self).done,
            decreases cs.len() - i,
        {
            let c = cs[i];
            let ghost prefix = start + cs@.take(i as int);
            let ghost old_lines = lines;
            let ghost old_buf = self.buffer@;
            assert((start + cs@.take(i + 1)).drop_last() =~= prefix);
            assert((start + cs@.take(i + 1)).last() == c);
            if c == '\n' {
                let kind = classify_line(&self.buffer);
                proof {
                    lines = lines.push(old_buf);
                    assert(lines.drop_last() =~= old_lines);
                    assert(lines.last() == old_buf);
                }
                self.buffer = Vec::new();
                assert(split_lines(start + cs@.take(i + 1)) == (lines, self.buffer@));
                match kind {
                    SseLine::Done => {
                        assert(scan(lines) == (views(payloads@), true));
                        self.done = true;
                        proof {
                            lemma_feed_stops_at_done(start, cs@, i + 1);
                            assert(feed_spec(start, text@).0 == views(payloads@));
                        }
                        return payloads;
                    },
                    SseLine::Skip => {
                        assert(scan(lines) == (views(payloads@), false));
                    },
                    SseLine::Data(d) => {
                        let ghost before = payloads@;
                        payloads.push(d);
                        assert(views(payloads@) =~= views(before).push(d@));
                        assert(scan(lines) == (views(payloads@), false));
                    },
                }
            } else {
                self.buffer.push(c);
                assert(split_lines(start + cs@.take(i + 1)) == (lines, self.buffer@));
            }
            i += 1;
        }
        assert(cs@.take(cs.len() as int) =~= cs@);
        proof {
            lemma_split_rest_has_no_newline(start + cs@);
        }
        payloads
    }

    /// Feeds a chunk of bytes as it came off the wire. The bytes held back from earlier chunks
    /// come first; of the whole, a character whose bytes have not all arrived yet is held back
    /// (`complete_len`), and the rest is decoded with `String::from_utf8_lossy` and fed as
    /// text, so a character split across chunks is decoded once it is complete.
    pub fn feed(&mut self, chunk: &[u8]) -> (payloads: Vec<String>)
        requires
            old(self).wf(),
        ensures
            final(self).wf(),
            final(self).content() == old(self).content(),
            final(self).pending() == (old(self).pending() + chunk@).skip(
                complete_len(old(self).pending() + chunk@),
            ),
            old(self).is_done() ==> payloads@.len() == 0 && final(self).is_done(),
            !old(self).is_done() ==> {
                let all = old(self).pending() + chunk@;
                let (p, d, b) = feed_spec(old(self).buffer(), utf8_lossy(all.take(complete_len(all))));
                &&& views(payloads@) == p
                &&& final(self).is_done() == d
                &&& final(self).buffer() == b
            },
            !old(self).is_done() && valid_utf8(
                (old(self).pending() + chunk@).take(complete_len(old(self).pending() + chunk@)),
            ) ==> {
                let all = old(self).pending() + chunk@;
                let (p, d, b) = feed_spec(old(self).buffer(), decode_utf8(all.take(complete_len(all))));
                &&& views(payloads@) == p
                &&& final(self).is_done() == d
                &&& final(self).buffer() == b
            },
    {
        let ghost all = self.pending@ + chunk@;
        let mut bytes: Vec<u8> = Vec::new();
        std::mem::swap(&mut bytes, &mut self.pending);
        let mut i: usize = 0;
        while i < chunk.len()
            invariant
                i <= chunk@.len(),
                all == old(self).pending@ + chunk@,
                bytes@ == old(self).pending@ + chunk@.take(i as int),
            decreases chunk.len() - i,
        {
            bytes.push(chunk[i]);
            assert(chunk@.take(i + 1) =~= chunk@.take(i as int).push(chunk@[i as int]));
            i += 1;
        }
        assert(chunk@.take(chunk@.len() as int) =~= chunk@);
        let cut = complete_prefix_len(&bytes);
        let mut head: Vec<u8> = Vec::new();
        let mut tail: Vec<u8> = Vec::new();
        let mut j: usize = 0;
        while j < bytes.len()
            invariant
                j <= bytes@.len(),
                cut <= bytes@.len(),
                head@ == bytes@.take(if j < cut { j as int } else { cut as int }),
                tail@ == if j < cut { Seq::<u8>::empty() } else { bytes@.subrange(cut as int, j as int) },
            decreases bytes.len() - j,
        {
            if j < cut {
                head.push(bytes[j]);
                assert(bytes@.take(j + 1) =~= bytes@.take(j as int).push(bytes@[j as int]));
            } else {
                tail.push(bytes[j]);
                assert(bytes@.subrange(cut as int, j + 1) =~= bytes@.subrange(cut as int, j as int).push(bytes@[j as int]));
            }
            j += 1;
        }
        assert(bytes@.subrange(cut as int, bytes@.len() as int) =~= bytes@.skip(cut as int));
        self.pending = tail;
        let text = decode_lossy(head.as_slice());
        self.feed_text(text.as_str())
    }

    /// Takes in the parse of one payload (`None` when it is not a valid chunk, which is
    /// skipped); returns its content deltas, in order, and appends them to the content.
    pub fn apply_chunk(&mut self, chunk: Option<StreamChunk>) -> (deltas: Vec<String>)
        requires
            old(self).wf(),
        ensures
            final(self).wf(),
            views(deltas@) == chunk_texts(chunk),
            final(self).content() == old(self).content() + concat_all(chunk_texts(chunk)),
            final(self).buffer() == old(self).buffer(),
            final(self).is_done() == old(self).is_done(),
    {
        let mut deltas: Vec<String> = Vec::new();
        let ghost texts = chunk_texts(chunk);
        match chunk {
            None => {
                assert(self.content@ =~= old(self).content@ + concat_all(texts));
            },
            Some(c) => match c.choices {
                None => {
                    assert(self.content@ =~= old(self).content@ + concat_all(texts));
                },
                Some(choices) => {
                    let mut i: usize = 0;
                    while i < choices.len()
                        invariant
                            i <= choices.len(),
                            views(deltas@) == choices_texts(choices@.take(i as int)),
                            self.content@ == old(self).content@ + concat_all(views(deltas@)),
                            self.buffer@ == old(self).buffer@,
                            self.done == old(self).done,
                        decreases choices.len() - i,
                    {
                        assert(choices@.take(i + 1).drop_last() =~= choices@.take(i as int));
                        match &choices[i].delta {
                            Some(d) => match &d.content {
                                Some(s) => {
                                    let ghost before = deltas@;
                                    self.content.append(s.as_str());
                                    deltas.push(s.clone());
                                    assert(views(deltas@) =~= views(before).push(s@));
                                    assert(views(deltas@).drop_last() =~= views(before));
                                },
                                None => {},
                            },
                            None => {},
                        }
                        i += 1;
                    }
                    assert(choices@.take(choices.len() as int) =~= choices@);
                },
            },
        }
        deltas
    }
}

// ---------------------------------------------------------------------------
// Laws
// ---------------------------------------------------------------------------

/// A text without `'\n'` is all partial line.
pub proof fn lemma_split_lines_no_newline(s: Seq<char>)
    requires
        !s.contains('\n'),
    ensures
        split_lines(s) == (Seq::<Seq<char>>::empty(), s),
    decreases s.len(),
{
    if s.len() > 0 {
        assert(!s.drop_last().contains('\n')) by {
            if s.drop_last().contains('\n') {
                let k = choose|k: int| 0 <= k < s.drop_last().len() && s.drop_last()[k] == '\n';
                assert(s[k] == '\n');
            }
        }
        lemma_split_lines_no_newline(s.drop_last());
        assert(s[s.len() - 1] == s.last());
        assert(s.drop_last().push(s.last()) =~= s);
    }
}

/// The partial line never holds a `'\n'`.
pub proof fn lemma_split_rest_has_no_newline(s: Seq<char>)
    ensures
        !split_lines(s).1.contains('\n'),
    decreases s.len(),
{
    if s.len() > 0 {
        lemma_split_rest_has_no_newline(s.drop_last());
        let r = split_lines(s.drop_last()).1;
        if s.last() != '\n' {
            assert forall|k: int| 0 <= k < r.push(s.last()).len() implies r.push(s.last())[k]
                != '\n' by {
                if k < r.len() {
                    assert(r.push(s.last())[k] == r[k]);
                }
            }
        }
    }
}

/// Splitting `a + b` into lines is splitting `a`, then splitting its partial line followed by
/// `b`: lines may arrive cut at any point.
pub proof fn lemma_split_lines_append(a: Seq<char>, b: Seq<char>)
    ensures
        ({
            let (la, ra) = split_lines(a);
            let (lb, rb) = split_lines(ra + b);
            split_lines(a + b) == (la + lb, rb)
        }),
    decreases b.len(),
{
    let (la, ra) = split_lines(a);
    if b.len() == 0 {
        lemma_split_rest_has_no_newline(a);
        lemma_split_lines_no_newline(ra);
        assert(a + b =~= a);
        assert(ra + b =~= ra);
        assert(la + Seq::<Seq<char>>::empty() =~= la);
    } else {
        lemma_split_lines_append(a, b.drop_last());
        assert((a + b).drop_last() =~= a + b.drop_last());
        assert((ra + b).drop_last() =~= ra + b.drop_last());
        assert((a + b).last() == b.last());
        assert((ra + b).last() == b.last());
        let (lb0, rb0) = split_lines(ra + b.drop_last());
        if b.last() == '\n' {
            assert((la + lb0).push(rb0) =~= la + lb0.push(rb0));
        }
    }
}

/// Once the terminator is among the lines, later lines change nothing.
pub proof fn lemma_scan_append(x: Seq<Seq<char>>, y: Seq<Seq<char>>)
    ensures
        scan(x).1 ==> scan(x + y) == scan(x),
        !scan(x).1 ==> scan(x + y) == (scan(x).0 + scan(y).0, scan(y).1),
    decreases y.len(),
{
    if y.len() == 0 {
        assert(x + y =~= x);
        assert(scan(x).0 + Seq::<Seq<char>>::empty() =~= scan(x).0);
    } else {
        lemma_scan_append(x, y.drop_last());
        assert((x + y).drop_last() =~= x + y.drop_last());
        assert((x + y).last() == y.last());
        let (py, dy) = scan(y.drop_last());
        if !scan(x).1 && !dy {
            match line_kind(y.last()) {
                LineKind::Data(d) => {
                    assert((scan(x).0 + py).push(d) =~= scan(x).0 + py.push(d));
                },
                _ => {},
            }
        }
    }
}

proof fn lemma_feed_stops_at_done(start: Seq<char>, cs: Seq<char>, i: int)
    requires
        0 < i <= cs.len(),
        scan(split_lines(start + cs.take(i)).0).1,
    ensures
        scan(split_lines(start + cs).0) == scan(split_lines(start + cs.take(i)).0),
{
    let a = start + cs.take(i);
    let b = cs.subrange(i, cs.len() as int);
    assert(start + cs =~= a + b);
    lemma_split_lines_append(a, b);
    let (la, ra) = split_lines(a);
    lemma_scan_append(la, split_lines(ra + b).0);
}

/// Feeding a stream in two chunks gives the same payloads, in the same order, and leaves the
/// decoder in the same state as feeding it in one: chunk boundaries may fall anywhere, even
/// inside a line.
pub proof fn lemma_feed_chunking(buffer: Seq<char>, a: Seq<char>, b: Seq<char>)
    ensures
        ({
            let (p1, d1, b1) = feed_spec(buffer, a);
            let (p, d, rest) = feed_spec(buffer, a + b);
            if d1 {
                p == p1 && d && rest == b1
            } else {
                let (p2, d2, b2) = feed_spec(b1, b);
                p == p1 + p2 && d == d2 && rest == b2
            }
        }),
{
    let x = buffer + a;
    assert(buffer + (a + b) =~= x + b);
    lemma_split_lines_append(x, b);
    let (la, ra) = split_lines(x);
    let (lb, rb) = split_lines(ra + b);
    lemma_scan_append(la, lb);
}

/// Applying chunks one after another accumulates exactly the concatenation of the deltas
/// handed out.
pub proof fn lemma_concat_all_append(x: Seq<Seq<char>>, y: Seq<Seq<char>>)
    ensures
        concat_all(x + y) == concat_all(x) + concat_all(y),
    decreases y.len(),
{
    if y.len() == 0 {
        assert(x + y =~= x);
        assert(concat_all(x) + Seq::<char>::empty() =~= concat_all(x));
    } else {
        lemma_concat_all_append(x, y.drop_last());
        assert((x + y).drop_last() =~= x + y.drop_last());
        assert((x + y).last() == y.last());
        assert(concat_all(x) + concat_all(y.drop_last()) + y.last() =~= concat_all(x) + (
        concat_all(y.drop_last()) + y.last()));
    }
}

/// The first character of valid bytes: a lead byte of its width, then continuation bytes.
proof fn lemma_first_scalar_shape(s: Seq<u8>)
    requires
        valid_utf8(s),
        s.len() > 0,
    ensures
        1 <= vstd::utf8::length_of_first_scalar(s) <= 4,
        vstd::utf8::length_of_first_scalar(s) <= s.len(),
        vstd::utf8::length_of_first_scalar(s) == 1 <==> is_leading_byte_width_1(s[0]),
        vstd::utf8::length_of_first_scalar(s) == 2 <==> is_leading_byte_width_2(s[0]),
        vstd::utf8::length_of_first_scalar(s) == 3 <==> is_leading_byte_width_3(s[0]),
        vstd::utf8::length_of_first_scalar(s) == 4 <==> is_leading_byte_width_4(s[0]),
        forall|k: int| 1 <= k < vstd::utf8::length_of_first_scalar(s) ==> is_continuation_byte(#[trigger] s[k]),
{
}

/// Bytes that stop inside the first character decode to nothing yet.
proof fn lemma_cut_inside_first(s: Seq<u8>, i: int)
    requires
        valid_utf8(s),
        s.len() > 0,
        0 <= i < vstd::utf8::length_of_first_scalar(s),
    ensures
        complete_len(s.take(i)) == 0,
{
    lemma_first_scalar_shape(s);
    let t = s.take(i);
    assert(forall|k: int| 0 <= k < i ==> #[trigger] t[k] == s[k]);
}

/// Past the first character, the cut is that of the rest, shifted by the first character.
proof fn lemma_cut_after_first(s: Seq<u8>, i: int)
    requires
        valid_utf8(s),
        s.len() > 0,
        vstd::utf8::length_of_first_scalar(s) <= i <= s.len(),
    ensures
        complete_len(s.take(i)) == vstd::utf8::length_of_first_scalar(s) + complete_len(
            vstd::utf8::pop_first_scalar(s).take(i - vstd::utf8::length_of_first_scalar(s)),
        ),
{
    lemma_first_scalar_shape(s);
    let w = vstd::utf8::length_of_first_scalar(s);
    let r = vstd::utf8::pop_first_scalar(s);
    let t = s.take(i);
    let u = r.take(i - w);
    assert(forall|k: int| 0 <= k < i ==> #[trigger] t[k] == s[k]);
    assert(forall|k: int| 0 <= k < i - w ==> #[trigger] u[k] == s[w + k]);
}

/// Of valid UTF-8 bytes `s` of which the first `i` have arrived, the bytes decoded now
/// (`complete_len`) end at a character boundary: both sides are valid, and their decodings
/// make up the decoding of `s`. Once all of `s` has arrived, nothing is held back.
proof fn lemma_complete_cut(s: Seq<u8>, i: int)
    requires
        valid_utf8(s),
        0 <= i <= s.len(),
    ensures
        0 <= complete_len(s.take(i)) <= i,
        i == s.len() ==> complete_len(s.take(i)) == i,
        valid_utf8(s.take(complete_len(s.take(i)))),
        valid_utf8(s.skip(complete_len(s.take(i)))),
        decode_utf8(s) == decode_utf8(s.take(complete_len(s.take(i)))) + decode_utf8(
            s.skip(complete_len(s.take(i))),
        ),
    decreases s.len(),
{
    if s.len() == 0 {
        assert(s.take(i) =~= s);
        assert(s.skip(0) =~= s);
        return;
    }
    lemma_first_scalar_shape(s);
    let w = vstd::utf8::length_of_first_scalar(s);
    let r = vstd::utf8::pop_first_scalar(s);
    if i < w {
        lemma_cut_inside_first(s, i);
        assert(s.take(0) =~= Seq::<u8>::empty());
        assert(s.skip(0) =~= s);
        assert(decode_utf8(s) =~= decode_utf8(Seq::<u8>::empty()) + decode_utf8(s));
    } else {
        lemma_cut_after_first(s, i);
        lemma_complete_cut(r, i - w);
        let c2 = complete_len(r.take(i - w));
        let c = w + c2;
        let t = s.take(c);
        assert(s.skip(c) =~= r.skip(c2));
        lemma_prepend_first(s, c2);
    }
}

/// The first character of valid bytes followed by a valid prefix of the rest is valid, and
/// decodes to that character followed by the prefix's decoding.
proof fn lemma_prepend_first(s: Seq<u8>, c2: int)
    requires
        valid_utf8(s),
        s.len() > 0,
        0 <= c2 <= vstd::utf8::pop_first_scalar(s).len(),
        valid_utf8(vstd::utf8::pop_first_scalar(s).take(c2)),
    ensures
        valid_utf8(s.take(vstd::utf8::length_of_first_scalar(s) + c2)),
        decode_utf8(s.take(vstd::utf8::length_of_first_scalar(s) + c2)) == seq![
            vstd::utf8::decode_first_scalar(s) as char,
        ] + decode_utf8(vstd::utf8::pop_first_scalar(s).take(c2)),
{
    lemma_first_scalar_shape(s);
    let w = vstd::utf8::length_of_first_scalar(s);
    let t = s.take(w + c2);
    assert(forall|k: int| 0 <= k < w + c2 ==> #[trigger] t[k] == s[k]);
    assert(vstd::utf8::pop_first_scalar(t) =~= vstd::utf8::pop_first_scalar(s).take(c2));
    assert(vstd::utf8::decode_first_scalar(t) == vstd::utf8::decode_first_scalar(s));
    assert(vstd::utf8::valid_first_scalar(t));
}

/// The bytes of `chunks`, one after another.
pub open spec fn concat_bytes(chunks: Seq<Seq<u8>>) -> Seq<u8>
    decreases chunks.len(),
{
    if chunks.len() == 0 {
        Seq::empty()
    } else {
        concat_bytes(chunks.drop_last()) + chunks.last()
    }
}

/// What a fresh decoder does with the bytes of `chunks`, fed one after another (see `feed`):
/// the bytes it decodes at each feed, and the bytes it holds back after the last.
pub open spec fn byte_pieces(chunks: Seq<Seq<u8>>) -> (Seq<Seq<u8>>, Seq<u8>)
    decreases chunks.len(),
{
    if chunks.len() == 0 {
        (Seq::empty(), Seq::empty())
    } else {
        let (ps, q) = byte_pieces(chunks.drop_last());
        let all = q + chunks.last();
        (ps.push(all.take(complete_len(all))), all.skip(complete_len(all)))
    }
}

/// Feeding texts one after another, from `buffer`, as the decoder does: the payloads of all,
/// whether the terminator was seen (after which the rest is ignored), and the partial line.
pub open spec fn feed_all(buffer: Seq<char>, texts: Seq<Seq<char>>) -> (Seq<Seq<char>>, bool, Seq<char>)
    decreases texts.len(),
{
    if texts.len() == 0 {
        (Seq::empty(), false, buffer)
    } else {
        let (p0, d0, b0) = feed_all(buffer, texts.drop_last());
        if d0 {
            (p0, true, b0)
        } else {
            let (p, d, b) = feed_spec(b0, texts.last());
            (p0 + p, d, b)
        }
    }
}

/// Feeding texts one after another gives what feeding them joined gives: the same payloads,
/// terminator and partial line.
proof fn lemma_feed_all(buffer: Seq<char>, texts: Seq<Seq<char>>)
    requires
        texts.len() > 0,
    ensures
        feed_all(buffer, texts) == feed_spec(buffer, concat_all(texts)),
    decreases texts.len(),
{
    let init = texts.drop_last();
    if init.len() == 0 {
        assert(concat_all(init) =~= Seq::<char>::empty());
        assert(concat_all(texts) =~= texts.last());
        assert(feed_all(buffer, init) == (Seq::<Seq<char>>::empty(), false, buffer));
        let (p, d, b) = feed_spec(buffer, texts.last());
        assert(Seq::<Seq<char>>::empty() + p =~= p);
    } else {
        lemma_feed_all(buffer, init);
        lemma_feed_chunking(buffer, concat_all(init), texts.last());
    }
}

/// The cut of bytes followed by more bytes is the cut of the first, then the cut of what the
/// first held back followed by the rest.
#[verifier::rlimit(50)]
proof fn lemma_cut_step(p: Seq<u8>, c: Seq<u8>)
    ensures
        complete_len(p) + complete_len(p.skip(complete_len(p)) + c) == complete_len(p + c),
        0 <= complete_len(p) <= p.len(),
{
    let k = complete_len(p);
    let q = p.skip(k);
    let x = p + c;
    let y = q + c;
    let n = x.len() as int;
    let m = y.len() as int;
    let lp = p.len() as int;
    assert(n == k + m);
    if m >= 1 {
        assert(x[n - 1] == y[m - 1]);
    }
    if m >= 2 {
        assert(x[n - 2] == y[m - 2]);
    }
    if m >= 3 {
        assert(x[n - 3] == y[m - 3]);
    } else {
        if q.len() > 0 {
            assert(q[0] == p[k]);
            assert(y[0] == q[0]);
        } else {
            if c.len() >= 1 {
                assert(x[n - 1] == c[c.len() - 1]);
            }
            if lp >= 1 {
                assert(x[lp - 1] == p[lp - 1]);
            }
            if lp >= 2 {
                assert(x[lp - 2] == p[lp - 2]);
            }
        }
    }
}

/// The pieces a fresh decoder decodes, joined, are the bytes fed up to their cut, and it holds
/// back the rest.
proof fn lemma_pieces_shape(chunks: Seq<Seq<u8>>)
    ensures
        concat_bytes(byte_pieces(chunks).0) == concat_bytes(chunks).take(complete_len(concat_bytes(chunks))),
        byte_pieces(chunks).1 == concat_bytes(chunks).skip(complete_len(concat_bytes(chunks))),
        byte_pieces(chunks).0.len() == chunks.len(),
    decreases chunks.len(),
{
    if chunks.len() == 0 {
        assert(concat_bytes(chunks).take(0) =~= Seq::<u8>::empty());
        assert(concat_bytes(chunks).skip(0) =~= Seq::<u8>::empty());
    } else {
        let init = chunks.drop_last();
        lemma_pieces_shape(init);
        let p0 = concat_bytes(init);
        let c = chunks.last();
        lemma_cut_step(p0, c);
        let (ps0, q0) = byte_pieces(init);
        let all = q0 + c;
        let k0 = complete_len(p0);
        let k = complete_len(p0 + c);
        let ps = ps0.push(all.take(complete_len(all)));
        assert(ps.drop_last() =~= ps0);
        assert(concat_bytes(ps) == concat_bytes(ps0) + all.take(complete_len(all)));
        assert(concat_bytes(ps) =~= (p0 + c).take(k));
        assert(all.skip(complete_len(all)) =~= (p0 + c).skip(k));
    }
}

/// After valid bytes, valid bytes that extend them begin at a character boundary.
proof fn lemma_boundary_after_valid(x: Seq<u8>, y: Seq<u8>)
    requires
        valid_utf8(x),
        valid_utf8(x + y),
    ensures
        vstd::utf8::is_char_boundary(x + y, x.len() as int),
    decreases x.len(),
{
    if x.len() > 0 {
        lemma_first_scalar_shape(x);
        let w = vstd::utf8::length_of_first_scalar(x);
        let xy = x + y;
        assert(forall|i: int| 0 <= i < x.len() ==> #[trigger] xy[i] == x[i]);
        assert(vstd::utf8::length_of_first_scalar(xy) == w);
        let px = vstd::utf8::pop_first_scalar(x);
        assert(vstd::utf8::pop_first_scalar(xy) =~= px + y);
        lemma_boundary_after_valid(px, y);
    }
}

/// Valid bytes that extend valid bytes `x` by `y`: `y` is valid, and decodes to the rest.
proof fn lemma_valid_suffix(x: Seq<u8>, y: Seq<u8>)
    requires
        valid_utf8(x),
        valid_utf8(x + y),
    ensures
        valid_utf8(y),
        decode_utf8(x + y) == decode_utf8(x) + decode_utf8(y),
{
    let xy = x + y;
    lemma_boundary_after_valid(x, y);
    vstd::utf8::valid_utf8_split(xy, x.len() as int);
    vstd::utf8::decode_utf8_split(xy, x.len() as int);
    assert(xy.subrange(0, x.len() as int) =~= x);
    assert(xy.subrange(x.len() as int, xy.len() as int) =~= y);
}

/// The decodings of pieces.
pub open spec fn piece_texts(ps: Seq<Seq<u8>>) -> Seq<Seq<char>> {
    ps.map_values(|p: Seq<u8>| decode_utf8(p))
}

/// When the bytes fed so far begin a valid stream `s`, every piece decoded is valid, and the
/// pieces' decodings, joined, are the decoding of the bytes up to the cut.
proof fn lemma_pieces_valid(chunks: Seq<Seq<u8>>, s: Seq<u8>)
    requires
        valid_utf8(s),
        concat_bytes(chunks).len() <= s.len(),
        concat_bytes(chunks) == s.take(concat_bytes(chunks).len() as int),
    ensures
        forall|k: int| 0 <= k < chunks.len() ==> valid_utf8(#[trigger] byte_pieces(chunks).0[k]),
        valid_utf8(concat_bytes(chunks).take(complete_len(concat_bytes(chunks)))),
        concat_all(piece_texts(byte_pieces(chunks).0)) == decode_utf8(
            concat_bytes(chunks).take(complete_len(concat_bytes(chunks))),
        ),
    decreases chunks.len(),
{
    let p = concat_bytes(chunks);
    lemma_pieces_shape(chunks);
    lemma_complete_cut(s, p.len() as int);
    assert(s.take(complete_len(s.take(p.len() as int))) =~= p.take(complete_len(p)));
    if chunks.len() == 0 {
        assert(p.take(complete_len(p)) =~= Seq::<u8>::empty());
        assert(piece_texts(byte_pieces(chunks).0) =~= Seq::<Seq<char>>::empty());
        assert(decode_utf8(Seq::<u8>::empty()) =~= Seq::<char>::empty());
    } else {
        let init = chunks.drop_last();
        let p0 = concat_bytes(init);
        assert(p0 == s.take(p0.len() as int)) by {
            assert(p =~= p0 + chunks.last());
            assert(p0 =~= p.take(p0.len() as int));
            assert(s.take(p0.len() as int) =~= s.take(p.len() as int).take(p0.len() as int));
        }
        lemma_pieces_valid(init, s);
        lemma_pieces_shape(init);
        let (ps0, q0) = byte_pieces(init);
        let ps = byte_pieces(chunks).0;
        let piece = ps.last();
        let t0 = p0.take(complete_len(p0));
        let t = p.take(complete_len(p));
        assert(ps.drop_last() =~= ps0);
        assert(concat_bytes(ps) == concat_bytes(ps0) + piece);
        assert(t == t0 + piece);
        lemma_valid_suffix(t0, piece);
        assert(piece_texts(ps).drop_last() =~= piece_texts(ps0));
        assert(piece_texts(ps).last() == decode_utf8(piece));
        assert forall|k: int| 0 <= k < chunks.len() implies valid_utf8(#[trigger] byte_pieces(chunks).0[k]) by {
            if k < chunks.len() - 1 {
                assert(ps[k] == ps0[k]);
            }
        }
    }
}

/// A valid UTF-8 stream fed to a fresh decoder in any chunks: each piece it decodes is valid,
/// nothing is held back at the end, and feeding the pieces' decodings one after another
/// yields the payloads, terminator and partial line that feeding the whole stream's decoding
/// at once yields.
pub proof fn lemma_any_chunking(buffer: Seq<char>, chunks: Seq<Seq<u8>>)
    requires
        valid_utf8(concat_bytes(chunks)),
        chunks.len() > 0,
    ensures
        byte_pieces(chunks).1 == Seq::<u8>::empty(),
        forall|k: int| 0 <= k < chunks.len() ==> valid_utf8(#[trigger] byte_pieces(chunks).0[k]),
        feed_all(buffer, piece_texts(byte_pieces(chunks).0)) == feed_spec(buffer, decode_utf8(concat_bytes(chunks))),
{
    let p = concat_bytes(chunks);
    assert(p.take(p.len() as int) =~= p);
    lemma_pieces_valid(chunks, p);
    lemma_pieces_shape(chunks);
    lemma_complete_cut(p, p.len() as int);
    assert(p.skip(p.len() as int) =~= Seq::<u8>::empty());
    lemma_feed_all(buffer, piece_texts(byte_pieces(chunks).0));
}

/// Lines put back together, each followed by a line break.
pub open spec fn rejoined(lines: Seq<Seq<char>>) -> Seq<char>
    decreases lines.len(),
{
    if lines.len() == 0 {
        Seq::empty()
    } else {
        rejoined(lines.drop_last()) + lines.last().push('\n')
    }
}

/// Splitting loses nothing and cuts only at line breaks: the lines, each followed by its line
/// break, then the rest, make up the text again, and no line (nor the rest) holds a break.
pub proof fn lemma_split_lines_reassemble(s: Seq<char>)
    ensures
        rejoined(split_lines(s).0) + split_lines(s).1 == s,
        forall|i: int| 0 <= i < split_lines(s).0.len() ==> !(#[trigger] split_lines(s).0[i]).contains('\n'),
        !split_lines(s).1.contains('\n'),
    decreases s.len(),
{
    lemma_split_rest_has_no_newline(s);
    if s.len() > 0 {
        lemma_split_lines_reassemble(s.drop_last());
        lemma_split_rest_has_no_newline(s.drop_last());
        let (lines, rest) = split_lines(s.drop_last());
        if s.last() == '\n' {
            assert(lines.push(rest).drop_last() =~= lines);
            assert(s =~= s.drop_last().push(s.last()));
            assert(rejoined(lines.push(rest)) == rejoined(lines) + rest.push('\n'));
            assert(rejoined(lines) + rest.push('\n') =~= (rejoined(lines) + rest).push('\n'));
            assert(rejoined(lines.push(rest)) + Seq::<char>::empty() =~= s);
            assert forall|i: int| 0 <= i < lines.push(rest).len() implies !(#[trigger] lines.push(rest)[i]).contains('\n') by {
                if i < lines.len() {
                    assert(lines.push(rest)[i] == lines[i]);
                }
            }
        } else {
            assert(s =~= s.drop_last().push(s.last()));
            assert(rejoined(lines) + rest.push(s.last()) =~= (rejoined(lines) + rest).push(s.last()));
        }
    } else {
        assert(rejoined(Seq::<Seq<char>>::empty()) + Seq::<char>::empty() =~= s);
    }
}

/// A line carries data exactly when, trimmed, it is "data: " followed by that data, and the
/// data does not trim to "[DONE]"; it is the terminator when the data trims to "[DONE]"; any
/// other line (empty, a comment, another field) is skipped.
pub proof fn lemma_line_kind(raw: Seq<char>)
    ensures
        line_kind(raw) matches LineKind::Data(d) ==> trim(raw) == "data: "@ + d && trim(d) != "[DONE]"@,
        line_kind(raw) is Done ==> starts_with(trim(raw), "data: "@) && trim(
            trim(raw).subrange("data: "@.len() as int, trim(raw).len() as int),
        ) == "[DONE]"@,
        starts_with(trim(raw), "data: "@) ==> !(line_kind(raw) is Skip),
        !starts_with(trim(raw), "data: "@) ==> line_kind(raw) is Skip,
{
    reveal_strlit("data: ");
    let line = trim(raw);
    if starts_with(line, "data: "@) {
        assert(line[0] == "data: "@[0]);
        let d = line.subrange("data: "@.len() as int, line.len() as int);
        assert(line =~= "data: "@ + d) by {
            assert(line.subrange(0, "data: "@.len() as int) == "data: "@);
        }
    }
}

} // verus!
