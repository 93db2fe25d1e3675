//! Server-sent events: cutting a text stream into frames.

use vstd::prelude::*;
use vstd::string::*;

use crate::error;
use crate::error::RuntimeError;
use crate::text;
use crate::text::{
    bytes_len, chars_of, index_from, join_texts, lines_of, text_of_range, trimmed_start,
    without_prefix,
};

verus! {

/// One frame: the data of its `data:` lines.
#[derive(Clone, Debug, PartialEq, Eq)]
pub struct SseFrame {
    pub data: String,
}

/// Cuts a text that arrives in pieces into frames.
#[derive(Debug)]
pub struct SseParser {
    buffer: String,
}

/// The data of a line, if it is a data line.
pub open spec fn line_data(line: Seq<char>) -> Option<Seq<char>> {
    if text::starts_with(line, "data:"@) {
        Some(text::trim_start(line.subrange("data:"@.len() as int, line.len() as int)))
    } else {
        None
    }
}

/// The data of the data lines among some lines.
pub open spec fn data_lines(lines: Seq<Seq<char>>) -> Seq<Seq<char>>
    decreases lines.len(),
{
    if lines.len() == 0 {
        seq![]
    } else {
        match line_data(lines.last()) {
            Some(data) => data_lines(lines.drop_last()).push(data),
            None => data_lines(lines.drop_last()),
        }
    }
}

/// The data of a block, if it has any data line: one line for each.
pub open spec fn block_data(block: Seq<char>) -> Option<Seq<char>> {
    let data = data_lines(text::lines(block));
    if data.len() == 0 {
        None
    } else {
        Some(text::join(data, "\n"@))
    }
}

/// Where the first block of a text ends, and how long the blank line behind it
/// is: two line feeds anywhere, or else two pairs of carriage return and line
/// feed.
pub open spec fn first_break(s: Seq<char>) -> Option<(int, int)> {
    match text::find(s, "\n\n"@) {
        Some(i) => Some((i, 2)),
        None => match text::find(s, "\r\n\r\n"@) {
            Some(i) => Some((i, 4)),
            None => None,
        },
    }
}

proof fn lemma_first_break(s: Seq<char>)
    ensures
        match first_break(s) {
            Some((i, w)) => 0 <= i && 0 < w && i + w <= s.len(),
            None => true,
        },
{
    reveal_strlit("\n\n");
    reveal_strlit("\r\n\r\n");
    text::lemma_find_from(s, "\n\n"@, 0);
    text::lemma_find_from(s, "\r\n\r\n"@, 0);
}

/// The frames of the blocks of a text that are closed by a blank line, and the
/// text behind them.
pub open spec fn split_frames(s: Seq<char>) -> (Seq<Seq<char>>, Seq<char>)
    decreases s.len(),
    via split_frames_decreases
{
    match first_break(s) {
        None => (seq![], s),
        Some((i, w)) => {
            let (frames, rest) = split_frames(s.skip(i + w));
            match block_data(s.take(i)) {
                Some(data) => (seq![data] + frames, rest),
                None => (frames, rest),
            }
        },
    }
}

#[via_fn]
proof fn split_frames_decreases(s: Seq<char>) {
    lemma_first_break(s);
}

/// The data of a list of frames.
pub open spec fn frame_data(frames: Seq<SseFrame>) -> Seq<Seq<char>> {
    Seq::new(frames.len(), |i: int| frames[i].data@)
}

/// Reads one block.
pub fn parse_sse_block(block: &str) -> (r: Option<SseFrame>)
    ensures
        match r {
            Some(frame) => block_data(block@) == Some(frame.data@),
            None => block_data(block@) is None,
        },
{
    let lines = lines_of(block);
    let ghost all = text::lines(block@);
    let mut values: Vec<String> = Vec::new();
    let mut i: usize = 0;
    assert(text::texts(values@) =~= data_lines(all.take(0)));
    while i < lines.len()
        invariant
            i <= lines@.len(),
            text::texts(lines@) == all,
            text::texts(values@) == data_lines(all.take(i as int)),
        decreases lines@.len() - i,
    {
        proof {
            assert(all.take(i + 1).drop_last() =~= all.take(i as int));
            assert(all.take(i + 1).last() == lines@[i as int]@);
        }
        match without_prefix(lines[i].as_str(), "data:") {
            Some(rest) => {
                let value = trimmed_start(rest.as_str());
                let ghost before = values@;
                values.push(value);
                assert(text::texts(values@) =~= text::texts(before).push(value@));
            },
            None => {},
        }
        i += 1;
    }
    assert(all.take(i as int) =~= all);
    if values.len() == 0 {
        None
    } else {
        Some(SseFrame { data: join_texts(&values, "\n") })
    }
}

impl SseParser {
    /// The text that no blank line has closed yet.
    pub closed spec fn view(&self) -> Seq<char> {
        self.buffer@
    }

    pub fn new() -> (r: Self)
        ensures
            r@ == Seq::<char>::empty(),
    {
        SseParser { buffer: String::new() }
    }

    /// Takes a piece of text and hands out the frames that are closed by now.
    pub fn push(&mut self, chunk: &str) -> (r: Vec<SseFrame>)
        ensures
            frame_data(r@) == split_frames(old(self)@ + chunk@).0,
            final(self)@ == split_frames(old(self)@ + chunk@).1,
    {
        let ghost all = self.buffer@ + chunk@;
        self.buffer.append(chunk);
        let lf = chars_of("\n\n");
        let crlf = chars_of("\r\n\r\n");
        proof {
            reveal_strlit("\n\n");
            reveal_strlit("\r\n\r\n");
        }
        let mut frames: Vec<SseFrame> = Vec::new();
        let cs = chars_of(self.buffer.as_str());
        let mut from: usize = 0;
        let n = cs.len();
        assert(frame_data(frames@) =~= seq![]);
        assert(cs@.skip(0) =~= all);
        assert(frame_data(frames@) + split_frames(all).0 =~= split_frames(all).0);
        loop
            invariant_except_break
                frame_data(frames@) + split_frames(cs@.skip(from as int)).0 == split_frames(all).0,
                split_frames(cs@.skip(from as int)).1 == split_frames(all).1,
            invariant
                from <= n,
                n == cs@.len(),
                lf@ == "\n\n"@,
                crlf@ == "\r\n\r\n"@,
                lf@.len() == 2,
                crlf@.len() == 4,
            ensures
                frame_data(frames@) == split_frames(all).0,
                cs@.skip(from as int) == split_frames(all).1,
                from <= n,
                n == cs@.len(),
            decreases n - from,
        {
            let ghost rest = cs@.skip(from as int);
            proof {
                lemma_first_break(rest);
                text::lemma_find_skip(cs@, lf@, from as int);
                text::lemma_find_skip(cs@, crlf@, from as int);
            }
            let (index, width): (usize, usize) = match index_from(&cs, &lf, from) {
                Some(i) => (i, 2),
                None => match index_from(&cs, &crlf, from) {
                    Some(i) => (i, 4),
                    None => {
                        assert(split_frames(rest).0 =~= seq![]);
                        assert(frame_data(frames@) + split_frames(rest).0 =~= frame_data(frames@));
                        break;
                    },
                },
            };
            let block = text_of_range(&cs, from, index);
            let ghost before = frame_data(frames@);
            proof {
                assert(block@ =~= rest.take(index - from));
                assert(rest.skip(index - from + width) =~= cs@.skip(index + width));
            }
            let ghost tail = split_frames(cs@.skip(index + width));
            match parse_sse_block(block.as_str()) {
                Some(frame) => {
                    proof {
                        assert(frame_data(frames@.push(frame)) =~= before.push(frame.data@));
                        assert(before + (seq![frame.data@] + tail.0) =~= before.push(frame.data@)
                            + tail.0);
                    }
                    frames.push(frame);
                },
                None => {},
            }
            from = index + width;
        }
        assert(cs@.skip(from as int) =~= cs@.subrange(from as int, n as int));
        self.buffer = text_of_range(&cs, from, n);
        frames
    }

    /// Like [`SseParser::push`], but refuses what would make the text that is
    /// waiting for a blank line longer than `max_buffer_bytes`; the text is
    /// dropped then.
    pub fn push_bounded(&mut self, chunk: &str, max_buffer_bytes: usize) -> (r: Result<
        Vec<SseFrame>,
        RuntimeError,
    >)
        ensures
            ({
                let all = old(self)@ + chunk@;
                let size = text::byte_len(old(self)@) + text::byte_len(chunk@);
                match r {
                    Ok(frames) => size <= max_buffer_bytes && frame_data(frames@) == split_frames(
                        all,
                    ).0 && final(self)@ == split_frames(all).1,
                    Err(e) => size > max_buffer_bytes && final(self)@ == Seq::<char>::empty()
                        && e@ == error::ErrorView::Protocol("sse_frame_too_large"@),
                }
            }),
    {
        let held = bytes_len(self.buffer.as_str());
        let more = bytes_len(chunk);
        if held > max_buffer_bytes || more > max_buffer_bytes - held {
            self.buffer = String::new();
            return Err(RuntimeError::protocol("sse_frame_too_large"));
        }
        Ok(self.push(chunk))
    }

    /// The end of the text: the frame of what no blank line has closed.
    pub fn finish(&mut self) -> (r: Vec<SseFrame>)
        ensures
            final(self)@ == Seq::<char>::empty(),
            frame_data(r@) == match block_data(old(self)@) {
                Some(data) => seq![data],
                None => seq![],
            },
    {
        let mut frames: Vec<SseFrame> = Vec::new();
        match parse_sse_block(self.buffer.as_str()) {
            Some(frame) => {
                frames.push(frame);
            },
            None => {},
        }
        assert(frame_data(frames@) =~= match block_data(self.buffer@) {
            Some(data) => seq![data],
            None => seq![],
        });
        self.buffer = String::new();
        frames
    }
}

impl Default for SseParser {
    fn default() -> (r: Self)
        ensures
            r@ == Seq::<char>::empty(),
    {
        SseParser::new()
    }
}

/// Text may be cut anywhere: cut into two pieces it gives the frames that it gives
/// as a whole, and leaves the same text waiting. The text does not mix the two
/// kinds of blank lines: where it does, a pair of line feeds that comes later
/// closes a block that the other kind of blank line would have closed before.
pub proof fn law_frames_ignore_cuts(a: Seq<char>, b: Seq<char>)
    requires
        !(text::contains_text(a + b, "\n\n"@) && text::contains_text(a + b, "\r\n\r\n"@)),
    ensures
        ({
            let (first, held) = split_frames(a);
            let (second, rest) = split_frames(held + b);
            split_frames(a + b) == (first + second, rest)
        }),
    decreases a.len(),
{
    let lf = "\n\n"@;
    let crlf = "\r\n\r\n"@;
    lemma_first_break(a);
    match first_break(a) {
        None => {
            let (second, rest) = split_frames(a + b);
            assert(seq![] + second =~= second);
        },
        Some((i, w)) => {
            text::lemma_find_from(a, lf, 0);
            text::lemma_find_from(a, crlf, 0);
            text::lemma_find_from(a + b, lf, 0);
            if w == 2 && text::find(a, lf) == Some(i) {
                text::lemma_find_in_longer(a, b, lf);
            } else {
                text::lemma_find_in_longer(a, b, crlf);
                text::lemma_find_from(a + b, crlf, 0);
                assert(text::occurs_at(a + b, crlf, i));
                assert(text::find(a + b, lf) is None);
            }
            assert(first_break(a + b) == Some((i, w)));
            let a1 = a.skip(i + w);
            assert((a + b).skip(i + w) =~= a1 + b);
            assert((a + b).take(i) =~= a.take(i));
            assert forall|pat: Seq<char>, k: int| #[trigger]
                text::occurs_at(a1 + b, pat, k) implies text::occurs_at(a + b, pat, i + w + k) by {
                text::lemma_occurs_skip(a + b, pat, i + w, k);
            }
            law_frames_ignore_cuts(a1, b);
            let (f1, held) = split_frames(a1);
            let (second, rest) = split_frames(held + b);
            match block_data(a.take(i)) {
                Some(data) => {
                    assert(seq![data] + (f1 + second) =~= (seq![data] + f1) + second);
                },
                None => {},
            }
        },
    }
}

} // verus!
