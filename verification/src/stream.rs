//! Output of child processes: bounded capture, splitting into lines, and what
//! becomes of each line.

use vstd::prelude::*;

use crate::boot;
use crate::boot::{logged_line, runtime_log_line};
use crate::error::{ErrorKind, HostError};
use crate::text::{decimal, decimal_text, join, split_on, trim_end, trimmed_end, views};

verus! {

/// Backend output kept in memory for failure reports, in lines.
pub const RECENT_OUTPUT_LIMIT: usize = 12;

// ---------------------------------------------------------------------------
// Bounded capture
// ---------------------------------------------------------------------------

/// The start of a stream, up to a limit.
pub struct BoundedBuffer {
    pub output: Vec<u8>,
    pub limit: usize,
    pub overflowed: bool,
}

impl BoundedBuffer {
    /// The buffer holds the first `limit` bytes of `stream` and knows whether
    /// there were more.
    pub open spec fn captures(self, stream: Seq<u8>) -> bool {
        &&& self.overflowed == (stream.len() > self.limit)
        &&& self.output@ == (if self.overflowed {
            stream.take(self.limit as int)
        } else {
            stream
        })
    }

    /// An empty buffer for at most `limit` bytes.
    pub fn new(limit: usize) -> (buffer: BoundedBuffer)
        ensures
            buffer.limit == limit,
            buffer.captures(Seq::empty()),
    {
        BoundedBuffer { output: Vec::new(), limit, overflowed: false }
    }

    /// Takes the next piece of the stream.
    pub fn accept(&mut self, chunk: &[u8])
        ensures
            final(self).limit == old(self).limit,
            forall|stream: Seq<u8>|
                #![trigger old(self).captures(stream)]
                old(self).captures(stream) ==> final(self).captures(stream + chunk@),
    {
        let room = self.limit.saturating_sub(self.output.len());
        let count = chunk.len();
        let kept: usize = if count < room {
            count
        } else {
            room
        };
        let mut i: usize = 0;
        while i < kept
            invariant
                i <= kept <= chunk@.len(),
                self.output@ == old(self).output@ + chunk@.take(i as int),
                self.limit == old(self).limit,
                self.overflowed == old(self).overflowed,
            decreases kept - i,
        {
            self.output.push(chunk[i]);
            i = i + 1;
        }
        if count > room {
            self.overflowed = true;
        }
        proof {
            let before = *old(self);
            assert forall|stream: Seq<u8>| #[trigger] before.captures(stream) implies self.captures(stream + chunk@) by {
                let whole = stream + chunk@;
                if old(self).overflowed {
                    assert(self.output@ == old(self).output@);
                    assert(whole.take(self.limit as int) == stream.take(self.limit as int));
                    assert(self.output@ == whole.take(self.limit as int));
                } else if self.overflowed {
                    assert(self.output@ == whole.take(self.limit as int));
                } else {
                    assert(chunk@.take(kept as int) == chunk@);
                    assert(self.output@ == whole);
                }
            }
        }
    }

    /// What was captured, unless the stream was too long.
    pub fn finish(self) -> (captured: Result<Vec<u8>, HostError>)
        ensures
            match captured {
                Ok(output) => !self.overflowed && output == self.output,
                Err(error) => self.overflowed && error.kind == ErrorKind::InvalidData
                    && error.message@ == overflow_message(self.limit),
            },
    {
        if self.overflowed {
            let mut message = "login shell environment exceeded ".to_string();
            message.append(decimal_text(self.limit as u64).as_str());
            message.append(" bytes");
            Err(HostError::new(ErrorKind::InvalidData, message))
        } else {
            Ok(self.output)
        }
    }
}

/// The complaint about a stream of more than `limit` bytes.
pub open spec fn overflow_message(limit: usize) -> Seq<char> {
    "login shell environment exceeded "@ + decimal(limit as nat) + " bytes"@
}

/// The stream that arrives in the given pieces.
pub open spec fn concatenation(chunks: Seq<Vec<u8>>) -> Seq<u8>
    decreases chunks.len(),
{
    if chunks.len() == 0 {
        Seq::empty()
    } else {
        concatenation(chunks.drop_last()) + chunks.last()@
    }
}

/// The whole stream, however it was cut into pieces, if it has at most `limit`
/// bytes.
pub fn read_bounded(chunks: &Vec<Vec<u8>>, limit: usize) -> (captured: Result<Vec<u8>, HostError>)
    ensures
        match captured {
            Ok(output) => output@ == concatenation(chunks@) && output@.len() <= limit,
            Err(error) => concatenation(chunks@).len() > limit && error.kind
                == ErrorKind::InvalidData && error.message@ == overflow_message(limit),
        },
{
    let mut buffer = BoundedBuffer::new(limit);
    let mut i: usize = 0;
    while i < chunks.len()
        invariant
            i <= chunks@.len(),
            buffer.limit == limit,
            buffer.captures(concatenation(chunks@.take(i as int))),
        decreases chunks@.len() - i,
    {
        let ghost before = concatenation(chunks@.take(i as int));
        assert(buffer.captures(before));
        buffer.accept(chunks[i].as_slice());
        i = i + 1;
        proof {
            assert(chunks@.take(i as int).drop_last() == chunks@.take(i - 1));
            assert(concatenation(chunks@.take(i as int)) == before + chunks@[i - 1]@);
        }
    }
    assert(chunks@.take(i as int) == chunks@);
    buffer.finish()
}

// ---------------------------------------------------------------------------
// Lines
// ---------------------------------------------------------------------------

/// The text that `String::from_utf8_lossy` makes of bytes.
pub uninterp spec fn lossy_text(bytes: Seq<u8>) -> Seq<char>;

/// Calls `String::from_utf8_lossy`. Valid UTF-8 is decoded as it is; what becomes
/// of other bytes is named, not said (each ill-formed piece gives a replacement
/// character).
#[verifier::external_body]
fn decode_lossily(bytes: &[u8]) -> (text: String)
    ensures
        text@ == lossy_text(bytes@),
        vstd::utf8::valid_utf8(bytes@) ==> text@ == vstd::utf8::decode_utf8(bytes@),
{
    String::from_utf8_lossy(bytes).into_owned()
}

/// The byte that ends a line.
pub const NEWLINE: u8 = 10;

/// The lines of a stream: the pieces between newlines, and what follows the last
/// newline unless that is empty.
pub open spec fn byte_lines(stream: Seq<u8>) -> Seq<Seq<u8>> {
    let parts = split_on(stream, NEWLINE);
    if parts.last().len() == 0 {
        parts.drop_last()
    } else {
        parts
    }
}

/// The lines of a stream as texts.
pub open spec fn stream_lines(stream: Seq<u8>) -> Seq<Seq<char>> {
    byte_lines(stream).map_values(|line: Seq<u8>| lossy_text(line))
}

/// A line of valid UTF-8 reads as what it encodes.
pub open spec fn reads_as(line: Seq<u8>, text: Seq<char>) -> bool {
    vstd::utf8::valid_utf8(line) ==> text == vstd::utf8::decode_utf8(line)
}

/// Cuts a stream into lines, byte by byte, without demanding UTF-8: a strict
/// reader would stop at the first ill-formed byte.
pub struct LineReader {
    /// What came after the last newline.
    pub line: Vec<u8>,
}

impl LineReader {
    /// A reader at the start of a stream.
    pub fn new() -> (reader: LineReader)
        ensures
            reader.line@.len() == 0,
    {
        LineReader { line: Vec::new() }
    }

    /// Takes one byte; gives a line where the byte ends one.
    pub fn accept(&mut self, byte: u8) -> (line: Option<String>)
        ensures
            match line {
                Some(line) => byte == NEWLINE && line@ == lossy_text(old(self).line@) && reads_as(
                    old(self).line@,
                    line@,
                ) && final(self).line@.len() == 0,
                None => byte != NEWLINE && final(self).line@ == old(self).line@.push(byte),
            },
    {
        if byte == NEWLINE {
            let line = decode_lossily(self.line.as_slice());
            self.line = Vec::new();
            Some(line)
        } else {
            self.line.push(byte);
            None
        }
    }

    /// The last line, where the stream did not end in a newline.
    pub fn finish(self) -> (line: Option<String>)
        ensures
            match line {
                Some(line) => self.line@.len() > 0 && line@ == lossy_text(self.line@) && reads_as(
                    self.line@,
                    line@,
                ),
                None => self.line@.len() == 0,
            },
    {
        if self.line.is_empty() {
            None
        } else {
            Some(decode_lossily(self.line.as_slice()))
        }
    }
}

/// The lines of a whole stream.
pub fn read_stream_lines(stream: &[u8]) -> (lines: Vec<String>)
    ensures
        views(lines@) == stream_lines(stream@),
        forall|i: int|
            0 <= i < byte_lines(stream@).len() ==> reads_as(
                #[trigger] byte_lines(stream@)[i],
                lines@[i]@,
            ),
{
    let mut reader = LineReader::new();
    let mut lines: Vec<String> = Vec::new();
    let ghost mut done: Seq<Seq<u8>> = Seq::empty();
    let mut i: usize = 0;
    assert(reader.line@ == Seq::<u8>::empty());
    assert(stream@.take(0) == Seq::<u8>::empty());
    assert(done.push(reader.line@) == split_on(stream@.take(0), NEWLINE));
    while i < stream.len()
        invariant
            i <= stream@.len(),
            done.push(reader.line@) == split_on(stream@.take(i as int), NEWLINE),
            views(lines@) == done.map_values(|line: Seq<u8>| lossy_text(line)),
            lines@.len() == done.len(),
            forall|k: int| 0 <= k < done.len() ==> reads_as(#[trigger] done[k], lines@[k]@),
        decreases stream@.len() - i,
    {
        let ghost pending = reader.line@;
        proof {
            assert(stream@.take(i + 1).drop_last() == stream@.take(i as int));
            assert(done.push(pending).drop_last() == done);
        }
        match reader.accept(stream[i]) {
            Some(line) => {
                let ghost before = lines@;
                lines.push(line);
                proof {
                    let parts = done.push(pending);
                    assert(views(lines@) == views(before).push(line@));
                    assert(parts.map_values(|line: Seq<u8>| lossy_text(line)) == done.map_values(
                        |line: Seq<u8>| lossy_text(line),
                    ).push(lossy_text(pending)));
                    done = parts;
                    assert(reader.line@ == Seq::<u8>::empty());
                }
            },
            None => {},
        }
        i = i + 1;
    }
    proof {
        assert(stream@.take(i as int) == stream@);
        assert(done.push(reader.line@).drop_last() == done);
    }
    let ghost pending = reader.line@;
    match reader.finish() {
        Some(line) => {
            let ghost before = lines@;
            lines.push(line);
            proof {
                assert(views(lines@) == views(before).push(line@));
                assert(done.push(pending).map_values(|line: Seq<u8>| lossy_text(line))
                    == done.map_values(|line: Seq<u8>| lossy_text(line)).push(lossy_text(pending)));
            }
        },
        None => {},
    }
    lines
}

/// Cutting a stream into lines loses nothing: the lines with newlines between
/// them, and one behind them where the stream ends in one, are the stream.
pub proof fn law_lines_keep_the_stream(stream: Seq<u8>)
    ensures
        join(byte_lines(stream), seq![NEWLINE]) + (if stream.len() > 0 && stream.last() == NEWLINE {
            seq![NEWLINE]
        } else {
            Seq::empty()
        }) == stream,
{
    let parts = split_on(stream, NEWLINE);
    crate::text::law_split_join(stream, NEWLINE);
    if stream.len() > 0 && stream.last() == NEWLINE {
        let before = split_on(stream.drop_last(), NEWLINE);
        crate::text::law_split_join(stream.drop_last(), NEWLINE);
        assert(parts == before.push(Seq::empty()));
        assert(byte_lines(stream) == before);
    } else if stream.len() == 0 {
        assert(parts.last().len() == 0);
        assert(byte_lines(stream) == Seq::<Seq<u8>>::empty());
    } else {
        assert(parts.last().len() > 0);
        assert(byte_lines(stream) == parts);
        assert(join(parts, seq![NEWLINE]) + Seq::<u8>::empty() == stream);
    }
}

/// A line of ASCII is valid UTF-8, and reads as its bytes one for one.
pub proof fn law_ascii_lines_read_as_they_stand(line: Seq<u8>)
    requires
        forall|i: int| 0 <= i < line.len() ==> #[trigger] line[i] < 128,
    ensures
        vstd::utf8::valid_utf8(line),
        vstd::utf8::decode_utf8(line) == line.map_values(|byte: u8| byte as char),
{
    let chars = line.map_values(|byte: u8| byte as char);
    assert(vstd::utf8::is_ascii_chars(chars));
    vstd::utf8::is_ascii_chars_encode_utf8(chars);
    assert forall|i: int| 0 <= i < line.len() implies line[i] == #[trigger] vstd::utf8::encode_utf8(
        chars,
    )[i] by {
        assert(chars[i] as u8 == line[i]);
    }
    assert(vstd::utf8::encode_utf8(chars) == line);
    vstd::utf8::encode_utf8_valid_utf8(chars);
    vstd::utf8::encode_utf8_decode_utf8(chars);
}

// ---------------------------------------------------------------------------
// Forwarding
// ---------------------------------------------------------------------------

/// Where one line of backend output goes.
pub struct ForwardedLine {
    /// What is appended to the log.
    pub log: String,
    /// What the wait for the boot line gets to see.
    pub startup: String,
}

/// The recent lines once `line` was added: the oldest leaves where there are too
/// many.
pub open spec fn remember(recent: Seq<Seq<char>>, line: Seq<char>) -> Seq<Seq<char>> {
    let all = recent.push(line);
    if all.len() > RECENT_OUTPUT_LIMIT {
        all.skip(1)
    } else {
        all
    }
}

/// Forwards one line of backend output to the log, the recent lines and the
/// startup channel. The log and the recent lines get it with the boot URL
/// redacted; blank lines are not remembered.
pub fn forward_backend_stream(prefix: &str, line: &str, recent: &mut Vec<String>) -> (forwarded:
    ForwardedLine)
    ensures
        forwarded.log@ == prefix@ + logged_line(trim_end(line@)),
        forwarded.startup@ == trim_end(line@),
        views(final(recent)@) == (if trim_end(line@).len() == 0 {
            views(old(recent)@)
        } else {
            remember(views(old(recent)@), logged_line(trim_end(line@)))
        }),
{
    let trimmed = trimmed_end(line);
    let logged = runtime_log_line(trimmed.as_str());
    let mut log = prefix.to_string();
    log.append(logged);
    if !trimmed.as_str().is_empty() {
        recent.push(logged.to_owned());
        assert(views(recent@) == views(old(recent)@).push(logged@));
        if recent.len() > RECENT_OUTPUT_LIMIT {
            let ghost all = recent@;
            let _oldest = recent.remove(0);
            assert(views(recent@) == views(all).skip(1));
        }
    }
    ForwardedLine { log, startup: trimmed }
}

/// The recent lines never number more than the limit, and the newest is the one
/// that came last.
pub proof fn law_recent_output_is_bounded(recent: Seq<Seq<char>>, line: Seq<char>)
    requires
        recent.len() <= RECENT_OUTPUT_LIMIT,
    ensures
        remember(recent, line).len() <= RECENT_OUTPUT_LIMIT,
        remember(recent, line).last() == line,
{
}

/// A line shows nothing of a boot line.
pub open spec fn is_redacted(line: Seq<char>) -> bool {
    crate::text::contains_text(line, boot::boot_marker()) ==> line == boot::redaction()
}

/// Neither the log nor the recent lines ever show a boot line.
pub proof fn law_recent_output_is_redacted(recent: Seq<Seq<char>>, line: Seq<char>)
    requires
        forall|i: int| 0 <= i < recent.len() ==> is_redacted(#[trigger] recent[i]),
    ensures
        is_redacted(logged_line(line)),
        forall|i: int|
            0 <= i < remember(recent, logged_line(line)).len() ==> is_redacted(
                #[trigger] remember(recent, logged_line(line))[i],
            ),
{
    let all = recent.push(logged_line(line));
    assert forall|i: int| 0 <= i < all.len() implies is_redacted(#[trigger] all[i]) by {
        if i < recent.len() {
            assert(all[i] == recent[i]);
        }
    }
    assert forall|i: int| 0 <= i < remember(recent, logged_line(line)).len() implies is_redacted(
        #[trigger] remember(recent, logged_line(line))[i],
    ) by {
        let shift: int = if all.len() > RECENT_OUTPUT_LIMIT {
            1
        } else {
            0
        };
        assert(remember(recent, logged_line(line))[i] == all[i + shift]);
    }
}

// ---------------------------------------------------------------------------
// What capture and lines promise
// ---------------------------------------------------------------------------

/// A stream that arrives in two rows of pieces is what the first row makes, then
/// what the second makes; one piece makes itself.
pub proof fn law_pieces_make_the_stream(a: Seq<Vec<u8>>, b: Seq<Vec<u8>>, piece: Vec<u8>)
    ensures
        concatenation(a + b) == concatenation(a) + concatenation(b),
        concatenation(seq![piece]) == piece@,
        concatenation(Seq::<Vec<u8>>::empty()).len() == 0,
    decreases b.len(),
{
    assert(seq![piece].drop_last() =~= Seq::<Vec<u8>>::empty());
    assert(concatenation(seq![piece].drop_last()) =~= Seq::<u8>::empty());
    assert(concatenation(seq![piece]) =~= piece@);
    if b.len() == 0 {
        assert(a + b =~= a);
        assert(concatenation(a) + concatenation(b) =~= concatenation(a));
    } else {
        law_pieces_make_the_stream(a, b.drop_last(), piece);
        assert((a + b).drop_last() =~= a + b.drop_last());
        assert(concatenation(a + b) =~= concatenation(a) + concatenation(b));
    }
}

/// A buffer holds the stream byte for byte, up to its limit, and says whether
/// anything is missing.
pub proof fn law_buffers_hold_the_start(buffer: BoundedBuffer, stream: Seq<u8>, i: int)
    requires
        buffer.captures(stream),
    ensures
        buffer.output@.len() <= buffer.limit,
        buffer.overflowed == (buffer.output@.len() < stream.len()),
        stream.len() <= buffer.limit ==> buffer.output@ == stream,
        stream.len() > buffer.limit ==> buffer.output@.len() == buffer.limit,
        0 <= i < buffer.output@.len() ==> buffer.output@[i] == stream[i],
{
}

/// A stream starts with the line before its first newline, and goes on with the
/// lines behind it. A stream without a newline is one line, unless it is empty.
pub proof fn law_lines_end_at_newlines(line: Seq<u8>, rest: Seq<u8>)
    requires
        !line.contains(10u8),
    ensures
        byte_lines(line + seq![10u8] + rest) == seq![line] + byte_lines(rest),
        line.len() > 0 ==> byte_lines(line) == seq![line],
        byte_lines(Seq::<u8>::empty()).len() == 0,
{
    let whole = line + seq![10u8] + rest;
    let later = split_on(rest, 10u8);
    let empty = Seq::<u8>::empty();
    crate::text::law_split_concatenates(line, 10u8, rest);
    crate::text::law_split_join(rest, 10u8);
    let parts = split_on(whole, 10u8);
    assert(parts == seq![line] + later);
    assert(parts.last() == later.last());
    assert((seq![line] + later).drop_last() =~= seq![line] + later.drop_last());
    assert(byte_lines(whole) =~= seq![line] + byte_lines(rest));
    crate::text::law_split_concatenates(empty, 10u8, empty);
    assert(byte_lines(empty) =~= Seq::<Seq<u8>>::empty());
}

/// Each line is read by itself, in order.
pub proof fn law_lines_are_read_one_by_one(stream: Seq<u8>)
    ensures
        stream_lines(stream).len() == byte_lines(stream).len(),
        forall|i: int|
            0 <= i < byte_lines(stream).len() ==> #[trigger] stream_lines(stream)[i] == lossy_text(
                byte_lines(stream)[i],
            ),
{
}

/// The newest line is remembered behind the others; the oldest of twelve makes
/// room for it, and none else leaves.
pub proof fn law_oldest_line_makes_room(recent: Seq<Seq<char>>, line: Seq<char>)
    ensures
        recent.len() < 12 ==> remember(recent, line) == recent.push(line),
        recent.len() >= 12 ==> remember(recent, line) == recent.skip(1).push(line),
{
    assert(recent.push(line).len() == recent.len() + 1);
    if recent.len() >= 12 {
        assert(recent.push(line).skip(1) =~= recent.skip(1).push(line));
    }
}

/// The complaint about a long stream says how much was accepted.
pub proof fn law_overflow_names_the_limit(limit: usize)
    ensures
        crate::text::contains_text(overflow_message(limit), decimal(limit as nat)),
{
    crate::text::law_containing_is_embedding(
        "login shell environment exceeded "@,
        decimal(limit as nat),
        " bytes"@,
        Seq::empty(),
    );
}

/// A buffer that still has everything takes as much of a piece as there is room for;
/// it knows whether there was more.
pub proof fn law_buffers_take_what_fits(chunk: &[u8])
    ensures
        forall|buffer: &mut BoundedBuffer| #[trigger]
            call_ensures(BoundedBuffer::accept, (buffer, chunk), ()) && !buffer.overflowed
                && buffer.output@.len() <= buffer.limit ==> {
                let whole = buffer.output@ + chunk@;
                &&& final(buffer).limit == buffer.limit
                &&& whole.len() <= buffer.limit ==> final(buffer).output@ == whole
                    && !final(buffer).overflowed
                &&& whole.len() > buffer.limit ==> final(buffer).output@ == whole.take(
                    buffer.limit as int,
                ) && final(buffer).overflowed
            },
{
    assert forall|buffer: &mut BoundedBuffer| #[trigger]
        call_ensures(BoundedBuffer::accept, (buffer, chunk), ()) && !buffer.overflowed
            && buffer.output@.len() <= buffer.limit implies {
        let whole = buffer.output@ + chunk@;
        &&& final(buffer).limit == buffer.limit
        &&& whole.len() <= buffer.limit ==> final(buffer).output@ == whole
            && !final(buffer).overflowed
        &&& whole.len() > buffer.limit ==> final(buffer).output@ == whole.take(buffer.limit as int)
            && final(buffer).overflowed
    } by {
        assert(buffer.captures(buffer.output@));
        assert(final(buffer).captures(buffer.output@ + chunk@));
    }
}

/// A stream is captured whole exactly where it fits, however it was cut into pieces.
pub proof fn law_captured_streams(
    chunks: &Vec<Vec<u8>>,
    limit: usize,
    captured: Result<Vec<u8>, HostError>,
)
    requires
        call_ensures(read_bounded, (chunks, limit), captured),
    ensures
        (captured is Ok) == (concatenation(chunks@).len() <= limit),
        captured matches Ok(output) ==> output@ == concatenation(chunks@),
        captured matches Err(error) ==> error.kind == ErrorKind::InvalidData,
{
}

/// A byte that is no newline joins the line that is being read; a newline ends it and
/// starts an empty one.
pub proof fn law_bytes_of_a_line(byte: u8, line: Option<String>)
    ensures
        forall|reader: &mut LineReader| #[trigger]
            call_ensures(LineReader::accept, (reader, byte), line) ==> {
                &&& (line is Some) == (byte == 10)
                &&& byte != 10 ==> final(reader).line@ == reader.line@.push(byte)
                &&& byte == 10 ==> final(reader).line@.len() == 0 && line->0@ == lossy_text(
                    reader.line@,
                )
            },
{
}

/// The lines that are read are those between the newlines, in order; each that is
/// valid UTF-8 reads as what it encodes.
pub proof fn law_read_lines(stream: &[u8], lines: Vec<String>, i: int)
    requires
        call_ensures(read_stream_lines, (stream,), lines),
    ensures
        lines@.len() == byte_lines(stream@).len(),
        0 <= i < lines@.len() && vstd::utf8::valid_utf8(byte_lines(stream@)[i]) ==> lines@[i]@
            == vstd::utf8::decode_utf8(byte_lines(stream@)[i]),
{
    assert(views(lines@).len() == lines@.len());
    if 0 <= i < lines@.len() {
        assert(reads_as(byte_lines(stream@)[i], lines@[i]@));
    }
}

/// A line goes to the log behind its prefix, and to the wait for the boot line, both
/// without white space at its end; the log and the recent lines show a notice in place
/// of the boot line. A blank line is not remembered; the oldest of twelve makes room.
pub proof fn law_forwarded_lines(prefix: &str, line: &str, forwarded: ForwardedLine)
    ensures
        forall|recent: &mut Vec<String>| #[trigger]
            call_ensures(forward_backend_stream, (prefix, line, recent), forwarded) ==> {
                let trimmed = trim_end(line@);
                let shown = if crate::text::contains_text(trimmed, "dsh web: "@) {
                    "dsh web: [startup URL omitted]"@
                } else {
                    trimmed
                };
                &&& forwarded.log@ == prefix@ + shown
                &&& forwarded.startup@ == trimmed
                &&& trimmed.len() == 0 ==> views(final(recent)@) == views(recent@)
                &&& trimmed.len() > 0 && recent@.len() < 12 ==> views(final(recent)@) == views(
                    recent@,
                ).push(shown)
                &&& trimmed.len() > 0 && recent@.len() >= 12 ==> views(final(recent)@) == views(
                    recent@,
                ).skip(1).push(shown)
            },
{
    assert forall|recent: &mut Vec<String>| #[trigger]
        call_ensures(forward_backend_stream, (prefix, line, recent), forwarded) implies {
        let trimmed = trim_end(line@);
        let shown = if crate::text::contains_text(trimmed, "dsh web: "@) {
            "dsh web: [startup URL omitted]"@
        } else {
            trimmed
        };
        &&& forwarded.log@ == prefix@ + shown
        &&& forwarded.startup@ == trimmed
        &&& trimmed.len() == 0 ==> views(final(recent)@) == views(recent@)
        &&& trimmed.len() > 0 && recent@.len() < 12 ==> views(final(recent)@) == views(
            recent@,
        ).push(shown)
        &&& trimmed.len() > 0 && recent@.len() >= 12 ==> views(final(recent)@) == views(
            recent@,
        ).skip(1).push(shown)
    } by {
        assert(views(recent@).len() == recent@.len());
        law_oldest_line_makes_room(views(recent@), logged_line(trim_end(line@)));
    }
}

} // verus!
