//! Framing of streamed engine responses: splitting a body into lines
//! (NDJSON, pull progress) and docker's 8-byte multiplexed log/exec frames.
//!
//! A multiplexed frame is: byte 0 the stream (1 = stdout, 2 = stderr),
//! bytes 1-3 padding, bytes 4-7 the payload length as a big-endian `u32`,
//! then the payload. TTY containers do not multiplex: their bytes are raw
//! terminal output. Logs detect the mode from the first byte (TTY content
//! rarely starts with 0, 1 or 2); exec knows it up front from its `tty`
//! flag.

use bytes::{Bytes, BytesMut};
use vstd::prelude::*;
use vstd::string::StringExecFns;

use super::buffer::{
    buf_advance, buf_at, buf_extend, buf_len, buf_split_to, buf_take_all, buf_with_capacity, bytes_contents,
    bytes_mut_contents,
};
use crate::text::{from_chars, slice_chars, starts_with, to_chars};

verus! {

/// Splits a byte stream into lines.
pub struct LineBuffer {
    buf: BytesMut,
}

/// The first `\n` in `s` at or after `from`.
pub open spec fn first_newline(s: Seq<u8>, from: int) -> Option<int>
    decreases s.len() - from,
{
    if from < 0 || from >= s.len() {
        None
    } else if s[from] == 10 {
        Some(from)
    } else {
        first_newline(s, from + 1)
    }
}

impl LineBuffer {
    /// The bytes not yet handed out.
    pub closed spec fn pending(&self) -> Seq<u8> {
        bytes_mut_contents(self.buf)
    }

    /// An empty buffer.
    pub fn new() -> (res: LineBuffer)
        ensures
            res.pending() == Seq::<u8>::empty(),
    {
        LineBuffer { buf: buf_with_capacity(4096) }
    }

    /// Appends bytes read from the stream.
    pub fn push(&mut self, bytes: &[u8])
        requires
            old(self).pending().len() + bytes@.len() <= usize::MAX,
        ensures
            final(self).pending() == old(self).pending() + bytes@,
    {
        buf_extend(&mut self.buf, bytes)
    }

    /// The next complete line, without its `\n`; `None` while no `\n` is
    /// buffered.
    pub fn take_line(&mut self) -> (res: Option<Bytes>)
        ensures
            match first_newline(old(self).pending(), 0) {
                Some(pos) => res matches Some(line) && bytes_contents(line) == old(self).pending().subrange(0, pos)
                    && final(self).pending() == old(self).pending().subrange(pos + 1, old(self).pending().len() as int)
                    && old(self).pending() == bytes_contents(line) + seq![10u8] + final(self).pending(),
                None => res is None && final(self).pending() == old(self).pending(),
            },
    {
        let n = buf_len(&self.buf);
        let mut pos: usize = 0;
        while pos < n && buf_at(&self.buf, pos) != 10
            invariant
                pos <= n,
                n == bytes_mut_contents(self.buf).len(),
                first_newline(bytes_mut_contents(self.buf), 0) == first_newline(bytes_mut_contents(self.buf), pos as int),
            decreases n - pos,
        {
            pos = pos + 1;
        }
        if pos == n {
            return None;
        }
        let line = buf_split_to(&mut self.buf, pos);
        buf_advance(&mut self.buf, 1);
        proof {
            let p = old(self).pending();
            assert(bytes_mut_contents(self.buf) =~= p.subrange(pos + 1, p.len() as int));
            assert(p[pos as int] == 10u8);
            assert(p =~= p.subrange(0, pos as int) + seq![10u8] + p.subrange(pos + 1, p.len() as int));
        }
        Some(line)
    }

    /// At end of stream: the trailing partial line, if any bytes are left.
    pub fn flush_eof(&mut self) -> (res: Option<Bytes>)
        ensures
            if old(self).pending().len() == 0 {
                res is None && final(self).pending() == old(self).pending()
            } else {
                res matches Some(b) && bytes_contents(b) == old(self).pending() && final(self).pending() == Seq::<
                    u8,
                >::empty()
            },
    {
        if buf_len(&self.buf) == 0 {
            None
        } else {
            Some(buf_take_all(&mut self.buf))
        }
    }
}

/// One demultiplexed chunk of output.
pub struct MuxFrame {
    pub stderr: bool,
    pub data: Bytes,
}

/// How a log or exec stream is framed.
#[derive(Debug, Clone, Copy, PartialEq, Eq, Structural)]
pub enum MultiplexerMode {
    /// Sniff the first byte: 0, 1 or 2 means multiplexed, anything else raw.
    Detect,
    /// Always raw TTY bytes.
    Tty,
    /// Always 8-byte headers.
    Multiplexed,
}

/// A stateful frame parser: bytes go in, frames come out. At end of
/// stream any trailing partial frame comes out as one stdout chunk.
pub struct Multiplexer {
    buf: BytesMut,
    mode: MultiplexerMode,
}

/// The mode once `c` is buffered: `Detect` decides on the first byte.
pub open spec fn settled_mode(mode: MultiplexerMode, c: Seq<u8>) -> MultiplexerMode {
    if mode == MultiplexerMode::Detect && c.len() > 0 {
        if c[0] <= 2 {
            MultiplexerMode::Multiplexed
        } else {
            MultiplexerMode::Tty
        }
    } else {
        mode
    }
}

/// The payload length of a multiplexed frame header: bytes 4-7, big-endian.
pub open spec fn header_len(c: Seq<u8>) -> int {
    c[4] * 16777216 + c[5] * 65536 + c[6] * 256 + c[7]
}

/// The next frame (stderr flag and payload) of buffered bytes `c` in a
/// settled mode, and the bytes that stay buffered.
pub open spec fn spec_next_frame(mode: MultiplexerMode, c: Seq<u8>) -> (Option<(bool, Seq<u8>)>, Seq<u8>) {
    match mode {
        MultiplexerMode::Multiplexed => if c.len() < 8 || c.len() < 8 + header_len(c) {
            (None, c)
        } else {
            (Some((c[0] == 2, c.subrange(8, 8 + header_len(c)))), c.subrange(8 + header_len(c), c.len() as int))
        },
        MultiplexerMode::Tty => if c.len() == 0 {
            (None, c)
        } else {
            (Some((false, c)), Seq::<u8>::empty())
        },
        MultiplexerMode::Detect => (None, c),
    }
}

impl Multiplexer {
    /// The bytes not yet handed out.
    pub closed spec fn pending(&self) -> Seq<u8> {
        bytes_mut_contents(self.buf)
    }

    /// The current mode.
    pub closed spec fn spec_mode(&self) -> MultiplexerMode {
        self.mode
    }

    /// An empty parser in `mode`.
    pub fn new(mode: MultiplexerMode) -> (res: Multiplexer)
        ensures
            res.pending() == Seq::<u8>::empty(),
            res.spec_mode() == mode,
    {
        Multiplexer { buf: buf_with_capacity(8192), mode }
    }

    /// Appends bytes read from the stream.
    pub fn push(&mut self, bytes: &[u8])
        requires
            old(self).pending().len() + bytes@.len() <= usize::MAX,
        ensures
            final(self).pending() == old(self).pending() + bytes@,
            final(self).spec_mode() == old(self).spec_mode(),
    {
        buf_extend(&mut self.buf, bytes)
    }

    /// The next complete frame, if one is buffered. In `Detect` mode the
    /// first buffered byte settles the mode.
    pub fn next_frame(&mut self) -> (res: Option<MuxFrame>)
        ensures
            final(self).spec_mode() == settled_mode(old(self).spec_mode(), old(self).pending()),
            ({
                let (f, rest) = spec_next_frame(final(self).spec_mode(), old(self).pending());
                &&& final(self).pending() == rest
                &&& match f {
                    Some((err, data)) => res matches Some(fr) && fr.stderr == err && bytes_contents(fr.data) == data,
                    None => res is None,
                }
            }),
    {
        if self.mode == MultiplexerMode::Detect && buf_len(&self.buf) > 0 {
            self.mode = if buf_at(&self.buf, 0) <= 2 {
                MultiplexerMode::Multiplexed
            } else {
                MultiplexerMode::Tty
            };
        }
        match self.mode {
            MultiplexerMode::Multiplexed => self.take_multiplexed_frame(),
            MultiplexerMode::Tty => self.take_raw_frame(),
            MultiplexerMode::Detect => None,
        }
    }

    /// At end of stream: whatever is left, as one stdout chunk.
    pub fn finish(self) -> (res: Option<MuxFrame>)
        ensures
            if self.pending().len() == 0 {
                res is None
            } else {
                res matches Some(fr) && !fr.stderr && bytes_contents(fr.data) == self.pending()
            },
    {
        let mut buf = self.buf;
        if buf_len(&buf) == 0 {
            None
        } else {
            Some(MuxFrame { stderr: false, data: buf_take_all(&mut buf) })
        }
    }

    fn take_multiplexed_frame(&mut self) -> (res: Option<MuxFrame>)
        ensures
            final(self).spec_mode() == old(self).spec_mode(),
            ({
                let (f, rest) = spec_next_frame(MultiplexerMode::Multiplexed, old(self).pending());
                &&& final(self).pending() == rest
                &&& match f {
                    Some((err, data)) => res matches Some(fr) && fr.stderr == err && bytes_contents(fr.data) == data,
                    None => res is None,
                }
            }),
    {
        let n = buf_len(&self.buf);
        if n < 8 {
            return None;
        }
        let stream_byte = buf_at(&self.buf, 0);
        let b4 = buf_at(&self.buf, 4) as u64;
        let b5 = buf_at(&self.buf, 5) as u64;
        let b6 = buf_at(&self.buf, 6) as u64;
        let b7 = buf_at(&self.buf, 7) as u64;
        let len: u64 = b4 * 16777216 + b5 * 65536 + b6 * 256 + b7;
        if (n as u64) < 8 + len {
            return None;
        }
        buf_advance(&mut self.buf, 8);
        let data = buf_split_to(&mut self.buf, len as usize);
        proof {
            let c = old(self).pending();
            assert(bytes_contents(data) =~= c.subrange(8, 8 + header_len(c)));
            assert(bytes_mut_contents(self.buf) =~= c.subrange(8 + header_len(c), c.len() as int));
        }
        Some(MuxFrame { stderr: stream_byte == 2, data })
    }

    fn take_raw_frame(&mut self) -> (res: Option<MuxFrame>)
        ensures
            final(self).spec_mode() == old(self).spec_mode(),
            ({
                let (f, rest) = spec_next_frame(MultiplexerMode::Tty, old(self).pending());
                &&& final(self).pending() == rest
                &&& match f {
                    Some((err, data)) => res matches Some(fr) && fr.stderr == err && bytes_contents(fr.data) == data,
                    None => res is None,
                }
            }),
    {
        if buf_len(&self.buf) == 0 {
            None
        } else {
            Some(MuxFrame { stderr: false, data: buf_take_all(&mut self.buf) })
        }
    }
}

/// Taking a frame loses no bytes: a multiplexed frame is its 8-byte
/// header, its payload and what stays buffered, in that order; a raw frame
/// is everything buffered.
pub proof fn law_frames_keep_every_byte(mode: MultiplexerMode, c: Seq<u8>)
    ensures
        match spec_next_frame(mode, c) {
            (Some((_, data)), rest) => if mode == MultiplexerMode::Multiplexed {
                c == c.subrange(0, 8) + data + rest
            } else {
                c == data + rest
            },
            (None, rest) => rest == c,
        },
{
    if mode == MultiplexerMode::Multiplexed && c.len() >= 8 && c.len() >= 8 + header_len(c) {
        let (f, rest) = spec_next_frame(mode, c);
        assert(c =~= c.subrange(0, 8) + c.subrange(8, 8 + header_len(c)) + rest);
    } else if mode == MultiplexerMode::Tty && c.len() > 0 {
        assert(c =~= c + Seq::<u8>::empty());
    }
}

/// A stream that starts with a complete docker frame (stream byte 0, 1 or
/// 2, three zero bytes, the big-endian payload length, the payload) is
/// read as multiplexed: the first frame comes out as exactly its payload,
/// on stderr precisely when the stream byte is 2, and the bytes after it
/// stay buffered. A stream whose first byte is above 2 is raw terminal
/// output, handed out whole on stdout.
pub proof fn law_detect_reads_docker_frames(
    stream: u8,
    l0: u8,
    l1: u8,
    l2: u8,
    l3: u8,
    payload: Seq<u8>,
    rest: Seq<u8>,
)
    requires
        stream <= 2,
        l0 * 16777216 + l1 * 65536 + l2 * 256 + l3 == payload.len(),
    ensures
        ({
            let c = seq![stream, 0u8, 0u8, 0u8, l0, l1, l2, l3] + payload + rest;
            &&& settled_mode(MultiplexerMode::Detect, c) == MultiplexerMode::Multiplexed
            &&& spec_next_frame(settled_mode(MultiplexerMode::Detect, c), c) == (
                Some((stream == 2, payload)),
                rest,
            )
        }),
{
    let c = seq![stream, 0u8, 0u8, 0u8, l0, l1, l2, l3] + payload + rest;
    assert(c[0] == stream);
    assert(c[4] == l0 && c[5] == l1 && c[6] == l2 && c[7] == l3);
    assert(c.subrange(8, 8 + payload.len() as int) =~= payload);
    assert(c.subrange(8 + payload.len() as int, c.len() as int) =~= rest);
}

/// Output whose first byte is above 2 cannot be a docker frame: it is read
/// as raw terminal output and handed out whole on stdout.
pub proof fn law_detect_reads_raw_output(c: Seq<u8>)
    requires
        c.len() > 0,
        c[0] > 2,
    ensures
        settled_mode(MultiplexerMode::Detect, c) == MultiplexerMode::Tty,
        spec_next_frame(settled_mode(MultiplexerMode::Detect, c), c) == (
            Some((false, c)),
            Seq::<u8>::empty(),
        ),
{
}

/// A docker/podman id in its conventional 12-character short form, any
/// `sha256:` prefix stripped.
pub open spec fn spec_short_id(id: Seq<char>) -> Seq<char> {
    let s = if starts_with(id, "sha256:"@) {
        id.subrange(7, id.len() as int)
    } else {
        id
    };
    if s.len() <= 12 {
        s
    } else {
        s.subrange(0, 12)
    }
}

/// Trims an id to its short form.
pub fn short_id(id: &str) -> (res: String)
    ensures
        res@ == spec_short_id(id@),
{
    proof {
        reveal_strlit("sha256:");
    }
    let c = to_chars(id);
    let start: usize = if crate::text::chars_start_with(c.as_slice(), to_chars("sha256:").as_slice()) {
        7
    } else {
        0
    };
    let end: usize = if c.len() - start <= 12 {
        c.len()
    } else {
        start + 12
    };
    let out = slice_chars(c.as_slice(), start, end);
    assert(out@ =~= spec_short_id(id@));
    from_chars(out.as_slice())
}

} // verus!
