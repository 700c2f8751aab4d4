//! The frame codec: a growing byte buffer is decoded into complete
//! messages, any trailing partial message is retained for the next read,
//! and a command is encoded into its wire form.
//!
//! A frame is a block of `Key: Value` lines closed by a blank line (two
//! consecutive line feeds); a `Content-Length` header announces a body of
//! exactly that many bytes after the blank line.

use vstd::prelude::*;
use vstd::slice::{slice_subrange, slice_to_vec};
use vstd::utf8::{decode_utf8, valid_utf8};
use vstd::string::StringSliceAdditionalSpecFns;
use crate::error::EslError;
use crate::message::{header_lookup, headers_view, str_eq, Message, MessageView};

verus! {

/// What one decode attempt on a buffer yields: more bytes are needed, the
/// frame at the head is malformed, or a complete frame of `used` bytes.
pub enum DecodeStep {
    Incomplete,
    Malformed,
    Frame { msg: MessageView, used: int },
}

/// The first position of `b` in `s[i..end]`, or `end` where it does not
/// occur.
pub open spec fn find_byte_from(s: Seq<u8>, i: int, end: int, b: u8) -> int
    decreases end - i when 0 <= i <= end <= s.len()
{
    if i >= end {
        end
    } else if s[i] == b {
        i
    } else {
        find_byte_from(s, i + 1, end, b)
    }
}

/// The first position of a blank line (two consecutive line feeds) at or
/// after `i`, or `s.len()` where none has arrived yet.
pub open spec fn first_blank_from(s: Seq<u8>, i: int) -> int
    decreases s.len() - i when 0 <= i
{
    if i + 1 >= s.len() {
        s.len() as int
    } else if s[i] == 10 && s[i + 1] == 10 {
        i
    } else {
        first_blank_from(s, i + 1)
    }
}

/// One `Key: Value` line over `s[start..end]`: the key runs to the first
/// colon, and the value follows it, less one optional leading space.  A line
/// without a colon does not parse.
pub open spec fn parse_line_at(s: Seq<u8>, start: int, end: int) -> Option<(Seq<u8>, Seq<u8>)> {
    let c = find_byte_from(s, start, end, 58);
    if c >= end {
        None
    } else {
        let vstart = if c + 1 < end && s[c + 1] == 32 {
            c + 2
        } else {
            c + 1
        };
        Some((s.subrange(start, c), s.subrange(vstart, end)))
    }
}

/// The header block over `s[j..end]`, one line per line feed, each line
/// parsed by [`parse_line_at`] and decoded as UTF-8; `None` where any line
/// is malformed or not valid UTF-8.
pub open spec fn parse_headers_from(s: Seq<u8>, j: int, end: int) -> Option<
    Seq<(Seq<char>, Seq<char>)>,
>
    decreases end - j when 0 <= j <= end <= s.len()
{
    if j >= end {
        Some(Seq::<(Seq<char>, Seq<char>)>::empty())
    } else {
        let e0 = find_byte_from(s, j, end, 10);
        let line_end = if j <= e0 && e0 < end {
            e0
        } else {
            end
        };
        match parse_line_at(s, j, line_end) {
            None => None,
            Some(kv) => if valid_utf8(kv.0) && valid_utf8(kv.1) {
                let next = if line_end == end {
                    end
                } else {
                    line_end + 1
                };
                match parse_headers_from(s, next, end) {
                    None => None,
                    Some(rest) => Some(
                        seq![(decode_utf8(kv.0), decode_utf8(kv.1))] + rest,
                    ),
                }
            } else {
                None
            },
        }
    }
}

/// Whether `c` is a decimal digit.
pub open spec fn is_digit(c: char) -> bool {
    48 <= (c as u32) && (c as u32) <= 57
}

/// The value of a digit string, most significant digit first.
pub open spec fn dec_val(s: Seq<char>) -> int
    decreases s.len(),
{
    if s.len() == 0 {
        0
    } else {
        10 * dec_val(s.drop_last()) + ((s.last() as u32) as int - 48)
    }
}

/// The length indicator a header value names: one to nineteen decimal
/// digits; anything else is rejected.
pub open spec fn dec_value(s: Seq<char>) -> Option<int> {
    if 1 <= s.len() <= 19 && (forall|i: int| 0 <= i < s.len() ==> is_digit(s[i])) {
        Some(dec_val(s))
    } else {
        None
    }
}

/// Ten to the `n`.
pub open spec fn pow10(n: nat) -> int
    decreases n,
{
    if n == 0 {
        1
    } else {
        10 * pow10((n - 1) as nat)
    }
}

/// A digit string's value is below ten to its length.
proof fn lemma_dec_val_bound(s: Seq<char>)
    requires
        forall|i: int| 0 <= i < s.len() ==> is_digit(s[i]),
    ensures
        0 <= dec_val(s) < pow10(s.len()),
    decreases s.len(),
{
    if s.len() > 0 {
        lemma_dec_val_bound(s.drop_last());
    }
}

/// `pow10` is positive.
proof fn lemma_pow10_pos(n: nat)
    ensures
        pow10(n) >= 1,
    decreases n,
{
    if n > 0 {
        lemma_pow10_pos((n - 1) as nat);
    }
}

/// `pow10` grows with its argument.
proof fn lemma_pow10_le(a: nat, b: nat)
    requires
        a <= b,
    ensures
        pow10(a) <= pow10(b),
    decreases b,
{
    if a < b {
        lemma_pow10_le(a, (b - 1) as nat);
        lemma_pow10_pos((b - 1) as nat);
    }
}

/// What decoding the head of `buf` yields: nothing until the blank line and
/// the announced body are all present; a malformed header line, length
/// indicator or body encoding poisons the stream; otherwise the complete
/// frame and how many bytes it used.
pub open spec fn spec_decode(buf: Seq<u8>) -> DecodeStep {
    let p = first_blank_from(buf, 0);
    if p >= buf.len() {
        DecodeStep::Incomplete
    } else {
        match parse_headers_from(buf, 0, p) {
            None => DecodeStep::Malformed,
            Some(hs) => match header_lookup(hs, "Content-Length"@) {
                None => DecodeStep::Frame {
                    msg: MessageView { headers: hs, body: None },
                    used: p + 2,
                },
                Some(v) => match dec_value(v) {
                    None => DecodeStep::Malformed,
                    Some(n) => if n > usize::MAX {
                        DecodeStep::Malformed
                    } else if buf.len() < p + 2 + n {
                        DecodeStep::Incomplete
                    } else if !valid_utf8(buf.subrange(p + 2, p + 2 + n)) {
                        DecodeStep::Malformed
                    } else {
                        DecodeStep::Frame {
                            msg: MessageView {
                                headers: hs,
                                body: Some(decode_utf8(buf.subrange(p + 2, p + 2 + n))),
                            },
                            used: p + 2 + n,
                        }
                    },
                },
            },
        }
    }
}

/// Relies on `String::from_utf8`: it accepts exactly the valid UTF-8 byte
/// sequences and decodes them.
#[verifier::external_body]
fn bytes_to_string(bytes: Vec<u8>) -> (r: Option<String>)
    ensures
        r matches Some(s) ==> (valid_utf8(bytes@) && s@ == decode_utf8(bytes@)),
        r is None ==> !valid_utf8(bytes@),
{
    String::from_utf8(bytes).ok()
}

/// The first position of `b` in `buf[start..end]`, or `end`.
fn find_byte(buf: &Vec<u8>, start: usize, end: usize, b: u8) -> (r: usize)
    requires
        start <= end <= buf.len(),
    ensures
        r as int == find_byte_from(buf@, start as int, end as int, b),
        start <= r <= end,
        r < end ==> buf@[r as int] == b,
{
    let mut i: usize = start;
    while i < end
        invariant
            start <= i <= end <= buf.len(),
            find_byte_from(buf@, start as int, end as int, b) == find_byte_from(
                buf@,
                i as int,
                end as int,
                b,
            ),
        decreases end - i,
    {
        if buf[i] == b {
            return i;
        }
        i += 1;
    }
    end
}

/// The first position of a blank line in `buf`, or `buf.len()`.
fn find_blank(buf: &Vec<u8>) -> (r: usize)
    ensures
        r as int == first_blank_from(buf@, 0),
        r <= buf.len(),
        r < buf.len() ==> r + 1 < buf.len() && buf@[r as int] == 10 && buf@[r + 1] == 10,
{
    let n = buf.len();
    let mut i: usize = 0;
    while i < n && i + 1 < n
        invariant
            i <= n,
            n == buf.len(),
            first_blank_from(buf@, 0) == first_blank_from(buf@, i as int),
        decreases n - i,
    {
        if buf[i] == 10 && buf[i + 1] == 10 {
            return i;
        }
        i += 1;
    }
    n
}

/// The value of the first header named `key` in a header vector.
pub fn find_header<'a>(headers: &'a Vec<(String, String)>, key: &str) -> (r: Option<&'a String>)
    ensures
        match r {
            Some(v) => header_lookup(headers_view(headers@), key@) == Some(v@),
            None => header_lookup(headers_view(headers@), key@) is None,
        },
{
    let n = headers.len();
    assert(headers_view(headers@).skip(0) =~= headers_view(headers@));
    let mut i: usize = 0;
    while i < n
        invariant
            n == headers.len(),
            i <= n,
            header_lookup(headers_view(headers@), key@) == header_lookup(
                headers_view(headers@).skip(i as int),
                key@,
            ),
        decreases n - i,
    {
        assert(headers_view(headers@).skip(i as int).drop_first() =~= headers_view(
            headers@,
        ).skip(i + 1));
        assert(headers_view(headers@).skip(i as int)[0] == headers_view(headers@)[i as int]);
        if str_eq(headers[i].0.as_str(), key) {
            return Some(&headers[i].1);
        }
        i += 1;
    }
    assert(headers_view(headers@).skip(n as int) =~= Seq::<(Seq<char>, Seq<char>)>::empty());
    None
}

/// Parses a length indicator: one to nineteen decimal digits.
fn parse_dec(v: &str) -> (r: Option<u64>)
    ensures
        r matches Some(n) ==> dec_value(v@) == Some(n as int),
        r is None ==> dec_value(v@) is None,
{
    let len = v.unicode_len();
    if len == 0 || len > 19 {
        return None;
    }
    let mut val: u64 = 0;
    let mut i: usize = 0;
    while i < len
        invariant
            len == v@.len(),
            1 <= len <= 19,
            i <= len,
            forall|j: int| 0 <= j < i ==> is_digit(v@[j]),
            val == dec_val(v@.take(i as int)),
        decreases len - i,
    {
        let c = v.get_char(i);
        let cv = c as u32;
        if cv < 48 || cv > 57 {
            return None;
        }
        proof {
            lemma_dec_val_bound(v@.take(i as int));
            lemma_pow10_le(i as nat, 18nat);
            assert(pow10(18) == 1000000000000000000) by {
                assert(pow10(0) == 1);
                assert(pow10(1) == 10);
                assert(pow10(2) == 100);
                assert(pow10(3) == 1000);
                assert(pow10(4) == 10000);
                assert(pow10(5) == 100000);
                assert(pow10(6) == 1000000);
                assert(pow10(7) == 10000000);
                assert(pow10(8) == 100000000);
                assert(pow10(9) == 1000000000);
                assert(pow10(10) == 10000000000);
                assert(pow10(11) == 100000000000);
                assert(pow10(12) == 1000000000000);
                assert(pow10(13) == 10000000000000);
                assert(pow10(14) == 100000000000000);
                assert(pow10(15) == 1000000000000000);
                assert(pow10(16) == 10000000000000000);
                assert(pow10(17) == 100000000000000000);
                assert(pow10(18) == 1000000000000000000);
            }
            assert(val < 1000000000000000000);
        }
        val = val * 10 + ((cv - 48) as u64);
        proof {
            assert(v@.take(i + 1).drop_last() =~= v@.take(i as int));
            assert(v@.take(i + 1).last() == v@[i as int]);
        }
        i += 1;
    }
    proof {
        assert(v@.take(len as int) =~= v@);
    }
    Some(val)
}

/// Appends `rest` to `acc` under `Option`.
pub open spec fn compose_headers(
    acc: Seq<(Seq<char>, Seq<char>)>,
    rest: Option<Seq<(Seq<char>, Seq<char>)>>,
) -> Option<Seq<(Seq<char>, Seq<char>)>> {
    match rest {
        None => None,
        Some(r) => Some(acc + r),
    }
}

/// Parses the header block `buf[0..end]` into key/value strings.
fn parse_header_block(buf: &Vec<u8>, end: usize) -> (r: Result<Vec<(String, String)>, EslError>)
    requires
        end <= buf.len(),
    ensures
        r matches Ok(hs) ==> parse_headers_from(buf@, 0, end as int) == Some(
            headers_view(hs@),
        ),
        r matches Err(e) ==> (parse_headers_from(buf@, 0, end as int) is None && e is Decode),
{
    let mut out: Vec<(String, String)> = Vec::new();
    let mut j: usize = 0;
    proof {
        assert(headers_view(out@) =~= Seq::<(Seq<char>, Seq<char>)>::empty());
    }
    while j < end
        invariant
            j <= end <= buf.len(),
            parse_headers_from(buf@, 0, end as int) == compose_headers(
                headers_view(out@),
                parse_headers_from(buf@, j as int, end as int),
            ),
        decreases end - j,
    {
        let ghost pre = parse_headers_from(buf@, j as int, end as int);
        let e0 = find_byte(buf, j, end, 10);
        let line_end = e0;
        let c = find_byte(buf, j, line_end, 58);
        if c >= line_end {
            assert(pre is None);
            return Err(EslError::Decode(String::from_str("header line without a colon")));
        }
        let vstart = if c + 1 < line_end && buf[c + 1] == 32 {
            c + 2
        } else {
            c + 1
        };
        let key_bytes = slice_to_vec(slice_subrange(buf.as_slice(), j, c));
        let val_bytes = slice_to_vec(slice_subrange(buf.as_slice(), vstart, line_end));
        let key = match bytes_to_string(key_bytes) {
            Some(s) => s,
            None => {
                assert(pre is None);
                return Err(EslError::Decode(String::from_str("header key is not UTF-8")));
            },
        };
        let value = match bytes_to_string(val_bytes) {
            Some(s) => s,
            None => {
                assert(pre is None);
                return Err(EslError::Decode(String::from_str("header value is not UTF-8")));
            },
        };
        let ghost old_out = out@;
        out.push((key, value));
        let next = if line_end == end {
            end
        } else {
            line_end + 1
        };
        proof {
            let kv = parse_line_at(buf@, j as int, line_end as int).unwrap();
            assert(headers_view(out@) =~= headers_view(old_out) + seq![(key@, value@)]);
            assert(pre == compose_headers(
                seq![(decode_utf8(kv.0), decode_utf8(kv.1))],
                parse_headers_from(buf@, next as int, end as int),
            ));
            match parse_headers_from(buf@, next as int, end as int) {
                None => {},
                Some(rest) => {
                    assert(headers_view(old_out) + (seq![(key@, value@)] + rest) =~= headers_view(
                        out@,
                    ) + rest);
                },
            }
        }
        j = next;
    }
    Ok(out)
}

/// The incremental frame decoder: bytes go in as they arrive, complete
/// messages come out, and the tail of a split message waits for more bytes.
pub struct FrameDecoder {
    buf: Vec<u8>,
}

impl View for FrameDecoder {
    type V = Seq<u8>;

    closed spec fn view(&self) -> Seq<u8> {
        self.buf@
    }
}

/// The buffer left after feeding every chunk in turn.
pub open spec fn feed_all(buf: Seq<u8>, chunks: Seq<Seq<u8>>) -> Seq<u8>
    decreases chunks.len(),
{
    if chunks.len() == 0 {
        buf
    } else {
        feed_all(buf + chunks[0], chunks.drop_first())
    }
}

/// Feeding a byte stream chunk by chunk — in particular one byte at a
/// time — leaves the decoder with exactly the bytes of the whole stream;
/// since every decode step reads the buffer alone, the messages that come
/// out are identical to feeding the stream whole.
pub proof fn lemma_chunked_feed(buf: Seq<u8>, chunks: Seq<Seq<u8>>)
    ensures
        feed_all(buf, chunks) == buf + chunks.flatten(),
    decreases chunks.len(),
{
    if chunks.len() == 0 {
        assert(buf + chunks.flatten() =~= buf);
    } else {
        lemma_chunked_feed(buf + chunks[0], chunks.drop_first());
        assert((buf + chunks[0]) + chunks.drop_first().flatten() =~= buf + (chunks[0]
            + chunks.drop_first().flatten()));
        assert(chunks.flatten() == chunks[0] + chunks.drop_first().flatten()) by {
            assert(chunks.first() == chunks[0]);
        }
    }
}

impl FrameDecoder {
    /// A decoder with nothing buffered.
    pub fn new() -> (d: FrameDecoder)
        ensures
            d@ == Seq::<u8>::empty(),
    {
        FrameDecoder { buf: Vec::new() }
    }

    /// Buffers freshly arrived bytes after everything already held.
    pub fn feed(&mut self, bytes: &[u8])
        ensures
            final(self)@ == old(self)@ + bytes@,
    {
        let n = bytes.len();
        let mut k: usize = 0;
        while k < n
            invariant
                k <= n,
                n == bytes@.len(),
                self.buf@ == old(self).buf@ + bytes@.take(k as int),
            decreases n - k,
        {
            self.buf.push(bytes[k]);
            proof {
                assert(old(self).buf@ + bytes@.take(k as int) + seq![bytes@[k as int]] =~= old(
                    self,
                ).buf@ + bytes@.take(k + 1));
            }
            k += 1;
        }
        proof {
            assert(bytes@.take(n as int) =~= bytes@);
        }
    }

    /// Decodes the message at the head of the buffer, if it is complete:
    /// `Ok(None)` until more bytes arrive, the decoded message and its bytes
    /// consumed otherwise, and a decode error on a malformed frame, after
    /// which the connection is torn down.
    pub fn try_next(&mut self) -> (r: Result<Option<Message>, EslError>)
        ensures
            spec_decode(old(self)@) is Incomplete ==> (r == Ok::<Option<Message>, EslError>(None)
                && final(self)@ == old(self)@),
            spec_decode(old(self)@) is Malformed ==> (r matches Err(e) && e is Decode),
            spec_decode(old(self)@) matches DecodeStep::Frame { msg, used } ==> (r matches Ok(om)
                && om matches Some(m) && m@ == msg && final(self)@ == old(self)@.skip(used)),
    {
        let len = self.buf.len();
        let p = find_blank(&self.buf);
        if p >= len {
            return Ok(None);
        }
        let headers = match parse_header_block(&self.buf, p) {
            Ok(hs) => hs,
            Err(e) => {
                return Err(e);
            },
        };
        let mut used: usize = p + 2;
        let mut body: Option<String> = None;
        let clen = find_header(&headers, "Content-Length");
        match clen {
            None => {},
            Some(v) => {
                let n = match parse_dec(v.as_str()) {
                    None => {
                        return Err(
                            EslError::Decode(String::from_str("malformed length indicator")),
                        );
                    },
                    Some(n) => n,
                };
                if n > usize::MAX as u64 {
                    return Err(EslError::Decode(String::from_str("length indicator too large")));
                }
                let n = n as usize;
                if len - (p + 2) < n {
                    return Ok(None);
                }
                let body_bytes = slice_to_vec(slice_subrange(self.buf.as_slice(), p + 2, p + 2 + n));
                match bytes_to_string(body_bytes) {
                    None => {
                        return Err(EslError::Decode(String::from_str("body is not UTF-8")));
                    },
                    Some(s) => {
                        body = Some(s);
                        used = p + 2 + n;
                    },
                }
            },
        }
        let rest = slice_to_vec(slice_subrange(self.buf.as_slice(), used, len));
        self.buf = rest;
        Ok(Some(Message { headers, body }))
    }
}

/// Encodes a command into its wire form: the command text followed by the
/// blank line that closes a frame.
pub fn encode_command(cmd: &str) -> (r: Vec<u8>)
    ensures
        r@ == cmd.spec_bytes() + seq![10u8, 10u8],
{
    let mut v = cmd.as_bytes_vec();
    v.push(10);
    v.push(10);
    proof {
        assert(cmd.spec_bytes() + seq![10u8] + seq![10u8] =~= cmd.spec_bytes() + seq![10u8, 10u8]);
    }
    v
}

} // verus!
