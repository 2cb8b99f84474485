//! Framing: a 4-byte big-endian payload length, then the payload, whose
//! fields are separated by single `0x00` bytes; the last field need not be
//! terminated.
use vstd::prelude::*;
use crate::buffers::{
    buf_advance, buf_as_slice, buf_extend, buf_freeze, buf_split_to, buf_view, bytes_as_slice,
    bytes_slice, bytes_view, fields_view,
};
use crate::scan::{
    delimiters_in, field_boundaries, has_open_tail, lemma_delimiters_split, lemma_scans_agree, tail_boundary,
    vectorized_scan,
};

verus! {

/// Largest payload length a frame may declare.
pub const MAX_FRAME_LEN: usize = 8388608;

/// A decoded frame: its fields, in order.
pub type DecodedMessage = Vec<bytes::Bytes>;

/// The big-endian number held by the first four bytes of `s`.
pub open spec fn be_u32(s: Seq<u8>) -> u32 {
    ((s[0] as u32) << 24u32) | ((s[1] as u32) << 16u32) | ((s[2] as u32) << 8u32) | (s[3] as u32)
}

/// The four big-endian bytes of `n`.
pub open spec fn be_bytes(n: u32) -> Seq<u8> {
    seq![(n >> 24u32) as u8, (n >> 16u32) as u8, (n >> 8u32) as u8, n as u8]
}

/// Where field `i` starts, given the boundaries `bs`: just past the previous boundary.
pub open spec fn field_start(bs: Seq<usize>, i: int) -> int {
    if i == 0 {
        0
    } else {
        bs[i - 1] + 1
    }
}

/// The fields of a payload: the bytes between consecutive boundaries, each
/// without its terminating delimiter.
pub open spec fn frame_fields(p: Seq<u8>) -> Seq<Seq<u8>> {
    let bs = field_boundaries(p);
    Seq::new(bs.len(), |i: int| p.subrange(field_start(bs, i), bs[i] as int))
}

/// The payload carrying `f`: the fields joined by single delimiters.
pub open spec fn join_fields(f: Seq<Seq<u8>>) -> Seq<u8>
    decreases f.len(),
{
    if f.len() <= 1 {
        if f.len() == 1 {
            f[0]
        } else {
            Seq::empty()
        }
    } else {
        join_fields(f.drop_last()) + seq![0u8] + f.last()
    }
}

/// A complete frame carrying `f`: the payload's length, then the payload.
pub open spec fn encode_frame(f: Seq<Seq<u8>>) -> Seq<u8> {
    be_bytes(join_fields(f).len() as u32) + join_fields(f)
}

/// Positions of the delimiters that `join_fields(f)` places between fields.
pub open spec fn separators(f: Seq<Seq<u8>>) -> Seq<usize>
    decreases f.len(),
{
    if f.len() <= 1 {
        Seq::empty()
    } else {
        separators(f.drop_last()) + seq![join_fields(f.drop_last()).len() as usize]
    }
}

/// No field holds the delimiter byte.
pub open spec fn fields_delimiter_free(f: Seq<Seq<u8>>) -> bool {
    forall|i: int, j: int| 0 <= i < f.len() && 0 <= j < f[i].len() ==> #[trigger] f[i][j] != 0
}

/// What a buffer holds once `decode` has taken a frame from its front.
pub enum FrameStep {
    /// Fewer bytes than a whole frame: nothing is taken.
    NeedMore,
    /// A whole frame with payload `payload`, followed by `rest`.
    Frame { payload: Seq<u8>, rest: Seq<u8> },
    /// The length prefix exceeds `MAX_FRAME_LEN`.
    TooLarge { length: u32 },
}

/// How the front of buffer `b` reads as a frame.
pub open spec fn frame_step(b: Seq<u8>) -> FrameStep {
    if b.len() < 4 {
        FrameStep::NeedMore
    } else {
        let n = be_u32(b);
        if n > MAX_FRAME_LEN {
            FrameStep::TooLarge { length: n }
        } else if b.len() < 4 + n {
            FrameStep::NeedMore
        } else {
            FrameStep::Frame {
                payload: b.subrange(4, 4 + n),
                rest: b.subrange(4 + n, b.len() as int),
            }
        }
    }
}

/// Errors of the frame codec.
#[derive(Debug, Clone, Copy, PartialEq, Eq)]
pub enum CodecError {
    /// The length prefix declares a payload over `MAX_FRAME_LEN` bytes.
    FrameTooLarge { length: u32 },
}

proof fn lemma_be_round_trip(n: u32)
    ensures
        be_u32(be_bytes(n)) == n,
{
    let s = be_bytes(n);
    assert(((((n >> 24u32) as u8) as u32) << 24u32) | ((((n >> 16u32) as u8) as u32) << 16u32)
        | ((((n >> 8u32) as u8) as u32) << 8u32) | ((n as u8) as u32) == n) by (bit_vector);
}

proof fn lemma_delimiters_bounded(b: Seq<u8>, from: int, to: int)
    requires
        0 <= from,
        to <= b.len() <= usize::MAX,
    ensures
        forall|i: int|
            0 <= i < delimiters_in(b, from, to).len() ==> from <= #[trigger] delimiters_in(
                b,
                from,
                to,
            )[i] < to && b[delimiters_in(b, from, to)[i] as int] == 0,
        forall|i: int, j: int|
            0 <= i < j < delimiters_in(b, from, to).len() ==> #[trigger] delimiters_in(
                b,
                from,
                to,
            )[i] < #[trigger] delimiters_in(b, from, to)[j],
    decreases to - from,
{
    if to > from {
        lemma_delimiters_bounded(b, from, to - 1);
        let d = delimiters_in(b, from, to - 1);
        let e = delimiters_in(b, from, to);
        if b[to - 1] == 0 {
            assert(e == d.push((to - 1) as usize));
            assert forall|i: int| 0 <= i < e.len() implies from <= #[trigger] e[i] < to && b[e[i] as int] == 0 by {
                if i < d.len() {
                    assert(e[i] == d[i]);
                }
            }
            assert forall|i: int, j: int| 0 <= i < j < e.len() implies #[trigger] e[i] < #[trigger] e[j] by {
                assert(e[i] == d[i]);
                if j < d.len() {
                    assert(e[j] == d[j]);
                }
            }
        } else {
            assert(e =~= d);
        }
    }
}

/// Boundaries ascend strictly and stay within the payload.
proof fn lemma_boundaries_ordered(p: Seq<u8>)
    requires
        p.len() <= usize::MAX,
    ensures
        forall|i: int|
            0 <= i < field_boundaries(p).len() ==> field_start(field_boundaries(p), i)
                <= #[trigger] field_boundaries(p)[i] <= p.len(),
{
    lemma_delimiters_bounded(p, 0, p.len() as int);
    let bs = field_boundaries(p);
    let d = delimiters_in(p, 0, p.len() as int);
    assert forall|i: int| 0 <= i < bs.len() implies field_start(bs, i) <= #[trigger] bs[i]
        <= p.len() by {
        if i > 0 {
            if i < d.len() {
                assert(d[i - 1] < d[i]);
            }
        }
    }
}

/// Delimiter positions depend only on the bytes scanned.
proof fn lemma_delimiters_prefix(a: Seq<u8>, c: Seq<u8>, from: int, to: int)
    requires
        0 <= from,
        to <= a.len(),
    ensures
        delimiters_in(a + c, from, to) == delimiters_in(a, from, to),
    decreases to - from,
{
    if to > from {
        lemma_delimiters_prefix(a, c, from, to - 1);
    }
}

/// A range without delimiters yields no positions.
proof fn lemma_delimiters_none(b: Seq<u8>, from: int, to: int)
    requires
        0 <= from,
        to <= b.len(),
        forall|i: int| from <= i < to ==> b[i] != 0,
    ensures
        delimiters_in(b, from, to) == Seq::<usize>::empty(),
    decreases to - from,
{
    if to > from {
        lemma_delimiters_none(b, from, to - 1);
    }
}

proof fn lemma_join_len(f: Seq<Seq<u8>>)
    requires
        f.len() >= 2,
    ensures
        join_fields(f).len() == join_fields(f.drop_last()).len() + 1 + f.last().len(),
{
}

/// The delimiters of a joined payload are exactly its separators.
proof fn lemma_join_delimiters(f: Seq<Seq<u8>>)
    requires
        f.len() >= 1,
        join_fields(f).len() <= usize::MAX,
        fields_delimiter_free(f),
    ensures
        delimiters_in(join_fields(f), 0, join_fields(f).len() as int) == separators(f),
    decreases f.len(),
{
    let j = join_fields(f);
    if f.len() == 1 {
        assert(j == f[0]);
        assert forall|i: int| 0 <= i < j.len() implies j[i] != 0 by {
            assert(f[0][i] != 0);
        }
        lemma_delimiters_none(j, 0, j.len() as int);
    } else {
        let g = f.drop_last();
        let x = f.last();
        let jg = join_fields(g);
        lemma_join_len(f);
        assert(fields_delimiter_free(g)) by {
            assert forall|i: int, k: int| 0 <= i < g.len() && 0 <= k < g[i].len() implies #[trigger] g[i][k]
                != 0 by {
                assert(g[i] == f[i]);
            }
        }
        lemma_join_delimiters(g);
        assert(j == jg + (seq![0u8] + x));
        lemma_delimiters_prefix(jg, seq![0u8] + x, 0, jg.len() as int);
        lemma_delimiters_split(j, 0, jg.len() as int, j.len() as int);
        lemma_delimiters_split(j, jg.len() as int, jg.len() + 1int, j.len() as int);
        assert(j[jg.len() as int] == 0);
        assert(delimiters_in(j, jg.len() as int, jg.len() + 1int) == seq![jg.len() as usize]) by {
            assert(delimiters_in(j, jg.len() as int, jg.len() as int) == Seq::<usize>::empty());
        }
        assert forall|i: int| jg.len() + 1 <= i < j.len() implies j[i] != 0 by {
            assert(j[i] == x[i - jg.len() - 1]);
            assert(f[f.len() - 1][i - jg.len() - 1] != 0);
        }
        lemma_delimiters_none(j, jg.len() + 1int, j.len() as int);
    }
}

/// Cutting a joined payload at its separators gives back the fields.
#[verifier::spinoff_prover]
#[verifier::rlimit(100)]
proof fn lemma_join_cut(f: Seq<Seq<u8>>)
    requires
        f.len() >= 1,
        join_fields(f).len() <= usize::MAX,
    ensures
        ({
            let bs = separators(f) + seq![join_fields(f).len() as usize];
            &&& bs.len() == f.len()
            &&& forall|i: int|
                0 <= i < f.len() ==> join_fields(f).subrange(field_start(bs, i), bs[i] as int)
                    == #[trigger] f[i]
            &&& forall|i: int|
                0 <= i < f.len() ==> field_start(bs, i) <= #[trigger] bs[i] <= join_fields(f).len()
        }),
    decreases f.len(),
{
    let j = join_fields(f);
    let bs = separators(f) + seq![j.len() as usize];
    if f.len() == 1 {
        assert(j == f[0]);
        assert(j.subrange(0, j.len() as int) == j);
    } else {
        let g = f.drop_last();
        let jg = join_fields(g);
        let bg = separators(g) + seq![jg.len() as usize];
        lemma_join_len(f);
        lemma_join_cut(g);
        assert(bs =~= bg.push(j.len() as usize));
        assert(j =~= jg + (seq![0u8] + f.last()));
        assert forall|i: int| 0 <= i < f.len() implies j.subrange(field_start(bs, i), bs[i] as int)
            == #[trigger] f[i] by {
            if i < f.len() - 1 {
                assert(bs[i] == bg[i]);
                assert(field_start(bs, i) == field_start(bg, i));
                assert(jg.subrange(field_start(bg, i), bg[i] as int) == g[i]);
                assert(j.subrange(field_start(bs, i), bs[i] as int) =~= jg.subrange(
                    field_start(bg, i),
                    bg[i] as int,
                ));
            } else {
                assert(field_start(bs, i) == jg.len() + 1);
                assert(j.subrange(field_start(bs, i), bs[i] as int) =~= f.last());
            }
        }
    }
}

/// A payload built by joining fields decodes to those fields, provided no
/// field holds the delimiter and the last field is not empty.
pub proof fn lemma_join_split(f: Seq<Seq<u8>>)
    requires
        f.len() >= 1,
        join_fields(f).len() <= usize::MAX,
        fields_delimiter_free(f),
        f.last().len() > 0,
    ensures
        frame_fields(join_fields(f)) == f,
{
    let j = join_fields(f);
    lemma_join_delimiters(f);
    lemma_join_cut(f);
    if f.len() >= 2 {
        lemma_join_len(f);
    }
    assert(j.len() > 0 && j.last() == f.last().last()) by {
        if f.len() == 1 {
            assert(j == f[0]);
        } else {
            let g = f.drop_last();
            assert(j == join_fields(g) + seq![0u8] + f.last());
        }
    }
    assert(f.last()[f.last().len() - 1] != 0);
    assert(tail_boundary(j) == seq![j.len() as usize]);
    let bs = separators(f) + seq![j.len() as usize];
    assert(field_boundaries(j) == bs);
    let ff = frame_fields(j);
    assert(ff.len() == f.len());
    assert forall|i: int| 0 <= i < f.len() implies #[trigger] ff[i] == f[i] by {
        assert(ff[i] == j.subrange(field_start(bs, i), bs[i] as int));
    }
    assert(ff =~= f);
}

/// A payload whose last byte is not a delimiter has one more field than it
/// has delimiters; one that ends with a delimiter, or is empty, has exactly
/// as many fields as delimiters.
pub proof fn lemma_field_count(p: Seq<u8>)
    ensures
        frame_fields(p).len() == delimiters_in(p, 0, p.len() as int).len() + if has_open_tail(p) {
            1int
        } else {
            0int
        },
{
}

/// Round trip: a frame encoded from `f` declares its payload's length, that
/// length is within the limit, and the payload decodes to `f` with nothing
/// left over.
pub proof fn lemma_round_trip(f: Seq<Seq<u8>>, rest: Seq<u8>)
    requires
        f.len() >= 1,
        fields_delimiter_free(f),
        f.last().len() > 0,
        join_fields(f).len() <= MAX_FRAME_LEN,
    ensures
        frame_step(encode_frame(f) + rest) == (FrameStep::Frame { payload: join_fields(f), rest }),
        frame_fields(join_fields(f)) == f,
{
    let j = join_fields(f);
    let b = encode_frame(f) + rest;
    lemma_be_round_trip(j.len() as u32);
    assert(be_u32(b) == be_u32(be_bytes(j.len() as u32)));
    assert(b.subrange(4, 4 + j.len() as int) =~= j);
    assert(b.subrange(4 + j.len() as int, b.len() as int) =~= rest);
    lemma_join_split(f);
}

/// Joining a prefix of the fields never gives a longer payload.
proof fn lemma_join_prefix_len(f: Seq<Seq<u8>>, i: int)
    requires
        1 <= i <= f.len(),
    ensures
        join_fields(f.subrange(0, i)).len() <= join_fields(f).len(),
    decreases f.len() - i,
{
    if i < f.len() {
        lemma_join_prefix_len(f, i + 1);
        lemma_join_step(f, i);
    } else {
        assert(f.subrange(0, i) =~= f);
    }
}

/// Joining one more field appends a delimiter and that field.
proof fn lemma_join_step(f: Seq<Seq<u8>>, i: int)
    requires
        1 <= i < f.len(),
    ensures
        join_fields(f.subrange(0, i + 1)) == join_fields(f.subrange(0, i)) + seq![0u8] + f[i],
{
    assert(f.subrange(0, i + 1).drop_last() =~= f.subrange(0, i));
}

/// The protocol's frame codec.
#[derive(Debug)]
pub struct TWSCodec {}

impl TWSCodec {
    pub fn new() -> (r: TWSCodec) {
        TWSCodec {  }
    }

    /// Takes one frame from the front of `src`, if a whole one has arrived.
    ///
    /// Returns `Ok(None)` and leaves `src` alone while the length prefix or
    /// the payload is incomplete. A prefix above `MAX_FRAME_LEN` is an error,
    /// raised before any payload byte is taken. Otherwise the frame's bytes
    /// leave `src` and its fields are returned.
    pub fn decode(&mut self, src: &mut bytes::BytesMut) -> (r: Result<
        Option<DecodedMessage>,
        CodecError,
    >)
        ensures
            match frame_step(buf_view(*old(src))) {
                FrameStep::NeedMore => r == Ok::<Option<DecodedMessage>, CodecError>(None)
                    && buf_view(*final(src)) == buf_view(*old(src)),
                FrameStep::TooLarge { length } => r == Err::<Option<DecodedMessage>, CodecError>(
                    CodecError::FrameTooLarge { length },
                ) && buf_view(*final(src)) == buf_view(*old(src)),
                FrameStep::Frame { payload, rest } => match r {
                    Ok(Some(fields)) => fields_view(fields@) == frame_fields(payload) && buf_view(
                        *final(src),
                    ) == rest,
                    _ => false,
                },
            },
    {
        let avail = buf_as_slice(src).len();
        if avail < 4 {
            return Ok(None);
        }
        let head = buf_as_slice(src);
        let length = ((head[0] as u32) << 24u32) | ((head[1] as u32) << 16u32) | ((head[2] as u32)
            << 8u32) | (head[3] as u32);
        if length as usize > MAX_FRAME_LEN {
            return Err(CodecError::FrameTooLarge { length });
        }
        let n = length as usize;
        if avail - 4 < n {
            return Ok(None);
        }
        let ghost whole = buf_view(*src);
        buf_advance(src, 4);
        let payload_buf = buf_split_to(src, n);
        proof {
            assert(buf_view(*src) =~= whole.subrange(4 + n, whole.len() as int));
            assert(buf_view(payload_buf) =~= whole.subrange(4, 4 + n));
        }
        let data = buf_freeze(payload_buf);
        let payload = bytes_as_slice(&data);
        let bounds = vectorized_scan(payload);
        proof {
            lemma_scans_agree(payload@);
            lemma_boundaries_ordered(payload@);
        }
        let ghost p = payload@;
        let ghost bs = bounds@;
        let mut fields: Vec<bytes::Bytes> = Vec::new();
        let mut i: usize = 0;
        let mut start: usize = 0;
        while i < bounds.len()
            invariant
                i <= bs.len(),
                bs == bounds@,
                bs == field_boundaries(p),
                p == bytes_view(data),
                p.len() <= MAX_FRAME_LEN,
                start == field_start(bs, i as int),
                fields_view(fields@) =~= frame_fields(p).subrange(0, i as int),
                forall|k: int|
                    0 <= k < bs.len() ==> field_start(bs, k) <= #[trigger] bs[k] <= p.len(),
            decreases bs.len() - i,
        {
            let end = bounds[i];
            let f = bytes_slice(&data, start, end);
            let ghost prev = fields@;
            fields.push(f);
            proof {
                assert(fields_view(fields@) =~= fields_view(fields@.drop_last()) + seq![
                    bytes_view(f),
                ]);
                assert(fields@.drop_last() == prev);
            }
            start = end + 1;
            i = i + 1;
        }
        Ok(Some(fields))
    }

    /// Appends to `dst` the frame carrying `item`: the payload's length as
    /// four big-endian bytes, then every field but the last followed by a
    /// delimiter, then the last field.
    pub fn encode(&mut self, item: DecodedMessage, dst: &mut bytes::BytesMut)
        requires
            item@.len() >= 1,
            join_fields(fields_view(item@)).len() <= u32::MAX,
            buf_view(*old(dst)).len() + 4 + join_fields(fields_view(item@)).len() <= isize::MAX,
        ensures
            buf_view(*final(dst)) == buf_view(*old(dst)) + encode_frame(fields_view(item@)),
    {
        let ghost fv = fields_view(item@);
        let ghost total = join_fields(fv).len();
        let n = item.len();
        let mut size: usize = bytes_as_slice(&item[0]).len();
        proof {
            assert(fv.subrange(0, 1) =~= seq![fv[0]]);
            lemma_join_prefix_len(fv, 1);
        }
        let mut i: usize = 1;
        while i < n
            invariant
                1 <= i <= n,
                n == item@.len(),
                fv == fields_view(item@),
                total == join_fields(fv).len(),
                total <= u32::MAX,
                size == join_fields(fv.subrange(0, i as int)).len(),
            decreases n - i,
        {
            proof {
                lemma_join_step(fv, i as int);
                lemma_join_prefix_len(fv, i + 1);
            }
            size = size + 1 + bytes_as_slice(&item[i]).len();
            i = i + 1;
        }
        proof {
            assert(fv.subrange(0, n as int) =~= fv);
        }
        let len = size as u32;
        let mut head: Vec<u8> = Vec::new();
        head.push((len >> 24u32) as u8);
        head.push((len >> 16u32) as u8);
        head.push((len >> 8u32) as u8);
        head.push(len as u8);
        let mut sep: Vec<u8> = Vec::new();
        sep.push(0u8);
        let ghost base = buf_view(*dst) + be_bytes(len);
        proof {
            assert(head@ =~= be_bytes(len));
        }
        buf_extend(dst, head.as_slice());
        buf_extend(dst, bytes_as_slice(&item[0]));
        proof {
            assert(join_fields(fv.subrange(0, 1)) == fv[0]);
        }
        let mut k: usize = 1;
        while k < n
            invariant
                1 <= k <= n,
                n == item@.len(),
                fv == fields_view(item@),
                sep@ == seq![0u8],
                total == join_fields(fv).len(),
                base.len() + total <= isize::MAX,
                buf_view(*dst) == base + join_fields(fv.subrange(0, k as int)),
                join_fields(fv.subrange(0, k as int)).len() <= total,
            decreases n - k,
        {
            proof {
                lemma_join_step(fv, k as int);
                lemma_join_prefix_len(fv, k + 1);
            }
            assert(fv[k as int] == bytes_view(item@[k as int]));
            buf_extend(dst, sep.as_slice());
            buf_extend(dst, bytes_as_slice(&item[k]));
            proof {
                assert(buf_view(*dst) =~= base + join_fields(fv.subrange(0, k + 1)));
            }
            k = k + 1;
        }
        proof {
            assert(fv.subrange(0, n as int) =~= fv);
            assert(buf_view(*dst) =~= buf_view(*old(dst)) + encode_frame(fv));
        }
    }
}

} // verus!
