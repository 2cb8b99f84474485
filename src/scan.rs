//! Locating field boundaries in a frame payload.
//!
//! A boundary is the position of a `0x00` delimiter byte, plus one implicit
//! boundary at the end of the buffer when its last byte is not a delimiter,
//! so that an unterminated final field is still captured.
use vstd::prelude::*;

verus! {

/// Width in bytes of one lane of the lane-wise scan.
pub const LANE: usize = 16;

/// Positions `i` with `from <= i < to` whose byte is the delimiter, ascending.
pub open spec fn delimiters_in(b: Seq<u8>, from: int, to: int) -> Seq<usize>
    decreases to - from,
{
    if to <= from {
        Seq::empty()
    } else {
        delimiters_in(b, from, to - 1) + if b[to - 1] == 0 {
            seq![(to - 1) as usize]
        } else {
            Seq::empty()
        }
    }
}

/// The buffer ends with a field that no delimiter terminates.
pub open spec fn has_open_tail(b: Seq<u8>) -> bool {
    b.len() > 0 && b.last() != 0
}

/// The implicit boundary closing an unterminated last field, if any.
pub open spec fn tail_boundary(b: Seq<u8>) -> Seq<usize> {
    if has_open_tail(b) {
        seq![b.len() as usize]
    } else {
        Seq::empty()
    }
}

/// Field boundaries of `b` as a byte-by-byte scan finds them.
pub open spec fn field_boundaries(b: Seq<u8>) -> Seq<usize> {
    delimiters_in(b, 0, b.len() as int) + tail_boundary(b)
}

/// The single-bit mask selecting bit `k`.
pub open spec fn bit(k: int) -> u32 {
    1u32 << (k as u32)
}

/// Match mask of the lane starting at `base`, over its first `j` bytes:
/// bit `k` is set when byte `base + k` exists and is a delimiter.
pub open spec fn lane_mask(b: Seq<u8>, base: int, j: nat) -> u32
    decreases j,
{
    if j == 0 {
        0u32
    } else {
        let m = lane_mask(b, base, (j - 1) as nat);
        if base + j - 1 < b.len() && b[base + j - 1] == 0 {
            m | bit(j - 1)
        } else {
            m
        }
    }
}

/// Absolute positions `base + k` for the set bits `k < n` of `mask`, ascending.
pub open spec fn mask_positions(mask: u32, base: int, n: nat) -> Seq<usize>
    decreases n,
{
    if n == 0 {
        Seq::empty()
    } else {
        mask_positions(mask, base, (n - 1) as nat) + if mask & bit(n - 1) != 0 {
            seq![(base + n - 1) as usize]
        } else {
            Seq::empty()
        }
    }
}

/// Positions found in the first `n` lanes, each lane compressed from its mask.
pub open spec fn lane_positions(b: Seq<u8>, n: nat) -> Seq<usize>
    decreases n,
{
    if n == 0 {
        Seq::empty()
    } else {
        let base = LANE * (n - 1);
        lane_positions(b, (n - 1) as nat) + mask_positions(
            lane_mask(b, base, LANE as nat),
            base,
            LANE as nat,
        )
    }
}

/// Number of lanes needed to cover `len` bytes.
pub open spec fn lane_count(len: nat) -> nat {
    ((len + LANE - 1) / (LANE as int)) as nat
}

/// Field boundaries of `b` as the lane-wise scan finds them.
pub open spec fn vectorized_boundaries(b: Seq<u8>) -> Seq<usize> {
    lane_positions(b, lane_count(b.len())) + tail_boundary(b)
}

proof fn lemma_bit_or(m: u32, j: u32, k: u32)
    requires
        j < 32,
        k < 32,
    ensures
        ((m | (1u32 << j)) & (1u32 << k) != 0) == ((m & (1u32 << k) != 0) || j == k),
{
    assert(((m | (1u32 << j)) & (1u32 << k) != 0) == ((m & (1u32 << k) != 0) || j == k))
        by (bit_vector)
        requires
            j < 32,
            k < 32,
    ;
}

proof fn lemma_bit_zero(k: u32)
    requires
        k < 32,
    ensures
        0u32 & (1u32 << k) == 0,
{
    assert(0u32 & (1u32 << k) == 0) by (bit_vector);
}

/// Bit `k` of a lane's mask says whether byte `base + k` is a delimiter.
proof fn lemma_lane_mask_bit(b: Seq<u8>, base: int, j: nat, k: int)
    requires
        j <= 32,
        0 <= k < 32,
        0 <= base,
    ensures
        (lane_mask(b, base, j) & bit(k) != 0) == (k < j && base + k < b.len() && b[base + k]
            == 0),
    decreases j,
{
    if j == 0 {
        lemma_bit_zero(k as u32);
    } else {
        let m = lane_mask(b, base, (j - 1) as nat);
        lemma_lane_mask_bit(b, base, (j - 1) as nat, k);
        if base + j - 1 < b.len() && b[base + j - 1] == 0 {
            lemma_bit_or(m, (j - 1) as u32, k as u32);
        }
    }
}

/// Splitting a range splits its delimiter positions.
pub proof fn lemma_delimiters_split(b: Seq<u8>, from: int, mid: int, to: int)
    requires
        from <= mid <= to,
    ensures
        delimiters_in(b, from, to) == delimiters_in(b, from, mid) + delimiters_in(b, mid, to),
    decreases to - mid,
{
    if to > mid {
        lemma_delimiters_split(b, from, mid, to - 1);
        assert(delimiters_in(b, from, to) == delimiters_in(b, from, mid) + delimiters_in(
            b,
            mid,
            to,
        ));
    } else {
        assert(delimiters_in(b, mid, to) == Seq::<usize>::empty());
        assert(delimiters_in(b, from, to) == delimiters_in(b, from, mid) + delimiters_in(
            b,
            mid,
            to,
        ));
    }
}

/// Compressing a lane's mask lists the delimiters of that lane.
proof fn lemma_mask_positions(b: Seq<u8>, base: int, n: nat)
    requires
        0 <= base,
        n <= LANE,
    ensures
        mask_positions(lane_mask(b, base, LANE as nat), base, n) == delimiters_in(
            b,
            base,
            if base + n <= b.len() {
                base + n
            } else if base <= b.len() {
                b.len() as int
            } else {
                base
            },
        ),
    decreases n,
{
    let m = lane_mask(b, base, LANE as nat);
    if n > 0 {
        lemma_mask_positions(b, base, (n - 1) as nat);
        lemma_lane_mask_bit(b, base, LANE as nat, n - 1);
    }
}

/// The lanes scanned so far list exactly the delimiters they cover.
proof fn lemma_lane_positions(b: Seq<u8>, n: nat)
    ensures
        lane_positions(b, n) == delimiters_in(
            b,
            0,
            if LANE * n <= b.len() {
                LANE * n
            } else {
                b.len() as int
            },
        ),
    decreases n,
{
    if n > 0 {
        let base = LANE * (n - 1);
        lemma_lane_positions(b, (n - 1) as nat);
        lemma_mask_positions(b, base, LANE as nat);
        if base <= b.len() {
            let end = if base + LANE <= b.len() {
                base + LANE
            } else {
                b.len() as int
            };
            lemma_delimiters_split(b, 0, base, end);
        } else {
            assert(delimiters_in(b, base, base) == Seq::<usize>::empty());
            assert(lane_positions(b, n) == lane_positions(b, (n - 1) as nat));
        }
    }
}

/// The lane-wise scan and the byte-by-byte scan agree on every buffer.
pub proof fn lemma_scans_agree(b: Seq<u8>)
    ensures
        vectorized_boundaries(b) == field_boundaries(b),
{
    let n = lane_count(b.len());
    lemma_lane_positions(b, n);
    assert(LANE * n >= b.len()) by (nonlinear_arith)
        requires
            n == (b.len() + LANE - 1) / (LANE as int),
    ;
}

/// Rounds `n` up to the next multiple of `N`.
pub fn round_up<const N: usize>(n: usize) -> (r: usize)
    requires
        N > 0,
        n + N - 1 <= usize::MAX,
    ensures
        r == (n + N - 1) / (N as int) * N,
        n <= r < n + N,
{
    let q = (n + (N - 1)) / N;
    assert(q * N <= n + N - 1) by (nonlinear_arith)
        requires
            N > 0,
            q == (n + N - 1) / (N as int),
            n >= 0,
    ;
    assert(q * N > n - 1) by (nonlinear_arith)
        requires
            N > 0,
            q == (n + N - 1) / (N as int),
            n >= 0,
    ;
    let r = q * N;
    r
}

/// Boundary positions of `b`, found one byte at a time.
pub fn scalar_scan(b: &[u8]) -> (r: Vec<usize>)
    ensures
        r@ == field_boundaries(b@),
{
    let mut r: Vec<usize> = Vec::new();
    let len = b.len();
    let mut i: usize = 0;
    while i < len
        invariant
            i <= len,
            len == b@.len(),
            r@ == delimiters_in(b@, 0, i as int),
        decreases len - i,
    {
        if b[i] == 0 {
            r.push(i);
        }
        i = i + 1;
    }
    if len > 0 && b[len - 1] != 0 {
        r.push(len);
    }
    r
}

/// Boundary positions of `b`, found lane by lane: each lane's bytes are
/// compared with the delimiter into a bit mask, the mask is compressed into
/// in-lane offsets, and the lane's base is added to each.
pub fn vectorized_scan(b: &[u8]) -> (r: Vec<usize>)
    ensures
        r@ == vectorized_boundaries(b@),
{
    let mut r: Vec<usize> = Vec::new();
    let len = b.len();
    let lanes = len / LANE + if len % LANE != 0 {
        1usize
    } else {
        0usize
    };
    assert(lanes == lane_count(len as nat)) by (nonlinear_arith)
        requires
            lanes == len / 16 + if len % 16 != 0 {
                1int
            } else {
                0int
            },
    ;
    let mut l: usize = 0;
    while l < lanes
        invariant
            l <= lanes,
            len == b@.len(),
            lanes == lane_count(len as nat),
            r@ == lane_positions(b@, l as nat),
        decreases lanes - l,
    {
        assert(LANE * l < len) by (nonlinear_arith)
            requires
                l < lanes,
                lanes == (len + 15) / 16,
        ;
        let base = LANE * l;
        let mut mask: u32 = 0;
        let mut j: u32 = 0;
        while j < LANE as u32
            invariant
                j <= LANE,
                base < len,
                len == b@.len(),
                mask == lane_mask(b@, base as int, j as nat),
            decreases LANE - j,
        {
            if (j as usize) < len - base && b[base + j as usize] == 0 {
                mask = mask | (1u32 << j);
            }
            j = j + 1;
        }
        let ghost before = r@;
        let mut k: u32 = 0;
        while k < LANE as u32
            invariant
                k <= LANE,
                base < len,
                len == b@.len(),
                r@ == before + mask_positions(mask, base as int, k as nat),
                mask == lane_mask(b@, base as int, LANE as nat),
            decreases LANE - k,
        {
            if mask & (1u32 << k) != 0 {
                proof {
                    lemma_lane_mask_bit(b@, base as int, LANE as nat, k as int);
                }
                r.push(base + k as usize);
            }
            k = k + 1;
        }
        assert(r@ == lane_positions(b@, (l + 1) as nat));
        l = l + 1;
    }
    if len > 0 && b[len - 1] != 0 {
        r.push(len);
    }
    r
}

} // verus!
