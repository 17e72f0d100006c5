use vstd::prelude::*;

verus! {

/// Number of pieces that `split` cuts `len` items into when no piece may
/// hold more than `n` items: the ceiling of `len / n`.
pub open spec fn split_piece_count(len: int, n: int) -> int {
    if len % n != 0 {
        len / n + 1
    } else {
        len / n
    }
}

/// Length of the shorter pieces of `split`.
pub open spec fn split_short_len(len: int, n: int) -> int {
    len / split_piece_count(len, n)
}

/// Number of leading pieces of `split` that hold one item more than the others.
pub open spec fn split_long_count(len: int, n: int) -> int {
    len % split_piece_count(len, n)
}

/// Index at which piece `i` of `split` starts.
pub open spec fn split_piece_start(len: int, n: int, i: int) -> int {
    i * split_short_len(len, n) + if i < split_long_count(len, n) {
        i
    } else {
        split_long_count(len, n)
    }
}

/// Length of piece `i` of `split`.
pub open spec fn split_piece_len(len: int, n: int, i: int) -> int {
    split_short_len(len, n) + if i < split_long_count(len, n) {
        1int
    } else {
        0int
    }
}

/// The pieces that `split` yields, one after another: piece `i` is the
/// run of `split_piece_len` items at `split_piece_start`.
pub open spec fn split_pieces<T>(s: Seq<T>, n: int) -> Seq<Seq<T>> {
    Seq::new(
        split_piece_count(s.len() as int, n) as nat,
        |i: int|
            s.subrange(
                split_piece_start(s.len() as int, n, i),
                split_piece_start(s.len() as int, n, i + 1),
            ),
    )
}

/// Iterator state of `split`: what is left of the slice, the length of the
/// short pieces, and how many long pieces are still to come.
struct Split<'a, T> {
    slice: &'a [T],
    len: usize,
    rem: usize,
}

impl<'a, T> Split<'a, T> {
    /// The items not yet handed out.
    spec fn remaining(&self) -> Seq<T> {
        self.slice@
    }

    /// Length of the short pieces.
    spec fn short_len(&self) -> nat {
        self.len as nat
    }

    /// Number of long pieces still to come.
    spec fn long_left(&self) -> nat {
        self.rem as nat
    }

    /// The state can hand out its items as `long_left` pieces of
    /// `short_len + 1` items followed by pieces of `short_len` items.
    spec fn wf(&self) -> bool {
        &&& self.len > 0
        &&& self.rem * (self.len + 1) <= self.slice@.len()
        &&& (self.slice@.len() - self.rem * (self.len + 1)) % (self.len as int) == 0
    }

    /// Length of the next piece.
    spec fn next_len(&self) -> int {
        self.short_len() + if self.long_left() > 0 {
            1int
        } else {
            0int
        }
    }

    /// Hands out the next piece: `short_len + 1` items while long pieces
    /// are left, `short_len` items after that, and `None` once the slice is
    /// used up.
    fn next(&mut self) -> (piece: Option<&'a [T]>)
        requires
            old(self).wf(),
        ensures
            final(self).wf(),
            final(self).short_len() == old(self).short_len(),
            old(self).remaining().len() == 0 ==> piece is None && final(self).remaining()
                == old(self).remaining() && final(self).long_left() == old(self).long_left(),
            old(self).remaining().len() > 0 ==> {
                &&& old(self).next_len() <= old(self).remaining().len()
                &&& piece matches Some(p) && p@ == old(self).remaining().take(old(self).next_len())
                &&& final(self).remaining() == old(self).remaining().skip(old(self).next_len())
                &&& final(self).long_left() == if old(self).long_left() > 0 {
                    (old(self).long_left() - 1) as nat
                } else {
                    0
                }
            },
    {
        if self.slice.len() == 0 {
            return None;
        }
        let ghost l0 = self.slice@.len() as int;
        let ghost r0 = self.rem as int;
        let ghost b = self.len as int;
        let mut len = self.len;
        if self.rem > 0 {
            assert(b + 1 <= l0) by (nonlinear_arith)
                requires
                    r0 > 0,
                    b >= 0,
                    r0 * (b + 1) <= l0,
            ;
            assert((r0 - 1) * (b + 1) <= l0 - (b + 1)) by (nonlinear_arith)
                requires
                    r0 * (b + 1) <= l0,
            ;
            assert((r0 - 1) * (b + 1) == r0 * (b + 1) - (b + 1)) by (nonlinear_arith);
            len = len + 1;
            self.rem = self.rem - 1;
        } else {
            assert(r0 * (b + 1) == 0) by (nonlinear_arith)
                requires
                    r0 == 0,
            ;
            assert(b <= l0) by (nonlinear_arith)
                requires
                    l0 % b == 0,
                    l0 > 0,
                    b > 0,
            ;
            assert((l0 - b) % b == 0) by (nonlinear_arith)
                requires
                    l0 % b == 0,
                    l0 >= b,
                    b > 0,
            ;
        }
        let (chunk, rest) = self.slice.split_at(len);
        self.slice = rest;
        Some(chunk)
    }
}

/// Arithmetic facts about the shape that `split` gives `len` items with a
/// bound of `n` items per piece.
pub proof fn lemma_split_shape(len: int, n: int)
    requires
        len > 0,
        n > 0,
    ensures
        split_piece_count(len, n) > 0,
        split_piece_count(len, n) <= len,
        split_short_len(len, n) > 0,
        0 <= split_long_count(len, n) < split_piece_count(len, n),
        split_short_len(len, n) * split_piece_count(len, n) + split_long_count(len, n) == len,
        split_long_count(len, n) > 0 ==> split_short_len(len, n) + 1 <= n,
        split_short_len(len, n) <= n,
{
    let c = split_piece_count(len, n);
    let q = len / n;
    let r = len % n;
    assert(len == q * n + r && 0 <= r < n) by (nonlinear_arith)
        requires
            n > 0,
            q == len / n,
            r == len % n,
    ;
    assert(c > 0 && c <= len) by (nonlinear_arith)
        requires
            len > 0,
            n > 0,
            len == q * n + r,
            0 <= r < n,
            q >= 0,
            c == (if r != 0 { q + 1 } else { q }),
    ;
    assert(c * n >= len) by (nonlinear_arith)
        requires
            n > 0,
            len == q * n + r,
            0 <= r < n,
            c == (if r != 0 { q + 1 } else { q }),
    ;
    let b = len / c;
    let e = len % c;
    assert(len == b * c + e && 0 <= e < c) by (nonlinear_arith)
        requires
            c > 0,
            b == len / c,
            e == len % c,
    ;
    assert(b > 0) by (nonlinear_arith)
        requires
            c > 0,
            c <= len,
            b == len / c,
    ;
    assert(b <= n) by (nonlinear_arith)
        requires
            c > 0,
            n > 0,
            c * n >= len,
            len == b * c + e,
            e >= 0,
    ;
    if e > 0 {
        assert(b + 1 <= n) by (nonlinear_arith)
            requires
                c > 0,
                n > 0,
                c * n >= len,
                len == b * c + e,
                e > 0,
        ;
    }
}

/// Where piece `i + 1` starts, from where piece `i` starts.
pub proof fn lemma_split_piece_step(len: int, n: int, i: int)
    requires
        len > 0,
        n > 0,
        0 <= i,
    ensures
        split_piece_start(len, n, i + 1) == split_piece_start(len, n, i) + split_piece_len(
            len,
            n,
            i,
        ),
{
    let b = split_short_len(len, n);
    assert((i + 1) * b == i * b + b) by (nonlinear_arith);
}

/// Where the last piece ends: at the end of the items.
pub proof fn lemma_split_pieces_end(len: int, n: int)
    requires
        len > 0,
        n > 0,
    ensures
        split_piece_start(len, n, 0) == 0,
        split_piece_start(len, n, split_piece_count(len, n)) == len,
{
    lemma_split_shape(len, n);
    let c = split_piece_count(len, n);
    let b = split_short_len(len, n);
    assert(c * b == b * c) by (nonlinear_arith);
}

/// Cuts `slice` into consecutive pieces of at most `n` items, as few as
/// that allows, whose lengths differ by at most one, the longer ones first.
pub fn split<'a, T>(slice: &'a [T], n: usize) -> (pieces: Vec<&'a [T]>)
    requires
        n > 0,
        slice@.len() > 0,
    ensures
        pieces@.len() == split_piece_count(slice@.len() as int, n as int),
        forall|i: int|
            0 <= i < pieces@.len() ==> #[trigger] pieces@[i]@ == split_pieces(slice@, n as int)[i],
{
    let total = slice.len();
    let q = total / n;
    let r = total % n;
    assert(r != 0 ==> q < usize::MAX) by (nonlinear_arith)
        requires
            n > 0,
            q == total / n,
            r == total % n,
            total <= usize::MAX,
    {
        if r != 0 {
            assert(n >= 2);
            assert(q * n <= total);
            assert(q * 2 <= q * n);
        }
    }
    let count = if r != 0 {
        q + 1
    } else {
        q
    };
    proof {
        lemma_split_shape(total as int, n as int);
    }
    let len = total / count;
    let rem = total % count;
    let ghost li = total as int;
    let ghost ni = n as int;
    let ghost c = count as int;
    let ghost b = len as int;
    let ghost e = rem as int;
    assert((li - e * (b + 1)) % b == 0) by (nonlinear_arith)
        requires
            li == b * c + e,
            b > 0,
            e < c,
            e >= 0,
    {
        assert(li - e * (b + 1) == b * (c - e));
    }
    assert(e * (b + 1) <= li) by (nonlinear_arith)
        requires
            li == b * c + e,
            b > 0,
            e < c,
            e >= 0,
    ;
    let mut it = Split { slice, len, rem };
    let mut pieces: Vec<&'a [T]> = Vec::new();
    proof {
        lemma_split_pieces_end(li, ni);
    }
    loop
        invariant
            it.wf(),
            it.short_len() == b,
            0 <= pieces@.len() <= c,
            it.long_left() == if pieces@.len() < e {
                e - pieces@.len()
            } else {
                0
            },
            0 <= split_piece_start(li, ni, pieces@.len() as int) <= li,
            it.remaining() == slice@.subrange(
                split_piece_start(li, ni, pieces@.len() as int),
                li,
            ),
            split_piece_start(li, ni, c) == li,
            b == split_short_len(li, ni),
            e == split_long_count(li, ni),
            c == split_piece_count(li, ni),
            li == slice@.len(),
            li > 0,
            ni > 0,
            forall|i: int|
                0 <= i < pieces@.len() ==> #[trigger] pieces@[i]@ == split_pieces(slice@, ni)[i],
        ensures
            pieces@.len() == c,
            forall|i: int|
                0 <= i < pieces@.len() ==> #[trigger] pieces@[i]@ == split_pieces(slice@, ni)[i],
        decreases it.remaining().len(),
    {
        let k = pieces.len();
        proof {
            lemma_split_piece_step(li, ni, k as int);
            if (k as int) < c {
                assert(split_piece_start(li, ni, k as int) < li) by {
                    lemma_split_start_before_end(li, ni, k as int);
                }
            }
        }
        match it.next() {
            None => {
                proof {
                    if (k as int) < c {
                        assert(false);
                    }
                }
                break;
            },
            Some(p) => {
                proof {
                    if (k as int) >= c {
                        assert(false);
                    }
                    lemma_split_piece_step(li, ni, k as int + 1);
                    lemma_split_start_before_end(li, ni, k as int + 1);
                }
                pieces.push(p);
            },
        }
    }
    pieces
}

/// Pieces before the last start before the end of the items, and no piece
/// ends past it.
proof fn lemma_split_start_before_end(len: int, n: int, i: int)
    requires
        len > 0,
        n > 0,
        0 <= i <= split_piece_count(len, n),
    ensures
        i < split_piece_count(len, n) ==> split_piece_start(len, n, i) < len,
        split_piece_start(len, n, i) <= len,
        split_piece_start(len, n, i) >= 0,
{
    lemma_split_shape(len, n);
    lemma_split_pieces_end(len, n);
    let c = split_piece_count(len, n);
    let b = split_short_len(len, n);
    let e = split_long_count(len, n);
    assert(i * b <= c * b) by (nonlinear_arith)
        requires
            0 <= i <= c,
            b > 0,
    ;
    assert(i * b >= 0) by (nonlinear_arith)
        requires
            0 <= i,
            b > 0,
    ;
    if i < c {
        assert((i + 1) * b <= c * b) by (nonlinear_arith)
            requires
                0 <= i < c,
                b > 0,
        ;
        assert((i + 1) * b == i * b + b) by (nonlinear_arith);
        assert(c * b == b * c) by (nonlinear_arith);
    }
}

/// The first `k` pieces of `split`, put back together, are the items before
/// the start of piece `k`.
proof fn lemma_split_prefix_concat<T>(s: Seq<T>, n: int, k: int)
    requires
        s.len() > 0,
        n > 0,
        0 <= k <= split_piece_count(s.len() as int, n),
    ensures
        split_pieces(s, n).take(k).flatten() == s.subrange(0, split_piece_start(s.len() as int, n, k)),
    decreases k,
{
    let len = s.len() as int;
    let pieces = split_pieces(s, n);
    lemma_split_pieces_end(len, n);
    if k == 0 {
        assert(pieces.take(0) =~= Seq::<Seq<T>>::empty());
        assert(s.subrange(0, 0) =~= Seq::<T>::empty());
    } else {
        lemma_split_prefix_concat(s, n, k - 1);
        lemma_split_start_before_end(len, n, k - 1);
        lemma_split_start_before_end(len, n, k);
        lemma_split_piece_step(len, n, k - 1);
        assert(pieces.take(k) =~= pieces.take(k - 1).push(pieces[k - 1]));
        pieces.take(k - 1).lemma_flatten_push(pieces[k - 1]);
        assert(s.subrange(0, split_piece_start(len, n, k)) =~= s.subrange(
            0,
            split_piece_start(len, n, k - 1),
        ) + s.subrange(split_piece_start(len, n, k - 1), split_piece_start(len, n, k)));
    }
}

/// What `split` promises of its pieces: put back together in order they are
/// the input; each holds at least one and at most `n` items; a piece is never
/// shorter than a later one, and never more than one item longer than any
/// other; and no fewer pieces of at most `n` items could hold all the items.
pub proof fn lemma_split_laws<T>(s: Seq<T>, n: int)
    requires
        s.len() > 0,
        n > 0,
    ensures
        split_pieces(s, n).flatten() == s,
        forall|i: int|
            0 <= i < split_pieces(s, n).len() ==> 1 <= #[trigger] split_pieces(s, n)[i].len() <= n,
        forall|i: int, j: int|
            0 <= i <= j < split_pieces(s, n).len() ==> split_pieces(s, n)[j].len()
                <= #[trigger] split_pieces(s, n)[i].len() <= #[trigger] split_pieces(s, n)[j].len()
                + 1,
        (split_pieces(s, n).len() - 1) * n < s.len(),
{
    let len = s.len() as int;
    let c = split_piece_count(len, n);
    lemma_split_shape(len, n);
    lemma_split_pieces_end(len, n);
    lemma_split_prefix_concat(s, n, c);
    assert(split_pieces(s, n).take(c) =~= split_pieces(s, n));
    assert(s.subrange(0, len) =~= s);
    assert forall|i: int| 0 <= i < c implies 1 <= #[trigger] split_pieces(s, n)[i].len() <= n by {
        lemma_split_piece_step(len, n, i);
        lemma_split_start_before_end(len, n, i);
        lemma_split_start_before_end(len, n, i + 1);
    }
    assert forall|i: int, j: int| 0 <= i <= j < c implies split_pieces(s, n)[j].len()
        <= #[trigger] split_pieces(s, n)[i].len() <= #[trigger] split_pieces(s, n)[j].len() + 1 by {
        lemma_split_piece_step(len, n, i);
        lemma_split_start_before_end(len, n, i);
        lemma_split_start_before_end(len, n, i + 1);
        lemma_split_piece_step(len, n, j);
        lemma_split_start_before_end(len, n, j);
        lemma_split_start_before_end(len, n, j + 1);
    }
    let q = len / n;
    let r = len % n;
    assert((c - 1) * n < len) by (nonlinear_arith)
        requires
            n > 0,
            q == len / n,
            r == len % n,
            c == (if r != 0 { q + 1 } else { q }),
            len > 0,
    {
        assert(len == q * n + r);
        if r == 0 {
            assert(q > 0);
            assert((q - 1) * n == q * n - n);
        }
    }
}

} // verus!
