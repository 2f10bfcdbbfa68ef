//! In-place matrix transposition: pairwise swaps for a square matrix, and
//! permutation-cycle following for a rectangular one. The cycle-leader pass
//! moves every element exactly once, with a visited bitmap as the only
//! memory beyond the buffer itself.

use vstd::prelude::*;

use vstd::arithmetic::div_mod::{
    lemma_div_is_ordered, lemma_div_pos_is_pos, lemma_fundamental_div_mod,
    lemma_fundamental_div_mod_converse, lemma_mod_bound,
};

use super::super::order::lemma_size_product2;
use super::super::{Tnsr, TnsrValType};

verus! {

/// Transpose a square matrix in place by swapping each pair `(i, j)`,
/// `(j, i)` above the diagonal once.
pub fn transpose_square<T: TnsrValType>(a: &mut Tnsr<T>)
    requires
        old(a).is_matrix(),
        old(a).spec_nr_rows() == old(a).spec_nr_cols(),
    ensures
        final(a).is_matrix(),
        final(a).spec_sizes() == old(a).spec_sizes(),
        final(a).spec_view() == old(a).spec_view(),
        final(a).spec_order() == old(a).spec_order(),
        forall|i: int, j: int|
            final(a).mat_index_ok(i, j) ==> final(a).mat_at(i, j) == old(a).mat_at(j, i),
{
    let n: usize = a.nr_rows();
    let mut i: usize = 0;
    while i < n
        invariant
            0 <= i <= n,
            a.is_matrix(),
            a.spec_nr_rows() == n,
            a.spec_nr_cols() == n,
            a.spec_sizes() == old(a).spec_sizes(),
            a.spec_view() == old(a).spec_view(),
            a.spec_order() == old(a).spec_order(),
            forall|r: int, c: int|
                a.mat_index_ok(r, c) && (r < i || c < i) ==> a.mat_at(r, c) == old(a).mat_at(c, r),
            forall|r: int, c: int|
                a.mat_index_ok(r, c) && r >= i && c >= i ==> a.mat_at(r, c) == old(a).mat_at(r, c),
        decreases n - i,
    {
        let mut j: usize = i + 1;
        while j < n
            invariant
                0 <= i < n,
                i + 1 <= j <= n,
                a.is_matrix(),
                a.spec_nr_rows() == n,
                a.spec_nr_cols() == n,
                a.spec_sizes() == old(a).spec_sizes(),
                a.spec_view() == old(a).spec_view(),
                a.spec_order() == old(a).spec_order(),
                forall|r: int, c: int|
                    a.mat_index_ok(r, c) && (r < i || c < i) ==> a.mat_at(r, c) == old(a).mat_at(
                        c,
                        r,
                    ),
                forall|c: int| i < c < j ==> a.mat_at(i as int, c) == old(a).mat_at(c, i as int),
                forall|r: int| i < r < j ==> a.mat_at(r, i as int) == old(a).mat_at(i as int, r),
                forall|r: int, c: int|
                    a.mat_index_ok(r, c) && r >= i && c >= i && !(r == i && i < c < j) && !(c == i
                        && i < r < j) ==> a.mat_at(r, c) == old(a).mat_at(r, c),
            decreases n - j,
        {
            let tmp: T = a.get(j, i);
            let x: T = a.get(i, j);
            a.set(j, i, x);
            a.set(i, j, tmp);
            j = j + 1;
        }
        i = i + 1;
    }
}

/// Where the element at flat position `q` of a row-major `r` by `c` grid
/// lands when the grid is transposed into a `c` by `r` one.
pub open spec fn tr_dst(q: int, r: int, c: int) -> int {
    (q % c) * r + q / c
}

/// The destination position stays inside the grid.
proof fn lemma_tr_dst_bound(q: int, r: int, c: int)
    requires
        1 <= r,
        1 <= c,
        0 <= q < r * c,
    ensures
        0 <= tr_dst(q, r, c) < r * c,
{
    let a = q / c;
    let b = q % c;
    lemma_mod_bound(q, c);
    lemma_div_pos_is_pos(q, c);
    lemma_div_is_ordered(q, r * c - 1, c);
    assert((r - 1) * c + (c - 1) == r * c - 1) by (nonlinear_arith);
    lemma_fundamental_div_mod_converse(r * c - 1, c, r - 1, c - 1);
    assert(0 <= b * r + a < r * c) by (nonlinear_arith)
        requires
            0 <= b <= c - 1,
            0 <= a <= r - 1,
            1 <= r,
            1 <= c,
    ;
}

/// Following the destination map forward and then backward returns to the
/// starting position: the map is a permutation of the grid.
proof fn lemma_tr_dst_inverse(q: int, r: int, c: int)
    requires
        1 <= r,
        1 <= c,
        0 <= q < r * c,
    ensures
        tr_dst(tr_dst(q, r, c), c, r) == q,
{
    let a = q / c;
    let b = q % c;
    lemma_mod_bound(q, c);
    lemma_div_pos_is_pos(q, c);
    lemma_div_is_ordered(q, r * c - 1, c);
    assert((r - 1) * c + (c - 1) == r * c - 1) by (nonlinear_arith);
    lemma_fundamental_div_mod_converse(r * c - 1, c, r - 1, c - 1);
    lemma_fundamental_div_mod(q, c);
    assert(tr_dst(q, r, c) == b * r + a);
    lemma_fundamental_div_mod_converse(b * r + a, r, b, a);
    assert(tr_dst(b * r + a, c, r) == a * c + b);
    assert(q == c * a + b);
    assert(c * a == a * c) by (nonlinear_arith);
}

/// How many positions the cycle pass has not visited yet.
spec fn count_unvisited(s: Seq<bool>) -> nat
    decreases s.len(),
{
    if s.len() == 0 {
        0
    } else {
        count_unvisited(s.drop_last()) + if s.last() {
            0nat
        } else {
            1nat
        }
    }
}

/// Marking an unvisited position visited lowers the count by one.
proof fn lemma_count_update(s: Seq<bool>, k: int)
    requires
        0 <= k < s.len(),
        !s[k],
    ensures
        count_unvisited(s.update(k, true)) + 1 == count_unvisited(s),
    decreases s.len(),
{
    if k == s.len() - 1 {
        assert(s.update(k, true).drop_last() =~= s.drop_last());
        assert(s.update(k, true).last());
    } else {
        lemma_count_update(s.drop_last(), k);
        assert(s.update(k, true).drop_last() =~= s.drop_last().update(k, true));
        assert(s.update(k, true).last() == s.last());
    }
}

/// The value invariant of the cycle pass over an `r` by `c` grid being
/// rearranged into a `c` by `r` one, buffer `buf`, original contents `v0`:
/// a position whose source is already visited holds its final value, and
/// every other position still holds its original value.
spec fn cycle_state_ok<T>(buf: Seq<T>, v0: Seq<T>, visited: Seq<bool>, r: int, c: int) -> bool {
    &&& buf.len() == r * c
    &&& v0.len() == r * c
    &&& visited.len() == r * c
    &&& forall|w: int|
        0 <= w < r * c && visited[#[trigger] tr_dst(w, c, r)] ==> buf[w] == v0[tr_dst(w, c, r)]
    &&& forall|w: int| 0 <= w < r * c && !visited[#[trigger] tr_dst(w, c, r)] ==> buf[w] == v0[w]
}

/// Between cycles the visited set is closed under the destination map.
spec fn visited_closed(visited: Seq<bool>, r: int, c: int) -> bool {
    forall|p: int| 0 <= p < r * c && visited[p] ==> visited[#[trigger] tr_dst(p, r, c)]
}

/// Within a cycle, the destination of every visited position is visited or
/// is the position the cycle is currently standing on.
spec fn visited_chained(visited: Seq<bool>, r: int, c: int, curr: int) -> bool {
    forall|p: int|
        0 <= p < r * c && visited[p] ==> visited[#[trigger] tr_dst(p, r, c)] || tr_dst(p, r, c)
            == curr
}

/// Transpose a rectangular matrix in place: swap the stored extents, then
/// rearrange the buffer by following the cycles of the transposition
/// permutation, carrying one element at a time and marking each position in
/// a visited bitmap.
pub fn transpose_in_place<T: TnsrValType>(t: &mut Tnsr<T>)
    requires
        old(t).is_matrix(),
    ensures
        final(t).is_matrix(),
        final(t).spec_view() == old(t).spec_view(),
        final(t).spec_order() == old(t).spec_order(),
        final(t).spec_sizes() =~= seq![old(t).spec_sizes()[1], old(t).spec_sizes()[0]],
        final(t).spec_nr_rows() == old(t).spec_nr_cols(),
        final(t).spec_nr_cols() == old(t).spec_nr_rows(),
        forall|i: int, j: int|
            final(t).mat_index_ok(i, j) ==> final(t).mat_at(i, j) == old(t).mat_at(j, i),
{
    let nr_rows: usize = t.size_at(0);
    let nr_cols: usize = t.size_at(1);
    let ghost r = nr_rows as int;
    let ghost c = nr_cols as int;
    proof {
        lemma_size_product2(old(t).spec_sizes());
    }
    t.swap_sizes2();
    let ghost v0 = t.spec_buf();
    let n: usize = t.buf_len();
    proof {
        lemma_size_product2(t.spec_sizes());
        assert(c * r == r * c) by (nonlinear_arith);
        assert(n == r * c);
    }
    let mut visited: Vec<bool> = Vec::new();
    while visited.len() < n
        invariant
            visited@.len() <= n,
            forall|k: int| 0 <= k < visited@.len() ==> !visited@[k],
        decreases n - visited@.len(),
    {
        visited.push(false);
    }
    proof {
        assert forall|w: int| 0 <= w < r * c implies !visited@[#[trigger] tr_dst(w, c, r)] by {
            assert(c * r == r * c) by (nonlinear_arith);
            lemma_tr_dst_bound(w, c, r);
        }
    }

    let mut row: usize = 0;
    while row < nr_cols
        invariant
            0 <= row <= c,
            t.is_matrix(),
            t.spec_sizes() =~= seq![nr_cols, nr_rows],
            t.spec_view() == old(t).spec_view(),
            t.spec_order() == old(t).spec_order(),
            n == r * c,
            r == nr_rows,
            c == nr_cols,
            v0 == old(t).spec_buf(),
            cycle_state_ok(t.spec_buf(), v0, visited@, r, c),
            visited_closed(visited@, r, c),
            forall|p: int| 0 <= p < row * r ==> visited@[p],
        decreases c - row,
    {
        let mut col: usize = 0;
        while col < nr_rows
            invariant
                0 <= row < c,
                0 <= col <= r,
                t.is_matrix(),
                t.spec_sizes() =~= seq![nr_cols, nr_rows],
                t.spec_view() == old(t).spec_view(),
                t.spec_order() == old(t).spec_order(),
                n == r * c,
                r == nr_rows,
                c == nr_cols,
                v0 == old(t).spec_buf(),
                cycle_state_ok(t.spec_buf(), v0, visited@, r, c),
                visited_closed(visited@, r, c),
                forall|p: int| 0 <= p < row * r + col ==> visited@[p],
            decreases r - col,
        {
            proof {
                assert(0 <= row * r + col < r * c) by (nonlinear_arith)
                    requires
                        0 <= row <= c - 1,
                        0 <= col <= r - 1,
                        1 <= r,
                        1 <= c,
                ;
            }
            let pos: usize = row * nr_rows + col;
            if !visited[pos] {
                let mut curr: usize = pos;
                let mut val: T = t.buf_at(pos);
                proof {
                    lemma_tr_dst_inverse(pos as int, c, r);
                    lemma_tr_dst_bound(pos as int, c, r);
                    let src = tr_dst(pos as int, c, r);
                    if visited@[src] {
                        assert(visited@[tr_dst(src, r, c)]);
                        assert(false);
                    }
                    assert(val == v0[pos as int]);
                }
                while !visited[curr]
                    invariant
                        t.is_matrix(),
                        t.spec_sizes() =~= seq![nr_cols, nr_rows],
                        t.spec_view() == old(t).spec_view(),
                        t.spec_order() == old(t).spec_order(),
                        n == r * c,
                        r == nr_rows,
                        c == nr_cols,
                        1 <= r,
                        1 <= c,
                        v0 == old(t).spec_buf(),
                        0 <= curr < n,
                        0 <= pos < n,
                        val == v0[curr as int],
                        cycle_state_ok(t.spec_buf(), v0, visited@, r, c),
                        visited_chained(visited@, r, c, curr as int),
                        visited@[pos as int] || curr == pos,
                        forall|p: int| 0 <= p < row * r + col ==> visited@[p],
                    decreases count_unvisited(visited@),
                {
                    let ghost vis_head = visited@;
                    proof {
                        lemma_count_update(visited@, curr as int);
                    }
                    visited[curr] = true;
                    let a_c: usize = curr / nr_cols;
                    proof {
                        lemma_mod_bound(curr as int, c);
                        lemma_div_pos_is_pos(curr as int, c);
                        lemma_div_is_ordered(curr as int, r * c - 1, c);
                        assert((r - 1) * c + (c - 1) == r * c - 1) by (nonlinear_arith);
                        lemma_fundamental_div_mod_converse(r * c - 1, c, r - 1, c - 1);
                        lemma_fundamental_div_mod(curr as int, c);
                        assert(a_c == curr as int / c);
                        assert(0 <= a_c <= r - 1);
                        assert(nr_cols * a_c <= curr);
                    }
                    let a_r: usize = curr - nr_cols * a_c;
                    proof {
                        assert(a_r == curr as int % c);
                        assert(0 <= a_r <= c - 1);
                        assert(a_r * r + a_c < r * c) by (nonlinear_arith)
                            requires
                                0 <= a_r <= c - 1,
                                0 <= a_c <= r - 1,
                                1 <= r,
                                1 <= c,
                        ;
                    }
                    let w: usize = a_r * nr_rows + a_c;
                    proof {
                        assert(w == tr_dst(curr as int, r, c));
                        lemma_tr_dst_inverse(curr as int, r, c);
                        assert(tr_dst(w as int, c, r) == curr as int);
                    }
                    let tmp: T = t.buf_at(w);
                    let ghost buf_before = t.spec_buf();
                    t.set_buf_at(w, val);
                    proof {
                        assert(tmp == v0[w as int]);
                        assert forall|w2: int|
                            0 <= w2 < r * c && visited@[#[trigger] tr_dst(w2, c, r)] implies
                        t.spec_buf()[w2] == v0[tr_dst(w2, c, r)] by {
                            lemma_tr_dst_bound(w2, c, r);
                            if w2 == w {
                                assert(t.spec_buf()[w2] == v0[curr as int]);
                            } else {
                                lemma_tr_dst_inverse(w2, c, r);
                                if tr_dst(w2, c, r) == curr {
                                    assert(w2 == tr_dst(curr as int, r, c));
                                    assert(false);
                                }
                            }
                        }
                        assert forall|w2: int|
                            0 <= w2 < r * c && !visited@[#[trigger] tr_dst(w2, c, r)] implies
                        t.spec_buf()[w2] == v0[w2] by {
                            lemma_tr_dst_bound(w2, c, r);
                            if w2 == w {
                                assert(visited@[tr_dst(w2, c, r)]);
                            } else {
                                lemma_tr_dst_inverse(w2, c, r);
                                if tr_dst(w2, c, r) == curr {
                                    assert(w2 == tr_dst(curr as int, r, c));
                                    assert(false);
                                }
                            }
                        }
                        assert forall|p: int|
                            0 <= p < r * c && visited@[p] implies visited@[#[trigger] tr_dst(
                            p,
                            r,
                            c,
                        )] || tr_dst(p, r, c) == w as int by {
                            lemma_tr_dst_bound(p, r, c);
                            if p == curr {
                                assert(tr_dst(p, r, c) == w as int);
                            } else {
                                assert(vis_head[p]);
                                assert(vis_head[tr_dst(p, r, c)] || tr_dst(p, r, c) == curr);
                                if tr_dst(p, r, c) == curr {
                                    assert(visited@[curr as int]);
                                } else {
                                    assert(visited@[tr_dst(p, r, c)]);
                                }
                            }
                        }
                    }
                    val = tmp;
                    curr = w;
                }
                proof {
                    assert forall|p: int|
                        0 <= p < r * c && visited@[p] implies visited@[#[trigger] tr_dst(
                        p,
                        r,
                        c,
                    )] by {
                        assert(visited@[tr_dst(p, r, c)] || tr_dst(p, r, c) == curr);
                    }
                }
            }
            proof {
                assert forall|p: int| 0 <= p < row * r + col + 1 implies visited@[p] by {
                    if p == row * r + col {
                        assert(visited@[pos as int]);
                    }
                }
            }
            col = col + 1;
        }
        proof {
            assert(row * r + r == (row + 1) * r) by (nonlinear_arith);
        }
        row = row + 1;
    }
    proof {
        assert forall|p: int| 0 <= p < r * c implies visited@[p] by {
            assert(c * r == r * c) by (nonlinear_arith);
        }
        let s1_new = t.spec_sizes()[1] as int;
        assert(s1_new == r);
        assert forall|i: int, j: int| t.mat_index_ok(i, j) implies t.mat_at(i, j) == old(t).mat_at(
            j,
            i,
        ) by {
            let off = t.mat_off(i, j);
            t.lemma_mat_off_bound(i, j);
            lemma_tr_dst_bound(off, c, r);
            assert(visited@[tr_dst(off, c, r)]);
            assert(t.spec_buf()[off] == v0[tr_dst(off, c, r)]);
            if t.spec_view().transposed {
                assert(off == j * r + i);
                lemma_fundamental_div_mod_converse(off, r, j, i);
                assert(tr_dst(off, c, r) == i * c + j);
                assert(old(t).mat_at(j, i) == v0[i * c + j]);
            } else {
                assert(off == i * r + j);
                lemma_fundamental_div_mod_converse(off, r, i, j);
                assert(tr_dst(off, c, r) == j * c + i);
                assert(old(t).mat_at(j, i) == v0[j * c + i]);
            }
        }
    }
}

} // verus!
