//! Keyboard layout: splitting the challenge tokens into button rows.

use vstd::prelude::*;

verus! {

use vstd::seq_lib::*;

/// Buttons per row when `len` items are spread over `rows` rows: the ceiling
/// of their quotient.
pub open spec fn spec_row_size(len: int, rows: int) -> int {
    len / rows + if len % rows != 0 {
        1int
    } else {
        0int
    }
}

/// Splits the items into keyboard rows of `spec_row_size` buttons each, the
/// last row possibly shorter. Concatenated, the rows give back the items in
/// order.
pub fn keyboard_rows(items: &Vec<String>, rows: usize) -> (r: Vec<Vec<String>>)
    requires
        rows > 0,
    ensures
        r.deep_view().flatten() == items.deep_view(),
        forall|t: int| 0 <= t < r@.len() ==> 0 < (#[trigger] r@[t])@.len(),
        forall|t: int|
            0 <= t < r@.len() ==> (#[trigger] r@[t])@.len() <= spec_row_size(
                items@.len() as int,
                rows as int,
            ),
        forall|t: int|
            0 <= t < r@.len() - 1 ==> (#[trigger] r@[t])@.len() == spec_row_size(
                items@.len() as int,
                rows as int,
            ),
{
    let len = items.len();
    let mut r: Vec<Vec<String>> = Vec::new();
    if len == 0 {
        proof {
            assert(r.deep_view() =~~= Seq::<Seq<Seq<char>>>::empty());
            assert(r.deep_view().flatten() =~~= items.deep_view());
        }
        return r;
    }
    let q = len / rows;
    let rem = len % rows;
    proof {
        if rem == 0 {
            assert(len / rows >= 1) by (nonlinear_arith)
                requires
                    rows >= 1,
                    len >= 1,
                    len % rows == 0,
            ;
            assert(len / rows <= len) by (nonlinear_arith)
                requires
                    rows >= 1,
                    len >= 1,
            ;
        } else {
            if rows == 1 {
                assert(len % 1 == 0);
                assert(false);
            }
            assert(len / rows < len) by (nonlinear_arith)
                requires
                    rows >= 2,
                    len >= 1,
            ;
        }
    }
    let rs: usize = if rem != 0 {
        q + 1
    } else {
        q
    };
    proof {
        assert(0 < rs <= len);
    }
    let mut i: usize = 0;
    proof {
        assert(r.deep_view().flatten() =~~= items.deep_view().take(0));
    }
    while i < len
        invariant
            len == items@.len(),
            0 < rs <= len,
            rs == spec_row_size(len as int, rows as int),
            i <= len,
            r.deep_view().flatten() == items.deep_view().take(i as int),
            forall|t: int| 0 <= t < r@.len() ==> 0 < (#[trigger] r@[t])@.len() <= rs,
            forall|t: int| 0 <= t < r@.len() - 1 ==> (#[trigger] r@[t])@.len() == rs,
            i < len ==> (r@.len() == 0 || r@[r@.len() - 1]@.len() == rs),
        decreases len - i,
    {
        let end: usize = if len - i > rs {
            i + rs
        } else {
            len
        };
        let mut chunk: Vec<String> = Vec::new();
        let mut j: usize = i;
        while j < end
            invariant
                len == items@.len(),
                i <= j <= end <= len,
                chunk.deep_view() == items.deep_view().subrange(i as int, j as int),
                chunk@.len() == j - i,
            decreases end - j,
        {
            let ghost prev = chunk.deep_view();
            chunk.push(items[j].clone());
            j += 1;
            proof {
                assert(chunk.deep_view() =~~= prev.push(items@[j - 1]@));
                assert(items.deep_view()[j - 1] == items@[j - 1]@);
                assert(chunk.deep_view() =~~= items.deep_view().subrange(i as int, j as int));
            }
        }
        let ghost prev_vec = r@;
        let ghost prev_rows = r.deep_view();
        let ghost chunk_snap = chunk@;
        let ghost chunk_view = chunk.deep_view();
        r.push(chunk);
        proof {
            assert(forall|t: int| 0 <= t < prev_vec.len() ==> r@[t] == prev_vec[t]);
            assert(r@[prev_vec.len() as int]@ == chunk_snap);
            assert(r.deep_view() =~~= prev_rows.push(chunk_view));
            prev_rows.lemma_flatten_push(chunk_view);
            assert(items.deep_view().take(i as int) + items.deep_view().subrange(
                i as int,
                end as int,
            ) =~~= items.deep_view().take(end as int));
            assert(r.deep_view().flatten() =~~= items.deep_view().take(end as int));
            assert(r@[r@.len() - 1]@.len() == end - i);
            assert forall|t: int| 0 <= t < r@.len() - 1 implies (#[trigger] r@[t])@.len()
                == rs by {
                assert(r@[t] == prev_vec[t]);
                if t == prev_vec.len() - 1 {
                    assert(prev_vec[t]@.len() == rs);
                }
            }
        }
        i = end;
    }
    proof {
        assert(items.deep_view().take(len as int) =~~= items.deep_view());
    }
    r
}

} // verus!
