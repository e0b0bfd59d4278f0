//! Block windows: tiling the scanned block range.
//!
//! One log query per window keeps each request within provider-imposed
//! size limits. The windows tile the whole range from genesis to the
//! current chain head: consecutive windows share their boundary height,
//! and the last window is clipped to end exactly at the head.

use vstd::prelude::*;

verus! {

/// One bounded sub-range `[from_block, to_block]` of block heights,
/// queried in a single log request.
#[derive(Clone, Copy, PartialEq, Eq, Structural, Debug)]
pub struct BlockWindow {
    pub from_block: u64,
    pub to_block: u64,
}

/// The default window width: a balance between provider query-size limits
/// and the number of round trips.
pub const DEFAULT_WINDOW_WIDTH: u64 = 100000;

/// Window `i` of a scan of `[0, current_block]`: it starts at `i * step`
/// and ends one step later, clipped to the chain head.
pub open spec fn planned_window(current_block: u64, step: u64, i: int) -> BlockWindow {
    BlockWindow {
        from_block: (i * step) as u64,
        to_block: if (i + 1) * step <= current_block {
            ((i + 1) * step) as u64
        } else {
            current_block
        },
    }
}

/// All the windows a scan of `[0, current_block]` queries, in order.
pub open spec fn window_plan(current_block: u64, step: u64) -> Seq<BlockWindow> {
    Seq::new(
        ((current_block as int) / (step as int) + 1) as nat,
        |i: int| planned_window(current_block, step, i),
    )
}

/// Tile `[0, current_block]` into consecutive windows of width `step`,
/// the last clipped to end exactly at `current_block`.
pub fn block_windows(current_block: u64, step: u64) -> (windows: Vec<BlockWindow>)
    requires
        step >= 1,
    ensures
        windows@ == window_plan(current_block, step),
        windows@.len() >= 1,
        windows@.len() - 1 == (current_block as int) / (step as int),
        windows@[0].from_block == 0,
        windows@[windows@.len() - 1].to_block == current_block,
        forall|i: int|
            #![auto]
            0 <= i < windows@.len() ==> windows@[i].from_block <= windows@[i].to_block
                && windows@[i].to_block - windows@[i].from_block <= step,
        forall|i: int|
            #![auto]
            0 <= i < windows@.len() - 1 ==> windows@[i].to_block - windows@[i].from_block == step,
        forall|i: int|
            #![auto]
            1 <= i < windows@.len() ==> windows@[i].from_block == windows@[i - 1].to_block,
{
    let mut windows: Vec<BlockWindow> = Vec::new();
    let mut from_block: u64 = 0;
    proof {
        assert(windows@.len() * (step as int) == 0) by (nonlinear_arith)
            requires
                windows@.len() == 0,
        ;
    }
    loop
        invariant_except_break
            step >= 1,
            from_block <= current_block,
            from_block as int == windows@.len() * (step as int),
            forall|i: int|
                0 <= i < windows@.len() ==> #[trigger] windows@[i] == planned_window(
                    current_block,
                    step,
                    i,
                ),
        ensures
            step >= 1,
            windows@.len() >= 1,
            windows@.len() - 1 == (current_block as int) / (step as int),
            windows@[windows@.len() - 1].to_block == current_block,
            forall|i: int|
                0 <= i < windows@.len() ==> #[trigger] windows@[i] == planned_window(
                    current_block,
                    step,
                    i,
                ),
        decreases current_block - from_block,
    {
        let ghost k = windows@.len() as int;
        let ghost cb = current_block as int;
        let ghost st = step as int;
        if current_block - from_block < step {
            windows.push(BlockWindow { from_block, to_block: current_block });
            proof {
                assert((k + 1) * st == k * st + st) by (nonlinear_arith);
                vstd::arithmetic::div_mod::lemma_fundamental_div_mod_converse(
                    cb,
                    st,
                    k,
                    cb - k * st,
                );
                assert(windows@[k] == planned_window(current_block, step, k));
            }
            break ;
        }
        windows.push(BlockWindow { from_block, to_block: from_block + step });
        proof {
            assert((k + 1) * st == k * st + st) by (nonlinear_arith);
            assert(windows@[k] == planned_window(current_block, step, k));
        }
        from_block = from_block + step;
    }
    proof {
        let cb = current_block as int;
        let st = step as int;
        let n = windows@.len() as int;
        assert(windows@ =~= window_plan(current_block, step));
        vstd::arithmetic::div_mod::lemma_fundamental_div_mod(cb, st);
        assert((n - 1) * st == st * (n - 1)) by (nonlinear_arith);
        assert((n - 1) * st <= cb);
        assert forall|i: int| 0 <= i < n implies windows@[i].from_block <= windows@[i].to_block
            && windows@[i].to_block - windows@[i].from_block <= step && (i < n - 1
            ==> windows@[i].to_block - windows@[i].from_block == step) && (1 <= i
            ==> windows@[i].from_block == windows@[i - 1].to_block) by {
            assert(windows@[i] == planned_window(current_block, step, i));
            assert(i * st >= 0) by (nonlinear_arith)
                requires
                    i >= 0,
                    st >= 1,
            ;
            assert((i + 1) * st == i * st + st) by (nonlinear_arith);
            assert(i * st <= (n - 1) * st) by (nonlinear_arith)
                requires
                    i <= n - 1,
                    st >= 1,
            ;
            if i < n - 1 {
                assert((i + 1) * st <= (n - 1) * st) by (nonlinear_arith)
                    requires
                        i + 1 <= n - 1,
                        st >= 1,
                ;
            }
            if 1 <= i {
                assert(windows@[i - 1] == planned_window(current_block, step, i - 1));
                assert((i - 1 + 1) * st == i * st);
            }
        }
    }
    windows
}

/// Window coverage: every block height from genesis up to the chain head
/// lies in some window of the plan; the windows leave no gap.
pub proof fn lemma_window_coverage(current_block: u64, step: u64, height: u64)
    requires
        step >= 1,
        height <= current_block,
    ensures
        exists|i: int|
            #![auto]
            0 <= i < window_plan(current_block, step).len() && window_plan(
                current_block,
                step,
            )[i].from_block <= height && height <= window_plan(current_block, step)[i].to_block,
{
    let cb = current_block as int;
    let st = step as int;
    let h = height as int;
    let i = h / st;
    vstd::arithmetic::div_mod::lemma_fundamental_div_mod(h, st);
    assert(st * (h / st) == (h / st) * st) by (nonlinear_arith);
    assert(i * st <= h < (i + 1) * st) by {
        assert((i + 1) * st == i * st + st) by (nonlinear_arith);
    }
    vstd::arithmetic::div_mod::lemma_div_is_ordered(h, cb, st);
    assert(0 <= i <= cb / st);
    let w = window_plan(current_block, step)[i];
    assert(w == planned_window(current_block, step, i));
    assert(i * st >= 0) by (nonlinear_arith)
        requires
            i >= 0,
            st >= 1,
    ;
    assert(w.from_block <= height && height <= w.to_block);
}

/// Windows do not overlap: an earlier window ends no later than a later
/// one begins; only the shared boundary height is common to neighbours.
pub proof fn lemma_windows_disjoint(current_block: u64, step: u64, i: int, j: int)
    requires
        step >= 1,
        0 <= i < j < window_plan(current_block, step).len(),
    ensures
        window_plan(current_block, step)[i].to_block <= window_plan(
            current_block,
            step,
        )[j].from_block,
{
    let cb = current_block as int;
    let st = step as int;
    assert(window_plan(current_block, step)[i] == planned_window(current_block, step, i));
    assert(window_plan(current_block, step)[j] == planned_window(current_block, step, j));
    assert((i + 1) * st <= j * st) by (nonlinear_arith)
        requires
            i + 1 <= j,
            st >= 1,
    ;
    assert(i * st >= 0) by (nonlinear_arith)
        requires
            i >= 0,
            st >= 1,
    ;
    assert(j <= cb / st);
    vstd::arithmetic::div_mod::lemma_fundamental_div_mod(cb, st);
    assert(j * st <= (cb / st) * st) by (nonlinear_arith)
        requires
            j <= cb / st,
            st >= 1,
    ;
    assert((cb / st) * st == st * (cb / st)) by (nonlinear_arith);
    assert(j * st <= cb);
}

} // verus!
