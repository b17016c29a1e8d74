//! Repeats a Game many times and averages the per-iteration outcomes.

use vstd::prelude::*;

use crate::agent::Agent;
use crate::bandit::Bandit;
use crate::fixed::tdiv;
use crate::fixed::tdiv128;
use crate::fixed::SCALE;
use crate::fixed::VALUE_MAX;
use crate::game::reset_outcome;
use crate::game::reward_entry_ok;
use crate::game::runs_to;
use crate::game::Game;
use crate::run::random_init;

verus! {

/// `mid` is `prev` reset with a fresh initial-estimate vector `q`, every
/// entry drawn from the window `[lo, hi)`.
pub open spec fn reset_link<A: Agent, B: Bandit>(
    prev: Game<A, B>,
    mid: Game<A, B>,
    q: Seq<i64>,
    lo: i64,
    hi: i64,
) -> bool {
    &&& reset_outcome(prev, mid, q)
    &&& forall|j: int| 0 <= j < q.len() ==> lo <= #[trigger] q[j] < hi
}

/// `next` follows from `prev` by one reset with a fresh initial-estimate
/// vector and one run of `iterations` pulls.
pub open spec fn rerun_link<A: Agent, B: Bandit>(
    prev: Game<A, B>,
    next: Game<A, B>,
    iterations: int,
    lo: i64,
    hi: i64,
) -> bool {
    exists|mid: Game<A, B>, q: Seq<i64>|
        #[trigger] reset_link(prev, mid, q, lo, hi) && runs_to(mid, next, iterations)
}

/// `posts` are the successive end-of-run states of repeated runs of the same
/// game: the first run starts at `start`, and each later run starts from the
/// previous end state reset with a fresh initial-estimate vector.
pub open spec fn runs_linked<A: Agent, B: Bandit>(
    start: Game<A, B>,
    posts: Seq<Game<A, B>>,
    iterations: int,
    lo: i64,
    hi: i64,
) -> bool {
    &&& posts.len() > 0
    &&& runs_to(start, posts[0], iterations)
    &&& forall|k: int| 0 < k < posts.len() ==> #[trigger] rerun_link(posts[k - 1], posts[k], iterations, lo, hi)
}

/// The sum, over the given end-of-run states, of the wins entries at one
/// iteration index.
pub open spec fn wins_col_sum<A: Agent, B: Bandit>(posts: Seq<Game<A, B>>, i: int) -> int
    decreases posts.len(),
{
    if posts.len() == 0 {
        0
    } else {
        posts.last().wins.record@[i] + wins_col_sum(posts.drop_last(), i)
    }
}

/// The sum, over the given end-of-run states, of the rewards entries at one
/// iteration index.
pub open spec fn rewards_col_sum<A: Agent, B: Bandit>(posts: Seq<Game<A, B>>, i: int) -> int
    decreases posts.len(),
{
    if posts.len() == 0 {
        0
    } else {
        posts.last().rewards.record@[i] + rewards_col_sum(posts.drop_last(), i)
    }
}

/// Appending one end-of-run state adds its entries to every column sum.
proof fn lemma_col_sum_push<A: Agent, B: Bandit>(posts: Seq<Game<A, B>>, g: Game<A, B>, i: int)
    ensures
        wins_col_sum(posts.push(g), i) == wins_col_sum(posts, i) + g.wins.record@[i],
        rewards_col_sum(posts.push(g), i) == rewards_col_sum(posts, i) + g.rewards.record@[i],
{
    let p = posts.push(g);
    assert(p.last() == g);
    assert(p.drop_last() =~= posts);
}

/// A column of nonnegative bounded reward entries has a nonnegative bounded
/// column sum.
pub proof fn lemma_rewards_col_sum_bounded<A: Agent, B: Bandit>(
    posts: Seq<Game<A, B>>,
    i: int,
    hi: int,
)
    requires
        hi >= 0,
        forall|k: int| 0 <= k < posts.len() ==> 0 <= #[trigger] posts[k].rewards.record@[i] <= hi,
    ensures
        0 <= rewards_col_sum(posts, i) <= posts.len() * hi,
    decreases posts.len(),
{
    if posts.len() == 0 {
        assert(posts.len() * hi == 0) by (nonlinear_arith)
            requires
                posts.len() == 0,
        ;
    } else {
        let head = posts.drop_last();
        assert forall|k: int|
            0 <= k < head.len() implies 0 <= #[trigger] head[k].rewards.record@[i] <= hi by {
            assert(head[k] == posts[k]);
        }
        lemma_rewards_col_sum_bounded(head, i, hi);
        assert(0 <= posts[posts.len() - 1].rewards.record@[i] <= hi);
        assert(head.len() * hi + hi == posts.len() * hi) by (nonlinear_arith)
            requires
                head.len() == posts.len() - 1,
        ;
    }
}

/// The end-of-run states `posts` witness the averaged curves: they are the
/// linked repeated runs of the game from `start`, their records all have one
/// entry per iteration obeying the bandit's distribution shapes, and each
/// curve entry is the index-aligned column sum divided by the number of
/// runs (the win sums scaled to a fixed-point rate first).
pub open spec fn multiple_runs_witness<A: Agent, B: Bandit>(
    start: Game<A, B>,
    posts: Seq<Game<A, B>>,
    runs: int,
    iterations: int,
    lo: i64,
    hi: i64,
    wins_curve: Seq<i64>,
    rewards_curve: Seq<i64>,
) -> bool {
    &&& posts.len() == runs
    &&& runs > 0
    &&& runs_linked(start, posts, iterations, lo, hi)
    &&& forall|k: int|
        0 <= k < runs ==> (#[trigger] posts[k]).wins.record@.len() == iterations
            && posts[k].rewards.record@.len() == iterations
    &&& forall|k: int, j: int|
        0 <= k < runs && 0 <= j < iterations ==> reward_entry_ok(
            start.agent.estimates().len() as int,
            start.bandit,
            #[trigger] posts[k].rewards.record@[j],
        )
    &&& wins_curve.len() == iterations
    &&& rewards_curve.len() == iterations
    &&& forall|i: int|
        0 <= i < iterations ==> #[trigger] wins_curve[i] == tdiv(
            wins_col_sum(posts, i) * (SCALE as int),
            runs,
        )
    &&& forall|i: int|
        0 <= i < iterations ==> #[trigger] rewards_curve[i] == tdiv(rewards_col_sum(posts, i), runs)
}

/// The averaged curves arise from some sequence of linked repeated runs of
/// the game.
pub open spec fn multiple_runs_outcome<A: Agent, B: Bandit>(
    start: Game<A, B>,
    runs: int,
    iterations: int,
    lo: i64,
    hi: i64,
    wins_curve: Seq<i64>,
    rewards_curve: Seq<i64>,
) -> bool {
    exists|posts: Seq<Game<A, B>>|
        multiple_runs_witness(start, posts, runs, iterations, lo, hi, wins_curve, rewards_curve)
}

/// Runs the game `runs` times for `iterations` pulls each, accumulating the
/// per-iteration win indicator and reward, index-aligned across repeats, and
/// normalizes both sums by `runs`.
///
/// Before each repeat after the first, the game is reset with a fresh
/// initial-estimate vector drawn uniformly from `[lo, hi)`. The first result
/// holds the per-iteration expected win rate, a fixed-point value in
/// `[0, 1]`; the second the per-iteration expected reward: each entry is the
/// column sum of the runs' records at that iteration divided by `runs`, as
/// the outcome witness states.
pub fn multiple_runs<A: Agent, B: Bandit>(
    game: &mut Game<A, B>,
    runs: u32,
    iterations: u32,
    lo: i64,
    hi: i64,
) -> (r: (Vec<i64>, Vec<i64>))
    requires
        old(game).wf(),
        old(game).wins.record@.len() == 0,
        old(game).rewards.record@.len() == 0,
        runs > 0,
        lo < hi,
        iterations <= usize::MAX,
    ensures
        final(game).wf(),
        final(game).bandit == old(game).bandit,
        final(game).wins.record@.len() == 0,
        final(game).rewards.record@.len() == 0,
        r.0@.len() == iterations,
        r.1@.len() == iterations,
        forall|i: int| 0 <= i < iterations ==> 0 <= #[trigger] r.0@[i] <= SCALE,
        forall|i: int| 0 <= i < iterations ==> -VALUE_MAX <= #[trigger] r.1@[i] <= VALUE_MAX,
        multiple_runs_outcome(*old(game), runs as int, iterations as int, lo, hi, r.0@, r.1@),
{
    let ghost start = *old(game);
    let n: usize = iterations as usize;
    let mut wins_sum: Vec<u32> = Vec::new();
    let mut rewards_sum: Vec<i128> = Vec::new();
    let mut k: usize = 0;
    while k < n
        invariant
            k <= n,
            wins_sum@.len() == k,
            rewards_sum@.len() == k,
            forall|i: int| 0 <= i < k ==> #[trigger] wins_sum@[i] == 0,
            forall|i: int| 0 <= i < k ==> #[trigger] rewards_sum@[i] == 0,
        decreases n - k,
    {
        wins_sum.push(0);
        rewards_sum.push(0);
        k = k + 1;
    }
    let ghost mut posts: Seq<Game<A, B>> = Seq::empty();
    let mut done: u32 = 0;
    while done < runs
        invariant
            game.wf(),
            start == *old(game),
            game.bandit == start.bandit,
            game.agent.estimates().len() == start.agent.estimates().len(),
            game.wins.record@.len() == 0,
            game.rewards.record@.len() == 0,
            done <= runs,
            runs <= u32::MAX,
            lo < hi,
            n == iterations,
            wins_sum@.len() == n,
            rewards_sum@.len() == n,
            forall|i: int| 0 <= i < n ==> #[trigger] wins_sum@[i] <= done,
            forall|i: int|
                0 <= i < n ==> -(done as int) * (VALUE_MAX as int) <= #[trigger] rewards_sum@[i]
                    <= (done as int) * (VALUE_MAX as int),
            posts.len() == done,
            done > 0 ==> runs_linked(start, posts, iterations as int, lo, hi),
            forall|k0: int|
                0 <= k0 < done ==> (#[trigger] posts[k0]).wins.record@.len() == iterations
                    && posts[k0].rewards.record@.len() == iterations,
            forall|k0: int, j: int|
                0 <= k0 < done && 0 <= j < iterations ==> reward_entry_ok(
                    start.agent.estimates().len() as int,
                    start.bandit,
                    #[trigger] posts[k0].rewards.record@[j],
                ),
            forall|i: int| 0 <= i < n ==> #[trigger] wins_sum@[i] == wins_col_sum(posts, i),
            forall|i: int| 0 <= i < n ==> #[trigger] rewards_sum@[i] == rewards_col_sum(posts, i),
            done == 0 ==> *game == start,
            done > 0 ==> exists|q: Seq<i64>| #[trigger] reset_link(posts.last(), *game, q, lo, hi),
        decreases runs - done,
    {
        let ghost pre_run = *game;
        let ghost pre_posts = posts;
        game.run(iterations);
        let ghost pre_wins = wins_sum@;
        let ghost pre_rewards = rewards_sum@;
        let mut i: usize = 0;
        while i < n
            invariant
                i <= n,
                n == iterations,
                done < runs,
                game.wins.record@.len() == n,
                game.rewards.record@.len() == n,
                wins_sum@.len() == n,
                rewards_sum@.len() == n,
                forall|j: int|
                    0 <= j < n ==> #[trigger] game.wins.record@[j] == 0 || game.wins.record@[j]
                        == 1,
                forall|j: int|
                    0 <= j < n ==> -VALUE_MAX <= #[trigger] game.rewards.record@[j] <= VALUE_MAX,
                forall|i0: int| 0 <= i0 < n ==> #[trigger] pre_wins[i0] <= done,
                forall|i0: int|
                    0 <= i0 < n ==> -(done as int) * (VALUE_MAX as int) <= #[trigger] pre_rewards[i0]
                        <= (done as int) * (VALUE_MAX as int),
                forall|j: int|
                    0 <= j < i ==> #[trigger] wins_sum@[j] == pre_wins[j] + game.wins.record@[j],
                forall|j: int| i <= j < n ==> #[trigger] wins_sum@[j] == pre_wins[j],
                forall|j: int|
                    0 <= j < i ==> #[trigger] rewards_sum@[j] == pre_rewards[j]
                        + game.rewards.record@[j],
                forall|j: int| i <= j < n ==> #[trigger] rewards_sum@[j] == pre_rewards[j],
            decreases n - i,
        {
            let w: u32 = game.wins()[i];
            let base: u32 = wins_sum[i];
            wins_sum.set(i, base + w);
            let x: i64 = game.rewards()[i];
            let rbase: i128 = rewards_sum[i];
            rewards_sum.set(i, rbase + (x as i128));
            i = i + 1;
        }
        proof {
            posts = posts.push(*game);
            assert(posts[done as int] == *game);
            if done == 0 {
                assert(runs_to(start, posts[0], iterations as int));
            } else {
                let q0 = choose|q: Seq<i64>| #[trigger] reset_link(
                    pre_posts.last(),
                    pre_run,
                    q,
                    lo,
                    hi,
                );
                assert(pre_posts.last() == posts[done - 1]);
                assert(reset_link(posts[done - 1], pre_run, q0, lo, hi));
                assert(rerun_link(posts[done - 1], posts[done as int], iterations as int, lo, hi));
                assert(runs_to(start, posts[0], iterations as int));
            }
            assert forall|k0: int|
                0 < k0 < posts.len() implies #[trigger] rerun_link(
                posts[k0 - 1],
                posts[k0],
                iterations as int,
                lo,
                hi,
            ) by {
                if k0 < done {
                    assert(rerun_link(pre_posts[k0 - 1], pre_posts[k0], iterations as int, lo, hi));
                    assert(posts[k0 - 1] == pre_posts[k0 - 1]);
                    assert(posts[k0] == pre_posts[k0]);
                }
            }
            assert forall|i0: int| 0 <= i0 < n implies #[trigger] wins_sum@[i0] == wins_col_sum(
                posts,
                i0,
            ) by {
                lemma_col_sum_push(pre_posts, *game, i0);
            }
            assert forall|i0: int| 0 <= i0 < n implies #[trigger] rewards_sum@[i0]
                == rewards_col_sum(posts, i0) by {
                lemma_col_sum_push(pre_posts, *game, i0);
            }
            assert forall|k0: int, j: int|
                0 <= k0 < posts.len() && 0 <= j < iterations implies reward_entry_ok(
                start.agent.estimates().len() as int,
                start.bandit,
                #[trigger] posts[k0].rewards.record@[j],
            ) by {
                if k0 < done {
                    assert(posts[k0] == pre_posts[k0]);
                } else {
                    assert(posts[k0] == *game);
                    assert(reward_entry_ok(
                        pre_run.agent.estimates().len() as int,
                        pre_run.bandit,
                        game.rewards.record@[j],
                    ));
                }
            }
        }
        let arms: usize = game.arms();
        let q_new: Vec<i64> = random_init(lo, hi, arms);
        let ghost q_view = q_new@;
        game.reset(q_new);
        proof {
            assert(posts.last() == posts[done as int]);
            assert(reset_link(posts.last(), *game, q_view, lo, hi));
        }
        done = done + 1;
    }
    let mut wins_avg: Vec<i64> = Vec::new();
    let mut rewards_avg: Vec<i64> = Vec::new();
    let mut i: usize = 0;
    while i < n
        invariant
            i <= n,
            n == iterations,
            runs > 0,
            wins_sum@.len() == n,
            rewards_sum@.len() == n,
            forall|j: int| 0 <= j < n ==> #[trigger] wins_sum@[j] <= runs,
            forall|j: int|
                0 <= j < n ==> -(runs as int) * (VALUE_MAX as int) <= #[trigger] rewards_sum@[j]
                    <= (runs as int) * (VALUE_MAX as int),
            forall|j: int| 0 <= j < n ==> #[trigger] wins_sum@[j] == wins_col_sum(posts, j),
            forall|j: int| 0 <= j < n ==> #[trigger] rewards_sum@[j] == rewards_col_sum(posts, j),
            wins_avg@.len() == i,
            rewards_avg@.len() == i,
            forall|j: int| 0 <= j < i ==> 0 <= #[trigger] wins_avg@[j] <= SCALE,
            forall|j: int| 0 <= j < i ==> -VALUE_MAX <= #[trigger] rewards_avg@[j] <= VALUE_MAX,
            forall|j: int|
                0 <= j < i ==> #[trigger] wins_avg@[j] == tdiv(
                    wins_col_sum(posts, j) * (SCALE as int),
                    runs as int,
                ),
            forall|j: int|
                0 <= j < i ==> #[trigger] rewards_avg@[j] == tdiv(
                    rewards_col_sum(posts, j),
                    runs as int,
                ),
        decreases n - i,
    {
        let w: u32 = wins_sum[i];
        let scaled: i64 = (w as i64) * SCALE;
        let wa: i64 = scaled / (runs as i64);
        proof {
            lemma_win_average_in_unit(w as int, runs as int);
        }
        wins_avg.push(wa);
        let rsum: i128 = rewards_sum[i];
        proof {
            lemma_reward_average_in_range(rsum as int, runs as int);
        }
        let ra: i128 = tdiv128(rsum, runs as i128);
        rewards_avg.push(ra as i64);
        i = i + 1;
    }
    proof {
        assert(multiple_runs_witness(
            start,
            posts,
            runs as int,
            iterations as int,
            lo,
            hi,
            wins_avg@,
            rewards_avg@,
        ));
    }
    (wins_avg, rewards_avg)
}

/// The average of at most `runs` unit indicators lies in `[0, 1]`.
proof fn lemma_win_average_in_unit(w: int, runs: int)
    requires
        0 <= w <= runs,
        0 < runs,
    ensures
        0 <= (w * SCALE) / runs <= SCALE,
{
    assert(0 <= (w * SCALE) / runs <= SCALE) by (nonlinear_arith)
        requires
            0 <= w <= runs,
            0 < runs,
    ;
}

/// The average of `runs` values within the value range stays in the range.
proof fn lemma_reward_average_in_range(sum: int, runs: int)
    requires
        -runs * (VALUE_MAX as int) <= sum <= runs * (VALUE_MAX as int),
        0 < runs,
    ensures
        -VALUE_MAX <= tdiv(sum, runs) <= VALUE_MAX,
{
    if sum >= 0 {
        assert(0 <= sum / runs <= VALUE_MAX) by (nonlinear_arith)
            requires
                0 <= sum <= runs * (VALUE_MAX as int),
                0 < runs,
        ;
    } else {
        assert(0 <= (-sum) / runs <= VALUE_MAX) by (nonlinear_arith)
            requires
                0 <= -sum <= runs * (VALUE_MAX as int),
                0 < runs,
        ;
    }
}

} // verus!
