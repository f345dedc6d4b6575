//! The session state: the playfield grid of settled cells, the active piece,
//! score, level and cleared-line bookkeeping, locking, and the line-clear pass.

use vstd::prelude::*;
use crate::config::{level_lines, level_time, spec_level_lines, spec_level_time};
use crate::spawner::Spawner;
use crate::tetriminos::{
    cell_free, grid_view, kick_found, kick_offsets, mask_wf, placement_legal, spawned_piece_of_kind,
    Tetrimino, TetriminoGenerator, TetriminoI, TetriminoJ, TetriminoL, TetriminoO, TetriminoS,
    TetriminoT, TetriminoZ,
};

verus! {

/// Every row of the grid has exactly 10 cells.
pub open spec fn grid_wf(g: Seq<Seq<u8>>) -> bool {
    forall|i: int| 0 <= i < g.len() ==> #[trigger] g[i].len() == 10
}

/// A row is complete when every one of its cells is occupied.
pub open spec fn row_full(r: Seq<u8>) -> bool {
    forall|j: int| 0 <= j < r.len() ==> r[j] != 0
}

/// The rows of `g` that survive a line-clear pass, in order: those that are
/// not complete.
pub open spec fn kept_rows(g: Seq<Seq<u8>>) -> Seq<Seq<u8>>
    decreases g.len(),
{
    if g.len() == 0 {
        Seq::empty()
    } else if row_full(g[0]) {
        kept_rows(g.drop_first())
    } else {
        seq![g[0]] + kept_rows(g.drop_first())
    }
}

/// A fresh, all-empty row.
pub open spec fn empty_row() -> Seq<u8> {
    seq![0u8, 0u8, 0u8, 0u8, 0u8, 0u8, 0u8, 0u8, 0u8, 0u8]
}

/// `n` fresh, all-empty rows.
pub open spec fn empty_rows(n: int) -> Seq<Seq<u8>> {
    Seq::new(n as nat, |i: int| empty_row())
}

/// The level after one more cleared line has been counted: the level rises by
/// one when the new count passes the level's threshold. Levels are clamped at
/// 10, where the threshold table ends.
pub open spec fn bumped_level(level: int, nb: int) -> int {
    if 1 <= level < 10 && nb > spec_level_lines(level) {
        level + 1
    } else {
        level
    }
}

/// The level after `k` more cleared lines have been counted one by one,
/// starting from `level` with `nb` lines already counted.
pub open spec fn level_after(level: int, nb: int, k: nat) -> int
    decreases k,
{
    if k == 0 {
        level
    } else {
        bumped_level(level_after(level, nb, (k - 1) as nat), nb + k)
    }
}

/// The level only ever rises as lines are counted, and each counted line
/// raises it by at most one, so no level is ever skipped.
pub proof fn lemma_level_monotonic(level: int, nb: int, k: nat)
    ensures
        level <= level_after(level, nb, k) <= level + k,
    decreases k,
{
    if k > 0 {
        lemma_level_monotonic(level, nb, (k - 1) as nat);
    }
}

/// What one line-clear pass over the grid `g` does to a session that holds
/// `score`, `level` and `nb` counted lines before the pass: complete rows are
/// removed (each worth `level` points), an emptied-out grid earns a flat 1000
/// bonus, each removed row is counted (possibly raising the level), and the
/// grid is refilled with empty rows at the top back to 16.
pub open spec fn clear_outcome(g: Seq<Seq<u8>>, score: int, level: int, nb: int, post: Tetris) -> bool {
    let kept = kept_rows(g);
    let cleared = g.len() - kept.len();
    &&& grid_view(post.game_map) == empty_rows(16 - kept.len()) + kept
    &&& post.score == score + level * cleared + (if kept.len() == 0 { 1000int } else { 0int })
    &&& post.nb_lines == nb + (16 - kept.len())
    &&& post.current_level as int == level_after(level, nb, (16 - kept.len()) as nat)
}

/// Appending a row to a grid keeps it in the clear pass' survivors exactly
/// when it is not complete.
proof fn lemma_kept_rows_push(g: Seq<Seq<u8>>, r: Seq<u8>)
    ensures
        kept_rows(g.push(r)) == if row_full(r) { kept_rows(g) } else { kept_rows(g).push(r) },
    decreases g.len(),
{
    let gp = g.push(r);
    if g.len() == 0 {
        assert(gp[0] == r);
        assert(gp.drop_first() =~= Seq::<Seq<u8>>::empty());
        assert(kept_rows(gp.drop_first()) =~= Seq::<Seq<u8>>::empty());
        assert(kept_rows(g) =~= Seq::<Seq<u8>>::empty());
        if row_full(r) {
            assert(kept_rows(gp) =~= kept_rows(g));
        } else {
            assert(kept_rows(gp) == seq![r] + kept_rows(gp.drop_first()));
            assert(kept_rows(gp) =~= kept_rows(g).push(r));
        }
    } else {
        assert(gp[0] == g[0]);
        assert(gp.drop_first() =~= g.drop_first().push(r));
        lemma_kept_rows_push(g.drop_first(), r);
        if row_full(g[0]) {
            assert(kept_rows(gp) == kept_rows(g.drop_first().push(r)));
            assert(kept_rows(g) == kept_rows(g.drop_first()));
        } else {
            assert(kept_rows(gp) == seq![g[0]] + kept_rows(g.drop_first().push(r)));
            assert(kept_rows(g) == seq![g[0]] + kept_rows(g.drop_first()));
            if !row_full(r) {
                assert(seq![g[0]] + kept_rows(g.drop_first()).push(r)
                    =~= (seq![g[0]] + kept_rows(g.drop_first())).push(r));
            }
        }
    }
}

/// A clear pass never grows the grid.
proof fn lemma_kept_rows_len(g: Seq<Seq<u8>>)
    ensures
        kept_rows(g).len() <= g.len(),
    decreases g.len(),
{
    if g.len() > 0 {
        lemma_kept_rows_len(g.drop_first());
    }
}

/// A clear pass keeps every surviving row at its width.
proof fn lemma_kept_rows_width(g: Seq<Seq<u8>>)
    requires
        grid_wf(g),
    ensures
        grid_wf(kept_rows(g)),
    decreases g.len(),
{
    if g.len() > 0 {
        assert(forall|i: int| 0 <= i < g.drop_first().len()
            ==> #[trigger] g.drop_first()[i].len() == 10);
        lemma_kept_rows_width(g.drop_first());
    }
}

fn row_complete(r: &Vec<u8>) -> (b: bool)
    ensures
        b == row_full(r@),
{
    let mut x: usize = 0;
    while x < r.len()
        invariant
            x <= r@.len(),
            forall|j: int| 0 <= j < x ==> r@[j] != 0,
        decreases r@.len() - x,
    {
        if r[x] == 0 {
            assert(r@[x as int] == 0);
            return false;
        }
        x += 1;
    }
    true
}

/// The grid after the mask of a locking piece, anchored at column `x`, row
/// `y`, is written into it: every filled mask cell that maps onto an existing
/// grid cell overwrites that cell; everything else is untouched. Filled cells
/// mapping beyond the grid are dropped, never written.
pub open spec fn lock_spec(g: Seq<Seq<u8>>, mask: Seq<Seq<u8>>, x: int, y: int) -> Seq<Seq<u8>> {
    Seq::new(
        g.len(),
        |r: int| Seq::new(
            g[r].len(),
            |c: int| if y <= r < y + 4 && x <= c < x + 4 && mask[r - y][c - x] != 0 {
                mask[r - y][c - x]
            } else {
                g[r][c]
            },
        ),
    )
}

/// Locking writes nothing past the grid: the locked grid has exactly the rows
/// and row widths of the grid it came from, and every cell outside the mask's
/// footprint is unchanged.
pub proof fn lemma_lock_in_bounds(g: Seq<Seq<u8>>, mask: Seq<Seq<u8>>, x: int, y: int)
    ensures
        lock_spec(g, mask, x, y).len() == g.len(),
        forall|r: int| 0 <= r < g.len() ==> #[trigger] lock_spec(g, mask, x, y)[r].len() == g[r].len(),
        forall|r: int, c: int|
            0 <= r < g.len() && 0 <= c < g[r].len() && !(y <= r < y + 4 && x <= c < x + 4)
                ==> lock_spec(g, mask, x, y)[r][c] == g[r][c],
{
}

/// The row where a piece dropping straight down from row `y` comes to rest:
/// the last row reachable by single downward steps that are each legal.
pub open spec fn landing_row(mask: Seq<Seq<u8>>, map: Seq<Seq<u8>>, x: int, y: int) -> int
    decreases map.len() - y
        when mask_wf(mask)
{
    if placement_legal(mask, map, x, y + 1) {
        landing_row(mask, map, x, y + 1)
    } else {
        y
    }
}

/// The session state: settled grid, score/level/line counters, the active
/// piece if one is falling, and the piece spawner.
pub struct Tetris {
    pub game_map: Vec<Vec<u8>>,
    pub current_level: u32,
    pub score: u32,
    pub nb_lines: u32,
    pub current_piece: Option<Tetrimino>,
    pub spawner: Spawner,
}

fn fresh_row() -> (r: Vec<u8>)
    ensures
        r@ == empty_row(),
{
    let mut v: Vec<u8> = Vec::new();
    let mut i: usize = 0;
    while i < 10
        invariant
            i <= 10,
            v@.len() == i,
            forall|j: int| 0 <= j < i ==> v@[j] == 0u8,
        decreases 10 - i,
    {
        v.push(0);
        i += 1;
    }
    proof {
        assert(v@ =~= empty_row());
    }
    v
}

impl Tetris {
    /// Structural validity: a 16-row grid of 10-cell rows, a level the
    /// threshold tables cover, and a well-formed active piece if any.
    pub open spec fn wf(self) -> bool {
        &&& self.game_map@.len() == 16
        &&& grid_wf(grid_view(self.game_map))
        &&& 1 <= self.current_level <= 10
        &&& match self.current_piece {
            Some(p) => p.wf(),
            None => true,
        }
    }

    /// A fresh session: an empty 16x10 grid, level 1, no score, no cleared
    /// lines, no active piece, and a spawner that has drawn nothing yet.
    pub fn new() -> (t: Tetris)
        ensures
            grid_view(t.game_map) == empty_rows(16),
            t.current_level == 1,
            t.score == 0,
            t.nb_lines == 0,
            t.current_piece is None,
            t.spawner.prev_kind == 7,
            t.wf(),
    {
        let mut game_map: Vec<Vec<u8>> = Vec::new();
        let mut i: usize = 0;
        while i < 16
            invariant
                i <= 16,
                game_map@.len() == i,
                forall|j: int| 0 <= j < i ==> #[trigger] game_map@[j]@ == empty_row(),
            decreases 16 - i,
        {
            game_map.push(fresh_row());
            i += 1;
        }
        let t = Tetris {
            game_map,
            current_level: 1,
            score: 0,
            nb_lines: 0,
            current_piece: None,
            spawner: Spawner::new(),
        };
        proof {
            assert(grid_view(t.game_map) =~= empty_rows(16));
        }
        t
    }

    /// Add `to_add` points to the score.
    pub fn update_score(&mut self, to_add: u32)
        requires
            old(self).score + to_add <= u32::MAX,
        ensures
            final(self).score == old(self).score + to_add,
            final(self).game_map == old(self).game_map,
            final(self).current_level == old(self).current_level,
            final(self).nb_lines == old(self).nb_lines,
            final(self).current_piece == old(self).current_piece,
            final(self).spawner == old(self).spawner,
    {
        self.score = self.score + to_add;
    }

    /// Count one more cleared line, raising the level when the count passes
    /// the current level's threshold (levels are clamped at 10, where the
    /// threshold table ends).
    pub fn increase_line(&mut self)
        requires
            1 <= old(self).current_level <= 10,
            old(self).nb_lines < u32::MAX,
        ensures
            final(self).nb_lines == old(self).nb_lines + 1,
            final(self).current_level as int
                == bumped_level(old(self).current_level as int, old(self).nb_lines + 1),
            final(self).game_map == old(self).game_map,
            final(self).score == old(self).score,
            final(self).current_piece == old(self).current_piece,
            final(self).spawner == old(self).spawner,
    {
        self.nb_lines = self.nb_lines + 1;
        if self.current_level < 10 {
            let threshold = level_lines(self.current_level);
            if self.nb_lines > threshold {
                self.current_level = self.current_level + 1;
            }
        }
    }

    /// Whether the gravity interval of the current level has elapsed.
    pub fn is_time_over(&self, elapsed_ms: u32) -> (b: bool)
        requires
            1 <= self.current_level <= 10,
        ensures
            b == (elapsed_ms > spec_level_time(self.current_level as int)),
    {
        let threshold = level_time(self.current_level);
        elapsed_ms > threshold
    }

    /// One line-clear pass: remove every complete row (each worth the current
    /// level in points, with a flat 1000 bonus if the grid empties out
    /// entirely), count each removed row (raising the level as thresholds are
    /// passed), and refill the grid with empty rows at the top back to 16.
    pub fn check_lines(&mut self)
        requires
            old(self).wf(),
            old(self).score + 1160 <= u32::MAX,
            old(self).nb_lines + 16 <= u32::MAX,
        ensures
            clear_outcome(
                grid_view(old(self).game_map),
                old(self).score as int,
                old(self).current_level as int,
                old(self).nb_lines as int,
                *final(self),
            ),
            grid_view(final(self).game_map).len() == 16,
            grid_wf(grid_view(final(self).game_map)),
            final(self).current_piece == old(self).current_piece,
            final(self).spawner == old(self).spawner,
            final(self).current_level >= old(self).current_level,
            final(self).wf(),
    {
        let ghost g0 = grid_view(old(self).game_map);
        let ghost mut p: int = 0;
        let mut y: usize = 0;
        let mut score_add: u32 = 0;

        proof {
            assert(g0.take(0) =~= Seq::<Seq<u8>>::empty());
            assert(g0.skip(0) =~= g0);
            assert(grid_view(self.game_map) =~= kept_rows(g0.take(0)) + g0.skip(0));
        }

        while y < self.game_map.len()
            invariant
                0 <= p <= 16,
                g0 == grid_view(old(self).game_map),
                g0.len() == 16,
                grid_wf(g0),
                grid_view(self.game_map) == kept_rows(g0.take(p)) + g0.skip(p),
                y as int == kept_rows(g0.take(p)).len(),
                y <= p,
                score_add as int == old(self).current_level * (p - y),
                score_add <= 160,
                old(self).wf(),
                self.current_level == old(self).current_level,
                self.score == old(self).score,
                self.nb_lines == old(self).nb_lines,
                self.current_piece == old(self).current_piece,
                self.spawner == old(self).spawner,
            decreases 16 - p,
        {
            proof {
                lemma_kept_rows_len(g0.take(p));
                assert(grid_view(self.game_map).len() == self.game_map@.len());
                assert(g0.skip(p).len() == 16 - p);
                assert(self.game_map@.len() == y + (16 - p));
                assert(p < 16);
                assert(grid_view(self.game_map)[y as int] == g0.skip(p)[0]);
                assert(g0.skip(p)[0] == g0[p]);
                assert(g0.take(p + 1) =~= g0.take(p).push(g0[p]));
                lemma_kept_rows_push(g0.take(p), g0[p]);
            }
            let complete = row_complete(&self.game_map[y]);
            assert(complete == row_full(g0[p]));

            if complete {
                let ghost before = grid_view(self.game_map);
                let ghost vprev = self.game_map@;
                proof {
                    let lvl = old(self).current_level as int;
                    assert(score_add as int <= lvl * 15) by (nonlinear_arith)
                        requires
                            score_add as int == lvl * (p - y),
                            0 <= p - y <= 15,
                            1 <= lvl,
                    {
                    }
                    assert(lvl * 15 <= 150) by (nonlinear_arith)
                        requires
                            1 <= lvl <= 10,
                    {
                    }
                    assert(score_add as int + lvl == lvl * (p + 1 - y)) by (nonlinear_arith)
                        requires
                            score_add as int == lvl * (p - y),
                    {
                    }
                }
                score_add = score_add + self.current_level;
                self.game_map.remove(y);
                proof {
                    assert(grid_view(self.game_map)
                        =~= kept_rows(g0.take(p + 1)) + g0.skip(p + 1)) by {
                        assert(self.game_map@ == vprev.remove(y as int));
                        assert(forall|i: int| 0 <= i < y
                            ==> #[trigger] self.game_map@[i]@ == before[i]);
                        assert(forall|i: int| y <= i < self.game_map@.len()
                            ==> #[trigger] self.game_map@[i]@ == before[i + 1]);
                        assert(forall|i: int| 0 <= i < g0.skip(p + 1).len()
                            ==> #[trigger] g0.skip(p + 1)[i] == g0[p + 1 + i]);
                        assert(forall|i: int| 0 <= i < g0.skip(p).len()
                            ==> #[trigger] g0.skip(p)[i] == g0[p + i]);
                    }
                }
            } else {
                y = y + 1;
                proof {
                    assert(grid_view(self.game_map)
                        =~= kept_rows(g0.take(p + 1)) + g0.skip(p + 1)) by {
                        assert(forall|i: int| 0 <= i < g0.skip(p + 1).len()
                            ==> #[trigger] g0.skip(p + 1)[i] == g0[p + 1 + i]);
                        assert(forall|i: int| 0 <= i < g0.skip(p).len()
                            ==> #[trigger] g0.skip(p)[i] == g0[p + i]);
                    }
                }
            }
            proof {
                p = p + 1;
            }
        }

        proof {
            assert(p == 16) by {
                lemma_kept_rows_len(g0.take(p));
                assert(self.game_map@.len() == y + (16 - p));
            }
            assert(g0.take(16) =~= g0);
            assert(g0.skip(16) =~= Seq::<Seq<u8>>::empty());
            assert(grid_view(self.game_map) =~= kept_rows(g0));
            lemma_kept_rows_len(g0);
            lemma_kept_rows_width(g0);
        }
        let ghost kept = kept_rows(g0);
        let ghost cleared = 16 - kept.len();

        if self.game_map.len() == 0 {
            // The whole field emptied at once: the flat full-clear bonus.
            score_add = score_add + 1000;
        }
        self.update_score(score_add);

        let ghost mid_score = self.score;
        let ghost mut j: int = 0;
        proof {
            assert(grid_view(self.game_map) =~= empty_rows(0) + kept);
        }
        while self.game_map.len() < 16
            invariant
                0 <= j,
                j + kept.len() == self.game_map@.len(),
                kept.len() <= 16,
                grid_wf(kept),
                self.game_map@.len() <= 16,
                grid_view(self.game_map) == empty_rows(j) + kept,
                self.nb_lines as int == old(self).nb_lines + j,
                old(self).nb_lines + 16 <= u32::MAX,
                self.current_level as int
                    == level_after(old(self).current_level as int, old(self).nb_lines as int, j as nat),
                1 <= self.current_level <= 10,
                self.score == mid_score,
                self.current_piece == old(self).current_piece,
                self.spawner == old(self).spawner,
            decreases 16 - self.game_map@.len(),
        {
            self.increase_line();
            let ghost before = grid_view(self.game_map);
            self.game_map.insert(0, fresh_row());
            proof {
                assert(grid_view(self.game_map) =~= empty_rows(j + 1) + kept) by {
                    assert(self.game_map@[0]@ == empty_row());
                    assert(forall|i: int| 1 <= i < self.game_map@.len()
                        ==> #[trigger] self.game_map@[i]@ == before[i - 1]);
                    assert(forall|i: int| 0 <= i < j + 1
                        ==> #[trigger] empty_rows(j + 1)[i] == empty_row());
                    assert(forall|i: int| 0 <= i < j
                        ==> #[trigger] empty_rows(j)[i] == empty_row());
                }
                assert(level_after(old(self).current_level as int, old(self).nb_lines as int, (j + 1) as nat)
                    == bumped_level(
                        level_after(old(self).current_level as int, old(self).nb_lines as int, j as nat),
                        old(self).nb_lines + j + 1,
                    ));
                j = j + 1;
            }
        }

        proof {
            assert(j == cleared);
            lemma_level_monotonic(
                old(self).current_level as int,
                old(self).nb_lines as int,
                j as nat,
            );
            assert(grid_wf(grid_view(self.game_map))) by {
                assert(forall|i: int| 0 <= i < 16 - kept.len()
                    ==> #[trigger] empty_rows(cleared)[i] == empty_row());
            }
        }
    }

    /// Lock the active piece into the grid: write every filled cell of its
    /// current mask at its absolute coordinates (cells mapping beyond the grid
    /// are dropped), grant the current level in points, run the line-clear
    /// pass, and discard the piece. Without an active piece only the clear
    /// pass runs.
    pub fn make_permanent(&mut self)
        requires
            old(self).wf(),
            old(self).score + 1170 <= u32::MAX,
            old(self).nb_lines + 16 <= u32::MAX,
            match old(self).current_piece {
                Some(p) => {
                    &&& p.y + 4 <= usize::MAX
                    &&& p.x <= isize::MAX - 3
                    &&& forall|dy: int, dx: int|
                        0 <= dy < 4 && 0 <= dx < 4 && #[trigger] p.current_mask()[dy][dx] != 0
                            && p.y + dy < 16 ==> p.x + dx >= 0
                },
                None => true,
            },
        ensures
            final(self).current_piece is None,
            final(self).spawner == old(self).spawner,
            final(self).wf(),
            match old(self).current_piece {
                Some(p) => clear_outcome(
                    lock_spec(
                        grid_view(old(self).game_map),
                        p.current_mask(),
                        p.x as int,
                        p.y as int,
                    ),
                    old(self).score + old(self).current_level,
                    old(self).current_level as int,
                    old(self).nb_lines as int,
                    *final(self),
                ),
                None => clear_outcome(
                    grid_view(old(self).game_map),
                    old(self).score as int,
                    old(self).current_level as int,
                    old(self).nb_lines as int,
                    *final(self),
                ),
            },
    {
        let ghost g0 = grid_view(old(self).game_map);
        let mut to_add: u32 = 0;
        if self.current_piece.is_some() {
            let ghost pv = old(self).current_piece->0;
            let ghost mask = pv.current_mask();
            let ghost px = pv.x as int;
            let ghost py = pv.y as int;
            let ghost locked = lock_spec(g0, mask, px, py);
            proof {
                lemma_lock_in_bounds(g0, mask, px, py);
            }
            match &self.current_piece {
                Some(piece) => {
                    let cs = piece.current_state as usize;
                    proof {
                        assert(mask_wf(mask));
                        assert(forall|r: int| 0 <= r < 4
                            ==> #[trigger] pv.states@[cs as int]@[r]@ == mask[r]);
                    }
                    let mut shift_y: usize = 0;
                    while shift_y < piece.states[cs].len() && piece.y + shift_y < self.game_map.len()
                        invariant
                            old(self).wf(),
                            old(self).current_piece == Some(pv),
                            *piece == pv,
                            cs == pv.current_state as usize,
                            mask == pv.current_mask(),
                            px == pv.x as int,
                            py == pv.y as int,
                            pv.y + 4 <= usize::MAX,
                            pv.x <= isize::MAX - 3,
                            forall|dy: int, dx: int|
                                0 <= dy < 4 && 0 <= dx < 4 && #[trigger] mask[dy][dx] != 0
                                    && py + dy < 16 ==> px + dx >= 0,
                            g0 == grid_view(old(self).game_map),
                            g0.len() == 16,
                            grid_wf(g0),
                            locked == lock_spec(g0, mask, px, py),
                            mask_wf(mask),
                            pv.states@[cs as int]@.len() == 4,
                            forall|r: int| 0 <= r < 4
                                ==> #[trigger] pv.states@[cs as int]@[r]@ == mask[r],
                            shift_y <= 4,
                            self.game_map@.len() == 16,
                            grid_wf(grid_view(self.game_map)),
                            forall|r: int|
                                0 <= r < 16 && !(py <= r < py + shift_y)
                                    ==> #[trigger] grid_view(self.game_map)[r] == g0[r],
                            forall|r: int|
                                py <= r < py + shift_y && r < 16
                                    ==> #[trigger] grid_view(self.game_map)[r] == locked[r],
                            self.current_level == old(self).current_level,
                            self.score == old(self).score,
                            self.nb_lines == old(self).nb_lines,
                            self.current_piece == old(self).current_piece,
                            self.spawner == old(self).spawner,
                        decreases 4 - shift_y,
                    {
                        let ry = piece.y + shift_y;
                        let ghost row0 = grid_view(self.game_map)[ry as int];
                        let mut shift_x: usize = 0;
                        while shift_x < piece.states[cs][shift_y].len()
                            && (piece.x + shift_x as isize) < self.game_map[ry].len() as isize
                            invariant
                                old(self).wf(),
                                old(self).current_piece == Some(pv),
                                *piece == pv,
                                cs == pv.current_state as usize,
                                mask == pv.current_mask(),
                                px == pv.x as int,
                                py == pv.y as int,
                                pv.y + 4 <= usize::MAX,
                                pv.x <= isize::MAX - 3,
                                forall|dy: int, dx: int|
                                    0 <= dy < 4 && 0 <= dx < 4 && #[trigger] mask[dy][dx] != 0
                                        && py + dy < 16 ==> px + dx >= 0,
                                g0 == grid_view(old(self).game_map),
                                g0.len() == 16,
                                grid_wf(g0),
                                locked == lock_spec(g0, mask, px, py),
                                mask_wf(mask),
                                pv.states@[cs as int]@.len() == 4,
                                forall|r: int| 0 <= r < 4
                                    ==> #[trigger] pv.states@[cs as int]@[r]@ == mask[r],
                                shift_y < 4,
                                shift_x <= 4,
                                ry == py + shift_y,
                                ry < 16,
                                self.game_map@.len() == 16,
                                grid_wf(grid_view(self.game_map)),
                                grid_view(self.game_map)[ry as int].len() == 10,
                                forall|r: int|
                                    0 <= r < 16 && !(py <= r < py + shift_y) && r != ry
                                        ==> #[trigger] grid_view(self.game_map)[r] == g0[r],
                                forall|r: int|
                                    py <= r < py + shift_y && r < 16
                                        ==> #[trigger] grid_view(self.game_map)[r] == locked[r],
                                forall|c: int|
                                    0 <= c < 10 && px <= c < px + shift_x
                                        ==> grid_view(self.game_map)[ry as int][c]
                                            == locked[ry as int][c],
                                forall|c: int|
                                    0 <= c < 10 && !(px <= c < px + shift_x)
                                        ==> grid_view(self.game_map)[ry as int][c]
                                            == g0[ry as int][c],
                                self.current_level == old(self).current_level,
                                self.score == old(self).score,
                                self.nb_lines == old(self).nb_lines,
                                self.current_piece == old(self).current_piece,
                                self.spawner == old(self).spawner,
                            decreases 4 - shift_x,
                        {
                            if piece.states[cs][shift_y][shift_x] != 0 {
                                let cx = piece.x + shift_x as isize;
                                assert(mask[shift_y as int][shift_x as int] != 0);
                                assert(px + shift_x >= 0);
                                let ghost before = grid_view(self.game_map);
                                let ghost vprev = self.game_map@;
                                let ghost rprev = self.game_map@[ry as int]@;
                                self.game_map[ry][cx as usize] =
                                    piece.states[cs][shift_y][shift_x];
                                proof {
                                    assert(self.game_map@[ry as int]@
                                        == rprev.update(cx as int, mask[shift_y as int][shift_x as int]));
                                    assert(forall|r: int|
                                        0 <= r < 16 && r != ry
                                            ==> #[trigger] grid_view(self.game_map)[r] == before[r]);
                                    assert(locked[ry as int][cx as int]
                                        == mask[shift_y as int][shift_x as int]);
                                }
                            }
                            shift_x = shift_x + 1;
                        }
                        proof {
                            assert(grid_view(self.game_map)[ry as int] =~= locked[ry as int]) by {
                                assert(locked[ry as int].len() == 10);
                                assert(forall|c: int|
                                    0 <= c < 10 && !(px <= c < px + shift_x)
                                        ==> #[trigger] locked[ry as int][c] == g0[ry as int][c]);
                            }
                        }
                        shift_y = shift_y + 1;
                    }
                    proof {
                        assert(grid_view(self.game_map) =~~= locked) by {
                            assert(forall|r: int|
                                0 <= r < 16 && !(py <= r < py + 4)
                                    ==> #[trigger] locked[r] =~= g0[r]);
                            assert(forall|r: int|
                                py + shift_y <= r < py + 4 && r < 16
                                    ==> #[trigger] locked[r] =~= g0[r]);
                        }
                    }
                }
                None => {
                    proof {
                        assert(false);
                    }
                }
            }
            to_add = to_add + self.current_level;
        }
        self.update_score(to_add);
        self.check_lines();
        self.current_piece = None;
    }

    /// Draw the next piece kind from the spawner and construct a fresh piece
    /// of that kind at its spawn position.
    pub fn create_new_tetrimino(&mut self) -> (t: Tetrimino)
        ensures
            final(self).spawner.prev_kind < 7,
            spawned_piece_of_kind(t, final(self).spawner.prev_kind as int),
            final(self).game_map == old(self).game_map,
            final(self).current_level == old(self).current_level,
            final(self).score == old(self).score,
            final(self).nb_lines == old(self).nb_lines,
            final(self).current_piece == old(self).current_piece,
    {
        let kind = self.spawner.next_kind();
        if kind == 0 {
            TetriminoI::new()
        } else if kind == 1 {
            TetriminoJ::new()
        } else if kind == 2 {
            TetriminoL::new()
        } else if kind == 3 {
            TetriminoO::new()
        } else if kind == 4 {
            TetriminoS::new()
        } else if kind == 5 {
            TetriminoZ::new()
        } else {
            TetriminoT::new()
        }
    }

    /// Apply one queued movement command: move the active piece to
    /// (`new_x`, `new_y`) if that placement is legal. A failed move that asked
    /// for a different row (a downward bump that cannot be satisfied) locks
    /// the piece at once; any other failed move is a silent no-op.
    pub fn apply_move(&mut self, new_x: isize, new_y: usize)
        requires
            old(self).wf(),
            old(self).score + 1170 <= u32::MAX,
            old(self).nb_lines + 16 <= u32::MAX,
            new_x <= isize::MAX - 3,
            new_y <= usize::MAX - 3,
            match old(self).current_piece {
                Some(p) => {
                    &&& p.y + 4 <= usize::MAX
                    &&& p.x <= isize::MAX - 3
                    &&& forall|dy: int, dx: int|
                        0 <= dy < 4 && 0 <= dx < 4 && #[trigger] p.current_mask()[dy][dx] != 0
                            && p.y + dy < 16 ==> p.x + dx >= 0
                },
                None => true,
            },
        ensures
            final(self).wf(),
            match old(self).current_piece {
                None => *final(self) == *old(self),
                Some(p) => {
                    if placement_legal(
                        p.current_mask(),
                        grid_view(old(self).game_map),
                        new_x as int,
                        new_y as int,
                    ) {
                        &&& final(self).current_piece is Some
                        &&& final(self).current_piece->0.states == p.states
                        &&& final(self).current_piece->0.current_state == p.current_state
                        &&& final(self).current_piece->0.x == new_x
                        &&& final(self).current_piece->0.y == new_y
                        &&& final(self).game_map == old(self).game_map
                        &&& final(self).score == old(self).score
                        &&& final(self).current_level == old(self).current_level
                        &&& final(self).nb_lines == old(self).nb_lines
                        &&& final(self).spawner == old(self).spawner
                    } else if new_y != p.y {
                        &&& final(self).current_piece is None
                        &&& final(self).spawner == old(self).spawner
                        &&& clear_outcome(
                            lock_spec(
                                grid_view(old(self).game_map),
                                p.current_mask(),
                                p.x as int,
                                p.y as int,
                            ),
                            old(self).score + old(self).current_level,
                            old(self).current_level as int,
                            old(self).nb_lines as int,
                            *final(self),
                        )
                    } else {
                        *final(self) == *old(self)
                    }
                },
            },
    {
        let mut lock_now = false;
        match &mut self.current_piece {
            Some(piece) => {
                let same_row = new_y == piece.y;
                if !piece.change_position(&self.game_map, new_x, new_y) && !same_row {
                    lock_now = true;
                }
            },
            None => {},
        }
        if lock_now {
            self.make_permanent();
        }
    }

    /// One forced gravity descent: move the active piece down one row, or
    /// lock it into the grid when it cannot move. Does nothing without an
    /// active piece.
    pub fn apply_gravity(&mut self)
        requires
            old(self).wf(),
            old(self).score + 1170 <= u32::MAX,
            old(self).nb_lines + 16 <= u32::MAX,
            match old(self).current_piece {
                Some(p) => {
                    &&& p.y + 4 <= usize::MAX
                    &&& p.x <= isize::MAX - 3
                    &&& forall|dy: int, dx: int|
                        0 <= dy < 4 && 0 <= dx < 4 && #[trigger] p.current_mask()[dy][dx] != 0
                            && p.y + dy < 16 ==> p.x + dx >= 0
                },
                None => true,
            },
        ensures
            final(self).wf(),
            match old(self).current_piece {
                None => *final(self) == *old(self),
                Some(p) => {
                    if placement_legal(
                        p.current_mask(),
                        grid_view(old(self).game_map),
                        p.x as int,
                        p.y + 1,
                    ) {
                        &&& final(self).current_piece is Some
                        &&& final(self).current_piece->0.states == p.states
                        &&& final(self).current_piece->0.current_state == p.current_state
                        &&& final(self).current_piece->0.x == p.x
                        &&& final(self).current_piece->0.y == p.y + 1
                        &&& final(self).game_map == old(self).game_map
                        &&& final(self).score == old(self).score
                        &&& final(self).current_level == old(self).current_level
                        &&& final(self).nb_lines == old(self).nb_lines
                        &&& final(self).spawner == old(self).spawner
                    } else {
                        &&& final(self).current_piece is None
                        &&& final(self).spawner == old(self).spawner
                        &&& clear_outcome(
                            lock_spec(
                                grid_view(old(self).game_map),
                                p.current_mask(),
                                p.x as int,
                                p.y as int,
                            ),
                            old(self).score + old(self).current_level,
                            old(self).current_level as int,
                            old(self).nb_lines as int,
                            *final(self),
                        )
                    }
                },
            },
    {
        let mut lock_now = false;
        match &mut self.current_piece {
            Some(piece) => {
                let x = piece.x;
                let y = piece.y + 1;
                if !piece.change_position(&self.game_map, x, y) {
                    lock_now = true;
                }
            },
            None => {},
        }
        if lock_now {
            self.make_permanent();
        }
    }

    /// Rotate the active piece with the fixed kick search; a rotation with no
    /// legal kick is a silent no-op. Does nothing without an active piece.
    pub fn try_rotate(&mut self)
        requires
            old(self).wf(),
            match old(self).current_piece {
                Some(p) => {
                    &&& isize::MIN + 3 <= p.x <= isize::MAX - 5
                    &&& p.y <= usize::MAX - 3
                },
                None => true,
            },
        ensures
            final(self).wf(),
            final(self).game_map == old(self).game_map,
            final(self).score == old(self).score,
            final(self).current_level == old(self).current_level,
            final(self).nb_lines == old(self).nb_lines,
            final(self).spawner == old(self).spawner,
            match old(self).current_piece {
                None => *final(self) == *old(self),
                Some(p) => {
                    &&& final(self).current_piece is Some
                    &&& final(self).current_piece->0.states == p.states
                    &&& final(self).current_piece->0.y == p.y
                    &&& (forall|i: int|
                        kick_found(
                            grid_view(p.states@[p.next_rotation()]),
                            grid_view(old(self).game_map),
                            p.x as int,
                            p.y as int,
                            i,
                        ) ==> final(self).current_piece->0.current_state as int == p.next_rotation()
                            && final(self).current_piece->0.x as int
                                == p.x + kick_offsets()[i])
                    &&& ((forall|i: int| 0 <= i < 6 ==> !placement_legal(
                        grid_view(p.states@[p.next_rotation()]),
                        grid_view(old(self).game_map),
                        p.x + kick_offsets()[i],
                        p.y as int,
                    )) ==> final(self).current_piece->0 == p)
                },
            },
    {
        match &mut self.current_piece {
            Some(piece) => {
                piece.rotate(&self.game_map);
            },
            None => {},
        }
    }

    /// Drop the active piece straight down one row at a time until it cannot
    /// move, then lock it unconditionally. Does nothing without an active
    /// piece.
    pub fn hard_drop(&mut self)
        requires
            old(self).wf(),
            old(self).score + 1170 <= u32::MAX,
            old(self).nb_lines + 16 <= u32::MAX,
            match old(self).current_piece {
                Some(p) => {
                    &&& p.y + 4 <= usize::MAX
                    &&& p.x <= isize::MAX - 3
                    &&& forall|dy: int, dx: int|
                        0 <= dy < 4 && 0 <= dx < 4 && #[trigger] p.current_mask()[dy][dx] != 0
                            && p.y + dy < 16 ==> p.x + dx >= 0
                },
                None => true,
            },
        ensures
            final(self).wf(),
            match old(self).current_piece {
                None => *final(self) == *old(self),
                Some(p) => {
                    &&& final(self).current_piece is None
                    &&& final(self).spawner == old(self).spawner
                    &&& clear_outcome(
                        lock_spec(
                            grid_view(old(self).game_map),
                            p.current_mask(),
                            p.x as int,
                            landing_row(
                                p.current_mask(),
                                grid_view(old(self).game_map),
                                p.x as int,
                                p.y as int,
                            ),
                        ),
                        old(self).score + old(self).current_level,
                        old(self).current_level as int,
                        old(self).nb_lines as int,
                        *final(self),
                    )
                },
            },
    {
        let mut drop_now = false;
        match &mut self.current_piece {
            Some(piece) => {
                let ghost p = *piece;
                let ghost mask = p.current_mask();
                let ghost g = grid_view(self.game_map);
                let x = piece.x;
                let y1 = piece.y + 1;
                let mut moved = piece.change_position(&self.game_map, x, y1);
                while moved
                    invariant
                        mask_wf(mask),
                        piece.wf(),
                        piece.states == p.states,
                        piece.current_state == p.current_state,
                        piece.current_mask() == mask,
                        piece.x == p.x,
                        piece.y >= p.y,
                        p.y + 4 <= usize::MAX,
                        p.x <= isize::MAX - 3,
                        x == p.x,
                        g == grid_view(self.game_map),
                        g.len() == 16,
                        moved ==> placement_legal(mask, g, p.x as int, piece.y as int),
                        moved ==> piece.y <= 16,
                        piece.y <= p.y + 17,
                        !moved ==> !placement_legal(mask, g, p.x as int, piece.y + 1),
                        landing_row(mask, g, p.x as int, piece.y as int)
                            == landing_row(mask, g, p.x as int, p.y as int),
                    decreases (17 - piece.y as int) + (if moved { 1int } else { 0int }),
                {
                    proof {
                        assert(piece.y < 16) by {
                            assert(exists|i: int, j: int|
                                0 <= i < 4 && 0 <= j < 4 && mask[i][j] != 0);
                            let (i, j) = choose|i: int, j: int|
                                0 <= i < 4 && 0 <= j < 4 && mask[i][j] != 0;
                            assert(cell_free(g, piece.y + i, p.x + j));
                        }
                    }
                    let ny = piece.y + 1;
                    moved = piece.change_position(&self.game_map, x, ny);
                }
                drop_now = true;
                proof {
                    assert(landing_row(mask, g, p.x as int, piece.y as int) == piece.y as int);
                }
            },
            None => {},
        }
        if drop_now {
            self.make_permanent();
        }
    }
}

} // verus!
