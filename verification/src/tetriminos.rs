//! The falling piece: its rotation-state masks, the placement legality test
//! against the playfield grid, movement, and rotation with horizontal kicks.

use vstd::prelude::*;

verus! {

/// One 4x4 rotation-state mask: 0 is empty, a kind's color-class ID is filled.
pub type Piece = Vec<Vec<u8>>;

/// The ordered rotation states of one piece kind.
pub type States = Vec<Piece>;

/// Mathematical view of one grid (a playfield or a mask): a sequence of rows.
pub open spec fn grid_view(g: Vec<Vec<u8>>) -> Seq<Seq<u8>> {
    Seq::new(g@.len(), |i: int| g@[i]@)
}

/// Mathematical view of a rotation-state list.
pub open spec fn states_view(s: States) -> Seq<Seq<Seq<u8>>> {
    Seq::new(s@.len(), |i: int| grid_view(s@[i]))
}

/// A well-formed mask is 4x4 and has at least one filled cell.
pub open spec fn mask_wf(m: Seq<Seq<u8>>) -> bool {
    &&& m.len() == 4
    &&& (forall|i: int| 0 <= i < 4 ==> #[trigger] m[i].len() == 4)
    &&& (exists|i: int, j: int| 0 <= i < 4 && 0 <= j < 4 && m[i][j] != 0)
}

/// Cell (row `r`, column `c`) exists in the grid and is empty.
pub open spec fn cell_free(map: Seq<Seq<u8>>, r: int, c: int) -> bool {
    &&& 0 <= r < map.len()
    &&& 0 <= c < map[r].len()
    &&& map[r][c] == 0
}

/// The placement of `mask` with its top-left corner at column `x`, row `y` is
/// legal: every filled mask cell lands on an existing empty grid cell. Empty
/// mask cells impose no constraint, so the empty fringe of a mask may sit
/// outside the grid.
pub open spec fn placement_legal(mask: Seq<Seq<u8>>, map: Seq<Seq<u8>>, x: int, y: int) -> bool {
    forall|dy: int, dx: int|
        0 <= dy < 4 && 0 <= dx < 4 && #[trigger] mask[dy][dx] != 0 ==> cell_free(map, y + dy, x + dx)
}

/// The live falling piece: its kind's rotation states, the current rotation
/// index, and the anchor position (column `x` may go negative while probing,
/// row `y` counts from the top).
pub struct Tetrimino {
    pub states: States,
    pub x: isize,
    pub y: usize,
    pub current_state: u8,
}

/// The fixed order of horizontal kicks tried on rotation.
pub open spec fn kick_offsets() -> Seq<int> {
    seq![0int, -1int, 1int, -2int, 2int, -3int]
}

/// Kick `i` is the first in the fixed order that makes the rotated placement legal.
pub open spec fn kick_found(mask: Seq<Seq<u8>>, map: Seq<Seq<u8>>, x: int, y: int, i: int) -> bool {
    &&& 0 <= i < 6
    &&& placement_legal(mask, map, x + kick_offsets()[i], y)
    &&& (forall|j: int| 0 <= j < i ==> !placement_legal(mask, map, x + #[trigger] kick_offsets()[j], y))
}

fn kick_offset(i: usize) -> (k: isize)
    requires
        i < 6,
    ensures
        k as int == kick_offsets()[i as int],
{
    match i {
        0 => 0,
        1 => -1,
        2 => 1,
        3 => -2,
        4 => 2,
        _ => -3,
    }
}

impl Tetrimino {
    /// Structural validity: between 1 and 4 rotation states, each a well-formed
    /// 4x4 mask, and the current rotation index in range.
    pub open spec fn wf(self) -> bool {
        &&& 1 <= self.states@.len() <= 4
        &&& (forall|i: int| 0 <= i < self.states@.len() ==> mask_wf(grid_view(#[trigger] self.states@[i])))
        &&& (self.current_state as int) < self.states@.len()
    }

    /// The mask of the current rotation state.
    pub open spec fn current_mask(self) -> Seq<Seq<u8>> {
        grid_view(self.states@[self.current_state as int])
    }

    /// The rotation index that a rotation steps to (wrapping past the last state).
    pub open spec fn next_rotation(self) -> int {
        if self.current_state as int + 1 < self.states@.len() {
            self.current_state as int + 1
        } else {
            0
        }
    }

    /// The legality test: every filled cell of rotation state `tmp_state`
    /// placed at (`x`, `y`) must land on an existing empty cell of `game_map`.
    pub fn test_position(&self, game_map: &Vec<Vec<u8>>, tmp_state: usize, x: isize, y: usize) -> (b: bool)
        requires
            self.wf(),
            tmp_state < self.states@.len(),
            x <= isize::MAX - 3,
            y <= usize::MAX - 3,
        ensures
            b == placement_legal(
                grid_view(self.states@[tmp_state as int]),
                grid_view(*game_map),
                x as int,
                y as int,
            ),
    {
        let ghost mask = grid_view(self.states@[tmp_state as int]);
        let ghost map = grid_view(*game_map);
        let mut dy: usize = 0;
        while dy < 4
            invariant
                self.wf(),
                tmp_state < self.states@.len(),
                x <= isize::MAX - 3,
                y <= usize::MAX - 3,
                dy <= 4,
                mask == grid_view(self.states@[tmp_state as int]),
                map == grid_view(*game_map),
                forall|py: int, px: int|
                    0 <= py < dy && 0 <= px < 4 && #[trigger] mask[py][px] != 0
                        ==> cell_free(map, y + py, x + px),
            decreases 4 - dy,
        {
            let mut dx: usize = 0;
            while dx < 4
                invariant
                    self.wf(),
                    tmp_state < self.states@.len(),
                    x <= isize::MAX - 3,
                    y <= usize::MAX - 3,
                    dy < 4,
                    dx <= 4,
                    mask == grid_view(self.states@[tmp_state as int]),
                    map == grid_view(*game_map),
                    forall|py: int, px: int|
                        0 <= py < dy && 0 <= px < 4 && #[trigger] mask[py][px] != 0
                            ==> cell_free(map, y + py, x + px),
                    forall|px: int|
                        0 <= px < dx && #[trigger] mask[dy as int][px] != 0
                            ==> cell_free(map, y + dy, x + px),
                decreases 4 - dx,
            {
                assert(mask_wf(mask));
                assert(mask[dy as int].len() == 4);
                if self.states[tmp_state][dy][dx] != 0 {
                    let cx = x + dx as isize;
                    if y + dy >= game_map.len() || cx < 0 || cx as usize >= game_map[y + dy].len()
                        || game_map[y + dy][cx as usize] != 0 {
                        assert(mask[dy as int][dx as int] != 0);
                        assert(!cell_free(map, y + dy, x + dx));
                        return false;
                    }
                    assert(cell_free(map, y + dy, x + dx));
                }
                dx += 1;
            }
            dy += 1;
        }
        true
    }

    /// The legality test for the piece's own rotation state and position.
    pub fn test_current_position(&self, game_map: &Vec<Vec<u8>>) -> (b: bool)
        requires
            self.wf(),
            self.x <= isize::MAX - 3,
            self.y <= usize::MAX - 3,
        ensures
            b == placement_legal(self.current_mask(), grid_view(*game_map), self.x as int, self.y as int),
    {
        self.test_position(game_map, self.current_state as usize, self.x, self.y)
    }

    /// Move the piece to (`new_x`, `new_y`) if that placement is legal;
    /// otherwise leave it untouched. Returns whether the move was committed.
    pub fn change_position(&mut self, game_map: &Vec<Vec<u8>>, new_x: isize, new_y: usize) -> (b: bool)
        requires
            old(self).wf(),
            new_x <= isize::MAX - 3,
            new_y <= usize::MAX - 3,
        ensures
            b == placement_legal(
                old(self).current_mask(),
                grid_view(*game_map),
                new_x as int,
                new_y as int,
            ),
            b ==> final(self).x == new_x && final(self).y == new_y,
            !b ==> *final(self) == *old(self),
            final(self).states == old(self).states,
            final(self).current_state == old(self).current_state,
            final(self).wf(),
    {
        if self.test_position(game_map, self.current_state as usize, new_x, new_y) {
            self.x = new_x;
            self.y = new_y;
            true
        } else {
            false
        }
    }

    /// Step to the next rotation state, trying the fixed kick order
    /// {0, -1, +1, -2, +2, -3} on the column; commit the first kick whose
    /// placement is legal, or leave the piece completely unchanged.
    pub fn rotate(&mut self, game_map: &Vec<Vec<u8>>)
        requires
            old(self).wf(),
            isize::MIN + 3 <= old(self).x <= isize::MAX - 5,
            old(self).y <= usize::MAX - 3,
        ensures
            final(self).states == old(self).states,
            final(self).y == old(self).y,
            final(self).wf(),
            forall|i: int|
                kick_found(
                    grid_view(old(self).states@[old(self).next_rotation()]),
                    grid_view(*game_map),
                    old(self).x as int,
                    old(self).y as int,
                    i,
                ) ==> final(self).current_state as int == old(self).next_rotation()
                    && final(self).x as int == old(self).x + kick_offsets()[i],
            (forall|i: int| 0 <= i < 6 ==> !placement_legal(
                grid_view(old(self).states@[old(self).next_rotation()]),
                grid_view(*game_map),
                old(self).x + kick_offsets()[i],
                old(self).y as int,
            )) ==> *final(self) == *old(self),
            final(self).current_state as int == old(self).next_rotation()
                || *final(self) == *old(self),
    {
        let mut tmp_state = self.current_state + 1;
        if tmp_state as usize >= self.states.len() {
            tmp_state = 0;
        }
        assert(tmp_state as int == self.next_rotation());
        let ghost nm = grid_view(self.states@[self.next_rotation()]);
        let ghost map = grid_view(*game_map);
        let mut i: usize = 0;
        while i < 6
            invariant
                *self == *old(self),
                self.wf(),
                isize::MIN + 3 <= self.x <= isize::MAX - 5,
                self.y <= usize::MAX - 3,
                i <= 6,
                tmp_state as int == self.next_rotation(),
                nm == grid_view(self.states@[self.next_rotation()]),
                map == grid_view(*game_map),
                forall|j: int| 0 <= j < i
                    ==> !placement_legal(nm, map, self.x + #[trigger] kick_offsets()[j], self.y as int),
            decreases 6 - i,
        {
            let k = kick_offset(i);
            if self.test_position(game_map, tmp_state as usize, self.x + k, self.y) {
                assert(kick_found(nm, map, self.x as int, self.y as int, i as int));
                self.current_state = tmp_state;
                self.x = self.x + k;
                return;
            }
            i += 1;
        }
    }
}

fn mask_row(a: u8, b: u8, c: u8, d: u8) -> (r: Vec<u8>)
    ensures
        r@ == seq![a, b, c, d],
{
    let mut v: Vec<u8> = Vec::new();
    v.push(a);
    v.push(b);
    v.push(c);
    v.push(d);
    proof {
        assert(v@ =~= seq![a, b, c, d]);
    }
    v
}

fn mask_of_rows(r0: Vec<u8>, r1: Vec<u8>, r2: Vec<u8>, r3: Vec<u8>) -> (m: Vec<Vec<u8>>)
    ensures
        grid_view(m) == seq![r0@, r1@, r2@, r3@],
{
    let ghost s0 = r0@;
    let ghost s1 = r1@;
    let ghost s2 = r2@;
    let ghost s3 = r3@;
    let mut m: Vec<Vec<u8>> = Vec::new();
    m.push(r0);
    m.push(r1);
    m.push(r2);
    m.push(r3);
    proof {
        assert(grid_view(m) =~= seq![s0, s1, s2, s3]);
    }
    m
}

/// The catalog masks of the I kind (color class 1).
pub open spec fn i_states() -> Seq<Seq<Seq<u8>>> {
    seq![
        seq![seq![1u8, 1, 1, 1], seq![0u8, 0, 0, 0], seq![0u8, 0, 0, 0], seq![0u8, 0, 0, 0]],
        seq![seq![0u8, 1, 0, 0], seq![0u8, 1, 0, 0], seq![0u8, 1, 0, 0], seq![0u8, 1, 0, 0]],
    ]
}

/// The catalog masks of the J kind (color class 2).
pub open spec fn j_states() -> Seq<Seq<Seq<u8>>> {
    seq![
        seq![seq![2u8, 2, 2, 0], seq![2u8, 0, 0, 0], seq![0u8, 0, 0, 0], seq![0u8, 0, 0, 0]],
        seq![seq![2u8, 2, 0, 0], seq![0u8, 2, 0, 0], seq![0u8, 2, 0, 0], seq![0u8, 0, 0, 0]],
        seq![seq![0u8, 0, 2, 0], seq![2u8, 2, 2, 0], seq![0u8, 0, 0, 0], seq![0u8, 0, 0, 0]],
        seq![seq![2u8, 0, 0, 0], seq![2u8, 0, 0, 0], seq![2u8, 2, 0, 0], seq![0u8, 0, 0, 0]],
    ]
}

/// The catalog masks of the L kind (color class 3).
pub open spec fn l_states() -> Seq<Seq<Seq<u8>>> {
    seq![
        seq![seq![3u8, 3, 3, 0], seq![0u8, 0, 3, 0], seq![0u8, 0, 0, 0], seq![0u8, 0, 0, 0]],
        seq![seq![0u8, 3, 0, 0], seq![0u8, 3, 0, 0], seq![3u8, 3, 0, 0], seq![0u8, 0, 0, 0]],
        seq![seq![3u8, 0, 0, 0], seq![3u8, 3, 3, 0], seq![0u8, 0, 0, 0], seq![0u8, 0, 0, 0]],
        seq![seq![3u8, 3, 0, 0], seq![3u8, 0, 0, 0], seq![3u8, 0, 0, 0], seq![0u8, 0, 0, 0]],
    ]
}

/// The catalog mask of the O kind (color class 4).
pub open spec fn o_states() -> Seq<Seq<Seq<u8>>> {
    seq![
        seq![seq![4u8, 4, 0, 0], seq![4u8, 4, 0, 0], seq![0u8, 0, 0, 0], seq![0u8, 0, 0, 0]],
    ]
}

/// The catalog masks of the S kind (color class 5).
pub open spec fn s_states() -> Seq<Seq<Seq<u8>>> {
    seq![
        seq![seq![0u8, 5, 5, 0], seq![5u8, 5, 0, 0], seq![0u8, 0, 0, 0], seq![0u8, 0, 0, 0]],
        seq![seq![0u8, 5, 0, 0], seq![0u8, 5, 5, 0], seq![0u8, 0, 5, 0], seq![0u8, 0, 0, 0]],
    ]
}

/// The catalog masks of the Z kind (color class 6).
pub open spec fn z_states() -> Seq<Seq<Seq<u8>>> {
    seq![
        seq![seq![6u8, 6, 0, 0], seq![0u8, 6, 6, 0], seq![0u8, 0, 0, 0], seq![0u8, 0, 0, 0]],
        seq![seq![0u8, 0, 6, 0], seq![0u8, 6, 6, 0], seq![0u8, 6, 0, 0], seq![0u8, 0, 0, 0]],
    ]
}

/// The catalog masks of the T kind (color class 7).
pub open spec fn t_states() -> Seq<Seq<Seq<u8>>> {
    seq![
        seq![seq![7u8, 7, 7, 0], seq![0u8, 7, 0, 0], seq![0u8, 0, 0, 0], seq![0u8, 0, 0, 0]],
        seq![seq![0u8, 7, 0, 0], seq![7u8, 7, 0, 0], seq![0u8, 7, 0, 0], seq![0u8, 0, 0, 0]],
        seq![seq![0u8, 7, 0, 0], seq![7u8, 7, 7, 0], seq![0u8, 0, 0, 0], seq![0u8, 0, 0, 0]],
        seq![seq![0u8, 7, 0, 0], seq![0u8, 7, 7, 0], seq![0u8, 7, 0, 0], seq![0u8, 0, 0, 0]],
    ]
}

/// The catalog masks of piece kind `k`, in the spawner's kind order
/// I, J, L, O, S, Z, T.
pub open spec fn kind_states(k: int) -> Seq<Seq<Seq<u8>>> {
    if k == 0 { i_states() }
    else if k == 1 { j_states() }
    else if k == 2 { l_states() }
    else if k == 3 { o_states() }
    else if k == 4 { s_states() }
    else if k == 5 { z_states() }
    else { t_states() }
}

/// The spawn column of piece kind `k`: 5 for O, 4 for the rest.
pub open spec fn kind_spawn_column(k: int) -> int {
    if k == 3 { 5 } else { 4 }
}

/// A freshly spawned piece of kind `k`: the kind's catalog states, anchored at
/// the kind's spawn column, row 0, rotation index 0.
pub open spec fn spawned_piece_of_kind(t: Tetrimino, k: int) -> bool {
    &&& states_view(t.states) == kind_states(k)
    &&& t.x as int == kind_spawn_column(k)
    &&& t.y == 0
    &&& t.current_state == 0
    &&& t.wf()
}

/// A constructor of one piece kind, returning a fresh piece at that kind's
/// spawn position.
pub trait TetriminoGenerator {
    /// The kind's catalog masks.
    spec fn catalog_states() -> Seq<Seq<Seq<u8>>>;

    /// The kind's spawn column.
    spec fn spawn_column() -> int;

    fn new() -> (t: Tetrimino)
        ensures
            states_view(t.states) == Self::catalog_states(),
            t.x as int == Self::spawn_column(),
            t.y == 0,
            t.current_state == 0,
            t.wf();
}

pub struct TetriminoI;

impl TetriminoGenerator for TetriminoI {
    open spec fn catalog_states() -> Seq<Seq<Seq<u8>>> {
        i_states()
    }

    open spec fn spawn_column() -> int {
        4
    }

    fn new() -> (t: Tetrimino) {
        let mut states: States = Vec::new();
        states.push(mask_of_rows(
            mask_row(1, 1, 1, 1),
            mask_row(0, 0, 0, 0),
            mask_row(0, 0, 0, 0),
            mask_row(0, 0, 0, 0),
        ));
        states.push(mask_of_rows(
            mask_row(0, 1, 0, 0),
            mask_row(0, 1, 0, 0),
            mask_row(0, 1, 0, 0),
            mask_row(0, 1, 0, 0),
        ));
        let t = Tetrimino { states, x: 4, y: 0, current_state: 0 };
        proof {
            assert(states_view(t.states) =~~= i_states());
            assert(i_states()[0][0][0] != 0);
            assert(i_states()[1][0][1] != 0);
            assert(forall|i: int| 0 <= i < t.states@.len()
                ==> mask_wf(grid_view(#[trigger] t.states@[i])));
        }
        t
    }
}

pub struct TetriminoJ;

impl TetriminoGenerator for TetriminoJ {
    open spec fn catalog_states() -> Seq<Seq<Seq<u8>>> {
        j_states()
    }

    open spec fn spawn_column() -> int {
        4
    }

    fn new() -> (t: Tetrimino) {
        let mut states: States = Vec::new();
        states.push(mask_of_rows(
            mask_row(2, 2, 2, 0),
            mask_row(2, 0, 0, 0),
            mask_row(0, 0, 0, 0),
            mask_row(0, 0, 0, 0),
        ));
        states.push(mask_of_rows(
            mask_row(2, 2, 0, 0),
            mask_row(0, 2, 0, 0),
            mask_row(0, 2, 0, 0),
            mask_row(0, 0, 0, 0),
        ));
        states.push(mask_of_rows(
            mask_row(0, 0, 2, 0),
            mask_row(2, 2, 2, 0),
            mask_row(0, 0, 0, 0),
            mask_row(0, 0, 0, 0),
        ));
        states.push(mask_of_rows(
            mask_row(2, 0, 0, 0),
            mask_row(2, 0, 0, 0),
            mask_row(2, 2, 0, 0),
            mask_row(0, 0, 0, 0),
        ));
        let t = Tetrimino { states, x: 4, y: 0, current_state: 0 };
        proof {
            assert(states_view(t.states) =~~= j_states());
            assert(j_states()[0][0][0] != 0);
            assert(j_states()[1][0][0] != 0);
            assert(j_states()[2][0][2] != 0);
            assert(j_states()[3][0][0] != 0);
            assert(forall|i: int| 0 <= i < t.states@.len()
                ==> mask_wf(grid_view(#[trigger] t.states@[i])));
        }
        t
    }
}

pub struct TetriminoL;

impl TetriminoGenerator for TetriminoL {
    open spec fn catalog_states() -> Seq<Seq<Seq<u8>>> {
        l_states()
    }

    open spec fn spawn_column() -> int {
        4
    }

    fn new() -> (t: Tetrimino) {
        let mut states: States = Vec::new();
        states.push(mask_of_rows(
            mask_row(3, 3, 3, 0),
            mask_row(0, 0, 3, 0),
            mask_row(0, 0, 0, 0),
            mask_row(0, 0, 0, 0),
        ));
        states.push(mask_of_rows(
            mask_row(0, 3, 0, 0),
            mask_row(0, 3, 0, 0),
            mask_row(3, 3, 0, 0),
            mask_row(0, 0, 0, 0),
        ));
        states.push(mask_of_rows(
            mask_row(3, 0, 0, 0),
            mask_row(3, 3, 3, 0),
            mask_row(0, 0, 0, 0),
            mask_row(0, 0, 0, 0),
        ));
        states.push(mask_of_rows(
            mask_row(3, 3, 0, 0),
            mask_row(3, 0, 0, 0),
            mask_row(3, 0, 0, 0),
            mask_row(0, 0, 0, 0),
        ));
        let t = Tetrimino { states, x: 4, y: 0, current_state: 0 };
        proof {
            assert(states_view(t.states) =~~= l_states());
            assert(l_states()[0][0][0] != 0);
            assert(l_states()[1][0][1] != 0);
            assert(l_states()[2][0][0] != 0);
            assert(l_states()[3][0][0] != 0);
            assert(forall|i: int| 0 <= i < t.states@.len()
                ==> mask_wf(grid_view(#[trigger] t.states@[i])));
        }
        t
    }
}

pub struct TetriminoO;

impl TetriminoGenerator for TetriminoO {
    open spec fn catalog_states() -> Seq<Seq<Seq<u8>>> {
        o_states()
    }

    open spec fn spawn_column() -> int {
        5
    }

    fn new() -> (t: Tetrimino) {
        let mut states: States = Vec::new();
        states.push(mask_of_rows(
            mask_row(4, 4, 0, 0),
            mask_row(4, 4, 0, 0),
            mask_row(0, 0, 0, 0),
            mask_row(0, 0, 0, 0),
        ));
        let t = Tetrimino { states, x: 5, y: 0, current_state: 0 };
        proof {
            assert(states_view(t.states) =~~= o_states());
            assert(o_states()[0][0][0] != 0);
            assert(forall|i: int| 0 <= i < t.states@.len()
                ==> mask_wf(grid_view(#[trigger] t.states@[i])));
        }
        t
    }
}

pub struct TetriminoS;

impl TetriminoGenerator for TetriminoS {
    open spec fn catalog_states() -> Seq<Seq<Seq<u8>>> {
        s_states()
    }

    open spec fn spawn_column() -> int {
        4
    }

    fn new() -> (t: Tetrimino) {
        let mut states: States = Vec::new();
        states.push(mask_of_rows(
            mask_row(0, 5, 5, 0),
            mask_row(5, 5, 0, 0),
            mask_row(0, 0, 0, 0),
            mask_row(0, 0, 0, 0),
        ));
        states.push(mask_of_rows(
            mask_row(0, 5, 0, 0),
            mask_row(0, 5, 5, 0),
            mask_row(0, 0, 5, 0),
            mask_row(0, 0, 0, 0),
        ));
        let t = Tetrimino { states, x: 4, y: 0, current_state: 0 };
        proof {
            assert(states_view(t.states) =~~= s_states());
            assert(s_states()[0][0][1] != 0);
            assert(s_states()[1][0][1] != 0);
            assert(forall|i: int| 0 <= i < t.states@.len()
                ==> mask_wf(grid_view(#[trigger] t.states@[i])));
        }
        t
    }
}

pub struct TetriminoZ;

impl TetriminoGenerator for TetriminoZ {
    open spec fn catalog_states() -> Seq<Seq<Seq<u8>>> {
        z_states()
    }

    open spec fn spawn_column() -> int {
        4
    }

    fn new() -> (t: Tetrimino) {
        let mut states: States = Vec::new();
        states.push(mask_of_rows(
            mask_row(6, 6, 0, 0),
            mask_row(0, 6, 6, 0),
            mask_row(0, 0, 0, 0),
            mask_row(0, 0, 0, 0),
        ));
        states.push(mask_of_rows(
            mask_row(0, 0, 6, 0),
            mask_row(0, 6, 6, 0),
            mask_row(0, 6, 0, 0),
            mask_row(0, 0, 0, 0),
        ));
        let t = Tetrimino { states, x: 4, y: 0, current_state: 0 };
        proof {
            assert(states_view(t.states) =~~= z_states());
            assert(z_states()[0][0][0] != 0);
            assert(z_states()[1][0][2] != 0);
            assert(forall|i: int| 0 <= i < t.states@.len()
                ==> mask_wf(grid_view(#[trigger] t.states@[i])));
        }
        t
    }
}

pub struct TetriminoT;

impl TetriminoGenerator for TetriminoT {
    open spec fn catalog_states() -> Seq<Seq<Seq<u8>>> {
        t_states()
    }

    open spec fn spawn_column() -> int {
        4
    }

    fn new() -> (t: Tetrimino) {
        let mut states: States = Vec::new();
        states.push(mask_of_rows(
            mask_row(7, 7, 7, 0),
            mask_row(0, 7, 0, 0),
            mask_row(0, 0, 0, 0),
            mask_row(0, 0, 0, 0),
        ));
        states.push(mask_of_rows(
            mask_row(0, 7, 0, 0),
            mask_row(7, 7, 0, 0),
            mask_row(0, 7, 0, 0),
            mask_row(0, 0, 0, 0),
        ));
        states.push(mask_of_rows(
            mask_row(0, 7, 0, 0),
            mask_row(7, 7, 7, 0),
            mask_row(0, 0, 0, 0),
            mask_row(0, 0, 0, 0),
        ));
        states.push(mask_of_rows(
            mask_row(0, 7, 0, 0),
            mask_row(0, 7, 7, 0),
            mask_row(0, 7, 0, 0),
            mask_row(0, 0, 0, 0),
        ));
        let t = Tetrimino { states, x: 4, y: 0, current_state: 0 };
        proof {
            assert(states_view(t.states) =~~= t_states());
            assert(t_states()[0][0][0] != 0);
            assert(t_states()[1][0][1] != 0);
            assert(t_states()[2][0][1] != 0);
            assert(t_states()[3][0][1] != 0);
            assert(forall|i: int| 0 <= i < t.states@.len()
                ==> mask_wf(grid_view(#[trigger] t.states@[i])));
        }
        t
    }
}

} // verus!
