//! The arena: a bounded grid with one goal item and several decoy items
//! placed at uniformly random, pairwise distinct interior cells.
//!
//! Construction enumerates every interior cell, shuffles that pool together
//! with the decoy description list, and assigns the first shuffled cell to the
//! player, the second to the goal item, and the following cells to the decoys.
//! The well-formedness predicate `Arena::wf` captures the session invariants:
//! distinct placement keys, the goal coordinate among them, and every placed
//! item strictly inside the playable interior.

use vstd::prelude::*;

use crate::coord::Coord;

verus! {

/// Upper bound on the playable interior height.
pub const FIELD_MAX_ROWS: i32 = 64;

/// Upper bound on the playable interior width.
pub const FIELD_MAX_COLS: i32 = 128;

/// Ceiling on how many decoy items one arena places.
pub const MAX_NKIS: usize = 100;

/// A placed item: a display symbol and a one-line description.
#[derive(Debug)]
pub struct Object {
    pub symbol: char,
    pub desc: String,
}

/// The symbol alphabet: exactly the printable, non-space, non-control ASCII
/// characters.
pub open spec fn displayable(c: char) -> bool {
    33 <= c as u32 <= 126
}

impl Object {
    /// Builds an item carrying the given description, with a symbol chosen
    /// uniformly at random from the displayable alphabet.
    pub fn new(desc: &str) -> (r: Object)
        ensures
            displayable(r.symbol),
            r.desc@ == desc@,
    {
        let mut symbols: Vec<char> = Vec::new();
        let mut b: u8 = 33;
        while b < 127
            invariant
                33 <= b <= 127,
                symbols@.len() == b - 33,
                forall|i: int| 0 <= i < symbols@.len() ==> displayable(#[trigger] symbols@[i]),
            decreases 127 - b,
        {
            let c = b as char;
            assert(c as u32 == b);
            symbols.push(c);
            b = b + 1;
        }
        let chosen = crate::rng::choice_char(&symbols);
        Object { symbol: chosen.unwrap(), desc: desc.to_owned() }
    }
}

/// The first item placed at `c`, if any: the placement is keyed by coordinate.
pub open spec fn seq_item_at(s: Seq<(Coord, Object)>, c: Coord) -> Option<Object>
    decreases s.len(),
{
    if s.len() == 0 {
        None
    } else if s[0].0 == c {
        Some(s[0].1)
    } else {
        seq_item_at(s.drop_first(), c)
    }
}

pub proof fn lemma_seq_item_at_found(s: Seq<(Coord, Object)>, c: Coord, i: int)
    requires
        0 <= i < s.len(),
        s[i].0 == c,
        forall|j: int| 0 <= j < i ==> (#[trigger] s[j]).0 != c,
    ensures
        seq_item_at(s, c) == Some(s[i].1),
    decreases i,
{
    if i > 0 {
        assert(s[0].0 != c);
        assert(s.drop_first()[i - 1] == s[i]);
        assert(forall|j: int| 0 <= j < i - 1 ==> (#[trigger] s.drop_first()[j]).0 != c) by {
            assert(forall|j: int| 0 <= j < i - 1 ==> s.drop_first()[j] == s[j + 1]);
        }
        lemma_seq_item_at_found(s.drop_first(), c, i - 1);
    }
}

pub proof fn lemma_seq_item_at_none(s: Seq<(Coord, Object)>, c: Coord)
    requires
        forall|j: int| 0 <= j < s.len() ==> (#[trigger] s[j]).0 != c,
    ensures
        seq_item_at(s, c) is None,
    decreases s.len(),
{
    if s.len() > 0 {
        assert(forall|j: int| 0 <= j < s.len() - 1 ==> s.drop_first()[j] == s[j + 1]);
        lemma_seq_item_at_none(s.drop_first(), c);
    }
}

pub proof fn lemma_seq_item_at_is_some(s: Seq<(Coord, Object)>, c: Coord)
    ensures
        (seq_item_at(s, c) is Some) <==> (exists|j: int| 0 <= j < s.len() && (#[trigger] s[j]).0
            == c),
    decreases s.len(),
{
    if s.len() > 0 && s[0].0 != c {
        assert(forall|j: int| 0 <= j < s.len() - 1 ==> s.drop_first()[j] == s[j + 1]);
        lemma_seq_item_at_is_some(s.drop_first(), c);
        if seq_item_at(s, c) is Some {
            let j = choose|j: int| 0 <= j < s.drop_first().len() && s.drop_first()[j].0 == c;
            assert(s[j + 1].0 == c);
        }
        if exists|j: int| 0 <= j < s.len() && (#[trigger] s[j]).0 == c {
            let j = choose|j: int| 0 <= j < s.len() && (#[trigger] s[j]).0 == c;
            assert(s.drop_first()[j - 1].0 == c);
        }
    }
}

/// Row-major order on coordinates; the cell enumeration below produces
/// strictly increasing coordinates, which makes them pairwise distinct.
spec fn coord_lt(a: Coord, b: Coord) -> bool {
    a.row < b.row || (a.row == b.row && a.col < b.col)
}

/// The description texts of a list, in order.
pub open spec fn desc_views(descs: Seq<String>) -> Seq<Seq<char>> {
    descs.map_values(|s: String| s@)
}

/// Every placement entry past the first (the goal item) carries one of the
/// supplied decoy descriptions.
pub open spec fn decoys_from(objs: Seq<(Coord, Object)>, descs: Seq<String>) -> bool {
    forall|i: int|
        1 <= i < objs.len() ==> desc_views(descs).contains((#[trigger] objs[i]).1.desc@)
}

/// The description texts carried by the decoy entries — every placement
/// entry past the first — in placement order.
pub open spec fn decoy_desc_views(objs: Seq<(Coord, Object)>) -> Seq<Seq<char>> {
    objs.subrange(1, objs.len() as int).map_values(|p: (Coord, Object)| p.1.desc@)
}

/// Taking the description texts of two lists that are permutations of one
/// another yields permutations of one another.
proof fn lemma_desc_views_to_multiset(s1: Seq<String>, s2: Seq<String>)
    requires
        s1.to_multiset() == s2.to_multiset(),
    ensures
        desc_views(s1).to_multiset() == desc_views(s2).to_multiset(),
    decreases s1.len(),
{
    broadcast use vstd::seq_lib::group_to_multiset_ensures;
    broadcast use vstd::multiset::group_multiset_axioms;

    if s1.len() == 0 {
        assert(s1.to_multiset().len() == 0);
        assert(s2.len() == 0);
        assert(desc_views(s1) =~= desc_views(s2));
    } else {
        let x = s1[0];
        assert(s1.contains(x));
        assert(s2.to_multiset().count(x) > 0);
        assert(s2.contains(x));
        let j = choose|j: int| 0 <= j < s2.len() && s2[j] == x;
        let t1 = s1.remove(0);
        let t2 = s2.remove(j);
        assert(t1.to_multiset() == s1.to_multiset().remove(x));
        assert(t2.to_multiset() == s2.to_multiset().remove(x));
        lemma_desc_views_to_multiset(t1, t2);
        assert(desc_views(t1) =~= desc_views(s1).remove(0));
        assert(desc_views(t2) =~= desc_views(s2).remove(j));
        let m1 = desc_views(s1).to_multiset();
        let m2 = desc_views(s2).to_multiset();
        assert(desc_views(s1).remove(0).to_multiset() == m1.remove(x@));
        assert(desc_views(s2).remove(j).to_multiset() == m2.remove(x@));
        assert(m1.remove(x@) == m2.remove(x@));
        assert(desc_views(s1)[0] == x@ && desc_views(s1).contains(x@));
        assert(m1.count(x@) > 0);
        assert(desc_views(s2)[j] == x@ && desc_views(s2).contains(x@));
        assert(m2.count(x@) > 0);
        assert(m1 =~= m2) by {
            assert forall|y: Seq<char>| true implies m1.count(y) == m2.count(y) by {
                if y == x@ {
                    assert(m1.remove(x@).count(y) == m1.count(y) - 1);
                    assert(m2.remove(x@).count(y) == m2.count(y) - 1);
                } else {
                    assert(m1.remove(x@).count(y) == m1.count(y));
                    assert(m2.remove(x@).count(y) == m2.count(y));
                }
            }
        }
    }
}

/// A prefix of a sequence holds no more of any element than the whole.
proof fn lemma_take_to_multiset_subset<A>(s: Seq<A>, n: int)
    requires
        0 <= n <= s.len(),
    ensures
        s.take(n).to_multiset().subset_of(s.to_multiset()),
{
    broadcast use vstd::multiset::group_multiset_axioms;

    assert(s =~= s.take(n) + s.skip(n));
    vstd::seq_lib::lemma_multiset_commutative(s.take(n), s.skip(n));
}

/// An interior dimension: the available extent clamped to a ceiling, and
/// never negative.
pub open spec fn clamp_interior(avail: int, max: int) -> int {
    let d = if avail < max {
        avail
    } else {
        max
    };
    if d < 0 {
        0
    } else {
        d
    }
}

/// Interior rows offered by a terminal of extent `top_lr`: two rows are kept
/// back for the status region, and the result is clamped to the ceiling.
pub open spec fn spec_interior_rows(top_lr: Coord) -> int {
    clamp_interior(top_lr.row - 2, FIELD_MAX_ROWS as int)
}

/// Interior columns offered by a terminal of extent `top_lr`.
pub open spec fn spec_interior_cols(top_lr: Coord) -> int {
    clamp_interior(top_lr.col as int, FIELD_MAX_COLS as int)
}

/// How many decoys a description list of length `n` yields.
pub open spec fn spec_nnkis(n: int) -> int {
    if n < MAX_NKIS as int {
        n
    } else {
        MAX_NKIS as int
    }
}

/// The playable interior size, as clamped from the terminal extent `top_lr`.
pub fn field_extent(top_lr: Coord) -> (r: Coord)
    ensures
        r.row == spec_interior_rows(top_lr),
        r.col == spec_interior_cols(top_lr),
{
    let rows: i32 = if top_lr.row >= 3 {
        if top_lr.row - 2 < FIELD_MAX_ROWS {
            top_lr.row - 2
        } else {
            FIELD_MAX_ROWS
        }
    } else {
        0
    };
    let cols: i32 = if top_lr.col >= 1 {
        if top_lr.col < FIELD_MAX_COLS {
            top_lr.col
        } else {
            FIELD_MAX_COLS
        }
    } else {
        0
    };
    Coord::new(rows, cols)
}

/// Why an arena could not be built: the interior offers fewer cells than the
/// player, the goal and the decoys together need.
#[derive(Debug, Clone, Copy, PartialEq, Eq, Structural)]
pub enum ArenaError {
    FieldTooSmall,
}

/// One game session's board: the field extent, the goal coordinate, the
/// placement of every item, and the display attribute items render with.
#[derive(Debug)]
pub struct Arena {
    /// Extent of the field window: the interior plus the one-cell border.
    pub lr: Coord,
    pub kitten_coord: Coord,
    pub objects: Vec<(Coord, Object)>,
    pub foreground: u32,
}

impl Arena {
    /// Playable interior height.
    pub open spec fn interior_rows(self) -> int {
        self.lr.row - 2
    }

    /// Playable interior width.
    pub open spec fn interior_cols(self) -> int {
        self.lr.col - 2
    }

    /// Strictly inside the playable area: the one-cell border is excluded.
    pub open spec fn in_interior(self, c: Coord) -> bool {
        &&& 1 <= c.row <= self.interior_rows()
        &&& 1 <= c.col <= self.interior_cols()
    }

    /// The coordinates that hold an item, in placement order.
    pub open spec fn keys(self) -> Seq<Coord> {
        self.objects@.map_values(|p: (Coord, Object)| p.0)
    }

    /// The item placed at `c`, if any.
    pub open spec fn spec_item_at(self, c: Coord) -> Option<Object> {
        seq_item_at(self.objects@, c)
    }

    /// Session invariants: no two items share a cell, the goal item is
    /// placed, and every item lies strictly inside the interior.
    pub open spec fn wf(self) -> bool {
        &&& self.keys().no_duplicates()
        &&& self.keys().contains(self.kitten_coord)
        &&& forall|i: int|
            0 <= i < self.objects@.len() ==> self.in_interior((#[trigger] self.objects@[i]).0)
    }

    /// Looks up the item placed at `c`.
    pub fn item_at(&self, c: Coord) -> (r: Option<&Object>)
        ensures
            match r {
                Some(o) => self.spec_item_at(c) == Some(*o),
                None => self.spec_item_at(c) is None,
            },
    {
        let mut i: usize = 0;
        while i < self.objects.len()
            invariant
                0 <= i <= self.objects@.len(),
                forall|j: int| 0 <= j < i ==> (#[trigger] self.objects@[j]).0 != c,
            decreases self.objects@.len() - i,
        {
            if self.objects[i].0 == c {
                proof {
                    lemma_seq_item_at_found(self.objects@, c, i as int);
                }
                return Some(&self.objects[i].1);
            }
            i = i + 1;
        }
        proof {
            lemma_seq_item_at_none(self.objects@, c);
        }
        None
    }

    /// Builds one session's board from the terminal extent, the decoy
    /// description list, and the display attribute items should render with.
    ///
    /// Every interior cell is enumerated and the pool shuffled; the first
    /// shuffled cell becomes the player start, the second the goal item, and
    /// the next `min(descs.len(), MAX_NKIS)` cells the decoys, paired with a
    /// shuffled permutation of the descriptions. Fails exactly when the
    /// interior offers fewer cells than that needs.
    #[verifier::loop_isolation(false)]
    pub fn new(top_lr: Coord, descs: Vec<String>, foreground: u32) -> (r: Result<
        (Coord, Arena),
        ArenaError,
    >)
        ensures
            r is Ok <==> spec_interior_rows(top_lr) * spec_interior_cols(top_lr) >= 2
                + spec_nnkis(descs@.len() as int),
            r is Err ==> r->Err_0 == ArenaError::FieldTooSmall,
            r is Ok ==> ({
                let (start, arena) = r->Ok_0;
                &&& arena.wf()
                &&& arena.lr.row == spec_interior_rows(top_lr) + 2
                &&& arena.lr.col == spec_interior_cols(top_lr) + 2
                &&& arena.foreground == foreground
                &&& arena.objects@.len() == 1 + spec_nnkis(descs@.len() as int)
                &&& arena.in_interior(start)
                &&& arena.spec_item_at(start) is None
                &&& arena.spec_item_at(arena.kitten_coord) is Some
                &&& arena.spec_item_at(arena.kitten_coord)->0.desc@ == "your beautiful kitten!"@
                &&& forall|i: int|
                    0 <= i < arena.objects@.len() ==> displayable(
                        (#[trigger] arena.objects@[i]).1.symbol,
                    )
                &&& decoys_from(arena.objects@, descs@)
                &&& decoy_desc_views(arena.objects@).to_multiset().subset_of(
                    desc_views(descs@).to_multiset(),
                )
            }),
    {
        let ext = field_extent(top_lr);
        let rows = ext.row;
        let cols = ext.col;

        // Enumerate every interior cell, row-major.
        let mut coords: Vec<Coord> = Vec::new();
        let mut row: i32 = 1;
        while row <= rows
            invariant
                1 <= row <= rows + 1,
                coords@.len() == (row - 1) * cols,
                forall|i: int| 0 <= i < coords@.len() ==> 1 <= (#[trigger] coords@[i]).row < row,
                forall|i: int| 0 <= i < coords@.len() ==> 1 <= (#[trigger] coords@[i]).col <= cols,
                forall|i: int, j: int|
                    0 <= i < j < coords@.len() ==> coord_lt(
                        #[trigger] coords@[i],
                        #[trigger] coords@[j],
                    ),
            decreases rows - row + 1,
        {
            let mut col: i32 = 1;
            while col <= cols
                invariant
                    1 <= col <= cols + 1,
                    coords@.len() == (row - 1) * cols + (col - 1),
                    forall|i: int|
                        0 <= i < coords@.len() ==> 1 <= (#[trigger] coords@[i]).row <= row,
                    forall|i: int|
                        0 <= i < coords@.len() ==> 1 <= (#[trigger] coords@[i]).col <= cols,
                    forall|i: int|
                        0 <= i < coords@.len() ==> ((#[trigger] coords@[i]).row < row
                            || coords@[i].col < col),
                    forall|i: int, j: int|
                        0 <= i < j < coords@.len() ==> coord_lt(
                            #[trigger] coords@[i],
                            #[trigger] coords@[j],
                        ),
                decreases cols - col + 1,
            {
                coords.push(Coord::new(row, col));
                col = col + 1;
            }
            proof {
                assert((row - 1) * cols + cols == row * cols) by (nonlinear_arith);
            }
            row = row + 1;
        }
        assert(coords@.len() == rows * cols);
        assert(coords@.no_duplicates()) by {
            assert forall|i: int, j: int|
                0 <= i < coords@.len() && 0 <= j < coords@.len() && i != j implies coords@[i]
                != coords@[j] by {
                if i < j {
                    assert(coord_lt(coords@[i], coords@[j]));
                } else {
                    assert(coord_lt(coords@[j], coords@[i]));
                }
            }
        }

        let nnkis: usize = if descs.len() < MAX_NKIS {
            descs.len()
        } else {
            MAX_NKIS
        };
        if coords.len() < nnkis + 2 {
            return Err(ArenaError::FieldTooSmall);
        }

        // Shuffle the cell pool: what comes out is a permutation, so the
        // cells stay pairwise distinct and inside the interior.
        let ghost coords0: Seq<Coord> = coords@;
        crate::rng::shuffle(&mut coords);
        proof {
            broadcast use vstd::seq_lib::group_to_multiset_ensures;

            coords0.lemma_multiset_has_no_duplicates();
            assert forall|x: Coord|
                coords@.to_multiset().contains(x) implies coords@.to_multiset().count(x)
                == 1 by {
                assert(coords0.to_multiset().count(x) > 0);
                assert(coords0.contains(x));
            }
            coords@.lemma_multiset_has_no_duplicates_conv();
            assert forall|i: int| 0 <= i < coords@.len() implies 1 <= (#[trigger] coords@[i]).row
                <= rows && 1 <= coords@[i].col <= cols by {
                assert(coords@.contains(coords@[i]));
                assert(coords0.to_multiset().count(coords@[i]) > 0);
                assert(coords0.contains(coords@[i]));
                let j = choose|j: int| 0 <= j < coords0.len() && coords0[j] == coords@[i];
            }
        }

        // Shuffle the descriptions: every decoy description is one of the
        // supplied ones.
        let ghost descs0: Seq<String> = descs@;
        let mut descs = descs;
        crate::rng::shuffle(&mut descs);

        // Assign: the first cell to the player, the second to the goal item,
        // the following cells to the decoys, paired index-for-index.
        let player_coord = coords[0];
        let kitten_coord = coords[1];
        let mut objects: Vec<(Coord, Object)> = Vec::new();
        let kitten_obj = Object::new("your beautiful kitten!");
        objects.push((kitten_coord, kitten_obj));
        let mut i: usize = 0;
        while i < nnkis
            invariant
                0 <= i <= nnkis,
                objects@.len() == i + 1,
                forall|k: int|
                    0 <= k < objects@.len() ==> (#[trigger] objects@[k]).0 == coords@[k + 1],
                forall|k: int|
                    0 <= k < objects@.len() ==> displayable((#[trigger] objects@[k]).1.symbol),
                objects@[0].1.desc@ == "your beautiful kitten!"@,
                forall|k: int|
                    1 <= k < objects@.len() ==> (#[trigger] objects@[k]).1.desc@ == descs@[k - 1]@,
            decreases nnkis - i,
        {
            let obj = Object::new(descs[i].as_str());
            objects.push((coords[2 + i], obj));
            i = i + 1;
        }

        let lr = Coord::new(rows + 2, cols + 2);
        let arena = Arena { lr, kitten_coord, objects, foreground };
        proof {
            assert(arena.keys().no_duplicates()) by {
                assert forall|k1: int, k2: int|
                    0 <= k1 < arena.keys().len() && 0 <= k2 < arena.keys().len() && k1
                    != k2 implies arena.keys()[k1] != arena.keys()[k2] by {
                    assert(arena.keys()[k1] == coords@[k1 + 1]);
                    assert(arena.keys()[k2] == coords@[k2 + 1]);
                }
            }
            assert(arena.keys()[0] == arena.kitten_coord);
            assert(arena.keys().contains(arena.kitten_coord));
            assert forall|k: int| 0 <= k < arena.objects@.len() implies arena.in_interior(
                (#[trigger] arena.objects@[k]).0,
            ) by {
                assert(arena.objects@[k].0 == coords@[k + 1]);
            }
            assert forall|k: int| 0 <= k < arena.objects@.len() implies (
            #[trigger] arena.objects@[k]).0 != player_coord by {
                assert(arena.objects@[k].0 == coords@[k + 1]);
                assert(coords@[k + 1] != coords@[0]);
            }
            lemma_seq_item_at_none(arena.objects@, player_coord);
            lemma_seq_item_at_found(arena.objects@, arena.kitten_coord, 0);
            assert forall|i: int| 1 <= i < arena.objects@.len() implies desc_views(
                descs0,
            ).contains((#[trigger] arena.objects@[i]).1.desc@) by {
                broadcast use vstd::seq_lib::group_to_multiset_ensures;

                assert(arena.objects@[i].1.desc@ == descs@[i - 1]@);
                assert(descs@.contains(descs@[i - 1]));
                assert(descs0.to_multiset().count(descs@[i - 1]) > 0);
                assert(descs0.contains(descs@[i - 1]));
                let j = choose|j: int| 0 <= j < descs0.len() && descs0[j] == descs@[i - 1];
                assert(desc_views(descs0)[j] == descs0[j]@);
                assert(desc_views(descs0).contains(arena.objects@[i].1.desc@));
            }
            assert(decoys_from(arena.objects@, descs0));
            // The decoys pair index-for-index with a prefix of the shuffled
            // list, so as a multiset they are contained in the supplied list.
            assert(decoy_desc_views(arena.objects@) =~= desc_views(descs@).take(
                nnkis as int,
            )) by {
                assert forall|k: int| 0 <= k < nnkis implies decoy_desc_views(arena.objects@)[k]
                    == desc_views(descs@).take(nnkis as int)[k] by {
                    assert(arena.objects@[k + 1].1.desc@ == descs@[k]@);
                }
            }
            lemma_take_to_multiset_subset(desc_views(descs@), nnkis as int);
            lemma_desc_views_to_multiset(descs@, descs0);
            assert(decoy_desc_views(arena.objects@).to_multiset().subset_of(
                desc_views(descs0).to_multiset(),
            ));
        }
        Ok((player_coord, arena))
    }
}

} // verus!
