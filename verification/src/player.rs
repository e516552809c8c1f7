//! The player: a cursor with two flags, moved one step at a time.
//!
//! A move is the only state transition in the game. It reports, as plain
//! values, the drawing work the terminal must do: whether the status line was
//! showing and must be cleared, what belongs at the vacated cell, and whether
//! the entered cell holds an item whose description should be shown.

use vstd::prelude::*;

use crate::arena::Arena;
use crate::coord::Coord;

verus! {

/// The player's state: current location, whether the status line is showing
/// a message that the next move must clear, and whether the goal item has
/// been found.
#[derive(Debug)]
pub struct Player {
    pub loc: Coord,
    pub clear_status: bool,
    pub kitten_found: bool,
}

/// What one move asks the terminal to do.
#[derive(Debug, Clone, Copy, PartialEq, Eq, Structural)]
pub struct MoveEffects {
    /// The status line was showing and must be cleared first.
    pub status_cleared: bool,
    /// The cell the player left.
    pub vacated: Coord,
    /// What belongs at the vacated cell: an item's symbol, or the background
    /// fill when no item is placed there.
    pub vacated_symbol: Option<char>,
    /// The entered cell holds an item: show its description on the status
    /// line.
    pub entered_item: bool,
}

/// The symbol placed at `c`, if an item is there.
pub open spec fn spec_symbol_at(a: Arena, c: Coord) -> Option<char> {
    match a.spec_item_at(c) {
        Some(o) => Some(o.symbol),
        None => None,
    }
}

/// The cell a step of `(drow, dcol)` from `loc` lands on.
pub open spec fn move_target(loc: Coord, drow: i32, dcol: i32) -> Coord {
    Coord { row: (loc.row + drow) as i32, col: (loc.col + dcol) as i32 }
}

/// The stepped-to cell's coordinates stay within the machine's integer range.
pub open spec fn move_fits(loc: Coord, drow: i32, dcol: i32) -> bool {
    &&& i32::MIN <= loc.row + drow <= i32::MAX
    &&& i32::MIN <= loc.col + dcol <= i32::MAX
}

impl Player {
    /// The player state after a move by `(drow, dcol)` in arena `a`.
    pub open spec fn after_move(self, a: Arena, drow: i32, dcol: i32) -> Player {
        let nl = move_target(self.loc, drow, dcol);
        Player {
            loc: nl,
            clear_status: a.spec_item_at(nl) is Some,
            kitten_found: self.kitten_found || (a.spec_item_at(nl) is Some && nl
                == a.kitten_coord),
        }
    }

    /// The drawing work a move by `(drow, dcol)` in arena `a` asks for.
    pub open spec fn move_effects(self, a: Arena, drow: i32, dcol: i32) -> MoveEffects {
        MoveEffects {
            status_cleared: self.clear_status,
            vacated: self.loc,
            vacated_symbol: spec_symbol_at(a, self.loc),
            entered_item: a.spec_item_at(move_target(self.loc, drow, dcol)) is Some,
        }
    }

    /// A fresh player at the arena-supplied start: status clear, goal not
    /// found.
    pub fn new(loc: Coord) -> (r: Player)
        ensures
            r == (Player { loc, clear_status: false, kitten_found: false }),
    {
        Player { loc, clear_status: false, kitten_found: false }
    }

    /// Moves the cursor by `(drow, dcol)`: clears a showing status, vacates
    /// the old cell, and on the new cell raises the status flag when an item
    /// is there and the found flag when that item is the goal.
    ///
    /// The location is deliberately not clamped to the arena's interior: the
    /// command vocabulary constrains legal deltas to single orthogonal steps
    /// upstream, and this layer only asks that the stepped-to cell stay
    /// within the machine's integer range.
    pub fn moove(&mut self, arena: &Arena, drow: i32, dcol: i32) -> (eff: MoveEffects)
        requires
            move_fits(old(self).loc, drow, dcol),
        ensures
            *final(self) == old(self).after_move(*arena, drow, dcol),
            eff == old(self).move_effects(*arena, drow, dcol),
    {
        let status_cleared = self.clear_status;
        if self.clear_status {
            self.clear_status = false;
        }

        // What belongs at the cell being vacated: the item there, or the
        // background.
        let vacated = self.loc;
        let vacated_symbol = match arena.item_at(self.loc) {
            Some(obj) => Some(obj.symbol),
            None => None,
        };

        // Step.
        self.loc = Coord::new(self.loc.row + drow, self.loc.col + dcol);

        // An item on the entered cell: its description goes to the status
        // line, and the goal item ends the hunt.
        let mut entered_item = false;
        match arena.item_at(self.loc) {
            Some(_) => {
                entered_item = true;
                self.clear_status = true;
                if arena.kitten_coord == self.loc {
                    self.kitten_found = true;
                }
            },
            None => {},
        }

        MoveEffects { status_cleared, vacated, vacated_symbol, entered_item }
    }
}

/// Law: a move by `(drow, dcol)` followed by a move by the opposite delta
/// returns the location to its starting cell, and the second move restores
/// the visited cell to exactly what the arena places there — an item's
/// symbol or the background — unaffected by the visit.
pub proof fn law_move_round_trip(
    p: Player,
    a: Arena,
    drow: i32,
    dcol: i32,
    back_row: i32,
    back_col: i32,
)
    requires
        move_fits(p.loc, drow, dcol),
        drow + back_row == 0,
        dcol + back_col == 0,
    ensures
        p.after_move(a, drow, dcol).after_move(a, back_row, back_col).loc == p.loc,
        p.after_move(a, drow, dcol).move_effects(a, back_row, back_col).vacated == move_target(
            p.loc,
            drow,
            dcol,
        ),
        p.after_move(a, drow, dcol).move_effects(a, back_row, back_col).vacated_symbol
            == spec_symbol_at(a, move_target(p.loc, drow, dcol)),
{
}

/// Law: landing on an item-occupied cell raises the status flag, and the
/// immediately following move, wherever it goes, begins by clearing the
/// status before the new cell is evaluated.
pub proof fn law_status_toggle(
    p: Player,
    a: Arena,
    drow: i32,
    dcol: i32,
    drow2: i32,
    dcol2: i32,
)
    requires
        a.spec_item_at(move_target(p.loc, drow, dcol)) is Some,
    ensures
        p.after_move(a, drow, dcol).clear_status,
        p.after_move(a, drow, dcol).move_effects(a, drow2, dcol2).status_cleared,
{
}

/// Law: in a well-formed arena a move raises `kitten_found` exactly when it
/// was already raised or the move lands on the goal coordinate; landing on
/// any other cell, decoy or empty, leaves the flag as it was.
pub proof fn law_goal_detection(p: Player, a: Arena, drow: i32, dcol: i32)
    requires
        a.wf(),
    ensures
        p.after_move(a, drow, dcol).kitten_found == (p.kitten_found || move_target(
            p.loc,
            drow,
            dcol,
        ) == a.kitten_coord),
{
    let nl = move_target(p.loc, drow, dcol);
    if nl == a.kitten_coord {
        // Well-formedness places an item on the goal coordinate.
        let j = choose|j: int| 0 <= j < a.keys().len() && a.keys()[j] == a.kitten_coord;
        assert(a.objects@[j].0 == a.kitten_coord);
        crate::arena::lemma_seq_item_at_is_some(a.objects@, a.kitten_coord);
    }
}

} // verus!
