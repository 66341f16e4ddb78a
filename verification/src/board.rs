use vstd::prelude::*;

use vstd::string::StringExecFns;

use crate::text::{push_char, digit_char, uppercase_of};

verus! {

/// What a square of the board holds: the piece on it and the moves it may make.
pub type Square = (String, Vec<String>);

/// A square seen as text: the piece and its possible moves.
pub open spec fn square_view(sq: Square) -> (Seq<char>, Seq<Seq<char>>) {
    (sq.0@, sq.1.deep_view())
}

/// The squares of a chess board, keyed by their coordinates (such as `e2`).
/// Entries are kept in the order they were inserted; for a key that was
/// inserted more than once, the last insertion is the one that counts.
#[derive(Debug)]
pub struct Board {
    entries: Vec<(String, Square)>,
}

/// The map that inserting `entries` in order into an empty map gives.
pub open spec fn entries_map(entries: Seq<(String, Square)>) -> Map<
    Seq<char>,
    (Seq<char>, Seq<Seq<char>>),
>
    decreases entries.len(),
{
    if entries.len() == 0 {
        Map::empty()
    } else {
        entries_map(entries.drop_last()).insert(
            entries.last().0@,
            square_view(entries.last().1),
        )
    }
}

impl View for Board {
    type V = Map<Seq<char>, (Seq<char>, Seq<Seq<char>>)>;

    closed spec fn view(&self) -> Self::V {
        entries_map(self.entries@)
    }
}

proof fn lemma_entries_map_last(entries: Seq<(String, Square)>, key: Seq<char>, j: int)
    requires
        -1 <= j < entries.len(),
        j >= 0 ==> entries[j].0@ == key,
        forall|i: int| j < i < entries.len() ==> (#[trigger] entries[i]).0@ != key,
    ensures
        j < 0 ==> !entries_map(entries).dom().contains(key),
        j >= 0 ==> entries_map(entries).dom().contains(key) && entries_map(entries)[key]
            == square_view(entries[j].1),
    decreases entries.len(),
{
    if entries.len() > 0 && j < entries.len() - 1 {
        let e = entries.drop_last();
        assert forall|i: int| j < i < e.len() implies (#[trigger] e[i]).0@ != key by {
            assert(e[i] == entries[i]);
        }
        lemma_entries_map_last(e, key, j);
        assert(entries[entries.len() - 1].0@ != key);
    }
}

impl Board {
    /// An empty board.
    pub fn new() -> (b: Board)
        ensures
            b@ == Map::<Seq<char>, (Seq<char>, Seq<Seq<char>>)>::empty(),
    {
        Board { entries: Vec::new() }
    }

    /// Puts `square` at `coordinates`, replacing what was there.
    pub fn insert(&mut self, coordinates: String, square: Square)
        ensures
            final(self)@ == old(self)@.insert(coordinates@, square_view(square)),
    {
        let ghost before = self.entries@;
        self.entries.push((coordinates, square));
        assert(self.entries@.drop_last() =~= before);
    }

    /// The entries of the board, in the order they were inserted.
    pub fn into_entries(self) -> (e: Vec<(String, Square)>)
        ensures
            entries_map(e@) == self@,
    {
        self.entries
    }

    /// The square at `coordinates`, if the board has one there.
    pub fn get(&self, coordinates: &String) -> (r: Option<&Square>)
        ensures
            r is Some <==> self@.dom().contains(coordinates@),
            r matches Some(sq) ==> square_view(*sq) == self@[coordinates@],
    {
        let mut i = self.entries.len();
        while i > 0
            invariant
                i <= self.entries@.len(),
                forall|k: int| i <= k < self.entries@.len() ==> (#[trigger] self.entries@[k]).0@
                    != coordinates@,
            decreases i,
        {
            i = i - 1;
            if self.entries[i].0 == *coordinates {
                proof {
                    lemma_entries_map_last(self.entries@, coordinates@, i as int);
                }
                return Some(&self.entries[i].1);
            }
        }
        proof {
            lemma_entries_map_last(self.entries@, coordinates@, -1);
        }
        None
    }
}

/// The board as text: each set of coordinates mapped to the piece and its moves.
pub type BoardView = Map<Seq<char>, (Seq<char>, Seq<Seq<char>>)>;

/// The text of one cell: the piece followed by a space, or two spaces when
/// the board holds nothing at `coordinates`.
pub open spec fn cell_text(board: BoardView, coordinates: Seq<char>) -> Seq<char> {
    if board.dom().contains(coordinates) {
        board[coordinates].0 + seq![' ']
    } else {
        seq![' ', ' ']
    }
}

/// The cells of the row named `row`, one per column, left to right.
pub open spec fn row_cells(board: BoardView, columns: Seq<char>, row: char) -> Seq<char>
    decreases columns.len(),
{
    if columns.len() == 0 {
        seq![]
    } else {
        row_cells(board, columns.drop_last(), row) + cell_text(board, seq![columns.last(), row])
    }
}

/// The line of the row named `row`, drawn as the `index`-th line from the top:
/// the rank `8 - index`, a space, the cells and a line break.
pub open spec fn row_line(board: BoardView, columns: Seq<char>, row: char, index: int) -> Seq<
    char,
> {
    seq![digit_char(8 - index), ' '] + row_cells(board, columns, row) + seq!['\n']
}

/// The lines of the rows `top_down`, given from the top line down.
pub open spec fn rows_text(board: BoardView, columns: Seq<char>, top_down: Seq<char>) -> Seq<char>
    decreases top_down.len(),
{
    if top_down.len() == 0 {
        seq![]
    } else {
        rows_text(board, columns, top_down.drop_last()) + row_line(
            board,
            columns,
            top_down.last(),
            top_down.len() - 1,
        )
    }
}

/// The column names in upper case, each followed by a space.
pub open spec fn column_header(columns: Seq<char>) -> Seq<char>
    decreases columns.len(),
{
    if columns.len() == 0 {
        seq![]
    } else {
        column_header(columns.drop_last()) + uppercase_of(columns.last()) + seq![' ']
    }
}

/// The whole board drawn as text: the rows from the last one named in `rows`
/// down to the first, then two spaces and the column header.
pub open spec fn board_text(board: BoardView, columns: Seq<char>, rows: Seq<char>) -> Seq<char> {
    rows_text(board, columns, rows.reverse()) + seq![' ', ' '] + column_header(columns)
}

/// Appends to `out` the cells of the row named `row`.
pub fn push_row_cells(out: &mut String, board: &Board, columns: &Vec<char>, row: char)
    ensures
        final(out)@ == old(out)@ + row_cells(board@, columns@, row),
{
    let ghost start = out@;
    let mut j: usize = 0;
    assert(columns@.take(0) =~= seq![]);
    while j < columns.len()
        invariant
            j <= columns@.len(),
            out@ == start + row_cells(board@, columns@.take(j as int), row),
        decreases columns@.len() - j,
    {
        let mut coordinates = String::new();
        push_char(&mut coordinates, columns[j]);
        push_char(&mut coordinates, row);
        assert(coordinates@ =~= seq![columns@[j as int], row]);
        proof {
            assert(columns@.take(j + 1).drop_last() =~= columns@.take(j as int));
        }
        let ghost before = out@;
        match board.get(&coordinates) {
            Some(square) => {
                out.append(square.0.as_str());
                push_char(out, ' ');
            },
            None => {
                push_char(out, ' ');
                push_char(out, ' ');
            },
        }
        assert(out@ =~= before + cell_text(board@, coordinates@));
        j = j + 1;
    }
    assert(columns@.take(j as int) =~= columns@);
}

} // verus!
