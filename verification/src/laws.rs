use vstd::prelude::*;

use uuid::Uuid;

use crate::client::{
    authorization_outcome, bad_game_index, command_request, listed_position, listing, refuses,
    ClientView,
};
use crate::request::RequestView;
use crate::board::{board_text, column_header, row_cells, rows_text, BoardView};
use crate::text::{i32_from_text, is_whitespace_char, uppercase_of, words};

verus! {

/// After a listing of `game_ids` (of at most 2^31 games, so that every
/// position has an `i32` of its own), `join_game k` (with `k` written in any
/// way that parses as an `i32`) asks to join the `k`-th game of the listing
/// when there is one, and stands for no request otherwise.
pub proof fn lemma_join_listed_game(c: ClientView, game_ids: Seq<Uuid>, input: Seq<char>, k: i32)
    requires
        c.awaiting_opponent_games == listing(game_ids),
        game_ids.len() <= 0x8000_0000,
        words(input).len() == 2,
        words(input)[0] == "join_game"@,
        i32_from_text(words(input)[1]) == Some(k),
    ensures
        command_request(c, input) == if 0 <= k < game_ids.len() {
            Some(RequestView::JoinGame { game_id: game_ids[k as int], user_id: c.user_id })
        } else {
            None
        },
{
    let m = (#[verifier::truncate] (k as u32)) as int;
    assert(0 <= k ==> k as u32 == k) by (bit_vector);
    assert(k < 0 ==> k as u32 >= 0x8000_0000u32) by (bit_vector);
    if 0 <= k < game_ids.len() {
        assert((game_ids.len() - 1 - m) / 0x1_0000_0000 == 0);
        assert(listed_position(k, game_ids.len()) == Some(k as int));
    }
    reveal_strlit("join_game");
    reveal_strlit("create_game");
    assert("join_game"@ != "create_game"@) by {
        assert("join_game"@[0] != "create_game"@[0]);
    }
}

/// In a well-formed session, no request that a command line stands for is
/// refused by the router: a move is only read while the session is in a
/// game, and then over an open websocket.
pub proof fn lemma_commands_are_not_refused(c: ClientView, input: Seq<char>)
    requires
        c.wf(),
        command_request(c, input) is Some,
    ensures
        !refuses(c, command_request(c, input)->Some_0),
{
}

/// While the session plays in game `g`, `make_move <from> <to>` is a move in
/// `g`, by the session's user.
pub proof fn lemma_moves_go_to_current_game(c: ClientView, input: Seq<char>, g: Uuid)
    requires
        c.current_active_game_id == Some(g),
        words(input).len() == 3,
        words(input)[0] == "make_move"@,
    ensures
        command_request(c, input) == Some(
            RequestView::MakeMove {
                game_id: g,
                user_id: c.user_id,
                from: words(input)[1],
                to: words(input)[2],
            },
        ),
{
}

proof fn lemma_words_trailing_whitespace(s: Seq<char>, ws: char)
    requires
        is_whitespace_char(ws),
    ensures
        words(s.push(ws)) == words(s),
    decreases s.len(),
{
    let t = s.push(ws);
    if s.len() == 0 {
        assert(t.drop_first() =~= Seq::<char>::empty());
        assert(words(t.drop_first()) == Seq::<Seq<char>>::empty());
        assert(t[0] == ws);
        assert(words(t) == Seq::<Seq<char>>::empty());
    } else {
        assert(t.drop_first() =~= s.drop_first().push(ws));
        lemma_words_trailing_whitespace(s.drop_first(), ws);
        assert(t[0] == s[0]);
        if s.len() == 1 {
            assert(s.drop_first() =~= Seq::<char>::empty());
            assert(t[1] == ws);
            assert(words(s.drop_first()) == Seq::<Seq<char>>::empty());
            assert(words(t.drop_first()) == Seq::<Seq<char>>::empty());
        } else {
            assert(t[1] == s[1]);
        }
        assert(words(t.drop_first()) == words(s.drop_first()));
    }
}

/// Whitespace around a command line does not change what it stands for.
pub proof fn lemma_surrounding_whitespace(
    c: ClientView,
    input: Seq<char>,
    before: char,
    after: char,
)
    requires
        is_whitespace_char(before),
        is_whitespace_char(after),
    ensures
        command_request(c, seq![before] + input + seq![after]) == command_request(c, input),
{
    let padded = seq![before] + input + seq![after];
    assert(padded.drop_first() =~= input.push(after));
    lemma_words_trailing_whitespace(input, after);
    assert(words(padded) == words(input));
}

proof fn lemma_flatten_new_push<A>(n: int, f: spec_fn(int) -> Seq<A>)
    requires
        0 <= n,
    ensures
        Seq::new((n + 1) as nat, f).flatten() == Seq::new(n as nat, f).flatten() + f(n),
{
    assert(Seq::new((n + 1) as nat, f) =~= Seq::new(n as nat, f).push(f(n)));
    Seq::new(n as nat, f).lemma_flatten_push(f(n));
}

spec fn cells_of(board: BoardView, columns: Seq<char>, row: char) -> Seq<Seq<char>> {
    Seq::new(
        columns.len(),
        |j: int|
            if board.contains_key(seq![columns[j], row]) {
                board[seq![columns[j], row]].0 + seq![' ']
            } else {
                seq![' ', ' ']
            },
    )
}

proof fn lemma_row_cells_flat(board: BoardView, columns: Seq<char>, row: char)
    ensures
        row_cells(board, columns, row) == cells_of(board, columns, row).flatten(),
    decreases columns.len(),
{
    if columns.len() == 0 {
        assert(cells_of(board, columns, row) =~= Seq::<Seq<char>>::empty());
    } else {
        let n = columns.len() - 1;
        let e = columns.drop_last();
        lemma_row_cells_flat(board, e, row);
        let f = |j: int|
            if board.contains_key(seq![columns[j], row]) {
                board[seq![columns[j], row]].0 + seq![' ']
            } else {
                seq![' ', ' ']
            };
        assert(cells_of(board, e, row) =~= Seq::new(n as nat, f));
        assert(cells_of(board, columns, row) =~= Seq::new((n + 1) as nat, f));
        lemma_flatten_new_push(n, f);
    }
}

spec fn lines_of(board: BoardView, columns: Seq<char>, top_down: Seq<char>) -> Seq<Seq<char>> {
    Seq::new(
        top_down.len(),
        |i: int|
            seq![('8' as int - i) as char, ' '] + cells_of(board, columns, top_down[i]).flatten()
                + seq!['\n'],
    )
}

proof fn lemma_rows_text_flat(board: BoardView, columns: Seq<char>, top_down: Seq<char>)
    ensures
        rows_text(board, columns, top_down) == lines_of(board, columns, top_down).flatten(),
    decreases top_down.len(),
{
    if top_down.len() == 0 {
        assert(lines_of(board, columns, top_down) =~= Seq::<Seq<char>>::empty());
    } else {
        let n = top_down.len() - 1;
        let e = top_down.drop_last();
        lemma_rows_text_flat(board, columns, e);
        lemma_row_cells_flat(board, columns, top_down.last());
        let f = |i: int|
            seq![('8' as int - i) as char, ' '] + cells_of(board, columns, top_down[i]).flatten()
                + seq!['\n'];
        assert(lines_of(board, columns, e) =~= Seq::new(n as nat, f));
        assert(lines_of(board, columns, top_down) =~= Seq::new((n + 1) as nat, f));
        lemma_flatten_new_push(n, f);
        assert(crate::text::digit_char(8 - n) == ('8' as int - n) as char);
    }
}

proof fn lemma_header_flat(columns: Seq<char>)
    ensures
        column_header(columns) == Seq::new(
            columns.len(),
            |j: int| uppercase_of(columns[j]) + seq![' '],
        ).flatten(),
    decreases columns.len(),
{
    let f = |j: int| uppercase_of(columns[j]) + seq![' '];
    if columns.len() == 0 {
        assert(Seq::new(columns.len(), f) =~= Seq::<Seq<char>>::empty());
    } else {
        let n = columns.len() - 1;
        let e = columns.drop_last();
        lemma_header_flat(e);
        assert(Seq::new(e.len(), |j: int| uppercase_of(e[j]) + seq![' ']) =~= Seq::new(
            n as nat,
            f,
        ));
        assert(Seq::new(columns.len(), f) =~= Seq::new((n + 1) as nat, f));
        lemma_flatten_new_push(n, f);
    }
}

/// How a board is drawn. Line `i` from the top (there is one per row named in
/// `rows`, the last named row first) is the rank `8 - i`, a space, then one
/// cell per column `c`, left to right: the piece of the square at the
/// coordinates `c` followed by the line's own row character, and a space; or
/// two spaces when the board has no square there. Each line ends with a line
/// break; after the lines come two spaces and each column name in upper case
/// followed by a space.
pub proof fn lemma_board_drawing(board: BoardView, columns: Seq<char>, rows: Seq<char>)
    ensures
        board_text(board, columns, rows) == Seq::new(
            rows.len(),
            |i: int|
                seq![('8' as int - i) as char, ' '] + Seq::new(
                    columns.len(),
                    |j: int|
                        if board.contains_key(seq![columns[j], rows[rows.len() - 1 - i]]) {
                            board[seq![columns[j], rows[rows.len() - 1 - i]]].0 + seq![' ']
                        } else {
                            seq![' ', ' ']
                        },
                ).flatten() + seq!['\n'],
        ).flatten() + seq![' ', ' '] + Seq::new(
            columns.len(),
            |j: int| uppercase_of(columns[j]) + seq![' '],
        ).flatten(),
{
    let top_down = rows.reverse();
    lemma_rows_text_flat(board, columns, top_down);
    lemma_header_flat(columns);
    assert forall|i: int| 0 <= i < rows.len() implies top_down[i] == rows[rows.len() - 1 - i] by {
    }
    assert(lines_of(board, columns, top_down) =~= Seq::new(
        rows.len(),
        |i: int|
            seq![('8' as int - i) as char, ' '] + Seq::new(
                columns.len(),
                |j: int|
                    if board.contains_key(seq![columns[j], rows[rows.len() - 1 - i]]) {
                        board[seq![columns[j], rows[rows.len() - 1 - i]]].0 + seq![' ']
                    } else {
                        seq![' ', ' ']
                    },
            ).flatten() + seq!['\n'],
    ));
}

/// A line with no characters has no words.
pub proof fn lemma_words_empty()
    ensures
        words(Seq::<char>::empty()) == Seq::<Seq<char>>::empty(),
{
}

proof fn lemma_words_nonempty(s: Seq<char>)
    requires
        s.len() > 0,
        !is_whitespace_char(s[0]),
    ensures
        words(s).len() > 0,
{
}

/// A run of characters none of which is whitespace is one word.
pub proof fn lemma_words_single(s: Seq<char>)
    requires
        s.len() > 0,
        forall|i: int| 0 <= i < s.len() ==> !is_whitespace_char(#[trigger] s[i]),
    ensures
        words(s) == seq![s],
    decreases s.len(),
{
    if s.len() > 1 {
        let t = s.drop_first();
        assert forall|i: int| 0 <= i < t.len() implies !is_whitespace_char(#[trigger] t[i]) by {
            assert(t[i] == s[i + 1]);
        }
        lemma_words_single(t);
        assert(s[1] == t[0]);
        assert(seq![s[0]] + t =~= s);
        assert(words(s) =~= seq![s]);
    } else {
        assert(s.drop_first() =~= Seq::<char>::empty());
        assert(words(s.drop_first()) =~= Seq::<Seq<char>>::empty());
        assert(seq![s[0]] =~= s);
        assert(words(s) =~= seq![s]);
    }
}

/// Whitespace separates words: the words of `a`, a whitespace character and
/// `b` are the words of `a` followed by the words of `b`.
pub proof fn lemma_words_split(a: Seq<char>, sep: char, b: Seq<char>)
    requires
        is_whitespace_char(sep),
    ensures
        words(a + seq![sep] + b) == words(a) + words(b),
    decreases a.len(),
{
    let t = a + seq![sep] + b;
    if a.len() == 0 {
        assert(t.drop_first() =~= b);
        assert(words(a) =~= Seq::<Seq<char>>::empty());
        assert(words(t) =~= words(a) + words(b));
    } else {
        let a1 = a.drop_first();
        assert(t.drop_first() =~= a1 + seq![sep] + b);
        lemma_words_split(a1, sep, b);
        let rest = words(t.drop_first());
        assert(t[0] == a[0]);
        if is_whitespace_char(a[0]) {
            assert(words(t) =~= words(a) + words(b));
        } else if a.len() > 1 && !is_whitespace_char(a[1]) {
            assert(t[1] == a[1]);
            assert(a1[0] == a[1]);
            lemma_words_nonempty(a1);
            assert(rest[0] == words(a1)[0]);
            assert(rest.drop_first() =~= words(a1).drop_first() + words(b));
            assert(words(t) =~= words(a) + words(b));
        } else {
            if a.len() == 1 {
                assert(t[1] == sep);
                assert(a1 =~= Seq::<char>::empty());
                assert(words(a1) =~= Seq::<Seq<char>>::empty());
            } else {
                assert(t[1] == a[1]);
            }
            assert(words(t) =~= words(a) + words(b));
        }
    }
}

proof fn lemma_command_names_differ()
    ensures
        "get_games"@ != "create_game"@,
        "get_games"@ != "join_game"@,
        "get_games"@ != "make_move"@,
        "create_game"@ != "join_game"@,
        "create_game"@ != "make_move"@,
        "join_game"@ != "make_move"@,
{
    reveal_strlit("get_games");
    reveal_strlit("create_game");
    reveal_strlit("join_game");
    reveal_strlit("make_move");
    assert("get_games"@[0] == 'g');
    assert("create_game"@[0] == 'c');
    assert("join_game"@[0] == 'j');
    assert("make_move"@[0] == 'm');
}

/// `get_games` asks for the listing of games.
pub proof fn lemma_get_games_command(c: ClientView, input: Seq<char>)
    requires
        words(input) == seq!["get_games"@],
    ensures
        command_request(c, input) == Some(RequestView::GetGames),
{
}

/// `create_game <color>` asks for a game in which the session's user plays
/// `<color>`, whatever word it is.
pub proof fn lemma_create_game_command(c: ClientView, input: Seq<char>, color: Seq<char>)
    requires
        words(input) == seq!["create_game"@, color],
    ensures
        command_request(c, input) == Some(
            RequestView::CreateGame { user_id: c.user_id, color: color },
        ),
{
    lemma_command_names_differ();
    assert(words(input)[0] == "create_game"@);
    assert(words(input)[1] == color);
}

/// `join_game <k>`, for a `k` that parses as an `i32`, asks to join the game
/// that the last listing keys by `k`, and stands for nothing when there is
/// none.
pub proof fn lemma_join_game_command(c: ClientView, input: Seq<char>, index: Seq<char>, k: i32)
    requires
        words(input) == seq!["join_game"@, index],
        i32_from_text(index) == Some(k),
    ensures
        command_request(c, input) == if c.awaiting_opponent_games.contains_key(k) {
            Some(
                RequestView::JoinGame {
                    game_id: c.awaiting_opponent_games[k],
                    user_id: c.user_id,
                },
            )
        } else {
            None
        },
{
    lemma_command_names_differ();
    assert(words(input)[0] == "join_game"@);
    assert(words(input)[1] == index);
}

/// `make_move <from> <to>` is a move from `<from>` to `<to>` in the current
/// game, and stands for nothing outside a game.
pub proof fn lemma_make_move_command(c: ClientView, input: Seq<char>, from: Seq<char>, to: Seq<char>)
    requires
        words(input) == seq!["make_move"@, from, to],
    ensures
        command_request(c, input) == match c.current_active_game_id {
            Some(g) => Some(
                RequestView::MakeMove { game_id: g, user_id: c.user_id, from: from, to: to },
            ),
            None => None,
        },
{
    assert(words(input)[0] == "make_move"@);
    assert(words(input)[1] == from);
    assert(words(input)[2] == to);
}

/// A line whose first word is none of the four commands stands for nothing,
/// and so does a line with no words or more than three.
pub proof fn lemma_other_lines_stand_for_nothing(c: ClientView, input: Seq<char>)
    requires
        words(input).len() == 0 || words(input).len() > 3 || (words(input)[0] != "get_games"@
            && words(input)[0] != "create_game"@ && words(input)[0] != "join_game"@ && words(
            input,
        )[0] != "make_move"@),
    ensures
        command_request(c, input) is None,
{
}

/// A line is flagged as naming a game by something that is no number exactly
/// when it is `join_game` followed by one word that does not parse as an
/// `i32`; a word that parses (`0` included) is never flagged.
pub proof fn lemma_bad_game_index_exactly(input: Seq<char>, index: Seq<char>)
    ensures
        words(input) == seq!["join_game"@, index] ==> (bad_game_index(input) <==> i32_from_text(
            index,
        ) is None),
        words(input).len() != 2 || words(input)[0] != "join_game"@ ==> !bad_game_index(input),
{
    if words(input) == seq!["join_game"@, index] {
        assert(words(input)[0] == "join_game"@);
        assert(words(input)[1] == index);
    }
}

/// A single ASCII digit parses to its value.
pub proof fn lemma_parse_one_digit(d: char)
    requires
        '0' <= d <= '9',
    ensures
        i32_from_text(seq![d]) == Some((d as int - '0' as int) as i32),
{
    let s = seq![d];
    assert(s[0] == d);
    assert(crate::text::unsigned_part(s) == s);
    assert(s.drop_last() =~= Seq::<char>::empty());
    assert(crate::text::decimal_value(s.drop_last()) == 0);
    assert(s.last() == d);
    assert(crate::text::decimal_value(s) == d as int - '0' as int);
    assert(forall|i: int| 0 <= i < s.len() ==> crate::text::is_ascii_digit(#[trigger] s[i]));
}

/// Appending an ASCII digit to an unsigned numeral multiplies its value by ten
/// and adds the digit's value, as long as the result fits in an `i32`; when
/// it does not, the longer numeral is refused.
pub proof fn lemma_parse_push_digit(s: Seq<char>, d: char, v: i32)
    requires
        s.len() > 0,
        '0' <= s[0] <= '9',
        i32_from_text(s) == Some(v),
        '0' <= d <= '9',
    ensures
        v * 10 + (d as int - '0' as int) <= i32::MAX ==> i32_from_text(s.push(d)) == Some(
            (v * 10 + (d as int - '0' as int)) as i32,
        ),
        v * 10 + (d as int - '0' as int) > i32::MAX ==> i32_from_text(s.push(d)) is None,
{
    let t = s.push(d);
    assert(crate::text::unsigned_part(s) == s);
    assert(t[0] == s[0]);
    assert(crate::text::unsigned_part(t) == t);
    assert(t.drop_last() =~= s);
    assert forall|i: int| 0 <= i < t.len() implies crate::text::is_ascii_digit(#[trigger] t[i]) by {
        if i < s.len() {
            assert(t[i] == s[i]);
            assert(crate::text::is_ascii_digit(s[i]));
        }
    }
    let dv = crate::text::decimal_value(s);
    assert(s[0] != '-');
    crate::text::lemma_decimal_value_nonneg(s);
    assert(0 <= dv <= i32::MAX);
    assert(v == dv);
    assert(t.last() == d);
    assert(crate::text::decimal_value(t) == dv * 10 + (d as int - '0' as int));
    assert(t[0] != '-');
}

/// A leading `+` changes nothing, and a leading `-` negates, what an
/// unsigned numeral parses to.
pub proof fn lemma_parse_sign(s: Seq<char>)
    requires
        s.len() > 0,
        '0' <= s[0] <= '9',
    ensures
        i32_from_text(seq!['+'] + s) == i32_from_text(s),
        i32_from_text(s) matches Some(v) ==> i32_from_text(seq!['-'] + s) == Some((-v) as i32),
{
    assert(crate::text::unsigned_part(s) == s);
    assert((seq!['+'] + s)[0] == '+');
    assert((seq!['-'] + s)[0] == '-');
    assert(crate::text::unsigned_part(seq!['+'] + s) =~= s);
    assert(crate::text::unsigned_part(seq!['-'] + s) =~= s);
    if i32_from_text(s) is Some {
        let dv = crate::text::decimal_value(s);
        assert(s[0] != '-');
        assert(dv <= i32::MAX);
        crate::text::lemma_decimal_value_nonneg(s);
        assert(i32_from_text(seq!['-'] + s) == Some((-dv) as i32));
    }
}

/// Anything but an optional sign followed by one or more ASCII digits is
/// refused.
pub proof fn lemma_parse_refuses(s: Seq<char>, i: int)
    requires
        0 <= i < s.len(),
        !('0' <= s[i] <= '9'),
        !(i == 0 && (s[0] == '+' || s[0] == '-')),
    ensures
        i32_from_text(s) is None,
        i32_from_text(Seq::<char>::empty()) is None,
        i32_from_text(seq!['+']) is None,
        i32_from_text(seq!['-']) is None,
{
    let d = crate::text::unsigned_part(s);
    if s[0] == '+' || s[0] == '-' {
        assert(d[i - 1] == s[i]);
    } else {
        assert(d[i] == s[i]);
    }
    assert(crate::text::unsigned_part(seq!['+']) =~= Seq::<char>::empty());
    assert(crate::text::unsigned_part(seq!['-']) =~= Seq::<char>::empty());
}

/// Authorizing sends the authorization and answers with an empty message
/// exactly when there is a written request and an open websocket; otherwise
/// it sends nothing and answers `Could not authorize`.
pub proof fn lemma_authorization(
    serialized: Option<String>,
    connected: bool,
    r: (Option<String>, Result<String, String>),
)
    requires
        authorization_outcome(serialized, connected, r),
    ensures
        r.1 is Ok <==> serialized is Some && connected,
        r.1 is Ok ==> r.0 == serialized && r.1->Ok_0@ == Seq::<char>::empty(),
        r.1 is Err ==> r.0 is None && r.1->Err_0@ == "Could not authorize"@,
{
}

/// The router refuses moves and authorizations exactly outside a game over
/// an open websocket, and never refuses listing, creating or joining games.
pub proof fn lemma_refusals(c: ClientView, r: RequestView)
    ensures
        r is MakeMove || r is AuthorizeWebsocketConnection ==> (refuses(c, r) <==> !(c.in_game
            && c.ws_connected)),
        r is GetGames || r is CreateGame || r is JoinGame ==> !refuses(c, r),
{
}

/// Among ASCII characters, the whitespace that separates words is exactly the
/// space, tab, line feed, vertical tab, form feed and carriage return.
pub proof fn lemma_ascii_whitespace(c: char)
    requires
        (c as u32) < 128,
    ensures
        is_whitespace_char(c) <==> (c == ' ' || c == '\t' || c == '\n' || c == '\u{b}' || c
            == '\u{c}' || c == '\r'),
{
}

} // verus!
