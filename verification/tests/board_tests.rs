use std::collections::HashMap;

use chess_client::board::Board;
use chess_client::client::Client;

fn original_drawing(columns: &str, rows: &str, board: &HashMap<String, (String, Vec<String>)>) -> String {
    let board_string: String = rows
        .chars()
        .rev()
        .enumerate()
        .map(|(row_index, row)| {
            let mut row_string = format!("{} ", 8 - row_index);
            row_string.push_str(
                &columns
                    .chars()
                    .map(|col| {
                        let coordinates = format!("{}{}", col, row);
                        match board.get(&coordinates) {
                            Some((piece, _)) => format!("{} ", piece),
                            None => "  ".to_string(),
                        }
                    })
                    .collect::<String>(),
            );
            row_string + "\n"
        })
        .collect();
    format!(
        "{}{}",
        board_string,
        format!("  {}", columns.chars().map(|c| format!("{} ", c.to_uppercase())).collect::<String>())
    )
}

fn board_of(squares: &[(&str, &str, &[&str])]) -> (Board, HashMap<String, (String, Vec<String>)>) {
    let mut board = Board::new();
    let mut map = HashMap::new();
    for (coordinates, piece, moves) in squares {
        let moves: Vec<String> = moves.iter().map(|m| m.to_string()).collect();
        board.insert(coordinates.to_string(), (piece.to_string(), moves.clone()));
        map.insert(coordinates.to_string(), (piece.to_string(), moves));
    }
    (board, map)
}

#[test]
fn small_board_is_drawn_top_down() {
    let client = Client::new("alice".to_string());
    let (board, _) = board_of(&[("a1", "R", &[]), ("b2", "k", &["b1"])]);
    let text = client.board_dict_to_string("ab".to_string(), "12".to_string(), board);
    assert_eq!(text, "8   k \n7 R   \n  A B ");
}

#[test]
fn full_board_matches_the_original_drawing() {
    let client = Client::new("alice".to_string());
    let squares: &[(&str, &str, &[&str])] = &[
        ("a1", "♖", &[]),
        ("e1", "♔", &["e2"]),
        ("e2", "♙", &["e3", "e4"]),
        ("d8", "♛", &[]),
        ("h8", "♜", &[]),
        ("c7", "♟", &["c6", "c5"]),
    ];
    let (board, map) = board_of(squares);
    let columns = "abcdefgh";
    let rows = "12345678";
    let text = client.board_dict_to_string(columns.to_string(), rows.to_string(), board);
    assert_eq!(text, original_drawing(columns, rows, &map));
    assert_eq!(text.lines().count(), 9);
}

#[test]
fn nine_rows_reach_rank_zero() {
    let client = Client::new("bob".to_string());
    let (board, map) = board_of(&[("x9", "Q", &[])]);
    let text = client.board_dict_to_string("x".to_string(), "123456789".to_string(), board);
    assert_eq!(text, original_drawing("x", "123456789", &map));
    assert!(text.starts_with("8 Q \n"));
    assert!(text.contains("0   \n"));
}

#[test]
fn empty_rows_leave_only_the_header() {
    let client = Client::new("bob".to_string());
    let text = client.board_dict_to_string("abc".to_string(), String::new(), Board::new());
    assert_eq!(text, "  A B C ");
}

#[test]
fn board_insert_replaces_and_get_reads_back() {
    let mut board = Board::new();
    board.insert("e2".to_string(), ("P".to_string(), vec!["e3".to_string()]));
    board.insert("e2".to_string(), ("Q".to_string(), vec![]));
    let square = board.get(&"e2".to_string()).unwrap();
    assert_eq!(square.0, "Q");
    assert!(square.1.is_empty());
    assert!(board.get(&"e4".to_string()).is_none());
    let client = Client::new("c".to_string());
    assert_eq!(client.board_dict_to_string("e".to_string(), "2".to_string(), board), "8 Q \n  E ");
}

#[test]
fn column_names_are_upper_cased() {
    let client = Client::new("erin".to_string());
    let text = client.board_dict_to_string("aC1ßé".to_string(), String::new(), Board::new());
    assert_eq!(text, "  A C 1 SS É ");
}
