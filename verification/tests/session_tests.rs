use chess_client::client::{status_is_ok, Client, Dispatch, LineAction};
use chess_client::request::{CreateGameRequest, Request};
use chess_client::response::{CreateGameResponse, GetGamesResponse};
use uuid::Uuid;

fn ids() -> Vec<Uuid> {
    vec![Uuid::from_u128(0x10), Uuid::from_u128(0x20), Uuid::from_u128(0x30)]
}

fn listed_client() -> Client {
    let mut client = Client::new("alice".to_string());
    client.record_available_games(GetGamesResponse { game_ids: ids() });
    client
}

fn joined_client(game: Uuid) -> Client {
    let mut client = listed_client();
    client.websocket_connected();
    let (to_send, outcome) = client.join_game(game, Some("{}".to_string()));
    assert_eq!(to_send, Some("{}".to_string()));
    assert_eq!(outcome, Ok(String::new()));
    client
}

#[test]
fn a_new_client_is_idle() {
    let client = Client::new("alice".to_string());
    assert_eq!(client.user_id, "alice");
    assert!(!client.in_game());
    assert!(client.active_games().is_empty());
    assert!(client.awaiting_opponent_games().is_empty());
    assert_eq!(client.current_active_game_id(), None);
    assert_eq!(client.api_url(), "http://localhost:8080");
    assert_eq!(client.ws_url(), "ws://localhost:8081");
    assert!(!client.ws_connected());
}

#[test]
fn endpoints_extend_the_api_address() {
    let client = Client::new("alice".to_string());
    assert_eq!(client.get_games_url(), "http://localhost:8080/get_games");
    assert_eq!(client.create_game_url(), "http://localhost:8080/create_game");
    assert_eq!(client.join_game_url(), "http://localhost:8080/join_game");
}

#[test]
fn get_games_command() {
    let client = Client::new("alice".to_string());
    assert!(matches!(client.parse_command("get_games"), Some(Request::GetGamesRequest(_))));
    assert!(client.parse_command("get_games now").is_none());
}

#[test]
fn create_game_command_names_the_user() {
    let client = Client::new("alice".to_string());
    match client.parse_command("create_game white") {
        Some(Request::CreateGameRequest(r)) => {
            assert_eq!(r.user_id, "alice");
            assert_eq!(r.color, "white");
        },
        other => panic!("unexpected {:?}", other),
    }
    assert!(client.parse_command("create_game").is_none());
}

#[test]
fn unknown_and_empty_commands_stand_for_nothing() {
    let client = listed_client();
    assert!(client.parse_command("").is_none());
    assert!(client.parse_command("   ").is_none());
    assert!(client.parse_command("resign").is_none());
    assert!(client.parse_command("GET_GAMES").is_none());
}

#[test]
fn join_game_needs_a_listing() {
    let client = Client::new("alice".to_string());
    assert!(client.parse_command("join_game 0").is_none());
}

#[test]
fn listing_then_join_picks_the_indexed_game() {
    let client = listed_client();
    for (k, id) in ids().into_iter().enumerate() {
        match client.parse_command(&format!("join_game {}", k)) {
            Some(Request::JoinGameRequest(r)) => {
                assert_eq!(r.game_id, id);
                assert_eq!(r.user_id, "alice");
            },
            other => panic!("unexpected {:?}", other),
        }
    }
    match client.parse_command("join_game +01") {
        Some(Request::JoinGameRequest(r)) => assert_eq!(r.game_id, ids()[1]),
        other => panic!("unexpected {:?}", other),
    }
    assert!(client.parse_command("join_game 3").is_none());
    assert!(client.parse_command("join_game -1").is_none());
    let listed = client.awaiting_opponent_games();
    assert_eq!(listed.len(), 3);
    assert_eq!(listed.get(&2), Some(&ids()[2]));
}

#[test]
fn a_new_listing_replaces_the_old_one() {
    let mut client = listed_client();
    client.record_available_games(GetGamesResponse { game_ids: vec![Uuid::from_u128(7)] });
    assert_eq!(client.awaiting_opponent_games().len(), 1);
    assert!(client.parse_command("join_game 1").is_none());
}

#[test]
fn a_game_index_that_is_no_number_is_flagged() {
    assert!(Client::bad_game_index("join_game x"));
    assert!(Client::bad_game_index("  join_game   99999999999 "));
    assert!(!Client::bad_game_index("join_game 12"));
    assert!(!Client::bad_game_index("join_game"));
    assert!(!Client::bad_game_index("join_game x y"));
    assert!(!Client::bad_game_index("create_game x"));
}

#[test]
fn make_move_needs_a_current_game() {
    let client = listed_client();
    assert!(client.parse_command("make_move e2 e4").is_none());
}

#[test]
fn moves_go_to_the_joined_game() {
    let game = ids()[1];
    let client = joined_client(game);
    match client.parse_command("make_move e2 e4") {
        Some(Request::MakeMoveRequest(r)) => {
            assert_eq!(r.game_id, game);
            assert_eq!(r.user_id, "alice");
            assert_eq!(r.from, "e2");
            assert_eq!(r.to, "e4");
        },
        other => panic!("unexpected {:?}", other),
    }
    assert!(client.parse_command("make_move e2").is_none());
}

#[test]
fn whitespace_around_a_command_does_not_matter() {
    let client = joined_client(ids()[0]);
    match client.parse_command("\t make_move   e2\u{3000}e4 \n") {
        Some(Request::MakeMoveRequest(r)) => {
            assert_eq!(r.from, "e2");
            assert_eq!(r.to, "e4");
        },
        other => panic!("unexpected {:?}", other),
    }
}

#[test]
fn exit_ends_the_session() {
    let client = Client::new("alice".to_string());
    assert!(matches!(client.interpret_line("exit"), LineAction::Exit));
    assert!(matches!(client.interpret_line(" exit"), LineAction::Ignore));
    assert!(matches!(client.interpret_line("dance"), LineAction::Ignore));
    assert!(matches!(client.interpret_line("get_games"), LineAction::Send(Request::GetGamesRequest(_))));
}

#[test]
fn moves_are_refused_outside_a_game() {
    let client = listed_client();
    let request = Request::MakeMoveRequest(chess_client::request::MakeMoveRequest {
        game_id: ids()[0],
        user_id: "alice".to_string(),
        from: "e2".to_string(),
        to: "e4".to_string(),
    });
    assert!(matches!(client.send_request(request), Dispatch::WrongRequest));
    let auth = Request::AuthorizeWebsocketConnectionRequest(client.authorization_request(ids()[0]));
    assert!(matches!(client.send_request(auth), Dispatch::WrongRequest));
}

#[test]
fn parsed_commands_are_dispatched() {
    let client = joined_client(ids()[2]);
    for line in ["get_games", "create_game black", "join_game 0", "make_move a7 a5"] {
        let request = client.parse_command(line).unwrap();
        let dispatch = client.send_request(request);
        assert!(!matches!(dispatch, Dispatch::WrongRequest), "line {}", line);
    }
    let request = client.parse_command("make_move a7 a5").unwrap();
    assert!(matches!(client.send_request(request), Dispatch::MakeMove(_)));
    let auth = Request::AuthorizeWebsocketConnectionRequest(client.authorization_request(ids()[2]));
    assert!(matches!(client.send_request(auth), Dispatch::AuthorizeGame(_)));
}

#[test]
fn a_created_game_is_joined_by_its_creator() {
    let client = Client::new("alice".to_string());
    let request = CreateGameRequest { user_id: "carol".to_string(), color: "white".to_string() };
    let reply = CreateGameResponse { game_id: Uuid::from_u128(99), message: "created".to_string() };
    let join = client.create_game(request, 200, Some(reply)).unwrap();
    assert_eq!(join.game_id, Uuid::from_u128(99));
    assert_eq!(join.user_id, "carol");

    let request = CreateGameRequest { user_id: "carol".to_string(), color: "white".to_string() };
    let reply = CreateGameResponse { game_id: Uuid::from_u128(99), message: "created".to_string() };
    assert!(client.create_game(request, 500, Some(reply)).is_none());
    let request = CreateGameRequest { user_id: "carol".to_string(), color: "white".to_string() };
    assert!(client.create_game(request, 200, None).is_none());
}

#[test]
fn only_200_is_ok() {
    assert!(status_is_ok(200));
    assert!(!status_is_ok(201));
    assert!(!status_is_ok(404));
}

#[test]
fn authorization_needs_an_open_websocket() {
    let mut client = Client::new("alice".to_string());
    let (sent, outcome) = client.authorize_game(Some("hello".to_string()));
    assert_eq!(sent, None);
    assert_eq!(outcome, Err("Could not authorize".to_string()));
    client.websocket_connected();
    assert!(client.ws_connected());
    let (sent, outcome) = client.authorize_game(Some("hello".to_string()));
    assert_eq!(sent, Some("hello".to_string()));
    assert_eq!(outcome, Ok(String::new()));
    let (sent, outcome) = client.authorize_game(None);
    assert_eq!(sent, None);
    assert_eq!(outcome, Err("Could not authorize".to_string()));
}

#[test]
fn authorization_request_names_the_user() {
    let client = Client::new("dave".to_string());
    let r = client.authorization_request(Uuid::from_u128(5));
    assert_eq!(r.game_id, Uuid::from_u128(5));
    assert_eq!(r.user_id, "dave");
}

#[test]
fn a_failed_join_changes_nothing() {
    let mut client = listed_client();
    let (sent, outcome) = client.join_game(ids()[0], Some("{}".to_string()));
    assert_eq!(sent, None);
    assert_eq!(outcome, Err("Could not authorize".to_string()));
    assert!(!client.in_game());
    assert!(client.active_games().is_empty());
    assert_eq!(client.current_active_game_id(), None);
}

#[test]
fn a_successful_join_makes_the_game_current() {
    let first = ids()[0];
    let second = ids()[1];
    let mut client = joined_client(first);
    assert!(client.in_game());
    assert_eq!(client.current_active_game_id(), Some(first));
    let (_, outcome) = client.join_game(second, Some("{}".to_string()));
    assert!(outcome.is_ok());
    assert_eq!(client.current_active_game_id(), Some(second));
    assert_eq!(client.active_games(), &vec![first, second]);
}

#[test]
fn moves_are_sent_only_over_an_open_websocket() {
    let client = Client::new("alice".to_string());
    assert_eq!(client.make_move(Some("m".to_string())), None);
    let client = joined_client(ids()[0]);
    assert_eq!(client.make_move(Some("m".to_string())), Some("m".to_string()));
    assert_eq!(client.make_move(None), None);
}
