use vstd::prelude::*;

use uuid::Uuid;

verus! {

/// Asks the server for a new game in which the user plays `color`.
#[derive(Debug)]
pub struct CreateGameRequest {
    pub user_id: String,
    pub color: String,
}

/// Asks the server, over the websocket, to let the user play in a game.
#[derive(Debug)]
pub struct AuthorizeWebsocketConnectionRequest {
    pub game_id: Uuid,
    pub user_id: String,
}

/// A move of the piece on `from` to `to`.
#[derive(Debug)]
pub struct MakeMoveRequest {
    pub game_id: Uuid,
    pub user_id: String,
    pub from: String,
    pub to: String,
}

/// Asks the server for the games that wait for an opponent.
#[derive(Debug, Clone, Copy)]
pub struct GetGamesRequest {}

/// Asks the server to let the user join a game.
#[derive(Debug)]
pub struct JoinGameRequest {
    pub game_id: Uuid,
    pub user_id: String,
}

/// A request of the user to the server.
#[derive(Debug)]
pub enum Request {
    CreateGameRequest(CreateGameRequest),
    MakeMoveRequest(MakeMoveRequest),
    AuthorizeWebsocketConnectionRequest(AuthorizeWebsocketConnectionRequest),
    GetGamesRequest(GetGamesRequest),
    JoinGameRequest(JoinGameRequest),
}

/// A request with its text fields seen as character sequences.
pub enum RequestView {
    CreateGame { user_id: Seq<char>, color: Seq<char> },
    MakeMove { game_id: Uuid, user_id: Seq<char>, from: Seq<char>, to: Seq<char> },
    AuthorizeWebsocketConnection { game_id: Uuid, user_id: Seq<char> },
    GetGames,
    JoinGame { game_id: Uuid, user_id: Seq<char> },
}

impl View for Request {
    type V = RequestView;

    open spec fn view(&self) -> RequestView {
        match self {
            Request::CreateGameRequest(r) => RequestView::CreateGame {
                user_id: r.user_id@,
                color: r.color@,
            },
            Request::MakeMoveRequest(r) => RequestView::MakeMove {
                game_id: r.game_id,
                user_id: r.user_id@,
                from: r.from@,
                to: r.to@,
            },
            Request::AuthorizeWebsocketConnectionRequest(r) => {
                RequestView::AuthorizeWebsocketConnection { game_id: r.game_id, user_id: r.user_id@ }
            },
            Request::GetGamesRequest(_) => RequestView::GetGames,
            Request::JoinGameRequest(r) => RequestView::JoinGame {
                game_id: r.game_id,
                user_id: r.user_id@,
            },
        }
    }
}

/// An optional request seen as plain values.
pub open spec fn opt_request_view(r: Option<Request>) -> Option<RequestView> {
    match r {
        Some(q) => Some(q@),
        None => None,
    }
}

} // verus!
