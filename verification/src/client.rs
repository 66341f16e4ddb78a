use vstd::prelude::*;

use std::collections::HashMap;
use uuid::Uuid;
use vstd::string::StringExecFns;

use crate::board::{board_text, rows_text, column_header, push_row_cells, Board};
use crate::request::{
    AuthorizeWebsocketConnectionRequest, CreateGameRequest, GetGamesRequest, JoinGameRequest,
    MakeMoveRequest, Request, RequestView, opt_request_view,
};
use crate::response::{CreateGameResponse, GetGamesResponse};
use crate::text::{char_to_uppercase, chars_of, digit, i32_from_text, parse_i32, push_char, split_whitespace, words};

verus! {

broadcast use vstd::std_specs::hash::group_hash_axioms;

/// The state of a player's session with the chess server.
pub struct Client {
    pub user_id: String,
    in_game: bool,
    active_games: Vec<Uuid>,
    awaiting_opponent_games: HashMap<i32, Uuid>,
    current_active_game_id: Option<Uuid>,
    api_url: String,
    ws_url: String,
    ws_connected: bool,
}

/// A session seen as plain values.
pub struct ClientView {
    pub user_id: Seq<char>,
    pub in_game: bool,
    pub active_games: Seq<Uuid>,
    pub awaiting_opponent_games: Map<i32, Uuid>,
    pub current_active_game_id: Option<Uuid>,
    pub api_url: Seq<char>,
    pub ws_url: Seq<char>,
    pub ws_connected: bool,
}

impl ClientView {
    /// A session is in a game exactly when it has a current game; that game
    /// is one of its active games, and it is only in a game over an open
    /// websocket.
    pub open spec fn wf(self) -> bool {
        &&& self.in_game <==> self.current_active_game_id is Some
        &&& self.current_active_game_id matches Some(g) ==> self.active_games.contains(g)
        &&& self.in_game ==> self.ws_connected
    }
}

impl View for Client {
    type V = ClientView;

    closed spec fn view(&self) -> ClientView {
        ClientView {
            user_id: self.user_id@,
            in_game: self.in_game,
            active_games: self.active_games@,
            awaiting_opponent_games: self.awaiting_opponent_games@,
            current_active_game_id: self.current_active_game_id,
            api_url: self.api_url@,
            ws_url: self.ws_url@,
            ws_connected: self.ws_connected,
        }
    }
}

/// The position in a listing of `len` games that the key `k` stands for.
/// Positions are keyed by their number converted to an `i32`, which wraps
/// around modulo 2^32; where several positions share a key, the last one
/// counts.
pub open spec fn listed_position(k: i32, len: nat) -> Option<int> {
    let m = (#[verifier::truncate] (k as u32)) as int;
    if m < len {
        Some(m + 0x1_0000_0000 * ((len - 1 - m) / 0x1_0000_0000))
    } else {
        None
    }
}

/// The games of a listing, keyed by their position in it.
pub open spec fn listing(game_ids: Seq<Uuid>) -> Map<i32, Uuid> {
    Map::new(
        |k: i32| listed_position(k, game_ids.len()) is Some,
        |k: i32| game_ids[listed_position(k, game_ids.len())->Some_0],
    )
}

proof fn lemma_position_wraps(i: int, m: int)
    requires
        0 <= m < 0x1_0000_0000,
        m <= i,
    ensures
        (i - m) % 0x1_0000_0000 == 0 ==> m + 0x1_0000_0000 * ((i - m) / 0x1_0000_0000) == i,
        (i - m) % 0x1_0000_0000 != 0 ==> m < i && (i - m) / 0x1_0000_0000 == (i - 1 - m)
            / 0x1_0000_0000,
{
    assert((i - m) % 0x1_0000_0000 == 0 ==> m + 0x1_0000_0000 * ((i - m) / 0x1_0000_0000) == i)
        by (nonlinear_arith)
        requires
            0 <= m <= i,
    ;
    assert((i - m) % 0x1_0000_0000 != 0 ==> (i - m) / 0x1_0000_0000 == (i - 1 - m)
        / 0x1_0000_0000) by (nonlinear_arith)
        requires
            0 <= m <= i,
    ;
}

proof fn lemma_listing_push(ids: Seq<Uuid>, i: usize)
    requires
        i < ids.len(),
    ensures
        listing(ids.take(i + 1)) == listing(ids.take(i as int)).insert(
            #[verifier::truncate] (i as i32),
            ids[i as int],
        ),
{
    let key = #[verifier::truncate] (i as i32);
    let before = ids.take(i as int);
    let after = ids.take(i + 1);
    assert(((i as i32) as u32) as u64 == (i as u64) % 0x1_0000_0000u64) by (bit_vector);
    assert((#[verifier::truncate] (key as u32)) as int == (i as int) % 0x1_0000_0000);
    let target = listing(before).insert(key, ids[i as int]);
    assert forall|k: i32| #![trigger listing(after).dom().contains(k)] #![trigger target.dom().contains(k)]
        (listing(after).dom().contains(k) <==> target.dom().contains(k)) && (
        listing(after).dom().contains(k) ==> listing(after)[k] == target[k]) by {
        let m = (#[verifier::truncate] (k as u32)) as int;
        if m <= i {
            lemma_position_wraps(i as int, m);
        }
        if k == key {
            assert((i - m) % 0x1_0000_0000 == 0) by (nonlinear_arith)
                requires
                    m == (i as int) % 0x1_0000_0000,
            ;
        } else {
            assert(k as u32 != key as u32) by (bit_vector)
                requires
                    k != key,
            ;
            if m <= i {
                assert((i - m) % 0x1_0000_0000 != 0) by (nonlinear_arith)
                    requires
                        m != (i as int) % 0x1_0000_0000,
                        0 <= m < 0x1_0000_0000,
                        m <= i,
                ;
            }
        }
    }
    assert(listing(after) =~= target);
}

/// Whether `input` names a game to join by something that is no `i32`.
pub open spec fn bad_game_index(input: Seq<char>) -> bool {
    let w = words(input);
    w.len() == 2 && w[0] == "join_game"@ && i32_from_text(w[1]) is None
}

/// The request that the command line `input` stands for, in session `c`:
/// `get_games`; `create_game <color>`; `join_game <index>` for a game of the
/// last listing; `make_move <from> <to>` in the current game. Words are
/// separated by whitespace; anything else stands for no request.
pub open spec fn command_request(c: ClientView, input: Seq<char>) -> Option<RequestView> {
    let w = words(input);
    if w.len() == 1 && w[0] == "get_games"@ {
        Some(RequestView::GetGames)
    } else if w.len() == 2 && w[0] == "create_game"@ {
        Some(RequestView::CreateGame { user_id: c.user_id, color: w[1] })
    } else if w.len() == 2 && w[0] == "join_game"@ {
        match i32_from_text(w[1]) {
            Some(k) => if c.awaiting_opponent_games.contains_key(k) {
                Some(
                    RequestView::JoinGame {
                        game_id: c.awaiting_opponent_games[k],
                        user_id: c.user_id,
                    },
                )
            } else {
                None
            },
            None => None,
        }
    } else if w.len() == 3 && w[0] == "make_move"@ {
        match c.current_active_game_id {
            Some(g) => Some(
                RequestView::MakeMove { game_id: g, user_id: c.user_id, from: w[1], to: w[2] },
            ),
            None => None,
        }
    } else {
        None
    }
}

/// What authorizing over the websocket gives, `serialized` being the
/// authorization request as text if it could be written: with an open
/// websocket that text is sent and the answer is an empty message; otherwise
/// nothing is sent and the answer is the error `Could not authorize`.
pub open spec fn authorization_outcome(
    serialized: Option<String>,
    connected: bool,
    r: (Option<String>, Result<String, String>),
) -> bool {
    if serialized is Some && connected {
        &&& r.0 == serialized
        &&& r.1 matches Ok(m) && m@ == Seq::<char>::empty()
    } else {
        &&& r.0 is None
        &&& r.1 matches Err(m) && m@ == "Could not authorize"@
    }
}

/// What a line typed by the user asks for.
#[derive(Debug)]
pub enum LineAction {
    /// End the session.
    Exit,
    /// Nothing: the line stands for no request.
    Ignore,
    /// Send this request.
    Send(Request),
}

/// Where a request goes.
#[derive(Debug)]
pub enum Dispatch {
    GetGames(GetGamesRequest),
    CreateGame(CreateGameRequest),
    JoinGame(JoinGameRequest),
    AuthorizeGame(AuthorizeWebsocketConnectionRequest),
    MakeMove(MakeMoveRequest),
    /// The request is refused: the session is in no game over a websocket.
    WrongRequest,
}

/// Whether the router refuses request `r` in session `c`: an authorization
/// or a move is refused unless the session is in a game over an open
/// websocket; other requests are never refused.
pub open spec fn refuses(c: ClientView, r: RequestView) -> bool {
    match r {
        RequestView::AuthorizeWebsocketConnection { .. } | RequestView::MakeMove { .. } => !(
        c.in_game && c.ws_connected),
        _ => false,
    }
}

/// Whether an HTTP status is `200 OK`.
pub fn status_is_ok(status: u16) -> (b: bool)
    ensures
        b == (status == 200),
{
    status == 200
}

impl Client {
    /// A new session of the user `user_id`, in no game, with no listing and
    /// no websocket, talking to the server on `localhost`.
    pub fn new(user_id: String) -> (c: Client)
        ensures
            c@.wf(),
            c@.user_id == user_id@,
            !c@.in_game,
            c@.active_games == Seq::<Uuid>::empty(),
            c@.awaiting_opponent_games == Map::<i32, Uuid>::empty(),
            c@.current_active_game_id is None,
            c@.api_url == "http://localhost:8080"@,
            c@.ws_url == "ws://localhost:8081"@,
            !c@.ws_connected,
    {
        Client {
            user_id,
            in_game: false,
            active_games: Vec::new(),
            awaiting_opponent_games: HashMap::new(),
            current_active_game_id: None,
            api_url: String::from_str("http://localhost:8080"),
            ws_url: String::from_str("ws://localhost:8081"),
            ws_connected: false,
        }
    }

    /// Whether parsing `input` as a command would fail on its game index.
    pub fn bad_game_index(input: &str) -> (b: bool)
        ensures
            b == bad_game_index(input@),
    {
        let parts = split_whitespace(input);
        let join = String::from_str("join_game");
        parts.len() == 2 && parts[0] == join && parse_i32(parts[1].as_str()).is_none()
    }

    /// The request that the command line `input` stands for.
    pub fn parse_command(&self, input: &str) -> (r: Option<Request>)
        requires
            !bad_game_index(input@),
        ensures
            opt_request_view(r) == command_request(self@, input@),
    {
        let parts = split_whitespace(input);
        let ghost w = words(input@);
        assert(parts.deep_view() == w);
        assert(parts.len() > 0 ==> parts[0]@ == w[0]);
        assert(parts.len() > 1 ==> parts[1]@ == w[1]);
        assert(parts.len() > 2 ==> parts[2]@ == w[2]);
        let get_games = String::from_str("get_games");
        let create_game = String::from_str("create_game");
        let join_game = String::from_str("join_game");
        let make_move = String::from_str("make_move");
        if parts.len() == 1 && parts[0] == get_games {
            Some(Request::GetGamesRequest(GetGamesRequest {}))
        } else if parts.len() == 2 && parts[0] == create_game {
            Some(
                Request::CreateGameRequest(
                    CreateGameRequest { user_id: self.user_id.clone(), color: parts[1].clone() },
                ),
            )
        } else if parts.len() == 2 && parts[0] == join_game {
            let index = parse_i32(parts[1].as_str());
            match index {
                Some(k) => match self.awaiting_opponent_games.get(&k) {
                    Some(game_id) => Some(
                        Request::JoinGameRequest(
                            JoinGameRequest { game_id: *game_id, user_id: self.user_id.clone() },
                        ),
                    ),
                    None => None,
                },
                None => None,
            }
        } else if parts.len() == 3 && parts[0] == make_move {
            match self.current_active_game_id {
                Some(game_id) => Some(
                    Request::MakeMoveRequest(
                        MakeMoveRequest {
                            game_id,
                            user_id: self.user_id.clone(),
                            from: parts[1].clone(),
                            to: parts[2].clone(),
                        },
                    ),
                ),
                None => None,
            }
        } else {
            None
        }
    }

    /// What the line `line`, typed by the user, asks for: `exit` ends the
    /// session, and any other line is read as a command.
    pub fn interpret_line(&self, line: &str) -> (a: LineAction)
        requires
            !bad_game_index(line@),
        ensures
            line@ == "exit"@ ==> a is Exit,
            line@ != "exit"@ ==> match a {
                LineAction::Exit => false,
                LineAction::Ignore => command_request(self@, line@) is None,
                LineAction::Send(r) => command_request(self@, line@) == Some(r@),
            },
    {
        if String::from_str(line) == String::from_str("exit") {
            LineAction::Exit
        } else {
            match self.parse_command(line) {
                Some(r) => LineAction::Send(r),
                None => LineAction::Ignore,
            }
        }
    }

    /// Where `request` goes: listing, creating and joining games always go to
    /// the server; an authorization or a move only within a game over an open
    /// websocket, and is refused otherwise.
    pub fn send_request(&self, request: Request) -> (d: Dispatch)
        ensures
            d is WrongRequest <==> refuses(self@, request@),
            match request {
                Request::GetGamesRequest(r) => d == Dispatch::GetGames(r),
                Request::CreateGameRequest(r) => d == Dispatch::CreateGame(r),
                Request::JoinGameRequest(r) => d == Dispatch::JoinGame(r),
                Request::AuthorizeWebsocketConnectionRequest(r) => d == if self@.in_game
                    && self@.ws_connected {
                    Dispatch::AuthorizeGame(r)
                } else {
                    Dispatch::WrongRequest
                },
                Request::MakeMoveRequest(r) => d == if self@.in_game && self@.ws_connected {
                    Dispatch::MakeMove(r)
                } else {
                    Dispatch::WrongRequest
                },
            },
    {
        match request {
            Request::GetGamesRequest(r) => Dispatch::GetGames(r),
            Request::CreateGameRequest(r) => Dispatch::CreateGame(r),
            Request::JoinGameRequest(r) => Dispatch::JoinGame(r),
            Request::AuthorizeWebsocketConnectionRequest(r) => {
                if self.in_game && self.ws_connected {
                    Dispatch::AuthorizeGame(r)
                } else {
                    Dispatch::WrongRequest
                }
            },
            Request::MakeMoveRequest(r) => {
                if self.in_game && self.ws_connected {
                    Dispatch::MakeMove(r)
                } else {
                    Dispatch::WrongRequest
                }
            },
        }
    }

    /// The server's address followed by `path`.
    fn api_endpoint(&self, path: &str) -> (u: String)
        ensures
            u@ == self@.api_url + path@,
    {
        self.api_url.clone().concat(path)
    }

    /// Where the games waiting for an opponent are listed.
    pub fn get_games_url(&self) -> (u: String)
        ensures
            u@ == self@.api_url + "/get_games"@,
    {
        self.api_endpoint("/get_games")
    }

    /// Where games are created.
    pub fn create_game_url(&self) -> (u: String)
        ensures
            u@ == self@.api_url + "/create_game"@,
    {
        self.api_endpoint("/create_game")
    }

    /// Where games are joined.
    pub fn join_game_url(&self) -> (u: String)
        ensures
            u@ == self@.api_url + "/join_game"@,
    {
        self.api_endpoint("/join_game")
    }

    /// Takes in the listing of the games that wait for an opponent: from now
    /// on the game at position `i` of the listing is known by the index `i`.
    pub fn record_available_games(&mut self, response: GetGamesResponse)
        ensures
            final(self)@ == (ClientView {
                awaiting_opponent_games: listing(response.game_ids@),
                ..old(self)@
            }),
            old(self)@.wf() ==> final(self)@.wf(),
    {
        let ids = response.game_ids;
        let mut games: HashMap<i32, Uuid> = HashMap::new();
        let mut i: usize = 0;
        while i < ids.len()
            invariant
                i <= ids@.len(),
                games@ == listing(ids@.take(i as int)),
            decreases ids@.len() - i,
        {
            proof {
                lemma_listing_push(ids@, i);
            }
            games.insert(#[verifier::truncate] (i as i32), ids[i]);
            i = i + 1;
        }
        assert(ids@.take(i as int) =~= ids@);
        self.awaiting_opponent_games = games;
    }

    /// What a reply to `request` leads to: with status `200 OK` and a game in
    /// the reply, the user joins that game, as the user who asked for it.
    pub fn create_game(
        &self,
        request: CreateGameRequest,
        status: u16,
        reply: Option<CreateGameResponse>,
    ) -> (j: Option<JoinGameRequest>)
        ensures
            j is Some <==> status == 200 && reply is Some,
            j matches Some(jr) ==> jr.game_id == reply->Some_0.game_id && jr.user_id
                == request.user_id,
    {
        match reply {
            Some(created) => {
                if status_is_ok(status) {
                    Some(JoinGameRequest { game_id: created.game_id, user_id: request.user_id })
                } else {
                    None
                }
            },
            None => None,
        }
    }

    /// The request that authorizes this user, over the websocket, to play
    /// in `game_id`.
    pub fn authorization_request(&self, game_id: Uuid) -> (r: AuthorizeWebsocketConnectionRequest)
        ensures
            r.game_id == game_id,
            r.user_id@ == self@.user_id,
    {
        AuthorizeWebsocketConnectionRequest { game_id, user_id: self.user_id.clone() }
    }

    /// Notes that the websocket to the server is open.
    pub fn websocket_connected(&mut self)
        requires
            old(self)@.wf(),
        ensures
            final(self)@ == (ClientView { ws_connected: true, ..old(self)@ }),
            final(self)@.wf(),
    {
        self.ws_connected = true;
    }

    /// Authorizes the user over the websocket. `serialized` is the
    /// authorization request as text, if it could be written. With an open
    /// websocket that text is to be sent, and the answer is an empty message;
    /// otherwise nothing is sent and the answer is `Could not authorize`.
    pub fn authorize_game(&self, serialized: Option<String>) -> (r: (
        Option<String>,
        Result<String, String>,
    ))
        ensures
            authorization_outcome(serialized, self@.ws_connected, r),
    {
        match serialized {
            Some(message) => {
                if self.ws_connected {
                    (Some(message), Ok(String::new()))
                } else {
                    (None, Err(String::from_str("Could not authorize")))
                }
            },
            None => (None, Err(String::from_str("Could not authorize"))),
        }
    }

    /// Joins `game_id` once the websocket is open: authorizes the user as
    /// `authorize_game` does and, when that succeeds, makes `game_id` the
    /// current game and adds it to the active games.
    pub fn join_game(&mut self, game_id: Uuid, serialized: Option<String>) -> (r: (
        Option<String>,
        Result<String, String>,
    ))
        requires
            old(self)@.wf(),
        ensures
            authorization_outcome(serialized, old(self)@.ws_connected, r),
            r.1 is Ok ==> final(self)@ == (ClientView {
                in_game: true,
                current_active_game_id: Some(game_id),
                active_games: old(self)@.active_games.push(game_id),
                ..old(self)@
            }),
            r.1 is Err ==> final(self)@ == old(self)@,
            final(self)@.wf(),
    {
        let r = self.authorize_game(serialized);
        if r.1.is_ok() {
            self.in_game = true;
            self.current_active_game_id = Some(game_id);
            self.active_games.push(game_id);
            assert(self.active_games@.last() == game_id);
        }
        r
    }

    /// The text to send for a move, `serialized` being the move request as
    /// text if it could be written: it is sent only over an open websocket.
    pub fn make_move(&self, serialized: Option<String>) -> (m: Option<String>)
        ensures
            m == if self@.ws_connected {
                serialized
            } else {
                None
            },
    {
        if self.ws_connected {
            serialized
        } else {
            None
        }
    }

    /// Draws `board` as text, the rows named in `rows` from the last one
    /// down, each line starting with its rank; then the names of `columns`
    /// in upper case.
    pub fn board_dict_to_string(&self, columns: String, rows: String, board: Board) -> (s: String)
        requires
            rows@.len() <= 9,
        ensures
            s@ == board_text(board@, columns@, rows@),
    {
        let cols = chars_of(columns.as_str());
        let rs = chars_of(rows.as_str());
        let n = rs.len();
        let ghost top_down = rs@.reverse();
        let mut out = String::new();
        let mut i: usize = 0;
        assert(top_down.take(0) =~= seq![]);
        while i < n
            invariant
                n == rs@.len(),
                n <= 9,
                i <= n,
                cols@ == columns@,
                top_down == rs@.reverse(),
                out@ == rows_text(board@, cols@, top_down.take(i as int)),
            decreases n - i,
        {
            let row = rs[n - 1 - i];
            assert(top_down[i as int] == row);
            assert(top_down.take(i + 1).drop_last() =~= top_down.take(i as int));
            let ghost before = out@;
            push_char(&mut out, digit((8 - i) as u8));
            push_char(&mut out, ' ');
            push_row_cells(&mut out, &board, &cols, row);
            push_char(&mut out, '\n');
            assert(out@ =~= before + (seq![crate::text::digit_char(8 - i), ' '] + crate::board::row_cells(board@, cols@, row) + seq!['\n']));
            i = i + 1;
        }
        assert(top_down.take(n as int) =~= top_down);
        let ghost body = out@;
        push_char(&mut out, ' ');
        push_char(&mut out, ' ');
        let mut j: usize = 0;
        assert(cols@.take(0) =~= seq![]);
        while j < cols.len()
            invariant
                j <= cols@.len(),
                out@ == body + seq![' ', ' '] + column_header(cols@.take(j as int)),
            decreases cols@.len() - j,
        {
            let upper = char_to_uppercase(cols[j]);
            assert(cols@.take(j + 1).drop_last() =~= cols@.take(j as int));
            let ghost before = out@;
            out.append(upper.as_str());
            push_char(&mut out, ' ');
            assert(out@ =~= before + crate::text::uppercase_of(cols@[j as int]) + seq![' ']);
            j = j + 1;
        }
        assert(cols@.take(j as int) =~= cols@);
        out
    }

    /// Whether the session is in a game.
    pub fn in_game(&self) -> (b: bool)
        ensures
            b == self@.in_game,
    {
        self.in_game
    }

    /// The games the user has joined, in order.
    pub fn active_games(&self) -> (g: &Vec<Uuid>)
        ensures
            g@ == self@.active_games,
    {
        &self.active_games
    }

    /// The games of the last listing, keyed by their index in it.
    pub fn awaiting_opponent_games(&self) -> (g: &HashMap<i32, Uuid>)
        ensures
            g@ == self@.awaiting_opponent_games,
    {
        &self.awaiting_opponent_games
    }

    /// The game the user plays in now, if any.
    pub fn current_active_game_id(&self) -> (g: Option<Uuid>)
        ensures
            g == self@.current_active_game_id,
    {
        self.current_active_game_id
    }

    /// The address of the server's HTTP interface.
    pub fn api_url(&self) -> (u: &String)
        ensures
            u@ == self@.api_url,
    {
        &self.api_url
    }

    /// The address of the server's websocket.
    pub fn ws_url(&self) -> (u: &String)
        ensures
            u@ == self@.ws_url,
    {
        &self.ws_url
    }

    /// Whether the websocket to the server is open.
    pub fn ws_connected(&self) -> (b: bool)
        ensures
            b == self@.ws_connected,
    {
        self.ws_connected
    }
}

} // verus!
