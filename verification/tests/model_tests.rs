use heart7::client::desk::Desk;
use heart7::client::event::KeyCode;
use heart7::client::model::{ClientAction, ClientModel, ClientState};
use heart7::game::Card;
use heart7::proto::{CardInfo, CardSuit, GameInfo, GameMsg, Msg, Play, PlayInfo, PlayerInfo, ReadyList, RoomInfo, State};

fn card(suit: CardSuit, num: u32) -> Card {
    Card { suit, num }
}

fn info(suit: i32, num: u32) -> CardInfo {
    CardInfo { suit, num }
}

fn room(names: &[&str], state: State) -> RoomInfo {
    RoomInfo {
        roomid: "r".to_string(),
        players: names.iter().map(|n| PlayerInfo { name: n.to_string() }).collect(),
        state: Some(state),
    }
}

fn waiting(ready0: bool) -> ClientModel {
    ClientModel {
        state: ClientState::WaitReady {
            players: vec![
                ("me".to_string(), 1, ready0),
                ("b".to_string(), 2, false),
                ("c".to_string(), 3, false),
                ("a".to_string(), 0, false),
            ],
            msg: vec![],
            roomid: "r".to_string(),
        },
        exitmenu: (false, 2),
    }
}

fn gaming(cards: Vec<Card>, choose: usize, button: u32, next: usize) -> ClientModel {
    ClientModel {
        state: ClientState::Gaming {
            players: vec![
                ("me".to_string(), 1, 0),
                ("b".to_string(), 2, 0),
                ("c".to_string(), 3, 0),
                ("a".to_string(), 0, 0),
            ],
            next,
            last: None,
            cards,
            holds: vec![card(CardSuit::Diamond, 1)],
            desk: Desk::default(),
            choose,
            button,
            has_last: false,
            play_cnt: 0,
            msg: Some("old".to_string()),
            roomid: "r".to_string(),
        },
        exitmenu: (false, 0),
    }
}

#[test]
fn exit_room_message_leads_back_to_waiting_for_players() {
    let ri = room(&["a", "me", "b"], State::NotFull(3));
    let (m, a, redraw) = waiting(true).handle_stream_msg(GameMsg { msg: Some(Msg::ExitRoom(ri)), your_id: 1 });
    assert!(redraw);
    assert!(matches!(a, ClientAction::Nothing));
    assert_eq!(m.exitmenu, (false, 0));
    match m.state {
        ClientState::WaitPlayer { players, msg, roomid } => {
            assert_eq!(players[0], ("me".to_string(), 1, false));
            assert_eq!(players[1], ("b".to_string(), 2, false));
            assert_eq!(players[3], ("a".to_string(), 0, false));
            assert_eq!(msg, vec!["Someone exits room.", "Waiting for other players to join room......"]);
            assert_eq!(roomid, "r");
        }
        other => panic!("unexpected state {:?}", other),
    }
}

#[test]
fn start_asks_for_the_hand_then_games() {
    let (m, a, _) = waiting(true).handle_stream_msg(GameMsg { msg: Some(Msg::Start(3)), your_id: 1 });
    assert!(matches!(a, ClientAction::QueryGameStatus(1, ref r, 3) if r == "r"));
    let gi = GameInfo { cards: vec![info(3, 2), info(0, 9), info(0, 1)], holds: None, desk: None };
    let m = m.game_status_reply(3, &gi);
    match m.state {
        ClientState::Gaming { next, cards, choose, play_cnt, players, .. } => {
            assert_eq!(next, 2);
            assert_eq!(cards, vec![card(CardSuit::Spade, 1), card(CardSuit::Spade, 9), card(CardSuit::Diamond, 2)]);
            assert_eq!(choose, 0);
            assert_eq!(play_cnt, 0);
            assert_eq!(players[1], ("b".to_string(), 2, 0));
        }
        other => panic!("unexpected state {:?}", other),
    }
}

#[test]
fn enter_plays_the_chosen_card_once() {
    let m = gaming(vec![card(CardSuit::Club, 2), card(CardSuit::Spade, 4)], 2, 1, 0);
    let (m, a, redraw) = m.handle_enter();
    assert!(redraw);
    assert!(matches!(a, ClientAction::PlayCard(1, ref r, Play::Hold(ci)) if r == "r" && ci == info(0, 4)));
    let m = m.play_reply(Ok(()));
    match m.state {
        ClientState::Gaming { cards, holds, choose, msg, .. } => {
            assert_eq!(cards, vec![card(CardSuit::Club, 2)]);
            assert_eq!(holds, vec![card(CardSuit::Spade, 4), card(CardSuit::Diamond, 1)]);
            assert_eq!(choose, 0);
            assert!(msg.is_none());
        }
        other => panic!("unexpected state {:?}", other),
    }
}

#[test]
fn refused_play_shows_the_reason() {
    let m = gaming(vec![card(CardSuit::Club, 2)], 1, 0, 0);
    let (m, a, _) = m.handle_enter();
    assert!(matches!(a, ClientAction::PlayCard(1, _, Play::Discard(ci)) if ci == info(2, 2)));
    let m = m.play_reply(Err("You can't discard this card!".to_string()));
    match m.state {
        ClientState::Gaming { cards, choose, msg, .. } => {
            assert_eq!(cards.len(), 1);
            assert_eq!(choose, 1);
            assert_eq!(msg, Some("You can't discard this card!".to_string()));
        }
        other => panic!("unexpected state {:?}", other),
    }
    // not our turn: nothing happens
    let (_, a, redraw) = gaming(vec![card(CardSuit::Club, 2)], 1, 0, 2).handle_enter();
    assert!(matches!(a, ClientAction::Nothing));
    assert!(!redraw);
}

#[test]
fn enter_gets_ready_once() {
    let (m, a, redraw) = waiting(false).handle_enter();
    assert!(redraw);
    assert!(matches!(a, ClientAction::GetReady(1, _)));
    match &m.state {
        ClientState::WaitReady { players, msg, .. } => {
            assert!(players[0].2);
            assert_eq!(msg, &vec!["Waiting for other players to get ready......".to_string()]);
        }
        other => panic!("unexpected state {:?}", other),
    }
    let (_, a, redraw) = m.handle_enter();
    assert!(matches!(a, ClientAction::Nothing));
    assert!(!redraw);
}

#[test]
fn exit_menu_buttons_in_a_game() {
    let mut m = gaming(vec![card(CardSuit::Club, 2)], 0, 0, 1);
    m.exitmenu = (true, 1);
    let (m2, a) = m.handle_exitmenu_enter();
    assert!(matches!(a, ClientAction::ExitGame(1, _)));
    assert_eq!(m2.exitmenu, (false, 0));
    match m2.state {
        ClientState::WaitReady { players, msg, .. } => {
            assert!(players.iter().all(|p| !p.2));
            assert_eq!(msg, vec!["Please press ENTER to get ready!".to_string()]);
        }
        other => panic!("unexpected state {:?}", other),
    }
    let mut m = gaming(vec![], 0, 0, 1);
    m.exitmenu = (true, 2);
    let (m2, a) = m.handle_exitmenu_enter();
    assert!(matches!(a, ClientAction::LeaveRoom(1, _)));
    match m2.state {
        ClientState::AskName { input, msg, button, is_input } => {
            assert_eq!(input, "me");
            assert_eq!(msg, "Exited room successfully.\nPlease enter your nickname:");
            assert_eq!(button, 0);
            assert!(is_input);
        }
        other => panic!("unexpected state {:?}", other),
    }
    let mut m = gaming(vec![], 0, 0, 1);
    m.exitmenu = (true, 3);
    let (m2, a) = m.handle_exitmenu_enter();
    assert!(matches!(a, ClientAction::LeaveRoomAndQuit(1, _)));
    assert!(!m2.exitmenu.0);
    assert!(matches!(m2.state, ClientState::Gaming { .. }));
    let mut m = gaming(vec![], 0, 0, 1);
    m.exitmenu = (true, 0);
    let (m2, a) = m.handle_exitmenu_enter();
    assert!(matches!(a, ClientAction::Nothing));
    assert_eq!(m2.exitmenu, (false, 0));
}

#[test]
fn arrows_move_the_choice_and_buttons() {
    let m = gaming(vec![card(CardSuit::Club, 2), card(CardSuit::Club, 3)], 0, 0, 0);
    let (m, _, redraw) = m.handle_lr_arrow(true);
    assert!(redraw);
    assert!(matches!(m.state, ClientState::Gaming { choose: 2, .. }));
    let (m, _, _) = m.handle_lr_arrow(false);
    assert!(matches!(m.state, ClientState::Gaming { choose: 0, .. }));
    let (m, redraw) = m.handle_ud_arrow();
    assert!(redraw);
    assert!(matches!(m.state, ClientState::Gaming { button: 1, .. }));
    let m = m.handle_esc();
    assert!(m.exitmenu.0);
    let m = m.handle_exitmenu_move(true);
    assert_eq!(m.exitmenu.1, 3);
    let (_, a, redraw) = m.handle_typing(KeyCode::Char('x'));
    assert!(matches!(a, ClientAction::Nothing));
    assert!(!redraw);
}

#[test]
fn name_screen_and_connection() {
    let m = ClientModel {
        state: ClientState::GetServer { input: "h:1".to_string(), msg: String::new(), connecting: false },
        exitmenu: (false, 0),
    };
    let (m, a, _) = m.handle_enter();
    assert!(matches!(a, ClientAction::Connect(ref s) if s == "h:1"));
    match &m.state {
        ClientState::GetServer { msg, connecting, .. } => {
            assert_eq!(msg, "Try connecting to h:1 ......");
            assert!(*connecting);
        }
        other => panic!("unexpected state {:?}", other),
    }
    let (m, redraw) = m.server_connect_result(Err("refused".to_string()), "d:2".to_string());
    assert!(redraw);
    match &m.state {
        ClientState::GetServer { input, msg, connecting } => {
            assert_eq!(input, "d:2");
            assert_eq!(msg, "Connecting to server failed:\nrefused\nPlease retry:");
            assert!(!*connecting);
        }
        other => panic!("unexpected state {:?}", other),
    }
    let m = ClientModel { state: ClientState::GetServer { input: String::new(), msg: String::new(), connecting: true }, exitmenu: (false, 1) };
    let (m, _) = m.server_connect_result(Ok(()), "d".to_string());
    assert_eq!(m.exitmenu, (false, 0));
    let m = m.set_input("bob".to_string());
    let (m, a, _) = m.handle_typing(KeyCode::Backspace);
    assert!(matches!(a, ClientAction::EditInput(KeyCode::Backspace)));
    let (m, _) = m.handle_ud_arrow();
    let (m, a, _) = m.handle_lr_arrow(false);
    assert!(matches!(a, ClientAction::Nothing));
    let (m, a, _) = m.handle_enter();
    assert!(matches!(a, ClientAction::NewListener));
    assert_eq!(m.exitmenu, (false, 0));
    match &m.state {
        ClientState::JoinRoom { input, msg, name } => {
            assert!(input.is_empty());
            assert_eq!(name, "bob");
            assert_eq!(msg, "Hello, bob!\nPlease enter room ID:");
        }
        other => panic!("unexpected state {:?}", other),
    }
    let m = m.set_input("r9".to_string());
    let (m, a, _) = m.handle_enter();
    assert!(matches!(a, ClientAction::RequestJoinRoom(ref n, ref r) if n == "bob" && r == "r9"));
    let m = m.join_room_reply(Ok(()));
    match &m.state {
        ClientState::WaitPlayer { players, msg, roomid } => {
            assert_eq!(players.len(), 4);
            assert_eq!(players[0], (String::new(), 4, false));
            assert_eq!(msg, &vec!["Waiting for other players to join room......".to_string()]);
            assert_eq!(roomid, "r9");
        }
        other => panic!("unexpected state {:?}", other),
    }
    let ri = room(&["x", "y", "z", "bob"], State::WaitReady(ReadyList { l: vec![0] }));
    let (m, _, _) = m.handle_stream_msg(GameMsg { msg: Some(Msg::RoomInfo(ri)), your_id: 3 });
    match &m.state {
        ClientState::WaitReady { players, msg, .. } => {
            assert_eq!(players[0], ("bob".to_string(), 3, false));
            assert_eq!(players[1], ("x".to_string(), 0, true));
            assert_eq!(msg, &vec!["Please press ENTER to get ready!".to_string()]);
        }
        other => panic!("unexpected state {:?}", other),
    }
}

#[test]
fn plays_and_leaving_during_a_game() {
    let m = gaming(vec![card(CardSuit::Heart, 7)], 0, 0, 0);
    let (m, _, _) = m.handle_stream_msg(GameMsg { msg: Some(Msg::Play(PlayInfo { player: 1, play: Play::Discard(info(1, 7)) })), your_id: 1 });
    match &m.state {
        ClientState::Gaming { next, play_cnt, last, desk, .. } => {
            assert_eq!(*next, 1);
            assert_eq!(*play_cnt, 1);
            assert_eq!(*last, Some(card(CardSuit::Heart, 7)));
            assert_eq!(desk.heart.0, vec![(card(CardSuit::Heart, 7), 2)]);
        }
        other => panic!("unexpected state {:?}", other),
    }
    let (m, _, _) = m.handle_stream_msg(GameMsg { msg: Some(Msg::ExitGame(3)), your_id: 1 });
    assert_eq!(m.exitmenu, (false, 0));
    match &m.state {
        ClientState::WaitReady { msg, players, .. } => {
            assert_eq!(msg, &vec!["Player c exits game.".to_string(), "Please press ENTER to get ready!".to_string()]);
            assert_eq!(players[2], ("c".to_string(), 3, false));
        }
        other => panic!("unexpected state {:?}", other),
    }
}
