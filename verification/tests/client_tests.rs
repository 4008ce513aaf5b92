use heart7::client::card::{get_card_text, CardAppearance};
use heart7::client::desk::Desk;
use heart7::client::event::{ClientEvent, EventHandler, KeyCode, KeyPress, TermEventHandler};
use heart7::client::flow::{
    connect_step, enter_action, exit_menu_action, exit_menu_buttons, exit_menu_move, move_exit_menu,
    stream_accepts_exec, stream_step, EnterAction, EnterContext, ExitAction, ExitMenuEvent, MsgKind, Screen, Step,
};
use heart7::client::state::{
    apply_play, cards_from_infos, find_place, gaming_players, get_local_idx, get_remote_idx, hold_sum, make_play, move_choice, next_button,
    parse_desk_result, parse_hold_result, room_info_to_players, someone_get_ready, sort_cards, sort_pairs_desc,
    take_played, waiting_players,
};
use heart7::game::Card;
use heart7::proto::{CardInfo, CardResult, CardSuit, DeskResult, HoldList, Play, PlayerInfo, ReadyList, RoomInfo, State};

fn card(suit: CardSuit, num: u32) -> Card {
    Card { suit, num }
}

fn info(suit: i32, num: u32) -> CardInfo {
    CardInfo { suit, num }
}

fn room(names: &[&str], state: State) -> RoomInfo {
    RoomInfo {
        roomid: "r".to_string(),
        players: names.iter().map(|n| PlayerInfo { name: n.to_string() }).collect(),
        state: Some(state),
    }
}

#[test]
fn client_desk_hint_on_empty_desk() {
    let d = Desk::default();
    assert!(d.is_empty());
    let hint = d.get_play_hint(&vec![card(CardSuit::Heart, 7), card(CardSuit::Spade, 7), card(CardSuit::Heart, 8)]);
    assert_eq!(hint, vec![true, false, false]);
}

#[test]
fn client_desk_add_and_new_round() {
    let mut d = Desk::default();
    d.add(card(CardSuit::Heart, 7), false);
    d.add(card(CardSuit::Heart, 8), true);
    d.add(card(CardSuit::Heart, 6), false);
    assert_eq!(d.heart.0, vec![(card(CardSuit::Heart, 6), 1), (card(CardSuit::Heart, 7), 1)]);
    assert_eq!(d.heart.1, vec![(card(CardSuit::Heart, 8), 2)]);
    let hint = d.get_play_hint(&vec![
        card(CardSuit::Heart, 5),
        card(CardSuit::Heart, 9),
        card(CardSuit::Heart, 7),
        card(CardSuit::Club, 7),
        card(CardSuit::Club, 8),
    ]);
    assert_eq!(hint, vec![true, true, false, true, false]);
    d.new_round();
    assert_eq!(d.heart.0, vec![(card(CardSuit::Heart, 6), 0)]);
    assert_eq!(d.heart.1, vec![(card(CardSuit::Heart, 8), 0)]);
    // a card of a new round replaces the lone card of an earlier one
    d.add(card(CardSuit::Heart, 5), true);
    assert_eq!(d.heart.0, vec![(card(CardSuit::Heart, 5), 2)]);
    assert!(!d.is_empty());
}

#[test]
fn client_desk_ace_and_king_end_hints() {
    let mut d = Desk::default();
    d.spade.0 = vec![(card(CardSuit::Spade, 1), 0)];
    d.spade.1 = vec![(card(CardSuit::Spade, 13), 0)];
    let hint = d.get_play_hint(&vec![card(CardSuit::Spade, 0), card(CardSuit::Spade, 14), card(CardSuit::Heart, 7)]);
    assert_eq!(hint, vec![false, false, true]);
}

#[test]
fn sort_cards_orders_by_suit_then_rank() {
    let mut v = vec![
        card(CardSuit::Diamond, 2),
        card(CardSuit::Spade, 13),
        card(CardSuit::Heart, 1),
        card(CardSuit::Spade, 2),
        card(CardSuit::Heart, 1),
    ];
    sort_cards(&mut v);
    assert_eq!(
        v,
        vec![
            card(CardSuit::Spade, 2),
            card(CardSuit::Spade, 13),
            card(CardSuit::Heart, 1),
            card(CardSuit::Heart, 1),
            card(CardSuit::Diamond, 2)
        ]
    );
    let mut e: Vec<Card> = vec![];
    sort_cards(&mut e);
    assert!(e.is_empty());
}

#[test]
fn sort_pairs_desc_orders_backwards() {
    let mut v = vec![(card(CardSuit::Club, 3), 1), (card(CardSuit::Club, 9), 0), (card(CardSuit::Club, 3), 2)];
    sort_pairs_desc(&mut v);
    assert_eq!(v, vec![(card(CardSuit::Club, 9), 0), (card(CardSuit::Club, 3), 2), (card(CardSuit::Club, 3), 1)]);
}

#[test]
fn room_info_seen_from_a_place() {
    let ri = room(&["a", "b", "c"], State::WaitReady(ReadyList { l: vec![0, 2] }));
    let ps = room_info_to_players(1, &ri);
    assert_eq!(
        ps,
        vec![
            ("b".to_string(), 1, false),
            ("c".to_string(), 2, true),
            ("".to_string(), 0, false),
            ("a".to_string(), 0, true)
        ]
    );
    let ri = room(&["a", "b"], State::NotFull(2));
    let ps = room_info_to_players(0, &ri);
    assert_eq!(ps[1], ("b".to_string(), 1, false));
    assert_eq!(ps[2], ("".to_string(), 0, false));
}

#[test]
fn local_and_remote_places_undo_each_other() {
    for me in 0..4usize {
        for idx in 0..4usize {
            assert_eq!(get_remote_idx(me, get_local_idx(me, idx)), idx);
            assert_eq!(get_local_idx(me, get_remote_idx(me, idx)), idx);
        }
    }
    assert_eq!(get_local_idx(2, 1), 3);
    assert_eq!(get_remote_idx(2, 3), 1);
}

#[test]
fn someone_get_ready_marks_the_first_at_the_place() {
    let mut ps = vec![("a".to_string(), 0, false), ("b".to_string(), 3, false), ("c".to_string(), 3, false)];
    someone_get_ready(&mut ps, 3);
    assert_eq!(ps, vec![("a".to_string(), 0, false), ("b".to_string(), 3, true), ("c".to_string(), 3, false)]);
}

#[test]
fn hold_sum_adds_ranks() {
    assert_eq!(hold_sum(&vec![]), 0);
    assert_eq!(hold_sum(&vec![card(CardSuit::Spade, 13), card(CardSuit::Heart, 1), card(CardSuit::Club, 5)]), 19);
}

#[test]
fn cards_from_infos_reads_each() {
    assert_eq!(
        cards_from_infos(&vec![info(2, 4), info(0, 13)]),
        vec![card(CardSuit::Club, 4), card(CardSuit::Spade, 13)]
    );
}

#[test]
fn parse_results_in_client_order() {
    let players = vec![("me".to_string(), 2usize, 1u32), ("x".to_string(), 3, 0), ("y".to_string(), 0, 2)];
    let cr = |s: i32, n: u32, w: u32| CardResult { card: Some(info(s, n)), whose: w };
    let ds = DeskResult {
        spade: vec![],
        heart: vec![cr(1, 6, 0), cr(1, 7, 2), cr(1, 8, 3)],
        club: vec![],
        diamond: vec![cr(3, 7, 2)],
    };
    let pd = parse_desk_result(&ds, &players);
    assert_eq!(pd.len(), 4);
    assert!(pd[0].is_empty());
    assert_eq!(
        pd[1],
        vec![(card(CardSuit::Heart, 8), 1), (card(CardSuit::Heart, 7), 0), (card(CardSuit::Heart, 6), 2)]
    );
    assert_eq!(pd[3], vec![(card(CardSuit::Diamond, 7), 0)]);
    let hs = vec![
        HoldList { holds: vec![info(0, 1), info(0, 2)] },
        HoldList { holds: vec![] },
        HoldList { holds: vec![info(2, 9)] },
        HoldList { holds: vec![] },
    ];
    let mine = vec![card(CardSuit::Club, 9)];
    let ph = parse_hold_result(&hs, &players, &mine);
    assert_eq!(ph.len(), 4);
    assert_eq!(ph[0], ("me".to_string(), 2, vec![card(CardSuit::Club, 9)]));
    assert_eq!(ph[1], ("x".to_string(), 3, vec![]));
    assert_eq!(ph[2], ("y".to_string(), 0, vec![card(CardSuit::Spade, 1), card(CardSuit::Spade, 2)]));
    assert_eq!(ph[3], ("".to_string(), 0, vec![]));
}

#[test]
fn apply_play_follows_discards_and_holds() {
    let mut players = vec![
        ("me".to_string(), 1usize, 0u32),
        ("b".to_string(), 2, 0),
        ("c".to_string(), 3, 0),
        ("a".to_string(), 0, 0),
    ];
    let mut next: usize = 0;
    let mut last: Option<Card> = None;
    let mut has_last = false;
    let mut desk = Desk::default();
    let mut play_cnt: u32 = 0;
    apply_play(&mut players, &mut next, &mut last, &mut has_last, &mut desk, &mut play_cnt, 1, Play::Discard(info(1, 7)));
    assert_eq!(play_cnt, 1);
    assert_eq!(next, 1);
    assert!(has_last);
    assert_eq!(last, Some(card(CardSuit::Heart, 7)));
    assert_eq!(desk.heart.0, vec![(card(CardSuit::Heart, 7), 2)]);
    apply_play(&mut players, &mut next, &mut last, &mut has_last, &mut desk, &mut play_cnt, 2, Play::Hold(info(0, 0)));
    assert_eq!(last, None);
    assert_eq!(players[1].2, 1);
    assert_eq!(next, 2);
    apply_play(&mut players, &mut next, &mut last, &mut has_last, &mut desk, &mut play_cnt, 3, Play::Discard(info(1, 8)));
    apply_play(&mut players, &mut next, &mut last, &mut has_last, &mut desk, &mut play_cnt, 0, Play::Discard(info(1, 6)));
    assert_eq!(next, 0);
    assert_eq!(desk.heart.0, vec![(card(CardSuit::Heart, 6), 1), (card(CardSuit::Heart, 7), 2)]);
    // the fifth play starts a new round
    apply_play(&mut players, &mut next, &mut last, &mut has_last, &mut desk, &mut play_cnt, 1, Play::Discard(info(1, 9)));
    assert_eq!(desk.heart.0, vec![(card(CardSuit::Heart, 6), 0)]);
    assert_eq!(desk.heart.1, vec![(card(CardSuit::Heart, 9), 2)]);
    assert_eq!(play_cnt, 5);
}

#[test]
fn choice_moves_wrap_and_undo() {
    assert_eq!(move_choice(0, 5, true), 5);
    assert_eq!(move_choice(5, 5, false), 0);
    assert_eq!(move_choice(2, 5, false), 3);
    for c in 0..=5usize {
        assert_eq!(move_choice(move_choice(c, 5, true), 5, false), c);
        assert_eq!(move_choice(move_choice(c, 5, false), 5, true), c);
    }
    assert_eq!(next_button(0), 1);
    assert_eq!(next_button(1), 0);
}

#[test]
fn make_play_and_take_played() {
    let mut cards = vec![card(CardSuit::Club, 2), card(CardSuit::Heart, 9), card(CardSuit::Spade, 4)];
    assert_eq!(make_play(&cards, 2, 0), Play::Discard(info(1, 9)));
    assert_eq!(make_play(&cards, 3, 1), Play::Hold(info(0, 4)));
    let mut holds = vec![card(CardSuit::Diamond, 1)];
    let mut choose: usize = 3;
    take_played(&mut cards, &mut holds, &mut choose, 1);
    assert_eq!(choose, 0);
    assert_eq!(cards, vec![card(CardSuit::Club, 2), card(CardSuit::Heart, 9)]);
    assert_eq!(holds, vec![card(CardSuit::Spade, 4), card(CardSuit::Diamond, 1)]);
    let mut choose: usize = 1;
    take_played(&mut cards, &mut holds, &mut choose, 0);
    assert_eq!(cards, vec![card(CardSuit::Heart, 9)]);
    assert_eq!(holds.len(), 2);
}

#[test]
fn exit_menu_buttons_and_moves() {
    assert_eq!(exit_menu_buttons(Screen::AskName), 2);
    assert_eq!(exit_menu_buttons(Screen::WaitReady), 3);
    assert_eq!(exit_menu_buttons(Screen::Gaming), 4);
    assert_eq!(move_exit_menu(0, 3, true), 2);
    assert_eq!(move_exit_menu(2, 3, false), 0);
    assert_eq!(exit_menu_move(1, Screen::Gaming, ExitMenuEvent::MoveDown), 2);
    assert_eq!(exit_menu_move(0, Screen::Gaming, ExitMenuEvent::MoveUp), 3);
    assert_eq!(exit_menu_move(1, Screen::Gaming, ExitMenuEvent::Enter), 1);
}

#[test]
fn exit_menu_actions() {
    assert_eq!(exit_menu_action(Screen::Gaming, 0), (ExitAction::Close, false));
    assert_eq!(exit_menu_action(Screen::Gaming, 1), (ExitAction::LeaveGame, false));
    assert_eq!(exit_menu_action(Screen::GameResult, 2), (ExitAction::LeaveRoom, false));
    assert_eq!(exit_menu_action(Screen::Gaming, 3), (ExitAction::LeaveRoomAndQuit, false));
    assert_eq!(exit_menu_action(Screen::WaitPlayer, 1), (ExitAction::LeaveRoom, false));
    assert_eq!(exit_menu_action(Screen::WaitReady, 2), (ExitAction::LeaveRoomAndQuit, false));
    assert_eq!(exit_menu_action(Screen::JoinRoom, 1), (ExitAction::Quit, true));
    assert_eq!(exit_menu_action(Screen::GetServer, 1), (ExitAction::Quit, false));
}

#[test]
fn stream_messages_lead_between_screens() {
    assert!(stream_accepts_exec(Screen::WaitPlayer, MsgKind::RoomInfo(false)));
    assert!(!stream_accepts_exec(Screen::WaitPlayer, MsgKind::Start));
    assert!(!stream_accepts_exec(Screen::AskName, MsgKind::Empty));
    assert!(!stream_accepts_exec(Screen::Gaming, MsgKind::WhoReady));
    assert_eq!(stream_step(Screen::WaitPlayer, MsgKind::RoomInfo(true)), Step::Goto(Screen::WaitReady));
    assert_eq!(stream_step(Screen::WaitPlayer, MsgKind::RoomInfo(false)), Step::Stay(true));
    assert_eq!(stream_step(Screen::WaitReady, MsgKind::Start), Step::Goto(Screen::Gaming));
    assert_eq!(stream_step(Screen::WaitReady, MsgKind::LoseConnection), Step::Goto(Screen::WaitPlayer));
    assert_eq!(stream_step(Screen::Gaming, MsgKind::Endgame), Step::Goto(Screen::GameResult));
    assert_eq!(stream_step(Screen::Gaming, MsgKind::ExitGame), Step::Goto(Screen::WaitReady));
    assert_eq!(stream_step(Screen::Gaming, MsgKind::Play), Step::Stay(true));
    assert_eq!(stream_step(Screen::GameResult, MsgKind::ExitGame), Step::Stay(false));
    assert_eq!(stream_step(Screen::GameResult, MsgKind::ExitRoom), Step::Goto(Screen::WaitPlayer));
    assert_eq!(connect_step(Screen::GetServer, true, true), Some(Step::Goto(Screen::AskName)));
    assert_eq!(connect_step(Screen::GetServer, true, false), Some(Step::Stay(true)));
    assert_eq!(connect_step(Screen::GetServer, false, true), None);
    assert_eq!(connect_step(Screen::Gaming, true, true), None);
}

#[test]
fn enter_key_actions() {
    let cx = EnterContext {
        connecting: false,
        is_input: false,
        button: 1,
        me_ready: false,
        n_cards: 3,
        choose: 2,
        next: 0,
    };
    assert_eq!(enter_action(Screen::GetServer, cx), EnterAction::Connect);
    assert_eq!(enter_action(Screen::GetServer, EnterContext { connecting: true, ..cx }), EnterAction::Ignore);
    assert_eq!(enter_action(Screen::AskName, cx), EnterAction::ToJoinRoom);
    assert_eq!(enter_action(Screen::AskName, EnterContext { button: 0, ..cx }), EnterAction::ToNewRoom);
    assert_eq!(enter_action(Screen::AskName, EnterContext { is_input: true, ..cx }), EnterAction::Ignore);
    assert_eq!(enter_action(Screen::NewRoom, cx), EnterAction::RequestNewRoom);
    assert_eq!(enter_action(Screen::JoinRoom, cx), EnterAction::RequestJoinRoom);
    assert_eq!(enter_action(Screen::WaitReady, cx), EnterAction::GetReady);
    assert_eq!(enter_action(Screen::WaitReady, EnterContext { me_ready: true, ..cx }), EnterAction::Ignore);
    assert_eq!(enter_action(Screen::Gaming, cx), EnterAction::PlayCard);
    assert_eq!(enter_action(Screen::Gaming, EnterContext { next: 2, ..cx }), EnterAction::Ignore);
    assert_eq!(enter_action(Screen::Gaming, EnterContext { choose: 0, ..cx }), EnterAction::Ignore);
    assert_eq!(enter_action(Screen::GameResult, cx), EnterAction::ConfirmResult);
    assert_eq!(enter_action(Screen::WaitPlayer, cx), EnterAction::Ignore);
}

#[test]
fn key_events() {
    let h = TermEventHandler::new();
    let k = |code: KeyCode, control: bool| KeyPress { code, control };
    let e: Option<ClientEvent<(), ()>> = h.key_event(k(KeyCode::Char('c'), true));
    assert!(matches!(e, Some(ClientEvent::CtrlC)));
    let e: Option<ClientEvent<(), ()>> = h.key_event(k(KeyCode::Char('L'), true));
    assert!(matches!(e, Some(ClientEvent::Refresh)));
    let e: Option<ClientEvent<(), ()>> = h.key_event(k(KeyCode::Char('c'), false));
    assert!(matches!(e, Some(ClientEvent::Type('c'))));
    let e: Option<ClientEvent<(), ()>> = h.key_event(k(KeyCode::Right, false));
    assert!(matches!(e, Some(ClientEvent::RightArrow)));
    let e: Option<ClientEvent<(), ()>> = h.key_event(k(KeyCode::Up, false));
    assert!(matches!(e, Some(ClientEvent::UpArrow)));
    let e: Option<ClientEvent<(), ()>> = h.key_event(k(KeyCode::Other, false));
    assert!(e.is_none());
    let old = EventHandler::new();
    let e: Option<ClientEvent<(), ()>> = old.key_event(k(KeyCode::Right, false));
    assert!(matches!(e, Some(ClientEvent::LeftArrow)));
    let e: Option<ClientEvent<(), ()>> = old.key_event(k(KeyCode::Up, false));
    assert!(e.is_none());
    let e: Option<ClientEvent<(), ()>> = old.key_event(k(KeyCode::Enter, false));
    assert!(matches!(e, Some(ClientEvent::Enter)));
}

#[test]
fn card_glyphs() {
    assert_eq!(get_card_text(&card(CardSuit::Heart, 7)), ("󰣐".to_string(), "󰭀".to_string()));
    assert_eq!(get_card_text(&card(CardSuit::Spade, 1)), ("󰣑".to_string(), "󰫮".to_string()));
    assert_eq!(get_card_text(&card(CardSuit::Diamond, 13)), ("󰣏".to_string(), "󰫸".to_string()));
    assert_eq!(get_card_text(&card(CardSuit::Club, 10)).1, "󰿩");
    assert_ne!(CardAppearance::All, CardAppearance::Half);
}

#[test]
fn players_between_waiting_and_gaming() {
    let waiting = vec![("me".to_string(), 2usize, true), ("x".to_string(), 3, false), ("y".to_string(), 0, true)];
    let gaming = gaming_players(&waiting);
    assert_eq!(gaming, vec![("me".to_string(), 2, 0), ("x".to_string(), 3, 0), ("y".to_string(), 0, 0)]);
    assert_eq!(find_place(&gaming, 0), 2);
    assert_eq!(find_place(&gaming, 2), 0);
    let mut g = gaming.clone();
    g[1].2 = 4;
    let back = waiting_players(&g);
    assert_eq!(back, vec![("me".to_string(), 2, false), ("x".to_string(), 3, false), ("y".to_string(), 0, false)]);
}

#[test]
fn exit_menu_up_then_down_comes_back() {
    for screen in [Screen::AskName, Screen::WaitReady, Screen::Gaming, Screen::GameResult] {
        for cur in 0..exit_menu_buttons(screen) {
            let up = exit_menu_move(cur, screen, ExitMenuEvent::MoveUp);
            assert_eq!(exit_menu_move(up, screen, ExitMenuEvent::MoveDown), cur);
            let down = exit_menu_move(cur, screen, ExitMenuEvent::MoveDown);
            assert_eq!(exit_menu_move(down, screen, ExitMenuEvent::MoveUp), cur);
        }
    }
}

#[test]
fn client_desk_keeps_its_shape() {
    let mut d = Desk::default();
    for (i, n) in [7u32, 6, 8, 5, 9].iter().enumerate() {
        if i == 3 {
            d.new_round();
        }
        d.add(card(CardSuit::Club, *n), i % 2 == 0);
    }
    for side in [&d.club.0, &d.club.1] {
        for w in side.windows(2) {
            assert!(w[0].0.num.abs_diff(7) > w[1].0.num.abs_diff(7));
        }
        assert!(side.iter().all(|x| x.1 <= 2 && (x.1 != 0 || side.len() == 1)));
    }
    assert!(d.club.0.iter().all(|x| (1..=7).contains(&x.0.num)));
    assert!(d.club.1.iter().all(|x| (8..=13).contains(&x.0.num)));
}
