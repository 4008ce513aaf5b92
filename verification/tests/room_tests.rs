use heart7::error::RpcError;
use heart7::proto::{CardInfo, Play, PlayerInfo, State};
use heart7::room::{Room, RoomState};

fn info(suit: i32, num: u32) -> CardInfo {
    CardInfo { suit, num }
}

fn full_room() -> Room {
    let mut r = Room::new("r1".to_string());
    for name in ["a", "b", "c", "d"] {
        r.add_player(&PlayerInfo { name: name.to_string() }).unwrap();
    }
    r
}

fn ready_all(r: &mut Room) {
    for pid in 0..4 {
        r.player_ready(pid).unwrap();
    }
}

/// Plays the whole game: each player lays the first card of the hand that
/// fits, or holds the first card when none fits.
fn play_out(r: &mut Room) {
    for _ in 0..52 {
        let pid = r.get_next() as u32;
        let gi = r.get_game_info(pid).unwrap();
        let mut done = false;
        for c in gi.cards.iter() {
            if r.play_card(pid, &Play::Discard(*c)).is_ok() {
                done = true;
                break;
            }
        }
        if !done {
            let c = gi.cards[0];
            r.play_card(pid, &Play::Hold(c)).unwrap();
        }
    }
}

#[test]
fn room_fills_up_and_refuses_a_fifth() {
    let mut r = Room::new("r1".to_string());
    assert_eq!(r.get_id(), "r1");
    assert!(r.is_alive());
    assert_eq!(r.get_state(), RoomState::NotFull);
    r.add_player(&PlayerInfo { name: "a".to_string() }).unwrap();
    let ri = r.get_room_info().unwrap();
    assert_eq!(ri.roomid, "r1");
    assert_eq!(ri.players.len(), 1);
    assert!(matches!(ri.state, Some(State::NotFull(1))));
    for name in ["b", "c", "d"] {
        r.add_player(&PlayerInfo { name: name.to_string() }).unwrap();
    }
    assert_eq!(r.get_state(), RoomState::WaitReady);
    assert_eq!(r.num_players(), 4);
    let e = r.add_player(&PlayerInfo { name: "e".to_string() }).unwrap_err();
    assert!(matches!(e, RpcError::RoomFull(ref id) if id == "r1"));
    assert_eq!(r.num_players(), 4);
}

#[test]
fn room_ready_counts_down() {
    let mut r = Room::new("r2".to_string());
    let e = r.player_ready(0).unwrap_err();
    assert!(matches!(e, RpcError::NotWaitReady(ref id) if id == "r2"));
    let mut r = full_room();
    assert_eq!(r.player_ready(2).unwrap(), 3);
    assert!(matches!(r.player_ready(2).unwrap_err(), RpcError::AlreadyReady));
    assert!(matches!(r.player_ready(7).unwrap_err(), RpcError::PlayerNotFound(7)));
    assert_eq!(r.player_ready(0).unwrap(), 2);
    assert_eq!(r.get_ready_list().l, vec![0, 2]);
    let ri = r.get_room_info().unwrap();
    match ri.state {
        Some(State::WaitReady(rl)) => assert_eq!(rl.l, vec![0, 2]),
        _ => panic!("room should wait for players"),
    }
    assert_eq!(r.player_ready(1).unwrap(), 1);
    assert_eq!(r.player_ready(3).unwrap(), 0);
    assert_eq!(r.get_ready_cnt(), 4);
    assert_eq!(r.is_player_ready(3), Some(true));
    assert_eq!(r.is_player_ready(4), None);
}

#[test]
fn start_game_with_ordered_deck_gives_suits_in_turn() {
    let mut r = full_room();
    ready_all(&mut r);
    let deck: Vec<u32> = (0..52).collect();
    let next = r.start_game_with(&deck);
    // cards 13 to 25 are the hearts, dealt to the second player
    assert_eq!(next, 1);
    assert_eq!(r.get_state(), RoomState::Gaming);
    let gi = r.get_game_info(1).unwrap();
    let mut cards = gi.cards.clone();
    cards.sort_by_key(|c| c.num);
    assert_eq!(cards, (1..14).map(|n| info(1, n)).collect::<Vec<_>>());
    let gi0 = r.get_game_info(0).unwrap();
    assert!(gi0.cards.iter().all(|c| c.suit == 0));
    assert_eq!(gi0.holds.unwrap().eachone, vec![0, 0, 0, 0]);
    assert!(matches!(r.get_game_info(9).unwrap_err(), RpcError::PlayerNotFound(9)));
}

#[test]
fn start_game_deals_every_card_once() {
    let mut r = full_room();
    ready_all(&mut r);
    let next = r.start_game();
    assert!(next < 4);
    let mut all: Vec<(i32, u32)> = Vec::new();
    for pid in 0..4u32 {
        let gi = r.get_game_info(pid).unwrap();
        assert_eq!(gi.cards.len(), 13);
        if pid == next {
            assert!(gi.cards.contains(&info(1, 7)));
        } else {
            assert!(!gi.cards.contains(&info(1, 7)));
        }
        all.extend(gi.cards.iter().map(|c| (c.suit, c.num)));
    }
    all.sort();
    let expect: Vec<(i32, u32)> = (0..4).flat_map(|s| (1..14).map(move |n| (s, n))).collect();
    assert_eq!(all, expect);
}

#[test]
fn start_game_shuffles() {
    // the chance that twenty deals in a row put the seven of hearts with the
    // same player and in the same hand is negligible
    let mut firsts = Vec::new();
    for _ in 0..20 {
        let mut r = full_room();
        ready_all(&mut r);
        let next = r.start_game();
        let mut cards = r.get_game_info(0).unwrap().cards;
        cards.sort_by_key(|c| (c.suit, c.num));
        firsts.push((next, cards));
    }
    assert!(firsts.iter().any(|f| *f != firsts[0]));
}

#[test]
fn play_card_refusals() {
    let mut r = full_room();
    assert!(matches!(r.play_card(0, &Play::Discard(info(1, 7))).unwrap_err(), RpcError::NotGaming));
    ready_all(&mut r);
    let deck: Vec<u32> = (0..52).collect();
    r.start_game_with(&deck);
    assert!(matches!(r.play_card(0, &Play::Discard(info(0, 7))).unwrap_err(), RpcError::NotYourTurn(1)));
    assert!(matches!(r.play_card(1, &Play::Discard(info(1, 8))).unwrap_err(), RpcError::InvalidDiscard));
    assert!(matches!(r.play_card(1, &Play::Discard(info(0, 8))).unwrap_err(), RpcError::NotOwned));
    assert!(matches!(r.play_card(1, &Play::Hold(info(1, 8))).unwrap_err(), RpcError::MustDiscard));
    assert_eq!(r.play_card(1, &Play::Discard(info(1, 7))).unwrap(), 1);
    assert_eq!(r.get_next(), 2);
    assert_eq!(r.get_play_cnt(), 1);
    // the third player has only clubs; none fits next to the seven of hearts
    assert!(matches!(r.play_card(2, &Play::Discard(info(2, 1))).unwrap_err(), RpcError::InvalidDiscard));
    assert_eq!(r.play_card(2, &Play::Discard(info(2, 7))).unwrap(), 2);
    let gi = r.get_game_info(3).unwrap();
    let desk = gi.desk.unwrap();
    let heart = desk.heart.unwrap();
    assert_eq!(heart.front, Some(info(1, 7)));
    assert_eq!(heart.back, Some(info(1, 7)));
    assert!(heart.front_is_thisround);
    assert!(desk.spade.is_none());
}

#[test]
fn whole_game_ends_with_every_hold_reported() {
    let mut r = full_room();
    ready_all(&mut r);
    r.start_game();
    assert!(matches!(r.end_game().unwrap_err(), RpcError::GameNotEnd));
    play_out(&mut r);
    assert_eq!(r.get_play_cnt(), 52);
    let res = r.end_game().unwrap();
    assert_eq!(r.get_state(), RoomState::EndGame);
    let desk = res.desk.unwrap();
    let laid = desk.spade.len() + desk.heart.len() + desk.club.len() + desk.diamond.len();
    let held: usize = res.hold.iter().map(|h| h.holds.len()).sum();
    assert_eq!(res.hold.len(), 4);
    assert_eq!(laid + held, 52);
    assert!(matches!(r.end_game().unwrap_err(), RpcError::RoomNotGaming));
    // the hearts chain runs upwards from its front
    let nums: Vec<u32> = desk.heart.iter().map(|c| c.card.unwrap().num).collect();
    for w in nums.windows(2) {
        assert_eq!(w[0] + 1, w[1]);
    }
}

#[test]
fn exit_game_and_exit_room() {
    let mut r = full_room();
    assert_eq!(r.exit_game(0).unwrap(), false);
    assert!(matches!(r.exit_game(5).unwrap_err(), RpcError::PlayerNotFound(5)));
    ready_all(&mut r);
    r.start_game();
    assert_eq!(r.exit_game(2).unwrap(), true);
    assert_eq!(r.get_state(), RoomState::WaitReady);
    assert_eq!(r.get_ready_cnt(), 0);
    assert_eq!(r.is_player_ready(0), Some(false));
    assert_eq!(r.exit_room(1).unwrap(), 3);
    assert_eq!(r.get_state(), RoomState::NotFull);
    let names: Vec<String> = r.get_room_info().unwrap().players.into_iter().map(|p| p.name).collect();
    assert_eq!(names, vec!["a", "c", "d"]);
    assert!(matches!(r.exit_game(0).unwrap_err(), RpcError::NotInGame));
    assert!(matches!(r.exit_room(3).unwrap_err(), RpcError::PlayerNotFound(3)));
}

#[test]
fn kill_unready_keeps_the_ready_players() {
    let mut r = full_room();
    r.player_ready(1).unwrap();
    r.player_ready(3).unwrap();
    assert_eq!(r.kill_unready().unwrap(), 2);
    assert_eq!(r.get_state(), RoomState::NotFull);
    assert_eq!(r.get_ready_cnt(), 0);
    let names: Vec<String> = r.get_room_info().unwrap().players.into_iter().map(|p| p.name).collect();
    assert_eq!(names, vec!["b", "d"]);
    // the kept players stay ready, as the room had them
    assert_eq!(r.is_player_ready(0), Some(true));
}

#[test]
fn watch_dog_gives_one_period_of_grace() {
    let mut r = full_room();
    r.player_ready(0).unwrap();
    assert!(r.is_player_alive());
    assert!(!r.player_watch_dog());
    assert!(!r.is_player_alive());
    assert!(r.player_watch_dog());
    assert_eq!(r.num_players(), 1);
    assert_eq!(r.get_state(), RoomState::NotFull);
    // a room that is not full is left alone
    assert!(!r.player_watch_dog());
    assert_eq!(r.num_players(), 1);

    let mut g = full_room();
    ready_all(&mut g);
    let next = g.start_game() as usize;
    assert!(!g.player_watch_dog());
    assert!(g.player_watch_dog());
    assert_eq!(g.num_players(), 3);
    assert_eq!(g.get_state(), RoomState::NotFull);
    let _ = next;
}

#[test]
fn alive_flag() {
    let mut r = Room::new("x".to_string());
    r.unset_alive();
    assert!(!r.is_alive());
    r.set_alive();
    assert!(r.is_alive());
    // the room watch dog spares a used room once, then removes it
    assert!(!r.room_watch_dog());
    assert!(!r.is_alive());
    assert!(r.room_watch_dog());
    assert!(!r.is_alive());
}

#[test]
fn every_play_takes_one_card_from_the_hands() {
    let mut r = full_room();
    ready_all(&mut r);
    r.start_game();
    let in_hands = |r: &Room| -> usize { (0..4u32).map(|p| r.get_game_info(p).unwrap().cards.len()).sum() };
    assert_eq!(in_hands(&r) + r.get_play_cnt() as usize, 52);
    for _ in 0..10 {
        let pid = r.get_next() as u32;
        let gi = r.get_game_info(pid).unwrap();
        let before = in_hands(&r) + r.get_play_cnt() as usize;
        if !gi.cards.iter().any(|c| r.play_card(pid, &Play::Discard(*c)).is_ok()) {
            r.play_card(pid, &Play::Hold(gi.cards[0])).unwrap();
        }
        assert_eq!(in_hands(&r) + r.get_play_cnt() as usize, before);
    }
}
