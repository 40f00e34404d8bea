use std::sync::mpsc;

use asteroids::web::{is_allowed_char, LeaderboardState, SendData, TopResponse, WebClient};

fn line(name: &str, score: u32) -> SendData {
    SendData { name: name.to_string(), score }
}

#[test]
fn a_nickname_keeps_letters_underscores_and_spaces_only() {
    let mut client = WebClient::new();
    client.change_nickname("a-b_c d!1é".to_string());
    assert_eq!(client.get_nickname(), "ab_c d");
    client.change_nickname("Zz Aa".to_string());
    assert_eq!(client.get_nickname(), "Zz Aa");
    client.change_nickname("1234".to_string());
    assert_eq!(client.get_nickname(), "");
}

#[test]
fn a_nickname_is_cut_to_sixteen_characters() {
    let mut client = WebClient::new();
    client.change_nickname("abcdefghijklmnopqrstuvwxyz".to_string());
    assert_eq!(client.get_nickname(), "abcdefghijklmnop");
    client.change_nickname("0a1b2c3d4e5f6g7h8i9j0k1l2m3n4o5p6q7r".to_string());
    assert_eq!(client.get_nickname(), "abcdefghijklmnop");
    client.change_nickname("abcdefghijklmnop".to_string());
    assert_eq!(client.get_nickname(), "abcdefghijklmnop");
}

#[test]
fn allowed_characters() {
    for ch in ['a', 'z', 'A', 'Z', 'm', '_', ' '] {
        assert!(is_allowed_char(ch));
    }
    for ch in ['0', '9', '-', '.', '@', '[', '`', '{', 'é', 'я', '\n', '\t'] {
        assert!(!is_allowed_char(ch));
    }
}

#[test]
fn a_name_of_two_characters_can_be_submitted() {
    let mut client = WebClient::new();
    assert!(!client.is_available_name());
    client.change_nickname("a".to_string());
    assert!(!client.is_available_name());
    client.change_nickname("ab".to_string());
    assert!(client.is_available_name());
    client.change_nickname("a1".to_string());
    assert!(!client.is_available_name());
}

#[test]
fn the_submission_carries_the_nickname_and_the_score() {
    let mut client = WebClient::new();
    client.change_nickname("Grace".to_string());
    let data = client.send_web_data(4200);
    assert_eq!(data.name, "Grace");
    assert_eq!(data.score, 4200);
}

#[test]
fn a_new_client_is_idle() {
    let mut client = WebClient::default();
    assert!(matches!(client.get_leaderboard(), LeaderboardState::Idle));
    client.poll_network();
    assert!(matches!(client.get_leaderboard(), LeaderboardState::Idle));
    assert_eq!(client.get_nickname(), "");
}

#[test]
fn a_fetch_is_loading_until_its_outcome_arrives() {
    let mut client = WebClient::new();
    let (sender, receiver) = mpsc::channel();
    assert!(client.get_leaderboard_data(receiver));
    assert!(matches!(client.get_leaderboard(), LeaderboardState::Loading));
    client.poll_network();
    assert!(matches!(client.get_leaderboard(), LeaderboardState::Loading));
    sender.send(LeaderboardState::Ready(vec![line("Ada", 3), line("Bob", 2)])).unwrap();
    client.poll_network();
    match client.get_leaderboard() {
        LeaderboardState::Ready(top) => {
            assert_eq!(top.len(), 2);
            assert_eq!((top[0].name.as_str(), top[0].score), ("Ada", 3));
            assert_eq!((top[1].name.as_str(), top[1].score), ("Bob", 2));
        }
        _ => panic!("the list has arrived"),
    }
    // The fetch is over: what is sent later is not looked at.
    let _ = sender.send(LeaderboardState::Error("late".to_string()));
    client.poll_network();
    assert!(matches!(client.get_leaderboard(), LeaderboardState::Ready(_)));
}

#[test]
fn a_second_request_while_loading_wins_over_the_first() {
    let mut client = WebClient::new();
    let (first_sender, first) = mpsc::channel();
    let (second_sender, second) = mpsc::channel();
    assert!(client.get_leaderboard_data(first));
    assert!(client.get_leaderboard_data(second));
    assert!(matches!(client.get_leaderboard(), LeaderboardState::Loading));
    // The first channel was let go: what the first fetch ends with has
    // nowhere to arrive.
    assert!(first_sender.send(LeaderboardState::Ready(vec![line("First", 1)])).is_err());
    client.poll_network();
    assert!(matches!(client.get_leaderboard(), LeaderboardState::Loading));
    second_sender.send(LeaderboardState::Ready(vec![line("Second", 2)])).unwrap();
    client.poll_network();
    match client.get_leaderboard() {
        LeaderboardState::Ready(top) => {
            assert_eq!(top.len(), 1);
            assert_eq!(top[0].name, "Second");
        }
        _ => panic!("the second fetch has ended"),
    }
}

#[test]
fn a_request_is_started_from_every_state() {
    let mut client = WebClient::new();
    let (_idle, receiver) = mpsc::channel();
    assert!(client.get_leaderboard_data(receiver));
    client.receive(Some(LeaderboardState::Ready(Vec::new())));
    let (_ready, receiver) = mpsc::channel();
    assert!(client.get_leaderboard_data(receiver));
    assert!(matches!(client.get_leaderboard(), LeaderboardState::Loading));
    client.receive(Some(LeaderboardState::Error("down".to_string())));
    let (_error, receiver) = mpsc::channel();
    assert!(client.get_leaderboard_data(receiver));
    assert!(matches!(client.get_leaderboard(), LeaderboardState::Loading));
    let (_loading, receiver) = mpsc::channel();
    assert!(client.get_leaderboard_data(receiver));
    assert!(matches!(client.get_leaderboard(), LeaderboardState::Loading));
}

#[test]
fn a_new_request_discards_the_outcome_of_the_one_before() {
    let mut client = WebClient::new();
    let (old_sender, old) = mpsc::channel();
    assert!(client.get_leaderboard_data(old));
    client.receive(Some(LeaderboardState::Error("gave up".to_string())));
    let (new_sender, new) = mpsc::channel();
    assert!(client.get_leaderboard_data(new));
    let _ = old_sender.send(LeaderboardState::Ready(vec![line("Old", 1)]));
    client.poll_network();
    assert!(matches!(client.get_leaderboard(), LeaderboardState::Loading));
    new_sender.send(LeaderboardState::Ready(vec![line("New", 2)])).unwrap();
    client.poll_network();
    match client.get_leaderboard() {
        LeaderboardState::Ready(top) => assert_eq!(top[0].name, "New"),
        _ => panic!("the new list has arrived"),
    }
}

#[test]
fn an_error_stays_until_the_next_request() {
    let mut client = WebClient::new();
    let (sender, receiver) = mpsc::channel();
    client.get_leaderboard_data(receiver);
    sender.send(LeaderboardState::Error("HTTP 500".to_string())).unwrap();
    client.poll_network();
    for _ in 0..3 {
        client.poll_network();
        assert!(matches!(client.get_leaderboard(), LeaderboardState::Error(_)));
    }
    let (_again, receiver) = mpsc::channel();
    assert!(client.get_leaderboard_data(receiver));
    assert!(matches!(client.get_leaderboard(), LeaderboardState::Loading));
}

#[test]
fn receiving_nothing_changes_nothing() {
    let mut client = WebClient::new();
    client.change_nickname("Ada".to_string());
    client.receive(None);
    assert!(matches!(client.get_leaderboard(), LeaderboardState::Idle));
    assert_eq!(client.get_nickname(), "Ada");
}

#[test]
fn an_accepted_reply_is_the_top_list() {
    let reply = TopResponse { ok: true, top: vec![line("Ada", 9)], error: Some("ignored".to_string()) };
    match LeaderboardState::from_reply(reply) {
        LeaderboardState::Ready(top) => {
            assert_eq!(top.len(), 1);
            assert_eq!(top[0].name, "Ada");
            assert_eq!(top[0].score, 9);
        }
        _ => panic!("an accepted reply is ready"),
    }
    let empty = TopResponse { ok: true, top: Vec::new(), error: None };
    assert!(matches!(LeaderboardState::from_reply(empty), LeaderboardState::Ready(top) if top.is_empty()));
}

#[test]
fn a_refused_reply_is_an_error_with_the_servers_complaint() {
    let reply = TopResponse { ok: false, top: vec![line("Ada", 9)], error: Some("bad token".to_string()) };
    match LeaderboardState::from_reply(reply) {
        LeaderboardState::Error(message) => assert_eq!(message, "bad token"),
        _ => panic!("a refused reply is an error"),
    }
    let silent = TopResponse { ok: false, top: Vec::new(), error: None };
    match LeaderboardState::from_reply(silent) {
        LeaderboardState::Error(message) => assert_eq!(message, "Server error"),
        _ => panic!("a refused reply is an error"),
    }
}

#[test]
fn copies_of_the_state_are_equal_to_it() {
    let state = LeaderboardState::Ready(vec![line("Ada", 1), line("Bob", 2)]);
    match state.clone() {
        LeaderboardState::Ready(top) => {
            assert_eq!(top.len(), 2);
            assert_eq!(top[1].name, "Bob");
            assert_eq!(top[1].score, 2);
        }
        _ => panic!("a copy of a list is a list"),
    }
    assert!(matches!(LeaderboardState::default(), LeaderboardState::Idle));
    assert!(matches!(LeaderboardState::Loading.clone(), LeaderboardState::Loading));
    match LeaderboardState::Error("x".to_string()).clone() {
        LeaderboardState::Error(message) => assert_eq!(message, "x"),
        _ => panic!("a copy of an error is an error"),
    }
}
