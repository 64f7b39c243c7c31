use livesplit_gpu::markers::{bearer, marker_from, user_id_from, Marker, MarkerSession, TwitchError};
use livesplit_gpu::pixels::transpose;

#[test]
fn transpose_swaps_red_and_blue() {
    let src = [[1u8, 2, 3, 4], [10, 20, 30, 40], [255, 0, 128, 7]];
    let mut dst = [[0u8; 4]; 3];
    transpose(&mut dst, &src);
    assert_eq!(dst, [[3, 2, 1, 4], [30, 20, 10, 40], [128, 0, 255, 7]]);
}

#[test]
fn transpose_pairs_by_position() {
    let src = [[1u8, 2, 3, 4]];
    let mut dst = [[9u8; 4]; 2];
    transpose(&mut dst, &src);
    assert_eq!(dst, [[3, 2, 1, 4], [9, 9, 9, 9]]);
    let src = [[1u8, 2, 3, 4], [5, 6, 7, 8]];
    let mut dst = [[0u8; 4]; 1];
    transpose(&mut dst, &src);
    assert_eq!(dst, [[3, 2, 1, 4]]);
}

#[test]
fn session_marks_start_and_end() {
    let mut session = MarkerSession::new();
    assert_eq!(session.tick(false, 3, "Game - Any%"), None);
    assert_eq!(
        session.tick(true, 41, "Game - Any%"),
        Some("Start of attempt 41 in Game - Any%".to_string())
    );
    assert_eq!(session.running.as_deref(), Some("attempt 41 in Game - Any%"));
    assert_eq!(session.tick(true, 41, "Game - Any%"), None);
    assert_eq!(
        session.tick(false, 41, "Game - Any%"),
        Some("End of attempt 41 in Game - Any%".to_string())
    );
    assert_eq!(session.running, None);
    assert_eq!(session.tick(false, 41, "Game - Any%"), None);
    assert_eq!(
        session.tick(true, 0, "Run"),
        Some("Start of attempt 0 in Run".to_string())
    );
}

#[test]
fn bearer_header() {
    assert_eq!(bearer("abc123"), "Bearer abc123");
    assert_eq!(bearer(""), "Bearer ");
}

#[test]
fn first_user_id() {
    assert_eq!(user_id_from(vec!["17".to_string(), "18".to_string()]), Ok("17".to_string()));
    assert_eq!(user_id_from(Vec::new()), Err(TwitchError::NoUser));
    assert_eq!(TwitchError::NoUser.message(), "Twitch didn't respond with a User ID.");
}

#[test]
fn first_marker() {
    let marker = |id: &str| Marker {
        id: id.to_string(),
        created_at: "2020-06-01T12:00:00Z".to_string(),
        description: "Start of attempt 1 in Run".to_string(),
        position_seconds: 42,
    };
    let first = marker_from(vec![marker("a"), marker("b")]).ok().unwrap();
    assert_eq!(first.id, "a");
    assert_eq!(first.position_seconds, 42);
    assert!(matches!(marker_from(Vec::new()), Err(TwitchError::NoMarker)));
    assert_eq!(TwitchError::NoMarker.message(), "Twitch didn't respond with a marker.");
}
