use session_cache::command::Command;
use session_cache::session::{add_to_cart, token_user, update_token, SessionError};

#[test]
fn update_token_without_item_binds_and_marks() {
    let plan = update_token("t1", "alice", None, 1500);
    assert_eq!(plan.len(), 2);
    match &plan[0] {
        Command::HashSet { key, field, value } => {
            assert_eq!(key, "login:");
            assert_eq!(field, "t1");
            assert_eq!(value, "alice");
        }
        other => panic!("unexpected command {:?}", other),
    }
    match &plan[1] {
        Command::SortedAdd { key, member, score } => {
            assert_eq!(key, "recent:");
            assert_eq!(member, "t1");
            assert_eq!(*score, 1500);
        }
        other => panic!("unexpected command {:?}", other),
    }
}

#[test]
fn token_user_reads_reply() {
    assert_eq!(token_user(Some("alice".to_string())), Ok("alice".to_string()));
    assert_eq!(token_user(None), Err(SessionError::NotFound));
}

#[test]
fn add_to_cart_writes_decimal_quantity() {
    match add_to_cart("t1", "itemY", 3) {
        Command::HashSet { key, field, value } => {
            assert_eq!(key, "cart:t1");
            assert_eq!(field, "itemY");
            assert_eq!(value, "3");
        }
        other => panic!("unexpected command {:?}", other),
    }
}

#[test]
fn session_error_in_words() {
    assert_eq!(SessionError::NotFound.message(), "no session has this token");
}
