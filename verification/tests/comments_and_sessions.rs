use bowtie::comment::{thread_ids, Comment, CommentRemoval};
use bowtie::error::BowtieError;
use bowtie::session::{Session, SessionClaims, SignInFailure};

fn comment_with_path(path: &str) -> Comment {
    Comment {
        id: 1,
        author: 2,
        parent: None,
        body: String::from("body"),
        created: 0,
        post: 3,
        path: path.to_string(),
    }
}

#[test]
fn get_path_reads_ids_in_order() {
    assert_eq!(comment_with_path("1,2,3").get_path(), vec![1, 2, 3]);
    assert_eq!(comment_with_path(",5").get_path(), vec![5]);
    assert_eq!(comment_with_path("").get_path(), Vec::<i32>::new());
    assert_eq!(comment_with_path(" 1, x,3,, ,-4").get_path(), vec![3, -4]);
    assert_eq!(thread_ids("10,,20"), vec![10, 20]);
}

#[test]
fn path_for_top_level_and_replies() {
    assert_eq!(Comment::path_for(None), "");
    assert_eq!(Comment::path_for(Some((5, ""))), ",5");
    assert_eq!(Comment::path_for(Some((7, ",5"))), ",5,7");
    assert_eq!(Comment::path_for(Some((-3, "1,2"))), "1,2,-3");
}

#[test]
fn reply_path_extends_parent_ids() {
    let parent = Comment::path_for(Some((5, "")));
    let child = Comment::path_for(Some((9, &parent)));
    let mut expected = comment_with_path(&parent).get_path();
    expected.push(9);
    assert_eq!(comment_with_path(&child).get_path(), expected);
    assert_eq!(expected, vec![5, 9]);
}

#[test]
fn removal_depends_on_replies() {
    assert_eq!(Comment::removal_for(true), CommentRemoval::ClearBody);
    assert_eq!(Comment::removal_for(false), CommentRemoval::Delete);
}

fn views() -> Vec<(i32, String)> {
    vec![(3, String::from("main")), (4, String::from("alt")), (4, String::from("dup"))]
}

#[test]
fn session_for_user() {
    let s = Session::for_user(Some(9), views()).unwrap();
    assert_eq!(s.id, Some(9));
    assert_eq!(s.view, 3);
    assert_eq!(s.username, "main");
    assert_eq!(s.views.len(), 3);
    assert!(matches!(Session::for_user(None, views()), Err(BowtieError::RecordNotFound)));
    assert!(matches!(Session::for_user(Some(9), vec![]), Err(BowtieError::RecordNotFound)));
}

#[test]
fn session_view_switching() {
    let mut s = Session::for_user(Some(9), views()).unwrap();
    assert_eq!(s.set_view(4), Ok(()));
    assert_eq!(s.view, 4);
    assert_eq!(s.username, "alt");
    assert_eq!(s.set_view(8), Err(BowtieError::RecordNotFound));
    assert_eq!(s.view, 4);
    s.add_view(8, String::from("eight"));
    assert_eq!(s.set_view(8), Ok(()));
    assert_eq!(s.username, "eight");
    s.remove_view(4);
    assert_eq!(s.views, vec![(3, String::from("main")), (8, String::from("eight"))]);
    assert_eq!(s.set_view(4), Err(BowtieError::RecordNotFound));
    s.remove_view(4);
    assert_eq!(s.views.len(), 2);
    assert_eq!(s.user_id(), Ok(9));
    assert_eq!(Session::default().user_id(), Err(BowtieError::NoId));
}

#[test]
fn claims_round_trip() {
    let s = Session::for_user(Some(1), views()).unwrap();
    let c = SessionClaims::from_session(&s);
    let back = Session::from_claims(&c);
    assert_eq!(back.id, s.id);
    assert_eq!(back.view, s.view);
    assert_eq!(back.views, s.views);
    assert_eq!(back.username, s.username);
}

#[test]
fn token_outcomes() {
    let claims = || SessionClaims::from_session(&Session::for_user(Some(2), views()).unwrap());
    assert!(matches!(Session::from_token_parts(false, Some(true), Some(claims())), Err(BowtieError::FailedToParse)));
    assert!(matches!(Session::from_token_parts(true, None, Some(claims())), Err(BowtieError::TokenNotVerified)));
    assert!(matches!(Session::from_token_parts(true, Some(false), Some(claims())), Err(BowtieError::TokenNotVerified)));
    assert!(matches!(Session::from_token_parts(true, Some(true), None), Err(BowtieError::TokenNotVerified)));
    let s = Session::from_token_parts(true, Some(true), Some(claims())).unwrap();
    assert_eq!(s.id, Some(2));
    assert_eq!(s.view, 3);
}

#[test]
fn error_messages() {
    assert_eq!(BowtieError::RecordNotFound.message(), "Record not found");
    assert_eq!(BowtieError::NoCookieFound.message(), "User cookie not found");
    assert_eq!(BowtieError::TokenNotVerified.message(), "User token could not be verified");
}

#[test]
fn claims_round_trip_through_from() {
    let s = Session::for_user(Some(4), views()).unwrap();
    let c = SessionClaims::from(&s);
    let back = Session::from(&c);
    let again = SessionClaims::from(&back);
    assert_eq!(again.id, c.id);
    assert_eq!(again.view, c.view);
    assert_eq!(again.views, c.views);
    assert_eq!(again.username, c.username);
    assert_eq!(back.views, s.views);
}

#[test]
fn identity_of_requests() {
    let s = Session::for_user(Some(4), views()).unwrap();
    assert_eq!(Session::identity(&Ok(s)), Ok((4, 3)));
    assert_eq!(Session::identity(&Ok(Session::default())), Err(SignInFailure::UserNotFound));
    assert_eq!(Session::identity(&Err(BowtieError::NoCookieFound)), Err(SignInFailure::NotLoggedIn));
    assert_eq!(SignInFailure::NotLoggedIn.message(), "Not logged in");
    assert_eq!(SignInFailure::UserNotFound.message(), "User not found");
}
