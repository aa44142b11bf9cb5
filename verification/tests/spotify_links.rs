use ms9k::spotify::{
    link_check_result, playlist_link_is_cuttable, playlist_url_to_id, strip_playlist_url,
    token_request_body, uses_stored_credentials,
};

#[test]
fn share_link_with_marker_gives_id() {
    let url = "https://open.spotify.com/playlist/37i9dQZF1DXcBWIGoYBM5M?si=abcdef123".to_string();
    assert!(playlist_link_is_cuttable(&url));
    assert_eq!(playlist_url_to_id(url), Ok("37i9dQZF1DXcBWIGoYBM5M".to_string()));
}

#[test]
fn bare_id_is_accepted() {
    let id = "37i9dQZF1DXcBWIGoYBM5M".to_string();
    assert_eq!(playlist_url_to_id(id.clone()), Ok(id));
}

#[test]
fn link_without_marker_of_wrong_length_is_refused() {
    let url = "https://open.spotify.com/playlist/tooshort".to_string();
    assert_eq!(playlist_url_to_id(url), Err(()));
    let url = "https://open.spotify.com/playlist/37i9dQZF1DXcBWIGoYBM5Mextra".to_string();
    assert_eq!(playlist_url_to_id(url), Err(()));
}

#[test]
fn id_length_counts_bytes() {
    // 21 characters but 22 bytes: one two-byte character.
    let id = "é7i9dQZF1DXcBWIGoYBM5".to_string();
    assert_eq!(id.len(), 22);
    assert_eq!(playlist_url_to_id(id.clone()), Ok(id));
}

#[test]
fn marker_link_too_short_to_cut_is_flagged() {
    assert!(!playlist_link_is_cuttable("https://open.spotify.com/playlist/abc?si=x"));
    // byte 22 falls inside a two-byte character
    assert!(!playlist_link_is_cuttable("aaaaaaaaaaaaaaaaaaaaaéé?si=x"));
    assert!(playlist_link_is_cuttable("no marker here"));
}

#[test]
fn reading_an_id_twice_gives_the_same_id() {
    let url = "https://open.spotify.com/playlist/5ABHKGoOzxkaa28ttQV9sE?si=0123456789".to_string();
    let id = playlist_url_to_id(url).unwrap();
    assert_eq!(playlist_url_to_id(id.clone()), Ok(id));
}

#[test]
fn every_occurrence_of_the_link_start_is_removed() {
    assert_eq!(
        strip_playlist_url("https://open.spotify.com/playlist/abchttps://open.spotify.com/playlist/def"),
        "abcdef"
    );
    assert_eq!(strip_playlist_url("plain"), "plain");
}

#[test]
fn token_body_is_a_client_credentials_form() {
    assert_eq!(
        token_request_body("id1", "secret2"),
        "grant_type=client_credentials&client_id=id1&client_secret=secret2"
    );
}

#[test]
fn stored_credentials_are_used_unless_both_are_given() {
    assert!(uses_stored_credentials(&None, &Some("s".to_string())));
    assert!(uses_stored_credentials(&Some("i".to_string()), &None));
    assert!(!uses_stored_credentials(&Some("i".to_string()), &Some("s".to_string())));
}

#[test]
fn link_check_answers() {
    assert_eq!(link_check_result(200), Ok(true));
    assert_eq!(link_check_result(404), Err("invalid playlist url!".to_string()));
}
