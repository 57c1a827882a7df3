use movie_night::dinkdonk::{CreateOption, Dinkdonk, DinkdonkError, Movie, TMDbSearch};

#[test]
fn generic_movie_knows_only_title_id_and_runtime() {
    let m = Movie::make_generic_movie("Alien".to_owned(), Some(348), Some(117));
    assert_eq!(m.title, "Alien");
    assert_eq!(m.tmdb_id, Some(348));
    assert_eq!(m.runtime, Some(117));
    assert!(m.release_date.is_none() && m.imdb_id.is_none() && m.genres.is_none());
    assert!(m.poster_path.is_none() && m.vote_average_bits.is_none());
    assert!(m.vote_count.is_none() && m.last_watched.is_none());
}

#[test]
fn generic_list_is_three_test_movies() {
    match Movie::make_generic_list() {
        CreateOption::MovieObjects(list) => {
            let titles: Vec<&str> = list.iter().map(|m| m.title.as_str()).collect();
            assert_eq!(titles, vec!["Test", "Test1", "Test3"]);
            for m in &list {
                assert_eq!(m.tmdb_id, Some(307124));
                assert_eq!(m.runtime, Some(86));
            }
        }
        CreateOption::StringOptions(_) => panic!("expected movies"),
    }
}

#[test]
fn rating_options_match_float_formatting() {
    let options = Dinkdonk::rating_poll_options();
    let mut expected: Vec<String> = Vec::new();
    for i in 1..11 {
        let val: f32 = (i as f32) / 2.0;
        expected.push(format!("{}/5", val));
    }
    expected.push("Didn't Watch".to_owned());
    assert_eq!(options, expected);
    assert_eq!(options[0], "0.5/5");
    assert_eq!(options[1], "1/5");
    assert_eq!(options[9], "5/5");
}

#[test]
fn tmdb_params_with_and_without_year() {
    let search = TMDbSearch { api_key: "k".to_owned(), query: "Dune".to_owned(), year: None };
    assert_eq!(
        search.query_params(),
        vec![("api_key".to_owned(), "k".to_owned()), ("query".to_owned(), "Dune".to_owned())]
    );
    let search = TMDbSearch { api_key: "k".to_owned(), query: "Dune".to_owned(), year: Some("2021".to_owned()) };
    assert_eq!(search.query_params().last().unwrap(), &("year".to_owned(), "2021".to_owned()));
    assert_eq!(search.query_params().len(), 3);
}

#[test]
fn poll_payload_encodes_options_as_json_array() {
    let options = vec!["a".to_owned(), "b\"c".to_owned(), "{\"title\":\"Test\"}".to_owned()];
    let p = Dinkdonk::poll_payload("Pick".to_owned(), "key".to_owned(), true, false, 30, &options);
    assert_eq!(p.options, r#"["a","b\"c","{\"title\":\"Test\"}"]"#);
    assert_eq!(p.options, serde_json::to_string(&options).unwrap());
    assert_eq!(p.poll_type, "single_choice");
    assert_eq!(p.title, "Pick");
    assert_eq!(p.api_key, "key");
    assert!(p.randomize && !p.broadcast);
    assert_eq!(p.duration, 30);
}

#[test]
fn poll_id_found() {
    let r = Dinkdonk::poll_id(r#"{"data":{"id":"abc123","other":1}}"#);
    assert_eq!(r, Ok("abc123".to_owned()));
}

#[test]
fn poll_id_missing_or_not_a_string() {
    assert_eq!(Dinkdonk::poll_id(r#"{"data":{}}"#), Err(DinkdonkError::MissingPollId));
    assert_eq!(Dinkdonk::poll_id(r#"{"data":{"id":7}}"#), Err(DinkdonkError::MissingPollId));
    assert_eq!(Dinkdonk::poll_id(r#"[1,2]"#), Err(DinkdonkError::MissingPollId));
    assert_eq!(
        DinkdonkError::MissingPollId.message(),
        "Error Fetching Poll ID"
    );
}

#[test]
fn poll_id_not_json() {
    match Dinkdonk::poll_id("<html>") {
        Err(DinkdonkError::Json(msg)) => assert!(!msg.is_empty()),
        other => panic!("unexpected {:?}", other),
    }
}
