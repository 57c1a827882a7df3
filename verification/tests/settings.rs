use movie_night::obs::{obs_launch_args, OBS_DEFAULT_PORT};
use movie_night::prowlarr::prowlarr_search_url;

#[test]
fn obs_args_without_password() {
    assert_eq!(obs_launch_args(OBS_DEFAULT_PORT, &None), vec!["--websocket_port=4455".to_owned()]);
    assert_eq!(obs_launch_args(0, &None), vec!["--websocket_port=0".to_owned()]);
    assert_eq!(obs_launch_args(65535, &None), vec!["--websocket_port=65535".to_owned()]);
}

#[test]
fn obs_args_with_password() {
    assert_eq!(
        obs_launch_args(4456, &Some("s3cret".to_owned())),
        vec!["--websocket_port=4456".to_owned(), "--websocket_password=s3cret".to_owned()]
    );
}

#[test]
fn prowlarr_url_encodes_the_query() {
    let url = prowlarr_search_url("KEY", "the matrix").unwrap();
    assert_eq!(
        url,
        "http://localhost:9696/api/v1/search?apikey=KEY&query=the+matrix&categories%5B%5D=%5B2000%5D"
    );
}
