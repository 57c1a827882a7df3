//! Movies, TMDb searches and dinkdonk.mov polls: the values the bot sends and
//! the answers it reads back.
use vstd::prelude::*;
use crate::json::{
    json_str_at, json_string_list, str_views, lookup_json_str, encode_json_string_list,
};
use crate::text::{decimal, is_digit, law_decimal_numeral, numeral_value, push_decimal, push_str};

verus! {

/// A movie as the bot knows it.
#[derive(Debug, Clone, PartialEq)]
pub struct Movie {
    pub title: String,
    pub release_date: Option<String>,
    pub tmdb_id: Option<u32>,
    pub imdb_id: Option<String>,
    pub runtime: Option<u16>,
    pub genres: Option<Vec<String>>,
    pub poster_path: Option<String>,
    /// The average vote, as the bit pattern of an `f32` (`f32::to_bits`).
    pub vote_average_bits: Option<u32>,
    pub vote_count: Option<u32>,
    pub last_watched: Option<String>,
}

/// The parameters of a TMDb movie search.
#[derive(Debug, Clone, PartialEq)]
pub struct TMDbSearch {
    pub api_key: String,
    pub query: String,
    pub year: Option<String>,
}

/// The options of a poll: plain texts, or movies.
#[derive(Debug, Clone, PartialEq)]
pub enum CreateOption {
    StringOptions(Vec<String>),
    MovieObjects(Vec<Movie>),
}

/// The form that creates a poll on dinkdonk.mov.
#[derive(Debug, Clone, PartialEq)]
pub struct Dinkdonk {
    pub title: String,
    /// The options, as a JSON array of strings.
    pub options: String,
    pub poll_type: String,
    pub duration: u8,
    pub randomize: bool,
    pub broadcast: bool,
    pub api_key: String,
}

/// Why a poll could not be created.
#[derive(Debug, Clone, PartialEq)]
pub enum DinkdonkError {
    /// The answer was no JSON document; `serde_json`'s message.
    Json(String),
    /// The answer held no poll id.
    MissingPollId,
}

/// `m` is a movie that knows only its title, TMDb id and runtime.
pub open spec fn is_generic_movie(m: Movie, title: Seq<char>, tmdb_id: Option<u32>, runtime: Option<u16>) -> bool {
    &&& m.title@ == title
    &&& m.release_date is None
    &&& m.tmdb_id == tmdb_id
    &&& m.imdb_id is None
    &&& m.runtime == runtime
    &&& m.genres is None
    &&& m.poster_path is None
    &&& m.vote_average_bits is None
    &&& m.vote_count is None
    &&& m.last_watched is None
}

/// The TMDb id of the movie the test lists are made of.
pub const GENERIC_TMDB_ID: u32 = 307124;

/// The runtime, in minutes, of the movie the test lists are made of.
pub const GENERIC_RUNTIME: u16 = 86;

/// The views of a list of name and value pairs.
pub open spec fn pair_views(v: Seq<(String, String)>) -> Seq<(Seq<char>, Seq<char>)> {
    v.map_values(|p: (String, String)| (p.0@, p.1@))
}

/// The query parameters of a TMDb search: the key, the title and, where
/// given, the year.
pub open spec fn tmdb_params(api_key: Seq<char>, query: Seq<char>, year: Option<Seq<char>>) -> Seq<(Seq<char>, Seq<char>)> {
    let base = seq![("api_key"@, api_key), ("query"@, query)];
    match year {
        Some(y) => base.push(("year"@, y)),
        None => base,
    }
}

/// The text of the rating option for `i` half stars out of five.
pub open spec fn rating_option_text(i: nat) -> Seq<char> {
    if i % 2 == 0 {
        decimal(i / 2) + "/5"@
    } else {
        decimal(i / 2) + ".5/5"@
    }
}

/// The options of a rating poll: half a star to five stars, in half-star
/// steps, and a last option for those who did not watch.
pub open spec fn rating_poll_texts() -> Seq<Seq<char>> {
    Seq::new(10, |i: int| rating_option_text((i + 1) as nat)).push("Didn't Watch"@)
}

/// Where in dinkdonk.mov's answer the poll id stands.
pub open spec fn poll_id_pointer() -> Seq<char> {
    "/data/id"@
}

impl Movie {
    /// A movie that knows only its title, TMDb id and runtime.
    pub fn make_generic_movie(title: String, tmdb_id: Option<u32>, runtime: Option<u16>) -> (m: Movie)
        ensures
            is_generic_movie(m, title@, tmdb_id, runtime),
    {
        Movie {
            title,
            release_date: None,
            tmdb_id,
            imdb_id: None,
            runtime,
            genres: None,
            poster_path: None,
            vote_average_bits: None,
            vote_count: None,
            last_watched: None,
        }
    }

    /// A poll's options made of three copies of one movie, titled "Test",
    /// "Test1" and "Test3".
    pub fn make_generic_list() -> (r: CreateOption)
        ensures
            r matches CreateOption::MovieObjects(list) && {
                &&& list@.len() == 3
                &&& is_generic_movie(list@[0], "Test"@, Some(GENERIC_TMDB_ID), Some(GENERIC_RUNTIME))
                &&& is_generic_movie(list@[1], "Test1"@, Some(GENERIC_TMDB_ID), Some(GENERIC_RUNTIME))
                &&& is_generic_movie(list@[2], "Test3"@, Some(GENERIC_TMDB_ID), Some(GENERIC_RUNTIME))
            },
    {
        let mut list: Vec<Movie> = Vec::new();
        list.push(Movie::make_generic_movie("Test".to_owned(), Some(GENERIC_TMDB_ID), Some(GENERIC_RUNTIME)));
        list.push(Movie::make_generic_movie("Test1".to_owned(), Some(GENERIC_TMDB_ID), Some(GENERIC_RUNTIME)));
        list.push(Movie::make_generic_movie("Test3".to_owned(), Some(GENERIC_TMDB_ID), Some(GENERIC_RUNTIME)));
        CreateOption::MovieObjects(list)
    }
}

impl TMDbSearch {
    /// The query parameters of this search, in the order TMDb receives them.
    pub fn query_params(&self) -> (params: Vec<(String, String)>)
        ensures
            pair_views(params@) == tmdb_params(
                self.api_key@,
                self.query@,
                match self.year {
                    Some(y) => Some(y@),
                    None => None,
                },
            ),
    {
        let mut params: Vec<(String, String)> = Vec::new();
        params.push(("api_key".to_owned(), self.api_key.clone()));
        params.push(("query".to_owned(), self.query.clone()));
        match &self.year {
            Some(y) => {
                params.push(("year".to_owned(), y.clone()));
            },
            None => {},
        }
        assert(pair_views(params@) =~= tmdb_params(
            self.api_key@,
            self.query@,
            match self.year {
                Some(y) => Some(y@),
                None => None,
            },
        ));
        params
    }
}

impl DinkdonkError {
    /// The message that reports this error.
    pub fn message(&self) -> (m: String)
        ensures
            match self {
                DinkdonkError::Json(text) => m@ == text@,
                DinkdonkError::MissingPollId => m@ == "Error Fetching Poll ID"@,
            },
    {
        match self {
            DinkdonkError::Json(text) => text.clone(),
            DinkdonkError::MissingPollId => "Error Fetching Poll ID".to_owned(),
        }
    }
}

impl Dinkdonk {
    /// The options of a rating poll: "0.5/5" up to "5/5" in half steps, then
    /// "Didn't Watch".
    pub fn rating_poll_options() -> (options: Vec<String>)
        ensures
            str_views(options@) == rating_poll_texts(),
            options@.len() == rating_poll_texts().len(),
            forall|i: int| 0 <= i < options@.len() ==> #[trigger] options@[i]@ == rating_poll_texts()[i],
    {
        let mut options: Vec<String> = Vec::new();
        let mut i: u64 = 1;
        while i < 11
            invariant
                1 <= i <= 11,
                options@.len() == i - 1,
                forall|j: int| 0 <= j < i - 1 ==> #[trigger] options@[j]@ == rating_option_text((j + 1) as nat),
            decreases 11 - i,
        {
            let mut text = String::new();
            push_decimal(&mut text, i / 2);
            if i % 2 == 0 {
                push_str(&mut text, "/5");
            } else {
                push_str(&mut text, ".5/5");
            }
            assert(text@ == rating_option_text(i as nat));
            options.push(text);
            i = i + 1;
        }
        options.push("Didn't Watch".to_owned());
        assert(str_views(options@) =~= rating_poll_texts());
        options
    }

    /// The form that creates a single-choice poll with the given options.
    pub fn poll_payload(
        title: String,
        api_key: String,
        randomize: bool,
        broadcast: bool,
        duration: u8,
        options: &Vec<String>,
    ) -> (payload: Dinkdonk)
        ensures
            payload.title@ == title@,
            payload.api_key@ == api_key@,
            payload.randomize == randomize,
            payload.broadcast == broadcast,
            payload.duration == duration,
            payload.options@ == json_string_list(str_views(options@)),
            payload.poll_type@ == "single_choice"@,
    {
        // A list of strings always encodes; the error arm is never taken.
        let encoded = encode_json_string_list(options);
        let options_json = match encoded {
            Ok(s) => s,
            Err(e) => e,
        };
        Dinkdonk {
            title,
            options: options_json,
            poll_type: "single_choice".to_owned(),
            duration,
            randomize,
            broadcast,
            api_key,
        }
    }

    /// The id of the poll that dinkdonk.mov's answer `text` reports.
    pub fn poll_id(text: &str) -> (r: Result<String, DinkdonkError>)
        ensures
            json_str_at(text@, poll_id_pointer()) is None <==> r matches Err(DinkdonkError::Json(_)),
            json_str_at(text@, poll_id_pointer()) == Some(None::<Seq<char>>) <==> r matches Err(DinkdonkError::MissingPollId),
            forall|id: Seq<char>| json_str_at(text@, poll_id_pointer()) == Some(Some(id)) <==> (r matches Ok(s) && s@ == id),
    {
        match lookup_json_str(text, "/data/id") {
            Ok(Some(id)) => Ok(id),
            Ok(None) => Err(DinkdonkError::MissingPollId),
            Err(e) => Err(DinkdonkError::Json(e)),
        }
    }
}

/// A TMDb search sends the key first, then the title under "query", then the
/// year under "year" when one is given, and nothing else.
pub proof fn law_tmdb_params(api_key: Seq<char>, query: Seq<char>, year: Option<Seq<char>>)
    ensures
        tmdb_params(api_key, query, year).len() == (if year is Some { 3int } else { 2int }),
        tmdb_params(api_key, query, year)[0] == ("api_key"@, api_key),
        tmdb_params(api_key, query, year)[1] == ("query"@, query),
        year matches Some(y) ==> tmdb_params(api_key, query, year)[2] == ("year"@, y),
        year matches Some(y) ==> tmdb_params(api_key, query, year) == tmdb_params(api_key, query, None).push(("year"@, y)),
{
}

/// The rating poll has eleven options. Option `k` (for `k` below ten) is a
/// number of stars out of five that reads as `(k + 1) / 2`: a whole numeral
/// followed by "/5" when `k + 1` is even, and by ".5/5" when it is odd. The
/// last option is "Didn't Watch".
pub proof fn law_rating_poll_texts(k: int)
    requires
        0 <= k < 10,
    ensures
        rating_poll_texts().len() == 11,
        rating_poll_texts()[10] == "Didn't Watch"@,
        ({
            let t = rating_poll_texts()[k];
            let i = k + 1;
            if i % 2 == 0 {
                &&& t.len() >= 3
                &&& t.skip(t.len() - 2) == "/5"@
                &&& numeral_value(t.take(t.len() - 2)) * 2 == i
                &&& forall|j: int| 0 <= j < t.len() - 2 ==> is_digit(#[trigger] t[j])
            } else {
                &&& t.len() >= 5
                &&& t.skip(t.len() - 4) == ".5/5"@
                &&& numeral_value(t.take(t.len() - 4)) * 2 + 1 == i
                &&& forall|j: int| 0 <= j < t.len() - 4 ==> is_digit(#[trigger] t[j])
            }
        }),
{
    reveal_strlit("/5");
    reveal_strlit(".5/5");
    let i = k + 1;
    let t = rating_poll_texts()[k];
    assert(t == rating_option_text(i as nat));
    let d = decimal((i / 2) as nat);
    law_decimal_numeral((i / 2) as nat);
    if i % 2 == 0 {
        assert(t.take(t.len() - 2) =~= d);
        assert(t.skip(t.len() - 2) =~= "/5"@);
        assert forall|j: int| 0 <= j < t.len() - 2 implies is_digit(#[trigger] t[j]) by {
            assert(t[j] == d[j]);
        }
    } else {
        assert(t.take(t.len() - 4) =~= d);
        assert(t.skip(t.len() - 4) =~= ".5/5"@);
        assert forall|j: int| 0 <= j < t.len() - 4 implies is_digit(#[trigger] t[j]) by {
            assert(t[j] == d[j]);
        }
    }
}

} // verus!
