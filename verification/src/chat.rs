//! The chat side of the bot: reading chat frames, recognising movie
//! requests, the book of one request per chatter, and how many poll options a
//! number of requests earns.
use vstd::prelude::*;
use crate::dinkdonk::{Movie, TMDbSearch};
use crate::json::{json_str_at, lookup_json_str};
use crate::text::{
    has_prefix, is_white_space, lowercase, same_text, split_once_at_space, split_once_at_white_space, split_once_space,
    split_once_white_space, to_lowercase,
};

verus! {

/// The fewest options a poll is cut down to.
pub const MIN_OPTIONS: i32 = 10;

/// The most options a poll can have.
pub const MAX_OPTIONS: i32 = 50;

/// The number of steps between `MIN_OPTIONS` and `MAX_OPTIONS`.
pub const SATURATION_STEPS: usize = 40;

/// The smallest input at which the option count reaches
/// `MIN_OPTIONS + 1 + i`, for `0 <= i < SATURATION_STEPS`.
///
/// These are the places where `50 - 40 * e^(0.1 - 0.01 * n)`, rounded half
/// away from zero, steps up by one; the curve stays below 50 and comes
/// within half an option of it at 449.
pub open spec fn saturation_step(i: int) -> int {
    if i == 0 {
        12
    } else if i == 1 {
        14
    } else if i == 2 {
        17
    } else if i == 3 {
        20
    } else if i == 4 {
        22
    } else if i == 5 {
        25
    } else if i == 6 {
        28
    } else if i == 7 {
        31
    } else if i == 8 {
        34
    } else if i == 9 {
        38
    } else if i == 10 {
        41
    } else if i == 11 {
        44
    } else if i == 12 {
        48
    } else if i == 13 {
        52
    } else if i == 14 {
        56
    } else if i == 15 {
        60
    } else if i == 16 {
        64
    } else if i == 17 {
        68
    } else if i == 18 {
        73
    } else if i == 19 {
        77
    } else if i == 20 {
        82
    } else if i == 21 {
        88
    } else if i == 22 {
        93
    } else if i == 23 {
        99
    } else if i == 24 {
        105
    } else if i == 25 {
        112
    } else if i == 26 {
        119
    } else if i == 27 {
        127
    } else if i == 28 {
        135
    } else if i == 29 {
        144
    } else if i == 30 {
        154
    } else if i == 31 {
        165
    } else if i == 32 {
        178
    } else if i == 33 {
        192
    } else if i == 34 {
        209
    } else if i == 35 {
        229
    } else if i == 36 {
        254
    } else if i == 37 {
        288
    } else if i == 38 {
        339
    } else {
        449
    }
}

/// `saturation_step(i)` at run time.
fn saturation_threshold(i: usize) -> (t: i32)
    requires
        i < SATURATION_STEPS,
    ensures
        t == saturation_step(i as int),
{
    match i {
        0 => 12,
        1 => 14,
        2 => 17,
        3 => 20,
        4 => 22,
        5 => 25,
        6 => 28,
        7 => 31,
        8 => 34,
        9 => 38,
        10 => 41,
        11 => 44,
        12 => 48,
        13 => 52,
        14 => 56,
        15 => 60,
        16 => 64,
        17 => 68,
        18 => 73,
        19 => 77,
        20 => 82,
        21 => 88,
        22 => 93,
        23 => 99,
        24 => 105,
        25 => 112,
        26 => 119,
        27 => 127,
        28 => 135,
        29 => 144,
        30 => 154,
        31 => 165,
        32 => 178,
        33 => 192,
        34 => 209,
        35 => 229,
        36 => 254,
        37 => 288,
        38 => 339,
        _ => 449,
    }
}

/// How many of the steps `i, i + 1, ...` lie at or below `n`, counted from
/// `i` up to the first step above `n` (the result is an index).
pub open spec fn steps_reached_from(n: int, i: nat) -> nat
    decreases SATURATION_STEPS - i,
{
    if i >= SATURATION_STEPS {
        SATURATION_STEPS as nat
    } else if saturation_step(i as int) > n {
        i
    } else {
        steps_reached_from(n, i + 1)
    }
}

/// How many steps lie at or below `n`.
pub open spec fn steps_reached(n: int) -> nat {
    steps_reached_from(n, 0)
}

/// The number of poll options that `n` candidates earn: `n` itself below
/// `MIN_OPTIONS`, and from there a count that grows with `n` and saturates at
/// `MAX_OPTIONS`.
pub open spec fn saturated_option_count(n: int) -> int {
    if n < MIN_OPTIONS {
        n
    } else {
        MIN_OPTIONS + steps_reached(n)
    }
}

/// The number of poll options that `n` candidates earn (see
/// `saturated_option_count`).
pub fn exp_sat(n: i32) -> (r: i32)
    ensures
        r == saturated_option_count(n as int),
{
    if n < MIN_OPTIONS {
        return n;
    }
    let mut i: usize = 0;
    while i < SATURATION_STEPS && saturation_threshold(i) <= n
        invariant
            i <= SATURATION_STEPS,
            steps_reached_from(n as int, i as nat) == steps_reached(n as int),
        decreases SATURATION_STEPS - i,
    {
        i = i + 1;
    }
    MIN_OPTIONS + i as i32
}

/// Each step lies above the one before it.
proof fn lemma_steps_increase(i: int, j: int)
    requires
        0 <= i < j < SATURATION_STEPS,
    ensures
        saturation_step(i) < saturation_step(j),
    decreases j - i,
{
    assert(saturation_step(j - 1) < saturation_step(j));
    if i < j - 1 {
        lemma_steps_increase(i, j - 1);
    }
}

/// Step `i` lies above `MIN_OPTIONS + 1 + i`.
proof fn lemma_step_above_level(i: int)
    requires
        0 <= i < SATURATION_STEPS,
    ensures
        saturation_step(i) >= MIN_OPTIONS + 2 + i,
{
}

/// The steps below `steps_reached_from(n, i)` are reached, the one there (if
/// any) is not.
proof fn lemma_steps_reached_from(n: int, i: nat)
    requires
        i <= SATURATION_STEPS,
        forall|j: int| 0 <= j < i ==> saturation_step(j) <= n,
    ensures
        i <= steps_reached_from(n, i) <= SATURATION_STEPS,
        forall|j: int| 0 <= j < steps_reached_from(n, i) ==> saturation_step(j) <= n,
        steps_reached_from(n, i) < SATURATION_STEPS ==> saturation_step(
            steps_reached_from(n, i) as int,
        ) > n,
    decreases SATURATION_STEPS - i,
{
    if i < SATURATION_STEPS && saturation_step(i as int) <= n {
        lemma_steps_reached_from(n, i + 1);
    }
}

/// `steps_reached(n)` splits the steps into those at or below `n` and those
/// above it.
proof fn lemma_steps_reached(n: int)
    ensures
        steps_reached(n) <= SATURATION_STEPS,
        forall|j: int| 0 <= j < steps_reached(n) ==> saturation_step(j) <= n,
        forall|j: int| steps_reached(n) <= j < SATURATION_STEPS ==> saturation_step(j) > n,
{
    lemma_steps_reached_from(n, 0);
    let k = steps_reached(n) as int;
    assert forall|j: int| k <= j < SATURATION_STEPS implies saturation_step(j) > n by {
        if k < j {
            lemma_steps_increase(k, j);
        }
    }
}

/// Below `MIN_OPTIONS` the count is the input itself; from there on it lies
/// between `MIN_OPTIONS` and both the input and `MAX_OPTIONS`.
pub proof fn law_option_count_bounds(n: int)
    ensures
        n < MIN_OPTIONS ==> saturated_option_count(n) == n,
        n >= MIN_OPTIONS ==> MIN_OPTIONS <= saturated_option_count(n) <= MAX_OPTIONS,
        n >= MIN_OPTIONS ==> saturated_option_count(n) <= n,
{
    lemma_steps_reached(n);
    let k = steps_reached(n) as int;
    if n >= MIN_OPTIONS && k > 0 {
        lemma_step_above_level(k - 1);
    }
}

/// More candidates never earn fewer options.
pub proof fn law_option_count_monotone(n: int, m: int)
    requires
        n <= m,
    ensures
        saturated_option_count(n) <= saturated_option_count(m),
{
    lemma_steps_reached(n);
    lemma_steps_reached(m);
    law_option_count_bounds(n);
    law_option_count_bounds(m);
    if n >= MIN_OPTIONS {
        let kn = steps_reached(n) as int;
        let km = steps_reached(m) as int;
        if km < kn {
            assert(saturation_step(km) <= n);
        }
    }
}

/// One more candidate earns at most one more option.
pub proof fn law_option_count_unit_steps(n: int)
    ensures
        saturated_option_count(n + 1) <= saturated_option_count(n) + 1,
{
    lemma_steps_reached(n);
    lemma_steps_reached(n + 1);
    if n >= MIN_OPTIONS {
        let k = steps_reached(n) as int;
        let k1 = steps_reached(n + 1) as int;
        if k1 >= k + 2 {
            lemma_steps_increase(k, k + 1);
        }
    }
}

/// The count reaches `MAX_OPTIONS` exactly from 449 candidates on.
pub proof fn law_option_count_saturates(n: int)
    ensures
        n >= saturation_step(SATURATION_STEPS - 1) ==> saturated_option_count(n) == MAX_OPTIONS,
        n < saturation_step(SATURATION_STEPS - 1) ==> saturated_option_count(n) < MAX_OPTIONS,
{
    lemma_steps_reached(n);
    if n >= saturation_step(SATURATION_STEPS - 1) {
        let k = steps_reached(n) as int;
        if k < SATURATION_STEPS {
            if k < SATURATION_STEPS - 1 {
                lemma_steps_increase(k, SATURATION_STEPS - 1);
            }
        }
    }
}


/// A chat message: who wrote it and what.
#[derive(Debug, Clone, PartialEq)]
pub struct ChatMessage {
    pub nick: String,
    pub data: String,
}

/// What a text frame from the chat server holds.
#[derive(Debug, Clone, PartialEq)]
pub enum FrameEvent {
    /// Not a chat message.
    NotChat,
    /// A chat message whose body is no JSON object with the string members
    /// `nick` and `data`.
    Malformed,
    /// A chat message.
    Chat(ChatMessage),
}

/// What the bot does about a chat message.
#[derive(Debug, Clone, PartialEq)]
pub enum ChatAction {
    /// Nothing.
    Ignore,
    /// Shows the message.
    Announce,
    /// Shows the message and searches TMDb for the movie it requests.
    AnnounceAndSearch(TMDbSearch),
}

/// The word that opens a chat frame carrying a message.
pub open spec fn msg_prefix() -> Seq<char> {
    "MSG"@
}

/// The body of a chat frame that carries a message: what follows `MSG` and
/// the first space.
pub open spec fn msg_payload(frame: Seq<char>) -> Option<Seq<char>> {
    match split_once_space(frame) {
        Some((prefix, rest)) => if prefix == msg_prefix() {
            Some(rest)
        } else {
            None
        },
        None => None,
    }
}

/// `e` is what the text frame `frame` holds.
pub open spec fn frame_event_of(frame: Seq<char>, e: FrameEvent) -> bool {
    match msg_payload(frame) {
        None => e is NotChat,
        Some(body) => match (json_str_at(body, "/nick"@), json_str_at(body, "/data"@)) {
            (Some(Some(nick)), Some(Some(data))) => e matches FrameEvent::Chat(m) && m.nick@
                == nick && m.data@ == data,
            _ => e is Malformed,
        },
    }
}

/// The command that asks for a movie.
pub open spec fn request_command() -> Seq<char> {
    "!request"@
}

/// The message asks for a movie: in lowercase, it starts with `!request`.
pub open spec fn is_request(data: Seq<char>) -> bool {
    request_command().is_prefix_of(lowercase(data))
}

/// The title a request asks for: what follows its first white space.
pub open spec fn request_title(data: Seq<char>) -> Option<Seq<char>> {
    match split_once_white_space(data) {
        Some((_, title)) => Some(title),
        None => None,
    }
}

/// `s` searches TMDb for `title`, with an empty key and no year.
pub open spec fn is_title_search(s: TMDbSearch, title: Seq<char>) -> bool {
    &&& s.api_key@ == Seq::<char>::empty()
    &&& s.query@ == title
    &&& s.year is None
}

/// `a` is what the bot does about the message `data` from `nick` while
/// `book` holds the requests: a request is shown; a titled request from a
/// chatter without one in the book starts a search.
pub open spec fn message_action_of(
    book: Map<Seq<char>, Movie>,
    nick: Seq<char>,
    data: Seq<char>,
    a: ChatAction,
) -> bool {
    if !is_request(data) {
        a is Ignore
    } else {
        match request_title(data) {
            Some(title) => if book.contains_key(nick) {
                a is Announce
            } else {
                a matches ChatAction::AnnounceAndSearch(s) && is_title_search(s, title)
            },
            None => a is Announce,
        }
    }
}

/// The body of a chat frame, where it carries a message.
pub fn frame_payload(frame: &str) -> (r: Option<String>)
    ensures
        match r {
            Some(body) => msg_payload(frame@) == Some(body@),
            None => msg_payload(frame@) is None,
        },
{
    match split_once_at_space(frame) {
        Some((prefix, rest)) => {
            if prefix == "MSG".to_owned() {
                Some(rest)
            } else {
                None
            }
        },
        None => None,
    }
}

/// What the text frame `frame` holds.
pub fn read_frame(frame: &str) -> (e: FrameEvent)
    ensures
        frame_event_of(frame@, e),
{
    let body = match frame_payload(frame) {
        Some(body) => body,
        None => {
            return FrameEvent::NotChat;
        },
    };
    let nick = lookup_json_str(body.as_str(), "/nick");
    let data = lookup_json_str(body.as_str(), "/data");
    match (nick, data) {
        (Ok(Some(nick)), Ok(Some(data))) => FrameEvent::Chat(ChatMessage { nick, data }),
        _ => FrameEvent::Malformed,
    }
}

/// The chat's requests: at most one movie for each chatter.
pub struct DGG {
    movie_requests: Vec<(String, Movie)>,
}

/// The requests of `entries`, later entries over earlier ones.
pub open spec fn book_of(entries: Seq<(String, Movie)>) -> Map<Seq<char>, Movie>
    decreases entries.len(),
{
    if entries.len() == 0 {
        Map::empty()
    } else {
        book_of(entries.drop_last()).insert(entries.last().0@, entries.last().1)
    }
}

/// No chatter has two entries.
pub open spec fn nicks_distinct(entries: Seq<(String, Movie)>) -> bool {
    forall|i: int, j: int|
        0 <= i < j < entries.len() ==> #[trigger] entries[i].0@ != #[trigger] entries[j].0@
}

/// The chatters of `entries` are those that hold an entry.
proof fn lemma_book_keys(entries: Seq<(String, Movie)>, k: Seq<char>)
    ensures
        book_of(entries).contains_key(k) <==> exists|i: int|
            0 <= i < entries.len() && #[trigger] entries[i].0@ == k,
    decreases entries.len(),
{
    if entries.len() > 0 {
        let init = entries.drop_last();
        lemma_book_keys(init, k);
        if book_of(entries).contains_key(k) && entries.last().0@ != k {
            let i = choose|i: int| 0 <= i < init.len() && #[trigger] init[i].0@ == k;
            assert(entries[i].0@ == k);
        }
        if exists|i: int| 0 <= i < entries.len() && #[trigger] entries[i].0@ == k {
            let i = choose|i: int| 0 <= i < entries.len() && #[trigger] entries[i].0@ == k;
            if i < entries.len() - 1 {
                assert(init[i].0@ == k);
            }
        }
    }
}

/// With distinct chatters, the entry at `i` is what the book holds for its
/// chatter.
proof fn lemma_book_entry(entries: Seq<(String, Movie)>, i: int)
    requires
        nicks_distinct(entries),
        0 <= i < entries.len(),
    ensures
        book_of(entries).contains_key(entries[i].0@),
        book_of(entries)[entries[i].0@] == entries[i].1,
    decreases entries.len(),
{
    let init = entries.drop_last();
    if i < entries.len() - 1 {
        assert(nicks_distinct(init)) by {
            assert forall|a: int, b: int| 0 <= a < b < init.len() implies #[trigger] init[a].0@
                != #[trigger] init[b].0@ by {
                assert(entries[a].0@ != entries[b].0@);
            }
        }
        assert(init[i] == entries[i]);
        lemma_book_entry(init, i);
        assert(entries[i].0@ != entries.last().0@);
    }
}

/// Replacing the movie of the entry at `i` replaces it in the book.
proof fn lemma_book_update(entries: Seq<(String, Movie)>, i: int, movie: Movie)
    requires
        nicks_distinct(entries),
        0 <= i < entries.len(),
    ensures
        book_of(entries.update(i, (entries[i].0, movie))) == book_of(entries).insert(
            entries[i].0@,
            movie,
        ),
    decreases entries.len(),
{
    let updated = entries.update(i, (entries[i].0, movie));
    let init = entries.drop_last();
    if i == entries.len() - 1 {
        assert(updated.drop_last() =~= init);
        assert(book_of(updated) =~= book_of(entries).insert(entries[i].0@, movie));
    } else {
        assert(nicks_distinct(init)) by {
            assert forall|a: int, b: int| 0 <= a < b < init.len() implies #[trigger] init[a].0@
                != #[trigger] init[b].0@ by {
                assert(entries[a].0@ != entries[b].0@);
            }
        }
        lemma_book_update(init, i, movie);
        assert(updated.drop_last() =~= init.update(i, (init[i].0, movie)));
        assert(entries[i].0@ != entries.last().0@);
        assert(book_of(updated) =~= book_of(entries).insert(entries[i].0@, movie));
    }
}

impl View for DGG {
    type V = Map<Seq<char>, Movie>;

    /// The movie each chatter has requested.
    closed spec fn view(&self) -> Map<Seq<char>, Movie> {
        book_of(self.movie_requests@)
    }
}

impl DGG {
    #[verifier::type_invariant]
    spec fn one_entry_per_nick(self) -> bool {
        nicks_distinct(self.movie_requests@)
    }

    /// A bot with no requests.
    pub fn new() -> (bot: DGG)
        ensures
            bot@ == Map::<Seq<char>, Movie>::empty(),
    {
        DGG { movie_requests: Vec::new() }
    }

    /// Where `nick` has an entry, its position.
    fn entry_of(&self, nick: &str) -> (r: Option<usize>)
        ensures
            match r {
                Some(i) => i < self.movie_requests@.len() && self.movie_requests@[i as int].0@
                    == nick@,
                None => !self@.contains_key(nick@),
            },
    {
        proof {
            use_type_invariant(self);
            lemma_book_keys(self.movie_requests@, nick@);
        }
        let mut i: usize = 0;
        while i < self.movie_requests.len()
            invariant
                i <= self.movie_requests@.len(),
                forall|j: int| 0 <= j < i ==> #[trigger] self.movie_requests@[j].0@ != nick@,
            decreases self.movie_requests.len() - i,
        {
            if same_text(self.movie_requests[i].0.as_str(), nick) {
                return Some(i);
            }
            i = i + 1;
        }
        None
    }

    /// Whether `nick` has requested a movie.
    pub fn has_request(&self, nick: &str) -> (b: bool)
        ensures
            b == self@.contains_key(nick@),
    {
        proof {
            use_type_invariant(self);
        }
        match self.entry_of(nick) {
            Some(i) => {
                proof {
                    lemma_book_entry(self.movie_requests@, i as int);
                }
                true
            },
            None => false,
        }
    }

    /// The movie `nick` has requested, if any.
    pub fn requested_movie(&self, nick: &str) -> (r: Option<&Movie>)
        ensures
            match r {
                Some(m) => self@.contains_key(nick@) && *m == self@[nick@],
                None => !self@.contains_key(nick@),
            },
    {
        proof {
            use_type_invariant(self);
        }
        match self.entry_of(nick) {
            Some(i) => {
                proof {
                    lemma_book_entry(self.movie_requests@, i as int);
                }
                Some(&self.movie_requests[i].1)
            },
            None => None,
        }
    }

    /// Records `movie` as the request of `nick`, in place of any earlier one.
    pub fn record_request(&mut self, nick: String, movie: Movie)
        ensures
            final(self)@ == old(self)@.insert(nick@, movie),
    {
        proof {
            use_type_invariant(&*self);
        }
        match self.entry_of(nick.as_str()) {
            Some(i) => {
                let ghost entries = self.movie_requests@;
                let mut requests: Vec<(String, Movie)> = Vec::new();
                std::mem::swap(&mut requests, &mut self.movie_requests);
                let key = requests[i].0.clone();
                requests.set(i, (key, movie));
                proof {
                    lemma_book_update(entries, i as int, movie);
                    assert(requests@ =~= entries.update(i as int, (entries[i as int].0, movie)));
                    assert forall|a: int, b: int| 0 <= a < b < requests@.len() implies #[trigger] requests@[a].0@
                        != #[trigger] requests@[b].0@ by {
                        assert(entries[a].0@ != entries[b].0@);
                    }
                }
                self.movie_requests = requests;
            },
            None => {
                let ghost entries = self.movie_requests@;
                let mut requests: Vec<(String, Movie)> = Vec::new();
                std::mem::swap(&mut requests, &mut self.movie_requests);
                requests.push((nick, movie));
                proof {
                    assert(requests@.drop_last() =~= entries);
                    lemma_book_keys(entries, nick@);
                    assert forall|a: int, b: int| 0 <= a < b < requests@.len() implies #[trigger] requests@[a].0@
                        != #[trigger] requests@[b].0@ by {
                        if b == requests@.len() - 1 {
                            assert(entries[a].0@ == requests@[a].0@);
                        } else {
                            assert(entries[a].0@ != entries[b].0@);
                        }
                    }
                }
                self.movie_requests = requests;
            },
        }
    }

    /// What the bot does about the chat message `msg`.
    pub fn on_message(&self, msg: &ChatMessage) -> (a: ChatAction)
        ensures
            message_action_of(self@, msg.nick@, msg.data@, a),
    {
        let lower = to_lowercase(msg.data.as_str());
        if !has_prefix(lower.as_str(), "!request") {
            return ChatAction::Ignore;
        }
        match split_once_at_white_space(msg.data.as_str()) {
            Some((_, title)) => {
                if self.has_request(msg.nick.as_str()) {
                    ChatAction::Announce
                } else {
                    ChatAction::AnnounceAndSearch(
                        TMDbSearch { api_key: String::new(), query: title, year: None },
                    )
                }
            },
            None => ChatAction::Announce,
        }
    }
}


/// A frame carries the message body `body` exactly when it reads `MSG`, a
/// space, then `body`.
pub proof fn law_msg_framing(frame: Seq<char>, body: Seq<char>)
    ensures
        msg_payload(frame) == Some(body) <==> frame == msg_prefix() + seq![' '] + body,
{
    reveal_strlit("MSG");
    let framed = msg_prefix() + seq![' '] + body;
    let pred = crate::text::space_pred();
    assert(crate::text::is_first_match(framed, pred, 3));
    if msg_payload(frame) == Some(body) {
        let i = choose|i: int| crate::text::is_first_match(frame, pred, i);
        assert(frame.take(i) == msg_prefix());
        assert(frame =~= frame.take(i) + seq![' '] + frame.skip(i + 1));
    }
    if frame == framed {
        let i = choose|i: int| crate::text::is_first_match(frame, pred, i);
        crate::text::lemma_first_match_unique(frame, pred, i, 3);
        assert(frame.take(3) =~= msg_prefix());
        assert(frame.skip(4) =~= body);
    }
}

/// A chatter who already holds a request starts no new search, whatever
/// the message.
pub proof fn law_one_request_per_nick(
    book: Map<Seq<char>, Movie>,
    nick: Seq<char>,
    data: Seq<char>,
    a: ChatAction,
)
    requires
        book.contains_key(nick),
        message_action_of(book, nick, data, a),
    ensures
        !(a is AnnounceAndSearch),
{
}

/// Once a request is recorded for a chatter, the book gives that movie back
/// for the chatter, keeps every other chatter's movie, and a later message
/// from the chatter starts no new search.
pub proof fn law_recorded_request(
    book: Map<Seq<char>, Movie>,
    nick: Seq<char>,
    movie: Movie,
    other: Seq<char>,
    data: Seq<char>,
    a: ChatAction,
)
    requires
        message_action_of(book.insert(nick, movie), nick, data, a),
    ensures
        book.insert(nick, movie)[nick] == movie,
        other != nick ==> (book.insert(nick, movie).contains_key(other) == book.contains_key(other)),
        other != nick && book.contains_key(other) ==> book.insert(nick, movie)[other] == book[other],
        !(a is AnnounceAndSearch),
{
}

/// A chat frame `MSG`, a space, then a body whose `nick` and `data` are the
/// strings `nick` and `data` is read as the message of `nick` with the text
/// `data`, whole.
pub proof fn law_read_frame_message(
    frame: Seq<char>,
    body: Seq<char>,
    nick: Seq<char>,
    data: Seq<char>,
    e: FrameEvent,
)
    requires
        frame_event_of(frame, e),
        frame == "MSG "@ + body,
        json_str_at(body, "/nick"@) == Some(Some(nick)),
        json_str_at(body, "/data"@) == Some(Some(data)),
    ensures
        e matches FrameEvent::Chat(m) && m.nick@ == nick && m.data@ == data,
{
    reveal_strlit("MSG ");
    reveal_strlit("MSG");
    assert("MSG "@ =~= msg_prefix() + seq![' ']);
    law_msg_framing(frame, body);
}

/// A frame read as a chat message opens with `MSG` and a space, and the
/// message's nick and text are exactly the `nick` and `data` strings of the
/// rest of the frame.
pub proof fn law_read_frame_source(frame: Seq<char>, e: FrameEvent)
    requires
        frame_event_of(frame, e),
    ensures
        e matches FrameEvent::Chat(m) ==> {
            &&& frame.len() >= 4
            &&& frame.take(4) == "MSG "@
            &&& json_str_at(frame.skip(4), "/nick"@) == Some(Some(m.nick@))
            &&& json_str_at(frame.skip(4), "/data"@) == Some(Some(m.data@))
        },
{
    reveal_strlit("MSG ");
    reveal_strlit("MSG");
    if let Some(body) = msg_payload(frame) {
        law_msg_framing(frame, body);
        assert(frame.take(4) =~= "MSG "@);
        assert(frame.skip(4) =~= body);
    }
}

/// A request from a chatter without one, written as a command free of white
/// space, one white-space character, then a title, searches TMDb for that
/// title, whole, with an empty key and no year.
pub proof fn law_request_searches_title(
    book: Map<Seq<char>, Movie>,
    nick: Seq<char>,
    command: Seq<char>,
    w: char,
    title: Seq<char>,
    a: ChatAction,
)
    requires
        message_action_of(book, nick, command + seq![w] + title, a),
        !book.contains_key(nick),
        is_request(command + seq![w] + title),
        is_white_space(w),
        forall|i: int| 0 <= i < command.len() ==> !is_white_space(#[trigger] command[i]),
    ensures
        a matches ChatAction::AnnounceAndSearch(s) && s.query@ == title && s.api_key@
            == Seq::<char>::empty() && s.year is None,
{
    crate::text::law_split_once_by(command, w, title, crate::text::white_space_pred());
}

/// A search is started only for a request from a chatter without one, and
/// it asks for exactly what follows the first white-space character of the
/// message.
pub proof fn law_search_comes_from_request(
    book: Map<Seq<char>, Movie>,
    nick: Seq<char>,
    data: Seq<char>,
    a: ChatAction,
)
    requires
        message_action_of(book, nick, data, a),
    ensures
        a matches ChatAction::AnnounceAndSearch(s) ==> {
            let i = data.len() - s.query@.len() - 1;
            &&& !book.contains_key(nick)
            &&& is_request(data)
            &&& 0 <= i < data.len()
            &&& is_white_space(data[i])
            &&& forall|j: int| 0 <= j < i ==> !is_white_space(#[trigger] data[j])
            &&& data.skip(i + 1) == s.query@
            &&& s.api_key@ == Seq::<char>::empty()
            &&& s.year is None
        },
{
    crate::text::law_split_once_by_parts(data, crate::text::white_space_pred());
    if let ChatAction::AnnounceAndSearch(s) = a {
        let (x, y) = split_once_white_space(data)->0;
        assert(data == x + seq![data[x.len() as int]] + y);
        assert(data.len() == x.len() + 1 + y.len());
        assert forall|j: int| 0 <= j < x.len() implies !is_white_space(#[trigger] data[j]) by {
            assert(data[j] == x[j]);
            assert(!(crate::text::white_space_pred())(x[j]));
        }
        assert(data.skip(x.len() + 1 as int) =~= y);
    }
}

} // verus!
