//! Character-level text handling shared by the other modules.
use vstd::prelude::*;

verus! {

/// Unicode's `White_Space` property: the characters that
/// `char::is_whitespace` accepts.
pub open spec fn is_white_space(c: char) -> bool {
    let u = c as u32;
    ||| 0x09 <= u <= 0x0d
    ||| u == 0x20
    ||| u == 0x85
    ||| u == 0xa0
    ||| u == 0x1680
    ||| 0x2000 <= u <= 0x200a
    ||| u == 0x2028
    ||| u == 0x2029
    ||| u == 0x202f
    ||| u == 0x205f
    ||| u == 0x3000
}

/// Whether `c` has Unicode's `White_Space` property.
pub fn is_whitespace(c: char) -> (b: bool)
    ensures
        b == is_white_space(c),
{
    let u = c as u32;
    (0x09 <= u && u <= 0x0d) || u == 0x20 || u == 0x85 || u == 0xa0 || u == 0x1680 || (0x2000
        <= u && u <= 0x200a) || u == 0x2028 || u == 0x2029 || u == 0x202f || u == 0x205f || u
        == 0x3000
}

/// `i` is the first position of `s` whose character satisfies `pred`.
pub open spec fn is_first_match(s: Seq<char>, pred: spec_fn(char) -> bool, i: int) -> bool {
    &&& 0 <= i < s.len()
    &&& pred(s[i])
    &&& forall|j: int| 0 <= j < i ==> !pred(#[trigger] s[j])
}

/// The text before and after the first character that satisfies `pred`,
/// that character dropped; `None` where no character does.
pub open spec fn split_once_by(s: Seq<char>, pred: spec_fn(char) -> bool) -> Option<
    (Seq<char>, Seq<char>),
> {
    if exists|i: int| is_first_match(s, pred, i) {
        let i = choose|i: int| is_first_match(s, pred, i);
        Some((s.take(i), s.skip(i + 1)))
    } else {
        None
    }
}

/// The test for a space character.
pub open spec fn space_pred() -> spec_fn(char) -> bool {
    |c: char| c == ' '
}

/// The test for a white-space character.
pub open spec fn white_space_pred() -> spec_fn(char) -> bool {
    |c: char| is_white_space(c)
}

/// `s` split at its first space (what `str::split_once(" ")` gives).
pub open spec fn split_once_space(s: Seq<char>) -> Option<(Seq<char>, Seq<char>)> {
    split_once_by(s, space_pred())
}

/// `s` split at its first white-space character (what
/// `str::split_once(char::is_whitespace)` gives).
pub open spec fn split_once_white_space(s: Seq<char>) -> Option<(Seq<char>, Seq<char>)> {
    split_once_by(s, white_space_pred())
}

/// Two first matches are the same position.
pub proof fn lemma_first_match_unique(s: Seq<char>, pred: spec_fn(char) -> bool, i: int, k: int)
    requires
        is_first_match(s, pred, i),
        is_first_match(s, pred, k),
    ensures
        i == k,
{
    if i < k {
        assert(!pred(s[i]));
    } else if k < i {
        assert(!pred(s[k]));
    }
}

/// Splitting at the first character that satisfies `pred` finds it after a
/// stretch that has none: for `a` free of such characters and `pred(c)`, the
/// text `a`, `c`, `b` splits into `a` and `b`.
pub proof fn law_split_once_by(a: Seq<char>, c: char, b: Seq<char>, pred: spec_fn(char) -> bool)
    requires
        pred(c),
        forall|i: int| 0 <= i < a.len() ==> !pred(#[trigger] a[i]),
    ensures
        split_once_by(a + seq![c] + b, pred) == Some((a, b)),
{
    let s = a + seq![c] + b;
    assert(s[a.len() as int] == c);
    assert forall|j: int| 0 <= j < a.len() implies !pred(#[trigger] s[j]) by {
        assert(s[j] == a[j]);
    }
    assert(is_first_match(s, pred, a.len() as int));
    let k = choose|k: int| is_first_match(s, pred, k);
    lemma_first_match_unique(s, pred, k, a.len() as int);
    assert(s.take(a.len() as int) =~= a);
    assert(s.skip(a.len() + 1 as int) =~= b);
}

/// What a split gives back: the part before holds no matching character,
/// one matching character follows it, and the two parts around that
/// character make up the whole text; where nothing is split off, no
/// character of the text matches.
pub proof fn law_split_once_by_parts(s: Seq<char>, pred: spec_fn(char) -> bool)
    ensures
        match split_once_by(s, pred) {
            Some((x, y)) => {
                &&& x.len() < s.len()
                &&& pred(s[x.len() as int])
                &&& forall|i: int| 0 <= i < x.len() ==> !pred(#[trigger] x[i])
                &&& s == x + seq![s[x.len() as int]] + y
            },
            None => forall|i: int| 0 <= i < s.len() ==> !pred(#[trigger] s[i]),
        },
{
    if exists|i: int| is_first_match(s, pred, i) {
        let i = choose|i: int| is_first_match(s, pred, i);
        let x = s.take(i);
        let y = s.skip(i + 1);
        assert forall|j: int| 0 <= j < x.len() implies !pred(#[trigger] x[j]) by {
            assert(x[j] == s[j]);
        }
        assert(s =~= x + seq![s[i]] + y);
    } else {
        assert forall|i: int| 0 <= i < s.len() implies !pred(#[trigger] s[i]) by {
            if pred(s[i]) {
                let k = choose|k: int| 0 <= k <= i && pred(s[k]) && forall|j: int| 0 <= j < k ==> !pred(#[trigger] s[j]);
                assert(false) by {
                    lemma_earliest_match(s, pred, i);
                }
            }
        }
    }
}

/// A text with a matching character has a first one.
proof fn lemma_earliest_match(s: Seq<char>, pred: spec_fn(char) -> bool, i: int)
    requires
        0 <= i < s.len(),
        pred(s[i]),
    ensures
        exists|k: int| is_first_match(s, pred, k),
    decreases i,
{
    if forall|j: int| 0 <= j < i ==> !pred(#[trigger] s[j]) {
        assert(is_first_match(s, pred, i));
    } else {
        let j = choose|j: int| 0 <= j < i && pred(#[trigger] s[j]);
        lemma_earliest_match(s, pred, j);
    }
}

/// `c` is one of the ten decimal digits.
pub open spec fn is_digit(c: char) -> bool {
    48 <= (c as int) <= 57
}

/// The number a string of decimal digits reads as, most significant first.
pub open spec fn numeral_value(s: Seq<char>) -> int
    decreases s.len(),
{
    if s.len() == 0 {
        0
    } else {
        numeral_value(s.drop_last()) * 10 + ((s.last() as int) - 48)
    }
}

/// `decimal(n)` is the numeral of `n`: it is made of digits only, reads back
/// as `n`, and starts with a zero only when it is "0".
pub proof fn law_decimal_numeral(n: nat)
    ensures
        decimal(n).len() >= 1,
        forall|i: int| 0 <= i < decimal(n).len() ==> is_digit(#[trigger] decimal(n)[i]),
        numeral_value(decimal(n)) == n,
        decimal(n)[0] == '0' ==> n == 0,
    decreases n,
{
    assert((digit_char(n % 10) as int) == n % 10 + 48);
    if n < 10 {
        assert(decimal(n).drop_last() =~= Seq::<char>::empty());
        assert(numeral_value(Seq::<char>::empty()) == 0);
        assert(decimal(n).last() == digit_char(n));
    } else {
        law_decimal_numeral(n / 10);
        let d = decimal(n);
        assert(d.drop_last() =~= decimal(n / 10));
        assert(d.last() == digit_char(n % 10));
        assert(numeral_value(d) == numeral_value(decimal(n / 10)) * 10 + (n % 10));
        assert forall|i: int| 0 <= i < d.len() implies is_digit(#[trigger] d[i]) by {
            if i < d.len() - 1 {
                assert(d[i] == decimal(n / 10)[i]);
            }
        }
        assert(d[0] == decimal(n / 10)[0]);
    }
}

/// `String::push`: appends one character.
#[verifier::external_body]
fn push_char(s: &mut String, c: char)
    ensures
        final(s)@ == old(s)@.push(c),
{
    s.push(c);
}

/// The characters of `s`, in order.
pub fn chars_of(s: &str) -> (v: Vec<char>)
    ensures
        v@ == s@,
{
    let mut v: Vec<char> = Vec::new();
    for c in it: s.chars()
        invariant
            v@ == it.seq().take(it.index() as int),
    {
        v.push(c);
    }
    v
}

/// The string made of `cs[lo..hi]`.
pub fn string_from(cs: &Vec<char>, lo: usize, hi: usize) -> (s: String)
    requires
        lo <= hi <= cs.len(),
    ensures
        s@ == cs@.subrange(lo as int, hi as int),
{
    let mut s = String::new();
    let mut i: usize = lo;
    while i < hi
        invariant
            lo <= i <= hi <= cs.len(),
            s@ == cs@.subrange(lo as int, i as int),
        decreases hi - i,
    {
        push_char(&mut s, cs[i]);
        assert(cs@.subrange(lo as int, i + 1) =~= cs@.subrange(lo as int, i as int).push(cs@[i as int]));
        i = i + 1;
    }
    s
}


/// The first position of `cs` that holds a space, if any.
fn first_space(cs: &Vec<char>) -> (r: Option<usize>)
    ensures
        match r {
            Some(i) => is_first_match(cs@, space_pred(), i as int),
            None => !exists|i: int| is_first_match(cs@, space_pred(), i),
        },
{
    let mut i: usize = 0;
    while i < cs.len()
        invariant
            i <= cs.len(),
            forall|j: int| 0 <= j < i ==> cs@[j] != ' ',
        decreases cs.len() - i,
    {
        if cs[i] == ' ' {
            return Some(i);
        }
        i = i + 1;
    }
    None
}

/// The first position of `cs` that holds a white-space character, if any.
fn first_white_space(cs: &Vec<char>) -> (r: Option<usize>)
    ensures
        match r {
            Some(i) => is_first_match(cs@, white_space_pred(), i as int),
            None => !exists|i: int| is_first_match(cs@, white_space_pred(), i),
        },
{
    let mut i: usize = 0;
    while i < cs.len()
        invariant
            i <= cs.len(),
            forall|j: int| 0 <= j < i ==> !is_white_space(#[trigger] cs@[j]),
        decreases cs.len() - i,
    {
        if is_whitespace(cs[i]) {
            return Some(i);
        }
        i = i + 1;
    }
    None
}

/// Splits the characters `cs` around position `i`, dropping the character there.
fn split_around(cs: &Vec<char>, i: usize) -> (r: (String, String))
    requires
        i < cs.len(),
    ensures
        r.0@ == cs@.take(i as int),
        r.1@ == cs@.skip(i + 1),
{
    let before = string_from(cs, 0, i);
    let after = string_from(cs, i + 1, cs.len());
    assert(cs@.subrange(0, i as int) =~= cs@.take(i as int));
    assert(cs@.subrange(i + 1, cs.len() as int) =~= cs@.skip(i + 1));
    (before, after)
}

/// `s` split at its first space: the part before and the part after it.
pub fn split_once_at_space(s: &str) -> (r: Option<(String, String)>)
    ensures
        match r {
            Some(parts) => split_once_space(s@) == Some((parts.0@, parts.1@)),
            None => split_once_space(s@) is None,
        },
{
    let cs = chars_of(s);
    match first_space(&cs) {
        Some(i) => {
            proof {
                let k = choose|k: int| is_first_match(s@, space_pred(), k);
                lemma_first_match_unique(s@, space_pred(), i as int, k);
            }
            Some(split_around(&cs, i))
        },
        None => None,
    }
}

/// `s` split at its first white-space character: the part before and the
/// part after it.
pub fn split_once_at_white_space(s: &str) -> (r: Option<(String, String)>)
    ensures
        match r {
            Some(parts) => split_once_white_space(s@) == Some((parts.0@, parts.1@)),
            None => split_once_white_space(s@) is None,
        },
{
    let cs = chars_of(s);
    match first_white_space(&cs) {
        Some(i) => {
            proof {
                let k = choose|k: int| is_first_match(s@, white_space_pred(), k);
                lemma_first_match_unique(s@, white_space_pred(), i as int, k);
            }
            Some(split_around(&cs, i))
        },
        None => None,
    }
}

/// Whether `p` is a prefix of `s`.
pub fn has_prefix(s: &str, p: &str) -> (b: bool)
    ensures
        b == p@.is_prefix_of(s@),
{
    let cs = chars_of(s);
    let ps = chars_of(p);
    if ps.len() > cs.len() {
        return false;
    }
    let mut i: usize = 0;
    while i < ps.len()
        invariant
            cs@ == s@,
            ps@ == p@,
            ps.len() <= cs.len(),
            i <= ps.len(),
            forall|j: int| 0 <= j < i ==> cs@[j] == ps@[j],
        decreases ps.len() - i,
    {
        if cs[i] != ps[i] {
            assert(cs@.subrange(0, ps@.len() as int)[i as int] != ps@[i as int]);
            return false;
        }
        i = i + 1;
    }
    assert(ps@ =~= cs@.subrange(0, ps@.len() as int));
    true
}

/// The character of the decimal digit `d`.
pub open spec fn digit_char(d: nat) -> char {
    (d + 48) as char
}

/// The decimal numeral of `n`, most significant digit first, without
/// leading zeros.
pub open spec fn decimal(n: nat) -> Seq<char>
    decreases n,
{
    if n < 10 {
        seq![digit_char(n)]
    } else {
        decimal(n / 10).push(digit_char(n % 10))
    }
}

fn digit(d: u64) -> (c: char)
    requires
        d < 10,
    ensures
        c == digit_char(d as nat),
{
    match d {
        0 => '0',
        1 => '1',
        2 => '2',
        3 => '3',
        4 => '4',
        5 => '5',
        6 => '6',
        7 => '7',
        8 => '8',
        _ => '9',
    }
}

/// Appends the decimal numeral of `n` to `s`.
pub fn push_decimal(s: &mut String, n: u64)
    ensures
        final(s)@ == old(s)@ + decimal(n as nat),
    decreases n,
{
    if n >= 10 {
        push_decimal(s, n / 10);
    }
    push_char(s, digit(n % 10));
    proof {
        if n >= 10 {
            assert(old(s)@ + decimal(n as nat) =~= (old(s)@ + decimal((n / 10) as nat)).push(
                digit_char((n % 10) as nat),
            ));
        } else {
            assert(old(s)@ + decimal(n as nat) =~= old(s)@.push(digit_char(n as nat)));
        }
    }
}

/// Appends the text `t` to `s`.
pub fn push_str(s: &mut String, t: &str)
    ensures
        final(s)@ == old(s)@ + t@,
{
    let ts = chars_of(t);
    let mut i: usize = 0;
    while i < ts.len()
        invariant
            i <= ts.len(),
            ts@ == t@,
            s@ == old(s)@ + ts@.take(i as int),
        decreases ts.len() - i,
    {
        push_char(s, ts[i]);
        assert(ts@.take(i + 1) =~= ts@.take(i as int).push(ts@[i as int]));
        i = i + 1;
    }
    assert(ts@.take(ts.len() as int) =~= ts@);
}


/// What `str::to_lowercase` gives for `s`: its lowercase equivalent under
/// Unicode's `Lowercase` property.
pub uninterp spec fn lowercase(s: Seq<char>) -> Seq<char>;

/// Calls `str::to_lowercase`. The contract claims that the result is the one
/// named by `lowercase`, a function of the text alone; which characters it
/// maps to which is left unsaid.
#[verifier::external_body]
pub(crate) fn to_lowercase(s: &str) -> (r: String)
    ensures
        r@ == lowercase(s@),
{
    s.to_lowercase()
}


/// Whether `a` and `b` are the same text.
pub fn same_text(a: &str, b: &str) -> (r: bool)
    ensures
        r == (a@ == b@),
{
    let xs = chars_of(a);
    let ys = chars_of(b);
    if xs.len() != ys.len() {
        return false;
    }
    let mut i: usize = 0;
    while i < xs.len()
        invariant
            xs@ == a@,
            ys@ == b@,
            xs.len() == ys.len(),
            i <= xs.len(),
            forall|j: int| 0 <= j < i ==> xs@[j] == ys@[j],
        decreases xs.len() - i,
    {
        if xs[i] != ys[i] {
            return false;
        }
        i = i + 1;
    }
    assert(xs@ =~= ys@);
    true
}

} // verus!
