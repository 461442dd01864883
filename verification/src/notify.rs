//! The text of the desktop notification raised when a track starts: the
//! title, artist, album and year of the track, the year taken from the
//! container's ISO 8601 date.

use vstd::prelude::*;
use vstd::string::StrSliceExecFns;
use crate::text::push_char;

verus! {

/// Whether `c` has the Unicode `White_Space` property, which `char::is_whitespace`
/// and `str::trim` go by.
pub open spec fn is_white_space(c: char) -> bool {
    let u = c as u32;
    (0x9 <= u <= 0xD) || u == 0x20 || u == 0x85 || u == 0xA0 || u == 0x1680 || (0x2000 <= u
        <= 0x200A) || u == 0x2028 || u == 0x2029 || u == 0x202F || u == 0x205F || u == 0x3000
}

/// `s` without its leading white space.
pub open spec fn trim_start(s: Seq<char>) -> Seq<char>
    decreases s.len(),
{
    if s.len() > 0 && is_white_space(s[0]) {
        trim_start(s.skip(1))
    } else {
        s
    }
}

/// `s` without its trailing white space.
pub open spec fn trim_end(s: Seq<char>) -> Seq<char>
    decreases s.len(),
{
    if s.len() > 0 && is_white_space(s.last()) {
        trim_end(s.drop_last())
    } else {
        s
    }
}

/// `s` without leading and trailing white space.
pub open spec fn trimmed(s: Seq<char>) -> Seq<char> {
    trim_end(trim_start(s))
}

/// The parts of `s` between occurrences of `sep`, in order.
pub open spec fn split_chars(s: Seq<char>, sep: char) -> Seq<Seq<char>>
    decreases s.len(),
{
    if s.len() == 0 {
        seq![seq![]]
    } else {
        let p = split_chars(s.drop_last(), sep);
        if s.last() == sep {
            p.push(seq![])
        } else {
            p.update(p.len() - 1, p.last().push(s.last()))
        }
    }
}

/// Whether `p` is four ASCII decimal digits.
pub open spec fn is_year(p: Seq<char>) -> bool {
    p.len() == 4 && forall|i: int| 0 <= i < 4 ==> 48 <= #[trigger] p[i] as u32 <= 57
}

/// The first of `parts` that is a year once trimmed, trimmed.
pub open spec fn first_year(parts: Seq<Seq<char>>) -> Option<Seq<char>>
    decreases parts.len(),
{
    if parts.len() == 0 {
        None
    } else if is_year(trimmed(parts[0])) {
        Some(trimmed(parts[0]))
    } else {
        first_year(parts.skip(1))
    }
}

/// The year of an ISO 8601 date such as `2003-07-15` or `2003`: the first
/// `'-'`-separated part that is four digits, surrounding white space aside.
pub open spec fn year_of(date: Seq<char>) -> Option<Seq<char>> {
    first_year(split_chars(date, '-'))
}

proof fn lemma_first_year_append(a: Seq<Seq<char>>, b: Seq<Seq<char>>)
    requires
        forall|i: int| 0 <= i < a.len() ==> !is_year(trimmed(#[trigger] a[i])),
    ensures
        first_year(a + b) == first_year(b),
    decreases a.len(),
{
    if a.len() > 0 {
        assert((a + b).skip(1) =~= a.skip(1) + b);
        assert(!is_year(trimmed(a[0])));
        lemma_first_year_append(a.skip(1), b);
    } else {
        assert(a + b =~= b);
    }
}

fn white_space(c: char) -> (r: bool)
    ensures
        r == is_white_space(c),
{
    let u = c as u32;
    (0x9 <= u && u <= 0xD) || u == 0x20 || u == 0x85 || u == 0xA0 || u == 0x1680 || (0x2000 <= u
        && u <= 0x200A) || u == 0x2028 || u == 0x2029 || u == 0x202F || u == 0x205F || u == 0x3000
}

/// The bounds of `p` without its leading and trailing white space.
fn trim_bounds(p: &Vec<char>) -> (r: (usize, usize))
    ensures
        r.0 <= r.1 <= p@.len(),
        p@.subrange(r.0 as int, r.1 as int) == trimmed(p@),
{
    let mut a: usize = 0;
    assert(p@.skip(0) =~= p@);
    while a < p.len() && white_space(p[a])
        invariant
            a <= p@.len(),
            trim_start(p@) == trim_start(p@.skip(a as int)),
        decreases p@.len() - a,
    {
        assert(p@.skip(a as int).skip(1) =~= p@.skip(a + 1));
        a = a + 1;
    }
    let mut b: usize = p.len();
    assert(p@.skip(a as int) =~= p@.subrange(a as int, b as int));
    while b > a && white_space(p[b - 1])
        invariant
            a <= b <= p@.len(),
            trim_end(trim_start(p@)) == trim_end(p@.subrange(a as int, b as int)),
            trim_start(p@) == p@.skip(a as int),
        decreases b - a,
    {
        assert(p@.subrange(a as int, b as int).drop_last() =~= p@.subrange(a as int, b - 1));
        b = b - 1;
    }
    (a, b)
}

/// `text` without leading and trailing white space, as `str::trim` gives it.
pub fn trim_text(text: &str) -> (r: String)
    ensures
        r@ == trimmed(text@),
{
    let n = text.unicode_len();
    let mut chars: Vec<char> = Vec::new();
    let mut i: usize = 0;
    while i < n
        invariant
            n == text@.len(),
            i <= n,
            chars@ == text@.take(i as int),
        decreases n - i,
    {
        chars.push(text.get_char(i));
        i = i + 1;
        assert(chars@ =~= text@.take(i as int));
    }
    assert(chars@ =~= text@);
    let (a, b) = trim_bounds(&chars);
    let mut out = String::new();
    let mut k: usize = a;
    while k < b
        invariant
            a <= k <= b <= chars@.len(),
            out@ == chars@.subrange(a as int, k as int),
        decreases b - k,
    {
        push_char(&mut out, chars[k]);
        k = k + 1;
        assert(out@ =~= chars@.subrange(a as int, k as int));
    }
    out
}

/// The trimmed `p`, when it is a year.
fn year_part(p: &Vec<char>) -> (r: Option<String>)
    ensures
        match r {
            Some(y) => is_year(trimmed(p@)) && y@ == trimmed(p@),
            None => !is_year(trimmed(p@)),
        },
{
    let (a, b) = trim_bounds(p);
    if b - a != 4 {
        return None;
    }
    let mut i: usize = a;
    let mut y = String::new();
    while i < b
        invariant
            a <= i <= b <= p@.len(),
            b - a == 4,
            p@.subrange(a as int, b as int) == trimmed(p@),
            y@ == p@.subrange(a as int, i as int),
            forall|j: int| a <= j < i ==> 48 <= #[trigger] p@[j] as u32 <= 57,
        decreases b - i,
    {
        let c = p[i];
        if !(48 <= c as u32 && c as u32 <= 57) {
            assert(!is_year(p@.subrange(a as int, b as int))) by {
                assert(p@.subrange(a as int, b as int)[i - a] == c);
            }
            return None;
        }
        push_char(&mut y, c);
        i = i + 1;
        assert(y@ =~= p@.subrange(a as int, i as int));
    }
    assert(is_year(p@.subrange(a as int, b as int))) by {
        assert forall|k: int| 0 <= k < 4 implies 48 <= #[trigger] p@.subrange(a as int, b as int)[k]
            as u32 <= 57 by {
            assert(p@.subrange(a as int, b as int)[k] == p@[a + k]);
        }
    }
    Some(y)
}

proof fn lemma_first_year_found(a: Seq<Seq<char>>, b: Seq<Seq<char>>)
    requires
        first_year(a) is Some,
    ensures
        first_year(a + b) == first_year(a),
    decreases a.len(),
{
    if !is_year(trimmed(a[0])) {
        assert((a + b).skip(1) =~= a.skip(1) + b);
        lemma_first_year_found(a.skip(1), b);
    }
}

/// The year of an ISO 8601 date such as `2003-07-15` or `2003`.
pub fn year_of_date(date: &str) -> (r: Option<String>)
    ensures
        match r {
            Some(y) => year_of(date@) == Some(y@),
            None => year_of(date@) is None,
        },
{
    let n = date.unicode_len();
    let mut cur: Vec<char> = Vec::new();
    let mut found: Option<String> = None;
    let ghost mut done: Seq<Seq<char>> = seq![];
    let mut i: usize = 0;
    assert(date@.take(0) =~= Seq::<char>::empty());
    while i < n
        invariant
            n == date@.len(),
            i <= n,
            split_chars(date@.take(i as int), '-') == done.push(cur@),
            found matches Some(y) ==> first_year(done) == Some(y@),
            found is None ==> forall|k: int| 0 <= k < done.len() ==> !is_year(trimmed(#[trigger] done[k])),
        decreases n - i,
    {
        let c = date.get_char(i);
        assert(date@.take(i + 1).drop_last() =~= date@.take(i as int));
        if c == '-' {
            if found.is_none() {
                found = year_part(&cur);
                proof {
                    lemma_first_year_append(done, seq![cur@]);
                    assert(seq![cur@].skip(1) =~= Seq::<Seq<char>>::empty());
                    assert(done + seq![cur@] =~= done.push(cur@));
                }
            } else {
                proof {
                    lemma_first_year_found(done, seq![cur@]);
                    assert(done + seq![cur@] =~= done.push(cur@));
                }
            }
            proof {
                done = done.push(cur@);
            }
            cur = Vec::new();
        } else {
            let ghost before = cur@;
            cur.push(c);
            assert(done.push(cur@) =~= done.push(before).update(done.len() as int, before.push(c)));
        }
        i = i + 1;
    }
    assert(date@.take(i as int) =~= date@);
    assert(split_chars(date@, '-') =~= done + seq![cur@]);
    match found {
        Some(y) => {
            proof {
                lemma_first_year_found(done, seq![cur@]);
            }
            Some(y)
        },
        None => {
            proof {
                lemma_first_year_append(done, seq![cur@]);
                assert(seq![cur@].skip(1) =~= Seq::<Seq<char>>::empty());
                assert(first_year(seq![cur@]) == if is_year(trimmed(cur@)) {
                    Some(trimmed(cur@))
                } else {
                    first_year(Seq::<Seq<char>>::empty())
                });
            }
            year_part(&cur)
        },
    }
}

/// The body of the notification for a track: its title in bold, then its
/// artist, album and year where known; none without a title.
pub open spec fn body_text(
    title: Option<Seq<char>>,
    artist: Option<Seq<char>>,
    album: Option<Seq<char>>,
    year: Option<Seq<char>>,
) -> Option<Seq<char>> {
    match title {
        None => None,
        Some(t) => Some(
            "<b>"@ + t + "</b>"@ + match artist {
                Some(a) => " by <b>"@ + a + "</b>"@,
                None => seq![],
            } + match album {
                Some(al) => " from <b>"@ + al + "</b>"@,
                None => seq![],
            } + match year {
                Some(y) => " ("@ + y + ")"@,
                None => seq![],
            },
        ),
    }
}

pub open spec fn opt_view(s: Option<String>) -> Option<Seq<char>> {
    match s {
        Some(t) => Some(t@),
        None => None,
    }
}

/// The body of the "Now playing" notification for a track.
pub fn now_playing_body(
    title: Option<String>,
    artist: Option<String>,
    album: Option<String>,
    year: Option<String>,
) -> (r: Option<String>)
    ensures
        opt_view(r) == body_text(opt_view(title), opt_view(artist), opt_view(album), opt_view(year)),
{
    match title {
        None => None,
        Some(track) => {
            let mut body = String::from_str("<b>");
            body.append(track.as_str());
            body.append("</b>");
            let ghost t = body@;
            if let Some(a) = &artist {
                body.append(" by <b>");
                body.append(a.as_str());
                body.append("</b>");
            }
            let ghost ta = body@;
            if let Some(al) = &album {
                body.append(" from <b>");
                body.append(al.as_str());
                body.append("</b>");
            }
            let ghost tal = body@;
            if let Some(y) = &year {
                body.append(" (");
                body.append(y.as_str());
                body.append(")");
            }
            proof {
                let ap = match opt_view(artist) {
                    Some(a) => " by <b>"@ + a + "</b>"@,
                    None => seq![],
                };
                let alp = match opt_view(album) {
                    Some(al) => " from <b>"@ + al + "</b>"@,
                    None => seq![],
                };
                let yp = match opt_view(year) {
                    Some(y) => " ("@ + y + ")"@,
                    None => seq![],
                };
                assert(ta =~= t + ap);
                assert(tal =~= t + ap + alp);
                assert(body@ =~= t + ap + alp + yp);
            }
            Some(body)
        },
    }
}

/// The artist a notification names: the album artist where known, else the
/// track artist.
pub open spec fn shown_artist(album_artist: Option<Seq<char>>, artist: Option<Seq<char>>) -> Option<
    Seq<char>,
> {
    if album_artist is Some {
        album_artist
    } else {
        artist
    }
}

/// The body of the "Now playing" notification for a track with the given
/// metadata, its year taken from `date`; none without a title.
pub fn track_notification(
    title: Option<String>,
    album_artist: Option<String>,
    artist: Option<String>,
    album: Option<String>,
    date: Option<String>,
) -> (r: Option<String>)
    ensures
        opt_view(r) == body_text(
            opt_view(title),
            shown_artist(opt_view(album_artist), opt_view(artist)),
            opt_view(album),
            match date {
                Some(d) => year_of(d@),
                None => None,
            },
        ),
{
    let shown = match album_artist {
        Some(a) => Some(a),
        None => artist,
    };
    let year = match &date {
        Some(d) => year_of_date(d.as_str()),
        None => None,
    };
    proof {
        assert(opt_view(year) == match date {
            Some(d) => year_of(d@),
            None => None,
        });
    }
    now_playing_body(title, shown, album, year)
}

proof fn lemma_split_without_sep(x: Seq<char>, sep: char)
    requires
        forall|i: int| 0 <= i < x.len() ==> #[trigger] x[i] != sep,
    ensures
        split_chars(x, sep) == seq![x],
    decreases x.len(),
{
    if x.len() > 0 {
        lemma_split_without_sep(x.drop_last(), sep);
        assert(x.drop_last().push(x.last()) =~= x);
    } else {
        assert(x =~= Seq::<char>::empty());
    }
}

proof fn lemma_split_at_sep(x: Seq<char>, sep: char, y: Seq<char>)
    ensures
        split_chars(x + seq![sep] + y, sep) == split_chars(x, sep) + split_chars(y, sep),
        split_chars(y, sep).len() >= 1,
    decreases y.len(),
{
    let b = x + seq![sep] + y;
    if y.len() == 0 {
        assert(b.drop_last() =~= x);
        assert(split_chars(x, sep).push(seq![]) =~= split_chars(x, sep) + seq![seq![]]);
    } else {
        lemma_split_at_sep(x, sep, y.drop_last());
        assert(b.drop_last() =~= x + seq![sep] + y.drop_last());
        let px = split_chars(x, sep);
        let py = split_chars(y.drop_last(), sep);
        if y.last() == sep {
            assert((px + py).push(seq![]) =~= px + py.push(seq![]));
        } else {
            assert((px + py).update(px.len() + py.len() - 1, py.last().push(y.last())) =~= px
                + py.update(py.len() - 1, py.last().push(y.last())));
        }
    }
}

proof fn lemma_trim_digits(y: Seq<char>)
    requires
        is_year(y),
    ensures
        trimmed(y) == y,
{
    assert(48 <= y[0] as u32 <= 57);
    assert(48 <= y[3] as u32 <= 57);
    assert(!is_white_space(y[0]));
    assert(trim_start(y) == y);
    assert(y.last() == y[3]);
    assert(!is_white_space(y.last()));
}

/// The year of a date is four ASCII digits (code points 48 to 57). A date that starts with four
/// digits has them as its year, whether a `-` and more follow or not; a
/// first part without four digits (white space aside) is passed over.
pub proof fn lemma_year_of_date(y: Seq<char>, x: Seq<char>, rest: Seq<char>)
    ensures
        year_of(rest) matches Some(z) ==> z.len() == 4 && forall|i: int|
            0 <= i < 4 ==> 48 <= #[trigger] z[i] as u32 <= 57,
        (y.len() == 4 && forall|i: int| 0 <= i < 4 ==> 48 <= #[trigger] y[i] as u32 <= 57) ==> year_of(
            y + seq!['-'] + rest,
        ) == Some(y) && year_of(y) == Some(y),
        ((forall|i: int| 0 <= i < x.len() ==> #[trigger] x[i] != '-') && !is_year(trimmed(x)))
            ==> year_of(x + seq!['-'] + rest) == year_of(rest),
{
    lemma_first_year_is_year(split_chars(rest, '-'));
    if y.len() == 4 && forall|i: int| 0 <= i < 4 ==> 48 <= #[trigger] y[i] as u32 <= 57 {
        assert(is_year(y));
        lemma_trim_digits(y);
        lemma_split_without_sep(y, '-');
        lemma_split_at_sep(y, '-', rest);
        assert((seq![y] + split_chars(rest, '-'))[0] == y);
    }
    if (forall|i: int| 0 <= i < x.len() ==> #[trigger] x[i] != '-') && !is_year(trimmed(x)) {
        lemma_split_without_sep(x, '-');
        lemma_split_at_sep(x, '-', rest);
        let parts = seq![x] + split_chars(rest, '-');
        assert(parts.skip(1) =~= split_chars(rest, '-'));
    }
}

proof fn lemma_first_year_is_year(parts: Seq<Seq<char>>)
    ensures
        first_year(parts) matches Some(z) ==> z.len() == 4 && forall|i: int|
            0 <= i < 4 ==> 48 <= #[trigger] z[i] as u32 <= 57,
    decreases parts.len(),
{
    if parts.len() > 0 {
        lemma_first_year_is_year(parts.skip(1));
        if let Some(z) = first_year(parts) {
            if is_year(trimmed(parts[0])) {
            }
        }
    }
}

/// The notification body: the title in bold, then ` by ` and the artist in
/// bold, ` from ` and the album in bold, and the year in parentheses, each
/// where known; none without a title.
pub proof fn lemma_body_text(
    title: Option<Seq<char>>,
    artist: Option<Seq<char>>,
    album: Option<Seq<char>>,
    year: Option<Seq<char>>,
)
    ensures
        body_text(title, artist, album, year) == match title {
            None => None::<Seq<char>>,
            Some(t) => Some(
                "<b>"@ + t + "</b>"@ + (if let Some(a) = artist {
                    " by <b>"@ + a + "</b>"@
                } else {
                    seq![]
                }) + (if let Some(al) = album {
                    " from <b>"@ + al + "</b>"@
                } else {
                    seq![]
                }) + (if let Some(y) = year {
                    " ("@ + y + ")"@
                } else {
                    seq![]
                }),
            ),
        },
        shown_artist(artist, album) == if artist is Some {
            artist
        } else {
            album
        },
{
}

} // verus!
