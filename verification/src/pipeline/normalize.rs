//! Normalization of scraped values: Brazilian phone numbers to E.164, person
//! names to title case, city slugs to display names.

use vstd::prelude::*;

use crate::text::{
    ascii_lower, ascii_upper, is_ascii_char, is_ws, word_scan,
    all_digits, ascii_digits, chars_of, digits_of, lemma_ascii_digits_are_digits, concat, ends_with, copy_range, is_ascii_digit, is_digit, join, join_chars, lower_of, split_chars,
    split_on, starts_with, string_of, replace_all, unicode_lower, unicode_upper, lemma_split_nonempty, char_lower, char_upper, upper_of, views, words, words_of,
};

verus! {

/// E.164 form of a phone number, Brazil (+55) by default:
/// no digits gives the empty string; 10 or 11 digits (area code and number) get `+55`;
/// anything else, including 12 or 13 digits that already start with `55`, gets `+`.
pub open spec fn spec_normalize_phone(raw: Seq<char>) -> Seq<char> {
    let d = ascii_digits(raw);
    if d.len() == 0 {
        Seq::<char>::empty()
    } else if d.len() == 11 || d.len() == 10 {
        seq!['+', '5', '5'] + d
    } else if d.len() == 13 && starts_with(d, seq!['5', '5']) {
        seq!['+'] + d
    } else if d.len() == 12 && starts_with(d, seq!['5', '5']) {
        seq!['+'] + d
    } else {
        seq!['+'] + d
    }
}

/// Every character of `s`, lowercased, concatenated.
pub open spec fn lower_all(s: Seq<char>) -> Seq<char>
    decreases s.len(),
{
    if s.len() == 0 {
        Seq::<char>::empty()
    } else {
        lower_all(s.drop_last()) + char_lower(s.last())
    }
}

/// A word in title case: its first character uppercased, the rest lowercased.
pub open spec fn title_word(w: Seq<char>) -> Seq<char> {
    if w.len() == 0 {
        Seq::<char>::empty()
    } else {
        char_upper(w[0]) + lower_all(w.drop_first())
    }
}

/// The words of `raw`, each in title case, separated by single spaces.
pub open spec fn spec_normalize_name(raw: Seq<char>) -> Seq<char> {
    join(words(raw).map_values(|w: Seq<char>| title_word(w)), seq![' '])
}

/// The Portuguese prepositions that stay lowercase in a city name.
pub open spec fn is_preposition(w: Seq<char>) -> bool {
    ||| w == seq!['d', 'e']
    ||| w == seq!['d', 'o']
    ||| w == seq!['d', 'a']
    ||| w == seq!['d', 'o', 's']
    ||| w == seq!['d', 'a', 's']
    ||| w == seq!['e']
}

/// One hyphen-separated piece of a slug, for display: prepositions unchanged,
/// other pieces with their first character uppercased.
pub open spec fn display_segment(w: Seq<char>) -> Seq<char> {
    if is_preposition(w) {
        w
    } else if w.len() == 0 {
        Seq::<char>::empty()
    } else {
        char_upper(w[0]) + w.drop_first()
    }
}

/// The pieces of `slug` between hyphens, each for display, separated by single spaces.
pub open spec fn spec_slug_to_display(slug: Seq<char>) -> Seq<char> {
    join(split_on(slug, '-').map_values(|w: Seq<char>| display_segment(w)), seq![' '])
}


proof fn lemma_ascii_digits_append(a: Seq<char>, b: Seq<char>)
    ensures
        ascii_digits(a + b) == ascii_digits(a) + ascii_digits(b),
    decreases b.len(),
{
    if b.len() == 0 {
        assert(a + b == a);
    } else {
        lemma_ascii_digits_append(a, b.drop_last());
        assert((a + b).drop_last() == a + b.drop_last());
    }
}

proof fn lemma_ascii_digits_of_digits(d: Seq<char>)
    requires
        all_digits(d),
    ensures
        ascii_digits(d) == d,
    decreases d.len(),
{
    if d.len() > 0 {
        lemma_ascii_digits_of_digits(d.drop_last());
        assert(d.drop_last().push(d.last()) == d);
    }
}

/// A normalized phone number is empty exactly when the input holds no ASCII digit;
/// otherwise it is `+` followed by digits only, and those digits end with the
/// input's digits.
pub proof fn lemma_normalized_phone_shape(raw: Seq<char>)
    ensures
        (spec_normalize_phone(raw).len() == 0) == (ascii_digits(raw).len() == 0),
        spec_normalize_phone(raw).len() > 0 ==> {
            let p = spec_normalize_phone(raw);
            &&& p[0] == '+'
            &&& all_digits(p.drop_first())
            &&& ends_with(p, ascii_digits(raw))
        },
{
    lemma_ascii_digits_are_digits(raw);
    let d = ascii_digits(raw);
    let p = spec_normalize_phone(raw);
    if d.len() > 0 {
        if d.len() == 11 || d.len() == 10 {
            assert(p.drop_first() == seq!['5', '5'] + d);
            assert(p.subrange(p.len() - d.len(), p.len() as int) == d);
        } else {
            assert(p.drop_first() == d);
            assert(p.subrange(p.len() - d.len(), p.len() as int) == d);
        }
    }
}

/// Normalizing a phone number twice gives what normalizing it once gives.
pub proof fn lemma_normalize_phone_idempotent(raw: Seq<char>)
    ensures
        spec_normalize_phone(spec_normalize_phone(raw)) == spec_normalize_phone(raw),
{
    let d = ascii_digits(raw);
    let p = spec_normalize_phone(raw);
    lemma_ascii_digits_are_digits(raw);
    if d.len() == 0 {
        assert(p.len() == 0);
    } else if d.len() == 11 || d.len() == 10 {
        let fd = seq!['5', '5'] + d;
        assert(all_digits(fd));
        lemma_ascii_digits_of_digits(fd);
        assert(p == seq!['+'] + fd);
        lemma_ascii_digits_append(seq!['+'], fd);
        assert(ascii_digits(seq!['+']) == Seq::<char>::empty()) by {
            assert(seq!['+'].drop_last() == Seq::<char>::empty());
            assert(seq!['+'].last() == '+');
            assert(ascii_digits(Seq::<char>::empty()) == Seq::<char>::empty());
        }
        assert(seq!['+'] + fd == p);
        assert(ascii_digits(p) == fd);
        assert(fd.subrange(0, 2) == seq!['5', '5']);
        assert(spec_normalize_phone(p) == seq!['+'] + fd);
    } else {
        lemma_ascii_digits_of_digits(d);
        lemma_ascii_digits_append(seq!['+'], d);
        assert(ascii_digits(seq!['+']) == Seq::<char>::empty()) by {
            assert(seq!['+'].drop_last() == Seq::<char>::empty());
            assert(seq!['+'].last() == '+');
            assert(ascii_digits(Seq::<char>::empty()) == Seq::<char>::empty());
        }
        assert(ascii_digits(p) == d);
    }
}

// ---------------------------------------------------------------------------
// Laws of name normalization
// ---------------------------------------------------------------------------

pub open spec fn all_ascii(s: Seq<char>) -> bool {
    forall|i: int| 0 <= i < s.len() ==> is_ascii_char(#[trigger] s[i])
}

pub open spec fn no_ws(s: Seq<char>) -> bool {
    forall|i: int| 0 <= i < s.len() ==> !is_ws(#[trigger] s[i])
}

/// A word that normalization leaves as it is: non-empty, ASCII, without whitespace.
pub open spec fn plain_word(w: Seq<char>) -> bool {
    w.len() > 0 && all_ascii(w) && no_ws(w)
}

proof fn lemma_ascii_case_chars(c: char)
    requires
        is_ascii_char(c),
    ensures
        is_ascii_char(ascii_upper(c)),
        is_ascii_char(ascii_lower(c)),
        is_ws(ascii_upper(c)) == is_ws(c),
        is_ws(ascii_lower(c)) == is_ws(c),
        ascii_upper(ascii_upper(c)) == ascii_upper(c),
        ascii_lower(ascii_lower(c)) == ascii_lower(c),
{
    assert(('a' <= c && c <= 'z') ==> ((((c as u32) - 32) as char) as u32 == (c as u32) - 32));
    assert(('A' <= c && c <= 'Z') ==> ((((c as u32) + 32) as char) as u32 == (c as u32) + 32));
}

proof fn lemma_lower_all_ascii(s: Seq<char>)
    requires
        all_ascii(s),
    ensures
        lower_all(s) == ascii_lower_all(s),
    decreases s.len(),
{
    if s.len() > 0 {
        lemma_lower_all_ascii(s.drop_last());
        assert(is_ascii_char(s.last()));
        assert(char_lower(s.last()) == seq![ascii_lower(s.last())]);
        assert(ascii_lower_all(s) == ascii_lower_all(s.drop_last()).push(ascii_lower(s.last())));
    }
}

proof fn lemma_title_plain(w: Seq<char>)
    requires
        plain_word(w),
    ensures
        plain_word(title_word(w)),
        title_word(title_word(w)) == title_word(w),
{
    let t = title_word(w);
    lemma_lower_all_ascii(w.drop_first());
    assert(is_ascii_char(w[0]));
    assert(char_upper(w[0]) == seq![ascii_upper(w[0])]);
    assert(t == seq![ascii_upper(w[0])] + ascii_lower_all(w.drop_first()));
    lemma_ascii_case_chars(w[0]);
    assert forall|i: int| 0 <= i < t.len() implies is_ascii_char(#[trigger] t[i]) && !is_ws(t[i]) by {
        if i > 0 {
            assert(w.drop_first()[i - 1] == w[i]);
            lemma_ascii_case_chars(w[i]);
        }
    }
    let rest = t.drop_first();
    assert(rest == ascii_lower_all(w.drop_first()));
    assert(all_ascii(rest));
    lemma_lower_all_ascii(rest);
    assert(char_upper(t[0]) == seq![ascii_upper(t[0])]);
    assert forall|i: int| 0 <= i < rest.len() implies #[trigger] ascii_lower_all(rest)[i] == rest[i] by {
        assert(w.drop_first()[i] == w[i + 1]);
        lemma_ascii_case_chars(w[i + 1]);
    }
    assert(ascii_lower_all(rest) == rest);
    assert(title_word(t) == t);
}

proof fn lemma_scan_append_word(a: Seq<char>, b: Seq<char>)
    requires
        no_ws(b),
    ensures
        word_scan(a + b) == (word_scan(a).0, word_scan(a).1 + b),
    decreases b.len(),
{
    if b.len() == 0 {
        assert(a + b == a);
        assert(word_scan(a).1 + b == word_scan(a).1);
    } else {
        assert((a + b).drop_last() == a + b.drop_last());
        assert(no_ws(b.drop_last()));
        lemma_scan_append_word(a, b.drop_last());
        assert(!is_ws(b.last()));
        assert(word_scan(a).1 + b.drop_last() + seq![b.last()] == word_scan(a).1 + b);
    }
}

proof fn lemma_scan_join(ws: Seq<Seq<char>>)
    requires
        ws.len() > 0,
        forall|i: int| 0 <= i < ws.len() ==> plain_word(#[trigger] ws[i]),
    ensures
        word_scan(join(ws, seq![' '])) == (ws.drop_last(), ws.last()),
    decreases ws.len(),
{
    if ws.len() == 1 {
        lemma_scan_append_word(Seq::<char>::empty(), ws[0]);
        assert(Seq::<char>::empty() + ws[0] == ws[0]);
        assert(ws.drop_last() == Seq::<Seq<char>>::empty());
    } else {
        let prev = ws.drop_last();
        assert forall|i: int| 0 <= i < prev.len() implies plain_word(#[trigger] prev[i]) by {
            assert(prev[i] == ws[i]);
        }
        lemma_scan_join(prev);
        let a = join(prev, seq![' ']);
        let with_space = a + seq![' '];
        assert(with_space.drop_last() == a);
        assert(with_space.last() == ' ');
        assert(prev.last().len() > 0);
        assert(word_scan(with_space) == (prev.drop_last().push(prev.last()), Seq::<char>::empty()));
        assert(prev.drop_last().push(prev.last()) == prev);
        lemma_scan_append_word(with_space, ws.last());
        assert(join(ws, seq![' ']) == with_space + ws.last());
        assert(Seq::<char>::empty() + ws.last() == ws.last());
    }
}

/// Joining plain words with single spaces and splitting the result at whitespace
/// gives the words back.
pub proof fn lemma_words_of_join(ws: Seq<Seq<char>>)
    requires
        forall|i: int| 0 <= i < ws.len() ==> plain_word(#[trigger] ws[i]),
    ensures
        words(join(ws, seq![' '])) == ws,
{
    if ws.len() > 0 {
        lemma_scan_join(ws);
        assert(ws.drop_last().push(ws.last()) == ws);
    }
}

proof fn lemma_scan_plain(s: Seq<char>)
    requires
        all_ascii(s),
    ensures
        forall|i: int| 0 <= i < word_scan(s).0.len() ==> plain_word(#[trigger] word_scan(s).0[i]),
        all_ascii(word_scan(s).1),
        no_ws(word_scan(s).1),
    decreases s.len(),
{
    if s.len() > 0 {
        let p = s.drop_last();
        assert(all_ascii(p));
        lemma_scan_plain(p);
        let (done, cur) = word_scan(p);
        let c = s.last();
        assert(is_ascii_char(c));
        if is_ws(c) {
            if cur.len() > 0 {
                assert forall|i: int| 0 <= i < done.push(cur).len() implies plain_word(#[trigger] done.push(cur)[i]) by {
                    if i < done.len() {
                        assert(done.push(cur)[i] == done[i]);
                    }
                }
            }
        } else {
            assert forall|i: int| 0 <= i < cur.push(c).len() implies is_ascii_char(#[trigger] cur.push(c)[i]) && !is_ws(cur.push(c)[i]) by {
                if i < cur.len() {
                    assert(cur.push(c)[i] == cur[i]);
                }
            }
        }
    }
}

/// The words of an ASCII text are plain words.
pub proof fn lemma_words_plain(s: Seq<char>)
    requires
        all_ascii(s),
    ensures
        forall|i: int| 0 <= i < words(s).len() ==> plain_word(#[trigger] words(s)[i]),
{
    lemma_scan_plain(s);
    let (done, cur) = word_scan(s);
    if cur.len() > 0 {
        assert forall|i: int| 0 <= i < done.push(cur).len() implies plain_word(#[trigger] done.push(cur)[i]) by {
            if i < done.len() {
                assert(done.push(cur)[i] == done[i]);
            }
        }
    }
}

/// Normalizing an ASCII name twice gives what normalizing it once gives.
pub proof fn lemma_normalize_name_idempotent(raw: Seq<char>)
    requires
        all_ascii(raw),
    ensures
        spec_normalize_name(spec_normalize_name(raw)) == spec_normalize_name(raw),
{
    let ws = words(raw);
    let ts = ws.map_values(|w: Seq<char>| title_word(w));
    lemma_words_plain(raw);
    assert forall|i: int| 0 <= i < ts.len() implies plain_word(#[trigger] ts[i]) && title_word(ts[i]) == ts[i] by {
        lemma_title_plain(ws[i]);
    }
    lemma_words_of_join(ts);
    let n1 = join(ts, seq![' ']);
    assert(words(n1) == ts);
    assert(words(n1).map_values(|w: Seq<char>| title_word(w)) == ts);
}

/// Lowercasing a text lowercases each character on its own, by the full mapping of
/// `char::to_lowercase`: the two parts of a concatenation are lowercased separately,
/// an ASCII character becomes its ASCII lowercase, and any other character becomes
/// the characters that std's Unicode mapping gives for it.
pub proof fn lemma_lower_all_by_char(a: Seq<char>, b: Seq<char>, c: char)
    ensures
        lower_all(a + b) == lower_all(a) + lower_all(b),
        is_ascii_char(c) ==> lower_all(seq![c]) == seq![ascii_lower(c)],
        !is_ascii_char(c) ==> lower_all(seq![c]) == unicode_lower(c),
    decreases b.len(),
{
    assert(seq![c].drop_last() =~= Seq::<char>::empty());
    assert(seq![c].last() == c);
    assert(lower_all(Seq::<char>::empty()) == Seq::<char>::empty());
    assert(Seq::<char>::empty() + char_lower(c) =~= char_lower(c));
    assert(lower_all(seq![c]) == char_lower(c));
    if b.len() == 0 {
        assert(a + b =~= a);
        assert(lower_all(a) + lower_all(b) =~= lower_all(a));
    } else {
        lemma_lower_all_by_char(a, b.drop_last(), c);
        assert((a + b).drop_last() =~= a + b.drop_last());
        assert((a + b).last() == b.last());
        assert(lower_all(a) + lower_all(b.drop_last()) + char_lower(b.last()) =~= lower_all(a)
            + lower_all(b));
    }
}

/// A single word (non-empty, without whitespace) is normalized to its first character
/// uppercased by the full mapping of `char::to_uppercase` (the ASCII mapping for an
/// ASCII character, std's Unicode mapping otherwise), followed by the rest of the word
/// lowercased character by character.
pub proof fn lemma_normalize_single_word(w: Seq<char>)
    requires
        w.len() > 0,
        no_ws(w),
    ensures
        is_ascii_char(w[0]) ==> spec_normalize_name(w) == seq![ascii_upper(w[0])] + lower_all(
            w.drop_first(),
        ),
        !is_ascii_char(w[0]) ==> spec_normalize_name(w) == unicode_upper(w[0]) + lower_all(
            w.drop_first(),
        ),
{
    lemma_scan_append_word(Seq::<char>::empty(), w);
    assert(Seq::<char>::empty() + w =~= w);
    assert(word_scan(Seq::<char>::empty()) == (Seq::<Seq<char>>::empty(), Seq::<char>::empty()));
    assert(words(w) =~= seq![w]);
    assert(words(w).map_values(|x: Seq<char>| title_word(x)) =~= seq![title_word(w)]);
}

// ---------------------------------------------------------------------------
// Laws of slug display
// ---------------------------------------------------------------------------

/// A character of a city slug: a lowercase ASCII letter, an ASCII digit or `-`.
pub open spec fn is_slug_char(c: char) -> bool {
    ('a' <= c && c <= 'z') || ('0' <= c && c <= '9') || c == '-'
}

/// Every character of `s`, lowercased where it is an ASCII capital (what
/// `str::to_ascii_lowercase` gives).
pub open spec fn ascii_lower_all(s: Seq<char>) -> Seq<char> {
    Seq::new(s.len(), |i: int| ascii_lower(s[i]))
}

/// `d` shows slug text `s` character by character: a space for each `-`, and for any
/// other character one whose ASCII lowercase is that character.
spec fn shows_slug(d: Seq<char>, s: Seq<char>) -> bool {
    &&& d.len() == s.len()
    &&& forall|i: int|
        0 <= i < s.len() ==> if s[i] == '-' {
            d[i] == ' '
        } else {
            ascii_lower(#[trigger] d[i]) == s[i]
        }
}

proof fn lemma_split_pieces_slug(s: Seq<char>)
    requires
        forall|i: int| 0 <= i < s.len() ==> is_slug_char(#[trigger] s[i]),
    ensures
        forall|k: int, j: int|
            0 <= k < split_on(s, '-').len() && 0 <= j < split_on(s, '-')[k].len() ==> {
                let c = #[trigger] split_on(s, '-')[k][j];
                is_slug_char(c) && c != '-'
            },
    decreases s.len(),
{
    if s.len() > 0 {
        let p = s.drop_last();
        assert forall|i: int| 0 <= i < p.len() implies is_slug_char(#[trigger] p[i]) by {
            assert(p[i] == s[i]);
        }
        lemma_split_pieces_slug(p);
        lemma_split_nonempty(p, '-');
        let pieces = split_on(p, '-');
        assert(is_slug_char(s[s.len() - 1]));
        if s.last() != '-' {
            let q = split_on(s, '-');
            assert forall|k: int, j: int| 0 <= k < q.len() && 0 <= j < q[k].len() implies {
                let c = #[trigger] q[k][j];
                is_slug_char(c) && c != '-'
            } by {
                if k == pieces.len() - 1 && j == pieces.last().len() {
                    assert(q[k][j] == s.last());
                } else if k == pieces.len() - 1 {
                    assert(q[k][j] == pieces[k][j]);
                } else {
                    assert(q[k] == pieces[k]);
                }
            }
        } else {
            let q = split_on(s, '-');
            assert forall|k: int, j: int| 0 <= k < q.len() && 0 <= j < q[k].len() implies {
                let c = #[trigger] q[k][j];
                is_slug_char(c) && c != '-'
            } by {
                assert(q[k] == pieces[k]);
            }
        }
    }
}

proof fn lemma_join_split(s: Seq<char>, sep: char)
    ensures
        join(split_on(s, sep), seq![sep]) == s,
    decreases s.len(),
{
    if s.len() > 0 {
        let p = s.drop_last();
        lemma_join_split(p, sep);
        lemma_split_nonempty(p, sep);
        let pieces = split_on(p, sep);
        let q = split_on(s, sep);
        if s.last() == sep {
            assert(q.drop_last() == pieces);
            assert(join(q, seq![sep]) == p + seq![sep] + Seq::<char>::empty());
        } else if pieces.len() == 1 {
            assert(q[0] == pieces[0].push(s.last()));
        } else {
            assert(q.drop_last() == pieces.drop_last());
            assert(join(pieces, seq![sep]) == join(pieces.drop_last(), seq![sep]) + seq![sep]
                + pieces.last());
        }
        assert(p.push(s.last()) == s);
    }
}

proof fn lemma_ascii_upper_lower(c: char)
    requires
        is_slug_char(c),
    ensures
        ascii_lower(ascii_upper(c)) == c,
        ascii_lower(c) == c,
{
    assert(('a' <= c && c <= 'z') ==> ((((c as u32) - 32) as char) as u32 == (c as u32) - 32));
    assert(('a' <= c && c <= 'z') ==> (((((c as u32) - 32) as char) as u32 + 32) as char == c));
}

proof fn lemma_segment_shows(w: Seq<char>)
    requires
        forall|j: int| 0 <= j < w.len() ==> is_slug_char(#[trigger] w[j]) && w[j] != '-',
    ensures
        shows_slug(display_segment(w), w),
{
    let d = display_segment(w);
    if is_preposition(w) || w.len() == 0 {
        assert forall|i: int| 0 <= i < w.len() implies ascii_lower(#[trigger] d[i]) == w[i] by {
            lemma_ascii_upper_lower(w[i]);
        }
    } else {
        assert(is_slug_char(w[0]));
        assert(is_ascii_char(w[0]));
        assert(d == seq![ascii_upper(w[0])] + w.drop_first());
        assert forall|i: int| 0 <= i < w.len() implies ascii_lower(#[trigger] d[i]) == w[i] by {
            lemma_ascii_upper_lower(w[i]);
            if i > 0 {
                assert(d[i] == w[i]);
            }
        }
    }
}

proof fn lemma_join_shows(ds: Seq<Seq<char>>, ps: Seq<Seq<char>>)
    requires
        ds.len() == ps.len(),
        forall|k: int| 0 <= k < ps.len() ==> shows_slug(#[trigger] ds[k], ps[k]),
    ensures
        shows_slug(join(ds, seq![' ']), join(ps, seq!['-'])),
    decreases ps.len(),
{
    if ps.len() == 1 {
        assert(shows_slug(ds[0], ps[0]));
    } else if ps.len() > 1 {
        let dp = ds.drop_last();
        let pp = ps.drop_last();
        assert forall|k: int| 0 <= k < pp.len() implies shows_slug(#[trigger] dp[k], pp[k]) by {
            assert(dp[k] == ds[k]);
            assert(pp[k] == ps[k]);
        }
        lemma_join_shows(dp, pp);
        let a = join(dp, seq![' ']);
        let b = join(pp, seq!['-']);
        let d = a + seq![' '] + ds.last();
        let s = b + seq!['-'] + ps.last();
        assert(shows_slug(ds.last(), ps.last()));
        assert forall|i: int| 0 <= i < s.len() implies if s[i] == '-' {
            d[i] == ' '
        } else {
            ascii_lower(#[trigger] d[i]) == s[i]
        } by {
            if i < b.len() {
                assert(s[i] == b[i]);
                assert(d[i] == a[i]);
            } else if i == b.len() {
            } else {
                assert(s[i] == ps.last()[i - b.len() - 1]);
                assert(d[i] == ds.last()[i - a.len() - 1]);
            }
        }
    }
}

proof fn lemma_replace_one_char(s: Seq<char>, a: char, b: char)
    ensures
        replace_all(s, seq![a], seq![b]) == Seq::new(s.len(), |i: int| if s[i] == a { b } else { s[i] }),
    decreases s.len(),
{
    if s.len() > 0 {
        lemma_replace_one_char(s.drop_first(), a, b);
        if s[0] == a {
            assert(s.subrange(0, 1) == seq![a]);
            assert(s.skip(1) == s.drop_first());
        } else {
            if starts_with(s, seq![a]) {
                assert(s.subrange(0, 1)[0] == s[0]);
            }
        }
        assert(replace_all(s, seq![a], seq![b]) =~= Seq::new(s.len(), |i: int| if s[i] == a { b } else { s[i] }));
    }
}

/// The display name of a city slug maps back to the slug: lowercased (ASCII) and with
/// each space turned into `-`, it is the slug again.
pub proof fn lemma_slug_round_trip(slug: Seq<char>)
    requires
        forall|i: int| 0 <= i < slug.len() ==> is_slug_char(#[trigger] slug[i]),
    ensures
        replace_all(ascii_lower_all(spec_slug_to_display(slug)), seq![' '], seq!['-']) == slug,
{
    let ps = split_on(slug, '-');
    let ds = ps.map_values(|w: Seq<char>| display_segment(w));
    lemma_split_pieces_slug(slug);
    assert forall|k: int| 0 <= k < ps.len() implies shows_slug(#[trigger] ds[k], ps[k]) by {
        assert forall|j: int| 0 <= j < ps[k].len() implies is_slug_char(#[trigger] ps[k][j])
            && ps[k][j] != '-' by {}
        lemma_segment_shows(ps[k]);
    }
    lemma_join_shows(ds, ps);
    lemma_join_split(slug, '-');
    let d = spec_slug_to_display(slug);
    let l = ascii_lower_all(d);
    lemma_replace_one_char(l, ' ', '-');
    assert forall|i: int| 0 <= i < slug.len() implies (if l[i] == ' ' { '-' } else { l[i] }) == slug[i] by {
        assert(is_slug_char(slug[i]));
        if slug[i] != '-' {
            assert(ascii_lower(d[i]) == slug[i]);
        }
    }
    assert(Seq::new(l.len(), |i: int| if l[i] == ' ' { '-' } else { l[i] }) =~= slug);
}

/// Normalize a phone number to E.164 format (Brazilian default).
///
/// Strips formatting, applies country code +55 if missing.
pub fn normalize_phone(raw: &str) -> (r: String)
    ensures
        r@ == spec_normalize_phone(raw@),
{
    let chars = chars_of(raw);
    let digits = digits_of(&chars);
    let mut out: Vec<char> = Vec::new();
    if digits.len() == 0 {
        return string_of(&out);
    }
    let fifty_five = digits.len() >= 2 && digits[0] == '5' && digits[1] == '5';
    proof {
        if digits.len() >= 2 {
            assert(starts_with(digits@, seq!['5', '5']) == (digits@[0] == '5' && digits@[1] == '5'))
                by {
                if digits@[0] == '5' && digits@[1] == '5' {
                    assert(digits@.subrange(0, 2) == seq!['5', '5']);
                } else if digits@.subrange(0, 2) == seq!['5', '5'] {
                    assert(digits@.subrange(0, 2)[0] == '5');
                    assert(digits@.subrange(0, 2)[1] == '5');
                }
            }
        }
    }
    out.push('+');
    if digits.len() == 11 || digits.len() == 10 {
        out.push('5');
        out.push('5');
    } else if digits.len() == 13 && fifty_five {
    } else if digits.len() == 12 && fifty_five {
    }
    let r = concat(&out, &digits);
    string_of(&r)
}

/// Every character of `w[from..]`, lowercased, concatenated.
fn lower_rest(w: &Vec<char>) -> (r: Vec<char>)
    requires
        w.len() >= 1,
    ensures
        r@ == lower_all(w@.drop_first()),
{
    let mut r: Vec<char> = Vec::new();
    let mut i: usize = 1;
    assert(w@.subrange(1, 1) == Seq::<char>::empty());
    while i < w.len()
        invariant
            1 <= i <= w.len(),
            r@ == lower_all(w@.subrange(1, i as int)),
        decreases w.len() - i,
    {
        assert(w@.subrange(1, i + 1).drop_last() == w@.subrange(1, i as int));
        let low = lower_of(w[i]);
        r = concat(&r, &low);
        i = i + 1;
    }
    assert(w@.subrange(1, w.len() as int) == w@.drop_first());
    r
}

/// A word in title case.
fn title_word_exec(w: &Vec<char>) -> (r: Vec<char>)
    ensures
        r@ == title_word(w@),
{
    if w.len() == 0 {
        return Vec::new();
    }
    let first = upper_of(w[0]);
    let rest = lower_rest(w);
    concat(&first, &rest)
}

/// Normalize a name: trim, collapse whitespace, title case.
pub fn normalize_name(raw: &str) -> (r: String)
    ensures
        r@ == spec_normalize_name(raw@),
{
    let chars = chars_of(raw);
    let ws = words_of(&chars);
    let ghost wv = words(raw@);
    let mut titled: Vec<Vec<char>> = Vec::new();
    for i in 0..ws.len()
        invariant
            views(ws@) == wv,
            views(titled@) == wv.take(i as int).map_values(|w: Seq<char>| title_word(w)),
    {
        let ghost before = titled@;
        let t = title_word_exec(&ws[i]);
        titled.push(t);
        assert(views(titled@) == views(before).push(t@));
        assert(wv.take(i + 1).map_values(|w: Seq<char>| title_word(w)) == wv.take(
            i as int,
        ).map_values(|w: Seq<char>| title_word(w)).push(title_word(wv[i as int])));
    }
    assert(wv.take(ws.len() as int) == wv);
    let mut sep: Vec<char> = Vec::new();
    sep.push(' ');
    assert(sep@ == seq![' ']);
    assert(views(titled@) == wv.map_values(|w: Seq<char>| title_word(w)));
    let joined = join_chars(&titled, &sep);
    string_of(&joined)
}

fn is_preposition_exec(w: &Vec<char>) -> (b: bool)
    ensures
        b == is_preposition(w@),
{
    let n = w.len();
    let b = (n == 2 && w[0] == 'd' && (w[1] == 'e' || w[1] == 'o' || w[1] == 'a')) || (n == 3
        && w[0] == 'd' && (w[1] == 'o' || w[1] == 'a') && w[2] == 's') || (n == 1 && w[0]
        == 'e');
    proof {
        if b {
            if n == 2 {
                assert(w@ == seq!['d', w@[1]]);
            } else if n == 3 {
                assert(w@ == seq!['d', w@[1], 's']);
            } else {
                assert(w@ == seq!['e']);
            }
        }
    }
    b
}

/// One slug piece, for display.
fn display_segment_exec(w: &Vec<char>) -> (r: Vec<char>)
    ensures
        r@ == display_segment(w@),
{
    if is_preposition_exec(w) {
        w.clone()
    } else if w.len() == 0 {
        Vec::new()
    } else {
        let first = upper_of(w[0]);
        let rest = copy_range(w, 1, w.len());
        assert(w@.subrange(1, w.len() as int) == w@.drop_first());
        concat(&first, &rest)
    }
}

/// Normalize city slug to a display name.
pub fn slug_to_display(slug: &str) -> (r: String)
    ensures
        r@ == spec_slug_to_display(slug@),
{
    let chars = chars_of(slug);
    let pieces = split_chars(&chars, '-');
    let ghost pv = split_on(slug@, '-');
    let mut shown: Vec<Vec<char>> = Vec::new();
    for i in 0..pieces.len()
        invariant
            views(pieces@) == pv,
            views(shown@) == pv.take(i as int).map_values(|w: Seq<char>| display_segment(w)),
    {
        let ghost before = shown@;
        let t = display_segment_exec(&pieces[i]);
        shown.push(t);
        assert(views(shown@) == views(before).push(t@));
        assert(pv.take(i + 1).map_values(|w: Seq<char>| display_segment(w)) == pv.take(
            i as int,
        ).map_values(|w: Seq<char>| display_segment(w)).push(display_segment(pv[i as int])));
    }
    assert(pv.take(pieces.len() as int) == pv);
    let mut sep: Vec<char> = Vec::new();
    sep.push(' ');
    assert(sep@ == seq![' ']);
    assert(views(shown@) == pv.map_values(|w: Seq<char>| display_segment(w)));
    let joined = join_chars(&shown, &sep);
    string_of(&joined)
}

} // verus!
