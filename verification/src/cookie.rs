use vstd::prelude::*;

use crate::text::chars_of;

verus! {

// ---------------------------------------------------------------------------
// Character classes
// ---------------------------------------------------------------------------

/// The characters with the Unicode `White_Space` property, the set that
/// `char::is_whitespace` and `str::trim` use.
pub open spec fn is_white_space(c: char) -> bool {
    ||| ('\u{9}' <= c && c <= '\u{d}')
    ||| c == ' '
    ||| c == '\u{85}'
    ||| c == '\u{a0}'
    ||| c == '\u{1680}'
    ||| ('\u{2000}' <= c && c <= '\u{200a}')
    ||| c == '\u{2028}'
    ||| c == '\u{2029}'
    ||| c == '\u{202f}'
    ||| c == '\u{205f}'
    ||| c == '\u{3000}'
}

/// Decides `is_white_space`.
pub fn is_white_space_char(c: char) -> (r: bool)
    ensures
        r == is_white_space(c),
{
    ('\u{9}' <= c && c <= '\u{d}') || c == ' ' || c == '\u{85}' || c == '\u{a0}' || c
        == '\u{1680}' || ('\u{2000}' <= c && c <= '\u{200a}') || c == '\u{2028}' || c
        == '\u{2029}' || c == '\u{202f}' || c == '\u{205f}' || c == '\u{3000}'
}

/// The predicate "is white space", as a value.
pub open spec fn white_pred() -> spec_fn(char) -> bool {
    |c: char| is_white_space(c)
}

/// The predicate "is the character `x`", as a value.
pub open spec fn char_pred(x: char) -> spec_fn(char) -> bool {
    |c: char| c == x
}

// ---------------------------------------------------------------------------
// Trimming
// ---------------------------------------------------------------------------

/// `s` without its longest prefix of characters satisfying `p`.
pub open spec fn strip_front(s: Seq<char>, p: spec_fn(char) -> bool) -> Seq<char>
    decreases s.len(),
{
    if s.len() > 0 && p(s[0]) {
        strip_front(s.drop_first(), p)
    } else {
        s
    }
}

/// `s` without its longest suffix of characters satisfying `p`.
pub open spec fn strip_back(s: Seq<char>, p: spec_fn(char) -> bool) -> Seq<char>
    decreases s.len(),
{
    if s.len() > 0 && p(s.last()) {
        strip_back(s.drop_last(), p)
    } else {
        s
    }
}

/// `s` with every prefix and suffix of characters satisfying `p` removed,
/// as `str::trim_matches` does with a predicate.
pub open spec fn trim_by(s: Seq<char>, p: spec_fn(char) -> bool) -> Seq<char> {
    strip_back(strip_front(s, p), p)
}

/// What `str::trim` gives back for `s`.
pub open spec fn trim_white(s: Seq<char>) -> Seq<char> {
    trim_by(s, white_pred())
}

/// What `str::trim_matches(x)` gives back for `s`.
pub open spec fn trim_char(s: Seq<char>, x: char) -> Seq<char> {
    trim_by(s, char_pred(x))
}

proof fn lemma_strip_front(t: Seq<char>, p: spec_fn(char) -> bool, k: int)
    requires
        0 <= k <= t.len(),
        forall|i: int| 0 <= i < k ==> #[trigger] p(t[i]),
        k == t.len() || !p(t[k]),
    ensures
        strip_front(t, p) == t.skip(k),
    decreases k,
{
    if k == 0 {
        assert(t.skip(0) =~= t);
    } else {
        assert(p(t[0]));
        let u = t.drop_first();
        assert forall|i: int| 0 <= i < k - 1 implies #[trigger] p(u[i]) by {
            assert(u[i] == t[i + 1]);
        }
        if k - 1 < u.len() {
            assert(u[k - 1] == t[k]);
        }
        lemma_strip_front(u, p, k - 1);
        assert(u.skip(k - 1) =~= t.skip(k));
    }
}

proof fn lemma_strip_back(t: Seq<char>, p: spec_fn(char) -> bool, k: int)
    requires
        0 <= k <= t.len(),
        forall|i: int| k <= i < t.len() ==> #[trigger] p(t[i]),
        k == 0 || !p(t[k - 1]),
    ensures
        strip_back(t, p) == t.take(k),
    decreases t.len() - k,
{
    if k == t.len() {
        assert(t.take(k) =~= t);
        if t.len() > 0 {
            assert(t.last() == t[k - 1]);
        }
    } else {
        assert(p(t[t.len() - 1]));
        let u = t.drop_last();
        assert forall|i: int| k <= i < u.len() implies #[trigger] p(u[i]) by {
            assert(u[i] == t[i]);
        }
        if k > 0 {
            assert(u[k - 1] == t[k - 1]);
        }
        lemma_strip_back(u, p, k);
        assert(u.take(k) =~= t.take(k));
    }
}

/// Which characters a trim removes.
enum Strip {
    White,
    Char(char),
}

spec fn strip_pred(k: Strip) -> spec_fn(char) -> bool {
    match k {
        Strip::White => white_pred(),
        Strip::Char(x) => char_pred(x),
    }
}

fn strips(k: &Strip, c: char) -> (r: bool)
    ensures
        r == strip_pred(*k)(c),
{
    match k {
        Strip::White => is_white_space_char(c),
        Strip::Char(x) => c == *x,
    }
}

/// The bounds of the trimmed range `v[lo..hi]`.
fn trimmed(v: &Vec<char>, lo: usize, hi: usize, k: Strip) -> (r: (usize, usize))
    requires
        lo <= hi <= v.len(),
    ensures
        lo <= r.0 <= r.1 <= hi,
        v@.subrange(r.0 as int, r.1 as int) == trim_by(
            v@.subrange(lo as int, hi as int),
            strip_pred(k),
        ),
{
    let ghost p = strip_pred(k);
    let mut a = lo;
    while a < hi && strips(&k, v[a])
        invariant
            lo <= a <= hi <= v.len(),
            p == strip_pred(k),
            forall|i: int| lo <= i < a ==> #[trigger] p(v@[i]),
        decreases hi - a,
    {
        a = a + 1;
    }
    let mut b = hi;
    while b > a && strips(&k, v[b - 1])
        invariant
            lo <= a <= b <= hi <= v.len(),
            p == strip_pred(k),
            forall|i: int| b <= i < hi ==> #[trigger] p(v@[i]),
        decreases b - a,
    {
        b = b - 1;
    }
    proof {
        let sub = v@.subrange(lo as int, hi as int);
        assert forall|i: int| 0 <= i < a - lo implies #[trigger] p(sub[i]) by {
            assert(sub[i] == v@[lo + i]);
        }
        if a < hi {
            assert(sub[a - lo] == v@[a as int]);
        }
        lemma_strip_front(sub, p, a - lo);
        let rest = v@.subrange(a as int, hi as int);
        assert(sub.skip(a - lo) =~= rest);
        assert forall|i: int| b - a <= i < rest.len() implies #[trigger] p(rest[i]) by {
            assert(rest[i] == v@[a + i]);
        }
        if b > a {
            assert(rest[b - a - 1] == v@[b - 1]);
        }
        lemma_strip_back(rest, p, b - a);
        assert(rest.take(b - a) =~= v@.subrange(a as int, b as int));
    }
    (a, b)
}

// ---------------------------------------------------------------------------
// Splitting
// ---------------------------------------------------------------------------

/// The index of the first `c` in `s`, or `s.len()` when there is none.
pub open spec fn first_index(s: Seq<char>, c: char) -> nat
    decreases s.len(),
{
    if s.len() == 0 {
        0
    } else if s[0] == c {
        0
    } else {
        1 + first_index(s.drop_first(), c)
    }
}

/// The pieces that `str::split(sep)` yields for `s`, in order: the text
/// before each `sep`, then the text after the last one.
pub open spec fn split_pieces(s: Seq<char>, sep: char) -> Seq<Seq<char>>
    decreases s.len(),
{
    let i = first_index(s, sep);
    if i < s.len() {
        seq![s.take(i as int)] + split_pieces(s.skip(i + 1int), sep)
    } else {
        seq![s]
    }
}

proof fn lemma_first_index(t: Seq<char>, c: char, k: int)
    requires
        0 <= k <= t.len(),
        forall|i: int| 0 <= i < k ==> t[i] != c,
        k == t.len() || t[k] == c,
    ensures
        first_index(t, c) == k,
    decreases k,
{
    if k > 0 {
        let u = t.drop_first();
        assert(t[0] != c);
        assert forall|i: int| 0 <= i < k - 1 implies u[i] != c by {
            assert(u[i] == t[i + 1]);
        }
        if k - 1 < u.len() {
            assert(u[k - 1] == t[k]);
        }
        lemma_first_index(u, c, k - 1);
    }
}

/// The index of the first `c` in `v[from..]`, or `v.len()`.
fn find_from(v: &Vec<char>, from: usize, c: char) -> (r: usize)
    requires
        from <= v.len(),
    ensures
        from <= r <= v.len(),
        forall|i: int| from <= i < r ==> v@[i] != c,
        r == v.len() || v@[r as int] == c,
{
    let mut i = from;
    while i < v.len() && v[i] != c
        invariant
            from <= i <= v.len(),
            forall|j: int| from <= j < i ==> v@[j] != c,
        decreases v.len() - i,
    {
        i = i + 1;
    }
    i
}

// ---------------------------------------------------------------------------
// The csrf token
// ---------------------------------------------------------------------------

/// The cookie name that carries the csrf token, with its `=`.
pub open spec fn csrf_key() -> Seq<char> {
    seq!['b', 'i', 'l', 'i', '_', 'j', 'c', 't', '=']
}

/// The code of `c` with ASCII capitals mapped to small letters.
pub open spec fn ascii_fold(c: char) -> u32 {
    if 'A' <= c && c <= 'Z' {
        (c as u32 + 32) as u32
    } else {
        c as u32
    }
}

/// `p` starts with `bili_jct=`, ignoring the case of its letters.
///
/// `str::to_lowercase` maps no character outside ASCII to one of the
/// characters of `bili_jct=` alone, so this is what
/// `p.to_lowercase().starts_with("bili_jct=")` decides.
pub open spec fn is_csrf_entry(p: Seq<char>) -> bool {
    p.len() >= 9 && forall|i: int| 0 <= i < 9 ==> ascii_fold(#[trigger] p[i]) == csrf_key()[i] as u32
}

/// The token of a csrf entry: what follows `bili_jct=`, without surrounding
/// double quotes, then without surrounding single quotes.
pub open spec fn csrf_value(p: Seq<char>) -> Seq<char> {
    trim_char(trim_char(p.skip(9), '"'), '\'')
}

/// The token of the first piece that, trimmed, is a csrf entry; empty when
/// no piece is one.
pub open spec fn first_csrf(pieces: Seq<Seq<char>>) -> Seq<char>
    decreases pieces.len(),
{
    if pieces.len() == 0 {
        seq![]
    } else if is_csrf_entry(trim_white(pieces[0])) {
        csrf_value(trim_white(pieces[0]))
    } else {
        first_csrf(pieces.drop_first())
    }
}

/// The csrf token that a cookie header carries: the value of its first
/// `bili_jct` entry, or empty.
pub open spec fn csrf_of(cookie: Seq<char>) -> Seq<char> {
    first_csrf(split_pieces(cookie, ';'))
}

fn key_code(i: usize) -> (c: u32)
    requires
        i < 9,
    ensures
        c == csrf_key()[i as int] as u32,
{
    match i {
        0 => 'b' as u32,
        1 => 'i' as u32,
        2 => 'l' as u32,
        3 => 'i' as u32,
        4 => '_' as u32,
        5 => 'j' as u32,
        6 => 'c' as u32,
        7 => 't' as u32,
        _ => '=' as u32,
    }
}

fn fold_code(c: char) -> (r: u32)
    ensures
        r == ascii_fold(c),
{
    if 'A' <= c && c <= 'Z' {
        c as u32 + 32
    } else {
        c as u32
    }
}

/// Decides whether `v[a..b]` is a csrf entry.
fn is_entry(v: &Vec<char>, a: usize, b: usize) -> (r: bool)
    requires
        a <= b <= v.len(),
    ensures
        r == is_csrf_entry(v@.subrange(a as int, b as int)),
{
    let ghost part = v@.subrange(a as int, b as int);
    if b - a < 9 {
        return false;
    }
    let mut i: usize = 0;
    while i < 9
        invariant
            a <= b <= v.len(),
            b - a >= 9,
            i <= 9,
            part == v@.subrange(a as int, b as int),
            forall|j: int| 0 <= j < i ==> ascii_fold(#[trigger] part[j]) == csrf_key()[j] as u32,
        decreases 9 - i,
    {
        assert(part[i as int] == v@[a + i]);
        if fold_code(v[a + i]) != key_code(i) {
            return false;
        }
        i = i + 1;
    }
    true
}

/// Reads the csrf token from a cookie header: the value of the first
/// `;`-separated entry that, trimmed, starts with `bili_jct=` in any case,
/// with surrounding `"` and then `'` removed. Gives back an empty string when
/// no entry carries one.
pub fn extract_csrf(cookie: &str) -> (csrf: String)
    ensures
        csrf@ == csrf_of(cookie@),
{
    let v = chars_of(cookie);
    let n = v.len();
    let ghost s = v@;
    let mut start: usize = 0;
    assert(s.skip(0) =~= s);
    loop
        invariant
            start <= n,
            n == v.len(),
            s == v@,
            s == cookie@,
            csrf_of(s) == first_csrf(split_pieces(s.skip(start as int), ';')),
        decreases n - start,
    {
        let end = find_from(&v, start, ';');
        let ghost t = s.skip(start as int);
        proof {
            assert forall|i: int| 0 <= i < end - start implies t[i] != ';' by {
                assert(t[i] == s[start + i]);
            }
            if end < n {
                assert(t[end - start] == s[end as int]);
            }
            lemma_first_index(t, ';', end - start);
            assert(t.take(end - start) =~= s.subrange(start as int, end as int));
            if end < n {
                assert(t.skip(end - start + 1) =~= s.skip(end + 1));
            } else {
                assert(t =~= s.subrange(start as int, end as int));
            }
        }
        let (a, b) = trimmed(&v, start, end, Strip::White);
        let ghost piece = s.subrange(start as int, end as int);
        assert(split_pieces(t, ';')[0] == piece);
        assert(split_pieces(t, ';').drop_first() =~= (if end < n {
            split_pieces(s.skip(end + 1), ';')
        } else {
            Seq::<Seq<char>>::empty()
        }));
        if is_entry(&v, a, b) {
            assert(v@.subrange(a as int, b as int).skip(9) =~= v@.subrange(a + 9, b as int));
            let (x, y) = trimmed(&v, a + 9, b, Strip::Char('"'));
            let (x2, y2) = trimmed(&v, x, y, Strip::Char('\''));
            let token = cookie.substring_char(x2, y2);
            return String::from_str(token);
        }
        if end == n {
            assert(first_csrf(split_pieces(t, ';').drop_first()) =~= Seq::<char>::empty());
            return String::new();
        }
        start = end + 1;
    }
}


// ---------------------------------------------------------------------------
// Laws
// ---------------------------------------------------------------------------

/// Some piece, trimmed, is a csrf entry.
pub open spec fn has_csrf_entry(pieces: Seq<Seq<char>>) -> bool {
    exists|i: int| 0 <= i < pieces.len() && is_csrf_entry(trim_white(#[trigger] pieces[i]))
}

proof fn lemma_first_index_bounds(t: Seq<char>, c: char)
    ensures
        first_index(t, c) <= t.len(),
        forall|j: int| 0 <= j < first_index(t, c) ==> t[j] != c,
        first_index(t, c) < t.len() ==> t[first_index(t, c) as int] == c,
    decreases t.len(),
{
    if t.len() > 0 && t[0] != c {
        let u = t.drop_first();
        lemma_first_index_bounds(u, c);
        assert forall|j: int| 0 <= j < first_index(t, c) implies t[j] != c by {
            if j > 0 {
                assert(t[j] == u[j - 1]);
            }
        }
        if first_index(t, c) < t.len() {
            assert(t[first_index(t, c) as int] == u[first_index(u, c) as int]);
        }
    }
}

/// Splitting `a;b` on `;` gives the pieces of `a` followed by those of `b`.
pub proof fn law_split_concat(a: Seq<char>, b: Seq<char>)
    ensures
        split_pieces(a + seq![';'] + b, ';') == split_pieces(a, ';') + split_pieces(b, ';'),
    decreases a.len(),
{
    let s = a + seq![';'] + b;
    lemma_first_index_bounds(a, ';');
    let i = first_index(a, ';') as int;
    assert forall|j: int| 0 <= j < i implies s[j] != ';' by {
        assert(s[j] == a[j]);
    }
    if i < a.len() {
        assert(s[i] == a[i]);
        lemma_first_index(s, ';', i);
        let rest = a.skip(i + 1);
        law_split_concat(rest, b);
        assert(s.take(i) =~= a.take(i));
        assert(s.skip(i + 1) =~= rest + seq![';'] + b);
        assert(split_pieces(s, ';') =~= seq![a.take(i)] + (split_pieces(rest, ';') + split_pieces(
            b,
            ';',
        )));
        assert(split_pieces(a, ';') == seq![a.take(i)] + split_pieces(rest, ';'));
        assert(split_pieces(s, ';') =~= split_pieces(a, ';') + split_pieces(b, ';'));
    } else {
        assert(s[i] == ';');
        lemma_first_index(s, ';', i);
        assert(s.take(i) =~= a);
        assert(s.skip(i + 1) =~= b);
        assert(split_pieces(a, ';') =~= seq![a]);
        assert(split_pieces(s, ';') =~= split_pieces(a, ';') + split_pieces(b, ';'));
    }
}

proof fn lemma_first_csrf_concat(x: Seq<Seq<char>>, y: Seq<Seq<char>>)
    ensures
        first_csrf(x + y) == if has_csrf_entry(x) {
            first_csrf(x)
        } else {
            first_csrf(y)
        },
    decreases x.len(),
{
    if x.len() == 0 {
        assert(x + y =~= y);
    } else {
        assert((x + y)[0] == x[0]);
        if is_csrf_entry(trim_white(x[0])) {
            assert(has_csrf_entry(x));
        } else {
            let u = x.drop_first();
            assert((x + y).drop_first() =~= u + y);
            lemma_first_csrf_concat(u, y);
            if has_csrf_entry(x) {
                let i = choose|i: int|
                    0 <= i < x.len() && is_csrf_entry(trim_white(#[trigger] x[i]));
                assert(u[i - 1] == x[i]);
                assert(has_csrf_entry(u));
            }
            if has_csrf_entry(u) {
                let i = choose|i: int|
                    0 <= i < u.len() && is_csrf_entry(trim_white(#[trigger] u[i]));
                assert(x[i + 1] == u[i]);
                assert(has_csrf_entry(x));
            }
        }
    }
}

/// In `a;b` the first entry wins: the token comes from `a` when one of its
/// entries carries one, and from `b` otherwise.
pub proof fn law_csrf_first_entry_wins(a: Seq<char>, b: Seq<char>)
    ensures
        csrf_of(a + seq![';'] + b) == if has_csrf_entry(split_pieces(a, ';')) {
            csrf_of(a)
        } else {
            csrf_of(b)
        },
{
    law_split_concat(a, b);
    lemma_first_csrf_concat(split_pieces(a, ';'), split_pieces(b, ';'));
}

/// A token with no `;`, no white space at its end and no quote at either end
/// is read back unchanged from the cookie `bili_jct=<token>`.
pub proof fn law_csrf_round_trip(v: Seq<char>)
    requires
        !v.contains(';'),
        v.len() > 0 ==> {
            &&& !is_white_space(v.last())
            &&& v[0] != '"' && v[0] != '\''
            &&& v.last() != '"' && v.last() != '\''
        },
    ensures
        csrf_of(csrf_key() + v) == v,
{
    let s = csrf_key() + v;
    assert forall|j: int| 0 <= j < s.len() implies s[j] != ';' by {
        if j >= 9 {
            assert(s[j] == v[j - 9]);
            assert(v.contains(v[j - 9]));
        }
    }
    lemma_first_index(s, ';', s.len() as int);
    assert(split_pieces(s, ';') =~= seq![s]);
    let wp = white_pred();
    lemma_strip_front(s, wp, 0);
    assert(s.skip(0) =~= s);
    if v.len() > 0 {
        assert(s[s.len() - 1] == v.last());
    }
    lemma_strip_back(s, wp, s.len() as int);
    assert(s.take(s.len() as int) =~= s);
    assert(trim_white(s) == s);
    assert(is_csrf_entry(s));
    assert(s.skip(9) =~= v);
    let dq = char_pred('"');
    let sq = char_pred('\'');
    if v.len() > 0 {
        assert(v[v.len() - 1] == v.last());
    }
    lemma_strip_front(v, dq, 0);
    assert(v.skip(0) =~= v);
    lemma_strip_back(v, dq, v.len() as int);
    assert(v.take(v.len() as int) =~= v);
    lemma_strip_front(v, sq, 0);
    lemma_strip_back(v, sq, v.len() as int);
    assert(first_csrf(seq![s]) == csrf_value(s));
}

/// A key spelled like `bili_jct=` up to the case of its letters.
pub open spec fn spells_csrf_key(k: Seq<char>) -> bool {
    k.len() == 9 && forall|i: int| 0 <= i < 9 ==> ascii_fold(#[trigger] k[i]) == csrf_key()[i] as u32
}

proof fn lemma_strip_back_prefix(k: Seq<char>, w: Seq<char>, p: spec_fn(char) -> bool)
    requires
        k.len() > 0,
        !p(k.last()),
    ensures
        strip_back(k + w, p) == k + strip_back(w, p),
    decreases w.len(),
{
    let s = k + w;
    if w.len() == 0 {
        assert(s =~= k);
        assert(k + w =~= k);
    } else {
        assert(s.last() == w.last());
        if p(w.last()) {
            assert(s.drop_last() =~= k + w.drop_last());
            lemma_strip_back_prefix(k, w.drop_last(), p);
        }
    }
}

proof fn lemma_split_prefix(k: Seq<char>, v: Seq<char>)
    requires
        !k.contains(';'),
    ensures
        split_pieces(k + v, ';')[0] == k + split_pieces(v, ';')[0],
        split_pieces(k + v, ';').drop_first() == split_pieces(v, ';').drop_first(),
{
    let s = k + v;
    lemma_first_index_bounds(v, ';');
    let f = first_index(v, ';') as int;
    assert forall|j: int| 0 <= j < k.len() + f implies s[j] != ';' by {
        if j < k.len() {
            assert(s[j] == k[j]);
            assert(k.contains(k[j]));
        } else {
            assert(s[j] == v[j - k.len()]);
        }
    }
    if f < v.len() {
        assert(s[k.len() + f] == v[f]);
    }
    lemma_first_index(s, ';', k.len() + f);
    if f < v.len() {
        assert(s.take(k.len() + f) =~= k + v.take(f));
        assert(s.skip(k.len() + f + 1) =~= v.skip(f + 1));
        assert(split_pieces(s, ';').drop_first() =~= split_pieces(v.skip(f + 1), ';'));
        assert(split_pieces(v, ';').drop_first() =~= split_pieces(v.skip(f + 1), ';'));
    } else {
        assert(split_pieces(s, ';').drop_first() =~= Seq::<Seq<char>>::empty());
        assert(split_pieces(v, ';').drop_first() =~= Seq::<Seq<char>>::empty());
    }
}

proof fn lemma_keyed_piece(k: Seq<char>, w: Seq<char>)
    requires
        spells_csrf_key(k),
    ensures
        trim_white(k + w) == k + strip_back(w, white_pred()),
        is_csrf_entry(trim_white(k + w)),
        csrf_value(trim_white(k + w)) == trim_char(
            trim_char(strip_back(w, white_pred()), '"'),
            '\'',
        ),
{
    let wp = white_pred();
    let s = k + w;
    assert(s[0] == k[0]);
    assert(ascii_fold(k[0]) == 98);
    lemma_strip_front(s, wp, 0);
    assert(s.skip(0) =~= s);
    assert(ascii_fold(k[8]) == 61);
    assert(k.last() == k[8]);
    lemma_strip_back_prefix(k, w, wp);
    let t = k + strip_back(w, wp);
    assert forall|i: int| 0 <= i < 9 implies ascii_fold(#[trigger] t[i]) == csrf_key()[i] as u32 by {
        assert(t[i] == k[i]);
    }
    assert(t.skip(9) =~= strip_back(w, wp));
}

/// The key of the csrf entry is matched without regard to the case of its
/// letters: `BILI_JCT=...`, `Bili_Jct=...` and `bili_jct=...` carry the same
/// token.
pub proof fn law_csrf_key_any_case(k: Seq<char>, v: Seq<char>)
    requires
        spells_csrf_key(k),
    ensures
        csrf_of(k + v) == csrf_of(csrf_key() + v),
{
    let key = csrf_key();
    assert(spells_csrf_key(key));
    assert forall|x: Seq<char>| spells_csrf_key(x) implies !x.contains(';') by {
        if x.contains(';') {
            let j = choose|j: int| 0 <= j < x.len() && x[j] == ';';
            assert(ascii_fold(x[j]) == 59);
        }
    }
    lemma_split_prefix(k, v);
    lemma_split_prefix(key, v);
    let w = split_pieces(v, ';')[0];
    lemma_keyed_piece(k, w);
    lemma_keyed_piece(key, w);
}

/// The key is `bili_jct=`, and its capital spelling `BILI_JCT=` carries the
/// same token.
pub proof fn law_csrf_key_text(v: Seq<char>)
    ensures
        csrf_key() == "bili_jct="@,
        csrf_of("BILI_JCT="@ + v) == csrf_of("bili_jct="@ + v),
{
    reveal_strlit("bili_jct=");
    reveal_strlit("BILI_JCT=");
    assert(csrf_key() =~= "bili_jct="@);
    let k = "BILI_JCT="@;
    assert(spells_csrf_key(k));
    law_csrf_key_any_case(k, v);
}

/// Every character of `w` is white space.
pub open spec fn all_white(w: Seq<char>) -> bool {
    forall|i: int| 0 <= i < w.len() ==> is_white_space(#[trigger] w[i])
}

proof fn lemma_trim_around(w1: Seq<char>, e: Seq<char>, w2: Seq<char>)
    requires
        all_white(w1),
        all_white(w2),
        e.len() > 0,
        !is_white_space(e[0]),
        !is_white_space(e.last()),
    ensures
        trim_white(w1 + e + w2) == e,
{
    let s = w1 + e + w2;
    let wp = white_pred();
    let a = w1.len() as int;
    assert forall|i: int| 0 <= i < a implies #[trigger] wp(s[i]) by {
        assert(s[i] == w1[i]);
    }
    assert(s[a] == e[0]);
    lemma_strip_front(s, wp, a);
    let f = s.skip(a);
    assert(f =~= e + w2);
    assert forall|i: int| e.len() <= i < f.len() implies #[trigger] wp(f[i]) by {
        assert(f[i] == w2[i - e.len()]);
    }
    assert(f[e.len() - 1] == e.last());
    lemma_strip_back(f, wp, e.len() as int);
    assert(f.take(e.len() as int) =~= e);
}

proof fn lemma_unchanged_by_trim(v: Seq<char>, x: char)
    requires
        v.len() > 0 ==> v[0] != x && v.last() != x,
    ensures
        trim_char(v, x) == v,
{
    let p = char_pred(x);
    if v.len() > 0 {
        assert(v[v.len() - 1] == v.last());
    }
    lemma_strip_front(v, p, 0);
    assert(v.skip(0) =~= v);
    lemma_strip_back(v, p, v.len() as int);
    assert(v.take(v.len() as int) =~= v);
}

proof fn lemma_strip_quotes(x: char, v: Seq<char>)
    requires
        v.len() > 0 ==> v[0] != x && v.last() != x,
    ensures
        trim_char(seq![x] + v + seq![x], x) == v,
{
    let p = char_pred(x);
    let t = seq![x] + v + seq![x];
    if v.len() == 0 {
        assert(t =~= seq![x, x]);
        lemma_strip_front(t, p, 2);
        assert(t.skip(2) =~= Seq::<char>::empty());
        assert(strip_back(Seq::<char>::empty(), p) == Seq::<char>::empty());
    } else {
        assert(t[1] == v[0]);
        lemma_strip_front(t, p, 1);
        let t1 = t.skip(1);
        assert(t1 =~= v + seq![x]);
        assert(t1[v.len() - 1] == v.last());
        lemma_strip_back(t1, p, v.len() as int);
        assert(t1.take(v.len() as int) =~= v);
    }
}

proof fn lemma_unquote(q: Seq<char>, v: Seq<char>)
    requires
        q == seq!['"'] || q == seq!['\''] || q.len() == 0,
        v.len() > 0 ==> {
            &&& v[0] != '"' && v[0] != '\''
            &&& v.last() != '"' && v.last() != '\''
        },
    ensures
        trim_char(trim_char(q + v + q, '"'), '\'') == v,
{
    if q.len() == 0 {
        assert(q + v + q =~= v);
        lemma_unchanged_by_trim(v, '"');
        lemma_unchanged_by_trim(v, '\'');
    } else if q == seq!['"'] {
        lemma_strip_quotes('"', v);
        lemma_unchanged_by_trim(v, '\'');
    } else {
        let t = q + v + q;
        assert(t[0] == '\'');
        assert(t.last() == '\'');
        lemma_unchanged_by_trim(t, '"');
        lemma_strip_quotes('\'', v);
    }
}

/// A token with no `;`, no white space at its end and no quote at either end
/// is read back from an entry with white space around it and the token in
/// double quotes, in single quotes or bare.
pub proof fn law_csrf_trimmed_and_unquoted(w1: Seq<char>, q: Seq<char>, v: Seq<char>, w2: Seq<char>)
    requires
        all_white(w1),
        all_white(w2),
        q == seq!['"'] || q == seq!['\''] || q.len() == 0,
        !v.contains(';'),
        v.len() > 0 ==> {
            &&& !is_white_space(v.last())
            &&& v[0] != '"' && v[0] != '\''
            &&& v.last() != '"' && v.last() != '\''
        },
    ensures
        csrf_of(w1 + csrf_key() + q + v + q + w2) == v,
{
    let key = csrf_key();
    let e = key + q + v + q;
    let s = w1 + e + w2;
    assert(w1 + csrf_key() + q + v + q + w2 =~= s);
    assert forall|j: int| 0 <= j < s.len() implies s[j] != ';' by {
        if j < w1.len() {
            assert(s[j] == w1[j]);
        } else if j < w1.len() + e.len() {
            assert(s[j] == e[j - w1.len()]);
            let k = j - w1.len();
            if k >= 9 + q.len() && k < 9 + q.len() + v.len() {
                assert(e[k] == v[k - 9 - q.len()]);
                assert(v.contains(v[k - 9 - q.len()]));
            }
        } else {
            assert(s[j] == w2[j - w1.len() - e.len()]);
        }
    }
    lemma_first_index(s, ';', s.len() as int);
    assert(split_pieces(s, ';') =~= seq![s]);
    assert(e[0] == 'b');
    let last = e[e.len() - 1];
    if q.len() > 0 {
        assert(last == q[0]);
    } else if v.len() > 0 {
        assert(last == v.last());
    } else {
        assert(last == '=');
    }
    lemma_trim_around(w1, e, w2);
    assert forall|i: int| 0 <= i < 9 implies ascii_fold(#[trigger] e[i]) == csrf_key()[i] as u32 by {
        assert(e[i] == key[i]);
    }
    assert(is_csrf_entry(e));
    assert(e.skip(9) =~= q + v + q);
    assert(first_csrf(seq![s]) == csrf_value(e));
    lemma_unquote(q, v);
}

} // verus!
