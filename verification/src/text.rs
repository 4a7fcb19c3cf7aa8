//! Character-level text utilities with their mathematical models.

use vstd::prelude::*;

verus! {

broadcast use vstd::string::group_string_axioms;

/// The characters of `s`, in order.
pub fn chars_of(s: &str) -> (r: Vec<char>)
    ensures
        r@ == s@,
{
    let mut r: Vec<char> = Vec::new();
    for c in it: s.chars()
        invariant
            it.seq() == s@,
            r@ == it.seq().take(it.index() as int),
    {
        assert(it.seq().take(it.index() + 1) == r@.push(c));
        r.push(c);
    }
    r
}


/// Unicode `White_Space` property, the set of characters that
/// `char::is_whitespace` accepts.
pub open spec fn is_white_space(c: char) -> bool {
    let u = c as u32;
    (0x9 <= u && u <= 0xD) || u == 0x20 || u == 0x85 || u == 0xA0 || u == 0x1680
        || (0x2000 <= u && u <= 0x200A) || u == 0x2028 || u == 0x2029 || u == 0x202F
        || u == 0x205F || u == 0x3000
}

/// Whether `c` is a Unicode white-space character.
pub fn white_space(c: char) -> (r: bool)
    ensures
        r == is_white_space(c),
{
    let u = c as u32;
    (0x9 <= u && u <= 0xD) || u == 0x20 || u == 0x85 || u == 0xA0 || u == 0x1680
        || (0x2000 <= u && u <= 0x200A) || u == 0x2028 || u == 0x2029 || u == 0x202F
        || u == 0x205F || u == 0x3000
}

/// The maximal runs of non-white-space characters of `s`, in order.
pub open spec fn words(s: Seq<char>) -> Seq<Seq<char>>
    decreases s.len(),
{
    if s.len() == 0 {
        seq![]
    } else {
        let prev = words(s.drop_last());
        let c = s.last();
        if is_white_space(c) {
            prev
        } else if s.len() >= 2 && !is_white_space(s[s.len() - 2]) {
            prev.update(prev.len() - 1, prev.last().push(c))
        } else {
            prev.push(seq![c])
        }
    }
}

/// The pieces of `ws` concatenated with `sep` between neighbours.
pub open spec fn join_with(ws: Seq<Seq<char>>, sep: Seq<char>) -> Seq<char>
    decreases ws.len(),
{
    if ws.len() == 0 {
        seq![]
    } else if ws.len() == 1 {
        ws[0]
    } else {
        join_with(ws.drop_last(), sep) + sep + ws.last()
    }
}

/// The words of `s` separated by single spaces: leading and trailing white
/// space dropped, every inner run of white space collapsed to one space.
pub open spec fn collapse_white_space(s: Seq<char>) -> Seq<char> {
    join_with(words(s), seq![' '])
}

/// A text ending in a non-white-space character has at least one word,
/// and its last word ends with that character.
pub proof fn lemma_words_last(s: Seq<char>)
    requires
        s.len() > 0,
        !is_white_space(s.last()),
    ensures
        words(s).len() > 0,
        words(s).last().len() > 0,
        words(s).last().last() == s.last(),
    decreases s.len(),
{
    if s.len() >= 2 && !is_white_space(s[s.len() - 2]) {
        let t = s.drop_last();
        assert(t.last() == s[s.len() - 2]);
        lemma_words_last(t);
    }
}

/// Extending the last piece by one character extends the joined text by it.
pub proof fn lemma_join_extend_last(ws: Seq<Seq<char>>, sep: Seq<char>, c: char)
    requires
        ws.len() > 0,
    ensures
        join_with(ws.update(ws.len() - 1, ws.last().push(c)), sep) == join_with(ws, sep).push(c),
{
    let ws2 = ws.update(ws.len() - 1, ws.last().push(c));
    if ws.len() > 1 {
        assert(ws2.drop_last() == ws.drop_last());
        assert(join_with(ws2, sep) == join_with(ws2.drop_last(), sep) + sep + ws2.last());
    }
}

/// Appending a piece appends the separator (unless first) and the piece.
pub proof fn lemma_join_push(ws: Seq<Seq<char>>, sep: Seq<char>, w: Seq<char>)
    ensures
        join_with(ws.push(w), sep) == if ws.len() == 0 {
            w
        } else {
            join_with(ws, sep) + sep + w
        },
{
    assert(ws.push(w).drop_last() == ws);
}

/// The words of `s` joined by single spaces.
pub fn collapse_spaces(s: &Vec<char>) -> (r: Vec<char>)
    ensures
        r@ == collapse_white_space(s@),
{
    let mut out: Vec<char> = Vec::new();
    let mut have_word = false;
    let n = s.len();
    let mut i: usize = 0;
    while i < n
        invariant
            n == s@.len(),
            i <= n,
            out@ == join_with(words(s@.take(i as int)), seq![' ']),
            have_word == (words(s@.take(i as int)).len() > 0),
        decreases n - i,
    {
        let c = s[i];
        let ghost pre = s@.take(i as int);
        let ghost cur = s@.take(i + 1);
        assert(cur.drop_last() == pre);
        assert(cur.last() == c);
        if white_space(c) {
        } else if i > 0 && !white_space(s[i - 1]) {
            proof {
                assert(pre.last() == s@[i - 1]);
                assert(cur[cur.len() - 2] == s@[i - 1]);
                lemma_words_last(pre);
                lemma_join_extend_last(words(pre), seq![' '], c);
            }
            out.push(c);
        } else {
            proof {
                if i > 0 {
                    assert(cur[cur.len() - 2] == s@[i - 1]);
                }
                lemma_join_push(words(pre), seq![' '], seq![c]);
            }
            if have_word {
                out.push(' ');
            }
            out.push(c);
            have_word = true;
        }
        i = i + 1;
    }
    assert(s@.take(n as int) == s@);
    out
}


/// Whether `c` may appear inside a word of a cleaned title: it is not white
/// space, not an underscore and not a hyphen.
pub open spec fn is_title_word_char(c: char) -> bool {
    !is_white_space(c) && c != '_' && c != '-'
}

/// Whether `t` is made of words of title characters separated by single
/// spaces, with no space at either end.
pub open spec fn is_spaced_words(t: Seq<char>) -> bool {
    &&& forall|k: int| 0 <= k < t.len() ==> (#[trigger] t[k] == ' ' || is_title_word_char(t[k]))
    &&& t.len() > 0 ==> t[0] != ' ' && t.last() != ' '
    &&& forall|k: int| 0 <= k < t.len() - 1 ==> !(#[trigger] t[k] == ' ' && t[k + 1] == ' ')
}

/// When no non-white-space character of `s` is an underscore or a hyphen,
/// every word of `s` is non-empty and made of title characters.
pub proof fn lemma_words_title_chars(s: Seq<char>)
    requires
        forall|k: int| 0 <= k < s.len() && !is_white_space(#[trigger] s[k]) ==> s[k] != '_' && s[k] != '-',
    ensures
        forall|i: int| 0 <= i < words(s).len() ==> (#[trigger] words(s)[i]).len() > 0,
        forall|i: int, k: int|
            0 <= i < words(s).len() && 0 <= k < words(s)[i].len() ==> is_title_word_char(
                #[trigger] words(s)[i][k],
            ),
    decreases s.len(),
{
    if s.len() > 0 {
        let t = s.drop_last();
        assert forall|k: int| 0 <= k < t.len() && !is_white_space(#[trigger] t[k]) implies t[k] != '_' && t[k] != '-' by {
            assert(t[k] == s[k]);
        }
        lemma_words_title_chars(t);
        let c = s.last();
        assert(c == s[s.len() - 1]);
        if !is_white_space(c) && s.len() >= 2 && !is_white_space(s[s.len() - 2]) {
            assert(t.last() == s[s.len() - 2]);
            lemma_words_last(t);
        }
    }
}

/// Single-space joins of non-empty words of title characters are spaced words.
pub proof fn lemma_join_spaced(ws: Seq<Seq<char>>)
    requires
        forall|i: int| 0 <= i < ws.len() ==> (#[trigger] ws[i]).len() > 0,
        forall|i: int, k: int| 0 <= i < ws.len() && 0 <= k < ws[i].len() ==> is_title_word_char(#[trigger] ws[i][k]),
    ensures
        is_spaced_words(join_with(ws, seq![' '])),
        ws.len() > 0 ==> join_with(ws, seq![' ']).len() > 0,
    decreases ws.len(),
{
    if ws.len() == 1 {
        assert(join_with(ws, seq![' ']) == ws[0]);
        assert forall|k: int| 0 <= k < ws[0].len() implies is_title_word_char(#[trigger] ws[0][k]) by {}
        assert(is_title_word_char(ws[0][0]));
        assert(is_title_word_char(ws[0][ws[0].len() - 1]));
    } else if ws.len() > 1 {
        let init = ws.drop_last();
        lemma_join_spaced(init);
        let a = join_with(init, seq![' ']);
        let w = ws.last();
        let t = a + seq![' '] + w;
        assert(join_with(ws, seq![' ']) == t);
        assert(w == ws[ws.len() - 1]);
        assert(is_title_word_char(w[0]));
        assert(is_title_word_char(w[w.len() - 1]));
        assert forall|k: int| 0 <= k < t.len() implies (#[trigger] t[k] == ' ' || is_title_word_char(t[k])) by {
            if k < a.len() {
                assert(t[k] == a[k]);
            } else if k > a.len() {
                assert(t[k] == w[k - a.len() - 1]);
            }
        }
        assert forall|k: int| 0 <= k < t.len() - 1 implies !(#[trigger] t[k] == ' ' && t[k + 1] == ' ') by {
            if k < a.len() - 1 {
                assert(t[k] == a[k] && t[k + 1] == a[k + 1]);
            } else if k == a.len() - 1 {
                assert(t[k] == a.last());
            } else if k == a.len() {
                assert(t[k + 1] == w[0]);
            } else {
                assert(t[k] == w[k - a.len() - 1]);
            }
        }
        assert(t[0] == a[0]);
        assert(t.last() == w.last());
    }
}

/// Collapsing the white space of a text whose non-white-space characters are
/// neither underscores nor hyphens yields spaced words.
pub proof fn lemma_collapse_spaced(s: Seq<char>)
    requires
        forall|k: int| 0 <= k < s.len() && !is_white_space(#[trigger] s[k]) ==> s[k] != '_' && s[k] != '-',
    ensures
        is_spaced_words(collapse_white_space(s)),
{
    lemma_words_title_chars(s);
    lemma_join_spaced(words(s));
}

/// Every word of any text is non-empty and holds no white space.
pub proof fn lemma_words_non_white(s: Seq<char>)
    ensures
        forall|i: int| 0 <= i < words(s).len() ==> (#[trigger] words(s)[i]).len() > 0,
        forall|i: int, k: int|
            0 <= i < words(s).len() && 0 <= k < words(s)[i].len() ==> !is_white_space(
                #[trigger] words(s)[i][k],
            ),
    decreases s.len(),
{
    if s.len() > 0 {
        let t = s.drop_last();
        lemma_words_non_white(t);
        let c = s.last();
        if !is_white_space(c) && s.len() >= 2 && !is_white_space(s[s.len() - 2]) {
            assert(t.last() == s[s.len() - 2]);
            lemma_words_last(t);
        }
    }
}

/// A non-empty run of non-white-space characters is a single word.
pub proof fn lemma_words_single(w: Seq<char>)
    requires
        w.len() > 0,
        forall|k: int| 0 <= k < w.len() ==> !is_white_space(#[trigger] w[k]),
    ensures
        words(w) == seq![w],
    decreases w.len(),
{
    let c = w.last();
    assert(c == w[w.len() - 1]);
    assert(!is_white_space(c));
    if w.len() == 1 {
        assert(w.drop_last() == Seq::<char>::empty());
        assert(words(w.drop_last()) == Seq::<Seq<char>>::empty());
        assert(words(w) == words(w.drop_last()).push(seq![c]));
        assert(seq![c] == w);
    } else {
        let t = w.drop_last();
        assert(t.last() == w[w.len() - 2]);
        assert(!is_white_space(w[w.len() - 2]));
        assert forall|k: int| 0 <= k < t.len() implies !is_white_space(#[trigger] t[k]) by {
            assert(t[k] == w[k]);
        }
        lemma_words_single(t);
        assert(words(w) == words(t).update(0, t.push(c)));
        assert(t.push(c) == w);
        assert(seq![t].update(0, w) == seq![w]);
    }
}

/// Appending a space and a non-empty run of non-white-space characters to a
/// text appends that run as one more word.
pub proof fn lemma_words_append(x: Seq<char>, w: Seq<char>)
    requires
        w.len() > 0,
        forall|k: int| 0 <= k < w.len() ==> !is_white_space(#[trigger] w[k]),
    ensures
        words(x + seq![' '] + w) == words(x).push(w),
    decreases w.len(),
{
    let s = x + seq![' '] + w;
    assert(is_white_space(' '));
    let c = w.last();
    assert(c == w[w.len() - 1]);
    assert(!is_white_space(c));
    assert(s.last() == c);
    if w.len() == 1 {
        let xs = x + seq![' '];
        assert(s.drop_last() == xs);
        assert(xs.drop_last() == x);
        assert(xs.last() == ' ');
        assert(words(xs) == words(x));
        assert(s[s.len() - 2] == ' ');
        assert(words(s) == words(s.drop_last()).push(seq![c]));
        assert(seq![c] == w);
    } else {
        let w1 = w.drop_last();
        assert(s.drop_last() == x + seq![' '] + w1);
        assert(s[s.len() - 2] == w[w.len() - 2]);
        assert(!is_white_space(w[w.len() - 2]));
        assert forall|k: int| 0 <= k < w1.len() implies !is_white_space(#[trigger] w1[k]) by {
            assert(w1[k] == w[k]);
        }
        lemma_words_append(x, w1);
        let prev = words(x).push(w1);
        assert(words(s) == prev.update(prev.len() - 1, prev.last().push(c)));
        assert(w1.push(c) == w);
        assert(prev.update(prev.len() - 1, w) == words(x).push(w));
    }
}

/// Joining non-empty words without white space by single spaces and
/// splitting the result into words gives back those words.
pub proof fn lemma_words_of_join(ws: Seq<Seq<char>>)
    requires
        forall|i: int| 0 <= i < ws.len() ==> (#[trigger] ws[i]).len() > 0,
        forall|i: int, k: int| 0 <= i < ws.len() && 0 <= k < ws[i].len() ==> !is_white_space(#[trigger] ws[i][k]),
    ensures
        words(join_with(ws, seq![' '])) == ws,
    decreases ws.len(),
{
    if ws.len() == 0 {
        assert(words(Seq::<char>::empty()) == Seq::<Seq<char>>::empty());
        assert(ws == Seq::<Seq<char>>::empty());
    } else if ws.len() == 1 {
        assert forall|k: int| 0 <= k < ws[0].len() implies !is_white_space(#[trigger] ws[0][k]) by {}
        lemma_words_single(ws[0]);
        assert(ws == seq![ws[0]]);
    } else {
        let init = ws.drop_last();
        lemma_words_of_join(init);
        let w = ws.last();
        assert(w == ws[ws.len() - 1]);
        assert forall|k: int| 0 <= k < w.len() implies !is_white_space(#[trigger] w[k]) by {}
        lemma_words_append(join_with(init, seq![' ']), w);
        assert(init.push(w) == ws);
    }
}

/// Collapsing white space keeps the words of a text.
pub proof fn lemma_collapse_keeps_words(s: Seq<char>)
    ensures
        words(collapse_white_space(s)) == words(s),
{
    lemma_words_non_white(s);
    lemma_words_of_join(words(s));
}

/// Collapsing white space twice is collapsing it once.
pub proof fn lemma_collapse_idempotent(s: Seq<char>)
    ensures
        collapse_white_space(collapse_white_space(s)) == collapse_white_space(s),
{
    lemma_collapse_keeps_words(s);
}

/// Whether every character of `s` is a space or not white space, `s` does
/// not start with a space, and no two spaces are adjacent.
pub open spec fn is_loosely_spaced(s: Seq<char>) -> bool {
    &&& forall|k: int| 0 <= k < s.len() ==> (#[trigger] s[k] == ' ' || !is_white_space(s[k]))
    &&& s.len() > 0 ==> s[0] != ' '
    &&& forall|k: int| 0 <= k < s.len() - 1 ==> !(#[trigger] s[k] == ' ' && s[k + 1] == ' ')
}

proof fn lemma_join_words_of_loosely_spaced(s: Seq<char>)
    requires
        is_loosely_spaced(s),
    ensures
        join_with(words(s), seq![' ']) == if s.len() > 0 && s.last() == ' ' {
            s.drop_last()
        } else {
            s
        },
    decreases s.len(),
{
    if s.len() > 0 {
        let t = s.drop_last();
        assert(is_loosely_spaced(t)) by {
            assert forall|k: int| 0 <= k < t.len() implies (#[trigger] t[k] == ' ' || !is_white_space(t[k])) by {
                assert(t[k] == s[k]);
            }
            assert forall|k: int| 0 <= k < t.len() - 1 implies !(#[trigger] t[k] == ' ' && t[k + 1] == ' ') by {
                assert(t[k] == s[k] && t[k + 1] == s[k + 1]);
            }
            if t.len() > 0 {
                assert(t[0] == s[0]);
            }
        }
        lemma_join_words_of_loosely_spaced(t);
        let c = s.last();
        assert(c == s[s.len() - 1]);
        assert(is_white_space(' '));
        if c == ' ' {
            if t.len() > 0 {
                assert(t.last() == s[s.len() - 2]);
            }
        } else {
            assert(!is_white_space(c));
            if t.len() == 0 {
                assert(words(t) == Seq::<Seq<char>>::empty());
                assert(seq![c] == s);
            } else if t.last() != ' ' {
                assert(t.last() == s[s.len() - 2]);
                assert(!is_white_space(t.last()));
                lemma_words_last(t);
                lemma_join_extend_last(words(t), seq![' '], c);
                assert(t.push(c) == s);
            } else {
                assert(t.last() == s[s.len() - 2]);
                assert(t.len() >= 2) by {
                    if t.len() == 1 {
                        assert(t[0] == s[0]);
                    }
                }
                let u = t.drop_last();
                assert(u.last() == s[s.len() - 3]);
                assert(u.last() != ' ');
                assert(!is_white_space(u.last()));
                assert(words(t) == words(u));
                lemma_words_last(u);
                lemma_join_push(words(t), seq![' '], seq![c]);
                assert(u + seq![' '] + seq![c] == s);
            }
        }
    }
}

/// Text that is already words separated by single spaces, with no white
/// space at either end, is left as it is by collapsing white space.
pub proof fn lemma_collapse_fixes_spaced(s: Seq<char>)
    requires
        is_loosely_spaced(s),
        s.len() > 0 ==> s.last() != ' ',
    ensures
        collapse_white_space(s) == s,
{
    lemma_join_words_of_loosely_spaced(s);
}

/// `remove_all` leaves a text alone when the pattern does not occur in it.
pub proof fn lemma_remove_all_absent(s: Seq<char>, pat: Seq<char>)
    requires
        !occurs_in(s, pat),
    ensures
        remove_all(s, pat) == s,
    decreases s.len(),
{
    if pat.len() > 0 && s.len() >= pat.len() {
        if s.take(pat.len() as int) == pat {
            assert(s.subrange(0int, 0int + pat.len()) == pat);
            assert(occurs_in(s, pat));
        } else {
            let t = s.drop_first();
            assert(!occurs_in(t, pat)) by {
                if occurs_in(t, pat) {
                    let i = choose|i: int|
                        0 <= i && i + pat.len() <= t.len() && #[trigger] t.subrange(i, i + pat.len()) == pat;
                    assert(s.subrange(i + 1, (i + 1) + pat.len()) == t.subrange(i, i + pat.len()));
                    assert(occurs_in(s, pat));
                }
            }
            lemma_remove_all_absent(t, pat);
            assert(remove_all(s, pat) == seq![s[0]] + remove_all(t, pat));
            assert(seq![s[0]] + t == s);
        }
    }
}

/// Replacing a character that does not occur leaves a text alone.
pub proof fn lemma_replace_absent(s: Seq<char>, from: char, to: char)
    requires
        forall|k: int| 0 <= k < s.len() ==> #[trigger] s[k] != from,
    ensures
        replace_char(s, from, to) == s,
{
    assert(replace_char(s, from, to) =~= s);
}

/// Appends the characters of `w` to `out`.
pub fn push_all(out: &mut Vec<char>, w: &Vec<char>)
    ensures
        final(out)@ == old(out)@ + w@,
{
    let n = w.len();
    let mut i: usize = 0;
    while i < n
        invariant
            n == w@.len(),
            i <= n,
            out@ == old(out)@ + w@.take(i as int),
        decreases n - i,
    {
        assert(w@.take(i + 1) == w@.take(i as int).push(w@[i as int]));
        out.push(w[i]);
        i = i + 1;
    }
    assert(w@.take(n as int) == w@);
}

/// The words of `s`, in order.
pub fn split_words(s: &Vec<char>) -> (r: Vec<Vec<char>>)
    ensures
        r@.len() == words(s@).len(),
        forall|i: int| 0 <= i < r@.len() ==> (#[trigger] r@[i])@ == words(s@)[i],
{
    let mut out: Vec<Vec<char>> = Vec::new();
    let n = s.len();
    let mut i: usize = 0;
    while i < n
        invariant
            n == s@.len(),
            i <= n,
            out@.len() == words(s@.take(i as int)).len(),
            forall|k: int| 0 <= k < out@.len() ==> (#[trigger] out@[k])@ == words(s@.take(i as int))[k],
        decreases n - i,
    {
        let c = s[i];
        let ghost pre = s@.take(i as int);
        let ghost cur = s@.take(i + 1);
        assert(cur.drop_last() == pre);
        assert(cur.last() == c);
        if white_space(c) {
        } else if i > 0 && !white_space(s[i - 1]) {
            proof {
                assert(pre.last() == s@[i - 1]);
                assert(cur[cur.len() - 2] == s@[i - 1]);
                lemma_words_last(pre);
            }
            let mut w = out.pop().unwrap();
            w.push(c);
            out.push(w);
        } else {
            proof {
                if i > 0 {
                    assert(cur[cur.len() - 2] == s@[i - 1]);
                }
            }
            let mut w: Vec<char> = Vec::new();
            w.push(c);
            out.push(w);
        }
        i = i + 1;
    }
    assert(s@.take(n as int) == s@);
    out
}

/// `s` with every occurrence of `pat` removed, scanning left to right and
/// taking occurrences without overlap (what `str::replace(pat, "")` gives).
pub open spec fn remove_all(s: Seq<char>, pat: Seq<char>) -> Seq<char>
    decreases s.len(),
{
    if pat.len() == 0 || s.len() < pat.len() {
        s
    } else if s.take(pat.len() as int) == pat {
        remove_all(s.skip(pat.len() as int), pat)
    } else {
        seq![s[0]] + remove_all(s.drop_first(), pat)
    }
}

/// `s` with every `from` replaced by `to`.
pub open spec fn replace_char(s: Seq<char>, from: char, to: char) -> Seq<char> {
    s.map_values(|c: char| if c == from { to } else { c })
}

/// Whether `needle` occurs in `hay` as a contiguous piece.
pub open spec fn occurs_in(hay: Seq<char>, needle: Seq<char>) -> bool {
    exists|i: int|
        0 <= i && i + needle.len() <= hay.len() && #[trigger] hay.subrange(i, i + needle.len())
            == needle
}

/// Whether `pat` occurs in `s` starting at position `at`.
pub fn matches_at(s: &Vec<char>, at: usize, pat: &Vec<char>) -> (r: bool)
    requires
        at + pat@.len() <= s@.len(),
    ensures
        r == (s@.subrange(at as int, at + pat@.len()) == pat@),
{
    let m = pat.len();
    let mut j: usize = 0;
    while j < m
        invariant
            m == pat@.len(),
            at + m <= s@.len(),
            s@.len() == s.len(),
            j <= m,
            s@.subrange(at as int, at + j) == pat@.take(j as int),
        decreases m - j,
    {
        if s[at + j] != pat[j] {
            assert(s@.subrange(at as int, at + m)[j as int] != pat@[j as int]);
            return false;
        }
        assert(s@.subrange(at as int, at + j + 1) == pat@.take(j + 1));
        j = j + 1;
    }
    assert(pat@.take(m as int) == pat@);
    true
}

/// Whether `needle` occurs in `hay`.
pub fn occurs(hay: &Vec<char>, needle: &Vec<char>) -> (r: bool)
    ensures
        r == occurs_in(hay@, needle@),
{
    let n = hay.len();
    let m = needle.len();
    if m > n {
        return false;
    }
    let mut i: usize = 0;
    while i <= n - m
        invariant
            n == hay@.len(),
            m == needle@.len(),
            m <= n,
            i <= n - m + 1,
            forall|k: int| 0 <= k < i ==> #[trigger] hay@.subrange(k, k + m) != needle@,
        decreases n - m + 1 - i,
    {
        if matches_at(hay, i, needle) {
            return true;
        }
        if i == n - m {
            return false;
        }
        i = i + 1;
    }
    false
}

/// `s` with every occurrence of `pat` removed, left to right without overlap.
pub fn remove_occurrences(s: &Vec<char>, pat: &Vec<char>) -> (r: Vec<char>)
    ensures
        r@ == remove_all(s@, pat@),
{
    let n = s.len();
    let m = pat.len();
    let mut out: Vec<char> = Vec::new();
    let mut i: usize = 0;
    assert(s@.skip(0) == s@);
    while i < n
        invariant
            n == s@.len(),
            m == pat@.len(),
            i <= n,
            out@ + remove_all(s@.skip(i as int), pat@) == remove_all(s@, pat@),
        decreases n - i,
    {
        let ghost rest = s@.skip(i as int);
        if m > 0 && m <= n - i && matches_at(s, i, pat) {
            assert(rest.take(m as int) == s@.subrange(i as int, i + m));
            assert(rest.skip(m as int) == s@.skip(i + m));
            i = i + m;
        } else {
            proof {
                assert(rest[0] == s@[i as int]);
                assert(rest.drop_first() == s@.skip(i + 1));
                if m == 0 || rest.len() < m {
                    assert(rest == seq![rest[0]] + rest.drop_first());
                } else {
                    assert(rest.take(m as int) != pat@) by {
                        assert(rest.take(m as int) == s@.subrange(i as int, i + m));
                    }
                }
                assert(remove_all(rest, pat@) == seq![s@[i as int]] + remove_all(s@.skip(i + 1), pat@));
                assert(out@.push(s@[i as int]) + remove_all(s@.skip(i + 1), pat@)
                    == out@ + remove_all(rest, pat@));
            }
            out.push(s[i]);
            i = i + 1;
        }
    }
    assert(s@.skip(n as int) == Seq::<char>::empty());
    assert(out@ + Seq::<char>::empty() == out@);
    out
}

/// `s` with every `from` replaced by `to`.
pub fn replace_chars(s: &Vec<char>, from: char, to: char) -> (r: Vec<char>)
    ensures
        r@ == replace_char(s@, from, to),
{
    let mut out: Vec<char> = Vec::new();
    let n = s.len();
    let mut i: usize = 0;
    while i < n
        invariant
            n == s@.len(),
            i <= n,
            out@ == replace_char(s@.take(i as int), from, to),
        decreases n - i,
    {
        let c = s[i];
        let d = if c == from { to } else { c };
        assert(replace_char(s@.take(i + 1), from, to) == replace_char(s@.take(i as int), from, to).push(d));
        out.push(d);
        i = i + 1;
    }
    assert(s@.take(n as int) == s@);
    out
}

/// `c` lowered if it is an ASCII capital letter, else `c` itself.
pub open spec fn ascii_lower(c: char) -> char {
    if 'A' <= c && c <= 'Z' {
        ((c as u32) + 32) as char
    } else {
        c
    }
}

/// `s` with its ASCII capital letters lowered.
pub open spec fn ascii_lowercase(s: Seq<char>) -> Seq<char> {
    s.map_values(|c: char| ascii_lower(c))
}

/// `s` with its ASCII capital letters lowered.
pub fn lowercase_ascii(s: &Vec<char>) -> (r: Vec<char>)
    ensures
        r@ == ascii_lowercase(s@),
{
    let mut out: Vec<char> = Vec::new();
    let n = s.len();
    let mut i: usize = 0;
    while i < n
        invariant
            n == s@.len(),
            i <= n,
            out@ == ascii_lowercase(s@.take(i as int)),
        decreases n - i,
    {
        let c = s[i];
        let d = if 'A' <= c && c <= 'Z' { ((c as u8) + 32) as char } else { c };
        assert(d == ascii_lower(c));
        assert(ascii_lowercase(s@.take(i + 1)) == ascii_lowercase(s@.take(i as int)).push(d));
        out.push(d);
        i = i + 1;
    }
    assert(s@.take(n as int) == s@);
    out
}

/// The decimal digit character for `d`.
pub open spec fn digit_char(d: nat) -> char {
    if d == 0 { '0' } else if d == 1 { '1' } else if d == 2 { '2' } else if d == 3 { '3' }
    else if d == 4 { '4' } else if d == 5 { '5' } else if d == 6 { '6' } else if d == 7 { '7' }
    else if d == 8 { '8' } else { '9' }
}

/// The decimal notation of `n`, without sign or leading zeros.
pub open spec fn decimal(n: nat) -> Seq<char>
    decreases n,
{
    if n < 10 {
        seq![digit_char(n)]
    } else {
        decimal(n / 10).push(digit_char(n % 10))
    }
}

fn digit(d: usize) -> (c: char)
    requires
        d < 10,
    ensures
        c == digit_char(d as nat),
{
    if d == 0 { '0' } else if d == 1 { '1' } else if d == 2 { '2' } else if d == 3 { '3' }
    else if d == 4 { '4' } else if d == 5 { '5' } else if d == 6 { '6' } else if d == 7 { '7' }
    else if d == 8 { '8' } else { '9' }
}

/// The decimal notation of `n`.
pub fn decimal_chars(n: usize) -> (r: Vec<char>)
    ensures
        r@ == decimal(n as nat),
    decreases n,
{
    if n < 10 {
        let mut v: Vec<char> = Vec::new();
        v.push(digit(n));
        v
    } else {
        let mut v = decimal_chars(n / 10);
        v.push(digit(n % 10));
        v
    }
}

/// The string made of `chars`, in order (`String::from_iter`).
#[verifier::external_body]
pub(crate) fn string_from_chars(chars: &Vec<char>) -> (s: String)
    ensures
        s@ == chars@,
{
    chars.iter().collect()
}

/// Whether the two texts are equal.
pub fn same_text(a: &str, b: &str) -> (r: bool)
    ensures
        r == (a@ == b@),
{
    a.to_owned() == b.to_owned()
}

} // verus!
