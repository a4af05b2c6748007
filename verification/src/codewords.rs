//! Splitting typed key shard codewords into words.

use vstd::prelude::*;

use crate::text::string_views;

verus! {

/// A Unicode white space character, as `char::is_whitespace` decides.
pub open spec fn is_whitespace(c: char) -> bool {
    ||| '\u{9}' <= c <= '\u{d}'
    ||| c == ' '
    ||| c == '\u{85}'
    ||| c == '\u{a0}'
    ||| c == '\u{1680}'
    ||| '\u{2000}' <= c <= '\u{200a}'
    ||| c == '\u{2028}'
    ||| c == '\u{2029}'
    ||| c == '\u{202f}'
    ||| c == '\u{205f}'
    ||| c == '\u{3000}'
}

/// How many characters `s` starts with that are not white space.
pub open spec fn word_len(s: Seq<char>) -> nat
    decreases s.len(),
{
    if s.len() == 0 || is_whitespace(s[0]) {
        0
    } else {
        1 + word_len(s.drop_first())
    }
}

/// The words of `s`: its maximal runs of characters that are not white
/// space, in order, as `s.split_whitespace()` yields them.
pub open spec fn words(s: Seq<char>) -> Seq<Seq<char>>
    decreases s.len(),
{
    if s.len() == 0 {
        seq![]
    } else if is_whitespace(s[0]) {
        words(s.drop_first())
    } else {
        proof {
            lemma_word_len_no_space(s);
        }
        let n = word_len(s);
        seq![s.take(n as int)] + words(s.skip(n as int))
    }
}

proof fn lemma_word_len(s: Seq<char>, m: int)
    requires
        0 <= m <= s.len(),
        forall|k: int| 0 <= k < m ==> !is_whitespace(#[trigger] s[k]),
        m == s.len() || is_whitespace(s[m]),
    ensures
        word_len(s) == m,
    decreases m,
{
    if m > 0 {
        lemma_word_len(s.drop_first(), m - 1);
    }
}

/// The first word of `s` is a prefix of `s` without white space.
pub proof fn lemma_word_len_no_space(s: Seq<char>)
    ensures
        word_len(s) <= s.len(),
        forall|k: int| 0 <= k < word_len(s) ==> !is_whitespace(#[trigger] s[k]),
        word_len(s) < s.len() ==> is_whitespace(s[word_len(s) as int]),
    decreases s.len(),
{
    if s.len() > 0 && !is_whitespace(s[0]) {
        let t = s.drop_first();
        lemma_word_len_no_space(t);
        if word_len(s) < s.len() {
            assert(s[word_len(s) as int] == t[word_len(t) as int]);
        }
        assert forall|k: int| 0 <= k < word_len(s) implies !is_whitespace(#[trigger] s[k]) by {
            if k > 0 {
                assert(s[k] == t[k - 1]);
            }
        }
    }
}

/// The ASCII characters that are white space are exactly the space, tab,
/// line feed, vertical tab, form feed and carriage return: no ASCII letter,
/// digit or punctuation mark separates codewords.
pub proof fn lemma_ascii_whitespace(c: char)
    requires
        (c as int) < 128,
    ensures
        is_whitespace(c) <==> (c == ' ' || c == '\t' || c == '\n' || c == '\u{b}' || c == '\u{c}' || c == '\r'),
        ('!' <= c && c <= '~') ==> !is_whitespace(c),
{
}

/// A run of characters without white space is a single word, and text
/// with no characters has no words.
pub proof fn lemma_words_of_one_word(w: Seq<char>)
    requires
        forall|k: int| 0 <= k < w.len() ==> !is_whitespace(#[trigger] w[k]),
    ensures
        w.len() > 0 ==> words(w) == seq![w],
        w.len() == 0 ==> words(w) == Seq::<Seq<char>>::empty(),
{
    if w.len() > 0 {
        lemma_word_len(w, w.len() as int);
        assert(w.take(w.len() as int) =~= w);
        assert(w.skip(w.len() as int) =~= Seq::<char>::empty());
        assert(words(w.skip(w.len() as int)) == Seq::<Seq<char>>::empty());
        assert(seq![w] + Seq::<Seq<char>>::empty() =~= seq![w]);
    }
}

/// A white space character separates: the words of `a`, a white space
/// character, then `b` are the words of `a` followed by the words of `b`.
pub proof fn lemma_words_split_at_space(a: Seq<char>, c: char, b: Seq<char>)
    requires
        is_whitespace(c),
    ensures
        words(a + seq![c] + b) == words(a) + words(b),
    decreases a.len(),
{
    let t = a + seq![c] + b;
    if a.len() == 0 {
        assert(t.drop_first() =~= b);
        assert(words(a) == Seq::<Seq<char>>::empty());
        assert(Seq::<Seq<char>>::empty() + words(b) =~= words(b));
    } else if is_whitespace(a[0]) {
        assert(t[0] == a[0]);
        assert(t.drop_first() =~= a.drop_first() + seq![c] + b);
        lemma_words_split_at_space(a.drop_first(), c, b);
    } else {
        let m = word_len(a) as int;
        lemma_word_len_no_space(a);
        assert forall|k: int| 0 <= k < m implies !is_whitespace(#[trigger] t[k]) by {
            assert(t[k] == a[k]);
        }
        if m < a.len() {
            assert(t[m] == a[m]);
        } else {
            assert(t[m] == c);
        }
        lemma_word_len(t, m);
        assert(t[0] == a[0]);
        assert(t.take(m) =~= a.take(m));
        assert(t.skip(m) =~= a.skip(m) + seq![c] + b);
        lemma_words_split_at_space(a.skip(m), c, b);
        assert(words(t) == seq![a.take(m)] + words(t.skip(m)));
        assert(words(a) == seq![a.take(m)] + words(a.skip(m)));
        assert(seq![a.take(m)] + (words(a.skip(m)) + words(b))
            =~= (seq![a.take(m)] + words(a.skip(m))) + words(b));
    }
}

/// The words of a list, written one after another.
pub open spec fn concat_words(ws: Seq<Seq<char>>) -> Seq<char>
    decreases ws.len(),
{
    if ws.len() == 0 {
        Seq::<char>::empty()
    } else {
        ws[0] + concat_words(ws.drop_first())
    }
}

/// The characters of `s` that are not white space, in order.
pub open spec fn without_whitespace(s: Seq<char>) -> Seq<char> {
    s.filter(not_whitespace())
}

/// The test that keeps a character that is not white space.
pub open spec fn not_whitespace() -> spec_fn(char) -> bool {
    |c: char| !is_whitespace(c)
}

proof fn lemma_without_whitespace_of_space(c: char)
    requires
        is_whitespace(c),
    ensures
        without_whitespace(seq![c]) == Seq::<char>::empty(),
{
    reveal(Seq::filter);
    let e = Seq::<char>::empty();
    assert(e.filter(not_whitespace()) == e);
    assert(seq![c].drop_last() =~= e);
    assert(seq![c].last() == c);
    assert(!not_whitespace()(c));
    assert(seq![c].filter(not_whitespace()) == seq![c].drop_last().filter(not_whitespace()));
}

proof fn lemma_without_whitespace_keeps(w: Seq<char>)
    requires
        forall|k: int| 0 <= k < w.len() ==> !is_whitespace(#[trigger] w[k]),
    ensures
        without_whitespace(w) == w,
    decreases w.len(),
{
    reveal(Seq::filter);
    if w.len() > 0 {
        let i = w.drop_last();
        assert forall|k: int| 0 <= k < i.len() implies !is_whitespace(#[trigger] i[k]) by {
            assert(i[k] == w[k]);
        }
        lemma_without_whitespace_keeps(i);
        assert(!is_whitespace(w[w.len() - 1]));
        assert(not_whitespace()(w.last()));
        assert(i.push(w.last()) =~= w);
    }
}

/// Nothing but white space is lost in splitting: the words, written one
/// after another, are `s` with its white space characters taken out.
pub proof fn lemma_words_keep_all_but_whitespace(s: Seq<char>)
    ensures
        concat_words(words(s)) == without_whitespace(s),
    decreases s.len(),
{
    let pred = not_whitespace();
    if s.len() == 0 {
        reveal(Seq::filter);
        assert(words(s) =~= Seq::<Seq<char>>::empty());
    } else if is_whitespace(s[0]) {
        let rest = s.drop_first();
        lemma_words_keep_all_but_whitespace(rest);
        assert(seq![s[0]] + rest =~= s);
        Seq::filter_distributes_over_add(seq![s[0]], rest, pred);
        lemma_without_whitespace_of_space(s[0]);
        assert(Seq::<char>::empty() + rest.filter(pred) =~= rest.filter(pred));
    } else {
        let n = word_len(s) as int;
        lemma_word_len_no_space(s);
        let w = s.take(n);
        let rest = s.skip(n);
        assert forall|k: int| 0 <= k < w.len() implies !is_whitespace(#[trigger] w[k]) by {
            assert(w[k] == s[k]);
        }
        lemma_without_whitespace_keeps(w);
        lemma_words_keep_all_but_whitespace(rest);
        assert(w + rest =~= s);
        Seq::filter_distributes_over_add(w, rest, pred);
        let ws = words(s);
        assert(ws == seq![w] + words(rest));
        assert(ws.drop_first() =~= words(rest));
        assert(ws[0] == w);
    }
}

/// Every codeword is a non-empty run of characters none of which is white
/// space.
pub proof fn lemma_words_are_nonempty_and_unspaced(s: Seq<char>)
    ensures
        forall|i: int| 0 <= i < words(s).len() ==> (#[trigger] words(s)[i]).len() > 0,
        forall|i: int, k: int| 0 <= i < words(s).len() && 0 <= k < words(s)[i].len()
            ==> !is_whitespace(#[trigger] words(s)[i][k]),
    decreases s.len(),
{
    if s.len() == 0 {
    } else if is_whitespace(s[0]) {
        lemma_words_are_nonempty_and_unspaced(s.drop_first());
        assert(words(s) == words(s.drop_first()));
    } else {
        let n = word_len(s);
        lemma_word_len_no_space(s);
        assert(0 < n <= s.len());
        let rest = s.skip(n as int);
        lemma_words_are_nonempty_and_unspaced(rest);
        let ws = words(s);
        assert(ws == seq![s.take(n as int)] + words(rest));
        assert forall|i: int| 0 <= i < ws.len() implies (#[trigger] ws[i]).len() > 0 by {
            if i > 0 {
                assert(ws[i] == words(rest)[i - 1]);
            } else {
                assert(ws[0] == s.take(n as int));
            }
        }
        assert forall|i: int, k: int| 0 <= i < ws.len() && 0 <= k < ws[i].len()
            implies !is_whitespace(#[trigger] ws[i][k]) by {
            if i > 0 {
                assert(ws[i] == words(rest)[i - 1]);
            } else {
                assert(ws[0] == s.take(n as int));
                assert(ws[0][k] == s[k]);
            }
        }
    }
}

/// The words of a run that starts with white space are those of the rest.
proof fn lemma_words_skip_space(s: Seq<char>, i: int)
    requires
        0 <= i < s.len(),
        is_whitespace(s[i]),
    ensures
        words(s.skip(i)) == words(s.skip(i + 1)),
{
    assert(s.skip(i).drop_first() =~= s.skip(i + 1));
}

/// The words of `s.skip(start)`, when `s[start..end]` is a word followed by
/// white space or the end of `s`.
proof fn lemma_words_take_word(s: Seq<char>, start: int, end: int)
    requires
        0 <= start < end <= s.len(),
        forall|k: int| start <= k < end ==> !is_whitespace(#[trigger] s[k]),
        end == s.len() || is_whitespace(s[end]),
    ensures
        words(s.skip(start)) == seq![s.subrange(start, end)] + words(s.skip(end)),
{
    let t = s.skip(start);
    assert forall|k: int| 0 <= k < end - start implies !is_whitespace(#[trigger] t[k]) by {
        assert(t[k] == s[start + k]);
    }
    if end < s.len() {
        assert(t[end - start] == s[end]);
    }
    lemma_word_len(t, end - start);
    assert(!is_whitespace(t[0]));
    assert(t.take(end - start) =~= s.subrange(start, end));
    assert(t.skip(end - start) =~= s.skip(end));
}

/// Splits typed codewords on white space, dropping empty pieces, as
/// `line.split_whitespace()` does.
pub fn split_codewords(line: &str) -> (r: Vec<String>)
    ensures
        string_views(r@) == words(line@),
{
    let n = line.unicode_len();
    let mut out: Vec<String> = Vec::new();
    let mut start: usize = 0;
    let mut i: usize = 0;
    proof {
        assert(line@.skip(0) =~= line@);
    }
    while i < n
        invariant
            n == line@.len(),
            start <= i <= n,
            forall|k: int| start <= k < i ==> !is_whitespace(#[trigger] line@[k]),
            words(line@) == string_views(out@) + words(line@.skip(start as int)),
        decreases n - i,
    {
        let c = line.get_char(i);
        if whitespace_char(c) {
            let ghost before = out@;
            if start < i {
                proof {
                    lemma_words_take_word(line@, start as int, i as int);
                }
                let w = String::from_str(line.substring_char(start, i));
                out.push(w);
                proof {
                    assert(string_views(out@) =~= string_views(before).push(w@));
                    assert(string_views(out@) + words(line@.skip(i as int))
                        =~= string_views(before) + (seq![w@] + words(line@.skip(i as int))));
                }
            }
            proof {
                lemma_words_skip_space(line@, i as int);
            }
            start = i + 1;
        }
        i = i + 1;
    }
    if start < n {
        let ghost before = out@;
        proof {
            lemma_words_take_word(line@, start as int, n as int);
            assert(line@.skip(n as int) =~= seq![]);
        }
        let w = String::from_str(line.substring_char(start, n));
        out.push(w);
        proof {
            assert(string_views(out@) =~= string_views(before).push(w@));
            assert(string_views(out@) =~= string_views(before) + (seq![w@] + words(line@.skip(n as int))));
        }
    } else {
        proof {
            assert(line@.skip(start as int) =~= seq![]);
            assert(string_views(out@) + words(line@.skip(start as int)) =~= string_views(out@));
        }
    }
    out
}

fn whitespace_char(c: char) -> (r: bool)
    ensures
        r == is_whitespace(c),
{
    ('\u{9}' <= c && c <= '\u{d}') || c == ' ' || c == '\u{85}' || c == '\u{a0}' || c == '\u{1680}'
        || ('\u{2000}' <= c && c <= '\u{200a}') || c == '\u{2028}' || c == '\u{2029}'
        || c == '\u{202f}' || c == '\u{205f}' || c == '\u{3000}'
}

} // verus!
