//! Decimal rendering of numbers and joining of text, as shown to the user.

use vstd::prelude::*;

verus! {

/// The ASCII character of a decimal digit.
pub open spec fn digit_char(d: nat) -> char
    recommends
        d < 10,
{
    if d == 0 {
        '0'
    } else if d == 1 {
        '1'
    } else if d == 2 {
        '2'
    } else if d == 3 {
        '3'
    } else if d == 4 {
        '4'
    } else if d == 5 {
        '5'
    } else if d == 6 {
        '6'
    } else if d == 7 {
        '7'
    } else if d == 8 {
        '8'
    } else {
        '9'
    }
}

/// The decimal notation of `n`, most significant digit first, without
/// leading zeros (`0` is written as the single digit `0`).
pub open spec fn decimal(n: nat) -> Seq<char>
    decreases n,
{
    if n < 10 {
        seq![digit_char(n)]
    } else {
        decimal(n / 10).push(digit_char(n % 10))
    }
}

fn digit_str(d: u64) -> (r: &'static str)
    requires
        d < 10,
    ensures
        r@ == seq![digit_char(d as nat)],
{
    if d == 0 {
        proof { reveal_strlit("0"); }
        "0"
    } else if d == 1 {
        proof { reveal_strlit("1"); }
        "1"
    } else if d == 2 {
        proof { reveal_strlit("2"); }
        "2"
    } else if d == 3 {
        proof { reveal_strlit("3"); }
        "3"
    } else if d == 4 {
        proof { reveal_strlit("4"); }
        "4"
    } else if d == 5 {
        proof { reveal_strlit("5"); }
        "5"
    } else if d == 6 {
        proof { reveal_strlit("6"); }
        "6"
    } else if d == 7 {
        proof { reveal_strlit("7"); }
        "7"
    } else if d == 8 {
        proof { reveal_strlit("8"); }
        "8"
    } else {
        proof { reveal_strlit("9"); }
        "9"
    }
}

/// Renders `n` in decimal, as `n.to_string()` does for an unsigned integer.
pub fn decimal_string(n: u64) -> (r: String)
    ensures
        r@ == decimal(n as nat),
    decreases n,
{
    if n < 10 {
        String::from_str(digit_str(n))
    } else {
        let mut s = decimal_string(n / 10);
        s.append(digit_str(n % 10));
        s
    }
}

/// `parts` with `sep` between consecutive parts, as `parts.join(sep)`.
pub open spec fn join_with(parts: Seq<Seq<char>>, sep: Seq<char>) -> Seq<char>
    decreases parts.len(),
{
    if parts.len() == 0 {
        seq![]
    } else if parts.len() == 1 {
        parts[0]
    } else {
        join_with(parts.drop_last(), sep) + sep + parts.last()
    }
}

/// The pieces of `s` between its `\n` characters, as `s.split('\n')`
/// yields them: one more piece than there are newlines, empty pieces kept.
pub open spec fn split_lines(s: Seq<char>) -> Seq<Seq<char>>
    decreases s.len(),
{
    if s.len() == 0 {
        seq![Seq::<char>::empty()]
    } else {
        let init = split_lines(s.drop_last());
        if s.last() == '\n' {
            init.push(Seq::<char>::empty())
        } else {
            init.update(init.len() - 1, init.last().push(s.last()))
        }
    }
}

/// `s` holds no newline.
pub open spec fn has_no_newline(s: Seq<char>) -> bool {
    forall|k: int| 0 <= k < s.len() ==> #[trigger] s[k] != '\n'
}

proof fn lemma_split_lines_nonempty(s: Seq<char>)
    ensures
        split_lines(s).len() >= 1,
    decreases s.len(),
{
    if s.len() > 0 {
        lemma_split_lines_nonempty(s.drop_last());
    }
}

/// Appending text without newlines extends the last piece.
proof fn lemma_split_lines_extend(x: Seq<char>, b: Seq<char>)
    requires
        has_no_newline(b),
    ensures
        split_lines(x + b).len() == split_lines(x).len(),
        split_lines(x + b) == split_lines(x).update(
            split_lines(x).len() - 1,
            split_lines(x).last() + b,
        ),
    decreases b.len(),
{
    lemma_split_lines_nonempty(x);
    if b.len() == 0 {
        assert(x + b =~= x);
        assert(split_lines(x).last() + b =~= split_lines(x).last());
        assert(split_lines(x).update(split_lines(x).len() - 1, split_lines(x).last())
            =~= split_lines(x));
    } else {
        let b0 = b.drop_last();
        assert(has_no_newline(b0)) by {
            assert forall|k: int| 0 <= k < b0.len() implies #[trigger] b0[k] != '\n' by {
                assert(b0[k] == b[k]);
            }
        }
        lemma_split_lines_extend(x, b0);
        assert((x + b).drop_last() =~= x + b0);
        assert((x + b).last() == b.last());
        assert(b[b.len() - 1] != '\n');
        let px = split_lines(x);
        assert((px.last() + b0).push(b.last()) =~= px.last() + b);
        assert(split_lines(x + b) =~= px.update(px.len() - 1, px.last() + b));
    }
}

/// Lines without newlines, joined with `\n`, split back into the same
/// lines at the newlines.
pub proof fn lemma_join_lines_split_back(parts: Seq<Seq<char>>)
    requires
        parts.len() > 0,
        forall|i: int| 0 <= i < parts.len() ==> has_no_newline(#[trigger] parts[i]),
    ensures
        split_lines(join_with(parts, seq!['\n'])) == parts,
    decreases parts.len(),
{
    let e = Seq::<char>::empty();
    if parts.len() == 1 {
        assert(has_no_newline(parts[0]));
        lemma_split_lines_extend(e, parts[0]);
        assert(e + parts[0] =~= parts[0]);
        assert(split_lines(e) =~= seq![e]);
        assert(seq![e].update(0, e + parts[0]) =~= parts);
    } else {
        let init = parts.drop_last();
        assert forall|i: int| 0 <= i < init.len() implies has_no_newline(#[trigger] init[i]) by {
            assert(init[i] == parts[i]);
        }
        lemma_join_lines_split_back(init);
        let a = join_with(init, seq!['\n']);
        let x = a + seq!['\n'];
        assert(x.drop_last() =~= a);
        assert(x.last() == '\n');
        assert(split_lines(x) == init.push(e));
        assert(has_no_newline(parts.last()));
        lemma_split_lines_extend(x, parts.last());
        assert(join_with(parts, seq!['\n']) == x + parts.last());
        assert(e + parts.last() =~= parts.last());
        assert(init.push(e).update(init.len() as int, e + parts.last()) =~= parts);
    }
}

/// The text of each string.
pub open spec fn string_views(parts: Seq<String>) -> Seq<Seq<char>> {
    parts.map_values(|p: String| p@)
}

/// Joins `parts` with `sep` between consecutive parts, as `parts.join(sep)`.
pub fn join_strings(parts: &Vec<String>, sep: &str) -> (r: String)
    ensures
        r@ == join_with(string_views(parts@), sep@),
{
    let mut r = String::new();
    let n = parts.len();
    let mut i: usize = 0;
    while i < n
        invariant
            n == parts@.len(),
            i <= n,
            r@ == join_with(string_views(parts@).take(i as int), sep@),
        decreases n - i,
    {
        proof {
            let vs = string_views(parts@);
            assert(vs.take(i + 1).drop_last() =~= vs.take(i as int));
            assert(vs.take(i + 1).last() == parts@[i as int]@);
            if i == 0 {
                assert(vs.take(1) =~= seq![parts@[0]@]);
            }
        }
        if i > 0 {
            r.append(sep);
        }
        r.append(parts[i].as_str());
        i = i + 1;
    }
    assert(string_views(parts@).take(n as int) =~= string_views(parts@));
    r
}

/// Whether two strings hold the same text.
pub fn same_text(a: &str, b: &str) -> (r: bool)
    ensures
        r == (a@ == b@),
{
    let n = a.unicode_len();
    if n != b.unicode_len() {
        return false;
    }
    let mut i: usize = 0;
    while i < n
        invariant
            n == a@.len(),
            n == b@.len(),
            i <= n,
            forall|k: int| 0 <= k < i ==> a@[k] == b@[k],
        decreases n - i,
    {
        if a.get_char(i) != b.get_char(i) {
            return false;
        }
        i = i + 1;
    }
    assert(a@ =~= b@);
    true
}

} // verus!
