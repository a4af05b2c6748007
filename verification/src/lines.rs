//! Interactive multi-line input: lines are read one at a time until a blank
//! line or the end of input, and what was read is joined with newlines.

use vstd::prelude::*;

use crate::text::{
    has_no_newline, join_strings, join_with, lemma_join_lines_split_back, split_lines, string_views,
};

verus! {

/// A read that ends multi-line input: the end of input, or an empty line.
pub open spec fn is_blank(line: Option<Seq<char>>) -> bool {
    match line {
        Some(l) => l.len() == 0,
        None => true,
    }
}

/// The lines of `reads` that come before the first read that ends input.
pub open spec fn lines_until_blank(reads: Seq<Option<Seq<char>>>) -> Seq<Seq<char>>
    decreases reads.len(),
{
    if reads.len() == 0 || is_blank(reads[0]) {
        seq![]
    } else {
        seq![reads[0]->0] + lines_until_blank(reads.drop_first())
    }
}

/// The text seen in each read.
pub open spec fn read_views(reads: Seq<Option<String>>) -> Seq<Option<Seq<char>>> {
    reads.map_values(|r: Option<String>| match r {
        Some(s) => Some(s@),
        None => None,
    })
}

/// `reads` are what a multi-line prompt consumes: zero or more non-blank
/// lines and then one read that ends input.
pub open spec fn ends_at_first_blank(reads: Seq<Option<Seq<char>>>) -> bool {
    &&& reads.len() > 0
    &&& is_blank(reads.last())
    &&& forall|i: int| 0 <= i < reads.len() - 1 ==> !is_blank(#[trigger] reads[i])
}

/// Some read in `reads` ends input.
pub open spec fn has_blank(reads: Seq<Option<Seq<char>>>) -> bool {
    exists|i: int| 0 <= i < reads.len() && is_blank(#[trigger] reads[i])
}

proof fn lemma_lines_until_blank_push(reads: Seq<Option<Seq<char>>>, r: Option<Seq<char>>)
    ensures
        has_blank(reads) ==> lines_until_blank(reads.push(r)) == lines_until_blank(reads),
        !has_blank(reads) && is_blank(r) ==> lines_until_blank(reads.push(r)) == lines_until_blank(reads),
        !has_blank(reads) && !is_blank(r) ==> lines_until_blank(reads.push(r)) == lines_until_blank(reads).push(r->0),
    decreases reads.len(),
{
    if reads.len() == 0 {
        assert(reads.push(r).drop_first() =~= seq![]);
        assert(lines_until_blank(reads.push(r).drop_first()) =~= seq![]);
    } else {
        let rest = reads.drop_first();
        assert(reads.push(r).drop_first() =~= rest.push(r));
        assert(reads.push(r)[0] == reads[0]);
        lemma_lines_until_blank_push(rest, r);
        if !is_blank(reads[0]) {
            if has_blank(reads) {
                let i = choose|i: int| 0 <= i < reads.len() && is_blank(#[trigger] reads[i]);
                assert(rest[i - 1] == reads[i]);
            }
            if has_blank(rest) {
                let i = choose|i: int| 0 <= i < rest.len() && is_blank(#[trigger] rest[i]);
                assert(reads[i + 1] == rest[i]);
            }
            if !has_blank(reads) && !is_blank(r) {
                assert(seq![reads[0]->0] + lines_until_blank(rest).push(r->0)
                    =~= (seq![reads[0]->0] + lines_until_blank(rest)).push(r->0));
            }
        } else {
            assert(has_blank(reads));
        }
    }
}

/// The lines collected so far, and whether input has ended.
pub type CollectedLines = (Seq<Seq<char>>, bool);

/// The collector's state after one more read: once input has ended nothing
/// changes; a blank read ends input; any other line is kept.
pub open spec fn after_read(state: CollectedLines, read: Option<Seq<char>>) -> CollectedLines {
    if state.1 {
        state
    } else if is_blank(read) {
        (state.0, true)
    } else {
        (state.0.push(read->0), false)
    }
}

/// The collector's state after `reads`, starting from no lines.
pub open spec fn after_reads(reads: Seq<Option<Seq<char>>>) -> CollectedLines
    decreases reads.len(),
{
    if reads.len() == 0 {
        (seq![], false)
    } else {
        after_read(after_reads(reads.drop_last()), reads.last())
    }
}

/// Collects the lines of a multi-line prompt, one read at a time.
pub struct LineCollector {
    lines: Vec<String>,
    ended: bool,
}

impl View for LineCollector {
    type V = CollectedLines;

    closed spec fn view(&self) -> CollectedLines {
        (string_views(self.lines@), self.ended)
    }
}

impl LineCollector {
    /// A collector that has read nothing.
    pub fn new() -> (r: LineCollector)
        ensures
            r@ == (Seq::<Seq<char>>::empty(), false),
    {
        let r = LineCollector { lines: Vec::new(), ended: false };
        assert(string_views(r.lines@) =~= Seq::<Seq<char>>::empty());
        r
    }

    /// Takes in one read (`None` at the end of input) and says whether input
    /// has now ended.
    pub fn push_read(&mut self, read: Option<String>) -> (ended: bool)
        ensures
            final(self)@ == after_read(old(self)@, read_views(seq![read])[0]),
            ended == final(self)@.1,
            final(self)@.0.len() <= usize::MAX,
    {
        if !self.ended {
            match read {
                Some(line) => {
                    if line.unicode_len() == 0 {
                        self.ended = true;
                    } else {
                        let ghost before = self.lines@;
                        self.lines.push(line);
                        assert(string_views(self.lines@) =~= string_views(before).push(line@));
                    }
                },
                None => {
                    self.ended = true;
                },
            }
        }
        let _ = self.lines.len();
        self.ended
    }

    /// Whether input has ended.
    pub fn has_ended(&self) -> (r: bool)
        ensures
            r == self@.1,
    {
        self.ended
    }

    /// The lines collected so far, joined with `\n`.
    pub fn joined(&self) -> (r: String)
        ensures
            r@ == join_with(self@.0, seq!['\n']),
    {
        let r = join_strings(&self.lines, "\n");
        proof {
            reveal_strlit("\n");
            assert("\n"@ =~= seq!['\n']);
        }
        r
    }
}

/// Reading lines one at a time keeps exactly the lines before the first
/// blank read, and input has ended exactly when some read was blank.
pub proof fn lemma_collector_keeps_lines_until_blank(reads: Seq<Option<Seq<char>>>)
    ensures
        after_reads(reads).0 == lines_until_blank(reads),
        after_reads(reads).1 == has_blank(reads),
    decreases reads.len(),
{
    if reads.len() > 0 {
        let init = reads.drop_last();
        let r = reads.last();
        lemma_collector_keeps_lines_until_blank(init);
        lemma_lines_until_blank_push(init, r);
        assert(init.push(r) =~= reads);
        if has_blank(init) {
            let i = choose|i: int| 0 <= i < init.len() && is_blank(#[trigger] init[i]);
            assert(reads[i] == init[i]);
        }
        if has_blank(reads) && !is_blank(r) {
            let i = choose|i: int| 0 <= i < reads.len() && is_blank(#[trigger] reads[i]);
            assert(init[i] == reads[i]);
        }
        if is_blank(r) {
            assert(is_blank(reads[reads.len() - 1]));
        }
    }
}

/// The reads of a prompt at which `lines` are entered in order, followed
/// by the end of input.
pub open spec fn entered_reads(lines: Seq<Seq<char>>) -> Seq<Option<Seq<char>>> {
    lines.map_values(|l: Seq<char>| Some(l)).push(None)
}

/// Lines entered at a multi-line prompt, each non-empty and without a
/// newline, are read back as the same lines: the joined text is empty when
/// no line was entered, and otherwise splits at its newlines into exactly
/// the lines entered.
pub proof fn lemma_entered_lines_read_back(lines: Seq<Seq<char>>)
    requires
        forall|i: int| 0 <= i < lines.len() ==> (#[trigger] lines[i]).len() > 0,
        forall|i: int| 0 <= i < lines.len() ==> has_no_newline(#[trigger] lines[i]),
    ensures
        ends_at_first_blank(entered_reads(lines)),
        lines_until_blank(entered_reads(lines)) == lines,
        lines.len() == 0 ==> join_with(lines_until_blank(entered_reads(lines)), seq!['\n']) == Seq::<char>::empty(),
        lines.len() > 0 ==> split_lines(join_with(lines_until_blank(entered_reads(lines)), seq!['\n'])) == lines,
    decreases lines.len(),
{
    let reads = entered_reads(lines);
    assert forall|i: int| 0 <= i < reads.len() - 1 implies !is_blank(#[trigger] reads[i]) by {
        assert(reads[i] == Some(lines[i]));
    }
    if lines.len() == 0 {
        assert(reads =~= seq![None::<Seq<char>>]);
    } else {
        let rest = lines.drop_first();
        assert forall|i: int| 0 <= i < rest.len() implies (#[trigger] rest[i]).len() > 0 && has_no_newline(rest[i]) by {
            assert(rest[i] == lines[i + 1]);
        }
        lemma_entered_lines_read_back(rest);
        assert(reads.drop_first() =~= entered_reads(rest));
        assert(reads[0] == Some(lines[0]));
        assert(seq![lines[0]] + rest =~= lines);
        lemma_join_lines_split_back(lines);
    }
}

/// Reads lines via `next_line` until an empty line or EOF, joining what was
/// read with `\n`. An error from `next_line` is passed on at once.
pub fn read_lines_until_blank<E, F: FnMut() -> Result<Option<String>, E>>(next_line: F) -> (r: Result<String, E>)
    requires
        call_requires(next_line, ()),
    ensures
        r matches Err(e) ==> call_ensures(next_line, (), Err(e)),
        r matches Ok(s) ==> exists|reads: Seq<Option<String>>| {
            &&& forall|i: int| 0 <= i < reads.len() ==> call_ensures(next_line, (), Ok(#[trigger] reads[i]))
            &&& ends_at_first_blank(read_views(reads))
            &&& s@ == join_with(lines_until_blank(read_views(reads)), seq!['\n'])
        },
{
    let mut collector = LineCollector::new();
    let ghost mut reads: Seq<Option<String>> = seq![];
    let mut source = next_line;
    loop
        invariant
            source == next_line,
            call_requires(source, ()),
            forall|i: int| 0 <= i < reads.len() ==> call_ensures(source, (), Ok(#[trigger] reads[i])),
            !has_blank(read_views(reads)),
            collector@ == after_reads(read_views(reads)),
            collector@.0.len() == reads.len(),
            !collector@.1,
        decreases usize::MAX - collector@.0.len(),
    {
        let next = source();
        proof {
            broadcast use vstd::function::axiom_fn_mut_call_ensures;
        }
        match next {
            Err(e) => {
                return Err(e);
            },
            Ok(line) => {
                let ghost old_reads = reads;
                proof {
                    reads = reads.push(line);
                    assert(read_views(reads) =~= read_views(old_reads).push(read_views(seq![line])[0]));
                    assert(read_views(reads).drop_last() =~= read_views(old_reads));
                    lemma_collector_keeps_lines_until_blank(read_views(old_reads));
                    lemma_collector_keeps_lines_until_blank(read_views(reads));
                }
                let ended = collector.push_read(line);
                if ended {
                    let joined = collector.joined();
                    proof {
                        assert(is_blank(read_views(reads).last()));
                        assert forall|i: int| 0 <= i < read_views(reads).len() - 1
                            implies !is_blank(#[trigger] read_views(reads)[i]) by {
                            assert(read_views(reads)[i] == read_views(old_reads)[i]);
                        }
                    }
                    return Ok(joined);
                }
                proof {
                    assert forall|i: int| 0 <= i < read_views(reads).len()
                        implies !is_blank(#[trigger] read_views(reads)[i]) by {
                        if i < old_reads.len() {
                            assert(read_views(reads)[i] == read_views(old_reads)[i]);
                        }
                    }
                }
            },
        }
    }
}

/// A character that `read_line` may leave at the end of a line.
pub open spec fn is_line_break(c: char) -> bool {
    c == '\n' || c == '\r'
}

/// `s` without the `\n` and `\r` characters at its end, as
/// `s.trim_end_matches(['\n', '\r'])`.
pub open spec fn trim_line_breaks(s: Seq<char>) -> Seq<char>
    decreases s.len(),
{
    if s.len() > 0 && is_line_break(s.last()) {
        trim_line_breaks(s.drop_last())
    } else {
        s
    }
}

fn line_break_char(c: char) -> (r: bool)
    ensures
        r == is_line_break(c),
{
    c == '\n' || c == '\r'
}

/// A line read plainly ends in no line break, and it is what was read with
/// only line breaks taken off its end.
pub proof fn lemma_trimmed_line(s: Seq<char>)
    ensures
        trim_line_breaks(s).len() == 0 || !is_line_break(trim_line_breaks(s).last()),
        trim_line_breaks(s).len() <= s.len(),
        trim_line_breaks(s) =~= s.take(trim_line_breaks(s).len() as int),
        forall|k: int| trim_line_breaks(s).len() <= k < s.len() ==> is_line_break(#[trigger] s[k]),
    decreases s.len(),
{
    if s.len() > 0 && is_line_break(s.last()) {
        let t = s.drop_last();
        lemma_trimmed_line(t);
        assert forall|k: int| trim_line_breaks(s).len() <= k < s.len() implies is_line_break(#[trigger] s[k]) by {
            if k < s.len() - 1 {
                assert(s[k] == t[k]);
            }
        }
    }
}

/// The line that a plain read of standard input gives: `None` at the end of
/// input (no byte was read), otherwise what was read without the line
/// breaks at its end.
pub fn plain_line(bytes_read: usize, buffer: &str) -> (r: Option<String>)
    ensures
        bytes_read == 0 ==> r is None,
        bytes_read != 0 ==> (r matches Some(l) && l@ == trim_line_breaks(buffer@)),
{
    if bytes_read == 0 {
        return None;
    }
    let mut end = buffer.unicode_len();
    assert(buffer@.take(end as int) =~= buffer@);
    while end > 0 && line_break_char(buffer.get_char(end - 1))
        invariant
            end <= buffer@.len(),
            trim_line_breaks(buffer@) == trim_line_breaks(buffer@.take(end as int)),
        decreases end,
    {
        proof {
            assert(buffer@.take(end as int).drop_last() =~= buffer@.take(end - 1));
        }
        end = end - 1;
    }
    proof {
        if end > 0 {
            assert(buffer@.take(end as int).last() == buffer@[end - 1]);
        }
    }
    Some(String::from_str(buffer.substring_char(0, end)))
}

/// The line that a read from the terminal without echo gives: a failure to
/// read is taken as the end of input.
pub fn hidden_line<E>(read: Result<String, E>) -> (r: Option<String>)
    ensures
        r == match read {
            Ok(l) => Some(l),
            Err(_) => None::<String>,
        },
{
    match read {
        Ok(l) => Some(l),
        Err(_) => None,
    }
}

} // verus!
