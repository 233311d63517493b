use vstd::prelude::*;

use crate::text::chars_of;

verus! {

/// How many spaces one level of indentation is.
pub const TAB_SPACES: usize = 2;

/// Where the formatter stands between two writes: how deep the text is
/// nested in braces, and whether a line break is owed before the next text.
pub ghost struct FormatterState {
    pub level: nat,
    pub queued: bool,
}

/// The indentation of a line at `level`.
pub open spec fn spaces(level: nat) -> Seq<char> {
    Seq::new((level * TAB_SPACES) as nat, |i: int| ' ')
}

/// The pieces of `s` between line breaks, as `str::split('\n')` gives them:
/// one more piece than there are line breaks.
pub open spec fn split_lines(s: Seq<char>) -> Seq<Seq<char>>
    decreases s.len(),
{
    if s.len() == 0 {
        seq![Seq::empty()]
    } else {
        let rest = split_lines(s.drop_last());
        if s.last() == '\n' {
            rest.push(Seq::empty())
        } else {
            rest.update(rest.len() - 1, rest.last().push(s.last()))
        }
    }
}

/// Writes one piece. An empty piece owes a line break. Any other piece is
/// written after the owed line break and its indentation; a piece that ends
/// in `}` is indented one level less, and one that ends in `{` opens a level
/// for what follows. `None` where a `}` has no level to close, or where the
/// indentation would no longer be countable.
pub open spec fn write_line(st: FormatterState, line: Seq<char>) -> Option<(FormatterState, Seq<char>)> {
    if line.len() == 0 {
        Some((FormatterState { level: st.level, queued: true }, Seq::empty()))
    } else if line.last() == '}' && st.level == 0 {
        None
    } else {
        let level: nat = if line.last() == '}' { (st.level - 1) as nat } else { st.level };
        let prefix = if st.queued { seq!['\n'] + spaces(level) } else { Seq::empty() };
        let next: nat = if line.last() == '{' { level + 1 } else { level };
        if next * TAB_SPACES + 1 > usize::MAX {
            None
        } else {
            Some((FormatterState { level: next, queued: false }, prefix + line))
        }
    }
}

/// Writes pieces in order, as far as each can be written.
pub open spec fn write_lines(st: FormatterState, lines: Seq<Seq<char>>) -> Option<(FormatterState, Seq<char>)>
    decreases lines.len(),
{
    if lines.len() == 0 {
        Some((st, Seq::empty()))
    } else {
        match write_lines(st, lines.drop_last()) {
            Some((st1, out1)) => match write_line(st1, lines.last()) {
                Some((st2, out2)) => Some((st2, out1 + out2)),
                None => None,
            },
            None => None,
        }
    }
}

/// What writing `s` makes of the formatter, and the text it puts out.
pub open spec fn format_text(st: FormatterState, s: Seq<char>) -> Option<(FormatterState, Seq<char>)> {
    write_lines(st, split_lines(s))
}

/// Indents text by its braces as it is written: each line break is put
/// out only once text follows it, followed by two spaces for each brace
/// that is open.
pub struct CodeFormatter {
    indentation_level: usize,
    newline_queued: bool,
}

impl View for CodeFormatter {
    type V = FormatterState;

    closed spec fn view(&self) -> FormatterState {
        FormatterState { level: self.indentation_level as nat, queued: self.newline_queued }
    }
}

impl CodeFormatter {
    #[verifier::type_invariant]
    closed spec fn countable(&self) -> bool {
        self.indentation_level * TAB_SPACES + 1 <= usize::MAX
    }

    /// A formatter at the start of the text.
    pub fn new() -> (r: Self)
        ensures
            r@ == (FormatterState { level: 0, queued: false }),
    {
        CodeFormatter { indentation_level: 0, newline_queued: false }
    }

    /// How many braces are open.
    pub fn indentation_level(&self) -> (r: usize)
        ensures
            r == self@.level,
    {
        self.indentation_level
    }

    /// Whether `write_str` can write `s` in the formatter's state.
    pub fn accepts(&self, s: &str) -> (r: bool)
        ensures
            r == format_text(self@, s@) is Some,
    {
        proof {
            use_type_invariant(self);
        }
        let mut copy = CodeFormatter { indentation_level: self.indentation_level, newline_queued: self.newline_queued };
        let chars = chars_of(s);
        copy.write_chars(&chars).is_some()
    }

    /// Writes `s` and returns the text to put out.
    pub fn write_str(&mut self, s: &str) -> (r: Vec<char>)
        requires
            format_text(old(self)@, s@) is Some,
        ensures
            format_text(old(self)@, s@) == Some((final(self)@, r@)),
    {
        let chars = chars_of(s);
        match self.write_chars(&chars) {
            Some(out) => out,
            None => Vec::new(),
        }
    }

    /// The text to put out once writing is done: the line break still owed.
    pub fn finish(self) -> (r: Vec<char>)
        requires
            self@.level == 0,
        ensures
            r@ == (if self@.queued { seq!['\n'] } else { Seq::empty() }),
    {
        let mut r = Vec::new();
        if self.newline_queued {
            r.push('\n');
        }
        r
    }

    /// Writes the characters `s`; `None`, with the formatter unchanged,
    /// where `format_text` is `None`.
    fn write_chars(&mut self, s: &Vec<char>) -> (r: Option<Vec<char>>)
        ensures
            match format_text(old(self)@, s@) {
                Some((st, out)) => r is Some && r->Some_0@ == out && final(self)@ == st,
                None => r is None && final(self)@ == old(self)@,
            },
    {
        proof {
            use_type_invariant(&*self);
        }
        let ghost st0 = self@;
        let mut level = self.indentation_level;
        let mut queued = self.newline_queued;
        let mut out: Vec<char> = Vec::new();
        let mut line: Vec<char> = Vec::new();
        let ghost mut done: Seq<Seq<char>> = Seq::empty();
        let mut i: usize = 0;
        proof {
            assert(s@.subrange(0, 0) =~= Seq::<char>::empty());
            assert(line@ =~= Seq::<char>::empty());
            assert(split_lines(Seq::<char>::empty()) == done.push(line@));
        }
        while i < s.len()
            invariant
                i <= s@.len(),
                st0 == old(self)@,
                split_lines(s@.subrange(0, i as int)) == done.push(line@),
                write_lines(st0, done) == Some((FormatterState { level: level as nat, queued }, out@)),
                level * TAB_SPACES + 1 <= usize::MAX,
            decreases s@.len() - i,
        {
            let c = s[i];
            proof {
                assert(s@.subrange(0, i + 1).drop_last() =~= s@.subrange(0, i as int));
            }
            if c == '\n' {
                let ghost before = out@;
                match write_line_exec(level, queued, &line, &mut out) {
                    Some((l, q)) => {
                        proof {
                            assert(done.push(line@).drop_last() =~= done);
                        }
                        level = l;
                        queued = q;
                        proof {
                            done = done.push(line@);
                        }
                        line = Vec::new();
                        proof {
                            assert(line@ =~= Seq::<char>::empty());
                        }
                    },
                    None => {
                        proof {
                            let lines = done.push(line@);
                            assert(lines.drop_last() =~= done);
                            assert(split_lines(s@.subrange(0, i + 1)) == lines.push(Seq::<char>::empty()));
                            assert(write_lines(st0, lines) is None);
                            lemma_split_prefix(s@, i + 1);
                            let all = split_lines(s@);
                            assert(all.subrange(0, lines.len() as int) =~= lines);
                            lemma_write_lines_prefix(st0, all, lines.len() as int);
                        }
                        return None;
                    },
                }
            } else {
                let ghost old_line = line@;
                line.push(c);
                proof {
                    let prev = done.push(old_line);
                    assert(prev.update(prev.len() - 1, prev.last().push(c)) =~= done.push(line@));
                }
            }
            i = i + 1;
        }
        proof {
            assert(s@.subrange(0, i as int) =~= s@);
            assert(done.push(line@).drop_last() =~= done);
        }
        match write_line_exec(level, queued, &line, &mut out) {
            Some((l, q)) => {
                self.indentation_level = l;
                self.newline_queued = q;
                Some(out)
            },
            None => None,
        }
    }
}

/// Writes one piece after `out`; see [`write_line`].
fn write_line_exec(level: usize, queued: bool, line: &Vec<char>, out: &mut Vec<char>) -> (r: Option<(usize, bool)>)
    requires
        level * TAB_SPACES + 1 <= usize::MAX,
    ensures
        match write_line(FormatterState { level: level as nat, queued }, line@) {
            Some((st, o)) => r == Some((st.level as usize, st.queued)) && final(out)@ == old(out)@ + o
                && st.level * TAB_SPACES + 1 <= usize::MAX,
            None => r is None,
        },
{
    let n = line.len();
    if n == 0 {
        proof {
            assert(old(out)@ + Seq::<char>::empty() =~= out@);
        }
        return Some((level, true));
    }
    let last = line[n - 1];
    if last == '}' && level == 0 {
        return None;
    }
    let level = if last == '}' { level - 1 } else { level };
    let next = if last == '{' { level + 1 } else { level };
    if next > (usize::MAX - 1) / TAB_SPACES {
        return None;
    }
    let ghost start = out@;
    if queued {
        out.push('\n');
        let mut j: usize = 0;
        while j < level * TAB_SPACES
            invariant
                j <= level * TAB_SPACES,
                level * TAB_SPACES + 1 <= usize::MAX,
                out@ == start + seq!['\n'] + spaces(level as nat).subrange(0, j as int),
            decreases level * TAB_SPACES - j,
        {
            out.push(' ');
            proof {
                assert(spaces(level as nat).subrange(0, j + 1) =~= spaces(level as nat).subrange(0, j as int).push(' '));
            }
            j = j + 1;
        }
        proof {
            assert(spaces(level as nat).subrange(0, j as int) =~= spaces(level as nat));
        }
    } else {
        proof {
            assert(start + Seq::<char>::empty() =~= start);
        }
    }
    let ghost mid = out@;
    let mut k: usize = 0;
    while k < n
        invariant
            k <= n,
            n == line@.len(),
            out@ == mid + line@.subrange(0, k as int),
        decreases n - k,
    {
        out.push(line[k]);
        proof {
            assert(line@.subrange(0, k + 1) =~= line@.subrange(0, k as int).push(line@[k as int]));
        }
        k = k + 1;
    }
    proof {
        assert(line@.subrange(0, k as int) =~= line@);
        let prefix = if queued { seq!['\n'] + spaces(level as nat) } else { Seq::empty() };
        assert(out@ =~= start + (prefix + line@));
    }
    Some((next, false))
}

/// The pieces of a prefix of `s`: all but the last are pieces of `s`, and
/// the last begins the piece of `s` in its place.
proof fn lemma_split_prefix(s: Seq<char>, i: int)
    requires
        0 <= i <= s.len(),
    ensures
        split_lines(s.subrange(0, i)).len() <= split_lines(s).len(),
        forall|k: int| 0 <= k < split_lines(s.subrange(0, i)).len() - 1
            ==> #[trigger] split_lines(s)[k] == split_lines(s.subrange(0, i))[k],
    decreases s.len(),
{
    if i == s.len() {
        assert(s.subrange(0, i) =~= s);
    } else {
        assert(s.drop_last().subrange(0, i) =~= s.subrange(0, i));
        lemma_split_prefix(s.drop_last(), i);
    }
}

/// Pieces after one that cannot be written change nothing.
proof fn lemma_write_lines_prefix(st: FormatterState, lines: Seq<Seq<char>>, k: int)
    requires
        0 <= k <= lines.len(),
        write_lines(st, lines.subrange(0, k)) is None,
    ensures
        write_lines(st, lines) is None,
    decreases lines.len(),
{
    if k == lines.len() {
        assert(lines.subrange(0, k) =~= lines);
    } else {
        assert(lines.drop_last().subrange(0, k) =~= lines.subrange(0, k));
        lemma_write_lines_prefix(st, lines.drop_last(), k);
    }
}

/// A piece that opens a brace, a line break and a piece that closes it
/// leave the formatter at the level it was at, with the closing piece on a
/// line of its own indented like the opening one.
pub proof fn lemma_braces_balance(st: FormatterState, open: Seq<char>, close: Seq<char>)
    requires
        open.len() > 0,
        open.last() == '{',
        close.len() > 0,
        close.last() == '}',
        (st.level + 1) * TAB_SPACES + 1 <= usize::MAX,
    ensures
        write_lines(st, seq![open, Seq::empty(), close]) == Some(
            (
                FormatterState { level: st.level, queued: false },
                (if st.queued { seq!['\n'] + spaces(st.level) } else { Seq::empty() }) + open + seq!['\n']
                    + spaces(st.level) + close,
            ),
        ),
{
    let lines = seq![open, Seq::<char>::empty(), close];
    assert(lines.drop_last().drop_last().drop_last() =~= Seq::<Seq<char>>::empty());
    assert(lines.drop_last().drop_last() =~= seq![open]);
    assert(lines.drop_last() =~= seq![open, Seq::<char>::empty()]);
    reveal_with_fuel(write_lines, 4);
    let prefix = if st.queued { seq!['\n'] + spaces(st.level) } else { Seq::empty() };
    assert(Seq::<char>::empty() + (prefix + open) + Seq::<char>::empty() + (seq!['\n'] + spaces(st.level) + close)
        =~= prefix + open + seq!['\n'] + spaces(st.level) + close);
}

} // verus!
