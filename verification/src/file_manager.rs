use vstd::prelude::*;
use vstd::string::*;

verus! {

// ---------------------------------------------------------------------------
// Line model
//
// The scratch file is a sequence of characters.  Lines are the segments
// between '\n' characters; a line terminated by '\n' loses one trailing '\r'
// (so "\r\n" endings read the same as "\n" endings), while a final
// unterminated line is kept as written.
// ---------------------------------------------------------------------------

/// Raw split of `s` at every '\n': k newlines give k + 1 segments, so the
/// result is never empty, and a trailing '\n' produces a final empty segment.
pub open spec fn spec_raw_lines(s: Seq<char>) -> Seq<Seq<char>>
    decreases s.len(),
{
    if s.len() == 0 {
        seq![Seq::<char>::empty()]
    } else if s[0] == '\n' {
        seq![Seq::<char>::empty()] + spec_raw_lines(s.drop_first())
    } else {
        let rest = spec_raw_lines(s.drop_first());
        seq![seq![s[0]] + rest[0]] + rest.drop_first()
    }
}

/// Remove one trailing '\r', if present.
pub open spec fn spec_strip_cr(l: Seq<char>) -> Seq<char> {
    if l.len() > 0 && l.last() == '\r' {
        l.drop_last()
    } else {
        l
    }
}

/// The lines of `s`: every '\n'-terminated segment with one trailing '\r'
/// removed, plus the final unterminated segment if it is non-empty.
pub open spec fn spec_lines(s: Seq<char>) -> Seq<Seq<char>> {
    let raw = spec_raw_lines(s);
    let terminated = raw.drop_last().map_values(|l: Seq<char>| spec_strip_cr(l));
    if raw.last().len() == 0 {
        terminated
    } else {
        terminated + seq![raw.last()]
    }
}

// ---------------------------------------------------------------------------
// Checkbox grammar
//
// A checkbox line is `[B] NAME` where the bracket contents B are `x`, a
// single space, or empty, and NAME is non-empty.  Only the contents `x` mean
// checked.
// ---------------------------------------------------------------------------

pub open spec fn spec_checked_prefix() -> Seq<char> {
    seq!['[', 'x', ']', ' ']
}

pub open spec fn spec_space_prefix() -> Seq<char> {
    seq!['[', ' ', ']', ' ']
}

pub open spec fn spec_empty_prefix() -> Seq<char> {
    seq!['[', ']', ' ']
}

/// Parse one line against the checkbox grammar: `Some((name, checked))` for a
/// checkbox line, `None` for any other line.
pub open spec fn spec_parse_line(l: Seq<char>) -> Option<(Seq<char>, bool)> {
    if l.len() >= 5 && l.take(4) == spec_checked_prefix() {
        Some((l.skip(4), true))
    } else if l.len() >= 5 && l.take(4) == spec_space_prefix() {
        Some((l.skip(4), false))
    } else if l.len() >= 4 && l.take(3) == spec_empty_prefix() {
        Some((l.skip(3), false))
    } else {
        None
    }
}

/// The checkbox entries of a sequence of lines, in order; non-checkbox lines
/// are skipped.
pub open spec fn spec_parse_lines(lines: Seq<Seq<char>>) -> Seq<(Seq<char>, bool)>
    decreases lines.len(),
{
    if lines.len() == 0 {
        Seq::<(Seq<char>, bool)>::empty()
    } else {
        match spec_parse_line(lines[0]) {
            Some(e) => seq![e] + spec_parse_lines(lines.drop_first()),
            None => spec_parse_lines(lines.drop_first()),
        }
    }
}

/// The checkbox entries of a whole file.
pub open spec fn spec_parse_checkboxes(s: Seq<char>) -> Seq<(Seq<char>, bool)> {
    spec_parse_lines(spec_lines(s))
}

/// True when a parsed checkbox list is non-empty and every entry is checked.
pub open spec fn spec_all_checked(entries: Seq<(Seq<char>, bool)>) -> bool {
    &&& entries.len() > 0
    &&& forall|i: int| 0 <= i < entries.len() ==> (#[trigger] entries[i]).1
}

// ---------------------------------------------------------------------------
// Unchecking
// ---------------------------------------------------------------------------

/// Rewrite one line: a line that begins with `[x] ` loses the `x`; any other
/// line is unchanged.
pub open spec fn spec_uncheck_line(l: Seq<char>) -> Seq<char> {
    if l.len() >= 4 && l.take(4) == spec_checked_prefix() {
        spec_empty_prefix() + l.skip(4)
    } else {
        l
    }
}

/// Join lines with '\n' between consecutive lines (no trailing '\n').
pub open spec fn spec_join_nl(lines: Seq<Seq<char>>) -> Seq<char>
    decreases lines.len(),
{
    if lines.len() == 0 {
        Seq::<char>::empty()
    } else if lines.len() == 1 {
        lines[0]
    } else {
        lines[0] + seq!['\n'] + spec_join_nl(lines.drop_first())
    }
}

/// The whole-file rewrite: every line is passed through `spec_uncheck_line`,
/// lines are re-joined with '\n', and a trailing '\n' is kept exactly when
/// the input ended with one.
pub open spec fn spec_uncheck(s: Seq<char>) -> Seq<char> {
    let joined = spec_join_nl(spec_lines(s).map_values(|l: Seq<char>| spec_uncheck_line(l)));
    if s.len() > 0 && s.last() == '\n' {
        joined + seq!['\n']
    } else {
        joined
    }
}

// ---------------------------------------------------------------------------
// Initial contents
// ---------------------------------------------------------------------------

/// One unchecked checkbox line, with its terminator: `[] NAME\n`.
pub open spec fn spec_box_line(name: Seq<char>) -> Seq<char> {
    spec_empty_prefix() + name + seq!['\n']
}

/// The checkbox block: one `[] NAME\n` line per name, in order.
pub open spec fn spec_box_lines(names: Seq<Seq<char>>) -> Seq<char>
    decreases names.len(),
{
    if names.len() == 0 {
        Seq::<char>::empty()
    } else {
        spec_box_line(names[0]) + spec_box_lines(names.drop_first())
    }
}

/// The canonical initial contents: the checkbox block, a blank line, then the
/// task prompt and a final newline.
pub open spec fn spec_initial_contents(names: Seq<Seq<char>>, prompt: Seq<char>) -> Seq<char> {
    spec_box_lines(names) + seq!['\n'] + prompt + seq!['\n']
}

/// A name the checkbox grammar can round-trip: non-empty, no '\n' (it must
/// stay on one line), and no trailing '\r' (which line reading would strip).
pub open spec fn spec_valid_name(name: Seq<char>) -> bool {
    &&& name.len() > 0
    &&& forall|i: int| 0 <= i < name.len() ==> #[trigger] name[i] != '\n'
    &&& name.last() != '\r'
}

// ---------------------------------------------------------------------------
// Structural lemmas about lines
// ---------------------------------------------------------------------------

pub proof fn lemma_raw_lines_nonempty(s: Seq<char>)
    ensures
        spec_raw_lines(s).len() >= 1,
    decreases s.len(),
{
    if s.len() == 0 {
    } else {
        lemma_raw_lines_nonempty(s.drop_first());
    }
}

/// Splitting at the first '\n': the first raw segment is everything before
/// it, and the rest are the raw segments of the suffix.
pub proof fn lemma_raw_lines_split(s: Seq<char>, i: int)
    requires
        0 <= i < s.len(),
        s[i] == '\n',
        forall|j: int| 0 <= j < i ==> s[j] != '\n',
    ensures
        spec_raw_lines(s) == seq![s.take(i)] + spec_raw_lines(s.skip(i + 1)),
    decreases i,
{
    if i == 0 {
        assert(s.take(0) =~= Seq::<char>::empty());
        assert(s.drop_first() =~= s.skip(1));
    } else {
        let s2 = s.drop_first();
        assert(s2 =~= s.skip(1));
        assert(s2[i - 1] == '\n');
        lemma_raw_lines_split(s2, i - 1);
        lemma_raw_lines_nonempty(s2.skip(i));
        let rest = spec_raw_lines(s2);
        assert(rest[0] == s2.take(i - 1));
        assert(rest.drop_first() =~= spec_raw_lines(s2.skip(i)));
        assert(seq![s[0]] + s2.take(i - 1) =~= s.take(i));
        assert(s2.skip(i) =~= s.skip(i + 1));
        assert(spec_raw_lines(s) =~= seq![s.take(i)] + spec_raw_lines(s.skip(i + 1)));
    }
}

pub proof fn lemma_raw_lines_no_nl(s: Seq<char>)
    requires
        forall|j: int| 0 <= j < s.len() ==> s[j] != '\n',
    ensures
        spec_raw_lines(s) == seq![s],
    decreases s.len(),
{
    if s.len() == 0 {
        assert(s =~= Seq::<char>::empty());
        assert(spec_raw_lines(s) =~= seq![s]);
    } else {
        lemma_raw_lines_no_nl(s.drop_first());
        let rest = spec_raw_lines(s.drop_first());
        assert(rest == seq![s.drop_first()]);
        assert(rest[0] == s.drop_first());
        assert(rest.drop_first() =~= Seq::<Seq<char>>::empty());
        assert(seq![s[0]] + rest[0] =~= s);
        assert(spec_raw_lines(s) == seq![seq![s[0]] + rest[0]] + rest.drop_first());
        assert(spec_raw_lines(s) =~= seq![s]);
    }
}

/// Peeling the first line off a string whose first '\n' is at index `i`.
pub proof fn lemma_lines_split(s: Seq<char>, i: int)
    requires
        0 <= i < s.len(),
        s[i] == '\n',
        forall|j: int| 0 <= j < i ==> s[j] != '\n',
    ensures
        spec_lines(s) == seq![spec_strip_cr(s.take(i))] + spec_lines(s.skip(i + 1)),
{
    lemma_raw_lines_split(s, i);
    let suffix = s.skip(i + 1);
    let rs = spec_raw_lines(suffix);
    lemma_raw_lines_nonempty(rs[0]);
    lemma_raw_lines_nonempty(suffix);
    let raw = spec_raw_lines(s);
    assert(raw == seq![s.take(i)] + rs);
    assert(raw.last() == rs.last());
    assert(raw.drop_last() =~= seq![s.take(i)] + rs.drop_last());
    let f = |l: Seq<char>| spec_strip_cr(l);
    assert(raw.drop_last().map_values(f) =~= seq![spec_strip_cr(s.take(i))]
        + rs.drop_last().map_values(f));
    if rs.last().len() == 0 {
        assert(spec_lines(s) =~= seq![spec_strip_cr(s.take(i))] + spec_lines(suffix));
    } else {
        assert(spec_lines(s) =~= seq![spec_strip_cr(s.take(i))] + spec_lines(suffix));
    }
}

/// A string without '\n' is a single line (or no line at all if empty).
pub proof fn lemma_lines_no_nl(s: Seq<char>)
    requires
        forall|j: int| 0 <= j < s.len() ==> s[j] != '\n',
    ensures
        s.len() == 0 ==> spec_lines(s) == Seq::<Seq<char>>::empty(),
        s.len() > 0 ==> spec_lines(s) == seq![s],
{
    lemma_raw_lines_no_nl(s);
    let raw = spec_raw_lines(s);
    assert(raw.drop_last() =~= Seq::<Seq<char>>::empty());
    assert(raw.drop_last().map_values(|l: Seq<char>| spec_strip_cr(l)) =~= Seq::<
        Seq<char>,
    >::empty());
    if s.len() == 0 {
        assert(spec_lines(s) =~= Seq::<Seq<char>>::empty());
    } else {
        assert(spec_lines(s) =~= seq![s]);
    }
}

/// Parsing a line sequence one line at a time.
pub proof fn lemma_parse_lines_cons(l: Seq<char>, rest: Seq<Seq<char>>)
    ensures
        spec_parse_lines(seq![l] + rest) == (match spec_parse_line(l) {
            Some(e) => seq![e] + spec_parse_lines(rest),
            None => spec_parse_lines(rest),
        }),
{
    let ls = seq![l] + rest;
    assert(ls[0] == l);
    assert(ls.drop_first() =~= rest);
}

// ---------------------------------------------------------------------------
// Executable file store
// ---------------------------------------------------------------------------

/// The character-level view of a parsed checkbox list.
pub open spec fn view_entries(v: Seq<(String, bool)>) -> Seq<(Seq<char>, bool)> {
    v.map_values(|p: (String, bool)| (p.0@, p.1))
}

/// A handle to the shared scratch file.  The handle itself only carries the
/// path; reading and writing the file are the caller's business, and every
/// operation here is a pure function of the file's contents.
#[derive(Clone, Debug)]
pub struct FileManager {
    pub path: String,
}

impl FileManager {
    /// The canonical initial contents of the scratch file: one `[] NAME`
    /// line per verifier name, a blank line, then the task prompt and a
    /// final newline.
    pub fn initial_contents(verifier_names: &Vec<String>, prompt: &str) -> (r: String)
        ensures
            r@ == spec_initial_contents(
                verifier_names@.map_values(|s: String| s@),
                prompt@,
            ),
    {
        let ghost names = verifier_names@.map_values(|s: String| s@);
        let mut r = String::new();
        let mut i: usize = 0;
        proof {
            reveal_strlit("[] ");
            reveal_strlit("\n");
            assert(names.take(0) =~= Seq::<Seq<char>>::empty());
            assert(r@ =~= spec_box_lines(names.take(0)));
        }
        while i < verifier_names.len()
            invariant
                i <= verifier_names.len(),
                names == verifier_names@.map_values(|s: String| s@),
                r@ == spec_box_lines(names.take(i as int)),
            decreases verifier_names.len() - i,
        {
            r.append("[] ");
            r.append(verifier_names[i].as_str());
            r.append("\n");
            proof {
                reveal_strlit("[] ");
                reveal_strlit("\n");
                assert("[] "@ =~= spec_empty_prefix());
                assert("\n"@ =~= seq!['\n']);
                lemma_box_lines_snoc(names.take(i as int), names[i as int]);
                assert(names.take(i + 1) =~= names.take(i as int).push(names[i as int]));
                assert(r@ =~= spec_box_lines(names.take(i + 1)));
            }
            i += 1;
        }
        r.append("\n");
        r.append(prompt);
        r.append("\n");
        proof {
            reveal_strlit("\n");
            assert("\n"@ =~= seq!['\n']);
            assert(names.take(verifier_names@.len() as int) =~= names);
            assert(r@ =~= spec_initial_contents(names, prompt@));
        }
        r
    }

    /// Parse the checkbox lines out of the file contents, in file order.
    /// Non-checkbox lines are skipped.
    #[verifier::rlimit(100)]
    pub fn parse_checkboxes(contents: &str) -> (r: Vec<(String, bool)>)
        ensures
            view_entries(r@) == spec_parse_checkboxes(contents@),
    {
        let n = contents.unicode_len();
        let mut res: Vec<(String, bool)> = Vec::new();
        let mut start: usize = 0;
        proof {
            assert(contents@.skip(0) =~= contents@);
            assert(view_entries(res@) =~= Seq::<(Seq<char>, bool)>::empty());
            assert(view_entries(res@) + spec_parse_lines(spec_lines(contents@)) =~=
                spec_parse_lines(spec_lines(contents@)));
        }
        while start < n
            invariant
                contents@.len() == n,
                start <= n,
                spec_parse_checkboxes(contents@) == view_entries(res@) + spec_parse_lines(
                    spec_lines(contents@.skip(start as int)),
                ),
            decreases n - start,
        {
            let ghost old_res = res@;
            let ghost suffix = contents@.skip(start as int);
            let mut end: usize = start;
            while end < n && contents.get_char(end) != '\n'
                invariant
                    contents@.len() == n,
                    start <= end <= n,
                    forall|j: int| start <= j < end ==> contents@[j] != '\n',
                decreases n - end,
            {
                end += 1;
            }
            let terminated = end < n;
            let line_hi = if terminated && end > start && contents.get_char(end - 1) == '\r' {
                end - 1
            } else {
                end
            };
            let ghost line = contents@.subrange(start as int, line_hi as int);
            proof {
                if terminated {
                    lemma_lines_split(suffix, end - start);
                    assert(suffix.take(end - start) =~= contents@.subrange(
                        start as int,
                        end as int,
                    ));
                    assert(spec_strip_cr(suffix.take(end - start)) =~= line);
                    assert(suffix.skip(end - start + 1) =~= contents@.skip(end + 1));
                    lemma_parse_lines_cons(line, spec_lines(contents@.skip(end + 1)));
                } else {
                    assert(suffix =~= contents@.subrange(start as int, end as int));
                    lemma_lines_no_nl(suffix);
                    assert(line =~= suffix);
                    lemma_parse_lines_cons(line, spec_lines(contents@.skip(n as int)));
                    assert(contents@.skip(n as int) =~= Seq::<char>::empty());
                    lemma_lines_no_nl(contents@.skip(n as int));
                }
            }
            let llen = line_hi - start;
            let mut is_box = false;
            let mut checked = false;
            let mut name_start = start;
            if llen >= 5 && contents.get_char(start) == '[' && contents.get_char(start + 1) == 'x'
                && contents.get_char(start + 2) == ']' && contents.get_char(start + 3) == ' ' {
                is_box = true;
                checked = true;
                name_start = start + 4;
                proof {
                    assert(line.take(4) =~= spec_checked_prefix());
                }
            } else if llen >= 5 && contents.get_char(start) == '[' && contents.get_char(start + 1)
                == ' ' && contents.get_char(start + 2) == ']' && contents.get_char(start + 3)
                == ' ' {
                is_box = true;
                checked = false;
                name_start = start + 4;
                proof {
                    assert(line.take(4) =~= spec_space_prefix());
                    assert(line.take(4) != spec_checked_prefix());
                }
            } else if llen >= 4 && contents.get_char(start) == '[' && contents.get_char(start + 1)
                == ']' && contents.get_char(start + 2) == ' ' {
                is_box = true;
                checked = false;
                name_start = start + 3;
                proof {
                    assert(line.take(3) =~= spec_empty_prefix());
                    if llen >= 5 {
                        assert(line.take(4) != spec_checked_prefix());
                        assert(line.take(4) != spec_space_prefix());
                    }
                }
            } else {
                proof {
                    if llen >= 5 && line.take(4) == spec_checked_prefix() {
                        assert(line[0] == '[' && line[1] == 'x' && line[2] == ']' && line[3]
                            == ' ');
                        assert(false);
                    }
                    if llen >= 5 && line.take(4) == spec_space_prefix() {
                        assert(line[0] == '[' && line[1] == ' ' && line[2] == ']' && line[3]
                            == ' ');
                        assert(false);
                    }
                    if llen >= 4 && line.take(3) == spec_empty_prefix() {
                        assert(line[0] == '[' && line[1] == ']' && line[2] == ' ');
                        assert(false);
                    }
                    assert(spec_parse_line(line) is None);
                }
            }
            if is_box {
                let name = contents.substring_char(name_start, line_hi).to_owned();
                proof {
                    assert(line.skip((name_start - start) as int) =~= contents@.subrange(
                        name_start as int,
                        line_hi as int,
                    ));
                    assert(spec_parse_line(line) == Some((name@, checked)));
                }
                res.push((name, checked));
                proof {
                    assert(view_entries(res@) =~= view_entries(old_res) + seq![(name@, checked)]);
                }
            }
            start = if terminated {
                end + 1
            } else {
                n
            };
        }
        proof {
            assert(contents@.skip(n as int) =~= Seq::<char>::empty());
            lemma_lines_no_nl(contents@.skip(n as int));
            assert(view_entries(res@) + spec_parse_lines(spec_lines(contents@.skip(n as int)))
                =~= view_entries(res@));
        }
        res
    }

    /// Rewrite the contents so that every line beginning with `[x] ` begins
    /// with `[] ` instead.  Other lines are kept; line terminators are
    /// normalized to '\n', with a trailing newline exactly when the input
    /// had one.
    #[verifier::rlimit(100)]
    pub fn uncheck_all(contents: &str) -> (r: String)
        ensures
            r@ == spec_uncheck(contents@),
    {
        let n = contents.unicode_len();
        let mut r = String::new();
        let mut start: usize = 0;
        let mut first = true;
        let ghost f = |l: Seq<char>| spec_uncheck_line(l);
        let ghost mut done: Seq<Seq<char>> = Seq::empty();
        proof {
            assert(contents@.skip(0) =~= contents@);
            assert(done + spec_lines(contents@) =~= spec_lines(contents@));
            assert(done.map_values(f) =~= Seq::<Seq<char>>::empty());
        }
        while start < n
            invariant
                contents@.len() == n,
                start <= n,
                spec_lines(contents@) == done + spec_lines(contents@.skip(start as int)),
                r@ == spec_join_nl(done.map_values(f)),
                first <==> done.len() == 0,
                f == (|l: Seq<char>| spec_uncheck_line(l)),
            decreases n - start,
        {
            let ghost suffix = contents@.skip(start as int);
            let mut end: usize = start;
            while end < n && contents.get_char(end) != '\n'
                invariant
                    contents@.len() == n,
                    start <= end <= n,
                    forall|j: int| start <= j < end ==> contents@[j] != '\n',
                decreases n - end,
            {
                end += 1;
            }
            let terminated = end < n;
            let line_hi = if terminated && end > start && contents.get_char(end - 1) == '\r' {
                end - 1
            } else {
                end
            };
            let ghost line = contents@.subrange(start as int, line_hi as int);
            proof {
                if terminated {
                    lemma_lines_split(suffix, end - start);
                    assert(suffix.take(end - start) =~= contents@.subrange(
                        start as int,
                        end as int,
                    ));
                    assert(spec_strip_cr(suffix.take(end - start)) =~= line);
                    assert(suffix.skip(end - start + 1) =~= contents@.skip(end + 1));
                } else {
                    assert(suffix =~= contents@.subrange(start as int, end as int));
                    lemma_lines_no_nl(suffix);
                    assert(line =~= suffix);
                }
            }
            if !first {
                r.append("\n");
            }
            let llen = line_hi - start;
            if llen >= 4 && contents.get_char(start) == '[' && contents.get_char(start + 1) == 'x'
                && contents.get_char(start + 2) == ']' && contents.get_char(start + 3) == ' ' {
                r.append("[] ");
                let rest = contents.substring_char(start + 4, line_hi);
                r.append(rest);
                proof {
                    reveal_strlit("[] ");
                    assert("[] "@ =~= spec_empty_prefix());
                    assert(line.take(4) =~= spec_checked_prefix());
                    assert(line.skip(4) =~= contents@.subrange(start + 4, line_hi as int));
                    assert(spec_uncheck_line(line) =~= spec_empty_prefix() + line.skip(4));
                }
            } else {
                let whole = contents.substring_char(start, line_hi);
                r.append(whole);
                proof {
                    if line.len() >= 4 && line.take(4) == spec_checked_prefix() {
                        assert(line[0] == '[' && line[1] == 'x' && line[2] == ']' && line[3]
                            == ' ');
                        assert(false);
                    }
                    assert(spec_uncheck_line(line) == line);
                }
            }
            proof {
                reveal_strlit("\n");
                assert("\n"@ =~= seq!['\n']);
                lemma_join_nl_snoc(done.map_values(f), spec_uncheck_line(line));
                assert(done.push(line).map_values(f) =~= done.map_values(f).push(
                    spec_uncheck_line(line),
                ));
                done = done.push(line);
            }
            first = false;
            start = if terminated {
                end + 1
            } else {
                n
            };
        }
        proof {
            assert(contents@.skip(n as int) =~= Seq::<char>::empty());
            lemma_lines_no_nl(contents@.skip(n as int));
            assert(done + spec_lines(contents@.skip(n as int)) =~= done);
            assert(done == spec_lines(contents@));
        }
        if n > 0 && contents.get_char(n - 1) == '\n' {
            r.append("\n");
            proof {
                reveal_strlit("\n");
                assert("\n"@ =~= seq!['\n']);
                assert(contents@.last() == '\n');
            }
        } else {
            proof {
                if contents@.len() > 0 {
                    assert(contents@.last() != '\n');
                }
            }
        }
        r
    }

    /// True when the parsed checkbox list of `contents` is non-empty and
    /// every entry is checked.
    pub fn all_passed(contents: &str) -> (r: bool)
        ensures
            r == spec_all_checked(spec_parse_checkboxes(contents@)),
    {
        let ghost entries = spec_parse_checkboxes(contents@);
        let cbs = Self::parse_checkboxes(contents);
        let mut all = true;
        let mut i: usize = 0;
        proof {
            assert(entries.len() == cbs@.len());
        }
        while i < cbs.len()
            invariant
                i <= cbs.len(),
                entries == spec_parse_checkboxes(contents@),
                view_entries(cbs@) == entries,
                entries.len() == cbs@.len(),
                all == (forall|j: int| 0 <= j < i ==> (#[trigger] entries[j]).1),
            decreases cbs.len() - i,
        {
            proof {
                assert(entries[i as int] == (cbs@[i as int].0@, cbs@[i as int].1));
            }
            if !cbs[i].1 {
                all = false;
            }
            i += 1;
        }
        cbs.len() > 0 && all
    }
}

/// Joining one more line appends a separator (unless it is the first line)
/// and the line itself.
pub proof fn lemma_join_nl_snoc(lines: Seq<Seq<char>>, l: Seq<char>)
    ensures
        spec_join_nl(lines.push(l)) == (if lines.len() == 0 {
            l
        } else {
            spec_join_nl(lines) + seq!['\n'] + l
        }),
    decreases lines.len(),
{
    let p = lines.push(l);
    if lines.len() == 0 {
        assert(p[0] == l);
        assert(spec_join_nl(p) == l);
    } else if lines.len() == 1 {
        assert(p.drop_first() =~= lines.drop_first().push(l));
        assert(lines.drop_first().push(l) =~= seq![l]);
        assert(spec_join_nl(p) == p[0] + seq!['\n'] + spec_join_nl(seq![l]));
        assert(spec_join_nl(seq![l]) == l);
        assert(spec_join_nl(lines) == lines[0]);
        assert(p[0] == lines[0]);
    } else {
        lemma_join_nl_snoc(lines.drop_first(), l);
        assert(p.drop_first() =~= lines.drop_first().push(l));
        assert(p[0] == lines[0]);
        assert(spec_join_nl(p) == p[0] + seq!['\n'] + spec_join_nl(lines.drop_first().push(l)));
        assert(spec_join_nl(lines) == lines[0] + seq!['\n'] + spec_join_nl(lines.drop_first()));
        assert(spec_join_nl(p) =~= spec_join_nl(lines) + seq!['\n'] + l);
    }
}

/// Raw segments never contain '\n'.
pub proof fn lemma_raw_lines_elements_no_nl(s: Seq<char>)
    ensures
        forall|i: int, j: int|
            0 <= i < spec_raw_lines(s).len() && 0 <= j < spec_raw_lines(s)[i].len()
                ==> #[trigger] spec_raw_lines(s)[i][j] != '\n',
    decreases s.len(),
{
    let raw = spec_raw_lines(s);
    if s.len() == 0 {
    } else if s[0] == '\n' {
        lemma_raw_lines_elements_no_nl(s.drop_first());
        assert forall|i: int, j: int|
            0 <= i < raw.len() && 0 <= j < raw[i].len() implies #[trigger] raw[i][j]
            != '\n' by {
            if i > 0 {
                assert(raw[i] == spec_raw_lines(s.drop_first())[i - 1]);
            }
        }
    } else {
        lemma_raw_lines_elements_no_nl(s.drop_first());
        let rest = spec_raw_lines(s.drop_first());
        lemma_raw_lines_nonempty(s.drop_first());
        assert forall|i: int, j: int|
            0 <= i < raw.len() && 0 <= j < raw[i].len() implies #[trigger] raw[i][j]
            != '\n' by {
            if i == 0 {
                assert(raw[0] == seq![s[0]] + rest[0]);
                if j > 0 {
                    assert(raw[0][j] == rest[0][j - 1]);
                }
            } else {
                assert(raw[i] == rest[i]);
            }
        }
    }
}

/// Lines never contain '\n'.
pub proof fn lemma_lines_elements_no_nl(s: Seq<char>)
    ensures
        forall|i: int, j: int|
            0 <= i < spec_lines(s).len() && 0 <= j < spec_lines(s)[i].len()
                ==> #[trigger] spec_lines(s)[i][j] != '\n',
{
    lemma_raw_lines_elements_no_nl(s);
    let raw = spec_raw_lines(s);
    let ls = spec_lines(s);
    assert forall|i: int, j: int|
        0 <= i < ls.len() && 0 <= j < ls[i].len() implies #[trigger] ls[i][j] != '\n' by {
        if i < raw.len() - 1 {
            assert(ls[i] == spec_strip_cr(raw[i]));
            assert(ls[i][j] == raw[i][j]);
        } else {
            assert(ls[i] == raw.last());
            assert(ls[i][j] == raw[raw.len() - 1][j]);
        }
    }
}

/// A string ending in '\n' has an empty final raw segment.
pub proof fn lemma_raw_last_terminated(s: Seq<char>)
    requires
        s.len() > 0,
        s.last() == '\n',
    ensures
        spec_raw_lines(s).len() >= 2,
        spec_raw_lines(s).last().len() == 0,
    decreases s.len(),
{
    if s.len() == 1 {
        assert(s[0] == '\n');
        assert(s.drop_first() =~= Seq::<char>::empty());
        assert(spec_raw_lines(s.drop_first()) == seq![Seq::<char>::empty()]);
        assert(spec_raw_lines(s) == seq![Seq::<char>::empty()] + seq![Seq::<char>::empty()]);
    } else {
        let s2 = s.drop_first();
        assert(s2.last() == s.last());
        lemma_raw_last_terminated(s2);
        let rest = spec_raw_lines(s2);
        if s[0] == '\n' {
            assert(spec_raw_lines(s).last() == rest.last());
        } else {
            assert(spec_raw_lines(s) == seq![seq![s[0]] + rest[0]] + rest.drop_first());
            assert(spec_raw_lines(s).last() == rest.drop_first().last());
            assert(rest.drop_first().last() == rest.last());
        }
    }
}

/// A non-empty string not ending in '\n' has a non-empty final raw segment.
pub proof fn lemma_raw_last_unterminated(s: Seq<char>)
    requires
        s.len() > 0,
        s.last() != '\n',
    ensures
        spec_raw_lines(s).last().len() > 0,
    decreases s.len(),
{
    if s.len() == 1 {
        assert(s[0] != '\n');
        let rest = spec_raw_lines(s.drop_first());
        assert(rest == seq![Seq::<char>::empty()]);
        assert(spec_raw_lines(s) == seq![seq![s[0]] + rest[0]] + rest.drop_first());
        assert(rest.drop_first() =~= Seq::<Seq<char>>::empty());
        assert(spec_raw_lines(s).last() == seq![s[0]] + rest[0]);
    } else {
        let s2 = s.drop_first();
        assert(s2.last() == s.last());
        lemma_raw_last_unterminated(s2);
        let rest = spec_raw_lines(s2);
        lemma_raw_lines_nonempty(s2);
        if s[0] == '\n' {
            assert(spec_raw_lines(s).last() == rest.last());
        } else {
            assert(spec_raw_lines(s) == seq![seq![s[0]] + rest[0]] + rest.drop_first());
            if rest.len() == 1 {
                assert(rest.drop_first() =~= Seq::<Seq<char>>::empty());
                assert(spec_raw_lines(s).last() == seq![s[0]] + rest[0]);
                assert(rest[0] == rest.last());
            } else {
                assert(spec_raw_lines(s).last() == rest.drop_first().last());
                assert(rest.drop_first().last() == rest.last());
            }
        }
    }
}

/// Re-splitting a '\n'-joined sequence of '\n'-free lines with a trailing
/// terminator gives back the lines, each with one trailing '\r' stripped.
pub proof fn lemma_lines_of_join_terminated(m: Seq<Seq<char>>)
    requires
        m.len() > 0,
        forall|i: int, j: int|
            0 <= i < m.len() && 0 <= j < m[i].len() ==> #[trigger] m[i][j] != '\n',
    ensures
        spec_lines(spec_join_nl(m) + seq!['\n']) == m.map_values(|l: Seq<char>| spec_strip_cr(l)),
    decreases m.len(),
{
    let f = |l: Seq<char>| spec_strip_cr(l);
    if m.len() == 1 {
        let u = spec_join_nl(m) + seq!['\n'];
        assert(spec_join_nl(m) == m[0]);
        assert(u.len() == m[0].len() + 1);
        assert(u[m[0].len() as int] == '\n');
        assert forall|j: int| 0 <= j < m[0].len() implies u[j] != '\n' by {
            assert(u[j] == m[0][j]);
        }
        lemma_lines_split(u, m[0].len() as int);
        assert(u.take(m[0].len() as int) =~= m[0]);
        assert(u.skip(m[0].len() as int + 1) =~= Seq::<char>::empty());
        lemma_lines_no_nl(u.skip(m[0].len() as int + 1));
        assert(spec_lines(u) =~= m.map_values(f));
    } else {
        lemma_lines_of_join_terminated(m.drop_first());
        let u = spec_join_nl(m) + seq!['\n'];
        let u2 = spec_join_nl(m.drop_first()) + seq!['\n'];
        assert(spec_join_nl(m) == m[0] + seq!['\n'] + spec_join_nl(m.drop_first()));
        assert(u =~= m[0] + seq!['\n'] + u2);
        assert(u[m[0].len() as int] == '\n');
        assert forall|j: int| 0 <= j < m[0].len() implies u[j] != '\n' by {
            assert(u[j] == m[0][j]);
        }
        lemma_lines_split(u, m[0].len() as int);
        assert(u.take(m[0].len() as int) =~= m[0]);
        assert(u.skip(m[0].len() as int + 1) =~= u2);
        assert(spec_lines(u) =~= m.map_values(f));
    }
}

/// Re-splitting a '\n'-joined sequence of '\n'-free lines without a trailing
/// terminator: every line but the last is stripped, the last is verbatim.
pub proof fn lemma_lines_of_join_unterminated(m: Seq<Seq<char>>)
    requires
        m.len() > 0,
        forall|i: int, j: int|
            0 <= i < m.len() && 0 <= j < m[i].len() ==> #[trigger] m[i][j] != '\n',
        m.last().len() > 0,
    ensures
        spec_lines(spec_join_nl(m)) == m.drop_last().map_values(|l: Seq<char>| spec_strip_cr(l))
            + seq![m.last()],
    decreases m.len(),
{
    let f = |l: Seq<char>| spec_strip_cr(l);
    if m.len() == 1 {
        assert(spec_join_nl(m) == m[0]);
        lemma_lines_no_nl(m[0]);
        assert(m.drop_last() =~= Seq::<Seq<char>>::empty());
        assert(m.drop_last().map_values(f) =~= Seq::<Seq<char>>::empty());
        assert(spec_lines(spec_join_nl(m)) =~= m.drop_last().map_values(f) + seq![m.last()]);
    } else {
        lemma_lines_of_join_unterminated(m.drop_first());
        let u = spec_join_nl(m);
        let u2 = spec_join_nl(m.drop_first());
        assert(u == m[0] + seq!['\n'] + u2);
        assert(u[m[0].len() as int] == '\n');
        assert forall|j: int| 0 <= j < m[0].len() implies u[j] != '\n' by {
            assert(u[j] == m[0][j]);
        }
        lemma_lines_split(u, m[0].len() as int);
        assert(u.take(m[0].len() as int) =~= m[0]);
        assert(u.skip(m[0].len() as int + 1) =~= u2);
        assert(m.drop_first().last() == m.last());
        assert(m.drop_first().drop_last() =~= m.drop_last().drop_first());
        assert(spec_lines(u) =~= m.drop_last().map_values(f) + seq![m.last()]);
    }
}

/// Appending one name to the checkbox block appends one `[] NAME\n` line.
pub proof fn lemma_box_lines_snoc(names: Seq<Seq<char>>, name: Seq<char>)
    ensures
        spec_box_lines(names.push(name)) == spec_box_lines(names) + spec_box_line(name),
    decreases names.len(),
{
    let p = names.push(name);
    if names.len() == 0 {
        assert(p[0] == name);
        assert(p.drop_first() =~= names);
        assert(spec_box_lines(names) == Seq::<char>::empty());
        assert(spec_box_lines(p) == spec_box_line(p[0]) + spec_box_lines(p.drop_first()));
        assert(spec_box_lines(p) =~= spec_box_lines(names) + spec_box_line(name));
    } else {
        lemma_box_lines_snoc(names.drop_first(), name);
        assert(p.drop_first() =~= names.drop_first().push(name));
        assert(p[0] == names[0]);
        assert(spec_box_lines(p) == spec_box_line(p[0]) + spec_box_lines(p.drop_first()));
        assert(spec_box_lines(names) == spec_box_line(names[0]) + spec_box_lines(
            names.drop_first(),
        ));
        assert(spec_box_lines(p) =~= spec_box_lines(names) + spec_box_line(name));
    }
}

// ---------------------------------------------------------------------------
// Laws
// ---------------------------------------------------------------------------

/// Exactly the bracket contents `x` mean checked: a line parses as a checked
/// checkbox if and only if it is `[x] ` followed by a non-empty name.
pub proof fn lemma_checked_exactly_x(l: Seq<char>)
    ensures
        (spec_parse_line(l) matches Some(e) && e.1) <==> (l.len() >= 5 && l.take(4)
            == spec_checked_prefix()),
{
}

/// A line that survives `spec_uncheck_line` never begins with `[x] `.
pub proof fn lemma_uncheck_line_not_checked(l: Seq<char>)
    ensures
        !(spec_uncheck_line(l).len() >= 4 && spec_uncheck_line(l).take(4)
            == spec_checked_prefix()),
{
    let u = spec_uncheck_line(l);
    if l.len() >= 4 && l.take(4) == spec_checked_prefix() {
        assert(u == spec_empty_prefix() + l.skip(4));
        assert(u[1] == ']');
        if u.len() >= 4 && u.take(4) == spec_checked_prefix() {
            assert(u.take(4)[1] == 'x');
            assert(false);
        }
    } else {
        assert(u == l);
        if u.len() >= 4 && u.take(4) == spec_checked_prefix() {
            assert(false);
        }
    }
}

/// Unchecking one line maps its parse result: a checkbox keeps its name and
/// becomes unchecked, a non-checkbox line stays a non-checkbox line.
pub proof fn lemma_parse_uncheck_line(l: Seq<char>)
    ensures
        spec_parse_line(spec_uncheck_line(l)) == (match spec_parse_line(l) {
            Some(e) => Some((e.0, false)),
            None => None,
        }),
{
    let u = spec_uncheck_line(l);
    if l.len() >= 4 && l.take(4) == spec_checked_prefix() {
        assert(u == spec_empty_prefix() + l.skip(4));
        assert(l[1] == 'x');
        assert(u[1] == ']');
        assert(u.len() == l.len() - 1);
        if l.len() >= 5 {
            assert(spec_parse_line(l) == Some((l.skip(4), true)));
            assert(u.len() >= 4);
            assert(u.take(3) =~= spec_empty_prefix());
            assert(u.skip(3) =~= l.skip(4));
            if u.len() >= 5 {
                assert(u.take(4)[1] == u[1]);
                assert(u.take(4) != spec_checked_prefix());
                assert(u.take(4) != spec_space_prefix());
            }
            assert(spec_parse_line(u) == Some((l.skip(4), false)));
        } else {
            assert(l.len() == 4);
            assert(l.take(3)[1] == 'x');
            assert(l.take(3) != spec_empty_prefix());
            assert(spec_parse_line(l) is None);
            assert(u.len() == 3);
            assert(spec_parse_line(u) is None);
        }
    } else {
        assert(u == l);
        if l.len() >= 5 && l.take(4) == spec_checked_prefix() {
            assert(false);
        }
    }
}

/// Parsing after unchecking every line: same entries, all unchecked.
pub proof fn lemma_parse_uncheck_lines(ls: Seq<Seq<char>>)
    ensures
        spec_parse_lines(ls.map_values(|l: Seq<char>| spec_uncheck_line(l)))
            == spec_parse_lines(ls).map_values(|e: (Seq<char>, bool)| (e.0, false)),
    decreases ls.len(),
{
    let f = |l: Seq<char>| spec_uncheck_line(l);
    let g = |e: (Seq<char>, bool)| (e.0, false);
    if ls.len() == 0 {
        assert(ls.map_values(f) =~= Seq::<Seq<char>>::empty());
        assert(spec_parse_lines(ls).map_values(g) =~= Seq::<(Seq<char>, bool)>::empty());
    } else {
        lemma_parse_uncheck_lines(ls.drop_first());
        lemma_parse_uncheck_line(ls[0]);
        let m = ls.map_values(f);
        assert(m[0] == spec_uncheck_line(ls[0]));
        assert(m.drop_first() =~= ls.drop_first().map_values(f));
        match spec_parse_line(ls[0]) {
            Some(e) => {
                assert(spec_parse_line(m[0]) == Some((e.0, false)));
                assert(spec_parse_lines(m) == seq![(e.0, false)] + spec_parse_lines(
                    m.drop_first(),
                ));
                assert(spec_parse_lines(ls) == seq![e] + spec_parse_lines(ls.drop_first()));
                assert(spec_parse_lines(ls).map_values(g) =~= seq![(e.0, false)]
                    + spec_parse_lines(ls.drop_first()).map_values(g));
                assert(spec_parse_lines(m) =~= spec_parse_lines(ls).map_values(g));
            },
            None => {
                assert(spec_parse_line(m[0]) is None);
                assert(spec_parse_lines(m) == spec_parse_lines(m.drop_first()));
                assert(spec_parse_lines(ls) == spec_parse_lines(ls.drop_first()));
            },
        }
    }
}

/// A well-formed line for the reset law: a line that begins with `[x] `
/// really is a checkbox line (it has a name), and no line ends in '\r'
/// (line reading would strip it, so it cannot be preserved verbatim).
pub open spec fn spec_line_ok(l: Seq<char>) -> bool {
    &&& (l.len() >= 4 && l.take(4) == spec_checked_prefix() ==> l.len() >= 5)
    &&& (l.len() > 0 ==> l.last() != '\r')
}

/// The unchecked image of the lines of `s`, shared by the reset-law proofs.
pub proof fn lemma_uncheck_lines_shape(s: Seq<char>)
    ensures
        s.len() == 0 ==> spec_lines(spec_uncheck(s)) == Seq::<Seq<char>>::empty()
            && spec_lines(s) == Seq::<Seq<char>>::empty(),
        s.len() > 0 && s.last() == '\n' ==> spec_lines(spec_uncheck(s)) == spec_lines(
            s,
        ).map_values(|l: Seq<char>| spec_uncheck_line(l)).map_values(
            |l: Seq<char>| spec_strip_cr(l),
        ),
        s.len() > 0 && s.last() != '\n' ==> {
            let m = spec_lines(s).map_values(|l: Seq<char>| spec_uncheck_line(l));
            spec_lines(spec_uncheck(s)) == m.drop_last().map_values(
                |l: Seq<char>| spec_strip_cr(l),
            ) + seq![m.last()]
        },
{
    let f = |l: Seq<char>| spec_uncheck_line(l);
    let ls = spec_lines(s);
    let m = ls.map_values(f);
    let raw = spec_raw_lines(s);
    lemma_lines_elements_no_nl(s);
    assert forall|i: int, j: int| 0 <= i < m.len() && 0 <= j < m[i].len() implies #[trigger] m[i][j]
        != '\n' by {
        assert(m[i] == f(ls[i]));
        let l = ls[i];
        if l.len() >= 4 && l.take(4) == spec_checked_prefix() {
            assert(m[i] == spec_empty_prefix() + l.skip(4));
            if j < 3 {
                assert(m[i][j] == spec_empty_prefix()[j]);
            } else {
                assert(m[i][j] == l[j + 1]);
            }
        } else {
            assert(m[i] == l);
        }
    }
    if s.len() == 0 {
        assert(raw == seq![Seq::<char>::empty()]);
        assert(raw.drop_last() =~= Seq::<Seq<char>>::empty());
        assert(raw.drop_last().map_values(|l: Seq<char>| spec_strip_cr(l)) =~= Seq::<
            Seq<char>,
        >::empty());
        assert(ls =~= Seq::<Seq<char>>::empty());
        assert(m =~= Seq::<Seq<char>>::empty());
        assert(spec_uncheck(s) == spec_join_nl(m));
        assert(spec_uncheck(s) =~= Seq::<char>::empty());
        assert(spec_raw_lines(spec_uncheck(s)) == seq![Seq::<char>::empty()]);
        assert(spec_raw_lines(spec_uncheck(s)).drop_last() =~= Seq::<Seq<char>>::empty());
        assert(spec_raw_lines(spec_uncheck(s)).drop_last().map_values(
            |l: Seq<char>| spec_strip_cr(l),
        ) =~= Seq::<Seq<char>>::empty());
        assert(spec_lines(spec_uncheck(s)) =~= Seq::<Seq<char>>::empty());
    } else if s.last() == '\n' {
        lemma_raw_last_terminated(s);
        assert(ls == raw.drop_last().map_values(|l: Seq<char>| spec_strip_cr(l)));
        assert(ls.len() == raw.len() - 1);
        assert(m.len() >= 1);
        assert(spec_uncheck(s) == spec_join_nl(m) + seq!['\n']);
        lemma_lines_of_join_terminated(m);
    } else {
        lemma_raw_last_unterminated(s);
        assert(ls == raw.drop_last().map_values(|l: Seq<char>| spec_strip_cr(l)) + seq![
            raw.last()
        ]);
        assert(ls.len() >= 1);
        assert(ls.last() == raw.last());
        assert(ls.last().len() > 0);
        assert(m.last() == f(ls.last()));
        let l = ls.last();
        if l.len() >= 4 && l.take(4) == spec_checked_prefix() {
            assert(m.last() == spec_empty_prefix() + l.skip(4));
            assert(m.last().len() > 0);
        } else {
            assert(m.last() == l);
        }
        assert(spec_uncheck(s) == spec_join_nl(m));
        lemma_lines_of_join_unterminated(m);
    }
}

/// Reset law, first half, for every input: after `spec_uncheck`, no parsed
/// checkbox entry is checked.
pub proof fn lemma_uncheck_all_unchecked(s: Seq<char>)
    ensures
        forall|k: int|
            0 <= k < spec_parse_checkboxes(spec_uncheck(s)).len() ==> !(
            #[trigger] spec_parse_checkboxes(spec_uncheck(s))[k]).1,
{
    let f = |l: Seq<char>| spec_uncheck_line(l);
    let st = |l: Seq<char>| spec_strip_cr(l);
    let ls = spec_lines(s);
    let m = ls.map_values(f);
    let lu = spec_lines(spec_uncheck(s));
    lemma_uncheck_lines_shape(s);
    assert forall|i: int| 0 <= i < lu.len() implies !((#[trigger] lu[i]).len() >= 5 && lu[i].take(
        4,
    ) == spec_checked_prefix()) by {
        if s.len() > 0 && s.last() == '\n' {
            assert(lu[i] == st(m[i]));
        } else if s.len() > 0 {
            if i < lu.len() - 1 {
                assert(lu[i] == st(m.drop_last()[i]));
                assert(m.drop_last()[i] == m[i]);
            } else {
                assert(lu[i] == m.last());
            }
        }
        if s.len() > 0 {
            let mi = m[i];
            assert(mi == f(ls[i]));
            lemma_uncheck_line_not_checked(ls[i]);
            if lu[i] == mi {
                assert(!(lu[i].len() >= 5 && lu[i].take(4) == spec_checked_prefix()));
            } else {
                assert(lu[i] == spec_strip_cr(mi));
                if lu[i].len() >= 5 {
                    assert(lu[i] == mi.drop_last());
                    assert(lu[i].take(4) =~= mi.take(4));
                    assert(!(lu[i].take(4) == spec_checked_prefix()));
                }
            }
        }
    }
    lemma_parse_lines_all_unchecked(lu);
}

/// Reset law, second half, for files whose lines are well formed: unchecking
/// maps every line through `spec_uncheck_line`, so checkbox entries keep
/// their names (now unchecked) and every other line is preserved verbatim.
pub proof fn lemma_uncheck_reset(s: Seq<char>)
    requires
        forall|i: int|
            0 <= i < spec_lines(s).len() ==> spec_line_ok(#[trigger] spec_lines(s)[i]),
    ensures
        spec_lines(spec_uncheck(s)) == spec_lines(s).map_values(
            |l: Seq<char>| spec_uncheck_line(l),
        ),
        spec_parse_checkboxes(spec_uncheck(s)) == spec_parse_checkboxes(s).map_values(
            |e: (Seq<char>, bool)| (e.0, false),
        ),
        forall|i: int|
            0 <= i < spec_lines(s).len() && spec_parse_line(#[trigger] spec_lines(s)[i]) is None
                ==> spec_lines(spec_uncheck(s))[i] == spec_lines(s)[i],
{
    let f = |l: Seq<char>| spec_uncheck_line(l);
    let st = |l: Seq<char>| spec_strip_cr(l);
    let ls = spec_lines(s);
    let m = ls.map_values(f);
    lemma_uncheck_lines_shape(s);
    assert forall|i: int| 0 <= i < m.len() implies st(#[trigger] m[i]) == m[i] by {
        assert(m[i] == f(ls[i]));
        let l = ls[i];
        if l.len() >= 4 && l.take(4) == spec_checked_prefix() {
            assert(l.len() >= 5);
            assert(m[i] == spec_empty_prefix() + l.skip(4));
            assert(m[i].len() == l.len() - 1);
            assert(m[i].last() == l.last());
        } else {
            assert(m[i] == l);
        }
    }
    if s.len() == 0 {
        assert(m =~= Seq::<Seq<char>>::empty());
        assert(spec_lines(spec_uncheck(s)) =~= m);
    } else if s.last() == '\n' {
        assert(spec_lines(spec_uncheck(s)) =~= m);
    } else {
        assert(spec_lines(spec_uncheck(s)) =~= m.drop_last().map_values(st) + seq![m.last()]);
        assert(spec_lines(spec_uncheck(s)) =~= m);
    }
    lemma_parse_uncheck_lines(ls);
    assert forall|i: int|
        0 <= i < ls.len() && spec_parse_line(#[trigger] ls[i]) is None implies spec_lines(
        spec_uncheck(s),
    )[i] == ls[i] by {
        let l = ls[i];
        assert(spec_lines(spec_uncheck(s))[i] == m[i]);
        assert(m[i] == f(l));
        if l.len() >= 4 && l.take(4) == spec_checked_prefix() {
            assert(l.len() >= 5);
            assert(spec_parse_line(l) is Some);
            assert(false);
        }
        assert(m[i] == l);
    }
}

/// Initial-state law: parsing the canonical initial contents yields exactly
/// one unchecked entry per verifier name, in order, provided the names fit
/// the grammar and no line of the prompt looks like a checkbox.
pub proof fn lemma_initial_contents_parse(names: Seq<Seq<char>>, prompt: Seq<char>)
    requires
        forall|i: int| 0 <= i < names.len() ==> spec_valid_name(#[trigger] names[i]),
        spec_parse_checkboxes(prompt + seq!['\n']) == Seq::<(Seq<char>, bool)>::empty(),
    ensures
        spec_parse_checkboxes(spec_initial_contents(names, prompt)) == names.map_values(
            |n: Seq<char>| (n, false),
        ),
    decreases names.len(),
{
    let c = spec_initial_contents(names, prompt);
    let g = |n: Seq<char>| (n, false);
    if names.len() == 0 {
        assert(spec_box_lines(names) == Seq::<char>::empty());
        assert(c =~= seq!['\n'] + (prompt + seq!['\n']));
        assert(c[0] == '\n');
        lemma_lines_split(c, 0);
        let e0 = c.take(0);
        assert(e0 =~= Seq::<char>::empty());
        assert(spec_strip_cr(e0) == e0);
        assert(c.skip(1) =~= prompt + seq!['\n']);
        lemma_parse_lines_cons(e0, spec_lines(prompt + seq!['\n']));
        assert(spec_parse_line(e0) is None);
        assert(spec_parse_checkboxes(c) == spec_parse_checkboxes(prompt + seq!['\n']));
        assert(names.map_values(g) =~= Seq::<(Seq<char>, bool)>::empty());
    } else {
        let n0 = names[0];
        let rest = names.drop_first();
        let c2 = spec_initial_contents(rest, prompt);
        assert(spec_box_lines(names) == spec_box_line(n0) + spec_box_lines(rest));
        assert(c =~= spec_box_line(n0) + c2);
        let i0 = 3 + n0.len() as int;
        let line = spec_empty_prefix() + n0;
        assert(c.take(i0) =~= line);
        assert(spec_box_line(n0)[i0] == '\n');
        assert(c[i0] == spec_box_line(n0)[i0]);
        assert forall|j: int| 0 <= j < i0 implies c[j] != '\n' by {
            assert(c[j] == c.take(i0)[j]);
            assert(line[j] != '\n') by {
                if j >= 3 {
                    assert(line[j] == n0[j - 3]);
                } else {
                    assert(line[j] == spec_empty_prefix()[j]);
                }
            }
        }
        lemma_lines_split(c, i0);
        assert(line.last() == n0.last());
        assert(spec_strip_cr(line) == line);
        assert(c.skip(i0 + 1) =~= c2);
        lemma_parse_lines_cons(line, spec_lines(c2));
        assert(line.len() == 3 + n0.len());
        assert(line.take(3) =~= spec_empty_prefix());
        assert(line.skip(3) =~= n0);
        if line.len() >= 5 {
            assert(line.take(4)[1] == line[1]);
            assert(line[1] == ']');
            assert(line.take(4) != spec_checked_prefix());
            assert(line.take(4) != spec_space_prefix());
        }
        assert(spec_parse_line(line) == Some((n0, false)));
        assert forall|i: int| 0 <= i < rest.len() implies spec_valid_name(#[trigger] rest[i]) by {
            assert(rest[i] == names[i + 1]);
        }
        lemma_initial_contents_parse(rest, prompt);
        assert(spec_parse_checkboxes(c) == seq![(n0, false)] + rest.map_values(g));
        assert(names.map_values(g) =~= seq![(n0, false)] + rest.map_values(g));
    }
}

/// If no line begins like a checked checkbox, no parsed entry is checked.
pub proof fn lemma_parse_lines_all_unchecked(ls: Seq<Seq<char>>)
    requires
        forall|i: int|
            0 <= i < ls.len() ==> !((#[trigger] ls[i]).len() >= 5 && ls[i].take(4)
                == spec_checked_prefix()),
    ensures
        forall|k: int|
            0 <= k < spec_parse_lines(ls).len() ==> !(#[trigger] spec_parse_lines(ls)[k]).1,
    decreases ls.len(),
{
    if ls.len() == 0 {
    } else {
        assert(ls.drop_first() =~= ls.skip(1));
        let tail = ls.drop_first();
        assert forall|i: int| 0 <= i < tail.len() implies !((#[trigger] tail[i]).len() >= 5
            && tail[i].take(4) == spec_checked_prefix()) by {
            assert(tail[i] == ls[i + 1]);
        }
        lemma_parse_lines_all_unchecked(ls.drop_first());
        match spec_parse_line(ls[0]) {
            Some(e) => {
                assert(!e.1);
                let ps = seq![e] + spec_parse_lines(ls.drop_first());
                assert forall|k: int| 0 <= k < ps.len() implies !(#[trigger] ps[k]).1 by {
                    if k > 0 {
                        assert(ps[k] == spec_parse_lines(ls.drop_first())[k - 1]);
                    }
                }
            },
            None => {},
        }
    }
}

} // verus!
