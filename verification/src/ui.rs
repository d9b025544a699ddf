use vstd::prelude::*;
use vstd::string::*;
use crate::file_manager::{lemma_raw_lines_no_nl, lemma_raw_lines_split, spec_raw_lines};
use crate::text::{char_is_whitespace, is_whitespace_char};

verus! {

// ---------------------------------------------------------------------------
// Word wrapping
//
// These mirror the terminal's word wrapper (wrapping with trim disabled):
// text is wrapped into visual rows of at most `max_width` columns, breaking
// at whitespace where possible.  The widths of the produced rows drive the
// layout of the input fields and the cursor position.
// ---------------------------------------------------------------------------

/// The displayed column width of a character (0 for control characters).
pub uninterp spec fn char_display_width(c: char) -> int;

/// Relies on unicode_width's UnicodeWidthChar::width: the displayed width
/// of a character in columns per UAX #11, None for control characters
/// (taken as 0 here).  The crate's width tables only hold values up to 3.
#[verifier::external_body]
fn char_width(c: char) -> (w: usize)
    ensures
        w as int == char_display_width(c),
        w <= 3,
{
    unicode_width::UnicodeWidthChar::width(c).unwrap_or(0)
}

/// The wrapper state after some prefix of the line: the widths of the rows
/// already closed, the accumulated widths of the current row, the pending
/// word and whitespace run, and the queue of pending whitespace widths.
pub struct WrapState {
    pub rows: Seq<int>,
    pub line_width: int,
    pub word_width: int,
    pub whitespace_width: int,
    pub non_ws_prev: bool,
    pub pending_ws: Seq<int>,
    pub has_pending_word: bool,
}

pub open spec fn spec_wrap_init() -> WrapState {
    WrapState {
        rows: Seq::<int>::empty(),
        line_width: 0,
        word_width: 0,
        whitespace_width: 0,
        non_ws_prev: false,
        pending_ws: Seq::<int>::empty(),
        has_pending_word: false,
    }
}

/// Drop leading pending-whitespace widths that fit into `remaining`,
/// subtracting them from the accumulated whitespace width.
pub open spec fn spec_drop_fitting(pending: Seq<int>, ws: int, remaining: int) -> (Seq<int>, int)
    decreases pending.len(),
{
    if pending.len() > 0 && pending[0] <= remaining {
        spec_drop_fitting(pending.drop_first(), ws - pending[0], remaining - pending[0])
    } else {
        (pending, ws)
    }
}

pub open spec fn spec_wrap_add(st: WrapState, is_ws: bool, sym_w: int) -> WrapState {
    let st3 = if is_ws {
        WrapState {
            whitespace_width: st.whitespace_width + sym_w,
            pending_ws: st.pending_ws.push(sym_w),
            ..st
        }
    } else {
        WrapState { word_width: st.word_width + sym_w, has_pending_word: true, ..st }
    };
    WrapState { non_ws_prev: !is_ws, ..st3 }
}

/// One character of the wrapping pass.
pub open spec fn spec_wrap_step(st: WrapState, ch: char, m: int) -> WrapState {
    let is_ws = char_is_whitespace(ch);
    let sym_w = char_display_width(ch);
    if sym_w > m {
        st
    } else {
        let word_found = st.non_ws_prev && is_ws;
        let untrimmed_overflow = st.line_width == 0 && st.word_width + st.whitespace_width + sym_w
            > m;
        let st1 = if word_found || untrimmed_overflow {
            WrapState {
                line_width: st.line_width + st.whitespace_width + st.word_width,
                whitespace_width: 0,
                word_width: 0,
                pending_ws: Seq::<int>::empty(),
                has_pending_word: false,
                ..st
            }
        } else {
            st
        };
        let line_full = st1.line_width >= m;
        let pending_overflow = sym_w > 0 && st1.line_width + st1.whitespace_width + st1.word_width
            >= m;
        if line_full || pending_overflow {
            let remaining = if m >= st1.line_width {
                m - st1.line_width
            } else {
                0
            };
            let dropped = spec_drop_fitting(st1.pending_ws, st1.whitespace_width, remaining);
            let st2 = WrapState {
                rows: st1.rows.push(st1.line_width),
                line_width: 0,
                whitespace_width: dropped.1,
                pending_ws: dropped.0,
                ..st1
            };
            if is_ws && dropped.0.len() == 0 {
                WrapState { non_ws_prev: false, ..st2 }
            } else {
                spec_wrap_add(st2, is_ws, sym_w)
            }
        } else {
            spec_wrap_add(st1, is_ws, sym_w)
        }
    }
}

pub open spec fn spec_wrap_fold(line: Seq<char>, m: int) -> WrapState
    decreases line.len(),
{
    if line.len() == 0 {
        spec_wrap_init()
    } else {
        spec_wrap_step(spec_wrap_fold(line.drop_last(), m), line.last(), m)
    }
}

/// Close out the pass: an empty row for dangling whitespace, then the
/// final partial row, and at least one row in any case.
pub open spec fn spec_wrap_finalize(st: WrapState) -> Seq<int> {
    let r1 = if st.line_width == 0 && !st.has_pending_word && st.pending_ws.len() > 0 {
        st.rows.push(0)
    } else {
        st.rows
    };
    let fw = st.line_width + st.whitespace_width + st.word_width;
    let r2 = if fw > 0 || st.has_pending_word {
        r1.push(fw)
    } else {
        r1
    };
    if r2.len() == 0 {
        seq![0int]
    } else {
        r2
    }
}

/// The visual row widths of word-wrapping one '\n'-free line to `m`
/// columns.
pub open spec fn spec_word_wrap(line: Seq<char>, m: int) -> Seq<int> {
    if m == 0 {
        seq![0int]
    } else {
        spec_wrap_finalize(spec_wrap_fold(line, m))
    }
}

pub open spec fn spec_sum(s: Seq<int>) -> int
    decreases s.len(),
{
    if s.len() == 0 {
        0
    } else {
        s[0] + spec_sum(s.drop_first())
    }
}

/// The wrapper state invariant: the accumulated widths stay within a small
/// margin of the target width, and the pending queue sums to the
/// accumulated whitespace width.
pub open spec fn spec_wrap_inv(st: WrapState, m: int) -> bool {
    &&& 0 <= st.line_width <= m + 4
    &&& 0 <= st.word_width
    &&& 0 <= st.whitespace_width
    &&& st.whitespace_width + st.word_width <= m + 4
    &&& (st.line_width > 0 ==> st.line_width + st.whitespace_width + st.word_width <= m + 2)
    &&& spec_sum(st.pending_ws) == st.whitespace_width
    &&& forall|i: int| 0 <= i < st.pending_ws.len() ==> 0 <= #[trigger] st.pending_ws[i] <= 3
}

proof fn lemma_sum_nonneg(s: Seq<int>)
    requires
        forall|i: int| 0 <= i < s.len() ==> 0 <= #[trigger] s[i],
    ensures
        spec_sum(s) >= 0,
    decreases s.len(),
{
    if s.len() > 0 {
        let t = s.drop_first();
        assert forall|i: int| 0 <= i < t.len() implies 0 <= #[trigger] t[i] by {
            assert(t[i] == s[i + 1]);
        }
        lemma_sum_nonneg(t);
    }
}

proof fn lemma_sum_push(s: Seq<int>, x: int)
    ensures
        spec_sum(s.push(x)) == spec_sum(s) + x,
    decreases s.len(),
{
    let p = s.push(x);
    if s.len() == 0 {
        assert(p[0] == x);
        assert(p.drop_first() =~= Seq::<int>::empty());
        assert(spec_sum(p.drop_first()) == 0);
        assert(spec_sum(p) == p[0] + spec_sum(p.drop_first()));
        assert(spec_sum(s) == 0);
    } else {
        lemma_sum_push(s.drop_first(), x);
        assert(p.drop_first() =~= s.drop_first().push(x));
        assert(p[0] == s[0]);
        assert(spec_sum(p) == p[0] + spec_sum(p.drop_first()));
        assert(spec_sum(s) == s[0] + spec_sum(s.drop_first()));
    }
}

/// Dropping fitting whitespace keeps the queue/width relation and never
/// drives anything negative.
proof fn lemma_drop_fitting_inv(pending: Seq<int>, ws: int, remaining: int)
    requires
        spec_sum(pending) == ws,
        forall|i: int| 0 <= i < pending.len() ==> 0 <= #[trigger] pending[i] <= 3,
        0 <= remaining,
    ensures
        ({
            let d = spec_drop_fitting(pending, ws, remaining);
            &&& spec_sum(d.0) == d.1
            &&& 0 <= d.1 <= ws
            &&& forall|i: int| 0 <= i < d.0.len() ==> 0 <= #[trigger] d.0[i] <= 3
        }),
    decreases pending.len(),
{
    if pending.len() > 0 && pending[0] <= remaining {
        assert forall|i: int| 0 <= i < pending.drop_first().len() implies 0
            <= #[trigger] pending.drop_first()[i] <= 3 by {
            assert(pending.drop_first()[i] == pending[i + 1]);
        }
        lemma_sum_nonneg(pending.drop_first());
        lemma_drop_fitting_inv(pending.drop_first(), ws - pending[0], remaining - pending[0]);
    } else {
        lemma_sum_nonneg(pending);
    }
}

/// One wrapping step preserves the state invariant.
proof fn lemma_wrap_step_inv(st: WrapState, ch: char, m: int)
    requires
        spec_wrap_inv(st, m),
        m >= 1,
        0 <= char_display_width(ch) <= 3,
    ensures
        spec_wrap_inv(spec_wrap_step(st, ch, m), m),
{
    let is_ws = char_is_whitespace(ch);
    let sym_w = char_display_width(ch);
    if sym_w > m {
    } else {
        let word_found = st.non_ws_prev && is_ws;
        let untrimmed_overflow = st.line_width == 0 && st.word_width + st.whitespace_width + sym_w
            > m;
        let st1 = if word_found || untrimmed_overflow {
            WrapState {
                line_width: st.line_width + st.whitespace_width + st.word_width,
                whitespace_width: 0,
                word_width: 0,
                pending_ws: Seq::<int>::empty(),
                has_pending_word: false,
                ..st
            }
        } else {
            st
        };
        let line_full = st1.line_width >= m;
        let pending_overflow = sym_w > 0 && st1.line_width + st1.whitespace_width + st1.word_width
            >= m;
        if line_full || pending_overflow {
            let remaining = if m >= st1.line_width {
                m - st1.line_width
            } else {
                0
            };
            let dropped = spec_drop_fitting(st1.pending_ws, st1.whitespace_width, remaining);
            lemma_drop_fitting_inv(st1.pending_ws, st1.whitespace_width, remaining);
            let st2 = WrapState {
                rows: st1.rows.push(st1.line_width),
                line_width: 0,
                whitespace_width: dropped.1,
                pending_ws: dropped.0,
                ..st1
            };
            if is_ws && dropped.0.len() == 0 {
            } else {
                if is_ws {
                    lemma_sum_push(st2.pending_ws, sym_w);
                }
                assert(spec_wrap_inv(spec_wrap_add(st2, is_ws, sym_w), m));
            }
        } else {
            if is_ws {
                lemma_sum_push(st1.pending_ws, sym_w);
            }
            assert(spec_wrap_inv(spec_wrap_add(st1, is_ws, sym_w), m));
        }
    }
}

/// Each step closes at most one row.
proof fn lemma_wrap_fold_len(line: Seq<char>, m: int)
    ensures
        spec_wrap_fold(line, m).rows.len() <= line.len(),
    decreases line.len(),
{
    if line.len() > 0 {
        lemma_wrap_fold_len(line.drop_last(), m);
    }
}

/// A wrapped line yields at least one and at most `len + 2` rows.
pub proof fn lemma_word_wrap_len(line: Seq<char>, m: int)
    ensures
        1 <= spec_word_wrap(line, m).len() <= line.len() + 2,
{
    if m != 0 {
        lemma_wrap_fold_len(line, m);
    }
}

/// The view of a width list.
pub open spec fn view_widths(v: Seq<u16>) -> Seq<int> {
    v.map_values(|w: u16| w as int)
}

/// Compute the visual row widths produced by word-wrapping a single line
/// (no newlines) to `max_width` columns, with leading whitespace kept.
pub fn word_wrap_widths(line: &str, max_width: u16) -> (r: Vec<u16>)
    requires
        max_width <= 0xFFF0,
    ensures
        view_widths(r@) == spec_word_wrap(line@, max_width as int),
{
    let m: Ghost<int> = Ghost(max_width as int);
    if max_width == 0 {
        let mut r: Vec<u16> = Vec::new();
        r.push(0);
        proof {
            assert(view_widths(r@) =~= seq![0int]);
        }
        return r;
    }
    let n = line.unicode_len();
    let mut wrapped: Vec<u16> = Vec::new();
    let mut line_width: u16 = 0;
    let mut word_width: u16 = 0;
    let mut whitespace_width: u16 = 0;
    let mut non_ws_prev = false;
    let mut pending_ws: std::collections::VecDeque<u16> = std::collections::VecDeque::new();
    let mut has_pending_word = false;
    let ghost mut st = spec_wrap_init();
    let mut i: usize = 0;
    proof {
        assert(line@.take(0) =~= Seq::<char>::empty());
        assert(view_widths(wrapped@) =~= st.rows);
        assert(view_widths(pending_ws@) =~= st.pending_ws);
    }
    while i < n
        invariant
            line@.len() == n,
            i <= n,
            1 <= max_width <= 0xFFF0,
            m@ == max_width as int,
            st == spec_wrap_fold(line@.take(i as int), m@),
            spec_wrap_inv(st, m@),
            view_widths(wrapped@) == st.rows,
            line_width as int == st.line_width,
            word_width as int == st.word_width,
            whitespace_width as int == st.whitespace_width,
            non_ws_prev == st.non_ws_prev,
            view_widths(pending_ws@) == st.pending_ws,
            has_pending_word == st.has_pending_word,
        decreases n - i,
    {
        let ch = line.get_char(i);
        let is_ws = is_whitespace_char(ch);
        let w_us = char_width(ch);
        let sym_w: u16 = w_us as u16;
        let ghost st_next = spec_wrap_step(st, ch, m@);
        proof {
            lemma_wrap_step_inv(st, ch, m@);
            assert(line@.take(i + 1).drop_last() =~= line@.take(i as int));
            assert(line@.take(i + 1).last() == line@[i as int]);
            assert(st_next == spec_wrap_fold(line@.take(i + 1), m@));
        }
        if sym_w > max_width {
            proof {
                st = st_next;
            }
        } else {
            let word_found = non_ws_prev && is_ws;
            let untrimmed_overflow = line_width == 0 && (word_width + whitespace_width + sym_w
                > max_width);
            if word_found || untrimmed_overflow {
                line_width = line_width + whitespace_width + word_width;
                whitespace_width = 0;
                word_width = 0;
                pending_ws.clear();
                has_pending_word = false;
            }
            let ghost stc = (if st.non_ws_prev && char_is_whitespace(ch) || (st.line_width == 0
                && st.word_width + st.whitespace_width + char_display_width(ch) > m@) {
                WrapState {
                    line_width: st.line_width + st.whitespace_width + st.word_width,
                    whitespace_width: 0,
                    word_width: 0,
                    pending_ws: Seq::<int>::empty(),
                    has_pending_word: false,
                    ..st
                }
            } else {
                st
            });
            proof {
                assert(view_widths(pending_ws@) =~= stc.pending_ws);
                assert(line_width as int == stc.line_width);
                assert(word_width as int == stc.word_width);
                assert(whitespace_width as int == stc.whitespace_width);
            }
            let line_full = line_width >= max_width;
            let pending_overflow = sym_w > 0 && line_width + whitespace_width + word_width
                >= max_width;
            let mut skip_add = false;
            if line_full || pending_overflow {
                wrapped.push(line_width);
                let mut remaining: u16 = if max_width >= line_width {
                    max_width - line_width
                } else {
                    0
                };
                line_width = 0;
                let ghost p0 = stc.pending_ws;
                let ghost ws0 = stc.whitespace_width;
                let ghost rem0 = remaining as int;
                proof {
                    lemma_drop_fitting_inv(p0, ws0, rem0);
                }
                while pending_ws.len() > 0 && pending_ws[0] <= remaining
                    invariant
                        spec_drop_fitting(p0, ws0, rem0) == spec_drop_fitting(
                            view_widths(pending_ws@),
                            whitespace_width as int,
                            remaining as int,
                        ),
                        spec_sum(view_widths(pending_ws@)) == whitespace_width as int,
                        forall|k: int|
                            0 <= k < pending_ws@.len() ==> 0 <= #[trigger] view_widths(
                                pending_ws@,
                            )[k] <= 3,
                    decreases pending_ws@.len(),
                {
                    let w = pending_ws[0];
                    let ghost curp = view_widths(pending_ws@);
                    proof {
                        assert(curp[0] == w as int);
                        assert forall|k: int|
                            0 <= k < curp.drop_first().len() implies 0 <= #[trigger] curp.drop_first()[k] <= 3 by {
                            assert(curp.drop_first()[k] == curp[k + 1]);
                        }
                        lemma_sum_nonneg(curp.drop_first());
                        assert(spec_sum(curp) == w as int + spec_sum(curp.drop_first()));
                    }
                    whitespace_width = whitespace_width - w;
                    remaining = remaining - w;
                    pending_ws.pop_front();
                    proof {
                        assert(view_widths(pending_ws@) =~= curp.drop_first());
                    }
                }
                proof {
                    assert(spec_drop_fitting(
                        view_widths(pending_ws@),
                        whitespace_width as int,
                        remaining as int,
                    ) == (view_widths(pending_ws@), whitespace_width as int));
                }
                if is_ws && pending_ws.len() == 0 {
                    non_ws_prev = false;
                    skip_add = true;
                }
            }
            if !skip_add {
                if is_ws {
                    whitespace_width = whitespace_width + sym_w;
                    pending_ws.push_back(sym_w);
                    proof {
                        lemma_sum_push(view_widths(pending_ws@).drop_last(), sym_w as int);
                    }
                } else {
                    word_width = word_width + sym_w;
                    has_pending_word = true;
                }
                non_ws_prev = !is_ws;
            }
            proof {
                st = st_next;
                assert(view_widths(wrapped@) =~= st.rows);
                assert(view_widths(pending_ws@) =~= st.pending_ws);
            }
        }
        i += 1;
    }
    proof {
        assert(line@.take(n as int) =~= line@);
    }
    if line_width == 0 && !has_pending_word && pending_ws.len() > 0 {
        wrapped.push(0);
    }
    let final_width = line_width + whitespace_width + word_width;
    if final_width > 0 || has_pending_word {
        wrapped.push(final_width);
    }
    if wrapped.len() == 0 {
        wrapped.push(0);
    }
    proof {
        assert(view_widths(wrapped@) =~= spec_word_wrap(line@, m@));
    }
    wrapped
}

// ---------------------------------------------------------------------------
// Row counts and cursor position over whole texts
// ---------------------------------------------------------------------------

/// Total visual rows of a sequence of natural lines.
pub open spec fn spec_rows_of(lines: Seq<Seq<char>>, m: int) -> int
    decreases lines.len(),
{
    if lines.len() == 0 {
        0
    } else {
        spec_word_wrap(lines[0], m).len() + spec_rows_of(lines.drop_first(), m)
    }
}

/// Total visual rows after word-wrapping `text`, split at every '\n'.
pub open spec fn spec_wrapped_rows(text: Seq<char>, m: int) -> int {
    spec_rows_of(spec_raw_lines(text), m)
}

/// The cursor position at the end of wrapped text: the width of the last
/// visual row, and the number of rows above it.
pub open spec fn spec_cursor_pos(text: Seq<char>, m: int) -> (int, int) {
    if m == 0 {
        (0, 0)
    } else {
        let ls = spec_raw_lines(text);
        let wl = spec_word_wrap(ls.last(), m);
        (wl.last(), spec_rows_of(ls.drop_last(), m) + wl.len() - 1)
    }
}

proof fn lemma_rows_of_snoc(ls: Seq<Seq<char>>, l: Seq<char>, m: int)
    ensures
        spec_rows_of(ls.push(l), m) == spec_rows_of(ls, m) + spec_word_wrap(l, m).len(),
    decreases ls.len(),
{
    let p = ls.push(l);
    if ls.len() == 0 {
        assert(p[0] == l);
        assert(p.drop_first() =~= ls);
        assert(spec_rows_of(ls, m) == 0);
    } else {
        lemma_rows_of_snoc(ls.drop_first(), l, m);
        assert(p.drop_first() =~= ls.drop_first().push(l));
        assert(p[0] == ls[0]);
    }
}

/// Count the total visual rows of `text` wrapped to `max_width` columns.
pub fn wrapped_row_count(text: &str, max_width: u16) -> (r: u16)
    requires
        max_width <= 0xFFF0,
        text@.len() <= 16000,
    ensures
        r as int == spec_wrapped_rows(text@, max_width as int),
{
    let m: Ghost<int> = Ghost(max_width as int);
    let n = text.unicode_len();
    let mut total: u16 = 0;
    let mut start: usize = 0;
    let mut more = true;
    let ghost mut done: Seq<Seq<char>> = Seq::empty();
    proof {
        assert(text@.skip(0) =~= text@);
        assert(done + spec_raw_lines(text@) =~= spec_raw_lines(text@));
        assert(spec_rows_of(done, m@) == 0);
    }
    while more
        invariant
            text@.len() == n,
            n <= 16000,
            start <= n,
            max_width <= 0xFFF0,
            m@ == max_width as int,
            total as int == spec_rows_of(done, m@),
            more ==> spec_raw_lines(text@) == done + spec_raw_lines(text@.skip(start as int)),
            more ==> total <= 3 * start + 2,
            !more ==> done == spec_raw_lines(text@),
        decreases n - start + (if more {
            1int
        } else {
            0int
        }),
    {
        let ghost suffix = text@.skip(start as int);
        let mut end: usize = start;
        while end < n && text.get_char(end) != '\n'
            invariant
                text@.len() == n,
                start <= end <= n,
                forall|j: int| start <= j < end ==> text@[j] != '\n',
            decreases n - end,
        {
            end += 1;
        }
        let ghost seg = text@.subrange(start as int, end as int);
        proof {
            if end < n {
                lemma_raw_lines_split(suffix, end - start);
                assert(suffix.take(end - start) =~= seg);
                assert(suffix.skip(end - start + 1) =~= text@.skip(end + 1));
            } else {
                assert(suffix =~= seg);
                lemma_raw_lines_no_nl(suffix);
            }
            lemma_rows_of_snoc(done, seg, m@);
            lemma_word_wrap_len(seg, m@);
        }
        let piece = text.substring_char(start, end);
        let widths = word_wrap_widths(piece, max_width);
        proof {
            assert(view_widths(widths@).len() == widths@.len());
        }
        total = total + (widths.len() as u16);
        proof {
            done = done.push(seg);
            assert(done + spec_raw_lines(text@.skip(end + 1)) =~= done.drop_last()
                + (seq![seg] + spec_raw_lines(text@.skip(end + 1))));
        }
        if end < n {
            start = end + 1;
        } else {
            more = false;
            proof {
                assert(done =~= done.drop_last() + seq![seg]);
                assert(spec_raw_lines(text@) =~= done);
            }
        }
    }
    total
}

/// The cursor position at the end of `text` wrapped to `max_width`
/// columns: the column after the last character, and the row it sits on.
pub fn cursor_pos_wrapped(text: &str, max_width: u16) -> (pos: (u16, u16))
    requires
        max_width <= 0xFFF0,
        text@.len() <= 16000,
    ensures
        pos.0 as int == spec_cursor_pos(text@, max_width as int).0,
        pos.1 as int == spec_cursor_pos(text@, max_width as int).1,
{
    let m: Ghost<int> = Ghost(max_width as int);
    if max_width == 0 {
        return (0, 0);
    }
    let n = text.unicode_len();
    let mut total: u16 = 0;
    let mut start: usize = 0;
    let ghost mut done: Seq<Seq<char>> = Seq::empty();
    proof {
        assert(text@.skip(0) =~= text@);
        assert(done + spec_raw_lines(text@) =~= spec_raw_lines(text@));
        assert(spec_rows_of(done, m@) == 0);
    }
    loop
        invariant
            text@.len() == n,
            n <= 16000,
            start <= n,
            1 <= max_width <= 0xFFF0,
            m@ == max_width as int,
            total as int == spec_rows_of(done, m@),
            spec_raw_lines(text@) == done + spec_raw_lines(text@.skip(start as int)),
            total <= 3 * start + 2,
        decreases n - start,
    {
        let ghost suffix = text@.skip(start as int);
        let mut end: usize = start;
        while end < n && text.get_char(end) != '\n'
            invariant
                text@.len() == n,
                start <= end <= n,
                forall|j: int| start <= j < end ==> text@[j] != '\n',
            decreases n - end,
        {
            end += 1;
        }
        let ghost seg = text@.subrange(start as int, end as int);
        proof {
            if end < n {
                lemma_raw_lines_split(suffix, end - start);
                assert(suffix.take(end - start) =~= seg);
                assert(suffix.skip(end - start + 1) =~= text@.skip(end + 1));
            } else {
                assert(suffix =~= seg);
                lemma_raw_lines_no_nl(suffix);
            }
            lemma_rows_of_snoc(done, seg, m@);
            lemma_word_wrap_len(seg, m@);
        }
        let piece = text.substring_char(start, end);
        let widths = word_wrap_widths(piece, max_width);
        if end < n {
            total = total + (widths.len() as u16);
            proof {
                done = done.push(seg);
                assert(done + spec_raw_lines(text@.skip(end + 1)) =~= done.drop_last()
                    + (seq![seg] + spec_raw_lines(text@.skip(end + 1))));
            }
            start = end + 1;
        } else {
            total = total + ((widths.len() - 1) as u16);
            let last_width = widths[widths.len() - 1];
            proof {
                assert(spec_raw_lines(text@) =~= done + seq![seg]);
                assert(spec_raw_lines(text@).last() == seg);
                assert(spec_raw_lines(text@).drop_last() =~= done);
                assert(view_widths(widths@)[widths@.len() - 1] == last_width as int);
            }
            return (last_width, total);
        }
    }
}

} // verus!
