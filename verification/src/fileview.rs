//! The file viewer: a path, the terminal size, a scroll position, and the
//! verified text formatter that numbers, wraps and windows file content.

use vstd::prelude::*;

use crate::numfmt::dec_seq;
use crate::numfmt::u64_to_string;

verus! {

/// The viewer's state. The host reads the file and the terminal size; the
/// formatting of what is shown is computed and verified here.
pub struct Fileview {
    /// The absolute path of the viewed file.
    pub path: String,
    /// The terminal's (columns, rows).
    pub terminal_size: (u16, u16),
    /// The 1-based number of the first display row shown.
    pub start_number: usize,
}

impl Fileview {
    /// The scroll position is 1-based.
    pub open spec fn wf(&self) -> bool {
        self.start_number >= 1
    }

    /// A viewer with no path, no known terminal size, and the scroll at
    /// the top.
    pub fn new() -> (r: Self)
        ensures
            r.path@ == Seq::<char>::empty(),
            r.terminal_size == (0u16, 0u16),
            r.start_number == 1,
            r.wf(),
    {
        Fileview { path: String::new(), terminal_size: (0, 0), start_number: 1 }
    }

    /// Scrolls back to the top.
    pub fn start_number_rezero(&mut self)
        ensures
            final(self).start_number == 1,
            final(self).path == old(self).path,
            final(self).terminal_size == old(self).terminal_size,
            final(self).wf(),
    {
        self.start_number = 1;
    }

    /// Scrolls one row up, stopping at the top.
    pub fn start_number_up(&mut self)
        requires
            old(self).wf(),
        ensures
            old(self).start_number > 1 ==> final(self).start_number == old(self).start_number - 1,
            old(self).start_number <= 1 ==> final(self).start_number == old(self).start_number,
            final(self).path == old(self).path,
            final(self).terminal_size == old(self).terminal_size,
            final(self).wf(),
    {
        if self.start_number > 1 {
            self.start_number = self.start_number - 1;
        }
    }

    /// Scrolls one row down; at the machine limit the position stays.
    pub fn start_number_down(&mut self)
        requires
            old(self).wf(),
        ensures
            old(self).start_number < usize::MAX ==> final(self).start_number == old(
                self,
            ).start_number + 1,
            old(self).start_number == usize::MAX ==> final(self).start_number == old(
                self,
            ).start_number,
            final(self).path == old(self).path,
            final(self).terminal_size == old(self).terminal_size,
            final(self).wf(),
    {
        if self.start_number < usize::MAX {
            self.start_number = self.start_number + 1;
        }
    }

    /// Points the viewer at a file.
    pub fn set_path(&mut self, path: &str)
        ensures
            final(self).path@ == path@,
            final(self).terminal_size == old(self).terminal_size,
            final(self).start_number == old(self).start_number,
    {
        self.path = path.to_owned();
    }

    /// Records the terminal's current size.
    pub fn refresh_termainal_size(&mut self, size: (u16, u16))
        ensures
            final(self).terminal_size == size,
            final(self).path == old(self).path,
            final(self).start_number == old(self).start_number,
    {
        self.terminal_size = size;
    }

    /// The viewed file's path as text.
    pub fn get_path_str(&self) -> (r: String)
        ensures
            r@ == self.path@,
    {
        self.path.clone()
    }

    /// Formats file content for display: each line is numbered, rows wider
    /// than the terminal are wrapped with an indented continuation, and the
    /// rows before the scroll position are dropped.
    pub fn str_display_format(&self, content: &str) -> (r: String)
        requires
            self.wf(),
        ensures
            r@ == display_format_of(content@, self.terminal_size.0, self.start_number as nat),
    {
        let limit = limit_of_width(self.terminal_size.0);
        let lines = split_lines(content);
        let mut rows: Vec<String> = Vec::new();
        let mut j: usize = 0;
        while j < lines.len()
            invariant
                j <= lines@.len(),
                limit == limit_of(self.terminal_size.0),
                limit >= 8,
                views_of(rows@) == rows_from(views_of(lines@).take(j as int), 1, limit as nat),
            decreases lines@.len() - j,
        {
            proof {
                lemma_rows_from_snoc(views_of(lines@).take(j as int), 1, limit as nat, lines@[
                    j as int]@);
                assert(views_of(lines@).take(j + 1 as int) =~= views_of(lines@).take(
                    j as int,
                ).push(lines@[j as int]@));
            }
            let numbered = numbered_line_string(j + 1, &lines[j]);
            chunk_into(&numbered, limit, &mut rows);
            j += 1;
        }
        proof {
            assert(views_of(lines@).take(lines@.len() as int) =~= views_of(lines@));
        }
        let from = if self.start_number - 1 <= rows.len() {
            self.start_number - 1
        } else {
            rows.len()
        };
        join_rows_from(&rows, from)
    }
}

/// The sequence of views of a list of strings.
pub open spec fn views_of(v: Seq<String>) -> Seq<Seq<char>> {
    v.map_values(|s: String| s@)
}

/// The index of the first line break in `s`, or -1 when there is none.
pub open spec fn first_nl(s: Seq<char>) -> int
    decreases s.len(),
{
    if s.len() == 0 {
        -1
    } else if s[0] == '\n' {
        0
    } else {
        let r = first_nl(s.drop_first());
        if r < 0 {
            -1
        } else {
            r + 1
        }
    }
}

/// The lines of a text: the pieces between line breaks, with no extra
/// empty line after a trailing break.
pub open spec fn lines_of(s: Seq<char>) -> Seq<Seq<char>>
    decreases s.len(),
{
    if s.len() == 0 {
        Seq::<Seq<char>>::empty()
    } else {
        let k = first_nl(s);
        if k < 0 || k >= s.len() {
            seq![s]
        } else {
            seq![s.take(k)] + lines_of(s.skip(k + 1))
        }
    }
}

/// A line break at `k` with none before it is the first line break.
proof fn lemma_first_nl_at(s: Seq<char>, k: int)
    requires
        0 <= k < s.len(),
        s[k] == '\n',
        forall|j: int| 0 <= j < k ==> s[j] != '\n',
    ensures
        first_nl(s) == k,
    decreases s.len(),
{
    if k > 0 {
        assert(forall|j: int| 0 <= j < k - 1 ==> s.drop_first()[j] != '\n');
        lemma_first_nl_at(s.drop_first(), k - 1);
    }
}

/// Without a line break there is no first line break.
proof fn lemma_first_nl_none(s: Seq<char>)
    requires
        forall|j: int| 0 <= j < s.len() ==> s[j] != '\n',
    ensures
        first_nl(s) < 0,
    decreases s.len(),
{
    if s.len() > 0 {
        assert(forall|j: int| 0 <= j < s.drop_first().len() ==> s.drop_first()[j] != '\n');
        lemma_first_nl_none(s.drop_first());
    }
}

/// Splitting starts with the piece ahead of the first line break.
proof fn lemma_lines_step(t: Seq<char>, rest: Seq<char>)
    requires
        forall|j: int| 0 <= j < t.len() ==> t[j] != '\n',
    ensures
        lines_of(t + seq!['\n'] + rest) == seq![t] + lines_of(rest),
{
    let s = t + seq!['\n'] + rest;
    assert(s[t.len() as int] == '\n');
    assert(forall|j: int| 0 <= j < t.len() ==> s[j] == t[j]);
    lemma_first_nl_at(s, t.len() as int);
    assert(s.take(t.len() as int) =~= t);
    assert(s.skip(t.len() + 1 as int) =~= rest);
}

/// A text without a line break is one line, or none when empty.
proof fn lemma_lines_rest(t: Seq<char>)
    requires
        forall|j: int| 0 <= j < t.len() ==> t[j] != '\n',
    ensures
        t.len() == 0 ==> lines_of(t) == Seq::<Seq<char>>::empty(),
        t.len() > 0 ==> lines_of(t) == seq![t],
{
    if t.len() > 0 {
        lemma_first_nl_none(t);
    }
}

/// Splits a text into its lines.
pub fn split_lines(content: &str) -> (r: Vec<String>)
    ensures
        views_of(r@) == lines_of(content@),
{
    let n = content.unicode_len();
    let mut r: Vec<String> = Vec::new();
    let mut st: usize = 0;
    let mut i: usize = 0;
    proof {
        assert(content@.skip(0) =~= content@);
        assert(views_of(r@) =~= Seq::<Seq<char>>::empty());
    }
    while i < n
        invariant
            n == content@.len(),
            st <= i <= n,
            forall|j: int| st <= j < i ==> content@[j] != '\n',
            lines_of(content@) == views_of(r@) + lines_of(content@.skip(st as int)),
        decreases n - i,
    {
        if content.get_char(i) == '\n' {
            let piece = content.substring_char(st, i).to_owned();
            proof {
                let t = content@.subrange(st as int, i as int);
                let rest = content@.skip(i + 1 as int);
                assert(content@.skip(st as int) =~= t + seq!['\n'] + rest);
                lemma_lines_step(t, rest);
                assert(views_of(r@.push(piece)) =~= views_of(r@).push(t));
            }
            r.push(piece);
            st = i + 1;
        }
        i += 1;
    }
    proof {
        let t = content@.skip(st as int);
        assert(forall|j: int| 0 <= j < t.len() ==> t[j] != '\n');
        lemma_lines_rest(t);
    }
    if st < n {
        let piece = content.substring_char(st, n).to_owned();
        proof {
            let t = content@.skip(st as int);
            assert(content@.subrange(st as int, n as int) =~= t);
            assert(views_of(r@.push(piece)) =~= views_of(r@).push(t));
            assert(views_of(r@).push(t) =~= views_of(r@) + seq![t]);
        }
        r.push(piece);
    }
    r
}

/// A line number padded to at least three columns.
pub open spec fn number_format_seq(n: nat) -> Seq<char> {
    dec_seq(n) + (if n < 10 {
        "  "@
    } else if n < 100 {
        " "@
    } else {
        Seq::<char>::empty()
    })
}

/// Renders a line number padded to at least three columns.
pub fn number_format(number: usize) -> (r: String)
    ensures
        r@ == number_format_seq(number as nat),
{
    let mut r = u64_to_string(number as u64);
    if number < 10 {
        r.append("  ");
    } else if number < 100 {
        r.append(" ");
    }
    proof {
        reveal_strlit("  ");
        reveal_strlit(" ");
        assert(r@ =~= number_format_seq(number as nat));
    }
    r
}

/// A display line: its number, a separator, and the line's text.
pub open spec fn numbered_line(num: nat, line: Seq<char>) -> Seq<char> {
    number_format_seq(num) + "|   "@ + line
}

/// Renders one numbered line.
fn numbered_line_string(num: usize, line: &String) -> (r: String)
    ensures
        r@ == numbered_line(num as nat, line@),
{
    let mut r = number_format(num);
    r.append("|   ");
    r.append(line.as_str());
    proof {
        reveal_strlit("|   ");
        assert(r@ =~= numbered_line(num as nat, line@));
    }
    r
}

/// The indent ahead of a wrapped row's continuation.
pub open spec fn cont_indent() -> Seq<char> {
    "       "@
}

/// The continuation rows of a wrapped line: indented pieces of at most
/// `step` characters each.
pub open spec fn cont_rows(s: Seq<char>, step: nat) -> Seq<Seq<char>>
    decreases s.len(),
{
    if step == 0 || s.len() <= step {
        seq![cont_indent() + s]
    } else {
        seq![cont_indent() + s.take(step as int)] + cont_rows(s.skip(step as int), step)
    }
}

/// The display rows of one line: within the width it is one row; a longer
/// line is cut at the width, the rest continuing on indented rows.
pub open spec fn chunk_rows(s: Seq<char>, limit: nat) -> Seq<Seq<char>> {
    if s.len() <= limit || limit < 8 {
        seq![s]
    } else {
        seq![s.take(limit as int)] + cont_rows(s.skip(limit as int), (limit - 7) as nat)
    }
}

/// Appends the display rows of one line.
fn chunk_into(s: &String, limit: usize, out: &mut Vec<String>)
    requires
        limit >= 8,
    ensures
        views_of(final(out)@) == views_of(old(out)@) + chunk_rows(s@, limit as nat),
{
    let n = s.as_str().unicode_len();
    if n <= limit {
        let whole = s.clone();
        proof {
            assert(views_of(out@.push(whole)) =~= views_of(out@) + chunk_rows(s@, limit as nat));
        }
        out.push(whole);
        return ;
    }
    let head = s.as_str().substring_char(0, limit).to_owned();
    proof {
        assert(s@.subrange(0, limit as int) =~= s@.take(limit as int));
        assert(views_of(out@.push(head)) =~= views_of(out@).push(s@.take(limit as int)));
    }
    out.push(head);
    let step = limit - 7;
    let mut pos: usize = limit;
    while step < n - pos
        invariant
            n == s@.len(),
            step == limit - 7,
            limit >= 8,
            limit <= pos < n,
            views_of(out@) + cont_rows(s@.skip(pos as int), step as nat) == views_of(old(out)@)
                + chunk_rows(s@, limit as nat),
        decreases n - pos,
    {
        let mut piece = String::from_str("       ");
        let part = s.as_str().substring_char(pos, pos + step);
        piece.append(part);
        proof {
            reveal_strlit("       ");
            let tail = s@.skip(pos as int);
            assert(s@.subrange(pos as int, pos + step as int) =~= tail.take(step as int));
            assert(piece@ =~= cont_indent() + tail.take(step as int));
            assert(tail.skip(step as int) =~= s@.skip(pos + step as int));
            assert(views_of(out@.push(piece)) =~= views_of(out@).push(piece@));
            assert(views_of(out@).push(piece@) + cont_rows(s@.skip(pos + step as int), step as nat)
                =~= views_of(out@) + cont_rows(tail, step as nat));
        }
        out.push(piece);
        pos = pos + step;
    }
    let mut piece = String::from_str("       ");
    let part = s.as_str().substring_char(pos, n);
    piece.append(part);
    proof {
        reveal_strlit("       ");
        let tail = s@.skip(pos as int);
        assert(s@.subrange(pos as int, n as int) =~= tail);
        assert(piece@ =~= cont_indent() + tail);
        assert(cont_rows(tail, step as nat) =~= seq![cont_indent() + tail]);
        assert(views_of(out@.push(piece)) =~= views_of(out@) + cont_rows(tail, step as nat));
    }
    out.push(piece);
}

/// The display rows of a list of lines numbered from `num` on.
pub open spec fn rows_from(ls: Seq<Seq<char>>, num: nat, limit: nat) -> Seq<Seq<char>>
    decreases ls.len(),
{
    if ls.len() == 0 {
        Seq::<Seq<char>>::empty()
    } else {
        chunk_rows(numbered_line(num, ls[0]), limit) + rows_from(ls.drop_first(), num + 1, limit)
    }
}

/// One more line appends its rows, numbered past the earlier lines.
proof fn lemma_rows_from_snoc(ls: Seq<Seq<char>>, num: nat, limit: nat, x: Seq<char>)
    ensures
        rows_from(ls.push(x), num, limit) == rows_from(ls, num, limit) + chunk_rows(
            numbered_line((num + ls.len()) as nat, x),
            limit,
        ),
    decreases ls.len(),
{
    if ls.len() == 0 {
        assert(ls.push(x)[0] == x);
        assert(ls.push(x).drop_first() =~= Seq::<Seq<char>>::empty());
        assert(rows_from(ls.push(x).drop_first(), (num + 1) as nat, limit)
            == Seq::<Seq<char>>::empty());
        assert(rows_from(ls, num, limit) == Seq::<Seq<char>>::empty());
        assert(rows_from(ls.push(x), num, limit) == chunk_rows(numbered_line(num, x), limit)
            + rows_from(ls.push(x).drop_first(), (num + 1) as nat, limit));
        assert(chunk_rows(numbered_line(num, x), limit) + Seq::<Seq<char>>::empty() =~= chunk_rows(
            numbered_line(num, x),
            limit,
        ));
    } else {
        assert(ls.push(x).drop_first() =~= ls.drop_first().push(x));
        assert(ls.push(x)[0] == ls[0]);
        lemma_rows_from_snoc(ls.drop_first(), (num + 1) as nat, limit, x);
        assert(rows_from(ls.push(x), num, limit) =~= rows_from(ls, num, limit) + chunk_rows(
            numbered_line((num + ls.len()) as nat, x),
            limit,
        ));
    }
}

/// The rows joined by line breaks.
pub open spec fn join_rows(rows: Seq<Seq<char>>) -> Seq<char>
    decreases rows.len(),
{
    if rows.len() == 0 {
        Seq::<char>::empty()
    } else if rows.len() == 1 {
        rows[0]
    } else {
        join_rows(rows.drop_last()) + seq!['\n'] + rows.last()
    }
}

/// Joins the rows from the given position on with line breaks.
fn join_rows_from(rows: &Vec<String>, from: usize) -> (r: String)
    requires
        from <= rows@.len(),
    ensures
        r@ == join_rows(views_of(rows@).skip(from as int)),
{
    let mut r = String::new();
    let mut i: usize = from;
    while i < rows.len()
        invariant
            from <= i <= rows@.len(),
            r@ == join_rows(views_of(rows@).skip(from as int).take(i - from as int)),
        decreases rows@.len() - i,
    {
        if i > from {
            r.append("\n");
        }
        r.append(rows[i].as_str());
        proof {
            reveal_strlit("\n");
            let sub = views_of(rows@).skip(from as int);
            assert(sub.take(i - from + 1 as int).drop_last() =~= sub.take(i - from as int));
            assert(sub.take(i - from + 1 as int).last() == rows@[i as int]@);
            if i > from {
                assert(r@ =~= join_rows(sub.take(i - from + 1 as int)));
            } else {
                assert(sub.take(1).len() == 1);
                assert(r@ =~= join_rows(sub.take(1)));
            }
        }
        i += 1;
    }
    proof {
        assert(views_of(rows@).skip(from as int).take(rows@.len() - from as int) =~= views_of(
            rows@,
        ).skip(from as int));
    }
    r
}

/// The row width: what the terminal allows beside the number column, and
/// at least the continuation indent plus one.
pub open spec fn limit_of(width: u16) -> nat {
    if width < 17 {
        8
    } else {
        (width - 9) as nat
    }
}

/// Computes the row width for a terminal width.
fn limit_of_width(width: u16) -> (r: usize)
    ensures
        r == limit_of(width),
        r >= 8,
{
    if width < 17 {
        8
    } else {
        (width - 9) as usize
    }
}

/// The display text: every line numbered, rows wrapped to the width, and
/// the rows ahead of the 1-based scroll position dropped.
pub open spec fn display_format_of(s: Seq<char>, width: u16, start: nat) -> Seq<char>
    recommends
        start >= 1,
{
    let rows = rows_from(lines_of(s), 1, limit_of(width));
    let from = if start - 1 <= rows.len() {
        start - 1
    } else {
        rows.len() as int
    };
    join_rows(rows.skip(from))
}

} // verus!
