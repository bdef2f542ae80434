//! Splitting script text into lines and lines into whitespace-separated
//! tokens, and rejoining tokens with single spaces.

use vstd::prelude::*;
use crate::is_space_char;

verus! {

/// Length of the leading run of non-whitespace characters of `s`.
pub open spec fn run_len(s: Seq<char>) -> int
    decreases s.len(),
{
    if s.len() == 0 || is_space_char(s[0]) {
        0int
    } else {
        1 + run_len(s.drop_first())
    }
}

proof fn lemma_run_len(s: Seq<char>)
    ensures
        0 <= run_len(s) <= s.len(),
        forall|m: int| 0 <= m < run_len(s) ==> !is_space_char(s[m]),
        run_len(s) < s.len() ==> is_space_char(s[run_len(s)]),
    decreases s.len(),
{
    if s.len() == 0 || is_space_char(s[0]) {
    } else {
        lemma_run_len(s.drop_first());
        assert forall|m: int| 0 <= m < run_len(s) implies !is_space_char(s[m]) by {
            if m > 0 {
                assert(!is_space_char(s.drop_first()[m - 1]));
            }
        }
        if run_len(s) < s.len() {
            assert(is_space_char(s.drop_first()[run_len(s) - 1]));
        }
    }
}

/// `run_len` is the unique cut point: everything before `k` is non-space and
/// `k` is the end of the string or a space.
proof fn lemma_run_len_exact(s: Seq<char>, k: int)
    requires
        0 <= k <= s.len(),
        forall|m: int| 0 <= m < k ==> !is_space_char(s[m]),
        k < s.len() ==> is_space_char(s[k]),
    ensures
        run_len(s) == k,
    decreases s.len(),
{
    if k == 0 {
    } else {
        assert(!is_space_char(s[0]));
        assert forall|m: int| 0 <= m < k - 1 implies !is_space_char(s.drop_first()[m]) by {
            assert(!is_space_char(s[m + 1]));
        }
        if k - 1 < s.drop_first().len() {
            assert(s.drop_first()[k - 1] == s[k]);
        }
        lemma_run_len_exact(s.drop_first(), k - 1);
    }
}

/// The tokens of a line: the maximal runs of non-whitespace characters, in
/// order.
pub open spec fn tokens_of(s: Seq<char>) -> Seq<Seq<char>>
    decreases s.len(),
    via tokens_of_decreases
{
    if s.len() == 0 {
        Seq::empty()
    } else if is_space_char(s[0]) {
        tokens_of(s.drop_first())
    } else {
        let k = run_len(s);
        seq![s.subrange(0, k)] + tokens_of(s.subrange(k, s.len() as int))
    }
}

#[via_fn]
proof fn tokens_of_decreases(s: Seq<char>) {
    if s.len() > 0 && !is_space_char(s[0]) {
        lemma_run_len(s);
        assert(run_len(s) >= 1);
    }
}

/// Skipping a leading whitespace character leaves the tokens unchanged.
proof fn lemma_tokens_skip_space(s: Seq<char>, i: int)
    requires
        0 <= i < s.len(),
        is_space_char(s[i]),
    ensures
        tokens_of(s.subrange(i, s.len() as int))
            == tokens_of(s.subrange(i + 1, s.len() as int)),
{
    let t = s.subrange(i, s.len() as int);
    assert(t.drop_first() =~= s.subrange(i + 1, s.len() as int));
}

/// A maximal non-space run `[i, j)` is the next token.
proof fn lemma_tokens_take_token(s: Seq<char>, i: int, j: int)
    requires
        0 <= i < j <= s.len(),
        forall|m: int| i <= m < j ==> !is_space_char(s[m]),
        j < s.len() ==> is_space_char(s[j]),
    ensures
        tokens_of(s.subrange(i, s.len() as int))
            == seq![s.subrange(i, j)] + tokens_of(s.subrange(j, s.len() as int)),
{
    let t = s.subrange(i, s.len() as int);
    assert forall|m: int| 0 <= m < j - i implies !is_space_char(t[m]) by {
        assert(t[m] == s[i + m]);
    }
    if j - i < t.len() {
        assert(t[j - i] == s[j]);
    }
    lemma_run_len_exact(t, j - i);
    assert(t.subrange(0, j - i) =~= s.subrange(i, j));
    assert(t.subrange(j - i, t.len() as int) =~= s.subrange(j, s.len() as int));
}

/// Distance from the start of `s` to its first line break (or to its end).
pub open spec fn line_len(s: Seq<char>) -> int
    decreases s.len(),
{
    if s.len() == 0 || s[0] == '\n' {
        0int
    } else {
        1 + line_len(s.drop_first())
    }
}

pub(crate) proof fn lemma_line_len(s: Seq<char>)
    ensures
        0 <= line_len(s) <= s.len(),
        forall|m: int| 0 <= m < line_len(s) ==> s[m] != '\n',
        line_len(s) < s.len() ==> s[line_len(s)] == '\n',
    decreases s.len(),
{
    if s.len() == 0 || s[0] == '\n' {
    } else {
        lemma_line_len(s.drop_first());
        assert forall|m: int| 0 <= m < line_len(s) implies s[m] != '\n' by {
            if m > 0 {
                assert(s.drop_first()[m - 1] != '\n');
            }
        }
        if line_len(s) < s.len() {
            assert(s.drop_first()[line_len(s) - 1] == '\n');
        }
    }
}

/// `line_len` is the unique cut point: no line break before `k`, and `k` is
/// the end of the string or a line break.
pub(crate) proof fn lemma_line_len_exact(s: Seq<char>, k: int)
    requires
        0 <= k <= s.len(),
        forall|m: int| 0 <= m < k ==> s[m] != '\n',
        k < s.len() ==> s[k] == '\n',
    ensures
        line_len(s) == k,
    decreases s.len(),
{
    if k == 0 {
    } else {
        assert(s[0] != '\n');
        assert forall|m: int| 0 <= m < k - 1 implies s.drop_first()[m] != '\n' by {
            assert(s[m + 1] != '\n');
        }
        if k - 1 < s.drop_first().len() {
            assert(s.drop_first()[k - 1] == s[k]);
        }
        lemma_line_len_exact(s.drop_first(), k - 1);
    }
}

/// A line with a trailing carriage return loses it, so that text with
/// `\r\n` line endings parses as text with `\n` endings does.
pub open spec fn strip_cr(l: Seq<char>) -> Seq<char> {
    if l.len() > 0 && l[l.len() - 1] == '\r' {
        l.drop_last()
    } else {
        l
    }
}

/// The lines of a script: the text split at every line break, a trailing
/// carriage return removed from each line, and no empty final line for text
/// that ends with a line break.
pub open spec fn lines_of(s: Seq<char>) -> Seq<Seq<char>>
    decreases s.len(),
    via lines_of_decreases
{
    if s.len() == 0 {
        Seq::empty()
    } else {
        let k = line_len(s);
        if k == s.len() {
            seq![strip_cr(s.subrange(0, k))]
        } else {
            seq![strip_cr(s.subrange(0, k))] + lines_of(s.subrange(k + 1, s.len() as int))
        }
    }
}

#[via_fn]
proof fn lines_of_decreases(s: Seq<char>) {
    if s.len() > 0 {
        lemma_line_len(s);
    }
}

/// The segment `[i, j)`, with no line break inside it and `j` at a line
/// break or at the end, is the next line.
proof fn lemma_lines_take_line(s: Seq<char>, i: int, j: int)
    requires
        0 <= i <= j <= s.len(),
        forall|m: int| i <= m < j ==> s[m] != '\n',
        j < s.len() ==> s[j] == '\n',
        i < s.len(),
    ensures
        lines_of(s.subrange(i, s.len() as int)) == seq![strip_cr(s.subrange(i, j))] + (
        if j == s.len() {
            Seq::<Seq<char>>::empty()
        } else {
            lines_of(s.subrange(j + 1, s.len() as int))
        }),
{
    let t = s.subrange(i, s.len() as int);
    assert forall|m: int| 0 <= m < j - i implies t[m] != '\n' by {
        assert(t[m] == s[i + m]);
    }
    if j - i < t.len() {
        assert(t[j - i] == s[j]);
    }
    lemma_line_len_exact(t, j - i);
    assert(t.subrange(0, j - i) =~= s.subrange(i, j));
    if j == s.len() {
        assert(lines_of(t) =~= seq![strip_cr(s.subrange(i, j))]);
    } else {
        assert(t.subrange(j - i + 1, t.len() as int) =~= s.subrange(j + 1, s.len() as int));
    }
}

/// Splits script text into its lines.
pub fn split_lines(script: &str) -> (r: Vec<String>)
    ensures
        r.deep_view() == lines_of(script@),
{
    let ghost s = script@;
    let n = script.unicode_len();
    let mut out: Vec<String> = Vec::new();
    let mut i: usize = 0;
    proof {
        assert(s.subrange(0, n as int) =~= s);
    }
    while i < n
        invariant
            i <= n,
            n == s.len(),
            script@ == s,
            out.deep_view() + lines_of(s.subrange(i as int, n as int)) == lines_of(s),
        decreases n - i,
    {
        let start = i;
        let mut j = i;
        while j < n && !(script.get_char(j) == '\n')
            invariant
                start <= j <= n,
                n == s.len(),
                script@ == s,
                forall|m: int| start <= m < j ==> s[m] != '\n',
            decreases n - j,
        {
            j = j + 1;
        }
        let line = if j > start && script.get_char(j - 1) == '\r' {
            proof {
                assert(s.subrange(start as int, j as int).len() > 0);
                assert(s.subrange(start as int, j as int).last() == s[j - 1]);
                assert(strip_cr(s.subrange(start as int, j as int)) =~= s.subrange(
                    start as int,
                    j - 1,
                ));
            }
            script.substring_char(start, j - 1).to_owned()
        } else {
            proof {
                if s.subrange(start as int, j as int).len() > 0 {
                    assert(s.subrange(start as int, j as int).last() == s[j - 1]);
                }
            }
            script.substring_char(start, j).to_owned()
        };
        proof {
            lemma_lines_take_line(s, start as int, j as int);
            let prev = out.deep_view();
            let rest = if j == n {
                Seq::<Seq<char>>::empty()
            } else {
                lines_of(s.subrange(j + 1, n as int))
            };
            assert((prev + seq![line@]) + rest =~= prev + (seq![line@] + rest));
        }
        let ghost old_out = out.deep_view();
        out.push(line);
        proof {
            assert(out.deep_view() =~= old_out + seq![line@]);
            if j == n {
                assert(out.deep_view() + Seq::<Seq<char>>::empty() =~= out.deep_view());
            }
        }
        if j < n {
            i = j + 1;
        } else {
            i = n;
            proof {
                assert(s.subrange(n as int, n as int) =~= Seq::<char>::empty());
            }
        }
    }
    proof {
        assert(s.subrange(n as int, n as int) =~= Seq::<char>::empty());
        assert(out.deep_view() + Seq::<Seq<char>>::empty() =~= out.deep_view());
    }
    out
}

/// The tokens rejoined with single spaces between them: how a `print`
/// message is reconstructed from its argument tokens.
pub open spec fn join_spaces(parts: Seq<Seq<char>>) -> Seq<char>
    decreases parts.len(),
{
    if parts.len() == 0 {
        Seq::empty()
    } else if parts.len() == 1 {
        parts[0]
    } else {
        join_spaces(parts.drop_last()) + seq![' '] + parts.last()
    }
}

/// Decides whether a character is whitespace of the script grammar.
pub fn is_space(c: char) -> (r: bool)
    ensures
        r == is_space_char(c),
{
    c == ' ' || c == '\t' || c == '\n' || c == '\r' || c == '\u{b}' || c == '\u{c}'
}

/// Splits a line into its whitespace-separated tokens.
pub fn tokenize(line: &str) -> (r: Vec<String>)
    ensures
        r.deep_view() == tokens_of(line@),
{
    let ghost s = line@;
    let n = line.unicode_len();
    let mut out: Vec<String> = Vec::new();
    let mut i: usize = 0;
    proof {
        assert(s.subrange(0, n as int) =~= s);
    }
    while i < n
        invariant
            i <= n,
            n == s.len(),
            line@ == s,
            out.deep_view() + tokens_of(s.subrange(i as int, n as int)) == tokens_of(s),
        decreases n - i,
    {
        let c = line.get_char(i);
        if is_space(c) {
            proof {
                lemma_tokens_skip_space(s, i as int);
            }
            i = i + 1;
        } else {
            let start = i;
            let mut j = i + 1;
            while j < n && !is_space(line.get_char(j))
                invariant
                    start < j <= n,
                    n == s.len(),
                    line@ == s,
                    forall|m: int| start <= m < j ==> !is_space_char(s[m]),
                decreases n - j,
            {
                j = j + 1;
            }
            let token = line.substring_char(start, j).to_owned();
            proof {
                lemma_tokens_take_token(s, start as int, j as int);
                let prev = out.deep_view();
                let tok = s.subrange(start as int, j as int);
                assert((prev + seq![tok]) + tokens_of(s.subrange(j as int, n as int))
                    =~= prev + (seq![tok] + tokens_of(s.subrange(j as int, n as int))));
            }
            let ghost old_out = out.deep_view();
            out.push(token);
            proof {
                assert(out.deep_view() =~= old_out + seq![token@]);
            }
            i = j;
        }
    }
    proof {
        assert(s.subrange(n as int, n as int) =~= Seq::<char>::empty());
        assert(out.deep_view() + Seq::<Seq<char>>::empty() =~= out.deep_view());
    }
    out
}

} // verus!
