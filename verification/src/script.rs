//! Whole-script parsing: the sequence of commands and malformed-line errors
//! that a script's text denotes. Blank and whitespace-only lines yield
//! nothing; every other line yields exactly one item.

use vstd::prelude::*;
use crate::command::{
    parse_tokens, spec_parse, Command, CommandView, ParseError,
};
use crate::is_space_char;
use crate::text::{lines_of, split_lines, tokenize, tokens_of};

verus! {

/// What one non-blank script line contributes to a run: a command to
/// execute, or a malformed-line error to report.
pub enum ScriptItem {
    Action { command: Command },
    Malformed { error: ParseError },
}

/// The mathematical value of a [`ScriptItem`].
pub enum ScriptItemView {
    Action { command: CommandView },
    Malformed { error: ParseError },
}

impl View for ScriptItem {
    type V = ScriptItemView;

    open spec fn view(&self) -> ScriptItemView {
        match self {
            ScriptItem::Action { command } => ScriptItemView::Action { command: command@ },
            ScriptItem::Malformed { error } => ScriptItemView::Malformed { error: *error },
        }
    }
}

impl DeepView for ScriptItem {
    type V = ScriptItemView;

    open spec fn deep_view(&self) -> ScriptItemView {
        self.view()
    }
}

/// The items of one line: none for a blank line, one otherwise.
pub open spec fn line_items(l: Seq<char>) -> Seq<ScriptItemView> {
    match spec_parse(tokens_of(l)) {
        None => Seq::empty(),
        Some(Ok(c)) => seq![ScriptItemView::Action { command: c }],
        Some(Err(e)) => seq![ScriptItemView::Malformed { error: e }],
    }
}

/// The items of a sequence of lines, in line order.
pub open spec fn items_of_lines(lines: Seq<Seq<char>>) -> Seq<ScriptItemView>
    decreases lines.len(),
{
    if lines.len() == 0 {
        Seq::empty()
    } else {
        line_items(lines[0]) + items_of_lines(lines.drop_first())
    }
}

/// The items of a whole script's text.
pub open spec fn items_of(script: Seq<char>) -> Seq<ScriptItemView> {
    items_of_lines(lines_of(script))
}

/// Parses a whole script: the commands and malformed-line errors of its
/// lines, in line order, with blank lines skipped.
pub fn parse_script(script: &str) -> (r: Vec<ScriptItem>)
    ensures
        r.deep_view() == items_of(script@),
{
    let lines = split_lines(script);
    let ghost ls = lines.deep_view();
    let mut out: Vec<ScriptItem> = Vec::new();
    let mut i: usize = 0;
    proof {
        assert(ls.subrange(0, ls.len() as int) =~= ls);
        lemma_items_of_lines_split(ls, 0);
    }
    while i < lines.len()
        invariant
            i <= lines@.len(),
            ls == lines.deep_view(),
            ls.len() == lines@.len(),
            out.deep_view() + items_of_lines(ls.subrange(i as int, ls.len() as int))
                == items_of_lines(ls),
        decreases lines@.len() - i,
    {
        let toks = tokenize(lines[i].as_str());
        let parsed = parse_tokens(&toks);
        proof {
            lemma_items_of_lines_split(ls, i + 1);
            lemma_items_of_lines_split(ls, i as int);
            assert(ls.subrange(i as int, ls.len() as int).drop_first() =~= ls.subrange(
                i + 1,
                ls.len() as int,
            ));
            assert(ls.subrange(i as int, ls.len() as int)[0] == ls[i as int]);
        }
        let ghost old_out = out.deep_view();
        match parsed {
            None => {
                proof {
                    assert(old_out + line_items(ls[i as int]) =~= old_out);
                }
            },
            Some(Ok(command)) => {
                let ghost c = command@;
                out.push(ScriptItem::Action { command });
                proof {
                    assert(out.deep_view() =~= old_out + seq![
                        ScriptItemView::Action { command: c },
                    ]);
                }
            },
            Some(Err(error)) => {
                out.push(ScriptItem::Malformed { error });
                proof {
                    assert(out.deep_view() =~= old_out + seq![
                        ScriptItemView::Malformed { error },
                    ]);
                }
            },
        }
        proof {
            assert((out.deep_view()) + items_of_lines(ls.subrange(i + 1, ls.len() as int))
                =~= old_out + (line_items(ls[i as int]) + items_of_lines(
                ls.subrange(i + 1, ls.len() as int),
            )));
        }
        i = i + 1;
    }
    proof {
        assert(ls.subrange(ls.len() as int, ls.len() as int) =~= Seq::<Seq<char>>::empty());
        assert(out.deep_view() + Seq::<ScriptItemView>::empty() =~= out.deep_view());
    }
    out
}

/// Items of a suffix of the lines: peeling the first line off the suffix
/// contributes that line's items in front.
proof fn lemma_items_of_lines_split(ls: Seq<Seq<char>>, i: int)
    requires
        0 <= i <= ls.len(),
    ensures
        i < ls.len() ==> items_of_lines(ls.subrange(i, ls.len() as int)) == line_items(ls[i])
            + items_of_lines(ls.subrange(i + 1, ls.len() as int)),
{
    if i < ls.len() {
        let t = ls.subrange(i, ls.len() as int);
        assert(t[0] == ls[i]);
        assert(t.drop_first() =~= ls.subrange(i + 1, ls.len() as int));
    }
}

/// A whitespace-only text has only whitespace-only lines, whose token lists
/// are empty; so an empty or whitespace-only script yields no items — no
/// commands and no errors, in either execution mode.
pub proof fn lemma_blank_script_is_empty(script: Seq<char>)
    requires
        forall|m: int| 0 <= m < script.len() ==> is_space_char(script[m]),
    ensures
        items_of(script) == Seq::<ScriptItemView>::empty(),
    decreases script.len(),
{
    if script.len() == 0 {
    } else {
        crate::text::lemma_line_len(script);
        let k = crate::text::line_len(script);
        let line = crate::text::strip_cr(script.subrange(0, k));
        assert forall|m: int| 0 <= m < line.len() implies is_space_char(line[m]) by {
            assert(line[m] == script.subrange(0, k)[m]);
        }
        lemma_blank_line_no_tokens(line);
        if k == script.len() {
            lemma_items_of_lines_concat_one(line, Seq::empty());
            assert(seq![line] + Seq::<Seq<char>>::empty() =~= seq![line]);
            assert(items_of(script) =~= Seq::<ScriptItemView>::empty());
        } else {
            let rest = script.subrange(k + 1, script.len() as int);
            assert(forall|m: int| 0 <= m < rest.len() ==> is_space_char(rest[m]));
            lemma_blank_script_is_empty(rest);
            lemma_items_of_lines_concat_one(line, lines_of(rest));
            assert(items_of(script) =~= Seq::<ScriptItemView>::empty());
        }
    }
}

/// A whitespace-only line has no tokens and so yields no items.
proof fn lemma_blank_line_no_tokens(l: Seq<char>)
    requires
        forall|m: int| 0 <= m < l.len() ==> is_space_char(l[m]),
    ensures
        tokens_of(l) == Seq::<Seq<char>>::empty(),
        line_items(l) == Seq::<ScriptItemView>::empty(),
    decreases l.len(),
{
    if l.len() == 0 {
    } else {
        assert(forall|m: int| 0 <= m < l.drop_first().len() ==> is_space_char(l.drop_first()[m]));
        lemma_blank_line_no_tokens(l.drop_first());
    }
}

/// Lines are independent: the items of a script that starts with the line
/// `first` are that line's items followed by the items of the rest. In
/// particular, a malformed or unrecognized line contributes exactly one item
/// — one error report — and leaves the items of every later line unchanged.
pub proof fn lemma_line_independence(first: Seq<char>, rest: Seq<char>)
    requires
        forall|m: int| 0 <= m < first.len() ==> first[m] != '\n',
    ensures
        items_of(first + seq!['\n'] + rest) == line_items(crate::text::strip_cr(first))
            + items_of(rest),
{
    let s = first + seq!['\n'] + rest;
    assert forall|m: int| 0 <= m < first.len() implies s[m] != '\n' by {
        assert(s[m] == first[m]);
    }
    assert(s[first.len() as int] == '\n');
    crate::text::lemma_line_len_exact(s, first.len() as int);
    assert(s.subrange(0, first.len() as int) =~= first);
    assert(s.subrange(first.len() as int + 1, s.len() as int) =~= rest);
    assert(lines_of(s) == seq![crate::text::strip_cr(first)] + lines_of(rest));
    lemma_items_of_lines_concat_one(crate::text::strip_cr(first), lines_of(rest));
}

/// One line in front of a line sequence contributes its items in front.
proof fn lemma_items_of_lines_concat_one(l: Seq<char>, ls: Seq<Seq<char>>)
    ensures
        items_of_lines(seq![l] + ls) == line_items(l) + items_of_lines(ls),
{
    let all = seq![l] + ls;
    assert(all[0] == l);
    assert(all.drop_first() =~= ls);
}

/// An unrecognized leading token yields exactly one item: the `Unknown`
/// command, which both execution modes report as a single error.
pub proof fn lemma_unknown_line_single_item(l: Seq<char>)
    requires
        tokens_of(l).len() > 0,
        tokens_of(l)[0] != "dir"@,
        tokens_of(l)[0] != "mkdir"@,
        tokens_of(l)[0] != "make"@,
        tokens_of(l)[0] != "print"@,
        tokens_of(l)[0] != "move"@,
        tokens_of(l)[0] != "chmod"@,
    ensures
        line_items(l) == seq![
            ScriptItemView::Action {
                command: CommandView::Unknown { token: tokens_of(l)[0] },
            },
        ],
{
}

} // verus!
