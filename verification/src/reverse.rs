//! Reverse execution planning. A reverse run is two passes over the same
//! items: a *replay pass* in forward order that re-enters every directory a
//! forward run visited — pushing the directory it left onto a navigation
//! history — and an *undo pass* in reverse item order that inverts each
//! mutating command, popping the navigation history at every `dir` line to
//! retrace the steps backward.

use vstd::prelude::*;
use crate::command::{Command, CommandView, ParseError};
use crate::script::{items_of, parse_script, ScriptItem, ScriptItemView};

verus! {

/// One step of the undo pass.
pub enum UndoStep {
    /// Invert a `dir` line: pop the navigation history and, if an entry was
    /// there, set it as the working directory; on an empty history, do
    /// nothing.
    RestoreDir,
    /// Invert `mkdir`: remove the named directory and all its contents.
    RemoveDirectory { name: String },
    /// Invert `make`: remove the named file.
    RemoveFile { name: String },
    /// Invert `move`: rename the destination back to the source.
    RestoreMove { source: String, destination: String },
    /// An unrecognized command name is reported again in the undo pass.
    ReportUnknown { token: String },
}

/// The mathematical value of an [`UndoStep`].
pub enum UndoStepView {
    RestoreDir,
    RemoveDirectory { name: Seq<char> },
    RemoveFile { name: Seq<char> },
    RestoreMove { source: Seq<char>, destination: Seq<char> },
    ReportUnknown { token: Seq<char> },
}

impl View for UndoStep {
    type V = UndoStepView;

    open spec fn view(&self) -> UndoStepView {
        match self {
            UndoStep::RestoreDir => UndoStepView::RestoreDir,
            UndoStep::RemoveDirectory { name } => UndoStepView::RemoveDirectory { name: name@ },
            UndoStep::RemoveFile { name } => UndoStepView::RemoveFile { name: name@ },
            UndoStep::RestoreMove { source, destination } => UndoStepView::RestoreMove {
                source: source@,
                destination: destination@,
            },
            UndoStep::ReportUnknown { token } => UndoStepView::ReportUnknown { token: token@ },
        }
    }
}

impl DeepView for UndoStep {
    type V = UndoStepView;

    open spec fn deep_view(&self) -> UndoStepView {
        self.view()
    }
}

/// The undo steps of one item. `print` and `chmod` have no meaningful
/// inverse and contribute nothing. A malformed `dir` line still pops the
/// navigation history in the undo pass, though the replay pass pushed
/// nothing for it: that mismatch is why a pop on an empty history must be a
/// silent no-op. The other malformed lines contribute nothing.
pub open spec fn spec_undo_items(item: ScriptItemView) -> Seq<UndoStepView> {
    match item {
        ScriptItemView::Action { command } => match command {
            CommandView::ChangeDirectory { target } => seq![UndoStepView::RestoreDir],
            CommandView::MakeDirectory { name } => seq![UndoStepView::RemoveDirectory { name }],
            CommandView::MakeFile { name } => seq![UndoStepView::RemoveFile { name }],
            CommandView::Print { text } => Seq::empty(),
            CommandView::Move { source, destination } => seq![
                UndoStepView::RestoreMove { source, destination },
            ],
            CommandView::SetExecutable { target } => Seq::empty(),
            CommandView::Unknown { token } => seq![UndoStepView::ReportUnknown { token }],
        },
        ScriptItemView::Malformed { error } => if error == ParseError::DirMissingArgument {
            seq![UndoStepView::RestoreDir]
        } else {
            Seq::empty()
        },
    }
}

/// The undo pass over a sequence of items: the items' undo steps in reverse
/// item order — the first item's steps come last.
pub open spec fn spec_undo_plan(items: Seq<ScriptItemView>) -> Seq<UndoStepView>
    decreases items.len(),
{
    if items.len() == 0 {
        Seq::empty()
    } else {
        spec_undo_plan(items.drop_first()) + spec_undo_items(items[0])
    }
}

/// The directory a replay pass enters for one item: the target of a
/// well-formed `dir` line, nothing otherwise.
pub open spec fn spec_replay_targets_one(item: ScriptItemView) -> Seq<Seq<char>> {
    match item {
        ScriptItemView::Action { command: CommandView::ChangeDirectory { target } } => seq![
            target,
        ],
        _ => Seq::empty(),
    }
}

/// The replay pass: the targets of the well-formed `dir` lines, in forward
/// order. The caller enters each in turn, pushing the directory it leaves
/// onto the navigation history.
pub open spec fn spec_replay_targets(items: Seq<ScriptItemView>) -> Seq<Seq<char>>
    decreases items.len(),
{
    if items.len() == 0 {
        Seq::empty()
    } else {
        spec_replay_targets_one(items[0]) + spec_replay_targets(items.drop_first())
    }
}

/// Appending one item extends the replay pass at its end.
proof fn lemma_replay_targets_snoc(items: Seq<ScriptItemView>, item: ScriptItemView)
    ensures
        spec_replay_targets(items.push(item)) == spec_replay_targets(items)
            + spec_replay_targets_one(item),
    decreases items.len(),
{
    let pushed = items.push(item);
    assert(pushed.len() > 0);
    assert(spec_replay_targets(pushed) == spec_replay_targets_one(pushed[0])
        + spec_replay_targets(pushed.drop_first()));
    if items.len() == 0 {
        assert(pushed[0] == item);
        assert(pushed.drop_first() =~= Seq::<ScriptItemView>::empty());
        assert(spec_replay_targets_one(item) + Seq::<Seq<char>>::empty()
            =~= spec_replay_targets_one(item));
        assert(Seq::<Seq<char>>::empty() + spec_replay_targets_one(item)
            =~= spec_replay_targets_one(item));
    } else {
        lemma_replay_targets_snoc(items.drop_first(), item);
        assert(pushed[0] == items[0]);
        assert(pushed.drop_first() =~= items.drop_first().push(item));
        assert(spec_replay_targets_one(items[0]) + (spec_replay_targets(items.drop_first())
            + spec_replay_targets_one(item)) =~= (spec_replay_targets_one(items[0])
            + spec_replay_targets(items.drop_first())) + spec_replay_targets_one(item));
    }
}

/// Plans the replay pass: the `dir` targets to enter, in forward order.
pub fn replay_targets(items: &Vec<ScriptItem>) -> (r: Vec<String>)
    ensures
        r.deep_view() == spec_replay_targets(items.deep_view()),
{
    let ghost its = items.deep_view();
    let mut out: Vec<String> = Vec::new();
    let mut i: usize = 0;
    proof {
        assert(its.subrange(0, 0) =~= Seq::<ScriptItemView>::empty());
    }
    while i < items.len()
        invariant
            i <= items@.len(),
            its == items.deep_view(),
            its.len() == items@.len(),
            out.deep_view() == spec_replay_targets(its.subrange(0, i as int)),
        decreases items@.len() - i,
    {
        proof {
            lemma_replay_targets_snoc(its.subrange(0, i as int), its[i as int]);
            assert(its.subrange(0, i + 1 as int) =~= its.subrange(0, i as int).push(
                its[i as int],
            ));
        }
        match &items[i] {
            ScriptItem::Action { command: Command::ChangeDirectory { target } } => {
                let ghost old_out = out.deep_view();
                let t = target.clone();
                out.push(t);
                proof {
                    assert(out.deep_view() =~= old_out + seq![target@]);
                }
            },
            _ => {
                proof {
                    assert(out.deep_view() + Seq::<Seq<char>>::empty() =~= out.deep_view());
                }
            },
        }
        i = i + 1;
    }
    proof {
        assert(its.subrange(0, its.len() as int) =~= its);
    }
    out
}

/// Plans the undo pass: each item's inverse steps, in reverse item order.
pub fn undo_plan(items: &Vec<ScriptItem>) -> (r: Vec<UndoStep>)
    ensures
        r.deep_view() == spec_undo_plan(items.deep_view()),
{
    let ghost its = items.deep_view();
    let mut out: Vec<UndoStep> = Vec::new();
    let mut k: usize = items.len();
    proof {
        assert(its.subrange(its.len() as int, its.len() as int)
            =~= Seq::<ScriptItemView>::empty());
    }
    while k > 0
        invariant
            k <= items@.len(),
            its == items.deep_view(),
            its.len() == items@.len(),
            out.deep_view() == spec_undo_plan(its.subrange(k as int, its.len() as int)),
        decreases k,
    {
        let i = k - 1;
        proof {
            assert(its.subrange(i as int, its.len() as int).drop_first() =~= its.subrange(
                k as int,
                its.len() as int,
            ));
            assert(its.subrange(i as int, its.len() as int)[0] == its[i as int]);
        }
        let ghost old_out = out.deep_view();
        match &items[i] {
            ScriptItem::Action { command } => match command {
                Command::ChangeDirectory { target } => {
                    out.push(UndoStep::RestoreDir);
                    proof {
                        assert(out.deep_view() =~= old_out + seq![UndoStepView::RestoreDir]);
                    }
                },
                Command::MakeDirectory { name } => {
                    let ghost n = name@;
                    out.push(UndoStep::RemoveDirectory { name: name.clone() });
                    proof {
                        assert(out.deep_view() =~= old_out + seq![
                            UndoStepView::RemoveDirectory { name: n },
                        ]);
                    }
                },
                Command::MakeFile { name } => {
                    let ghost n = name@;
                    out.push(UndoStep::RemoveFile { name: name.clone() });
                    proof {
                        assert(out.deep_view() =~= old_out + seq![
                            UndoStepView::RemoveFile { name: n },
                        ]);
                    }
                },
                Command::Print { text } => {
                    proof {
                        assert(old_out + Seq::<UndoStepView>::empty() =~= old_out);
                    }
                },
                Command::Move { source, destination } => {
                    let ghost sv = source@;
                    let ghost dv = destination@;
                    out.push(UndoStep::RestoreMove {
                        source: source.clone(),
                        destination: destination.clone(),
                    });
                    proof {
                        assert(out.deep_view() =~= old_out + seq![
                            UndoStepView::RestoreMove { source: sv, destination: dv },
                        ]);
                    }
                },
                Command::SetExecutable { target } => {
                    proof {
                        assert(old_out + Seq::<UndoStepView>::empty() =~= old_out);
                    }
                },
                Command::Unknown { token } => {
                    let ghost t = token@;
                    out.push(UndoStep::ReportUnknown { token: token.clone() });
                    proof {
                        assert(out.deep_view() =~= old_out + seq![
                            UndoStepView::ReportUnknown { token: t },
                        ]);
                    }
                },
            },
            ScriptItem::Malformed { error } => {
                if *error == ParseError::DirMissingArgument {
                    out.push(UndoStep::RestoreDir);
                    proof {
                        assert(out.deep_view() =~= old_out + seq![UndoStepView::RestoreDir]);
                    }
                } else {
                    proof {
                        assert(old_out + Seq::<UndoStepView>::empty() =~= old_out);
                    }
                }
            },
        }
        k = i;
    }
    proof {
        assert(its.subrange(0, its.len() as int) =~= its);
    }
    out
}

/// Parses a script and plans its reverse run: the replay pass targets and
/// the undo pass steps.
pub fn plan_reverse_run(script: &str) -> (r: (Vec<String>, Vec<UndoStep>))
    ensures
        r.0.deep_view() == spec_replay_targets(items_of(script@)),
        r.1.deep_view() == spec_undo_plan(items_of(script@)),
{
    let items = parse_script(script);
    let targets = replay_targets(&items);
    let undo = undo_plan(&items);
    (targets, undo)
}

/// Whether an item is a `dir` line — well-formed or not. The undo pass pops
/// the navigation history once for every such line.
pub open spec fn is_dir_line(item: ScriptItemView) -> bool {
    match item {
        ScriptItemView::Action { command } => command is ChangeDirectory,
        ScriptItemView::Malformed { error } => error == ParseError::DirMissingArgument,
    }
}

/// The number of pops the undo pass performs.
pub open spec fn count_restores(steps: Seq<UndoStepView>) -> int
    decreases steps.len(),
{
    if steps.len() == 0 {
        0int
    } else {
        (if steps[0] is RestoreDir {
            1int
        } else {
            0int
        }) + count_restores(steps.drop_first())
    }
}

/// The number of malformed `dir` lines: lines the undo pass pops for though
/// the replay pass pushed nothing.
pub open spec fn count_malformed_dirs(items: Seq<ScriptItemView>) -> int
    decreases items.len(),
{
    if items.len() == 0 {
        0int
    } else {
        (if items[0] == (ScriptItemView::Malformed { error: ParseError::DirMissingArgument }) {
            1int
        } else {
            0int
        }) + count_malformed_dirs(items.drop_first())
    }
}

proof fn lemma_count_restores_concat(a: Seq<UndoStepView>, b: Seq<UndoStepView>)
    ensures
        count_restores(a + b) == count_restores(a) + count_restores(b),
    decreases a.len(),
{
    if a.len() == 0 {
        assert(a + b =~= b);
    } else {
        lemma_count_restores_concat(a.drop_first(), b);
        assert((a + b).drop_first() =~= a.drop_first() + b);
        assert((a + b)[0] == a[0]);
    }
}

/// One item's undo steps pop exactly once for a `dir` line and never
/// otherwise.
proof fn lemma_count_restores_one(item: ScriptItemView)
    ensures
        count_restores(spec_undo_items(item)) == if is_dir_line(item) {
            1int
        } else {
            0int
        },
{
    let u = spec_undo_items(item);
    assert(count_restores(Seq::<UndoStepView>::empty()) == 0);
    if u.len() > 0 {
        assert(u.drop_first() =~= Seq::<UndoStepView>::empty());
        assert(count_restores(u) == (if u[0] is RestoreDir {
            1int
        } else {
            0int
        }) + count_restores(u.drop_first()));
    }
    match item {
        ScriptItemView::Action { command } => match command {
            CommandView::ChangeDirectory { target } => {
                assert(u == seq![UndoStepView::RestoreDir]);
            },
            CommandView::MakeDirectory { name } => {
                assert(u == seq![UndoStepView::RemoveDirectory { name }]);
            },
            CommandView::MakeFile { name } => {
                assert(u == seq![UndoStepView::RemoveFile { name }]);
            },
            CommandView::Print { text } => {},
            CommandView::Move { source, destination } => {
                assert(u == seq![UndoStepView::RestoreMove { source, destination }]);
            },
            CommandView::SetExecutable { target } => {},
            CommandView::Unknown { token } => {
                assert(u == seq![UndoStepView::ReportUnknown { token }]);
            },
        },
        ScriptItemView::Malformed { error } => {
            if error == ParseError::DirMissingArgument {
                assert(u == seq![UndoStepView::RestoreDir]);
            }
        },
    }
}

/// Navigation balance: over any item sequence, the pops of the undo pass
/// are exactly the pushes of the replay pass plus one pop for each
/// malformed `dir` line. For a script containing only well-formed lines the
/// two passes balance exactly; only a malformed `dir` line can make the
/// undo pass pop an empty history, which is a silent no-op.
pub proof fn lemma_navigation_balance(items: Seq<ScriptItemView>)
    ensures
        count_restores(spec_undo_plan(items)) == spec_replay_targets(items).len()
            + count_malformed_dirs(items),
    decreases items.len(),
{
    if items.len() == 0 {
    } else {
        lemma_navigation_balance(items.drop_first());
        lemma_count_restores_concat(spec_undo_plan(items.drop_first()), spec_undo_items(items[0]));
        lemma_count_restores_one(items[0]);
    }
}

/// For a script whose every line is well formed (no line is malformed), the
/// undo pass pops the navigation history exactly as often as the replay
/// pass pushes onto it.
pub proof fn lemma_well_formed_balance(items: Seq<ScriptItemView>)
    requires
        forall|k: int| 0 <= k < items.len() ==> !(#[trigger] items[k] is Malformed),
    ensures
        count_restores(spec_undo_plan(items)) == spec_replay_targets(items).len(),
    decreases items.len(),
{
    lemma_navigation_balance(items);
    lemma_no_malformed_dirs(items);
}

proof fn lemma_no_malformed_dirs(items: Seq<ScriptItemView>)
    requires
        forall|k: int| 0 <= k < items.len() ==> !(#[trigger] items[k] is Malformed),
    ensures
        count_malformed_dirs(items) == 0,
    decreases items.len(),
{
    if items.len() > 0 {
        assert(!(items[0] is Malformed));
        assert(forall|k: int|
            0 <= k < items.drop_first().len() ==> !(#[trigger] items.drop_first()[k]
                is Malformed));
        lemma_no_malformed_dirs(items.drop_first());
    }
}

/// The undo pass runs in reverse: undoing the items of one script followed
/// by the items of another undoes the second script's items first, then the
/// first's.
pub proof fn lemma_undo_plan_concat(a: Seq<ScriptItemView>, b: Seq<ScriptItemView>)
    ensures
        spec_undo_plan(a + b) == spec_undo_plan(b) + spec_undo_plan(a),
    decreases a.len(),
{
    if a.len() == 0 {
        assert(a + b =~= b);
        assert(spec_undo_plan(b) + Seq::<UndoStepView>::empty() =~= spec_undo_plan(b));
    } else {
        lemma_undo_plan_concat(a.drop_first(), b);
        assert((a + b).drop_first() =~= a.drop_first() + b);
        assert((a + b)[0] == a[0]);
        assert((spec_undo_plan(b) + spec_undo_plan(a.drop_first())) + spec_undo_items(a[0])
            =~= spec_undo_plan(b) + (spec_undo_plan(a.drop_first()) + spec_undo_items(a[0])));
    }
}

/// The replay pass runs forward: the directories entered for one script
/// followed by another are the first script's targets, then the second's.
pub proof fn lemma_replay_targets_concat(a: Seq<ScriptItemView>, b: Seq<ScriptItemView>)
    ensures
        spec_replay_targets(a + b) == spec_replay_targets(a) + spec_replay_targets(b),
    decreases a.len(),
{
    if a.len() == 0 {
        assert(a + b =~= b);
        assert(Seq::<Seq<char>>::empty() + spec_replay_targets(b) =~= spec_replay_targets(b));
    } else {
        lemma_replay_targets_concat(a.drop_first(), b);
        assert((a + b).drop_first() =~= a.drop_first() + b);
        assert((a + b)[0] == a[0]);
        assert(spec_replay_targets_one(a[0]) + (spec_replay_targets(a.drop_first())
            + spec_replay_targets(b)) =~= (spec_replay_targets_one(a[0]) + spec_replay_targets(
            a.drop_first(),
        )) + spec_replay_targets(b));
    }
}

/// The stack of previously-current directories that the replay pass builds:
/// one entry per `dir` line, popped one entry per `dir` line during undo.
pub struct NavHistory {
    entries: Vec<String>,
}

impl View for NavHistory {
    type V = Seq<Seq<char>>;

    closed spec fn view(&self) -> Seq<Seq<char>> {
        self.entries.deep_view()
    }
}

impl NavHistory {
    /// An empty history.
    pub fn new() -> (h: NavHistory)
        ensures
            h@ == Seq::<Seq<char>>::empty(),
    {
        let h = NavHistory { entries: Vec::new() };
        proof {
            assert(h@ =~= Seq::<Seq<char>>::empty());
        }
        h
    }

    /// The number of entries.
    pub fn len(&self) -> (n: usize)
        ensures
            n == self@.len(),
    {
        self.entries.len()
    }

    /// Records the directory that a replay-pass `dir` line is about to
    /// leave.
    pub fn push(&mut self, dir: String)
        ensures
            final(self)@ == old(self)@.push(dir@),
    {
        let ghost d = dir@;
        self.entries.push(dir);
        proof {
            assert(self@ =~= old(self)@.push(d));
        }
    }

    /// Takes the most recently recorded directory; `None` on an empty
    /// history, which an undo pass treats as a silent no-op.
    pub fn pop(&mut self) -> (r: Option<String>)
        ensures
            old(self)@.len() > 0 ==> r is Some && r->0@ == old(self)@.last() && final(self)@
                == old(self)@.drop_last(),
            old(self)@.len() == 0 ==> r is None && final(self)@ == old(self)@,
    {
        let r = self.entries.pop();
        proof {
            if old(self)@.len() > 0 {
                assert(self@ =~= old(self)@.drop_last());
            } else {
                assert(self@ =~= old(self)@);
            }
        }
        r
    }
}

} // verus!
