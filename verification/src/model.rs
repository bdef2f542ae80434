//! An abstract filesystem model and the round-trip theorem: running a script
//! forward and then undoing it in reverse restores the model to its initial
//! state.
//!
//! The model keeps a working directory and a map from resolved paths to
//! nodes. It abstracts what the engine cannot promise of a real filesystem:
//! a path is a single entry (creation of missing parent directories and
//! removal of a directory's contents are not modeled), navigation always
//! succeeds, and the `print` and `chmod` side effects — which have no
//! inverse — leave the model unchanged. The theorem accordingly holds for
//! scripts whose lines are all well formed and whose created paths are fresh,
//! whose moves go from an existing path to a fresh one: exactly the runs the
//! engine can undo.

use vstd::prelude::*;
use crate::command::CommandView;
use crate::reverse::{spec_undo_items, spec_undo_plan, UndoStepView};
use crate::script::ScriptItemView;

verus! {

/// A filesystem node: a directory or a file.
pub enum NodeKind {
    DirNode,
    FileNode,
}

/// The model's state: the working directory and the entries, keyed by
/// resolved path.
pub struct FsModel {
    pub cwd: Seq<char>,
    pub entries: Map<Seq<char>, NodeKind>,
}

/// Resolution of a command's path argument against the working directory:
/// an absolute path stands alone, a relative one is taken from the working
/// directory. (No normalization: the model does not interpret `.` or `..`.)
pub open spec fn resolve(cwd: Seq<char>, path: Seq<char>) -> Seq<char> {
    if path.len() > 0 && path[0] == '/' {
        path
    } else {
        cwd + seq!['/'] + path
    }
}

/// The effect of one item on the model during a forward run. Reports,
/// `print` and `chmod` leave the model unchanged.
pub open spec fn forward_step(st: FsModel, item: ScriptItemView) -> FsModel {
    match item {
        ScriptItemView::Action { command } => match command {
            CommandView::ChangeDirectory { target } => FsModel {
                cwd: resolve(st.cwd, target),
                entries: st.entries,
            },
            CommandView::MakeDirectory { name } => FsModel {
                cwd: st.cwd,
                entries: st.entries.insert(resolve(st.cwd, name), NodeKind::DirNode),
            },
            CommandView::MakeFile { name } => FsModel {
                cwd: st.cwd,
                entries: st.entries.insert(resolve(st.cwd, name), NodeKind::FileNode),
            },
            CommandView::Print { text } => st,
            CommandView::Move { source, destination } => {
                let rs = resolve(st.cwd, source);
                let rd = resolve(st.cwd, destination);
                FsModel {
                    cwd: st.cwd,
                    entries: st.entries.remove(rs).insert(rd, st.entries[rs]),
                }
            },
            CommandView::SetExecutable { target } => st,
            CommandView::Unknown { token } => st,
        },
        ScriptItemView::Malformed { error } => st,
    }
}

/// A forward run: the items applied in order.
pub open spec fn forward_run(items: Seq<ScriptItemView>, st: FsModel) -> FsModel
    decreases items.len(),
{
    if items.len() == 0 {
        st
    } else {
        forward_run(items.drop_first(), forward_step(st, items[0]))
    }
}

/// When one item's forward effect is invertible: the line is well formed,
/// a created path is fresh, and a move goes from an existing path to a
/// fresh, different one.
pub open spec fn ok_step(st: FsModel, item: ScriptItemView) -> bool {
    match item {
        ScriptItemView::Action { command } => match command {
            CommandView::ChangeDirectory { target } => true,
            CommandView::MakeDirectory { name } => !st.entries.dom().contains(
                resolve(st.cwd, name),
            ),
            CommandView::MakeFile { name } => !st.entries.dom().contains(resolve(st.cwd, name)),
            CommandView::Print { text } => true,
            CommandView::Move { source, destination } => {
                let rs = resolve(st.cwd, source);
                let rd = resolve(st.cwd, destination);
                st.entries.dom().contains(rs) && !st.entries.dom().contains(rd) && rs != rd
            },
            CommandView::SetExecutable { target } => true,
            CommandView::Unknown { token } => true,
        },
        ScriptItemView::Malformed { error } => false,
    }
}

/// When a whole run is invertible: every step is, in the state the steps
/// before it produce.
pub open spec fn ok_run(items: Seq<ScriptItemView>, st: FsModel) -> bool
    decreases items.len(),
{
    items.len() == 0 || (ok_step(st, items[0]) && ok_run(
        items.drop_first(),
        forward_step(st, items[0]),
    ))
}

/// The navigation history the replay pass builds, oldest entry first: the
/// working directory left at each `dir` line.
pub open spec fn replay_stack(items: Seq<ScriptItemView>, cwd: Seq<char>) -> Seq<Seq<char>>
    decreases items.len(),
{
    if items.len() == 0 {
        Seq::empty()
    } else {
        match items[0] {
            ScriptItemView::Action { command: CommandView::ChangeDirectory { target } } => seq![
                cwd,
            ] + replay_stack(items.drop_first(), resolve(cwd, target)),
            _ => replay_stack(items.drop_first(), cwd),
        }
    }
}

/// The model's state during the undo pass: the filesystem state and what is
/// left of the navigation history.
pub struct UndoOutcome {
    pub state: FsModel,
    pub stack: Seq<Seq<char>>,
}

/// The effect of one undo step. A pop on an empty history is a no-op.
pub open spec fn undo_step(st: FsModel, stack: Seq<Seq<char>>, step: UndoStepView) -> UndoOutcome {
    match step {
        UndoStepView::RestoreDir => {
            if stack.len() > 0 {
                UndoOutcome {
                    state: FsModel { cwd: stack.last(), entries: st.entries },
                    stack: stack.drop_last(),
                }
            } else {
                UndoOutcome { state: st, stack }
            }
        },
        UndoStepView::RemoveDirectory { name } => UndoOutcome {
            state: FsModel {
                cwd: st.cwd,
                entries: st.entries.remove(resolve(st.cwd, name)),
            },
            stack,
        },
        UndoStepView::RemoveFile { name } => UndoOutcome {
            state: FsModel {
                cwd: st.cwd,
                entries: st.entries.remove(resolve(st.cwd, name)),
            },
            stack,
        },
        UndoStepView::RestoreMove { source, destination } => {
            let rs = resolve(st.cwd, source);
            let rd = resolve(st.cwd, destination);
            UndoOutcome {
                state: FsModel {
                    cwd: st.cwd,
                    entries: st.entries.remove(rd).insert(rs, st.entries[rd]),
                },
                stack,
            }
        },
        UndoStepView::ReportUnknown { token } => UndoOutcome { state: st, stack },
    }
}

/// An undo pass: the steps applied in order.
pub open spec fn undo_run(steps: Seq<UndoStepView>, st: FsModel, stack: Seq<Seq<char>>)
    -> UndoOutcome
    decreases steps.len(),
{
    if steps.len() == 0 {
        UndoOutcome { state: st, stack }
    } else {
        let o = undo_step(st, stack, steps[0]);
        undo_run(steps.drop_first(), o.state, o.stack)
    }
}


/// Running a single undo step is that step's effect.
proof fn lemma_undo_run_one(step: UndoStepView, st: FsModel, stack: Seq<Seq<char>>)
    ensures
        undo_run(seq![step], st, stack) == undo_step(st, stack, step),
{
    let o = undo_step(st, stack, step);
    assert(seq![step].drop_first() =~= Seq::<UndoStepView>::empty());
    assert(undo_run(Seq::<UndoStepView>::empty(), o.state, o.stack) == (UndoOutcome {
        state: o.state,
        stack: o.stack,
    }));
    assert(o == (UndoOutcome { state: o.state, stack: o.stack }));
}

proof fn lemma_undo_run_concat(
    a: Seq<UndoStepView>,
    b: Seq<UndoStepView>,
    st: FsModel,
    stack: Seq<Seq<char>>,
)
    ensures
        undo_run(a + b, st, stack) == ({
            let o = undo_run(a, st, stack);
            undo_run(b, o.state, o.stack)
        }),
    decreases a.len(),
{
    if a.len() == 0 {
        assert(a + b =~= b);
    } else {
        assert((a + b)[0] == a[0]);
        assert((a + b).drop_first() =~= a.drop_first() + b);
        let o = undo_step(st, stack, a[0]);
        lemma_undo_run_concat(a.drop_first(), b, o.state, o.stack);
    }
}

/// The undo pass unwinds the forward run step by step, leaving any entries
/// below the run's own navigation history untouched.
proof fn lemma_undo_unwinds(items: Seq<ScriptItemView>, st0: FsModel, base: Seq<Seq<char>>)
    requires
        ok_run(items, st0),
    ensures
        undo_run(spec_undo_plan(items), forward_run(items, st0), base + replay_stack(
            items,
            st0.cwd,
        )) == (UndoOutcome { state: st0, stack: base }),
    decreases items.len(), 1int,
{
    if items.len() == 0 {
        assert(base + replay_stack(items, st0.cwd) =~= base);
    } else {
        let first = items[0];
        let rest = items.drop_first();
        let st1 = forward_step(st0, first);
        let fwd_end = forward_run(items, st0);
        assert(fwd_end == forward_run(rest, st1));
        let u = spec_undo_items(first);
        assert(spec_undo_plan(items) == spec_undo_plan(rest) + u);
        if u.len() > 0 {
            assert(u.drop_first() =~= Seq::<UndoStepView>::empty());
        }
        match first {
            ScriptItemView::Action { command } => match command {
                CommandView::ChangeDirectory { target } => {
                    let stacked = base + seq![st0.cwd];
                    assert(replay_stack(items, st0.cwd) == seq![st0.cwd] + replay_stack(
                        rest,
                        st1.cwd,
                    ));
                    assert(base + replay_stack(items, st0.cwd) =~= stacked + replay_stack(
                        rest,
                        st1.cwd,
                    ));
                    lemma_undo_unwinds(rest, st1, stacked);
                    lemma_undo_run_concat(
                        spec_undo_plan(rest),
                        u,
                        fwd_end,
                        stacked + replay_stack(rest, st1.cwd),
                    );
                    assert(stacked.last() == st0.cwd);
                    assert(stacked.drop_last() =~= base);
                    assert(u == seq![UndoStepView::RestoreDir]);
                    lemma_undo_run_one(UndoStepView::RestoreDir, st1, stacked);
                    let o = undo_step(st1, stacked, UndoStepView::RestoreDir);
                    assert(o.state == FsModel { cwd: st0.cwd, entries: st0.entries });
                    assert(o.state == st0);
                },
                CommandView::MakeDirectory { name } => {
                    lemma_unwind_nonnav(items, st0, base);
                    let r = resolve(st0.cwd, name);
                    assert(st1.entries.remove(r) =~= st0.entries);
                    assert(u == seq![UndoStepView::RemoveDirectory { name }]);
                    lemma_undo_run_one(UndoStepView::RemoveDirectory { name }, st1, base);
                    let o = undo_step(st1, base, UndoStepView::RemoveDirectory { name });
                    assert(o.state == st0);
                },
                CommandView::MakeFile { name } => {
                    lemma_unwind_nonnav(items, st0, base);
                    let r = resolve(st0.cwd, name);
                    assert(st1.entries.remove(r) =~= st0.entries);
                    assert(u == seq![UndoStepView::RemoveFile { name }]);
                    lemma_undo_run_one(UndoStepView::RemoveFile { name }, st1, base);
                    let o = undo_step(st1, base, UndoStepView::RemoveFile { name });
                    assert(o.state == st0);
                },
                CommandView::Print { text } => {
                    lemma_unwind_nonnav(items, st0, base);
                    assert(undo_run(u, st1, base) == (UndoOutcome { state: st1, stack: base }));
                },
                CommandView::Move { source, destination } => {
                    lemma_unwind_nonnav(items, st0, base);
                    let rs = resolve(st0.cwd, source);
                    let rd = resolve(st0.cwd, destination);
                    assert(st1.entries[rd] == st0.entries[rs]);
                    assert(st1.entries.remove(rd).insert(rs, st1.entries[rd]) =~= st0.entries);
                    assert(u == seq![UndoStepView::RestoreMove { source, destination }]);
                    lemma_undo_run_one(UndoStepView::RestoreMove { source, destination }, st1, base);
                    let o = undo_step(
                        st1,
                        base,
                        UndoStepView::RestoreMove { source, destination },
                    );
                    assert(o.state == st0);
                },
                CommandView::SetExecutable { target } => {
                    lemma_unwind_nonnav(items, st0, base);
                    assert(undo_run(u, st1, base) == (UndoOutcome { state: st1, stack: base }));
                },
                CommandView::Unknown { token } => {
                    lemma_unwind_nonnav(items, st0, base);
                    assert(u == seq![UndoStepView::ReportUnknown { token }]);
                    lemma_undo_run_one(UndoStepView::ReportUnknown { token }, st1, base);
                    let o = undo_step(st1, base, UndoStepView::ReportUnknown { token });
                    assert(o.state == st1);
                    assert(st1 == st0);
                },
            },
            ScriptItemView::Malformed { error } => {
                assert(false);
            },
        }
    }
}

/// The shared part of the non-navigation cases of [`lemma_undo_unwinds`]:
/// the first item leaves the working directory and the replay stack alone,
/// so undoing the rest lands back at its post-step state.
proof fn lemma_unwind_nonnav(items: Seq<ScriptItemView>, st0: FsModel, base: Seq<Seq<char>>)
    requires
        ok_run(items, st0),
        items.len() > 0,
        !(items[0] matches ScriptItemView::Action {
            command: CommandView::ChangeDirectory { .. },
        }),
    ensures
        forward_step(st0, items[0]).cwd == st0.cwd,
        undo_run(
            spec_undo_plan(items.drop_first()),
            forward_run(items, st0),
            base + replay_stack(items, st0.cwd),
        ) == (UndoOutcome { state: forward_step(st0, items[0]), stack: base }),
        undo_run(spec_undo_plan(items), forward_run(items, st0), base + replay_stack(
            items,
            st0.cwd,
        )) == ({
            let o = undo_run(
                spec_undo_items(items[0]),
                forward_step(st0, items[0]),
                base,
            );
            o
        }),
    decreases items.len(), 0int,
{
    let first = items[0];
    let rest = items.drop_first();
    let st1 = forward_step(st0, first);
    assert(st1.cwd == st0.cwd);
    assert(replay_stack(items, st0.cwd) == replay_stack(rest, st1.cwd));
    lemma_undo_unwinds(rest, st1, base);
    lemma_undo_run_concat(
        spec_undo_plan(rest),
        spec_undo_items(first),
        forward_run(items, st0),
        base + replay_stack(rest, st1.cwd),
    );
}

/// The round-trip theorem: a forward run of a script whose steps are all
/// invertible, followed by a reverse run — the replay pass rebuilding the
/// navigation history from the same starting directory, then the undo pass —
/// restores the model to its initial state, working directory included, and
/// leaves the navigation history empty.
pub proof fn lemma_forward_then_reverse_restores(items: Seq<ScriptItemView>, st0: FsModel)
    requires
        ok_run(items, st0),
    ensures
        undo_run(spec_undo_plan(items), forward_run(items, st0), replay_stack(items, st0.cwd))
            == (UndoOutcome { state: st0, stack: Seq::<Seq<char>>::empty() }),
{
    lemma_undo_unwinds(items, st0, Seq::empty());
    assert(Seq::<Seq<char>>::empty() + replay_stack(items, st0.cwd) =~= replay_stack(
        items,
        st0.cwd,
    ));
}

} // verus!
