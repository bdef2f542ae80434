//! Forward execution planning: the actions that running a script in file
//! order performs, one per item, in item order. The caller performs each
//! action against the real filesystem and reports its outcome; a failed
//! action never changes which actions follow it.

use vstd::prelude::*;
use crate::command::{Command, CommandView, ParseError};
use crate::script::{items_of, parse_script, ScriptItem, ScriptItemView};

verus! {

/// One action of a forward run.
pub enum ForwardAction {
    /// Set the working directory (`dir`); on success the resulting absolute
    /// path is reported, on failure the working directory stays unchanged.
    SetCwd { target: String },
    /// Create the directory and all missing parents (`mkdir`); a
    /// pre-existing directory counts as success.
    CreateDirectory { name: String },
    /// Create an empty file, truncating an existing one (`make`).
    CreateFile { name: String },
    /// Write the text to standard output (`print`).
    PrintText { text: String },
    /// Rename source to destination (`move`).
    Rename { source: String, destination: String },
    /// Set the target's permissions to owner read/write/execute (`chmod`).
    MakeExecutable { target: String },
    /// Report the unrecognized command name as an error.
    ReportUnknown { token: String },
    /// Report a malformed line's error text.
    ReportMalformed { error: ParseError },
}

/// The mathematical value of a [`ForwardAction`].
pub enum ForwardActionView {
    SetCwd { target: Seq<char> },
    CreateDirectory { name: Seq<char> },
    CreateFile { name: Seq<char> },
    PrintText { text: Seq<char> },
    Rename { source: Seq<char>, destination: Seq<char> },
    MakeExecutable { target: Seq<char> },
    ReportUnknown { token: Seq<char> },
    ReportMalformed { error: ParseError },
}

impl View for ForwardAction {
    type V = ForwardActionView;

    open spec fn view(&self) -> ForwardActionView {
        match self {
            ForwardAction::SetCwd { target } => ForwardActionView::SetCwd { target: target@ },
            ForwardAction::CreateDirectory { name } => ForwardActionView::CreateDirectory {
                name: name@,
            },
            ForwardAction::CreateFile { name } => ForwardActionView::CreateFile { name: name@ },
            ForwardAction::PrintText { text } => ForwardActionView::PrintText { text: text@ },
            ForwardAction::Rename { source, destination } => ForwardActionView::Rename {
                source: source@,
                destination: destination@,
            },
            ForwardAction::MakeExecutable { target } => ForwardActionView::MakeExecutable {
                target: target@,
            },
            ForwardAction::ReportUnknown { token } => ForwardActionView::ReportUnknown {
                token: token@,
            },
            ForwardAction::ReportMalformed { error } => ForwardActionView::ReportMalformed {
                error: *error,
            },
        }
    }
}

impl DeepView for ForwardAction {
    type V = ForwardActionView;

    open spec fn deep_view(&self) -> ForwardActionView {
        self.view()
    }
}

/// The forward action of one script item.
pub open spec fn spec_forward_action(item: ScriptItemView) -> ForwardActionView {
    match item {
        ScriptItemView::Action { command } => match command {
            CommandView::ChangeDirectory { target } => ForwardActionView::SetCwd { target },
            CommandView::MakeDirectory { name } => ForwardActionView::CreateDirectory { name },
            CommandView::MakeFile { name } => ForwardActionView::CreateFile { name },
            CommandView::Print { text } => ForwardActionView::PrintText { text },
            CommandView::Move { source, destination } => ForwardActionView::Rename {
                source,
                destination,
            },
            CommandView::SetExecutable { target } => ForwardActionView::MakeExecutable { target },
            CommandView::Unknown { token } => ForwardActionView::ReportUnknown { token },
        },
        ScriptItemView::Malformed { error } => ForwardActionView::ReportMalformed { error },
    }
}

/// The forward plan of a script's items: one action per item, in item order.
pub open spec fn spec_forward_plan(items: Seq<ScriptItemView>) -> Seq<ForwardActionView> {
    items.map_values(|it: ScriptItemView| spec_forward_action(it))
}

/// Plans a forward run: one action per script item, in item order.
pub fn forward_plan(items: &Vec<ScriptItem>) -> (r: Vec<ForwardAction>)
    ensures
        r.deep_view() == spec_forward_plan(items.deep_view()),
{
    let ghost its = items.deep_view();
    let mut out: Vec<ForwardAction> = Vec::new();
    let mut i: usize = 0;
    while i < items.len()
        invariant
            i <= items@.len(),
            its == items.deep_view(),
            its.len() == items@.len(),
            out.deep_view().len() == i,
            forall|k: int| 0 <= k < i ==> out.deep_view()[k] == spec_forward_action(its[k]),
        decreases items@.len() - i,
    {
        let action = match &items[i] {
            ScriptItem::Action { command } => match command {
                Command::ChangeDirectory { target } => ForwardAction::SetCwd {
                    target: target.clone(),
                },
                Command::MakeDirectory { name } => ForwardAction::CreateDirectory {
                    name: name.clone(),
                },
                Command::MakeFile { name } => ForwardAction::CreateFile { name: name.clone() },
                Command::Print { text } => ForwardAction::PrintText { text: text.clone() },
                Command::Move { source, destination } => ForwardAction::Rename {
                    source: source.clone(),
                    destination: destination.clone(),
                },
                Command::SetExecutable { target } => ForwardAction::MakeExecutable {
                    target: target.clone(),
                },
                Command::Unknown { token } => ForwardAction::ReportUnknown {
                    token: token.clone(),
                },
            },
            ScriptItem::Malformed { error } => ForwardAction::ReportMalformed { error: *error },
        };
        proof {
            assert(action@ == spec_forward_action(its[i as int]));
        }
        let ghost old_out = out.deep_view();
        let ghost a = action@;
        out.push(action);
        proof {
            assert(out.deep_view() =~= old_out + seq![a]);
        }
        i = i + 1;
    }
    proof {
        assert(out.deep_view() =~= its.map_values(|it: ScriptItemView| spec_forward_action(it)));
    }
    out
}

/// Parses a script and plans its forward run in one step.
pub fn plan_forward_run(script: &str) -> (r: Vec<ForwardAction>)
    ensures
        r.deep_view() == spec_forward_plan(items_of(script@)),
{
    let items = parse_script(script);
    forward_plan(&items)
}

} // verus!
