//! User-configured extension commands bound to keys.
use vstd::prelude::*;
use crate::linear::{Issue, IssueView};
use crate::paths::{config_file, config_file_in, opt_view, ConfigError};
use crate::text::{i64_to_string, owned, push_char, replace, replace_all, signed_decimal};

verus! {

/// A command the user bound to a key, run against the selected issue.
#[derive(Clone, Debug)]
pub struct Extension {
    pub key: char,
    pub name: String,
    pub command: String,
    pub description: String,
}

impl Extension {
    /// A copy of this extension.
    pub fn duplicate(&self) -> (r: Extension)
        ensures
            r == *self,
    {
        Extension {
            key: self.key,
            name: self.name.clone(),
            command: self.command.clone(),
            description: self.description.clone(),
        }
    }
}

/// One line of output as it arrives, or the run's final outcome.
#[derive(Debug)]
pub enum ExtensionEvent {
    Line { name: String, stderr: bool, text: String },
    Done { name: String, success: bool },
}

/// An output event as plain values.
pub enum EventView {
    Line { name: Seq<char>, stderr: bool, text: Seq<char> },
    Done { name: Seq<char>, success: bool },
}

impl View for ExtensionEvent {
    type V = EventView;

    open spec fn view(&self) -> EventView {
        match self {
            ExtensionEvent::Line { name, stderr, text } => EventView::Line {
                name: name@,
                stderr: *stderr,
                text: text@,
            },
            ExtensionEvent::Done { name, success } => EventView::Done { name: name@, success: *success },
        }
    }
}

/// The views of `v`'s events, in order.
pub open spec fn events_view(v: Seq<ExtensionEvent>) -> Seq<EventView> {
    v.map_values(|e: ExtensionEvent| e@)
}

/// The extension an output event belongs to.
pub open spec fn event_name(e: EventView) -> Seq<char> {
    match e {
        EventView::Line { name, .. } => name,
        EventView::Done { name, .. } => name,
    }
}

/// What happens to a running extension, as the runner observes it.
pub enum RunEvent {
    /// The command could not be started; the message says why.
    SpawnFailed(String),
    /// A line of standard output.
    StdoutLine(String),
    /// Standard output has ended (or could not be read further).
    StdoutClosed,
    /// A line of standard error.
    StderrLine(String),
    /// Standard error has ended (or could not be read further).
    StderrClosed,
    /// The process exited, successfully or not.
    Exited(bool),
    /// The user asked for the run to stop.
    Cancel,
}

/// A run event as plain values.
pub enum RunEventView {
    SpawnFailed(Seq<char>),
    StdoutLine(Seq<char>),
    StdoutClosed,
    StderrLine(Seq<char>),
    StderrClosed,
    Exited(bool),
    Cancel,
}

impl View for RunEvent {
    type V = RunEventView;

    open spec fn view(&self) -> RunEventView {
        match self {
            RunEvent::SpawnFailed(m) => RunEventView::SpawnFailed(m@),
            RunEvent::StdoutLine(t) => RunEventView::StdoutLine(t@),
            RunEvent::StdoutClosed => RunEventView::StdoutClosed,
            RunEvent::StderrLine(t) => RunEventView::StderrLine(t@),
            RunEvent::StderrClosed => RunEventView::StderrClosed,
            RunEvent::Exited(ok) => RunEventView::Exited(*ok),
            RunEvent::Cancel => RunEventView::Cancel,
        }
    }
}

/// What the runner does after sending a step's events.
#[derive(Clone, Copy, Debug, PartialEq, Eq, Structural)]
pub enum RunAction {
    /// Keep waiting for the next event.
    Continue,
    /// Kill the process and its descendants before sending the events; the
    /// run is then over.
    KillTree,
    /// The run is over.
    Stop,
}

/// The runner's state: the extension's name, which output streams are
/// still read, and whether the final `Done` has been sent.
pub struct RunState {
    pub name: String,
    pub stdout_open: bool,
    pub stderr_open: bool,
    pub finished: bool,
}

/// The runner's state as plain values.
pub struct RunStateView {
    pub name: Seq<char>,
    pub stdout_open: bool,
    pub stderr_open: bool,
    pub finished: bool,
}

impl View for RunState {
    type V = RunStateView;

    open spec fn view(&self) -> RunStateView {
        RunStateView {
            name: self.name@,
            stdout_open: self.stdout_open,
            stderr_open: self.stderr_open,
            finished: self.finished,
        }
    }
}

impl RunState {
    /// The state of a run of extension `name` that has just started: both
    /// streams read, nothing sent.
    pub fn new(name: String) -> (r: RunState)
        ensures
            r@ == (RunStateView { name: name@, stdout_open: true, stderr_open: true, finished: false }),
    {
        RunState { name, stdout_open: true, stderr_open: true, finished: false }
    }
}

/// One step of the runner: the state after `ev`, the events to send, and
/// what to do next. A launch failure reports the error on standard error
/// and ends the run unsuccessfully; each output line is reported on its own
/// stream; a closed stream is no longer read; an exit ends the run with its
/// status; a cancel kills the process tree, reports the cancellation on
/// standard error and ends the run unsuccessfully.
pub open spec fn run_step_spec(st: RunStateView, ev: RunEventView) -> (RunStateView, Seq<EventView>, RunAction) {
    let name = st.name;
    let done = RunStateView { finished: true, ..st };
    match ev {
        RunEventView::SpawnFailed(m) => (
            done,
            seq![
                EventView::Line { name, stderr: true, text: "failed to launch command: "@ + m },
                EventView::Done { name, success: false },
            ],
            RunAction::Stop,
        ),
        RunEventView::StdoutLine(t) => (
            st,
            seq![EventView::Line { name, stderr: false, text: t }],
            RunAction::Continue,
        ),
        RunEventView::StdoutClosed => (
            RunStateView { stdout_open: false, ..st },
            Seq::empty(),
            RunAction::Continue,
        ),
        RunEventView::StderrLine(t) => (
            st,
            seq![EventView::Line { name, stderr: true, text: t }],
            RunAction::Continue,
        ),
        RunEventView::StderrClosed => (
            RunStateView { stderr_open: false, ..st },
            Seq::empty(),
            RunAction::Continue,
        ),
        RunEventView::Exited(ok) => (done, seq![EventView::Done { name, success: ok }], RunAction::Stop),
        RunEventView::Cancel => (
            done,
            seq![
                EventView::Line { name, stderr: true, text: "(cancelled by user)"@ },
                EventView::Done { name, success: false },
            ],
            RunAction::KillTree,
        ),
    }
}

/// Decides what the runner does on `ev`: updates the state and returns the
/// events to send and the next action.
pub fn run_step(st: &mut RunState, ev: RunEvent) -> (r: (Vec<ExtensionEvent>, RunAction))
    requires
        !old(st).finished,
    ensures
        (final(st)@, events_view(r.0@), r.1) == run_step_spec(old(st)@, ev@),
{
    let mut out: Vec<ExtensionEvent> = Vec::new();
    let action = match ev {
        RunEvent::SpawnFailed(m) => {
            let mut text = owned("failed to launch command: ");
            text.append(m.as_str());
            out.push(ExtensionEvent::Line { name: st.name.clone(), stderr: true, text });
            out.push(ExtensionEvent::Done { name: st.name.clone(), success: false });
            st.finished = true;
            RunAction::Stop
        },
        RunEvent::StdoutLine(text) => {
            out.push(ExtensionEvent::Line { name: st.name.clone(), stderr: false, text });
            RunAction::Continue
        },
        RunEvent::StdoutClosed => {
            st.stdout_open = false;
            RunAction::Continue
        },
        RunEvent::StderrLine(text) => {
            out.push(ExtensionEvent::Line { name: st.name.clone(), stderr: true, text });
            RunAction::Continue
        },
        RunEvent::StderrClosed => {
            st.stderr_open = false;
            RunAction::Continue
        },
        RunEvent::Exited(ok) => {
            out.push(ExtensionEvent::Done { name: st.name.clone(), success: ok });
            st.finished = true;
            RunAction::Stop
        },
        RunEvent::Cancel => {
            out.push(
                ExtensionEvent::Line {
                    name: st.name.clone(),
                    stderr: true,
                    text: owned("(cancelled by user)"),
                },
            );
            out.push(ExtensionEvent::Done { name: st.name.clone(), success: false });
            st.finished = true;
            RunAction::KillTree
        },
    };
    assert(events_view(out@) =~= run_step_spec(old(st)@, ev@).1);
    (out, action)
}

/// The state and the events sent after feeding `evs` to a run in state
/// `st`, one step each, until the run is over (later events are not fed).
pub open spec fn run_trace(st: RunStateView, evs: Seq<RunEventView>) -> (RunStateView, Seq<EventView>)
    decreases evs.len(),
{
    if evs.len() == 0 || st.finished {
        (st, Seq::empty())
    } else {
        let (st1, out1, _action) = run_step_spec(st, evs[0]);
        let (st2, out2) = run_trace(st1, evs.drop_first());
        (st2, out1 + out2)
    }
}

/// Whatever happens to a run, every event it sends carries the extension's
/// name, and it sends a `Done` event exactly when it is over: then exactly
/// one, and last.
pub proof fn lemma_run_reports_once(st: RunStateView, evs: Seq<RunEventView>)
    requires
        !st.finished,
    ensures
        ({
            let (fin, out) = run_trace(st, evs);
            &&& fin.name == st.name
            &&& forall|i: int| 0 <= i < out.len() ==> event_name(#[trigger] out[i]) == st.name
            &&& fin.finished ==> out.len() > 0 && out.last() is Done
            &&& forall|i: int|
                0 <= i < out.len() && (fin.finished ==> i < out.len() - 1) ==> !(#[trigger] out[i] is Done)
        }),
    decreases evs.len(),
{
    if evs.len() == 0 {
    } else {
        let (st1, out1, _a) = run_step_spec(st, evs[0]);
        let (st2, out2) = run_trace(st1, evs.drop_first());
        let out = out1 + out2;
        assert(run_trace(st, evs) == (st2, out));
        if st1.finished {
            assert(out2 =~= Seq::<EventView>::empty());
            assert(out =~= out1);
        } else {
            lemma_run_reports_once(st1, evs.drop_first());
            assert(out1 =~= Seq::<EventView>::empty() || out1.len() == 1);
            assert forall|i: int| 0 <= i < out.len() implies event_name(#[trigger] out[i]) == st.name by {
                if i >= out1.len() {
                    assert(out[i] == out2[i - out1.len()]);
                }
            }
            assert forall|i: int|
                0 <= i < out.len() && (st2.finished ==> i < out.len() - 1) implies !(#[trigger] out[i] is Done) by {
                if i >= out1.len() {
                    assert(out[i] == out2[i - out1.len()]);
                }
            }
            if st2.finished {
                assert(out.last() == out2.last());
            }
        }
    }
}

/// Keys already used by the core UI; extensions bound to them are skipped.
pub open spec fn is_reserved(c: char) -> bool {
    c == 'q' || c == 'j' || c == 'k' || c == 'o' || c == 'r' || c == 'f' || c == 'l' || c == 'h'
        || c == 'c' || c == 'd' || c == 'u' || c == 'g' || c == 'G' || c == 'K' || c == 's' || c
        == 'n'
}

/// Whether `c` is one of the keys the core UI uses.
pub fn reserved_key(c: char) -> (r: bool)
    ensures
        r == is_reserved(c),
{
    c == 'q' || c == 'j' || c == 'k' || c == 'o' || c == 'r' || c == 'f' || c == 'l' || c == 'h'
        || c == 'c' || c == 'd' || c == 'u' || c == 'g' || c == 'G' || c == 'K' || c == 's' || c
        == 'n'
}

/// Whether some extension of `s` is bound to `c`.
pub open spec fn binds(s: Seq<Extension>, c: char) -> bool {
    exists|i: int| 0 <= i < s.len() && #[trigger] s[i].key == c
}

/// The extensions of `entries` that are kept, in order: those on a reserved
/// key, and those on a key an earlier kept extension already uses, are
/// skipped.
pub open spec fn kept_extensions(entries: Seq<Extension>) -> Seq<Extension>
    decreases entries.len(),
{
    if entries.len() == 0 {
        Seq::empty()
    } else {
        let prev = kept_extensions(entries.drop_last());
        let e = entries.last();
        if is_reserved(e.key) || binds(prev, e.key) {
            prev
        } else {
            prev.push(e)
        }
    }
}

/// The warning for extension `e` that uses a reserved key.
pub open spec fn reserved_warning(e: Extension) -> Seq<char> {
    "warning: extension '"@ + e.name@ + "' uses reserved key '"@ + seq![e.key] + "', skipping"@
}

/// The warning for extension `e` whose key is already taken.
pub open spec fn duplicate_warning(e: Extension) -> Seq<char> {
    "warning: extension '"@ + e.name@ + "' reuses key '"@ + seq![e.key]
        + "' already bound by another extension, skipping"@
}

/// The warnings for the skipped extensions of `entries`, in order.
pub open spec fn skip_warnings(entries: Seq<Extension>) -> Seq<Seq<char>>
    decreases entries.len(),
{
    if entries.len() == 0 {
        Seq::empty()
    } else {
        let prev = skip_warnings(entries.drop_last());
        let kept = kept_extensions(entries.drop_last());
        let e = entries.last();
        if is_reserved(e.key) {
            prev.push(reserved_warning(e))
        } else if binds(kept, e.key) {
            prev.push(duplicate_warning(e))
        } else {
            prev
        }
    }
}

fn warning(e: &Extension, middle: &str, tail: &str) -> (r: String)
    ensures
        r@ == "warning: extension '"@ + e.name@ + middle@ + seq![e.key] + tail@,
{
    let mut s = owned("warning: extension '");
    s.append(e.name.as_str());
    s.append(middle);
    push_char(&mut s, e.key);
    s.append(tail);
    s
}

/// Keeps the configured extensions that may be used, and says why each
/// other one is skipped: entries bound to reserved keys, or to a key an
/// earlier entry already took, are dropped.
pub fn select_extensions(entries: Vec<Extension>) -> (r: (Vec<Extension>, Vec<String>))
    ensures
        r.0@ == kept_extensions(entries@),
        crate::text::views(r.1@) == skip_warnings(entries@),
{
    let mut kept: Vec<Extension> = Vec::new();
    let mut warnings: Vec<String> = Vec::new();
    let mut i: usize = 0;
    while i < entries.len()
        invariant
            i <= entries.len(),
            kept@ == kept_extensions(entries@.take(i as int)),
            crate::text::views(warnings@) == skip_warnings(entries@.take(i as int)),
        decreases entries.len() - i,
    {
        let e = &entries[i];
        assert(entries@.take(i + 1).drop_last() =~= entries@.take(i as int));
        assert(entries@.take(i + 1).last() == entries@[i as int]);
        let ghost prev_w = warnings@;
        if reserved_key(e.key) {
            warnings.push(warning(e, "' uses reserved key '", "', skipping"));
            assert(crate::text::views(warnings@) =~= crate::text::views(prev_w).push(
                reserved_warning(*e),
            ));
        } else {
            let mut taken = false;
            let mut k: usize = 0;
            while k < kept.len() && !taken
                invariant
                    k <= kept.len(),
                    taken == exists|j: int| 0 <= j < k && #[trigger] kept@[j].key == e.key,
                decreases kept.len() - k,
            {
                if kept[k].key == e.key {
                    taken = true;
                }
                k = k + 1;
            }
            if taken {
                warnings.push(
                    warning(e, "' reuses key '", "' already bound by another extension, skipping"),
                );
                assert(crate::text::views(warnings@) =~= crate::text::views(prev_w).push(
                    duplicate_warning(*e),
                ));
            } else {
                kept.push(e.duplicate());
            }
        }
        i = i + 1;
    }
    assert(entries@.take(entries.len() as int) =~= entries@);
    (kept, warnings)
}

/// The command line for running `template` on an issue: each `{field}`
/// placeholder replaced by the issue's value, in this order.
pub open spec fn command_for(template: Seq<char>, issue: IssueView, project_root: Option<
    Seq<char>,
>) -> Seq<char> {
    let s = replace_all(template, "{identifier}"@, issue.identifier);
    let s = replace_all(s, "{title}"@, issue.title);
    let s = replace_all(s, "{url}"@, issue.url);
    let s = replace_all(s, "{team}"@, issue.team_key);
    let s = replace_all(s, "{state}"@, issue.state.name);
    let s = replace_all(s, "{priority}"@, signed_decimal(issue.priority as int));
    let s = replace_all(
        s,
        "{assignee}"@,
        match issue.assignee {
            Some(a) => a,
            None => Seq::empty(),
        },
    );
    let s = replace_all(
        s,
        "{project}"@,
        match issue.project {
            Some(p) => p,
            None => Seq::empty(),
        },
    );
    replace_all(
        s,
        "{project_root}"@,
        match project_root {
            Some(r) => r,
            None => Seq::empty(),
        },
    )
}

/// Substitutes the issue's fields (and the project root, if any) into the
/// `{field}` placeholders of an extension's command template.
pub fn build_command(template: &str, issue: &Issue, project_root: Option<&str>) -> (r: String)
    ensures
        r@ == command_for(template@, issue@, opt_view(project_root)),
{
    proof {
        reveal_strlit("{identifier}");
        reveal_strlit("{title}");
        reveal_strlit("{url}");
        reveal_strlit("{team}");
        reveal_strlit("{state}");
        reveal_strlit("{priority}");
        reveal_strlit("{assignee}");
        reveal_strlit("{project}");
        reveal_strlit("{project_root}");
        reveal_strlit("");
        assert(""@ =~= Seq::<char>::empty());
    }
    let s = replace(template, "{identifier}", issue.identifier.as_str());
    let s = replace(s.as_str(), "{title}", issue.title.as_str());
    let s = replace(s.as_str(), "{url}", issue.url.as_str());
    let s = replace(s.as_str(), "{team}", issue.team.key.as_str());
    let s = replace(s.as_str(), "{state}", issue.state.name.as_str());
    let priority = i64_to_string(issue.priority);
    let s = replace(s.as_str(), "{priority}", priority.as_str());
    let s = match &issue.assignee {
        Some(a) => replace(s.as_str(), "{assignee}", a.name.as_str()),
        None => replace(s.as_str(), "{assignee}", ""),
    };
    let s = match &issue.project {
        Some(p) => replace(s.as_str(), "{project}", p.name.as_str()),
        None => replace(s.as_str(), "{project}", ""),
    };
    match project_root {
        Some(r) => replace(s.as_str(), "{project_root}", r),
        None => replace(s.as_str(), "{project_root}", ""),
    }
}

/// Path of the extensions file, `~/.harness/extensions.toml`.
pub fn config_path() -> (r: Result<String, ConfigError>)
    ensures
        r matches Ok(p) ==> exists|home: Seq<char>| p@ == config_file_in(home, "extensions.toml"@),
        r matches Err(e) ==> e == ConfigError::NoHomeDirectory,
{
    config_file("extensions.toml")
}


/// The kept extensions use no reserved key, no two of them share a key, and
/// each comes from the configured entries.
pub proof fn lemma_kept_extensions_valid(entries: Seq<Extension>)
    ensures
        forall|i: int|
            0 <= i < kept_extensions(entries).len() ==> !is_reserved(
                #[trigger] kept_extensions(entries)[i].key,
            ),
        forall|i: int, j: int|
            0 <= i < j < kept_extensions(entries).len() ==> #[trigger] kept_extensions(
                entries,
            )[i].key != #[trigger] kept_extensions(entries)[j].key,
        forall|i: int|
            0 <= i < kept_extensions(entries).len() ==> entries.contains(
                #[trigger] kept_extensions(entries)[i],
            ),
    decreases entries.len(),
{
    if entries.len() > 0 {
        let prev_entries = entries.drop_last();
        lemma_kept_extensions_valid(prev_entries);
        let prev = kept_extensions(prev_entries);
        let e = entries.last();
        let k = kept_extensions(entries);
        assert forall|i: int| 0 <= i < k.len() implies entries.contains(#[trigger] k[i]) by {
            if i < prev.len() {
                assert(k[i] == prev[i]);
                assert(prev_entries.contains(prev[i]));
                let m = choose|m: int| 0 <= m < prev_entries.len() && prev_entries[m] == prev[i];
                assert(entries[m] == prev[i]);
            } else {
                assert(k[i] == e);
                assert(entries[entries.len() - 1] == e);
            }
        }
        if !(is_reserved(e.key) || binds(prev, e.key)) {
            assert forall|i: int, j: int| 0 <= i < j < k.len() implies #[trigger] k[i].key
                != #[trigger] k[j].key by {
                if j == prev.len() {
                    assert(k[i] == prev[i]);
                    assert(!(prev[i].key == e.key));
                } else {
                    assert(k[i] == prev[i] && k[j] == prev[j]);
                }
            }
            assert forall|i: int| 0 <= i < k.len() implies !is_reserved(#[trigger] k[i].key) by {
                if i < prev.len() {
                    assert(k[i] == prev[i]);
                }
            }
        }
    }
}

} // verus!
