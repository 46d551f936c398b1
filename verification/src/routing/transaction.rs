//! Changes to the host that are made together or not at all.
//!
//! A transaction makes its changes in order. When one fails, those already made
//! are undone in reverse order and the failure is reported; failures while
//! undoing are passed over. The program carries out the pending command and
//! reports its outcome until nothing is pending.
use vstd::prelude::*;

use crate::error::{Error, ErrorView};
use crate::text;

verus! {

/// Something to do on the host.
#[derive(Debug, Clone, PartialEq, Eq)]
pub enum HostCommand {
    /// Run a program.
    Run { program: String, args: Vec<String> },
    /// Write a file.
    WriteFile { path: String, contents: String },
}

/// A command as a mathematical value.
pub enum HostCommandView {
    Run { program: Seq<char>, args: Seq<Seq<char>> },
    WriteFile { path: Seq<char>, contents: Seq<char> },
}

impl View for HostCommand {
    type V = HostCommandView;

    open spec fn view(&self) -> HostCommandView {
        match *self {
            HostCommand::Run { program, args } => HostCommandView::Run {
                program: program@,
                args: text::strings(args@),
            },
            HostCommand::WriteFile { path, contents } => HostCommandView::WriteFile {
                path: path@,
                contents: contents@,
            },
        }
    }
}

/// The same strings once more.
pub fn copy_strings(list: &Vec<String>) -> (copy: Vec<String>)
    ensures
        text::strings(copy@) == text::strings(list@),
{
    let mut copy: Vec<String> = Vec::new();
    let mut i: usize = 0;
    while i < list.len()
        invariant
            i <= list@.len(),
            text::strings(copy@) == text::strings(list@).take(i as int),
        decreases list@.len() - i,
    {
        let ghost before = copy@;
        copy.push(list[i].clone());
        i = i + 1;
        assert(text::strings(copy@) =~= text::strings(before).push(list@[i - 1]@));
        assert(text::strings(copy@) =~= text::strings(list@).take(i as int));
    }
    assert(text::strings(list@).take(i as int) =~= text::strings(list@));
    copy
}

impl HostCommand {
    /// The same command once more.
    pub fn copy(&self) -> (c: Self)
        ensures
            c@ == self@,
    {
        match self {
            HostCommand::Run { program, args } => HostCommand::Run {
                program: program.clone(),
                args: copy_strings(args),
            },
            HostCommand::WriteFile { path, contents } => HostCommand::WriteFile {
                path: path.clone(),
                contents: contents.clone(),
            },
        }
    }
}

/// A change: how it is made, unless it is in place already, and how it is undone.
#[derive(Debug, Clone, PartialEq, Eq)]
pub struct Change {
    pub make: Option<HostCommand>,
    pub undo: HostCommand,
}

/// A change as a mathematical value.
pub struct ChangeView {
    pub make: Option<HostCommandView>,
    pub undo: HostCommandView,
}

impl View for Change {
    type V = ChangeView;

    open spec fn view(&self) -> ChangeView {
        ChangeView {
            make: match self.make {
                Some(c) => Some(c@),
                None => None,
            },
            undo: self.undo@,
        }
    }
}

/// The changes behind a vector.
pub open spec fn changes_view(changes: Seq<Change>) -> Seq<ChangeView> {
    Seq::new(changes.len(), |i: int| changes[i]@)
}

/// The commands behind a vector.
pub open spec fn commands_view(commands: Seq<HostCommand>) -> Seq<HostCommandView> {
    Seq::new(commands.len(), |i: int| commands[i]@)
}

/// How far a transaction has come.
#[derive(Debug, Clone, PartialEq, Eq)]
pub enum Progress {
    /// The change with this number is being made.
    Making(usize),
    /// So many changes are left to undo, because of the failure.
    Undoing(usize, Error),
    /// All changes are made.
    Made,
    /// A change failed, and those before it are undone.
    Failed(Error),
}

/// Progress as a mathematical value.
pub enum ProgressView {
    Making(nat),
    Undoing(nat, ErrorView),
    Made,
    Failed(ErrorView),
}

impl View for Progress {
    type V = ProgressView;

    open spec fn view(&self) -> ProgressView {
        match *self {
            Progress::Making(i) => ProgressView::Making(i as nat),
            Progress::Undoing(n, e) => ProgressView::Undoing(n as nat, e@),
            Progress::Made => ProgressView::Made,
            Progress::Failed(e) => ProgressView::Failed(e@),
        }
    }
}

/// Changes that are made together or not at all.
#[derive(Debug)]
pub struct Transaction {
    changes: Vec<Change>,
    progress: Progress,
}

/// A transaction as a mathematical value.
pub struct TransactionView {
    pub changes: Seq<ChangeView>,
    pub progress: ProgressView,
}

impl View for Transaction {
    type V = TransactionView;

    closed spec fn view(&self) -> TransactionView {
        TransactionView { changes: changes_view(self.changes@), progress: self.progress@ }
    }
}

/// The progress once the changes before `i` are in place: changes that need no
/// making are passed over.
pub open spec fn making_from(changes: Seq<ChangeView>, i: nat) -> ProgressView
    decreases changes.len() - i,
{
    if i >= changes.len() {
        ProgressView::Made
    } else if changes[i as int].make is None {
        making_from(changes, i + 1)
    } else {
        ProgressView::Making(i)
    }
}

/// The progress once `n` changes are left to undo.
pub open spec fn undoing(n: nat, e: ErrorView) -> ProgressView {
    if n == 0 {
        ProgressView::Failed(e)
    } else {
        ProgressView::Undoing(n, e)
    }
}

impl TransactionView {
    /// The transaction before anything is done.
    pub open spec fn begun(changes: Seq<ChangeView>) -> TransactionView {
        TransactionView { changes, progress: making_from(changes, 0) }
    }

    /// The progress points at a change that is there to be made or undone.
    pub open spec fn well_formed(self) -> bool {
        match self.progress {
            ProgressView::Making(i) => i < self.changes.len() && self.changes[i as int].make
                is Some,
            ProgressView::Undoing(n, _) => 0 < n <= self.changes.len(),
            _ => true,
        }
    }

    /// The command to carry out next.
    pub open spec fn pending(self) -> Option<HostCommandView> {
        match self.progress {
            ProgressView::Making(i) => self.changes[i as int].make,
            ProgressView::Undoing(n, _) => Some(self.changes[n - 1].undo),
            _ => None,
        }
    }

    /// The transaction after the pending command's outcome.
    pub open spec fn after(self, outcome: Result<(), ErrorView>) -> TransactionView {
        let progress = match self.progress {
            ProgressView::Making(i) => match outcome {
                Ok(_) => making_from(self.changes, i + 1),
                Err(e) => undoing(i, e),
            },
            ProgressView::Undoing(n, e) => undoing((n - 1) as nat, e),
            other => other,
        };
        TransactionView { changes: self.changes, progress }
    }

    /// The commands that undo the changes, the last one first.
    pub open spec fn cleanup(self) -> Seq<HostCommandView> {
        Seq::new(
            self.changes.len(),
            |i: int| self.changes[self.changes.len() - 1 - i].undo,
        )
    }
}

/// The outcome of a command as a mathematical value.
pub open spec fn outcome_view(outcome: Result<(), Error>) -> Result<(), ErrorView> {
    match outcome {
        Ok(u) => Ok(u),
        Err(e) => Err(e@),
    }
}

impl Transaction {
    /// Every transaction is well-formed.
    #[verifier::type_invariant]
    spec fn inv(&self) -> bool {
        self@.well_formed()
    }

    /// Passes over changes that need no making, from change `i` on.
    fn first_to_make(changes: &Vec<Change>, i: usize) -> (p: Progress)
        requires
            i <= changes@.len(),
        ensures
            p@ == making_from(changes_view(changes@), i as nat),
            p@ is Made || p@ is Making,
            p@ matches ProgressView::Making(k) ==> k < changes@.len() && changes@[k as int].make
                is Some,
        decreases changes@.len() - i,
    {
        if i >= changes.len() {
            Progress::Made
        } else if changes[i].make.is_none() {
            Self::first_to_make(changes, i + 1)
        } else {
            Progress::Making(i)
        }
    }

    /// A transaction of the given changes.
    pub fn begin(changes: Vec<Change>) -> (t: Self)
        ensures
            t@ == TransactionView::begun(changes_view(changes@)),
    {
        let progress = Self::first_to_make(&changes, 0);
        Transaction { changes, progress }
    }

    /// The command to carry out next; `None` once the transaction is over.
    pub fn pending(&self) -> (c: Option<HostCommand>)
        ensures
            match c {
                Some(c) => self@.pending() == Some(c@),
                None => self@.pending() is None,
            },
    {
        proof {
            use_type_invariant(self);
        }
        match &self.progress {
            Progress::Making(i) => match &self.changes[*i].make {
                Some(c) => Some(c.copy()),
                None => None,
            },
            Progress::Undoing(n, _) => Some(self.changes[*n - 1].undo.copy()),
            _ => None,
        }
    }

    /// Takes note of the outcome of the pending command.
    pub fn report(&mut self, outcome: Result<(), Error>)
        ensures
            final(self)@ == old(self)@.after(outcome_view(outcome)),
    {
        proof {
            use_type_invariant(&*self);
        }
        let count: usize = self.changes.len();
        let next = match &self.progress {
            Progress::Making(i) => match outcome {
                Ok(_) => {
                    assert(*i < count);
                    Self::first_to_make(&self.changes, *i + 1)
                },
                Err(e) => if *i == 0 {
                    Progress::Failed(e)
                } else {
                    Progress::Undoing(*i, e)
                },
            },
            Progress::Undoing(n, e) => if *n == 1 {
                Progress::Failed(e.copy())
            } else {
                Progress::Undoing(*n - 1, e.copy())
            },
            Progress::Made => Progress::Made,
            Progress::Failed(e) => Progress::Failed(e.copy()),
        };
        self.progress = next;
    }

    /// The number of the change that is being made.
    pub fn making(&self) -> (i: Option<usize>)
        ensures
            match i {
                Some(i) => self@.progress == ProgressView::Making(i as nat) && i
                    < self@.changes.len(),
                None => !(self@.progress is Making),
            },
    {
        proof {
            use_type_invariant(self);
        }
        match &self.progress {
            Progress::Making(i) => Some(*i),
            _ => None,
        }
    }

    /// Whether all changes are made.
    pub fn is_made(&self) -> (b: bool)
        ensures
            b == (self@.progress is Made),
    {
        match &self.progress {
            Progress::Made => true,
            _ => false,
        }
    }

    /// The failure, once everything is undone.
    pub fn failure(&self) -> (e: Option<Error>)
        ensures
            match e {
                Some(e) => self@.progress == ProgressView::Failed(e@),
                None => !(self@.progress is Failed),
            },
    {
        match &self.progress {
            Progress::Failed(e) => Some(e.copy()),
            _ => None,
        }
    }

    /// The commands that undo the changes, the last change first.
    pub fn cleanup(&self) -> (commands: Vec<HostCommand>)
        ensures
            commands_view(commands@) == self@.cleanup(),
    {
        let mut commands: Vec<HostCommand> = Vec::new();
        let n: usize = self.changes.len();
        let mut i: usize = 0;
        while i < n
            invariant
                i <= n,
                n == self.changes@.len(),
                commands_view(commands@) == self@.cleanup().take(i as int),
            decreases n - i,
        {
            let ghost before = commands@;
            let c = self.changes[n - 1 - i].undo.copy();
            let ghost added = c@;
            commands.push(c);
            i = i + 1;
            assert(commands_view(commands@) =~= commands_view(before).push(added));
            assert(commands_view(commands@) =~= self@.cleanup().take(i as int));
        }
        assert(self@.cleanup().take(i as int) =~= self@.cleanup());
        commands
    }
}

/// The state of a host once the first `n` changes are made, when each command has
/// the effect that `effect` says.
pub open spec fn host_with<H>(
    effect: spec_fn(H, HostCommandView) -> H,
    host: H,
    changes: Seq<ChangeView>,
    n: nat,
) -> H
    decreases n,
{
    if n == 0 {
        host
    } else {
        let before = host_with(effect, host, changes, (n - 1) as nat);
        match changes[n - 1].make {
            Some(c) => effect(before, c),
            None => before,
        }
    }
}

/// Each change can be undone: its undo command takes the host back to where it was
/// before the change.
pub open spec fn reversible<H>(
    effect: spec_fn(H, HostCommandView) -> H,
    host: H,
    changes: Seq<ChangeView>,
) -> bool {
    forall|n: nat|
        n < changes.len() ==> #[trigger] effect(
            host_with(effect, host, changes, n + 1),
            changes[n as int].undo,
        ) == host_with(effect, host, changes, n)
}

/// How many changes are in place.
pub open spec fn in_place(t: TransactionView) -> nat {
    match t.progress {
        ProgressView::Making(i) => i,
        ProgressView::Undoing(n, _) => n,
        ProgressView::Made => t.changes.len(),
        ProgressView::Failed(_) => 0,
    }
}

/// The host after the pending command: a command that fails changes nothing.
pub open spec fn host_after<H>(
    effect: spec_fn(H, HostCommandView) -> H,
    host: H,
    t: TransactionView,
    outcome: Result<(), ErrorView>,
) -> H {
    if t.pending() is Some && outcome is Ok {
        effect(host, t.pending()->Some_0)
    } else {
        host
    }
}

spec fn at_change(changes: Seq<ChangeView>, i: nat) -> TransactionView {
    TransactionView { changes, progress: making_from(changes, i) }
}

proof fn lemma_idle_changes<H>(
    effect: spec_fn(H, HostCommandView) -> H,
    host: H,
    changes: Seq<ChangeView>,
    i: nat,
)
    requires
        i <= changes.len(),
    ensures
        host_with(effect, host, changes, in_place(at_change(changes, i))) == host_with(
            effect,
            host,
            changes,
            i,
        ),
        at_change(changes, i).well_formed(),
    decreases changes.len() - i,
{
    if i < changes.len() && changes[i as int].make is None {
        lemma_idle_changes(effect, host, changes, i + 1);
        assert(host_with(effect, host, changes, i + 1) == host_with(effect, host, changes, i));
    }
}

/// One step of a transaction keeps the host in the state that its progress stands
/// for, as long as undoing succeeds.
pub proof fn law_step_keeps_track<H>(
    effect: spec_fn(H, HostCommandView) -> H,
    start: H,
    host: H,
    t: TransactionView,
    outcome: Result<(), ErrorView>,
)
    requires
        t.well_formed(),
        reversible(effect, start, t.changes),
        host == host_with(effect, start, t.changes, in_place(t)),
        t.progress is Undoing ==> outcome is Ok,
    ensures
        t.after(outcome).well_formed(),
        host_after(effect, host, t, outcome) == host_with(
            effect,
            start,
            t.changes,
            in_place(t.after(outcome)),
        ),
{
    match t.progress {
        ProgressView::Making(i) => {
            if outcome is Ok {
                lemma_idle_changes(effect, start, t.changes, i + 1);
            }
        },
        ProgressView::Undoing(n, e) => {
            let m = (n - 1) as nat;
            assert(effect(host_with(effect, start, t.changes, m + 1), t.changes[m as int].undo)
                == host_with(effect, start, t.changes, m));
        },
        _ => {},
    }
}

/// The transaction after a run of outcomes.
pub open spec fn after_run(t: TransactionView, outcomes: Seq<Result<(), ErrorView>>) -> TransactionView
    decreases outcomes.len(),
{
    if outcomes.len() == 0 {
        t
    } else {
        after_run(t, outcomes.drop_last()).after(outcomes.last())
    }
}

/// The host after a run of outcomes.
pub open spec fn host_after_run<H>(
    effect: spec_fn(H, HostCommandView) -> H,
    host: H,
    t: TransactionView,
    outcomes: Seq<Result<(), ErrorView>>,
) -> H
    decreases outcomes.len(),
{
    if outcomes.len() == 0 {
        host
    } else {
        host_after(
            effect,
            host_after_run(effect, host, t, outcomes.drop_last()),
            after_run(t, outcomes.drop_last()),
            outcomes.last(),
        )
    }
}

/// In the run, every command that undoes something succeeds.
pub open spec fn undoing_succeeds(t: TransactionView, outcomes: Seq<Result<(), ErrorView>>) -> bool {
    forall|k: int|
        0 <= k < outcomes.len() && after_run(t, outcomes.take(k)).progress is Undoing
            ==> #[trigger] outcomes[k] is Ok
}

proof fn lemma_run_keeps_track<H>(
    effect: spec_fn(H, HostCommandView) -> H,
    start: H,
    changes: Seq<ChangeView>,
    outcomes: Seq<Result<(), ErrorView>>,
)
    requires
        reversible(effect, start, changes),
        undoing_succeeds(TransactionView::begun(changes), outcomes),
    ensures
        after_run(TransactionView::begun(changes), outcomes).well_formed(),
        after_run(TransactionView::begun(changes), outcomes).changes == changes,
        host_after_run(effect, start, TransactionView::begun(changes), outcomes) == host_with(
            effect,
            start,
            changes,
            in_place(after_run(TransactionView::begun(changes), outcomes)),
        ),
    decreases outcomes.len(),
{
    let t = TransactionView::begun(changes);
    if outcomes.len() == 0 {
        lemma_idle_changes(effect, start, changes, 0);
    } else {
        let front = outcomes.drop_last();
        let last = outcomes.len() - 1;
        assert forall|k: int|
            0 <= k < front.len() && after_run(t, front.take(k)).progress is Undoing implies
            #[trigger] front[k] is Ok by {
            assert(front.take(k) =~= outcomes.take(k));
            assert(outcomes[k] is Ok);
        }
        lemma_run_keeps_track(effect, start, changes, front);
        assert(outcomes.take(last) =~= front);
        assert(after_run(t, outcomes.take(last)).progress is Undoing ==> outcomes[last] is Ok);
        law_step_keeps_track(
            effect,
            start,
            host_after_run(effect, start, t, front),
            after_run(t, front),
            outcomes.last(),
        );
    }
}

/// A transaction that fails leaves the host as it found it, and one that is made
/// leaves it with exactly the changes, whichever commands fail, as long as undoing
/// succeeds.
pub proof fn law_all_or_nothing<H>(
    effect: spec_fn(H, HostCommandView) -> H,
    start: H,
    changes: Seq<ChangeView>,
    outcomes: Seq<Result<(), ErrorView>>,
)
    requires
        reversible(effect, start, changes),
        undoing_succeeds(TransactionView::begun(changes), outcomes),
    ensures
        after_run(TransactionView::begun(changes), outcomes).progress is Failed ==> host_after_run(
            effect,
            start,
            TransactionView::begun(changes),
            outcomes,
        ) == start,
        after_run(TransactionView::begun(changes), outcomes).progress is Made ==> host_after_run(
            effect,
            start,
            TransactionView::begun(changes),
            outcomes,
        ) == host_with(effect, start, changes, changes.len()),
{
    lemma_run_keeps_track(effect, start, changes, outcomes);
}

/// The host after some commands that all succeed.
pub open spec fn host_after_all<H>(
    effect: spec_fn(H, HostCommandView) -> H,
    host: H,
    commands: Seq<HostCommandView>,
) -> H
    decreases commands.len(),
{
    if commands.len() == 0 {
        host
    } else {
        effect(host_after_all(effect, host, commands.drop_last()), commands.last())
    }
}

proof fn lemma_cleanup_prefix<H>(
    effect: spec_fn(H, HostCommandView) -> H,
    start: H,
    t: TransactionView,
    n: nat,
)
    requires
        n <= t.changes.len(),
        reversible(effect, start, t.changes),
    ensures
        host_after_all(
            effect,
            host_with(effect, start, t.changes, t.changes.len()),
            t.cleanup().take(n as int),
        ) == host_with(effect, start, t.changes, (t.changes.len() - n) as nat),
    decreases n,
{
    if n > 0 {
        let m = (n - 1) as nat;
        lemma_cleanup_prefix(effect, start, t, m);
        assert(t.cleanup().take(n as int).drop_last() =~= t.cleanup().take(m as int));
        let left = (t.changes.len() - n) as nat;
        assert(t.cleanup().take(n as int).last() == t.changes[left as int].undo);
        assert(effect(host_with(effect, start, t.changes, left + 1), t.changes[left as int].undo)
            == host_with(effect, start, t.changes, left));
    }
}

/// Cleaning up after a transaction that was made takes the host back to where it
/// was before.
pub proof fn law_cleanup_restores<H>(
    effect: spec_fn(H, HostCommandView) -> H,
    start: H,
    t: TransactionView,
)
    requires
        reversible(effect, start, t.changes),
    ensures
        host_after_all(
            effect,
            host_with(effect, start, t.changes, t.changes.len()),
            t.cleanup(),
        ) == start,
{
    lemma_cleanup_prefix(effect, start, t, t.changes.len());
    assert(t.cleanup().take(t.changes.len() as int) =~= t.cleanup());
}

proof fn lemma_changes_stay(t: TransactionView, outcomes: Seq<Result<(), ErrorView>>)
    ensures
        after_run(t, outcomes).changes == t.changes,
    decreases outcomes.len(),
{
    if outcomes.len() > 0 {
        lemma_changes_stay(t, outcomes.drop_last());
    }
}

/// Whichever commands fail, as long as those that undo something succeed: a
/// transaction that fails leaves the host as it found it, and cleaning up after one
/// that was made takes the host back to where it was.
pub proof fn law_host_is_restored<H>(
    effect: spec_fn(H, HostCommandView) -> H,
    start: H,
    changes: Seq<ChangeView>,
    outcomes: Seq<Result<(), ErrorView>>,
)
    requires
        reversible(effect, start, changes),
        undoing_succeeds(TransactionView::begun(changes), outcomes),
    ensures
        ({
            let begun = TransactionView::begun(changes);
            let ended = after_run(begun, outcomes);
            let host = host_after_run(effect, start, begun, outcomes);
            &&& ended.progress is Failed ==> host == start
            &&& ended.progress is Made ==> host_after_all(
                effect,
                host,
                ended.cleanup(),
            ) == start
        }),
{
    let begun = TransactionView::begun(changes);
    let ended = after_run(begun, outcomes);
    law_all_or_nothing(effect, start, changes, outcomes);
    lemma_changes_stay(begun, outcomes);
    law_cleanup_restores(effect, start, ended);
}

/// A command that undoes another, whatever state the host is in.
pub open spec fn undoes<H>(
    effect: spec_fn(H, HostCommandView) -> H,
    make: HostCommandView,
    undo: HostCommandView,
) -> bool {
    forall|h: H| #[trigger] effect(effect(h, make), undo) == h
}

/// A change whose undo command takes back what makes it.
pub open spec fn undoable<H>(effect: spec_fn(H, HostCommandView) -> H, change: ChangeView) -> bool {
    change.make is Some && undoes(effect, change.make->Some_0, change.undo)
}

/// Changes that can each be taken back can be taken back together.
pub proof fn law_undoable_changes_are_reversible<H>(
    effect: spec_fn(H, HostCommandView) -> H,
    start: H,
    changes: Seq<ChangeView>,
)
    requires
        forall|i: int| 0 <= i < changes.len() ==> undoable(effect, #[trigger] changes[i]),
    ensures
        reversible(effect, start, changes),
{
    assert forall|n: nat| n < changes.len() implies #[trigger] effect(
        host_with(effect, start, changes, n + 1),
        changes[n as int].undo,
    ) == host_with(effect, start, changes, n) by {
        let before = host_with(effect, start, changes, n);
        let change = changes[n as int];
        assert(undoable(effect, change));
        assert(effect(effect(before, change.make->Some_0), change.undo) == before);
    }
}

/// What a program left behind when it ended.
#[derive(Debug, Clone, PartialEq, Eq)]
pub struct CommandOutput {
    /// Whether it reported success.
    pub success: bool,
    /// The exit status as the host words it.
    pub status: String,
    pub stdout: String,
    pub stderr: String,
}

/// What is pending, and nothing else, is handed out: the command that makes the change
/// at hand, or the one that undoes the last change that is left.
pub proof fn law_what_is_pending(t: TransactionView)
    ensures
        match t.progress {
            ProgressView::Making(i) => t.pending() == t.changes[i as int].make,
            ProgressView::Undoing(n, _) => t.pending() == Some(t.changes[n - 1].undo),
            ProgressView::Made => t.pending() is None,
            ProgressView::Failed(_) => t.pending() is None,
        },
{
}

/// A transaction begins with the first change that has to be made, and is made at once
/// if there is none.
pub proof fn law_beginning(changes: Seq<ChangeView>)
    ensures
        TransactionView::begun(changes).changes == changes,
        match TransactionView::begun(changes).progress {
            ProgressView::Making(i) => i < changes.len() && changes[i as int].make is Some && forall|
                j: int,
            |
                0 <= j < i ==> (#[trigger] changes[j]).make is None,
            ProgressView::Made => forall|j: int|
                0 <= j < changes.len() ==> (#[trigger] changes[j]).make is None,
            _ => false,
        },
{
    lemma_making_from(changes, 0);
}

proof fn lemma_making_from(changes: Seq<ChangeView>, i: nat)
    ensures
        match making_from(changes, i) {
            ProgressView::Making(k) => i <= k < changes.len() && changes[k as int].make is Some
                && forall|j: int| i <= j < k ==> (#[trigger] changes[j]).make is None,
            ProgressView::Made => forall|j: int|
                i <= j < changes.len() ==> (#[trigger] changes[j]).make is None,
            _ => false,
        },
    decreases changes.len() - i,
{
    if i < changes.len() && changes[i as int].make is None {
        lemma_making_from(changes, i + 1);
    }
}

/// When a change was made, the next one that has to be made follows, and after the last
/// one the transaction is made: nothing is undone, and none is passed over that has to be
/// made.
pub proof fn law_success_goes_on(t: TransactionView, i: nat)
    requires
        t.progress == ProgressView::Making(i),
    ensures
        t.after(Ok(())).changes == t.changes,
        match t.after(Ok(())).progress {
            ProgressView::Making(k) => i < k < t.changes.len() && t.changes[k as int].make is Some
                && forall|j: int| i < j < k ==> (#[trigger] t.changes[j]).make is None,
            ProgressView::Made => forall|j: int|
                i < j < t.changes.len() ==> (#[trigger] t.changes[j]).make is None,
            _ => false,
        },
{
    lemma_making_from(t.changes, i + 1);
}

/// When a change cannot be made, all those before it are undone, one by one and the last
/// one first, whatever comes of undoing them; the transaction then fails with what kept
/// the change from being made.
pub proof fn law_failure_undoes_what_was_made(
    t: TransactionView,
    i: nat,
    e: ErrorView,
    outcome: Result<(), ErrorView>,
)
    ensures
        t.progress == ProgressView::Making(i) ==> t.after(Err(e)).progress == (if i == 0 {
            ProgressView::Failed(e)
        } else {
            ProgressView::Undoing(i, e)
        }),
        t.progress == ProgressView::Undoing(i, e) && i > 0 ==> t.after(outcome).progress == (if i
            == 1 {
            ProgressView::Failed(e)
        } else {
            ProgressView::Undoing((i - 1) as nat, e)
        }),
        t.progress == ProgressView::Failed(e) ==> t.after(outcome) == t,
        t.progress is Made ==> t.after(outcome) == t,
        t.after(outcome).changes == t.changes,
{
}

/// Cleaning up undoes every change, the last one first.
pub proof fn law_cleanup_order(t: TransactionView)
    ensures
        t.cleanup().len() == t.changes.len(),
        forall|i: int|
            0 <= i < t.changes.len() ==> t.cleanup()[t.changes.len() - 1 - i] == (
            #[trigger] t.changes[i]).undo,
{
}

} // verus!
