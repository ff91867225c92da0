//! The interactive session: the catalog with each repository's selection and
//! archive status, the cursor, and the modes browsing, confirming, executing
//! and finished, with the keys each of them accepts.

use vstd::prelude::*;
use crate::catalog::Repo;
use crate::keys::Key;

verus! {

/// Where a repository stands in the archive run. Statuses only move forward:
/// idle, pending, in progress, then succeeded or failed.
#[derive(Clone, Debug, PartialEq, Eq)]
pub enum RepoStatus {
    Idle,
    Pending,
    InProgress,
    Succeeded,
    /// The archive action failed, with its diagnostic text.
    Failed(String),
}

/// Which stage the session is in; it alone decides what a key does.
#[derive(Clone, Copy, Debug, PartialEq, Eq, Structural)]
pub enum Mode {
    Browsing,
    Confirming,
    Executing,
    Finished,
}

/// The highlighted button of the confirmation dialog.
#[derive(Clone, Copy, Debug, PartialEq, Eq, Structural)]
pub enum Choice {
    Cancel,
    Proceed,
}

/// A repository handed to the archive worker: its place in the catalog and
/// its name.
#[derive(Clone, Debug, PartialEq, Eq)]
pub struct BatchItem {
    pub index: usize,
    pub name: String,
}

/// What the archive worker reports about one repository.
#[derive(Clone, Debug, PartialEq, Eq)]
pub enum ArchiveEvent {
    Started(usize),
    Completed(usize),
    Failed(usize, String),
}

/// How a row's status column looks.
#[derive(Clone, Copy, Debug, PartialEq, Eq, Structural)]
pub enum RowMark {
    /// Idle and not selected.
    Blank,
    /// Idle and selected.
    Chosen,
    Waiting,
    Working,
    Done,
    Failed,
}

/// What a key asks of the session.
#[derive(Clone, Copy, Debug, PartialEq, Eq, Structural)]
pub enum Effect {
    Nothing,
    Quit,
    Next,
    Previous,
    Toggle,
    OpenConfirm,
    ChooseCancel,
    ChooseProceed,
    FlipChoice,
    Start,
    BackToBrowsing,
}

/// What the caller has to do after a key.
#[derive(Clone, Debug, PartialEq, Eq)]
pub enum Command {
    /// Carry on.
    Continue,
    /// Leave the program, without waiting for archive work under way.
    Quit,
    /// Start the archive worker on these repositories, in this order.
    Start(Vec<BatchItem>),
}

/// The number of spinner frames.
pub const SPINNER_FRAME_COUNT: usize = 10;

/// Milliseconds between two spinner frames.
pub const SPINNER_INTERVAL_MS: u64 = 80;

pub open spec fn is_terminal(s: RepoStatus) -> bool {
    s is Succeeded || s is Failed
}

/// How far along a status is; statuses only ever move to a higher rank.
pub open spec fn status_rank(s: RepoStatus) -> int {
    match s {
        RepoStatus::Idle => 0,
        RepoStatus::Pending => 1,
        RepoStatus::InProgress => 2,
        RepoStatus::Succeeded => 3,
        RepoStatus::Failed(_) => 3,
    }
}

/// The statuses after a worker event: the event's repository takes the
/// reported status where that moves it forward; anything else is unchanged.
pub open spec fn event_applied(statuses: Seq<RepoStatus>, event: ArchiveEvent) -> Seq<RepoStatus> {
    let (i, s) = match event {
        ArchiveEvent::Started(i) => (i as int, RepoStatus::InProgress),
        ArchiveEvent::Completed(i) => (i as int, RepoStatus::Succeeded),
        ArchiveEvent::Failed(i, msg) => (i as int, RepoStatus::Failed(msg)),
    };
    if 0 <= i < statuses.len() && status_rank(statuses[i]) < status_rank(s) {
        statuses.update(i, s)
    } else {
        statuses
    }
}

/// The mark of a row with this status and selection.
pub open spec fn row_mark_of(s: RepoStatus, selected: bool) -> RowMark {
    match s {
        RepoStatus::Idle => if selected {
            RowMark::Chosen
        } else {
            RowMark::Blank
        },
        RepoStatus::Pending => RowMark::Waiting,
        RepoStatus::InProgress => RowMark::Working,
        RepoStatus::Succeeded => RowMark::Done,
        RepoStatus::Failed(_) => RowMark::Failed,
    }
}

/// How many flags are set.
pub open spec fn count_selected(s: Seq<bool>) -> nat
    decreases s.len(),
{
    if s.len() == 0 {
        0
    } else {
        count_selected(s.drop_last()) + if s.last() {
            1nat
        } else {
            0nat
        }
    }
}

proof fn lemma_count_none_selected(s: Seq<bool>)
    requires
        forall|i: int| 0 <= i < s.len() ==> !s[i],
    ensures
        count_selected(s) == 0,
    decreases s.len(),
{
    if s.len() > 0 {
        lemma_count_none_selected(s.drop_last());
    }
}

/// The positions whose flag is set, ascending.
pub open spec fn selected_indices(s: Seq<bool>) -> Seq<int>
    decreases s.len(),
{
    if s.len() == 0 {
        Seq::empty()
    } else if s.last() {
        selected_indices(s.drop_last()).push(s.len() - 1)
    } else {
        selected_indices(s.drop_last())
    }
}

/// Statuses after every selected, idle repository is marked pending.
pub open spec fn pending_marked(statuses: Seq<RepoStatus>, selected: Seq<bool>) -> Seq<
    RepoStatus,
> {
    Seq::new(
        statuses.len(),
        |i: int|
            if selected[i] && statuses[i] == RepoStatus::Idle {
                RepoStatus::Pending
            } else {
                statuses[i]
            },
    )
}

/// What a key does in a mode; `count` is the number of selected repositories.
pub open spec fn effect_of_key(mode: Mode, choice: Choice, count: nat, key: Key) -> Effect {
    match mode {
        Mode::Browsing => match key {
            Key::Char('q') | Key::Esc => Effect::Quit,
            Key::Down | Key::Char('j') => Effect::Next,
            Key::Up | Key::Char('k') => Effect::Previous,
            Key::Char(' ') | Key::Tab => Effect::Toggle,
            Key::Enter => if count > 0 {
                Effect::OpenConfirm
            } else {
                Effect::Nothing
            },
            _ => Effect::Nothing,
        },
        Mode::Confirming => match key {
            Key::Left | Key::Char('h') => Effect::ChooseCancel,
            Key::Right | Key::Char('l') => Effect::ChooseProceed,
            Key::Tab => Effect::FlipChoice,
            Key::Enter => if choice == Choice::Proceed {
                Effect::Start
            } else {
                Effect::BackToBrowsing
            },
            Key::Char('y') => Effect::Start,
            Key::Char('n') | Key::Esc => Effect::BackToBrowsing,
            _ => Effect::Nothing,
        },
        Mode::Executing => match key {
            Key::Char('q') => Effect::Quit,
            Key::Down | Key::Char('j') => Effect::Next,
            Key::Up | Key::Char('k') => Effect::Previous,
            _ => Effect::Nothing,
        },
        Mode::Finished => match key {
            Key::Char('q') | Key::Esc | Key::Enter => Effect::Quit,
            _ => Effect::Nothing,
        },
    }
}

/// The spinner's frames, in order.
pub open spec fn spinner_frames() -> Seq<Seq<char>> {
    seq![
        "⠋"@,
        "⠙"@,
        "⠹"@,
        "⠸"@,
        "⠼"@,
        "⠴"@,
        "⠦"@,
        "⠧"@,
        "⠇"@,
        "⠏"@,
    ]
}

/// The whole state of an interactive session.
pub struct App {
    pub repos: Vec<Repo>,
    pub statuses: Vec<RepoStatus>,
    pub selected: Vec<bool>,
    /// The highlighted row; `None` only for an empty catalog.
    pub cursor: Option<usize>,
    pub mode: Mode,
    pub choice: Choice,
    pub dry_run: bool,
    pub spinner_tick: usize,
}

impl App {
    pub open spec fn wf(&self) -> bool {
        &&& self.statuses@.len() == self.repos@.len()
        &&& self.selected@.len() == self.repos@.len()
        &&& (self.cursor is None <==> self.repos@.len() == 0)
        &&& (self.cursor matches Some(i) ==> i < self.repos@.len())
        &&& self.spinner_tick < SPINNER_FRAME_COUNT
        &&& (self.mode == Mode::Confirming ==> count_selected(self.selected@) > 0)
        &&& (self.mode == Mode::Browsing || self.mode == Mode::Confirming) ==> forall|i: int|
            0 <= i < self.statuses@.len() ==> #[trigger] self.statuses@[i] == RepoStatus::Idle
    }

    /// Nothing has been handed to the worker yet.
    pub open spec fn before_execution(&self) -> bool {
        self.mode == Mode::Browsing || self.mode == Mode::Confirming
    }

    /// Every selected repository has reached a terminal status.
    pub open spec fn all_done(&self) -> bool {
        forall|i: int|
            0 <= i < self.statuses@.len() && i < self.selected@.len() && #[trigger] self.selected@[i]
                ==> is_terminal(self.statuses@[i])
    }

    pub open spec fn next_cursor(&self) -> Option<usize> {
        match self.cursor {
            None => None,
            Some(i) => Some(((i + 1) % self.repos@.len() as int) as usize),
        }
    }

    pub open spec fn previous_cursor(&self) -> Option<usize> {
        match self.cursor {
            None => None,
            Some(i) => Some(
                if i == 0 {
                    (self.repos@.len() - 1) as usize
                } else {
                    (i - 1) as usize
                },
            ),
        }
    }

    /// The selection after toggling at the cursor while browsing.
    pub open spec fn toggled(&self) -> Seq<bool> {
        match self.cursor {
            Some(i) => if self.mode == Mode::Browsing {
                self.selected@.update(i as int, !self.selected@[i as int])
            } else {
                self.selected@
            },
            None => self.selected@,
        }
    }

    /// The batch that a confirmation hands to the worker.
    pub open spec fn batch_matches(&self, b: Seq<BatchItem>) -> bool {
        let idx = selected_indices(self.selected@);
        &&& b.len() == idx.len()
        &&& forall|k: int|
            0 <= k < b.len() ==> (#[trigger] b[k]).index == idx[k] && b[k].name
                == self.repos@[idx[k]].name
    }

    /// A session over `repos`, browsing, nothing selected, every status idle,
    /// the cursor on the first row, and "proceed" highlighted for the
    /// confirmation dialog.
    pub fn new(repos: Vec<Repo>, dry_run: bool) -> (r: App)
        ensures
            r.wf(),
            r.repos == repos,
            r.dry_run == dry_run,
            r.mode == Mode::Browsing,
            r.choice == Choice::Proceed,
            r.spinner_tick == 0,
            r.cursor == if repos@.len() == 0 {
                None::<usize>
            } else {
                Some(0usize)
            },
            forall|i: int| 0 <= i < r.statuses@.len() ==> r.statuses@[i] == RepoStatus::Idle,
            forall|i: int| 0 <= i < r.selected@.len() ==> !r.selected@[i],
            count_selected(r.selected@) == 0,
    {
        let n = repos.len();
        let mut statuses: Vec<RepoStatus> = Vec::new();
        let mut selected: Vec<bool> = Vec::new();
        let mut i: usize = 0;
        while i < n
            invariant
                i <= n,
                statuses@.len() == i,
                selected@.len() == i,
                forall|j: int| 0 <= j < i ==> statuses@[j] == RepoStatus::Idle,
                forall|j: int| 0 <= j < i ==> !selected@[j],
            decreases n - i,
        {
            statuses.push(RepoStatus::Idle);
            selected.push(false);
            i = i + 1;
        }
        proof {
            lemma_count_none_selected(selected@);
        }
        let cursor = if n == 0 {
            None
        } else {
            Some(0)
        };
        App {
            repos,
            statuses,
            selected,
            cursor,
            mode: Mode::Browsing,
            choice: Choice::Proceed,
            dry_run,
            spinner_tick: 0,
        }
    }

    /// Moves the cursor down one row, from the last row to the first.
    pub fn next(&mut self)
        requires
            old(self).wf(),
        ensures
            final(self).wf(),
            final(self).cursor == old(self).next_cursor(),
            final(self).repos == old(self).repos,
            final(self).statuses == old(self).statuses,
            final(self).selected == old(self).selected,
            final(self).mode == old(self).mode,
            final(self).choice == old(self).choice,
            final(self).dry_run == old(self).dry_run,
            final(self).spinner_tick == old(self).spinner_tick,
    {
        match self.cursor {
            Some(i) => {
                let n = self.repos.len();
                self.cursor = Some((i + 1) % n);
            },
            None => {},
        }
    }

    /// Moves the cursor up one row, from the first row to the last.
    pub fn previous(&mut self)
        requires
            old(self).wf(),
        ensures
            final(self).wf(),
            final(self).cursor == old(self).previous_cursor(),
            final(self).repos == old(self).repos,
            final(self).statuses == old(self).statuses,
            final(self).selected == old(self).selected,
            final(self).mode == old(self).mode,
            final(self).choice == old(self).choice,
            final(self).dry_run == old(self).dry_run,
            final(self).spinner_tick == old(self).spinner_tick,
    {
        match self.cursor {
            Some(i) => {
                if i == 0 {
                    self.cursor = Some(self.repos.len() - 1);
                } else {
                    self.cursor = Some(i - 1);
                }
            },
            None => {},
        }
    }

    /// Flips the selection of the highlighted repository; selections can
    /// only change while browsing.
    pub fn toggle_selection(&mut self)
        requires
            old(self).wf(),
        ensures
            final(self).wf(),
            final(self).selected@ == old(self).toggled(),
            final(self).cursor == old(self).cursor,
            final(self).repos == old(self).repos,
            final(self).statuses == old(self).statuses,
            final(self).mode == old(self).mode,
            final(self).choice == old(self).choice,
            final(self).dry_run == old(self).dry_run,
            final(self).spinner_tick == old(self).spinner_tick,
    {
        if self.mode == Mode::Browsing {
            match self.cursor {
                Some(i) => {
                    let v = !self.selected[i];
                    self.selected.set(i, v);
                },
                None => {},
            }
        }
    }

    /// How many repositories are selected.
    pub fn selected_count(&self) -> (r: usize)
        requires
            self.wf(),
        ensures
            r == count_selected(self.selected@),
    {
        let n = self.selected.len();
        let mut count: usize = 0;
        let mut i: usize = 0;
        while i < n
            invariant
                i <= n,
                n == self.selected@.len(),
                count == count_selected(self.selected@.subrange(0, i as int)),
                count <= i,
            decreases n - i,
        {
            assert(self.selected@.subrange(0, i + 1).drop_last() =~= self.selected@.subrange(
                0,
                i as int,
            ));
            if self.selected[i] {
                count = count + 1;
            }
            i = i + 1;
        }
        assert(self.selected@.subrange(0, n as int) =~= self.selected@);
        count
    }
    /// Advances the spinner one frame once its interval has passed since the
    /// last advance; says whether it did.
    pub fn tick_spinner(&mut self, elapsed_ms: u64) -> (advanced: bool)
        requires
            old(self).wf(),
        ensures
            final(self).wf(),
            advanced == (elapsed_ms >= SPINNER_INTERVAL_MS),
            final(self).spinner_tick == if advanced {
                ((old(self).spinner_tick + 1) % (SPINNER_FRAME_COUNT as int)) as usize
            } else {
                old(self).spinner_tick
            },
            final(self).repos == old(self).repos,
            final(self).statuses == old(self).statuses,
            final(self).selected == old(self).selected,
            final(self).cursor == old(self).cursor,
            final(self).mode == old(self).mode,
            final(self).choice == old(self).choice,
            final(self).dry_run == old(self).dry_run,
    {
        if elapsed_ms >= SPINNER_INTERVAL_MS {
            self.spinner_tick = (self.spinner_tick + 1) % SPINNER_FRAME_COUNT;
            true
        } else {
            false
        }
    }

    /// The spinner's current frame.
    pub fn spinner(&self) -> (r: &'static str)
        requires
            self.wf(),
        ensures
            r@ == spinner_frames()[self.spinner_tick as int],
    {
        let t = self.spinner_tick;
        if t == 0 {
            "⠋"
        } else if t == 1 {
            "⠙"
        } else if t == 2 {
            "⠹"
        } else if t == 3 {
            "⠸"
        } else if t == 4 {
            "⠼"
        } else if t == 5 {
            "⠴"
        } else if t == 6 {
            "⠦"
        } else if t == 7 {
            "⠧"
        } else if t == 8 {
            "⠇"
        } else {
            "⠏"
        }
    }

    /// Marks every selected repository that is still idle pending; this is
    /// the first step of execution.
    pub fn mark_selected_as_pending(&mut self)
        requires
            old(self).wf(),
            old(self).mode == Mode::Executing,
        ensures
            final(self).wf(),
            final(self).statuses@ == pending_marked(old(self).statuses@, old(self).selected@),
            (forall|i: int|
                0 <= i < old(self).statuses@.len() ==> #[trigger] old(self).statuses@[i]
                    == RepoStatus::Idle) ==> forall|i: int|
                0 <= i < final(self).selected@.len() && #[trigger] final(self).selected@[i]
                    ==> final(self).statuses@[i] == RepoStatus::Pending,
            final(self).repos == old(self).repos,
            final(self).selected == old(self).selected,
            final(self).cursor == old(self).cursor,
            final(self).mode == old(self).mode,
            final(self).choice == old(self).choice,
            final(self).dry_run == old(self).dry_run,
            final(self).spinner_tick == old(self).spinner_tick,
    {
        let n = self.selected.len();
        let mut i: usize = 0;
        while i < n
            invariant
                i <= n,
                n == self.selected@.len(),
                n == old(self).statuses@.len(),
                old(self).wf(),
                old(self).mode == Mode::Executing,
                self.statuses@.len() == n,
                self.wf(),
                self.repos == old(self).repos,
                self.selected == old(self).selected,
                self.cursor == old(self).cursor,
                self.mode == old(self).mode,
                self.choice == old(self).choice,
                self.dry_run == old(self).dry_run,
                self.spinner_tick == old(self).spinner_tick,
                forall|j: int|
                    0 <= j < i ==> #[trigger] self.statuses@[j] == if self.selected@[j]
                        && old(self).statuses@[j] == RepoStatus::Idle {
                        RepoStatus::Pending
                    } else {
                        old(self).statuses@[j]
                    },
                forall|j: int| i <= j < n ==> #[trigger] self.statuses@[j] == old(self).statuses@[j],
            decreases n - i,
        {
            if self.selected[i] {
                match self.statuses[i] {
                    RepoStatus::Idle => {
                        self.statuses.set(i, RepoStatus::Pending);
                    },
                    _ => {},
                }
            }
            i = i + 1;
        }
        assert(self.statuses@ =~= pending_marked(old(self).statuses@, old(self).selected@));
    }

    /// The mark shown in row `i`.
    pub fn row_mark(&self, i: usize) -> (r: RowMark)
        requires
            self.wf(),
            i < self.repos@.len(),
        ensures
            r == row_mark_of(self.statuses@[i as int], self.selected@[i as int]),
    {
        match &self.statuses[i] {
            RepoStatus::Idle => {
                if self.selected[i] {
                    RowMark::Chosen
                } else {
                    RowMark::Blank
                }
            },
            RepoStatus::Pending => RowMark::Waiting,
            RepoStatus::InProgress => RowMark::Working,
            RepoStatus::Succeeded => RowMark::Done,
            RepoStatus::Failed(_) => RowMark::Failed,
        }
    }

    /// Whether every selected repository has reached a terminal status.
    pub fn is_all_done(&self) -> (r: bool)
        requires
            self.wf(),
        ensures
            r == self.all_done(),
    {
        let n = self.statuses.len();
        let mut i: usize = 0;
        while i < n
            invariant
                i <= n,
                n == self.statuses@.len(),
                self.wf(),
                forall|j: int|
                    0 <= j < i && #[trigger] self.selected@[j] ==> is_terminal(self.statuses@[j]),
            decreases n - i,
        {
            if self.selected[i] {
                match &self.statuses[i] {
                    RepoStatus::Succeeded | RepoStatus::Failed(_) => {},
                    _ => {
                        return false;
                    },
                }
            }
            i = i + 1;
        }
        true
    }

    /// How many repositories have reached a terminal status.
    pub fn finished_count(&self) -> (r: usize)
        requires
            self.wf(),
        ensures
            r == self.statuses@.filter(|s: RepoStatus| is_terminal(s)).len(),
    {
        let n = self.statuses.len();
        let mut count: usize = 0;
        let mut i: usize = 0;
        while i < n
            invariant
                i <= n,
                n == self.statuses@.len(),
                count == self.statuses@.subrange(0, i as int).filter(|s: RepoStatus| is_terminal(s)).len(),
                count <= i,
            decreases n - i,
        {
            let ghost prefix = self.statuses@.subrange(0, i as int);
            assert(self.statuses@.subrange(0, i + 1) =~= prefix.push(self.statuses@[i as int]));
            proof {
                prefix.lemma_filter_push(self.statuses@[i as int], |s: RepoStatus| is_terminal(s));
            }
            match &self.statuses[i] {
                RepoStatus::Succeeded | RepoStatus::Failed(_) => {
                    count = count + 1;
                },
                _ => {},
            }
            i = i + 1;
        }
        assert(self.statuses@.subrange(0, n as int) =~= self.statuses@);
        count
    }

    /// The selected repositories, in catalog order, as the worker gets them.
    pub fn batch(&self) -> (r: Vec<BatchItem>)
        requires
            self.wf(),
        ensures
            self.batch_matches(r@),
    {
        let n = self.selected.len();
        let mut out: Vec<BatchItem> = Vec::new();
        let mut i: usize = 0;
        while i < n
            invariant
                i <= n,
                n == self.selected@.len(),
                self.wf(),
                out@.len() == selected_indices(self.selected@.subrange(0, i as int)).len(),
                forall|k: int|
                    0 <= k < out@.len() ==> (#[trigger] out@[k]).index == selected_indices(
                        self.selected@.subrange(0, i as int),
                    )[k] && out@[k].name == self.repos@[out@[k].index as int].name,
            decreases n - i,
        {
            let ghost prev = self.selected@.subrange(0, i as int);
            let ghost next = self.selected@.subrange(0, i + 1);
            assert(next.drop_last() =~= prev);
            if self.selected[i] {
                let name = self.repos[i].name.clone();
                out.push(BatchItem { index: i, name });
            }
            i = i + 1;
        }
        assert(self.selected@.subrange(0, n as int) =~= self.selected@);
        out
    }

    /// Records a worker event on its repository where it moves that
    /// repository's status forward (other events are ignored, and so is every
    /// event before execution has started), then finishes the session once
    /// every selected repository has reached a terminal status.
    pub fn apply_event(&mut self, event: ArchiveEvent)
        requires
            old(self).wf(),
        ensures
            final(self).wf(),
            final(self).statuses@ == if old(self).before_execution() {
                old(self).statuses@
            } else {
                event_applied(old(self).statuses@, event)
            },
            final(self).mode == if !old(self).before_execution() && final(self).all_done() {
                Mode::Finished
            } else {
                old(self).mode
            },
            forall|i: int|
                0 <= i < old(self).statuses@.len() ==> status_rank(old(self).statuses@[i])
                    <= status_rank(#[trigger] final(self).statuses@[i]),
            final(self).repos == old(self).repos,
            final(self).selected == old(self).selected,
            final(self).cursor == old(self).cursor,
            final(self).choice == old(self).choice,
            final(self).dry_run == old(self).dry_run,
            final(self).spinner_tick == old(self).spinner_tick,
    {
        if self.mode == Mode::Browsing || self.mode == Mode::Confirming {
            return;
        }
        let n = self.statuses.len();
        match event {
            ArchiveEvent::Started(i) => {
                if i < n {
                    match self.statuses[i] {
                        RepoStatus::Idle | RepoStatus::Pending => {
                            self.statuses.set(i, RepoStatus::InProgress);
                        },
                        _ => {},
                    }
                }
            },
            ArchiveEvent::Completed(i) => {
                if i < n {
                    match self.statuses[i] {
                        RepoStatus::Succeeded | RepoStatus::Failed(_) => {},
                        _ => {
                            self.statuses.set(i, RepoStatus::Succeeded);
                        },
                    }
                }
            },
            ArchiveEvent::Failed(i, msg) => {
                if i < n {
                    match self.statuses[i] {
                        RepoStatus::Succeeded | RepoStatus::Failed(_) => {},
                        _ => {
                            self.statuses.set(i, RepoStatus::Failed(msg));
                        },
                    }
                }
            },
        }
        if self.is_all_done() {
            self.mode = Mode::Finished;
        }
    }

    /// What `key` asks of the session in its current mode.
    pub fn effect_of(&self, key: Key) -> (e: Effect)
        requires
            self.wf(),
        ensures
            e == effect_of_key(self.mode, self.choice, count_selected(self.selected@), key),
    {
        match self.mode {
            Mode::Browsing => match key {
                Key::Char('q') | Key::Esc => Effect::Quit,
                Key::Down | Key::Char('j') => Effect::Next,
                Key::Up | Key::Char('k') => Effect::Previous,
                Key::Char(' ') | Key::Tab => Effect::Toggle,
                Key::Enter => {
                    if self.selected_count() > 0 {
                        Effect::OpenConfirm
                    } else {
                        Effect::Nothing
                    }
                },
                _ => Effect::Nothing,
            },
            Mode::Confirming => match key {
                Key::Left | Key::Char('h') => Effect::ChooseCancel,
                Key::Right | Key::Char('l') => Effect::ChooseProceed,
                Key::Tab => Effect::FlipChoice,
                Key::Enter => {
                    if self.choice == Choice::Proceed {
                        Effect::Start
                    } else {
                        Effect::BackToBrowsing
                    }
                },
                Key::Char('y') => Effect::Start,
                Key::Char('n') | Key::Esc => Effect::BackToBrowsing,
                _ => Effect::Nothing,
            },
            Mode::Executing => match key {
                Key::Char('q') => Effect::Quit,
                Key::Down | Key::Char('j') => Effect::Next,
                Key::Up | Key::Char('k') => Effect::Previous,
                _ => Effect::Nothing,
            },
            Mode::Finished => match key {
                Key::Char('q') | Key::Esc | Key::Enter => Effect::Quit,
                _ => Effect::Nothing,
            },
        }
    }

    /// Reacts to a key. Confirmation opens only with at least one repository
    /// selected, and always with "proceed" highlighted; starting marks every selected repository pending, moves to
    /// executing and hands the selection, captured now, to the caller.
    pub fn handle_key(&mut self, key: Key) -> (r: Command)
        requires
            old(self).wf(),
        ensures
            final(self).wf(),
            final(self).repos == old(self).repos,
            final(self).dry_run == old(self).dry_run,
            final(self).spinner_tick == old(self).spinner_tick,
            ({
                let e = effect_of_key(
                    old(self).mode,
                    old(self).choice,
                    count_selected(old(self).selected@),
                    key,
                );
                &&& final(self).cursor == match e {
                    Effect::Next => old(self).next_cursor(),
                    Effect::Previous => old(self).previous_cursor(),
                    _ => old(self).cursor,
                }
                &&& final(self).selected@ == if e == Effect::Toggle {
                    old(self).toggled()
                } else {
                    old(self).selected@
                }
                &&& final(self).statuses@ == if e == Effect::Start {
                    pending_marked(old(self).statuses@, old(self).selected@)
                } else {
                    old(self).statuses@
                }
                &&& final(self).mode == match e {
                    Effect::OpenConfirm => Mode::Confirming,
                    Effect::Start => Mode::Executing,
                    Effect::BackToBrowsing => Mode::Browsing,
                    _ => old(self).mode,
                }
                &&& final(self).choice == match e {
                    Effect::OpenConfirm => Choice::Proceed,
                    Effect::ChooseCancel => Choice::Cancel,
                    Effect::ChooseProceed => Choice::Proceed,
                    Effect::FlipChoice => if old(self).choice == Choice::Proceed {
                        Choice::Cancel
                    } else {
                        Choice::Proceed
                    },
                    _ => old(self).choice,
                }
                &&& match r {
                    Command::Quit => e == Effect::Quit,
                    Command::Start(b) => e == Effect::Start && old(self).batch_matches(b@),
                    Command::Continue => e != Effect::Quit && e != Effect::Start,
                }
            }),
            final(self).mode == Mode::Confirming ==> count_selected(final(self).selected@) > 0,
            r is Start ==> forall|i: int|
                0 <= i < final(self).selected@.len() && #[trigger] final(self).selected@[i]
                    ==> final(self).statuses@[i] == RepoStatus::Pending,
    {
        let e = self.effect_of(key);
        match e {
            Effect::Quit => Command::Quit,
            Effect::Next => {
                self.next();
                Command::Continue
            },
            Effect::Previous => {
                self.previous();
                Command::Continue
            },
            Effect::Toggle => {
                self.toggle_selection();
                Command::Continue
            },
            Effect::OpenConfirm => {
                self.mode = Mode::Confirming;
                self.choice = Choice::Proceed;
                Command::Continue
            },
            Effect::ChooseCancel => {
                self.choice = Choice::Cancel;
                Command::Continue
            },
            Effect::ChooseProceed => {
                self.choice = Choice::Proceed;
                Command::Continue
            },
            Effect::FlipChoice => {
                self.choice = if self.choice == Choice::Proceed {
                    Choice::Cancel
                } else {
                    Choice::Proceed
                };
                Command::Continue
            },
            Effect::Start => {
                let b = self.batch();
                self.mode = Mode::Executing;
                self.mark_selected_as_pending();
                Command::Start(b)
            },
            Effect::BackToBrowsing => {
                self.mode = Mode::Browsing;
                Command::Continue
            },
            Effect::Nothing => Command::Continue,
        }
    }
}

} // verus!
