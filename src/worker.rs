use vstd::prelude::*;

use crate::downloader::{download_url_of, file_path_of, format_name, formats};
use crate::model::{QueuedDownload, QueuedDownloadView, SheetFormat};

verus! {

/// One file to fetch: where from, and where to write it.
#[derive(Clone, Debug)]
pub struct Download {
    pub url: String,
    pub path: String,
}

pub ghost struct DownloadView {
    pub url: Seq<char>,
    pub path: Seq<char>,
}

impl View for Download {
    type V = DownloadView;

    open spec fn view(&self) -> DownloadView {
        DownloadView { url: self.url@, path: self.path@ }
    }
}

/// The download of a work-item in one format.
pub open spec fn download_of(item: QueuedDownloadView, f: SheetFormat) -> DownloadView {
    DownloadView {
        url: download_url_of(item.sheet.id, f),
        path: file_path_of(item.folder, item.sheet.name, f),
    }
}

/// The downloads of a work-item: one per format, in format order.
pub open spec fn plan_of(item: QueuedDownloadView) -> Seq<DownloadView> {
    formats().map_values(|f: SheetFormat| download_of(item, f))
}

/// The downloads that make up a work-item: every format, in order.
pub fn download_plan(item: &QueuedDownload) -> (r: Vec<Download>)
    ensures
        r@.map_values(|d: Download| d@) == plan_of(item@),
{
    let all = SheetFormat::all();
    let mut out: Vec<Download> = Vec::new();
    let mut i: usize = 0;
    while i < all.len()
        invariant
            i <= all.len(),
            all@ == formats(),
            out@.len() == i,
            forall|k: int| 0 <= k < i ==> out@[k]@ == download_of(item@, all@[k]),
        decreases all.len() - i,
    {
        let f = all[i];
        let d = Download {
            url: item.sheet.get_download_url(f),
            path: item.sheet.file_path(item.folder.as_str(), f),
        };
        out.push(d);
        i = i + 1;
    }
    assert(out@.map_values(|d: Download| d@) =~= plan_of(item@));
    out
}

/// Where a worker stands.
pub enum WorkerState {
    /// Waiting for the next work-item from the queue.
    Waiting,
    /// Working through the downloads of a work-item; `done` are behind it.
    Downloading { plan: Vec<Download>, done: usize },
    /// The queue was closed and empty: the worker is finished.
    Stopped,
}

/// What a worker is told.
pub enum WorkerEvent {
    /// The queue handed over a work-item.
    Received(QueuedDownload),
    /// The queue is closed and holds nothing more.
    QueueClosed,
    /// The download last asked for was attempted, whatever its outcome.
    Attempted,
}

/// What a worker asks for next.
pub enum WorkerAction {
    /// Take the next work-item from the queue.
    Receive,
    /// Fetch one file.
    Fetch(Download),
    /// Nothing more: the worker is finished.
    Stop,
}

pub ghost enum WorkerStateView {
    Waiting,
    Downloading { plan: Seq<DownloadView>, done: nat },
    Stopped,
}

pub ghost enum WorkerEventView {
    Received(QueuedDownloadView),
    QueueClosed,
    Attempted,
}

pub ghost enum WorkerActionView {
    Receive,
    Fetch(DownloadView),
    Stop,
}

impl View for WorkerState {
    type V = WorkerStateView;

    open spec fn view(&self) -> WorkerStateView {
        match self {
            WorkerState::Waiting => WorkerStateView::Waiting,
            WorkerState::Downloading { plan, done } => WorkerStateView::Downloading {
                plan: plan@.map_values(|d: Download| d@),
                done: *done as nat,
            },
            WorkerState::Stopped => WorkerStateView::Stopped,
        }
    }
}

impl View for WorkerEvent {
    type V = WorkerEventView;

    open spec fn view(&self) -> WorkerEventView {
        match self {
            WorkerEvent::Received(q) => WorkerEventView::Received(q@),
            WorkerEvent::QueueClosed => WorkerEventView::QueueClosed,
            WorkerEvent::Attempted => WorkerEventView::Attempted,
        }
    }
}

impl View for WorkerAction {
    type V = WorkerActionView;

    open spec fn view(&self) -> WorkerActionView {
        match self {
            WorkerAction::Receive => WorkerActionView::Receive,
            WorkerAction::Fetch(d) => WorkerActionView::Fetch(d@),
            WorkerAction::Stop => WorkerActionView::Stop,
        }
    }
}

/// A worker's state is consistent: while downloading, some download of
/// the plan is still ahead.
pub open spec fn state_wf(s: WorkerStateView) -> bool {
    match s {
        WorkerStateView::Downloading { plan, done } => done < plan.len(),
        _ => true,
    }
}

/// What a worker does on an event: the next state and the next action.
/// A received item is downloaded in every format, one after the other; a
/// failed download is passed over so that the other formats still come;
/// the closed and empty queue ends the worker for good. An event that does
/// not fit the state leaves the state as it is and repeats the action.
pub open spec fn next(s: WorkerStateView, e: WorkerEventView) -> (WorkerStateView, WorkerActionView) {
    match s {
        WorkerStateView::Waiting => match e {
            WorkerEventView::Received(item) => (
                WorkerStateView::Downloading { plan: plan_of(item), done: 0 },
                WorkerActionView::Fetch(plan_of(item)[0]),
            ),
            WorkerEventView::QueueClosed => (WorkerStateView::Stopped, WorkerActionView::Stop),
            WorkerEventView::Attempted => (WorkerStateView::Waiting, WorkerActionView::Receive),
        },
        WorkerStateView::Downloading { plan, done } => match e {
            WorkerEventView::Attempted => if done + 1 < plan.len() {
                (
                    WorkerStateView::Downloading { plan, done: done + 1 },
                    WorkerActionView::Fetch(plan[done + 1 as int]),
                )
            } else {
                (WorkerStateView::Waiting, WorkerActionView::Receive)
            },
            _ => (s, WorkerActionView::Fetch(plan[done as int])),
        },
        WorkerStateView::Stopped => (WorkerStateView::Stopped, WorkerActionView::Stop),
    }
}

/// One worker of the download pool: the decisions between the queue and
/// the network, each event answered by the next action.
pub struct Worker {
    pub state: WorkerState,
}

impl Worker {
    pub open spec fn wf(&self) -> bool {
        state_wf(self.state@)
    }

    /// A worker waiting for its first work-item.
    pub fn new() -> (r: Worker)
        ensures
            r.wf(),
            r.state@ == WorkerStateView::Waiting,
    {
        Worker { state: WorkerState::Waiting }
    }

    /// Whether the worker is finished.
    pub fn is_stopped(&self) -> (r: bool)
        ensures
            r == (self.state@ == WorkerStateView::Stopped),
    {
        match self.state {
            WorkerState::Stopped => true,
            _ => false,
        }
    }

    /// Takes in an event and answers with the next action.
    pub fn step(&mut self, event: WorkerEvent) -> (r: WorkerAction)
        requires
            old(self).wf(),
        ensures
            final(self).wf(),
            (final(self).state@, r@) == next(old(self).state@, event@),
    {
        let mut state = WorkerState::Stopped;
        core::mem::swap(&mut state, &mut self.state);
        match state {
            WorkerState::Waiting => match event {
                WorkerEvent::Received(item) => {
                    let plan = download_plan(&item);
                    proof {
                        lemma_plan_len(item@);
                    }
                    let first = plan[0].clone_download();
                    self.state = WorkerState::Downloading { plan, done: 0 };
                    WorkerAction::Fetch(first)
                },
                WorkerEvent::QueueClosed => WorkerAction::Stop,
                WorkerEvent::Attempted => {
                    self.state = WorkerState::Waiting;
                    WorkerAction::Receive
                },
            },
            WorkerState::Downloading { plan, done } => match event {
                WorkerEvent::Attempted => if done < plan.len() - 1 {
                    let d = plan[done + 1].clone_download();
                    self.state = WorkerState::Downloading { plan, done: done + 1 };
                    WorkerAction::Fetch(d)
                } else {
                    self.state = WorkerState::Waiting;
                    WorkerAction::Receive
                },
                _ => {
                    let d = plan[done].clone_download();
                    self.state = WorkerState::Downloading { plan, done };
                    WorkerAction::Fetch(d)
                },
            },
            WorkerState::Stopped => WorkerAction::Stop,
        }
    }
}

impl Download {
    /// A copy of this download.
    pub fn clone_download(&self) -> (r: Download)
        ensures
            r@ == self@,
    {
        Download { url: self.url.clone(), path: self.path.clone() }
    }
}

proof fn lemma_plan_len(item: QueuedDownloadView)
    ensures
        plan_of(item).len() == 3,
{
}

/// The state a worker ends in and the actions it asks for, when it is
/// handed a sequence of events.
pub open spec fn run(s: WorkerStateView, events: Seq<WorkerEventView>) -> (WorkerStateView, Seq<WorkerActionView>)
    decreases events.len(),
{
    if events.len() == 0 {
        (s, Seq::empty())
    } else {
        let before = run(s, events.drop_last());
        let step = next(before.0, events.last());
        (step.0, before.1.push(step.1))
    }
}

/// The events a worker sees for one work-item: the item, then one attempt
/// per download.
pub open spec fn item_events(item: QueuedDownloadView) -> Seq<WorkerEventView> {
    seq![
        WorkerEventView::Received(item),
        WorkerEventView::Attempted,
        WorkerEventView::Attempted,
        WorkerEventView::Attempted
    ]
}

/// The actions a worker asks for on one work-item: each of its downloads,
/// then the next item.
pub open spec fn item_actions(item: QueuedDownloadView) -> Seq<WorkerActionView> {
    plan_of(item).map_values(|d: DownloadView| WorkerActionView::Fetch(d)).push(
        WorkerActionView::Receive,
    )
}

proof fn lemma_run_append(s: WorkerStateView, a: Seq<WorkerEventView>, b: Seq<WorkerEventView>)
    ensures
        run(s, a + b) == (run(run(s, a).0, b).0, run(s, a).1 + run(run(s, a).0, b).1),
    decreases b.len(),
{
    if b.len() == 0 {
        assert(a + b =~= a);
        assert(run(s, a).1 + Seq::<WorkerActionView>::empty() =~= run(s, a).1);
    } else {
        assert((a + b).drop_last() =~= a + b.drop_last());
        lemma_run_append(s, a, b.drop_last());
        let mid = run(s, a).0;
        assert(run(s, a).1 + run(mid, b).1 =~= (run(s, a).1 + run(mid, b.drop_last()).1).push(
            run(mid, b).1.last(),
        ));
    }
}

proof fn lemma_one_item(item: QueuedDownloadView)
    ensures
        run(WorkerStateView::Waiting, item_events(item)) == (
            WorkerStateView::Waiting,
            item_actions(item),
        ),
{
    let ev = item_events(item);
    reveal_with_fuel(run, 5);
    assert(ev.drop_last().drop_last().drop_last().drop_last() =~= Seq::<WorkerEventView>::empty());
    assert(ev.drop_last().drop_last().drop_last().last() == WorkerEventView::Received(item));
    assert(ev.drop_last().drop_last().last() == WorkerEventView::Attempted);
    assert(ev.drop_last().last() == WorkerEventView::Attempted);
    assert(ev.last() == WorkerEventView::Attempted);
    assert(plan_of(item).len() == 3);
    assert(item_actions(item) =~= seq![
        WorkerActionView::Fetch(plan_of(item)[0]),
        WorkerActionView::Fetch(plan_of(item)[1]),
        WorkerActionView::Fetch(plan_of(item)[2]),
        WorkerActionView::Receive
    ]);
}

/// A worker that is handed work-items one after the other, each followed
/// by the attempts at its downloads, asks for every download of every item
/// exactly once, in order, and nothing else; once the queue is then closed
/// and empty it stops.
pub proof fn lemma_each_item_downloaded_once(items: Seq<QueuedDownloadView>)
    ensures
        run(WorkerStateView::Waiting, items.flat_map(|q: QueuedDownloadView| item_events(q)))
            == (WorkerStateView::Waiting, items.flat_map(|q: QueuedDownloadView| item_actions(q))),
        run(
            WorkerStateView::Waiting,
            items.flat_map(|q: QueuedDownloadView| item_events(q)).push(WorkerEventView::QueueClosed),
        ) == (
            WorkerStateView::Stopped,
            items.flat_map(|q: QueuedDownloadView| item_actions(q)).push(WorkerActionView::Stop),
        ),
    decreases items.len(),
{
    let fe = |q: QueuedDownloadView| item_events(q);
    let fa = |q: QueuedDownloadView| item_actions(q);
    if items.len() == 0 {
        assert(items.flat_map(fe) =~= Seq::<WorkerEventView>::empty());
        assert(items.flat_map(fa) =~= Seq::<WorkerActionView>::empty());
    } else {
        let rest = items.drop_last();
        let q = items.last();
        lemma_each_item_downloaded_once(rest);
        rest.lemma_flat_map_push(fe, q);
        rest.lemma_flat_map_push(fa, q);
        assert(rest.push(q) == items);
        lemma_run_append(WorkerStateView::Waiting, rest.flat_map(fe), item_events(q));
        lemma_one_item(q);
    }
    let all = items.flat_map(fe);
    assert(all.push(WorkerEventView::QueueClosed).drop_last() == all);
}

/// A worker that has been handed the closed and empty queue stops, and
/// stays stopped whatever it is told after.
pub proof fn lemma_closed_queue_stops(s: WorkerStateView, e: WorkerEventView)
    ensures
        s == WorkerStateView::Waiting ==> next(s, WorkerEventView::QueueClosed) == (
            WorkerStateView::Stopped,
            WorkerActionView::Stop,
        ),
        next(WorkerStateView::Stopped, e) == (WorkerStateView::Stopped, WorkerActionView::Stop),
{
}

/// From any consistent state, a worker stops within four events: at most
/// three attempts at the downloads still ahead of it, then the closed and
/// empty queue.
pub proof fn lemma_stops_within_bound(s: WorkerStateView)
    requires
        state_wf(s),
        s matches WorkerStateView::Downloading { plan, .. } ==> plan.len() <= 3,
    ensures
        run(
            s,
            seq![
                WorkerEventView::Attempted,
                WorkerEventView::Attempted,
                WorkerEventView::Attempted,
                WorkerEventView::QueueClosed
            ],
        ).0 == WorkerStateView::Stopped,
{
    let ev = seq![
        WorkerEventView::Attempted,
        WorkerEventView::Attempted,
        WorkerEventView::Attempted,
        WorkerEventView::QueueClosed
    ];
    reveal_with_fuel(run, 5);
    assert(ev.drop_last().drop_last().drop_last().drop_last() =~= Seq::<WorkerEventView>::empty());
    assert(ev.drop_last().drop_last().drop_last().last() == WorkerEventView::Attempted);
    assert(ev.drop_last().drop_last().last() == WorkerEventView::Attempted);
    assert(ev.drop_last().last() == WorkerEventView::Attempted);
    assert(ev.last() == WorkerEventView::QueueClosed);
}

/// The downloads of a work-item write three different files, all inside the
/// item's folder, each named after the sheet; the files depend on the item
/// alone, so running the downloads again writes the same files over.
pub proof fn lemma_plan_files_distinct(item: QueuedDownloadView)
    ensures
        plan_of(item).len() == 3,
        forall|i: int, j: int|
            0 <= i < 3 && 0 <= j < 3 && i != j ==> plan_of(item)[i].path != plan_of(item)[j].path,
        forall|i: int|
            0 <= i < 3 ==> (#[trigger] plan_of(item)[i]).path.take(item.folder.len() as int)
                == item.folder,
{
    reveal_strlit("pdf");
    reveal_strlit("mid");
    reveal_strlit("mus");
    let p = plan_of(item);
    assert forall|i: int, j: int|
        0 <= i < 3 && 0 <= j < 3 && i != j implies p[i].path != p[j].path by {
        let a = p[i].path;
        let b = p[j].path;
        assert(a.last() == format_name(formats()[i]).last());
        assert(b.last() == format_name(formats()[j]).last());
    }
    assert forall|i: int| 0 <= i < 3 implies (#[trigger] p[i]).path.take(item.folder.len() as int)
        == item.folder by {
        assert(p[i].path.take(item.folder.len() as int) =~= item.folder);
    }
}

} // verus!
