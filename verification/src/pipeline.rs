//! The ingest decisions for one listing of an index page.
//!
//! Looking a listing up in the store, fetching its detail page, storing it
//! and sending a notification are done by the caller. What is decided here
//! is which of these is due next, given what the last one reported. The
//! caller starts with [`start`], does what the action says, reports the
//! outcome as an event to [`step`], and goes on until the action is
//! [`Action::Stop`].

use vstd::prelude::*;
use crate::extract::{lacks_details, lemma_page_without_table, with_details, DetailPageView};
use crate::listing::{Vehicle, VehicleView};
use crate::policy::{Policy, PolicyView};

verus! {

/// How far a listing has come.
#[derive(Clone, Copy, Debug, PartialEq, Eq, Structural)]
pub enum Stage {
    /// The summary is in hand and passes the storage filter; the store has
    /// not been asked yet.
    FetchedSummary,
    /// The store does not hold the listing; its detail page has not been
    /// fetched yet.
    Unseen,
    /// The detail page has been read into the listing; it has not been
    /// stored yet.
    DetailFetched,
    /// The listing is stored and passes the notification filter; the
    /// notification has not been handed over yet.
    Persisted,
    /// Final: the listing is stored and a notification was handed over.
    Notified,
    /// Final: the listing is stored; no notification was due.
    Done,
    /// Final: the summary fails the storage filter.
    Dropped,
    /// Final: the store holds the listing already.
    SkippedDuplicate,
    /// Final: the detail page could not be fetched, or an event came that
    /// the stage does not expect.
    Aborted,
}

/// What the caller is to do next.
#[derive(Clone, Copy, Debug, PartialEq, Eq, Structural)]
pub enum Action {
    /// Ask the store whether it holds the listing's address, and report
    /// [`Event::Lookup`].
    CheckStore,
    /// Fetch the detail page, complete the listing from it, and report
    /// [`Event::Detail`].
    FetchDetail,
    /// Insert the listing into the store, and report [`Event::Insert`].
    Persist,
    /// Hand the notification to the sink, and report [`Event::Delivery`].
    Notify,
    /// Nothing more: the stage is final.
    Stop,
}

/// What the caller reports of the last action.
#[derive(Clone, Copy, Debug, PartialEq, Eq, Structural)]
pub enum Event {
    /// Whether the store holds the listing's address.
    Lookup { found: bool },
    /// Whether the detail page was fetched and read into the listing.
    Detail { fetched: bool },
    /// Whether the store took the listing; it does not where it holds the
    /// address already.
    Insert { inserted: bool },
    /// Whether the sink took the notification.
    Delivery { delivered: bool },
}

/// A stage and the action that is due in it.
#[derive(Clone, Copy, Debug, PartialEq, Eq, Structural)]
pub struct Step {
    pub stage: Stage,
    pub action: Action,
}

impl Stage {
    /// Whether nothing follows the stage.
    pub open spec fn is_final(self) -> bool {
        match self {
            Stage::FetchedSummary | Stage::Unseen | Stage::DetailFetched | Stage::Persisted => false,
            _ => true,
        }
    }

    /// Whether nothing follows the stage.
    pub fn finished(self) -> (r: bool)
        ensures
            r == self.is_final(),
    {
        match self {
            Stage::FetchedSummary | Stage::Unseen | Stage::DetailFetched | Stage::Persisted => false,
            _ => true,
        }
    }
}

/// A step.
pub open spec fn at(stage: Stage, action: Action) -> Step {
    Step { stage, action }
}

/// The first step for a listing whose summary is in hand: the store is
/// asked if the summary passes the storage filter, else the listing is
/// dropped.
pub open spec fn start_of(policy: PolicyView, summary: VehicleView) -> Step {
    if policy.stores(summary.category, summary.price) {
        at(Stage::FetchedSummary, Action::CheckStore)
    } else {
        at(Stage::Dropped, Action::Stop)
    }
}

/// The step that follows `stage` when `event` is reported of the listing
/// `vehicle`.
///
/// A listing that the store holds is skipped before its detail page is
/// fetched. A listing whose detail page was read is stored whatever the
/// notification filter says; the filter is put to the stored listing only.
/// A listing that the store rejects is skipped, and never notified of. What
/// the sink reports of the delivery changes nothing. An event that the
/// stage does not expect aborts the listing; a final stage stays as it is.
pub open spec fn step_of(policy: PolicyView, stage: Stage, vehicle: VehicleView, event: Event) -> Step {
    match (stage, event) {
        (Stage::FetchedSummary, Event::Lookup { found }) => if found {
            at(Stage::SkippedDuplicate, Action::Stop)
        } else {
            at(Stage::Unseen, Action::FetchDetail)
        },
        (Stage::Unseen, Event::Detail { fetched }) => if fetched {
            at(Stage::DetailFetched, Action::Persist)
        } else {
            at(Stage::Aborted, Action::Stop)
        },
        (Stage::DetailFetched, Event::Insert { inserted }) => if !inserted {
            at(Stage::SkippedDuplicate, Action::Stop)
        } else if policy.notifies(vehicle.mileage) {
            at(Stage::Persisted, Action::Notify)
        } else {
            at(Stage::Done, Action::Stop)
        },
        (Stage::Persisted, Event::Delivery { delivered }) => at(Stage::Notified, Action::Stop),
        _ => if stage.is_final() {
            at(stage, Action::Stop)
        } else {
            at(Stage::Aborted, Action::Stop)
        },
    }
}

/// Decides the first step for a listing whose summary is in hand.
pub fn start(policy: &Policy, summary: &Vehicle) -> (s: Step)
    ensures
        s == start_of(policy@, summary@),
{
    if policy.qualifies_for_storage(summary.category.as_str(), summary.price.as_str()) {
        Step { stage: Stage::FetchedSummary, action: Action::CheckStore }
    } else {
        Step { stage: Stage::Dropped, action: Action::Stop }
    }
}

/// Decides the step that follows `stage` when `event` is reported of the
/// listing `vehicle`.
pub fn step(policy: &Policy, stage: Stage, vehicle: &Vehicle, event: Event) -> (s: Step)
    ensures
        s == step_of(policy@, stage, vehicle@, event),
{
    match (stage, event) {
        (Stage::FetchedSummary, Event::Lookup { found }) => {
            if found {
                Step { stage: Stage::SkippedDuplicate, action: Action::Stop }
            } else {
                Step { stage: Stage::Unseen, action: Action::FetchDetail }
            }
        },
        (Stage::Unseen, Event::Detail { fetched }) => {
            if fetched {
                Step { stage: Stage::DetailFetched, action: Action::Persist }
            } else {
                Step { stage: Stage::Aborted, action: Action::Stop }
            }
        },
        (Stage::DetailFetched, Event::Insert { inserted }) => {
            if !inserted {
                Step { stage: Stage::SkippedDuplicate, action: Action::Stop }
            } else if policy.qualifies_for_notification(&vehicle.mileage) {
                Step { stage: Stage::Persisted, action: Action::Notify }
            } else {
                Step { stage: Stage::Done, action: Action::Stop }
            }
        },
        (Stage::Persisted, Event::Delivery { delivered: _ }) => {
            Step { stage: Stage::Notified, action: Action::Stop }
        },
        _ => {
            if stage.finished() {
                Step { stage, action: Action::Stop }
            } else {
                Step { stage: Stage::Aborted, action: Action::Stop }
            }
        },
    }
}

/// One listing of a fixed set of pages: its summary as the index page
/// shows it, and what its detail page shows, if that page can be fetched.
pub struct Fixture {
    pub summary: VehicleView,
    pub detail: Option<DetailPageView>,
}

/// What a run leaves behind: the addresses that the store holds, and the
/// listings that were notified of, in order.
pub struct Outcome {
    pub store: Set<Seq<char>>,
    pub notified: Seq<VehicleView>,
}

/// The listing as it is after the detail page was asked for.
pub open spec fn completed(f: Fixture) -> VehicleView {
    match f.detail {
        Some(page) => with_details(f.summary, page),
        None => f.summary,
    }
}

/// The outcome of taking one listing through its steps against a store
/// that answers truly: it reports an address as found exactly when it holds
/// it, and takes a listing exactly when it does not hold its address.
pub open spec fn run_entry(policy: PolicyView, before: Outcome, f: Fixture) -> Outcome {
    let first = start_of(policy, f.summary);
    if first.action != Action::CheckStore {
        before
    } else {
        let looked = step_of(
            policy,
            first.stage,
            f.summary,
            Event::Lookup { found: before.store.contains(f.summary.url) },
        );
        if looked.action != Action::FetchDetail {
            before
        } else {
            let record = completed(f);
            let fetched = step_of(
                policy,
                looked.stage,
                record,
                Event::Detail { fetched: f.detail is Some },
            );
            if fetched.action != Action::Persist {
                before
            } else {
                let stored = step_of(
                    policy,
                    fetched.stage,
                    record,
                    Event::Insert { inserted: !before.store.contains(record.url) },
                );
                Outcome {
                    store: before.store.insert(record.url),
                    notified: if stored.action == Action::Notify {
                        before.notified.push(record)
                    } else {
                        before.notified
                    },
                }
            }
        }
    }
}

/// The outcome of taking the listings `fs` through their steps, one after
/// the other.
pub open spec fn run(policy: PolicyView, before: Outcome, fs: Seq<Fixture>) -> Outcome
    decreases fs.len(),
{
    if fs.len() == 0 {
        before
    } else {
        run_entry(policy, run(policy, before, fs.drop_last()), fs.last())
    }
}

/// An outcome with the given store and no notifications yet.
pub open spec fn fresh(store: Set<Seq<char>>) -> Outcome {
    Outcome { store, notified: Seq::empty() }
}

/// Whether a run stores the listing unless the store holds it already: its
/// summary passes the storage filter and its detail page can be fetched.
pub open spec fn storable(policy: PolicyView, f: Fixture) -> bool {
    policy.stores(f.summary.category, f.summary.price) && f.detail is Some
}

/// A detail page leaves the address of a listing as it is.
pub proof fn lemma_details_keep_url(f: Fixture)
    ensures
        completed(f).url == f.summary.url,
{
}

/// One listing adds at most its own address to the store, takes none away,
/// and keeps the notifications that were there.
pub proof fn lemma_entry_grows(policy: PolicyView, before: Outcome, f: Fixture)
    ensures
        before.store.subset_of(run_entry(policy, before, f).store),
        storable(policy, f) ==> run_entry(policy, before, f).store.contains(f.summary.url),
        before.notified.len() <= run_entry(policy, before, f).notified.len(),
{
    lemma_details_keep_url(f);
}

/// A run takes no address out of the store, and leaves in it the address
/// of every listing that it could store.
pub proof fn lemma_run_grows(policy: PolicyView, before: Outcome, fs: Seq<Fixture>)
    ensures
        before.store.subset_of(run(policy, before, fs).store),
        forall|i: int|
            0 <= i < fs.len() && storable(policy, #[trigger] fs[i]) ==> run(
                policy,
                before,
                fs,
            ).store.contains(fs[i].summary.url),
    decreases fs.len(),
{
    if fs.len() > 0 {
        let earlier = run(policy, before, fs.drop_last());
        lemma_run_grows(policy, before, fs.drop_last());
        lemma_entry_grows(policy, earlier, fs.last());
        assert forall|i: int| 0 <= i < fs.len() && storable(policy, #[trigger] fs[i]) implies run(
            policy,
            before,
            fs,
        ).store.contains(fs[i].summary.url) by {
            if i < fs.len() - 1 {
                assert(fs.drop_last()[i] == fs[i]);
            }
        }
    }
}

/// Against a store that holds the address of every listing that could be
/// stored, a run changes nothing: it stores nothing and notifies of
/// nothing.
pub proof fn lemma_run_on_known(policy: PolicyView, before: Outcome, fs: Seq<Fixture>)
    requires
        forall|i: int|
            0 <= i < fs.len() && storable(policy, #[trigger] fs[i]) ==> before.store.contains(
                fs[i].summary.url,
            ),
    ensures
        run(policy, before, fs) == before,
    decreases fs.len(),
{
    if fs.len() > 0 {
        assert forall|i: int|
            0 <= i < fs.drop_last().len() && storable(
                policy,
                #[trigger] fs.drop_last()[i],
            ) implies before.store.contains(fs.drop_last()[i].summary.url) by {
            assert(fs.drop_last()[i] == fs[i]);
        }
        lemma_run_on_known(policy, before, fs.drop_last());
        let f = fs.last();
        assert(f == fs[fs.len() - 1]);
        lemma_details_keep_url(f);
    }
}

/// Running twice over the same pages: the second run leaves the store as
/// the first run left it, and notifies of nothing.
pub proof fn lemma_second_run_is_silent(policy: PolicyView, store: Set<Seq<char>>, fs: Seq<Fixture>)
    ensures
        run(policy, fresh(run(policy, fresh(store), fs).store), fs).store == run(
            policy,
            fresh(store),
            fs,
        ).store,
        run(policy, fresh(run(policy, fresh(store), fs).store), fs).notified.len() == 0,
{
    let first = run(policy, fresh(store), fs);
    lemma_run_grows(policy, fresh(store), fs);
    lemma_run_on_known(policy, fresh(first.store), fs);
}

/// A listing is notified of only in the step that stores it: no step asks
/// for a notification unless the store has just taken the listing.
pub proof fn lemma_notify_only_after_insert(
    policy: PolicyView,
    stage: Stage,
    vehicle: VehicleView,
    event: Event,
)
    requires
        step_of(policy, stage, vehicle, event).action == Action::Notify,
    ensures
        stage == Stage::DetailFetched,
        event == (Event::Insert { inserted: true }),
        policy.notifies(vehicle.mileage),
{
}

/// The detail page is asked for only after the store has said that it does
/// not hold the listing.
pub proof fn lemma_fetch_only_when_unseen(
    policy: PolicyView,
    stage: Stage,
    vehicle: VehicleView,
    event: Event,
)
    requires
        step_of(policy, stage, vehicle, event).action == Action::FetchDetail,
    ensures
        stage == Stage::FetchedSummary,
        event == (Event::Lookup { found: false }),
{
}

/// A listing whose detail page was read is stored, whatever the
/// notification filter says of it.
pub proof fn lemma_persist_regardless(policy: PolicyView, vehicle: VehicleView)
    ensures
        step_of(policy, Stage::Unseen, vehicle, Event::Detail { fetched: true }) == at(
            Stage::DetailFetched,
            Action::Persist,
        ),
{
}

/// A listing whose detail page has no attribute table keeps its detail
/// fields absent, and is never notified of; it is stored all the same.
pub proof fn lemma_missing_table_never_notifies(policy: PolicyView, before: Outcome, f: Fixture)
    requires
        f.detail is Some,
        f.detail->0.cells.len() == 0,
        lacks_details(f.summary),
    ensures
        lacks_details(completed(f)),
        !policy.notifies(completed(f).mileage),
        run_entry(policy, before, f).notified == before.notified,
        storable(policy, f) ==> run_entry(policy, before, f).store.contains(f.summary.url),
{
    lemma_page_without_table(f.summary, f.detail->0);
    lemma_details_keep_url(f);
}

} // verus!
