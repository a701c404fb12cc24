//! The batch coordinator: runs many transfers under a bounded-concurrency
//! limiter, aggrelimiters their outcomes, and emits one terminal batch event.
//!
//! The coordinator is a step machine: `step(j)` advances item `j` by one unit
//! of work (acquire the limiter and set up; process one body incident; finish).
//! A driver — or a test exercising a particular interleaving — chooses the
//! schedule; `run_all` drives items round-robin until every item is done.
//! The invariant ties the limiter counter to the number of running items, so no
//! schedule can ever hold more permits than the configured limit.
use vstd::prelude::*;
use vstd::string::StringExecFns;
use crate::locator::{parse_url_path, url_parse_ok};
use crate::models::TextbookDownloadInfo;
use crate::registry::{CancellationHandle, CancellationRegistry};
use crate::transfer::{
    chunks_total, dest_file_spec, script_outcome_spec, steps_outcome_from, OutcomeModel,
    StreamStep, TransferError, TransferMachine, TransferPhase, TransferScript,
    build_save_path, extract_file_extension,
};

verus! {

/// A counting limiter bounding how many transfers work at once.
#[derive(Clone, Copy, Debug)]
pub struct Limiter {
    /// The number of permits the limiter was created with.
    pub limit: usize,
    /// Permits currently held.
    pub active: usize,
}

impl Limiter {
    /// The limiter never hands out more permits than its limit.
    pub open spec fn wf(&self) -> bool {
        self.active <= self.limit
    }

    pub fn new(limit: usize) -> (g: Self)
        ensures
            g.wf(),
            g.limit == limit,
            g.active == 0,
    {
        Limiter { limit, active: 0 }
    }

    /// Take a permit if one is free.
    pub fn try_acquire(&mut self) -> (ok: bool)
        requires
            old(self).wf(),
        ensures
            final(self).wf(),
            final(self).limit == old(self).limit,
            ok == (old(self).active < old(self).limit),
            ok ==> final(self).active == old(self).active + 1,
            !ok ==> *final(self) == *old(self),
    {
        if self.active < self.limit {
            self.active = self.active + 1;
            true
        } else {
            false
        }
    }

    /// Hand a permit back.
    pub fn release(&mut self)
        requires
            old(self).wf(),
            old(self).active > 0,
        ensures
            final(self).wf(),
            final(self).limit == old(self).limit,
            final(self).active == old(self).active - 1,
    {
        self.active = self.active - 1;
    }
}

/// Law: a well-formed limiter never has more holders than its limit.
pub proof fn lemma_limiter_bounded(g: &Limiter)
    requires
        g.wf(),
    ensures
        g.active <= g.limit,
{
}

/// Where one batch item stands.
#[derive(Clone, Copy, Debug, PartialEq, Eq, Structural)]
pub enum ItemPhase {
    /// Not yet holding a limiter permit.
    Waiting,
    /// Holding a permit, its transfer mid-stream.
    Running,
    /// Reached a terminal outcome; its permit is returned.
    Done,
}

/// One transfer inside a batch, with the effects scripted for it and the
/// state of its run.
#[derive(Debug)]
pub struct ItemState {
    pub info: TextbookDownloadInfo,
    pub script: TransferScript,
    pub phase: ItemPhase,
    /// The transfer's machine, once its setup has produced one.
    pub machine: Option<TransferMachine>,
    /// Next body incident of `script.steps` to process.
    pub cursor: usize,
    /// Whether the item completed; meaningful once `phase` is `Done`.
    pub succeeded: bool,
}

/// Whether an item with these inputs completes: not cancelled before it
/// starts, a parsable source URL, and a script whose outcome is `Completed`.
pub open spec fn item_ok_spec(
    info: TextbookDownloadInfo,
    base: Seq<char>,
    script: TransferScript,
) -> bool {
    &&& !script.cancel_before_start
    &&& url_parse_ok(info.url@)
    &&& script_outcome_spec(script, dest_file_spec(info, base)) is Completed
}

/// How many items currently hold a permit.
pub open spec fn running_count(items: Seq<ItemState>) -> int
    decreases items.len(),
{
    if items.len() == 0 {
        0
    } else {
        (if items[0].phase is Running {
            1int
        } else {
            0int
        }) + running_count(items.drop_first())
    }
}

/// Steps of work left before an item is done; drives termination.
pub open spec fn item_work(it: ItemState) -> int {
    match it.phase {
        ItemPhase::Waiting => it.script.steps@.len() as int + 2,
        ItemPhase::Running => it.script.steps@.len() as int - it.cursor + 1,
        ItemPhase::Done => 0,
    }
}

/// Total work left in the batch.
pub open spec fn total_work(items: Seq<ItemState>) -> int
    decreases items.len(),
{
    if items.len() == 0 {
        0
    } else {
        item_work(items[0]) + total_work(items.drop_first())
    }
}

proof fn lemma_running_count_update(items: Seq<ItemState>, j: int, v: ItemState)
    requires
        0 <= j < items.len(),
    ensures
        running_count(items.update(j, v)) == running_count(items) - (if items[j].phase is Running {
            1int
        } else {
            0int
        }) + (if v.phase is Running {
            1int
        } else {
            0int
        }),
    decreases items.len(),
{
    let u = items.update(j, v);
    if j == 0 {
        assert(u[0] == v);
        assert(u.drop_first() =~= items.drop_first());
    } else {
        assert(u[0] == items[0]);
        assert(u.drop_first() =~= items.drop_first().update(j - 1, v));
        lemma_running_count_update(items.drop_first(), j - 1, v);
    }
}

proof fn lemma_total_work_update(items: Seq<ItemState>, j: int, v: ItemState)
    requires
        0 <= j < items.len(),
    ensures
        total_work(items.update(j, v)) == total_work(items) - item_work(items[j]) + item_work(v),
    decreases items.len(),
{
    let u = items.update(j, v);
    if j == 0 {
        assert(u[0] == v);
        assert(u.drop_first() =~= items.drop_first());
    } else {
        assert(u[0] == items[0]);
        assert(u.drop_first() =~= items.drop_first().update(j - 1, v));
        lemma_total_work_update(items.drop_first(), j - 1, v);
    }
}

proof fn lemma_running_count_none(items: Seq<ItemState>)
    requires
        forall|j: int| 0 <= j < items.len() ==> !((#[trigger] items[j]).phase is Running),
    ensures
        running_count(items) == 0,
    decreases items.len(),
{
    if items.len() > 0 {
        assert(forall|j: int|
            0 <= j < items.drop_first().len() ==> #[trigger] items.drop_first()[j] == items[j + 1]);
        lemma_running_count_none(items.drop_first());
    }
}

proof fn lemma_running_count_nonneg(items: Seq<ItemState>)
    ensures
        running_count(items) >= 0,
    decreases items.len(),
{
    if items.len() > 0 {
        lemma_running_count_nonneg(items.drop_first());
    }
}

proof fn lemma_running_count_at_least(items: Seq<ItemState>, j: int)
    requires
        0 <= j < items.len(),
        items[j].phase is Running,
    ensures
        running_count(items) >= 1,
    decreases items.len(),
{
    lemma_running_count_nonneg(items.drop_first());
    if j > 0 {
        assert(items.drop_first()[j - 1] == items[j]);
        lemma_running_count_at_least(items.drop_first(), j - 1);
    }
}

proof fn lemma_total_work_nonneg(items: Seq<ItemState>)
    requires
        forall|j: int|
            0 <= j < items.len() ==> (#[trigger] items[j]).cursor <= items[j].script.steps@.len(),
    ensures
        total_work(items) >= 0,
    decreases items.len(),
{
    if items.len() > 0 {
        assert(forall|j: int|
            0 <= j < items.drop_first().len() ==> #[trigger] items.drop_first()[j] == items[j + 1]);
        lemma_total_work_nonneg(items.drop_first());
    }
}

/// One terminal notification per batch: whether every item completed, and the
/// destination directory the batch wrote under.
#[derive(Clone, Debug)]
pub struct BatchEvent {
    pub all_succeeded: bool,
    pub download_path: String,
}

/// The aggrelimiter result of a batch: the conjunction of all items' outcomes
/// being `Completed`.
#[derive(Clone, Copy, Debug, PartialEq, Eq, Structural)]
pub struct BatchResult {
    pub all_succeeded: bool,
}

/// The batch coordinator's whole state: the limiter, its own cancellation
/// registry, and every item's progress.
#[derive(Debug)]
pub struct BatchRunner {
    pub download_path: String,
    pub limiter: Limiter,
    pub registry: CancellationRegistry,
    pub items: Vec<ItemState>,
}

impl BatchRunner {
    /// The per-item part of the coordinator invariant.
    pub open spec fn item_inv(&self, j: int) -> bool {
        let it = self.items@[j];
        &&& it.cursor <= it.script.steps@.len()
        &&& chunks_total(it.script.steps@) <= u64::MAX
        &&& match it.phase {
            ItemPhase::Waiting => {
                &&& it.machine is None
                &&& it.cursor == 0
                &&& (if it.script.cancel_before_start {
                    !self.registry.active_for(it.info.url@) && self.registry.cancelled_for(
                        it.info.url@,
                    )
                } else {
                    self.registry.active_for(it.info.url@) && !self.registry.cancelled_for(
                        it.info.url@,
                    )
                })
            },
            ItemPhase::Running => {
                &&& it.machine is Some
                &&& it.machine->0.wf()
                &&& it.machine->0.phase is Streaming
                &&& it.machine->0.identity@ == it.info.url@
                &&& it.machine->0.file_path@ == dest_file_spec(it.info, self.download_path@)
                &&& !it.script.cancel_before_start
                &&& it.script.dir_error is None
                &&& it.script.send_error is None
                &&& it.script.response_ok
                &&& it.script.create_error is None
                &&& url_parse_ok(it.info.url@)
                &&& it.machine->0.downloaded + chunks_total(
                    it.script.steps@.skip(it.cursor as int),
                ) <= chunks_total(it.script.steps@)
                &&& steps_outcome_from(
                    it.script.steps@,
                    false,
                    it.machine->0.file_path@,
                ) == steps_outcome_from(
                    it.script.steps@.skip(it.cursor as int),
                    self.registry.cancelled_for(it.info.url@),
                    it.machine->0.file_path@,
                )
                &&& (self.registry.active_for(it.info.url@) || self.registry.cancelled_for(
                    it.info.url@,
                ))
            },
            ItemPhase::Done => {
                &&& !self.registry.active_for(it.info.url@)
                &&& it.succeeded == item_ok_spec(it.info, self.download_path@, it.script)
                &&& (it.machine matches Some(m) ==> m.wf() && m.phase is Finished && (
                m.file_on_disk <==> m.outcome->0.is_completed()))
            },
        }
    }

    /// The coordinator invariant: the registry is consistent, identities are
    /// distinct, every item is in a coherent state, and — the concurrency
    /// bound — the limiter's held permits equal the number of running items and
    /// never exceed the limit.
    pub open spec fn inv_core(&self) -> bool {
        &&& self.download_path@.len() > 0
        &&& self.registry.wf()
        &&& (forall|j: int, k: int|
            0 <= j < self.items@.len() && 0 <= k < self.items@.len() && (
            #[trigger] self.items@[j]).info.url@ == (#[trigger] self.items@[k]).info.url@ ==> j
                == k)
        &&& (forall|j: int| 0 <= j < self.items@.len() ==> self.item_inv(j))
    }

    pub open spec fn inv(&self) -> bool {
        &&& self.inv_core()
        &&& self.limiter.limit > 0
        &&& self.limiter.active == running_count(self.items@)
        &&& self.limiter.wf()
    }

    /// Whether `step(j)` would advance item `j`: a finished item never moves,
    /// and a waiting item moves only when a permit is free.
    pub open spec fn can_step(&self, j: int) -> bool {
        match self.items@[j].phase {
            ItemPhase::Waiting => self.limiter.active < self.limiter.limit,
            ItemPhase::Running => true,
            ItemPhase::Done => false,
        }
    }

    /// Item invariants do not depend on the limiter: they carry over between
    /// two states that agree on the path, the registry and the items.
    proof fn lemma_item_inv_congruence(a: Self, b: Self)
        requires
            a.download_path == b.download_path,
            a.registry == b.registry,
            a.items == b.items,
            forall|j: int| 0 <= j < a.items@.len() ==> a.item_inv(j),
        ensures
            forall|j: int| 0 <= j < b.items@.len() ==> b.item_inv(j),
    {
        assert forall|j: int| 0 <= j < b.items@.len() implies b.item_inv(j) by {
            assert(a.item_inv(j));
        }
    }

    /// Everything about the items that a step leaves alone.
    pub open spec fn frame(&self, pre: Self, j: int) -> bool {
        &&& self.items@.len() == pre.items@.len()
        &&& self.download_path == pre.download_path
        &&& self.limiter.limit == pre.limiter.limit
        &&& (forall|k: int|
            0 <= k < pre.items@.len() && k != j ==> #[trigger] self.items@[k] == pre.items@[k])
        &&& self.items@[j].info == pre.items@[j].info
        &&& self.items@[j].script == pre.items@[j].script
    }

    /// Advance item `j` by one unit of work, if it can move.
    pub fn step(&mut self, j: usize) -> (progressed: bool)
        requires
            old(self).inv(),
            j < old(self).items@.len(),
        ensures
            final(self).inv(),
            final(self).frame(*old(self), j as int),
            progressed == old(self).can_step(j as int),
            progressed ==> total_work(final(self).items@) < total_work(old(self).items@),
            !progressed ==> *final(self) == *old(self),
    {
        let phase = self.items[j].phase;
        match phase {
            ItemPhase::Done => false,
            ItemPhase::Waiting => {
                let mut g = self.limiter;
                let acquired = g.try_acquire();
                self.limiter = g;
                if !acquired {
                    return false;
                }
                proof {
                    Self::lemma_item_inv_congruence(*old(self), *self);
                    assert(self.inv_core());
                }
                self.setup_item(j);
                true
            },
            ItemPhase::Running => {
                self.advance_item(j);
                true
            },
        }
    }

    /// First unit of work for an item that just took a permit: observe a
    /// pending cancellation, validate the locator, run the setup effects, and
    /// either start streaming or finish at once.
    fn setup_item(&mut self, j: usize)
        requires
            old(self).inv_core(),
            j < old(self).items@.len(),
            old(self).items@[j as int].phase is Waiting,
            old(self).limiter.active == running_count(old(self).items@) + 1,
            old(self).limiter.wf(),
            old(self).limiter.limit > 0,
        ensures
            final(self).inv(),
            final(self).frame(*old(self), j as int),
            total_work(final(self).items@) < total_work(old(self).items@),
    {
        let ghost pre = *old(self);
        let identity = self.items[j].info.url.clone();
        proof {
            lemma_running_count_nonneg(pre.items@);
        }
        if self.registry.is_cancelled(&identity) {
            // cancelled before any work: report and finish
            let mut m = TransferMachine::new(identity.clone(), String::new());
            let _ = m.on_cancel();
            self.registry.revoke(&identity);
            let mut g = self.limiter;
            g.release();
            self.limiter = g;
            let it = &mut self.items[j];
            it.machine = Some(m);
            it.phase = ItemPhase::Done;
            it.succeeded = false;
            proof {
                assert(pre.item_inv(j as int));
                assert(self.items@ =~= pre.items@.update(j as int, self.items@[j as int]));
                lemma_running_count_update(pre.items@, j as int, self.items@[j as int]);
                lemma_total_work_update(pre.items@, j as int, self.items@[j as int]);
                assert forall|k: int| 0 <= k < self.items@.len() implies self.item_inv(k) by {
                    assert(pre.item_inv(k));
                    if k != j as int {
                        assert(self.items@[k] == pre.items@[k]);
                        let url = pre.items@[k].info.url@;
                        let _h = self.registry.has_entry(url);
                        let _a = self.registry.active_for(url);
                        let _c = self.registry.cancelled_for(url);
                    }
                }
            }
            return ;
        }
        let url_path = match parse_url_path(self.items[j].info.url.as_str()) {
            Some(p) => p,
            None => {
                self.registry.revoke(&identity);
                let mut g = self.limiter;
                g.release();
                self.limiter = g;
                let it = &mut self.items[j];
                it.phase = ItemPhase::Done;
                it.succeeded = false;
                proof {
                    assert(pre.item_inv(j as int));
                    assert(self.items@ =~= pre.items@.update(j as int, self.items@[j as int]));
                    lemma_running_count_update(pre.items@, j as int, self.items@[j as int]);
                    lemma_total_work_update(pre.items@, j as int, self.items@[j as int]);
                    assert forall|k: int| 0 <= k < self.items@.len() implies self.item_inv(k) by {
                        assert(pre.item_inv(k));
                        if k != j as int {
                            assert(self.items@[k] == pre.items@[k]);
                            let url = pre.items@[k].info.url@;
                            let _h = self.registry.has_entry(url);
                            let _a = self.registry.active_for(url);
                            let _c = self.registry.cancelled_for(url);
                        }
                    }
                }
                return ;
            },
        };
        let file_extension = extract_file_extension(url_path.as_str());
        let dir = build_save_path(&self.items[j].info, self.download_path.as_str());
        let mut file_path = dir;
        file_path.append("/");
        file_path.append(self.items[j].info.title.as_str());
        file_path.append(file_extension.as_str());
        proof {
            reveal_strlit("/");
            assert("/"@ =~= seq!['/']);
            assert(file_path@ =~= dest_file_spec(pre.items@[j as int].info, pre.download_path@));
        }
        let mut m = TransferMachine::new(identity.clone(), file_path);
        let mut done = false;
        if let Some(d) = &self.items[j].script.dir_error {
            m.on_dir_error(d.clone());
            done = true;
        } else {
            m.start();
            if let Some(d) = &self.items[j].script.send_error {
                m.on_send_error(d.clone());
                done = true;
            } else {
                let ok = self.items[j].script.response_ok;
                let detail = self.items[j].script.status_detail.clone();
                let len = self.items[j].script.content_length;
                m.on_response(ok, detail, len);
                if !ok {
                    done = true;
                } else {
                    if let Some(d) = &self.items[j].script.create_error {
                        m.on_file_error(d.clone());
                        done = true;
                    } else {
                        m.on_file_created();
                    }
                }
            }
        }
        if done {
            self.registry.revoke(&identity);
            let mut g = self.limiter;
            g.release();
            self.limiter = g;
            let it = &mut self.items[j];
            it.machine = Some(m);
            it.phase = ItemPhase::Done;
            it.succeeded = false;
            proof {
                assert(pre.item_inv(j as int));
                assert(self.items@ =~= pre.items@.update(j as int, self.items@[j as int]));
                lemma_running_count_update(pre.items@, j as int, self.items@[j as int]);
                lemma_total_work_update(pre.items@, j as int, self.items@[j as int]);
                assert forall|k: int| 0 <= k < self.items@.len() implies self.item_inv(k) by {
                    assert(pre.item_inv(k));
                    if k != j as int {
                        assert(self.items@[k] == pre.items@[k]);
                        let url = pre.items@[k].info.url@;
                        let _h = self.registry.has_entry(url);
                        let _a = self.registry.active_for(url);
                        let _c = self.registry.cancelled_for(url);
                    }
                }
            }
        } else {
            proof {
                assert(pre.items@[j as int].script.steps@.skip(0)
                    =~= pre.items@[j as int].script.steps@);
            }
            let it = &mut self.items[j];
            it.machine = Some(m);
            it.phase = ItemPhase::Running;
            it.cursor = 0;
            proof {
                assert(pre.item_inv(j as int));
                assert(self.items@ =~= pre.items@.update(j as int, self.items@[j as int]));
                lemma_running_count_update(pre.items@, j as int, self.items@[j as int]);
                lemma_total_work_update(pre.items@, j as int, self.items@[j as int]);
                assert forall|k: int| 0 <= k < self.items@.len() implies self.item_inv(k) by {
                    assert(pre.item_inv(k));
                    if k != j as int {
                        assert(self.items@[k] == pre.items@[k]);
                        let url = pre.items@[k].info.url@;
                        let _h = self.registry.has_entry(url);
                        let _a = self.registry.active_for(url);
                        let _c = self.registry.cancelled_for(url);
                    }
                }
            }
        }
    }

    /// One unit of streaming work for a running item: process the next body
    /// incident, or — when the stream is exhausted — complete the transfer.
    fn advance_item(&mut self, j: usize)
        requires
            old(self).inv(),
            j < old(self).items@.len(),
            old(self).items@[j as int].phase is Running,
        ensures
            final(self).inv(),
            final(self).frame(*old(self), j as int),
            total_work(final(self).items@) < total_work(old(self).items@),
    {
        let ghost pre = *old(self);
        let identity = self.items[j].info.url.clone();
        let cursor = self.items[j].cursor;
        let n = self.items[j].script.steps.len();
        proof {
            assert(pre.item_inv(j as int));
            lemma_running_count_at_least(pre.items@, j as int);
            let steps = pre.items@[j as int].script.steps@;
            if cursor < n {
                crate::transfer::lemma_chunks_total_skip(steps, cursor as int);
                crate::transfer::lemma_chunks_total_nonneg(steps.skip(cursor as int + 1));
                assert(steps.skip(cursor as int)[0] == steps[cursor as int]);
                assert(steps.skip(cursor as int).drop_first() =~= steps.skip(cursor as int + 1));
            } else {
                assert(steps.skip(cursor as int).len() == 0);
            }
        }
        if cursor >= n {
            // stream exhausted: the transfer completed
            match &mut self.items[j].machine {
                Some(m) => m.on_stream_end(),
                None => proof {
                    assert(false);
                },
            }
            self.registry.revoke(&identity);
            let mut g = self.limiter;
            g.release();
            self.limiter = g;
            let it = &mut self.items[j];
            it.phase = ItemPhase::Done;
            it.succeeded = true;
            proof {
                assert(pre.item_inv(j as int));
                assert(self.items@ =~= pre.items@.update(j as int, self.items@[j as int]));
                lemma_running_count_update(pre.items@, j as int, self.items@[j as int]);
                lemma_total_work_update(pre.items@, j as int, self.items@[j as int]);
                assert forall|k: int| 0 <= k < self.items@.len() implies self.item_inv(k) by {
                    assert(pre.item_inv(k));
                    if k != j as int {
                        assert(self.items@[k] == pre.items@[k]);
                        let url = pre.items@[k].info.url@;
                        let _h = self.registry.has_entry(url);
                        let _a = self.registry.active_for(url);
                        let _c = self.registry.cancelled_for(url);
                    }
                }
            }
            return ;
        }
        let is_cancel_step = matches!(&self.items[j].script.steps[cursor], StreamStep::Cancel);
        if is_cancel_step {
            let _ = self.registry.cancel(&identity);
            let it = &mut self.items[j];
            it.cursor = cursor + 1;
            proof {
                assert(pre.item_inv(j as int));
                assert(self.items@ =~= pre.items@.update(j as int, self.items@[j as int]));
                lemma_running_count_update(pre.items@, j as int, self.items@[j as int]);
                lemma_total_work_update(pre.items@, j as int, self.items@[j as int]);
                assert forall|k: int| 0 <= k < self.items@.len() implies self.item_inv(k) by {
                    assert(pre.item_inv(k));
                    if k != j as int {
                        assert(self.items@[k] == pre.items@[k]);
                        let url = pre.items@[k].info.url@;
                        let _h = self.registry.has_entry(url);
                        let _a = self.registry.active_for(url);
                        let _c = self.registry.cancelled_for(url);
                    }
                }
            }
            return ;
        }
        // a pending signal is observed before the incident is processed
        if self.registry.is_cancelled(&identity) {
            match &mut self.items[j].machine {
                Some(m) => {
                    let _ = m.on_cancel();
                },
                None => proof {
                    assert(false);
                },
            }
            self.registry.revoke(&identity);
            let mut g = self.limiter;
            g.release();
            self.limiter = g;
            let it = &mut self.items[j];
            it.phase = ItemPhase::Done;
            it.succeeded = false;
            proof {
                assert(pre.item_inv(j as int));
                assert(self.items@ =~= pre.items@.update(j as int, self.items@[j as int]));
                lemma_running_count_update(pre.items@, j as int, self.items@[j as int]);
                lemma_total_work_update(pre.items@, j as int, self.items@[j as int]);
                assert forall|k: int| 0 <= k < self.items@.len() implies self.item_inv(k) by {
                    assert(pre.item_inv(k));
                    if k != j as int {
                        assert(self.items@[k] == pre.items@[k]);
                        let url = pre.items@[k].info.url@;
                        let _h = self.registry.has_entry(url);
                        let _a = self.registry.active_for(url);
                        let _c = self.registry.cancelled_for(url);
                    }
                }
            }
            return ;
        }
        let mut terminal = false;
        let chunk: Option<u64> = match &self.items[j].script.steps[cursor] {
            StreamStep::Chunk(c) => Some(*c),
            _ => None,
        };
        match chunk {
            Some(c) => {
                match &mut self.items[j].machine {
                    Some(m) => {
                        let _ = m.on_chunk(c);
                    },
                    None => proof {
                        assert(false);
                    },
                }
                let it = &mut self.items[j];
                it.cursor = cursor + 1;
            proof {
                assert(pre.item_inv(j as int));
                assert(self.items@ =~= pre.items@.update(j as int, self.items@[j as int]));
                lemma_running_count_update(pre.items@, j as int, self.items@[j as int]);
                lemma_total_work_update(pre.items@, j as int, self.items@[j as int]);
                assert forall|k: int| 0 <= k < self.items@.len() implies self.item_inv(k) by {
                    assert(pre.item_inv(k));
                    if k != j as int {
                        assert(self.items@[k] == pre.items@[k]);
                        let url = pre.items@[k].info.url@;
                        let _h = self.registry.has_entry(url);
                        let _a = self.registry.active_for(url);
                        let _c = self.registry.cancelled_for(url);
                    }
                }
            }
            },
            None => {
                let detail_and_kind: (String, bool) = match &self.items[j].script.steps[cursor] {
                    StreamStep::ChunkError(d) => (d.clone(), true),
                    StreamStep::WriteError(d) => (d.clone(), false),
                    _ => (String::new(), true),
                };
                match &mut self.items[j].machine {
                    Some(m) => if detail_and_kind.1 {
                        m.on_chunk_error(detail_and_kind.0);
                    } else {
                        m.on_write_error(detail_and_kind.0);
                    },
                    None => proof {
                        assert(false);
                    },
                }
                self.registry.revoke(&identity);
                let mut g = self.limiter;
                g.release();
                self.limiter = g;
                let it = &mut self.items[j];
                it.phase = ItemPhase::Done;
                it.succeeded = false;
                proof {
                    assert(pre.item_inv(j as int));
                    assert(self.items@ =~= pre.items@.update(j as int, self.items@[j as int]));
                    lemma_running_count_update(pre.items@, j as int, self.items@[j as int]);
                    lemma_total_work_update(pre.items@, j as int, self.items@[j as int]);
                    assert forall|k: int| 0 <= k < self.items@.len() implies self.item_inv(k) by {
                        assert(pre.item_inv(k));
                        if k != j as int {
                            assert(self.items@[k] == pre.items@[k]);
                            let url = pre.items@[k].info.url@;
                            let _h = self.registry.has_entry(url);
                            let _a = self.registry.active_for(url);
                            let _c = self.registry.cancelled_for(url);
                        }
                    }
                }
            },
        }
    }

}

} // verus!

verus! {

impl BatchRunner {
    /// Whether every item has reached a terminal outcome.
    pub open spec fn all_done(&self) -> bool {
        forall|j: int| 0 <= j < self.items@.len() ==> (#[trigger] self.items@[j]).phase is Done
    }

    /// Drive items round-robin until every one is done.  No schedule can
    /// deadlock: a running item always advances, and when none runs the limiter
    /// has free permits for a waiting one.
    pub fn run_all(&mut self)
        requires
            old(self).inv(),
        ensures
            final(self).inv(),
            final(self).all_done(),
            final(self).items@.len() == old(self).items@.len(),
            final(self).download_path == old(self).download_path,
            final(self).limiter.limit == old(self).limiter.limit,
            forall|k: int|
                0 <= k < old(self).items@.len() ==> (#[trigger] final(self).items@[k]).info == old(
                    self,
                ).items@[k].info && final(self).items@[k].script == old(self).items@[k].script,
    {
        let n = self.items.len();
        proof {
            self.lemma_work_nonneg();
        }
        loop
            invariant
                self.inv(),
                n == self.items@.len(),
                n == old(self).items@.len(),
                self.download_path == old(self).download_path,
                self.limiter.limit == old(self).limiter.limit,
                forall|k: int|
                    0 <= k < n ==> (#[trigger] self.items@[k]).info == old(self).items@[k].info
                        && self.items@[k].script == old(self).items@[k].script,
            ensures
                self.all_done(),
            decreases total_work(self.items@),
        {
            let ghost snap = *self;
            let mut progressed = false;
            let mut j: usize = 0;
            while j < n
                invariant
                    self.inv(),
                    n == self.items@.len(),
                    n == old(self).items@.len(),
                    j <= n,
                    self.download_path == old(self).download_path,
                    self.limiter.limit == old(self).limiter.limit,
                    forall|k: int|
                        0 <= k < n ==> (#[trigger] self.items@[k]).info == old(self).items@[k].info
                            && self.items@[k].script == old(self).items@[k].script,
                    !progressed ==> *self == snap && (forall|k: int|
                        0 <= k < j ==> !snap.can_step(k)),
                    progressed ==> total_work(self.items@) < total_work(snap.items@),
                decreases n - j,
            {
                if !progressed {
                    progressed = self.step(j);
                }
                j = j + 1;
            }
            if !progressed {
                proof {
                    assert forall|k: int|
                        0 <= k < n implies !((#[trigger] self.items@[k]).phase is Running) by {
                        if self.items@[k].phase is Running {
                            assert(snap.can_step(k));
                        }
                    }
                    lemma_running_count_none(self.items@);
                    assert(self.limiter.active == 0);
                    assert forall|k: int|
                        0 <= k < n implies (#[trigger] self.items@[k]).phase is Done by {
                        if self.items@[k].phase is Waiting {
                            assert(snap.can_step(k));
                        }
                    }
                }
                break ;
            }
            proof {
                self.lemma_work_nonneg();
            }
        }
    }

    /// Helper: under the invariant, the remaining work is non-negative.
    proof fn lemma_work_nonneg(&self)
        requires
            forall|j: int| 0 <= j < self.items@.len() ==> self.item_inv(j),
        ensures
            total_work(self.items@) >= 0,
    {
        assert forall|j: int|
            0 <= j < self.items@.len() implies (#[trigger] self.items@[j]).cursor
            <= self.items@[j].script.steps@.len() by {
            assert(self.item_inv(j));
        }
        lemma_total_work_nonneg(self.items@);
    }

    /// The aggrelimiter result: every item completed.
    pub fn aggrelimiter_result(&self) -> (r: BatchResult)
        ensures
            r.all_succeeded == (forall|i: int|
                0 <= i < self.items@.len() ==> (#[trigger] self.items@[i]).succeeded),
    {
        let n = self.items.len();
        let mut i: usize = 0;
        let mut all = true;
        while i < n
            invariant
                n == self.items@.len(),
                i <= n,
                all == (forall|k: int| 0 <= k < i ==> (#[trigger] self.items@[k]).succeeded),
            decreases n - i,
        {
            if !self.items[i].succeeded {
                all = false;
            }
            i = i + 1;
        }
        BatchResult { all_succeeded: all }
    }

    /// The single terminal batch event, carrying the aggrelimiter result and the
    /// destination directory.
    pub fn terminal_event(&self) -> (e: BatchEvent)
        ensures
            e.all_succeeded == (forall|i: int|
                0 <= i < self.items@.len() ==> (#[trigger] self.items@[i]).succeeded),
            e.download_path == self.download_path,
    {
        let r = self.aggrelimiter_result();
        BatchEvent { all_succeeded: r.all_succeeded, download_path: self.download_path.clone() }
    }
}

/// Whether two requests in the batch share an identity.
pub open spec fn has_duplicate_identity(infos: Seq<TextbookDownloadInfo>) -> bool {
    exists|i: int, j: int|
        0 <= i < infos.len() && 0 <= j < infos.len() && i != j && (#[trigger] infos[i]).url@ == (
        #[trigger] infos[j]).url@
}

/// Run a whole batch of transfers under a limiter of `thread_count` permits:
/// validate the inputs, register every item, drive all transfers to their
/// terminal outcomes, and hand back the finished coordinator.
///
/// One transfer's failure or cancellation never prevents its siblings from
/// finishing; the batch is reported successful exactly when every item
/// completed.
pub fn run_batch(
    textbooks_to_download: Vec<TextbookDownloadInfo>,
    scripts: Vec<TransferScript>,
    download_path: &str,
    thread_count: usize,
) -> (r: Result<BatchRunner, TransferError>)
    requires
        scripts@.len() == textbooks_to_download@.len(),
        forall|i: int|
            0 <= i < scripts@.len() ==> chunks_total((#[trigger] scripts@[i]).steps@) <= u64::MAX,
    ensures
        r is Ok <==> textbooks_to_download@.len() > 0 && download_path@.len() > 0 && thread_count
            > 0 && !has_duplicate_identity(textbooks_to_download@),
        textbooks_to_download@.len() == 0 ==> (r matches Err(TransferError::Precondition(m)) && m@
            == "No textbooks provided for download"@),
        textbooks_to_download@.len() > 0 && download_path@.len() == 0 ==> (r matches Err(
            TransferError::Precondition(m),
        ) && m@ == "Download path is not provided."@),
        textbooks_to_download@.len() > 0 && download_path@.len() > 0 && thread_count == 0 ==> (
        r matches Err(TransferError::Precondition(m)) && m@
            == "Thread count must be greater than 0"@),
        textbooks_to_download@.len() > 0 && download_path@.len() > 0 && thread_count > 0
            && has_duplicate_identity(textbooks_to_download@) ==> (r matches Err(
            TransferError::Precondition(m),
        ) && m@ == "Duplicate download identity"@),
        r matches Ok(b) ==> {
            &&& b.inv()
            &&& b.all_done()
            &&& b.items@.len() == textbooks_to_download@.len()
            &&& b.download_path@ == download_path@
            &&& b.limiter.limit == thread_count
            &&& b.limiter.active == 0
            &&& (forall|i: int|
                0 <= i < textbooks_to_download@.len() ==> (#[trigger] b.items@[i]).info
                    == textbooks_to_download@[i] && b.items@[i].script == scripts@[i]
                    && b.items@[i].succeeded == item_ok_spec(
                    textbooks_to_download@[i],
                    download_path@,
                    scripts@[i],
                ) && !b.registry.active_for(textbooks_to_download@[i].url@))
        },
{
    if textbooks_to_download.len() == 0 {
        return Err(
            TransferError::Precondition(String::from_str("No textbooks provided for download")),
        );
    }
    if download_path.is_empty() {
        return Err(TransferError::Precondition(String::from_str("Download path is not provided.")));
    }
    if thread_count == 0 {
        return Err(
            TransferError::Precondition(String::from_str("Thread count must be greater than 0")),
        );
    }
    let n = textbooks_to_download.len();
    // guard against two requests sharing one identity: the registry keeps at
    // most one handle per identity, so a duplicate would orphan a handle
    let mut i: usize = 0;
    while i < n
        invariant
            n == textbooks_to_download@.len(),
            n > 0,
            download_path@.len() > 0,
            thread_count > 0,
            i <= n,
            forall|a: int, b: int|
                0 <= a < i && a < b < n ==> (#[trigger] textbooks_to_download@[a]).url@ != (
                #[trigger] textbooks_to_download@[b]).url@,
        decreases n - i,
    {
        let mut k: usize = i + 1;
        while k < n
            invariant
                n == textbooks_to_download@.len(),
                n > 0,
                download_path@.len() > 0,
                thread_count > 0,
                i < n,
                i < k,
                k <= n,
                forall|b: int|
                    i < b < k ==> (#[trigger] textbooks_to_download@[b]).url@
                        != textbooks_to_download@[i as int].url@,
            decreases n - k,
        {
            if textbooks_to_download[i].url == textbooks_to_download[k].url {
                return Err(
                    TransferError::Precondition(String::from_str("Duplicate download identity")),
                );
            }
            k = k + 1;
        }
        i = i + 1;
    }

    let ghost infos = textbooks_to_download@;
    let ghost scripts_snap = scripts@;
    let mut remaining_infos = textbooks_to_download;
    let mut remaining_scripts = scripts;
    let mut registry = CancellationRegistry::new();
    let mut items: Vec<ItemState> = Vec::new();
    let mut idx: usize = 0;
    while idx < n
        invariant
            n == infos.len(),
            n == scripts_snap.len(),
            idx <= n,
            remaining_infos@ =~= infos.skip(idx as int),
            remaining_scripts@ =~= scripts_snap.skip(idx as int),
            items@.len() == idx,
            registry.wf(),
            forall|a: int, b: int|
                0 <= a < n && 0 <= b < n && a != b ==> (#[trigger] infos[a]).url@ != (
                #[trigger] infos[b]).url@,
            forall|j: int|
                0 <= j < idx ==> (#[trigger] items@[j]).info == infos[j] && items@[j].script
                    == scripts_snap[j] && items@[j].phase is Waiting && items@[j].machine is None
                    && items@[j].cursor == 0,
            forall|j: int|
                0 <= j < idx ==> (if (#[trigger] items@[j]).script.cancel_before_start {
                    !registry.active_for(items@[j].info.url@) && registry.cancelled_for(
                        items@[j].info.url@,
                    )
                } else {
                    registry.active_for(items@[j].info.url@) && !registry.cancelled_for(
                        items@[j].info.url@,
                    )
                }),
        decreases n - idx,
    {
        proof {
            assert(remaining_infos@[0] == infos[idx as int]);
            assert(remaining_scripts@[0] == scripts_snap[idx as int]);
            assert(remaining_infos@.skip(1) =~= infos.skip(idx as int + 1));
            assert(remaining_scripts@.skip(1) =~= scripts_snap.skip(idx as int + 1));
        }
        let info = remaining_infos.remove(0);
        let script = remaining_scripts.remove(0);
        let identity = info.url.clone();
        let cbs = script.cancel_before_start;
        registry.register(identity.clone(), CancellationHandle::new());
        let ghost reg_mid = registry;
        if cbs {
            let res = registry.cancel(&identity);
            proof {
                assert(res is Ok);
            }
        }
        items.push(
            ItemState {
                info,
                script,
                phase: ItemPhase::Waiting,
                machine: None,
                cursor: 0,
                succeeded: false,
            },
        );
        proof {
            assert forall|j: int|
                0 <= j < idx + 1 implies (if (#[trigger] items@[j]).script.cancel_before_start {
                !registry.active_for(items@[j].info.url@) && registry.cancelled_for(
                    items@[j].info.url@,
                )
            } else {
                registry.active_for(items@[j].info.url@) && !registry.cancelled_for(
                    items@[j].info.url@,
                )
            }) by {
                if j < idx {
                    assert(items@[j].info.url@ != infos[idx as int].url@);
                    let url = items@[j].info.url@;
                    let _h0 = reg_mid.has_entry(url);
                    let _a0 = reg_mid.active_for(url);
                    let _c0 = reg_mid.cancelled_for(url);
                    let _h = registry.has_entry(url);
                    let _a = registry.active_for(url);
                    let _c = registry.cancelled_for(url);
                }
            }
        }
        idx = idx + 1;
    }
    let mut runner = BatchRunner {
        download_path: download_path.to_owned(),
        limiter: Limiter::new(thread_count),
        registry,
        items,
    };
    proof {
        lemma_running_count_none(runner.items@);
        assert forall|j: int| 0 <= j < runner.items@.len() implies runner.item_inv(j) by {
            assert(chunks_total(scripts_snap[j].steps@) <= u64::MAX);
        }
        assert(runner.inv());
    }
    runner.run_all();
    proof {
        assert forall|i2: int|
            0 <= i2 < infos.len() implies !runner.registry.active_for(
            (#[trigger] infos[i2]).url@,
        ) && runner.items@[i2].succeeded == item_ok_spec(
            infos[i2],
            download_path@,
            scripts_snap[i2],
        ) by {
            assert(runner.item_inv(i2));
        }
        assert forall|j: int|
            0 <= j < runner.items@.len() implies !((#[trigger] runner.items@[j]).phase
                is Running) by {}
        lemma_running_count_none(runner.items@);
    }
    Ok(runner)
}

} // verus!
