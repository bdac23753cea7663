//! The pipeline manager: the reconciler that diffs desired against live
//! sources, the registry of live source controllers, and the dispatch of
//! graph callbacks to the right controller.
//!
//! The manager mutates only its own model of the live sources; every graph
//! effect is returned to the caller as a `SourceOp`, and every callback from
//! the graph comes back in as a plain value.  Callbacks that arrive for a
//! source that has been removed, or that carry a superseded timer or poller
//! handle, are no-ops by contract.

use vstd::prelude::*;

use crate::config::spec_fingerprint;
use crate::config::SourceConfig;
use crate::controller::ControllerState;
use crate::controller::SourceController;
use crate::controller::StreamSelection;
use crate::watchdog::spec_elapsed;
use crate::watchdog::GraphState;
use crate::watchdog::PollStep;
use crate::watchdog::ReconnectionContext;
use crate::watchdog::StateChangeOutcome;

verus! {

/// Interval of the periodic reconciliation tick.
pub const RECONCILE_INTERVAL_MS: u64 = 10_000;

/// What one firing of a source's periodic watchdog timer found.
#[derive(Debug, Clone, Copy, PartialEq, Eq, Structural)]
pub enum TickOutcome {
    /// The source is gone or the timer handle is superseded: the caller
    /// cancels this timer.
    Stale,
    /// Nothing to do.
    Idle,
    /// A reset attempt starts now.
    Reset,
}

/// One graph effect the caller must perform: attach a source's subgraph to
/// the running graph, or detach it.
#[derive(Debug, Clone, Copy, PartialEq, Eq, Structural)]
pub enum SourceOp {
    Attach { id: u8 },
    Detach { id: u8 },
}

/// One live source: its id, the fingerprint of the configuration last
/// applied to it, and its controller.
#[derive(Debug, Clone, Copy, PartialEq, Eq, Structural)]
pub struct SourceEntry {
    pub id: u8,
    pub fingerprint: u64,
    pub controller: SourceController,
}

/// Whether some live entry has the id.
pub open spec fn spec_has_id(s: Seq<SourceEntry>, id: u8) -> bool {
    exists|i: int| 0 <= i < s.len() && s[i].id == id
}

/// The index of the entry with the id.
pub open spec fn spec_index_of(s: Seq<SourceEntry>, id: u8) -> int {
    choose|i: int| 0 <= i < s.len() && s[i].id == id
}

/// The entry with the id.
pub open spec fn spec_entry_of(s: Seq<SourceEntry>, id: u8) -> SourceEntry {
    s[spec_index_of(s, id)]
}

/// No two live entries share an id.
pub open spec fn spec_unique_ids(s: Seq<SourceEntry>) -> bool {
    forall|i: int, j: int| 0 <= i < j < s.len() ==> s[i].id != s[j].id
}

/// Whether a prefix of the desired list names the id.
pub open spec fn spec_desired_has_id_upto(d: Seq<SourceConfig>, id: u8, n: int) -> bool {
    exists|i: int| 0 <= i < n && d[i].id == id
}

/// Whether the desired list names the id.
pub open spec fn spec_desired_has_id(d: Seq<SourceConfig>, id: u8) -> bool {
    spec_desired_has_id_upto(d, id, d.len() as int)
}

/// The desired configuration with the id.
pub open spec fn spec_desired_config(d: Seq<SourceConfig>, id: u8) -> SourceConfig {
    d[choose|i: int| 0 <= i < d.len() && d[i].id == id]
}

/// No two desired sources share an id; the id is the unique key of a
/// desired source.
pub open spec fn spec_desired_unique(d: Seq<SourceConfig>) -> bool {
    forall|i: int, j: int| 0 <= i < j < d.len() ==> d[i].id != d[j].id
}

/// With unique ids, any position holding the id is the position of the id's
/// entry.
pub proof fn lemma_entry_at(s: Seq<SourceEntry>, id: u8, i: int)
    requires
        spec_unique_ids(s),
        0 <= i < s.len(),
        s[i].id == id,
    ensures
        spec_has_id(s, id),
        spec_index_of(s, id) == i,
        spec_entry_of(s, id) == s[i],
{
    assert(spec_has_id(s, id));
    let j = spec_index_of(s, id);
    assert(0 <= j < s.len() && s[j].id == id);
    if i != j {
        assert(false);
    }
}

/// With unique ids, any position holding the id is the position of the id's
/// desired configuration.
pub proof fn lemma_desired_at(d: Seq<SourceConfig>, id: u8, i: int)
    requires
        spec_desired_unique(d),
        0 <= i < d.len(),
        d[i].id == id,
    ensures
        spec_desired_has_id(d, id),
        spec_desired_config(d, id) == d[i],
{
    assert(0 <= i < d.len() && d[i].id == id);
    assert(spec_desired_has_id(d, id));
    let j = choose|j: int| 0 <= j < d.len() && d[j].id == id;
    if i != j {
        assert(false);
    }
}

/// The three disjoint sets of one reconciliation pass: ids to attach anew,
/// ids whose configuration changed (detached, then reattached), and ids no
/// longer desired.
#[derive(Debug)]
pub struct ReconcilePlan {
    pub to_add: Vec<u8>,
    pub to_update: Vec<u8>,
    pub to_remove: Vec<u8>,
}

/// Whether one live controller is acceptable under the handle allocator
/// `next`: well-formed, not yet torn down, and holding only handles the
/// allocator has issued.
pub open spec fn spec_controller_wf(c: SourceController, next: u64) -> bool {
    &&& c.wf()
    &&& !(c.state is Removed)
    &&& !(c.state is Detaching)
    &&& match c.watch_timer {
        Some(t) => t < next,
        None => true,
    }
    &&& match c.ctx.pending_async_watch {
        Some(w) => w < next,
        None => true,
    }
}

/// Whether every live controller is acceptable under the handle allocator
/// `next`.
pub open spec fn spec_entries_wf(s: Seq<SourceEntry>, next: u64) -> bool {
    forall|i: int|
        0 <= i < s.len() ==> spec_controller_wf((#[trigger] s[i]).controller, next)
}

/// The live entries with the entry of `id` carrying controller `c` instead.
pub open spec fn spec_with_controller(
    s: Seq<SourceEntry>,
    id: u8,
    c: SourceController,
) -> Seq<SourceEntry> {
    s.update(spec_index_of(s, id), SourceEntry { controller: c, ..spec_entry_of(s, id) })
}

/// Replacing one entry's controller with an acceptable one preserves
/// well-formedness, and looking up any id afterwards finds what one
/// expects.
pub proof fn lemma_with_controller(s: Seq<SourceEntry>, next: u64, i: int, c: SourceController)
    requires
        spec_unique_ids(s),
        spec_entries_wf(s, next),
        0 <= i < s.len(),
        spec_controller_wf(c, next),
    ensures
        spec_unique_ids(spec_with_controller(s, s[i].id, c)),
        spec_entries_wf(spec_with_controller(s, s[i].id, c), next),
        spec_with_controller(s, s[i].id, c) == s.update(
            i,
            (SourceEntry { controller: c, ..s[i] }),
        ),
{
    lemma_entry_at(s, s[i].id, i);
    let upd = spec_with_controller(s, s[i].id, c);
    assert(upd == s.update(i, (SourceEntry { controller: c, ..s[i] })));
    assert forall|a: int, b: int| 0 <= a < b < upd.len() implies upd[a].id != upd[b].id by {
        assert(upd[a].id == s[a].id);
        assert(upd[b].id == s[b].id);
    }
    assert forall|j: int|
        0 <= j < upd.len() implies spec_controller_wf((#[trigger] upd[j]).controller, next) by {
        if j != i {
            assert(upd[j] == s[j]);
        }
    }
}

/// The manager of the live sources.
pub struct PipelineManager {
    /// The live sources, one entry per id.
    pub entries: Vec<SourceEntry>,
    /// Allocator for timer and poller handles; every handle ever issued is
    /// below it, so a handle issued after a removal never collides with one
    /// issued before.
    pub next_handle: u64,
}

impl PipelineManager {
    /// Well-formedness: ids are unique, every live controller is
    /// well-formed and not yet torn down, and all live handles were issued
    /// by the allocator.
    pub open spec fn wf(self) -> bool {
        &&& spec_unique_ids(self.entries@)
        &&& spec_entries_wf(self.entries@, self.next_handle)
    }

    /// A manager with no live source; the reconciliation map is rebuilt
    /// from scratch on process restart.
    pub fn new() -> (m: PipelineManager)
        ensures
            m.entries@ =~= Seq::<SourceEntry>::empty(),
            m.next_handle == 0,
            m.wf(),
    {
        PipelineManager { entries: Vec::new(), next_handle: 0 }
    }

    /// The position of the live entry with the id, if any.
    fn find_index(&self, id: u8) -> (r: Option<usize>)
        requires
            self.wf(),
        ensures
            match r {
                Some(i) => i < self.entries@.len() && self.entries@[i as int].id == id
                    && spec_index_of(self.entries@, id) == i && spec_has_id(self.entries@, id),
                None => !spec_has_id(self.entries@, id),
            },
    {
        let mut i: usize = 0;
        while i < self.entries.len()
            invariant
                self.wf(),
                i <= self.entries@.len(),
                forall|j: int| 0 <= j < i ==> self.entries@[j].id != id,
            decreases self.entries@.len() - i,
        {
            if self.entries[i].id == id {
                proof {
                    lemma_entry_at(self.entries@, id, i as int);
                }
                return Some(i);
            }
            i = i + 1;
        }
        None
    }

    /// Add the source if its id is new, reattach it if its configuration
    /// fingerprint changed, and do nothing if the fingerprint is unchanged
    /// (idempotence: reconciling the same desired state twice performs no
    /// graph operation).  Returns the graph operations to perform, in
    /// order.
    pub fn add_or_update_source(&mut self, config: &SourceConfig, now: u64) -> (ops: Vec<
        SourceOp,
    >)
        requires
            old(self).wf(),
            old(self).next_handle < u64::MAX,
        ensures
            final(self).wf(),
            // the live entry now carries this configuration's fingerprint
            spec_has_id(final(self).entries@, config.id),
            spec_entry_of(final(self).entries@, config.id).fingerprint == spec_fingerprint(*config),
            // every other live source is untouched
            forall|id: u8|
                id != config.id ==> (spec_has_id(final(self).entries@, id) <==> spec_has_id(
                    old(self).entries@,
                    id,
                )),
            forall|id: u8|
                id != config.id && spec_has_id(old(self).entries@, id) ==> spec_entry_of(
                    final(self).entries@,
                    id,
                ) == spec_entry_of(old(self).entries@, id),
            // an unchanged fingerprint short-circuits: nothing at all happens
            spec_has_id(old(self).entries@, config.id) && spec_entry_of(
                old(self).entries@,
                config.id,
            ).fingerprint == spec_fingerprint(*config) ==> ops@ =~= Seq::<SourceOp>::empty()
                && *final(self) == *old(self),
            // a changed fingerprint detaches, then reattaches
            spec_has_id(old(self).entries@, config.id) && spec_entry_of(
                old(self).entries@,
                config.id,
            ).fingerprint != spec_fingerprint(*config) ==> ops@ =~= seq![
                SourceOp::Detach { id: config.id },
                SourceOp::Attach { id: config.id },
            ],
            // a new id attaches
            !spec_has_id(old(self).entries@, config.id) ==> ops@ =~= seq![
                SourceOp::Attach { id: config.id },
            ],
            // whenever an attach is performed, the entry holds a fresh
            // controller owning the newly issued watchdog timer
            !(spec_has_id(old(self).entries@, config.id) && spec_entry_of(
                old(self).entries@,
                config.id,
            ).fingerprint == spec_fingerprint(*config)) ==> spec_entry_of(
                final(self).entries@,
                config.id,
            ).controller == (SourceController {
                state: ControllerState::Attached,
                parser: None,
                watch_timer: Some(old(self).next_handle),
                ctx: ReconnectionContext {
                    last_buffer_time: now,
                    last_reset_time: now,
                    started: false,
                    reconnecting: false,
                    have_eos: false,
                    pending_async_watch: None,
                },
            }) && final(self).next_handle == old(self).next_handle + 1,
    {
        let fp = config.get_hash();
        let mut ops: Vec<SourceOp> = Vec::new();
        let ghost s0 = self.entries@;
        match self.find_index(config.id) {
            Some(i) => {
                if self.entries[i].fingerprint == fp {
                    proof {
                        lemma_entry_at(s0, config.id, i as int);
                    }
                    return ops;
                }
                let mut removed = self.entries.remove(i);
                removed.controller.detach();
                ops.push(SourceOp::Detach { id: config.id });
                proof {
                    lemma_entry_at(s0, config.id, i as int);
                    assert forall|id: u8| id != config.id implies (spec_has_id(
                        self.entries@,
                        id,
                    ) <==> spec_has_id(s0, id)) && (spec_has_id(s0, id) ==> spec_entry_of(
                        self.entries@,
                        id,
                    ) == spec_entry_of(s0, id)) by {
                        lemma_remove_other(s0, i as int, id);
                    }
                    assert(!spec_has_id(self.entries@, config.id)) by {
                        lemma_remove_gone(s0, i as int, config.id);
                    }
                    assert(spec_unique_ids(self.entries@)) by {
                        lemma_remove_unique(s0, i as int);
                    }
                }
            }
            None => {}
        }
        let ghost s1 = self.entries@;
        let timer = self.next_handle;
        self.next_handle = self.next_handle + 1;
        let mut controller = SourceController::new(now, timer);
        controller.mark_attached();
        let entry = SourceEntry { id: config.id, fingerprint: fp, controller };
        self.entries.push(entry);
        ops.push(SourceOp::Attach { id: config.id });
        proof {
            assert(self.entries@ == s1.push(entry));
            lemma_entry_at(self.entries@, config.id, s1.len() as int);
            assert forall|id: u8| id != config.id implies (spec_has_id(self.entries@, id)
                <==> spec_has_id(s1, id)) && (spec_has_id(s1, id) ==> spec_entry_of(
                self.entries@,
                id,
            ) == spec_entry_of(s1, id)) by {
                lemma_push_other(s1, entry, id);
            }
        }
        ops
    }

    /// Remove the source with the id, if it is live: its controller's
    /// watchdog timer and any pending asynchronous poller are cancelled
    /// before the entry is dropped, and the caller detaches its subgraph.
    /// Removing an id that is not live does nothing.
    pub fn remove_source(&mut self, id: u8) -> (ops: Vec<SourceOp>)
        requires
            old(self).wf(),
        ensures
            final(self).wf(),
            !spec_has_id(final(self).entries@, id),
            forall|id2: u8|
                id2 != id ==> (spec_has_id(final(self).entries@, id2) <==> spec_has_id(
                    old(self).entries@,
                    id2,
                )),
            forall|id2: u8|
                id2 != id && spec_has_id(old(self).entries@, id2) ==> spec_entry_of(
                    final(self).entries@,
                    id2,
                ) == spec_entry_of(old(self).entries@, id2),
            spec_has_id(old(self).entries@, id) ==> ops@ =~= seq![SourceOp::Detach { id }],
            !spec_has_id(old(self).entries@, id) ==> ops@ =~= Seq::<SourceOp>::empty()
                && *final(self) == *old(self),
            final(self).next_handle == old(self).next_handle,
    {
        let mut ops: Vec<SourceOp> = Vec::new();
        let ghost s0 = self.entries@;
        match self.find_index(id) {
            Some(i) => {
                let mut removed = self.entries.remove(i);
                removed.controller.detach();
                ops.push(SourceOp::Detach { id });
                proof {
                    lemma_entry_at(s0, id, i as int);
                    assert forall|id2: u8| id2 != id implies (spec_has_id(self.entries@, id2)
                        <==> spec_has_id(s0, id2)) && (spec_has_id(s0, id2) ==> spec_entry_of(
                        self.entries@,
                        id2,
                    ) == spec_entry_of(s0, id2)) by {
                        lemma_remove_other(s0, i as int, id2);
                    }
                    assert(!spec_has_id(self.entries@, id)) by {
                        lemma_remove_gone(s0, i as int, id);
                    }
                    assert(spec_unique_ids(self.entries@)) by {
                        lemma_remove_unique(s0, i as int);
                    }
                }
            }
            None => {}
        }
        ops
    }

    /// One reconciliation diff: from the live `{id: fingerprint}` map and a
    /// freshly loaded desired list, the three disjoint sets of ids to
    /// attach, to detach-and-reattach, and to detach.  No id appears twice
    /// in a set, and no id appears in two sets, so at most one
    /// attach/detach sequence per source follows from one pass.
    pub fn compute_plan(&self, desired: &Vec<SourceConfig>) -> (plan: ReconcilePlan)
        requires
            self.wf(),
            spec_desired_unique(desired@),
        ensures
            forall|id: u8|
                #[trigger] plan.to_add@.contains(id) <==> (spec_desired_has_id(desired@, id)
                    && !spec_has_id(self.entries@, id)),
            forall|id: u8|
                #[trigger] plan.to_update@.contains(id) <==> (spec_desired_has_id(desired@, id)
                    && spec_has_id(self.entries@, id) && spec_entry_of(self.entries@, id).fingerprint
                    != spec_fingerprint(spec_desired_config(desired@, id))),
            forall|id: u8|
                #[trigger] plan.to_remove@.contains(id) <==> (spec_has_id(self.entries@, id)
                    && !spec_desired_has_id(desired@, id)),
            // at most one operation sequence per id: the sets are disjoint
            forall|id: u8| !(plan.to_add@.contains(id) && plan.to_update@.contains(id)),
            forall|id: u8| !(plan.to_add@.contains(id) && plan.to_remove@.contains(id)),
            forall|id: u8| !(plan.to_update@.contains(id) && plan.to_remove@.contains(id)),
            // and each set names an id at most once
            spec_no_dup(plan.to_add@),
            spec_no_dup(plan.to_update@),
            spec_no_dup(plan.to_remove@),
    {
        let mut to_add: Vec<u8> = Vec::new();
        let mut to_update: Vec<u8> = Vec::new();
        let mut to_remove: Vec<u8> = Vec::new();
        let mut k: usize = 0;
        while k < desired.len()
            invariant
                self.wf(),
                spec_desired_unique(desired@),
                k <= desired@.len(),
                forall|id: u8|
                    #[trigger] to_add@.contains(id) <==> (spec_desired_has_id_upto(
                        desired@,
                        id,
                        k as int,
                    ) && !spec_has_id(self.entries@, id)),
                forall|id: u8|
                    #[trigger] to_update@.contains(id) <==> (spec_desired_has_id_upto(
                        desired@,
                        id,
                        k as int,
                    ) && spec_has_id(self.entries@, id) && spec_entry_of(
                        self.entries@,
                        id,
                    ).fingerprint != spec_fingerprint(spec_desired_config(desired@, id))),
                spec_no_dup(to_add@),
                spec_no_dup(to_update@),
            decreases desired@.len() - k,
        {
            let cfg = &desired[k];
            let fp = cfg.get_hash();
            proof {
                lemma_desired_at(desired@, cfg.id, k as int);
            }
            let ghost add0 = to_add@;
            let ghost upd0 = to_update@;
            match self.find_index(cfg.id) {
                None => {
                    proof {
                        if add0.contains(cfg.id) {
                            assert(spec_desired_has_id_upto(desired@, cfg.id, k as int));
                            let i = choose|i: int|
                                0 <= i < k && desired@[i].id == cfg.id;
                            assert(false);
                        }
                        lemma_push_no_dup(add0, cfg.id);
                    }
                    to_add.push(cfg.id);
                }
                Some(i) => {
                    if self.entries[i].fingerprint != fp {
                        proof {
                            lemma_entry_at(self.entries@, cfg.id, i as int);
                            if upd0.contains(cfg.id) {
                                assert(spec_desired_has_id_upto(desired@, cfg.id, k as int));
                                let j = choose|j: int|
                                    0 <= j < k && desired@[j].id == cfg.id;
                                assert(false);
                            }
                            lemma_push_no_dup(upd0, cfg.id);
                        }
                        to_update.push(cfg.id);
                    } else {
                        proof {
                            lemma_entry_at(self.entries@, cfg.id, i as int);
                        }
                    }
                }
            }
            proof {
                assert forall|id: u8|
                    #[trigger] to_add@.contains(id) <==> (spec_desired_has_id_upto(
                        desired@,
                        id,
                        k + 1,
                    ) && !spec_has_id(self.entries@, id)) by {
                    lemma_push_contains(add0, cfg.id, id);
                    lemma_desired_upto_extend(desired@, id, k as int);
                }
                assert forall|id: u8|
                    #[trigger] to_update@.contains(id) <==> (spec_desired_has_id_upto(
                        desired@,
                        id,
                        k + 1,
                    ) && spec_has_id(self.entries@, id) && spec_entry_of(
                        self.entries@,
                        id,
                    ).fingerprint != spec_fingerprint(spec_desired_config(desired@, id))) by {
                    lemma_push_contains(upd0, cfg.id, id);
                    lemma_desired_upto_extend(desired@, id, k as int);
                }
            }
            k = k + 1;
        }
        let mut k2: usize = 0;
        while k2 < self.entries.len()
            invariant
                self.wf(),
                k2 <= self.entries@.len(),
                forall|id: u8|
                    #[trigger] to_remove@.contains(id) <==> (spec_has_id_upto(
                        self.entries@,
                        id,
                        k2 as int,
                    ) && !spec_desired_has_id(desired@, id)),
                spec_no_dup(to_remove@),
            decreases self.entries@.len() - k2,
        {
            let id = self.entries[k2].id;
            let ghost rem0 = to_remove@;
            if desired_index(desired, id).is_none() {
                proof {
                    if rem0.contains(id) {
                        let i = choose|i: int|
                            0 <= i < k2 && self.entries@[i].id == id;
                        assert(false);
                    }
                    lemma_push_no_dup(rem0, id);
                }
                to_remove.push(id);
            }
            proof {
                assert forall|id2: u8|
                    #[trigger] to_remove@.contains(id2) <==> (spec_has_id_upto(
                        self.entries@,
                        id2,
                        k2 + 1,
                    ) && !spec_desired_has_id(desired@, id2)) by {
                    lemma_push_contains(rem0, id, id2);
                    lemma_has_upto_extend(self.entries@, id2, k2 as int);
                }
            }
            k2 = k2 + 1;
        }
        proof {
            assert forall|id: u8|
                #[trigger] to_add@.contains(id) <==> (spec_desired_has_id(desired@, id)
                    && !spec_has_id(self.entries@, id)) by {
                assert(spec_desired_has_id_upto(desired@, id, desired@.len() as int)
                    == spec_desired_has_id(desired@, id));
            }
            assert forall|id: u8|
                #[trigger] to_remove@.contains(id) <==> (spec_has_id(self.entries@, id)
                    && !spec_desired_has_id(desired@, id)) by {
                assert(spec_has_id_upto(self.entries@, id, self.entries@.len() as int)
                    == spec_has_id(self.entries@, id));
            }
        }
        ReconcilePlan { to_add, to_update, to_remove }
    }

    /// One reconciliation pass against a freshly loaded desired list:
    /// sources no longer desired are detached first, then every desired
    /// source is added or updated in order.  Returns the graph operations
    /// to perform.
    ///
    /// Afterwards the live state realizes the desired list exactly
    /// (convergence), a source whose fingerprint did not change is
    /// untouched, and reconciling a state that is already converged
    /// performs no operation at all (idempotence).
    pub fn update_config(&mut self, desired: &Vec<SourceConfig>, now: u64) -> (ops: Vec<
        SourceOp,
    >)
        requires
            old(self).wf(),
            spec_desired_unique(desired@),
            old(self).next_handle + desired@.len() <= u64::MAX,
        ensures
            final(self).wf(),
            final(self).next_handle <= old(self).next_handle + desired@.len(),
            // convergence: the live ids are exactly the desired ids, each
            // carrying its configuration's fingerprint
            spec_converged(final(self).entries@, desired@),
            // a desired source whose fingerprint is unchanged is untouched
            forall|id: u8|
                spec_has_id(old(self).entries@, id) && #[trigger] spec_desired_has_id(desired@, id)
                    && spec_entry_of(old(self).entries@, id).fingerprint == spec_fingerprint(
                    spec_desired_config(desired@, id),
                ) ==> spec_entry_of(final(self).entries@, id) == spec_entry_of(
                    old(self).entries@,
                    id,
                ),
            // idempotence: a converged state stays untouched, with no ops
            spec_converged(old(self).entries@, desired@) ==> ops@ =~= Seq::<SourceOp>::empty()
                && *final(self) == *old(self),
            // every operation is accounted for, and every change emits its
            // operations
            forall|id: u8|
                #[trigger] ops@.contains((SourceOp::Detach { id })) <==> (spec_has_id(
                    old(self).entries@,
                    id,
                ) && (!spec_desired_has_id(desired@, id) || spec_entry_of(
                    old(self).entries@,
                    id,
                ).fingerprint != spec_fingerprint(spec_desired_config(desired@, id)))),
            forall|id: u8|
                #[trigger] ops@.contains((SourceOp::Attach { id })) <==> (spec_desired_has_id(
                    desired@,
                    id,
                ) && (!spec_has_id(old(self).entries@, id) || spec_entry_of(
                    old(self).entries@,
                    id,
                ).fingerprint != spec_fingerprint(spec_desired_config(desired@, id)))),
            // a changed source is detached before it is reattached
            forall|id: u8|
                spec_has_id(old(self).entries@, id) && #[trigger] spec_desired_has_id(desired@, id)
                    && spec_entry_of(old(self).entries@, id).fingerprint != spec_fingerprint(
                    spec_desired_config(desired@, id),
                ) ==> spec_detach_before_attach(ops@, id),
    {
        let plan = self.compute_plan(desired);
        let mut ops: Vec<SourceOp> = Vec::new();
        let mut r: usize = 0;
        while r < plan.to_remove.len()
            invariant
                self.wf(),
                spec_desired_unique(desired@),
                r <= plan.to_remove@.len(),
                self.next_handle == old(self).next_handle,
                forall|id: u8|
                    #[trigger] plan.to_remove@.contains(id) <==> (spec_has_id(
                        old(self).entries@,
                        id,
                    ) && !spec_desired_has_id(desired@, id)),
                spec_no_dup(plan.to_remove@),
                forall|id: u8|
                    #[trigger] spec_has_id(self.entries@, id) <==> (spec_has_id(
                        old(self).entries@,
                        id,
                    ) && !plan.to_remove@.take(r as int).contains(id)),
                forall|id: u8|
                    #[trigger] spec_has_id(self.entries@, id) ==> spec_entry_of(self.entries@, id)
                        == spec_entry_of(old(self).entries@, id),
                forall|id: u8|
                    #[trigger] ops@.contains((SourceOp::Detach { id }))
                        <==> plan.to_remove@.take(r as int).contains(id),
                forall|id: u8| !(#[trigger] ops@.contains((SourceOp::Attach { id }))),
                r == 0 ==> ops@ =~= Seq::<SourceOp>::empty() && *self == *old(self),
            decreases plan.to_remove@.len() - r,
        {
            let id = plan.to_remove[r];
            proof {
                assert(plan.to_remove@[r as int] == id);
                assert(plan.to_remove@.contains(id));
                assert(!plan.to_remove@.take(r as int).contains(id)) by {
                    if plan.to_remove@.take(r as int).contains(id) {
                        let i = choose|i: int|
                            0 <= i < r && plan.to_remove@.take(r as int)[i] == id;
                        assert(plan.to_remove@[i] == id);
                    }
                }
            }
            let ghost ops0 = ops@;
            let mut sub = self.remove_source(id);
            ops.append(&mut sub);
            proof {
                assert(ops@ =~= ops0.push(SourceOp::Detach { id }));
                assert(plan.to_remove@.take(r + 1) =~= plan.to_remove@.take(r as int).push(id));
                assert forall|id2: u8|
                    #[trigger] ops@.contains((SourceOp::Detach { id: id2 }))
                        <==> plan.to_remove@.take(r + 1).contains(id2) by {
                    lemma_push_contains_op(ops0, SourceOp::Detach { id }, SourceOp::Detach {
                        id: id2,
                    });
                    lemma_push_contains(plan.to_remove@.take(r as int), id, id2);
                }
                assert forall|id2: u8| !(#[trigger] ops@.contains(
                    (SourceOp::Attach { id: id2 }),
                )) by {
                    lemma_push_contains_op(ops0, SourceOp::Detach { id }, SourceOp::Attach {
                        id: id2,
                    });
                }
                assert forall|id2: u8|
                    #[trigger] spec_has_id(self.entries@, id2) <==> (spec_has_id(
                        old(self).entries@,
                        id2,
                    ) && !plan.to_remove@.take(r + 1).contains(id2)) by {
                    lemma_push_contains(plan.to_remove@.take(r as int), id, id2);
                }
            }
            r = r + 1;
        }
        proof {
            assert(plan.to_remove@.take(plan.to_remove@.len() as int) =~= plan.to_remove@);
            if spec_converged(old(self).entries@, desired@) {
                if plan.to_remove@.len() > 0 {
                    assert(plan.to_remove@.contains(plan.to_remove@[0]));
                    assert(false);
                }
            }
        }
        let ghost mid = self.entries@;
        let mut k: usize = 0;
        while k < desired.len()
            invariant
                self.wf(),
                spec_desired_unique(desired@),
                k <= desired@.len(),
                old(self).next_handle + desired@.len() <= u64::MAX,
                self.next_handle <= old(self).next_handle + k,
                // membership after removals plus the processed prefix
                forall|id: u8|
                    #[trigger] spec_has_id(self.entries@, id) <==> ((spec_has_id(
                        old(self).entries@,
                        id,
                    ) && spec_desired_has_id(desired@, id)) || spec_desired_has_id_upto(
                        desired@,
                        id,
                        k as int,
                    )),
                // entries not yet processed keep their previous values
                forall|id: u8|
                    #[trigger] spec_has_id(self.entries@, id) && !spec_desired_has_id_upto(
                        desired@,
                        id,
                        k as int,
                    ) ==> spec_entry_of(self.entries@, id) == spec_entry_of(
                        old(self).entries@,
                        id,
                    ),
                // the processed prefix carries current fingerprints
                forall|id: u8|
                    #[trigger] spec_desired_has_id_upto(desired@, id, k as int) ==> spec_entry_of(
                        self.entries@,
                        id,
                    ).fingerprint == spec_fingerprint(spec_desired_config(desired@, id)),
                // a processed source with an unchanged fingerprint is untouched
                forall|id: u8|
                    spec_has_id(old(self).entries@, id) && #[trigger] spec_desired_has_id_upto(
                        desired@,
                        id,
                        k as int,
                    ) && spec_entry_of(old(self).entries@, id).fingerprint == spec_fingerprint(
                        spec_desired_config(desired@, id),
                    ) ==> spec_entry_of(self.entries@, id) == spec_entry_of(old(self).entries@, id),
                // operations emitted so far
                forall|id: u8|
                    #[trigger] ops@.contains((SourceOp::Detach { id })) <==> (spec_has_id(
                        old(self).entries@,
                        id,
                    ) && (!spec_desired_has_id(desired@, id) || (spec_desired_has_id_upto(
                        desired@,
                        id,
                        k as int,
                    ) && spec_entry_of(old(self).entries@, id).fingerprint != spec_fingerprint(
                        spec_desired_config(desired@, id),
                    )))),
                forall|id: u8|
                    #[trigger] ops@.contains((SourceOp::Attach { id }))
                        <==> (spec_desired_has_id_upto(desired@, id, k as int) && (!spec_has_id(
                        old(self).entries@,
                        id,
                    ) || spec_entry_of(old(self).entries@, id).fingerprint != spec_fingerprint(
                        spec_desired_config(desired@, id),
                    ))),
                // a changed source processed so far was detached before
                // it was reattached
                forall|id: u8|
                    spec_has_id(old(self).entries@, id) && #[trigger] spec_desired_has_id_upto(
                        desired@,
                        id,
                        k as int,
                    ) && spec_entry_of(old(self).entries@, id).fingerprint != spec_fingerprint(
                        spec_desired_config(desired@, id),
                    ) ==> spec_detach_before_attach(ops@, id),
                // idempotence: a converged state has seen no change so far
                spec_converged(old(self).entries@, desired@) ==> ops@ =~= Seq::<
                    SourceOp,
                >::empty() && *self == *old(self),
            decreases desired@.len() - k,
        {
            let cfg = &desired[k];
            proof {
                lemma_desired_at(desired@, cfg.id, k as int);
                assert(!spec_desired_has_id_upto(desired@, cfg.id, k as int)) by {
                    if spec_desired_has_id_upto(desired@, cfg.id, k as int) {
                        let i = choose|i: int| 0 <= i < k && desired@[i].id == cfg.id;
                        assert(false);
                    }
                }
            }
            let ghost pre = self.entries@;
            let ghost ops0 = ops@;
            let mut sub = self.add_or_update_source(cfg, now);
            let ghost subs = sub@;
            ops.append(&mut sub);
            proof {
                assert forall|id2: u8|
                    #[trigger] spec_has_id(self.entries@, id2) <==> ((spec_has_id(
                        old(self).entries@,
                        id2,
                    ) && spec_desired_has_id(desired@, id2)) || spec_desired_has_id_upto(
                        desired@,
                        id2,
                        k + 1,
                    )) by {
                    lemma_desired_upto_extend(desired@, id2, k as int);
                }
                assert forall|id2: u8|
                    #[trigger] ops@.contains((SourceOp::Detach { id: id2 })) <==> (spec_has_id(
                        old(self).entries@,
                        id2,
                    ) && (!spec_desired_has_id(desired@, id2) || (spec_desired_has_id_upto(
                        desired@,
                        id2,
                        k + 1,
                    ) && spec_entry_of(old(self).entries@, id2).fingerprint != spec_fingerprint(
                        spec_desired_config(desired@, id2),
                    )))) by {
                    lemma_append_contains(ops0, subs, SourceOp::Detach { id: id2 });
                    lemma_desired_upto_extend(desired@, id2, k as int);
                    lemma_sub_ops(pre, *cfg, subs, id2);
                }
                assert forall|id2: u8|
                    #[trigger] ops@.contains((SourceOp::Attach { id: id2 }))
                        <==> (spec_desired_has_id_upto(desired@, id2, k + 1) && (!spec_has_id(
                        old(self).entries@,
                        id2,
                    ) || spec_entry_of(old(self).entries@, id2).fingerprint != spec_fingerprint(
                        spec_desired_config(desired@, id2),
                    ))) by {
                    lemma_append_contains(ops0, subs, SourceOp::Attach { id: id2 });
                    lemma_desired_upto_extend(desired@, id2, k as int);
                    lemma_sub_ops(pre, *cfg, subs, id2);
                }
                assert forall|id2: u8|
                    #[trigger] spec_desired_has_id_upto(desired@, id2, k + 1) implies spec_entry_of(
                        self.entries@,
                        id2,
                    ).fingerprint == spec_fingerprint(spec_desired_config(desired@, id2)) by {
                    lemma_desired_upto_extend(desired@, id2, k as int);
                }
                assert forall|id2: u8|
                    #[trigger] spec_has_id(self.entries@, id2) && !spec_desired_has_id_upto(
                        desired@,
                        id2,
                        k + 1,
                    ) implies spec_entry_of(self.entries@, id2) == spec_entry_of(
                        old(self).entries@,
                        id2,
                    ) by {
                    lemma_desired_upto_extend(desired@, id2, k as int);
                }
                assert forall|id2: u8|
                    spec_has_id(old(self).entries@, id2) && #[trigger] spec_desired_has_id_upto(
                        desired@,
                        id2,
                        k + 1,
                    ) && spec_entry_of(old(self).entries@, id2).fingerprint == spec_fingerprint(
                        spec_desired_config(desired@, id2),
                    ) implies spec_entry_of(self.entries@, id2) == spec_entry_of(
                        old(self).entries@,
                        id2,
                    ) by {
                    lemma_desired_upto_extend(desired@, id2, k as int);
                }
                assert forall|id2: u8|
                    spec_has_id(old(self).entries@, id2) && #[trigger] spec_desired_has_id_upto(
                        desired@,
                        id2,
                        k + 1,
                    ) && spec_entry_of(old(self).entries@, id2).fingerprint != spec_fingerprint(
                        spec_desired_config(desired@, id2),
                    ) implies spec_detach_before_attach(ops@, id2) by {
                    lemma_desired_upto_extend(desired@, id2, k as int);
                    if spec_desired_has_id_upto(desired@, id2, k as int) {
                        let (i, j) = choose|i: int, j: int|
                            0 <= i < j < ops0.len() && ops0[i] == (SourceOp::Detach { id: id2 })
                                && ops0[j] == (SourceOp::Attach { id: id2 });
                        assert(ops@[i] == ops0[i]);
                        assert(ops@[j] == ops0[j]);
                        assert(spec_detach_before_attach(ops@, id2));
                    } else {
                        assert(id2 == cfg.id);
                        assert(subs[0] == (SourceOp::Detach { id: id2 }));
                        assert(subs[1] == (SourceOp::Attach { id: id2 }));
                        let i = ops0.len() as int;
                        assert(ops@[i] == (SourceOp::Detach { id: id2 }));
                        assert(ops@[i + 1] == (SourceOp::Attach { id: id2 }));
                        assert(spec_detach_before_attach(ops@, id2));
                    }
                }
            }
            k = k + 1;
        }
        proof {
            assert forall|id: u8|
                #[trigger] spec_desired_has_id(desired@, id) implies spec_has_id(
                self.entries@,
                id,
            ) && spec_entry_of(self.entries@, id).fingerprint == spec_fingerprint(
                spec_desired_config(desired@, id),
            ) by {
                assert(spec_desired_has_id_upto(desired@, id, desired@.len() as int));
            }
        }
        ops
    }

    /// Route a buffer observation at `now` to the source's controller.  A
    /// probe callback for a source that is no longer live is a no-op.
    pub fn on_buffer(&mut self, id: u8, now: u64)
        requires
            old(self).wf(),
        ensures
            final(self).wf(),
            final(self).next_handle == old(self).next_handle,
            !spec_has_id(old(self).entries@, id) ==> *final(self) == *old(self),
            spec_has_id(old(self).entries@, id) ==> final(self).entries@ == spec_with_controller(
                old(self).entries@,
                id,
                spec_entry_of(old(self).entries@, id).controller.spec_after_buffer(now),
            ),
    {
        match self.find_index(id) {
            Some(i) => {
                let ghost s0 = self.entries@;
                let ghost n0 = self.next_handle;
                proof {
                    assert(spec_controller_wf(s0[i as int].controller, n0));
                }
                let e = &mut self.entries[i];
                e.controller.on_buffer(now);
                proof {
                    lemma_with_controller(
                        s0,
                        n0,
                        i as int,
                        s0[i as int].controller.spec_after_buffer(now),
                    );
                }
            }
            None => {}
        }
    }

    /// Route an end-of-stream observation to the source's controller.  A
    /// probe callback for a source that is no longer live is a no-op.
    pub fn on_eos(&mut self, id: u8)
        requires
            old(self).wf(),
        ensures
            final(self).wf(),
            final(self).next_handle == old(self).next_handle,
            !spec_has_id(old(self).entries@, id) ==> *final(self) == *old(self),
            spec_has_id(old(self).entries@, id) ==> final(self).entries@ == spec_with_controller(
                old(self).entries@,
                id,
                spec_entry_of(old(self).entries@, id).controller.spec_after_eos(),
            ),
    {
        match self.find_index(id) {
            Some(i) => {
                let ghost s0 = self.entries@;
                let ghost n0 = self.next_handle;
                proof {
                    assert(spec_controller_wf(s0[i as int].controller, n0));
                }
                let e = &mut self.entries[i];
                e.controller.on_eos();
                proof {
                    lemma_with_controller(
                        s0,
                        n0,
                        i as int,
                        s0[i as int].controller.spec_after_eos(),
                    );
                }
            }
            None => {}
        }
    }

    /// The transport of the source delivered its first stream.  A callback
    /// for a source that is no longer live is a no-op.
    pub fn on_stream_started(&mut self, id: u8)
        requires
            old(self).wf(),
        ensures
            final(self).wf(),
            final(self).next_handle == old(self).next_handle,
            !spec_has_id(old(self).entries@, id) ==> *final(self) == *old(self),
            spec_has_id(old(self).entries@, id) ==> final(self).entries@ == spec_with_controller(
                old(self).entries@,
                id,
                spec_entry_of(old(self).entries@, id).controller.spec_after_started(),
            ),
    {
        match self.find_index(id) {
            Some(i) => {
                let ghost s0 = self.entries@;
                let ghost n0 = self.next_handle;
                proof {
                    assert(spec_controller_wf(s0[i as int].controller, n0));
                }
                let e = &mut self.entries[i];
                e.controller.on_started();
                proof {
                    lemma_with_controller(
                        s0,
                        n0,
                        i as int,
                        s0[i as int].controller.spec_after_started(),
                    );
                }
            }
            None => {}
        }
    }

    /// The graph reported the source's subgraph in state `observed` outside
    /// a reconnection: a confirmed playing state completes the bring-up.
    /// Reconnecting sources settle through `on_reset_result` and
    /// `on_async_poll` instead, and an observation for a source that is no
    /// longer live is a no-op.
    pub fn on_state_observed(&mut self, id: u8, observed: GraphState)
        requires
            old(self).wf(),
        ensures
            final(self).wf(),
            final(self).next_handle == old(self).next_handle,
            !spec_has_id(old(self).entries@, id) || spec_entry_of(
                old(self).entries@,
                id,
            ).controller.state is Reconnecting ==> *final(self) == *old(self),
            spec_has_id(old(self).entries@, id) && !(spec_entry_of(
                old(self).entries@,
                id,
            ).controller.state is Reconnecting) ==> final(self).entries@ == spec_with_controller(
                old(self).entries@,
                id,
                spec_entry_of(old(self).entries@, id).controller.spec_after_observed(observed),
            ),
    {
        match self.find_index(id) {
            Some(i) => {
                let ghost s0 = self.entries@;
                let ghost n0 = self.next_handle;
                proof {
                    assert(spec_controller_wf(s0[i as int].controller, n0));
                }
                if self.entries[i].controller.state == ControllerState::Reconnecting {
                    return ;
                }
                let e = &mut self.entries[i];
                e.controller.on_state_observed(observed);
                proof {
                    lemma_with_controller(
                        s0,
                        n0,
                        i as int,
                        s0[i as int].controller.spec_after_observed(observed),
                    );
                }
            }
            None => {}
        }
    }

    /// One firing of the periodic watchdog timer `timer` for the source.
    /// A firing for a source that is no longer live, or under a superseded
    /// timer handle, is stale: nothing happens and the caller cancels the
    /// timer.  Otherwise, if a reset is due now, it is recorded and the
    /// caller drives the source's subgraph to null and back toward playing,
    /// reporting the answer through `on_reset_result`.
    pub fn watchdog_tick(&mut self, id: u8, timer: u64, now: u64) -> (t: TickOutcome)
        requires
            old(self).wf(),
        ensures
            final(self).wf(),
            final(self).next_handle == old(self).next_handle,
            !spec_has_id(old(self).entries@, id) || spec_entry_of(
                old(self).entries@,
                id,
            ).controller.watch_timer != Some(timer) ==> t == TickOutcome::Stale && *final(self)
                == *old(self),
            spec_has_id(old(self).entries@, id) && spec_entry_of(
                old(self).entries@,
                id,
            ).controller.watch_timer == Some(timer) ==> (t == TickOutcome::Reset <==> spec_entry_of(
                old(self).entries@,
                id,
            ).controller.ctx.spec_reset_due(now)) && t != TickOutcome::Stale,
            t == TickOutcome::Reset ==> final(self).entries@ == spec_with_controller(
                old(self).entries@,
                id,
                spec_entry_of(old(self).entries@, id).controller.spec_after_begin_reset(now),
            ),
            t != TickOutcome::Reset ==> *final(self) == *old(self),
    {
        match self.find_index(id) {
            Some(i) => {
                let ghost s0 = self.entries@;
                let ghost n0 = self.next_handle;
                proof {
                    assert(spec_controller_wf(s0[i as int].controller, n0));
                }
                let c = self.entries[i].controller;
                let current = match c.watch_timer {
                    Some(t) => t == timer,
                    None => false,
                };
                if !current {
                    return TickOutcome::Stale;
                }
                if c.ctx.reset_due(now) {
                    let e = &mut self.entries[i];
                    e.controller.begin_reset(now);
                    proof {
                        lemma_with_controller(
                            s0,
                            n0,
                            i as int,
                            s0[i as int].controller.spec_after_begin_reset(now),
                        );
                    }
                    TickOutcome::Reset
                } else {
                    TickOutcome::Idle
                }
            }
            None => { TickOutcome::Stale }
        }
    }

    /// After a reset attempt asked the graph to re-enter playing, record
    /// what the graph answered.  An asynchronous answer installs the
    /// short-interval poller and returns its fresh handle for the caller to
    /// schedule.  An answer for a source that is no longer live, that is
    /// not reconnecting, or that already has a poller in flight is a no-op.
    pub fn on_reset_result(
        &mut self,
        id: u8,
        outcome: StateChangeOutcome,
        state: GraphState,
    ) -> (watch: Option<u64>)
        requires
            old(self).wf(),
            old(self).next_handle < u64::MAX,
        ensures
            final(self).wf(),
            !spec_has_id(old(self).entries@, id) || !(spec_entry_of(
                old(self).entries@,
                id,
            ).controller.state is Reconnecting) || spec_entry_of(
                old(self).entries@,
                id,
            ).controller.ctx.pending_async_watch is Some ==> watch is None && *final(self) == *old(
                self,
            ),
            spec_has_id(old(self).entries@, id) && spec_entry_of(
                old(self).entries@,
                id,
            ).controller.state is Reconnecting && spec_entry_of(
                old(self).entries@,
                id,
            ).controller.ctx.pending_async_watch is None ==> final(self).entries@
                == spec_with_controller(
                old(self).entries@,
                id,
                spec_entry_of(old(self).entries@, id).controller.spec_after_reset_result(
                    outcome,
                    state,
                    old(self).next_handle,
                ),
            ) && watch == (if SourceController::spec_reset_installs_watch(outcome) {
                Some(old(self).next_handle)
            } else {
                None::<u64>
            }) && final(self).next_handle == (if SourceController::spec_reset_installs_watch(
                outcome,
            ) {
                (old(self).next_handle + 1) as u64
            } else {
                old(self).next_handle
            }),
    {
        match self.find_index(id) {
            Some(i) => {
                let ghost s0 = self.entries@;
                let ghost n0 = self.next_handle;
                proof {
                    assert(spec_controller_wf(s0[i as int].controller, n0));
                }
                let c = self.entries[i].controller;
                if !(c.state == ControllerState::Reconnecting) {
                    return None;
                }
                let fresh = match c.ctx.pending_async_watch {
                    Some(_) => false,
                    None => true,
                };
                if !fresh {
                    return None;
                }
                let w = self.next_handle;
                let e = &mut self.entries[i];
                let installed = e.controller.on_reset_result(outcome, state, w);
                proof {
                    let c2 = s0[i as int].controller.spec_after_reset_result(outcome, state, w);
                    if installed {
                        lemma_entries_wf_mono(s0, n0, (n0 + 1) as u64);
                        lemma_with_controller(s0, (n0 + 1) as u64, i as int, c2);
                    } else {
                        lemma_with_controller(s0, n0, i as int, c2);
                    }
                }
                if installed {
                    self.next_handle = w + 1;
                    Some(w)
                } else {
                    None
                }
            }
            None => { None }
        }
    }

    /// One firing of the short-interval poller `watch` for the source.
    /// Returns what to do next, or nothing when the firing is stale: a
    /// forced late callback for a source that is no longer live, or under a
    /// superseded poller handle, is a no-op.
    pub fn on_async_poll(
        &mut self,
        id: u8,
        watch: u64,
        outcome: StateChangeOutcome,
        state: GraphState,
    ) -> (step: Option<PollStep>)
        requires
            old(self).wf(),
        ensures
            final(self).wf(),
            final(self).next_handle == old(self).next_handle,
            !spec_has_id(old(self).entries@, id) || spec_entry_of(
                old(self).entries@,
                id,
            ).controller.ctx.pending_async_watch != Some(watch) ==> step is None && *final(self)
                == *old(self),
            spec_has_id(old(self).entries@, id) && spec_entry_of(
                old(self).entries@,
                id,
            ).controller.ctx.pending_async_watch == Some(watch) ==> step == Some(
                SourceController::spec_poll_step(outcome, state),
            ) && final(self).entries@ == spec_with_controller(
                old(self).entries@,
                id,
                spec_entry_of(old(self).entries@, id).controller.spec_after_poll(outcome, state),
            ),
    {
        match self.find_index(id) {
            Some(i) => {
                let ghost s0 = self.entries@;
                let ghost n0 = self.next_handle;
                proof {
                    assert(spec_controller_wf(s0[i as int].controller, n0));
                }
                let c = self.entries[i].controller;
                let current = match c.ctx.pending_async_watch {
                    Some(w) => w == watch,
                    None => false,
                };
                if !current {
                    return None;
                }
                let e = &mut self.entries[i];
                let step = e.controller.on_async_poll(outcome, state);
                proof {
                    lemma_with_controller(
                        s0,
                        n0,
                        i as int,
                        s0[i as int].controller.spec_after_poll(outcome, state),
                    );
                }
                Some(step)
            }
            None => { None }
        }
    }

    /// Route one stream offer of the source's transport to its controller:
    /// only video is accepted, and the depacketizer/parser pair is created
    /// at most once.  An offer for a source that is no longer live is
    /// declined.
    pub fn on_stream_offer(&mut self, id: u8, media: &str, encoding_name: &str) -> (d: Option<
        StreamSelection,
    >)
        requires
            old(self).wf(),
        ensures
            final(self).wf(),
            final(self).next_handle == old(self).next_handle,
            !spec_has_id(old(self).entries@, id) ==> d is None && *final(self) == *old(self),
            spec_has_id(old(self).entries@, id) ==> d == Some(
                spec_entry_of(old(self).entries@, id).controller.spec_stream_selection(
                    media@,
                    encoding_name@,
                ),
            ) && final(self).entries@ == spec_with_controller(
                old(self).entries@,
                id,
                spec_entry_of(old(self).entries@, id).controller.spec_after_selection(
                    spec_entry_of(old(self).entries@, id).controller.spec_stream_selection(
                        media@,
                        encoding_name@,
                    ),
                ),
            ),
    {
        match self.find_index(id) {
            Some(i) => {
                let ghost s0 = self.entries@;
                let ghost n0 = self.next_handle;
                proof {
                    assert(spec_controller_wf(s0[i as int].controller, n0));
                }
                let e = &mut self.entries[i];
                let d = e.controller.select_stream(media, encoding_name);
                proof {
                    let c2 = s0[i as int].controller.spec_after_selection(
                        s0[i as int].controller.spec_stream_selection(media@, encoding_name@),
                    );
                    lemma_with_controller(s0, n0, i as int, c2);
                }
                Some(d)
            }
            None => { None }
        }
    }

    /// Per-source liveness for observability: for each live source, how
    /// many milliseconds ago its last buffer was observed, or nothing if
    /// its transport has not started delivering.
    pub fn sources_liveness(&self, now: u64) -> (r: Vec<(u8, Option<u64>)>)
        ensures
            r@.len() == self.entries@.len(),
            forall|i: int|
                0 <= i < r@.len() ==> (#[trigger] r@[i]).0 == self.entries@[i].id && r@[i].1 == (
                if self.entries@[i].controller.ctx.started {
                    Some(
                        spec_elapsed(self.entries@[i].controller.ctx.last_buffer_time, now),
                    )
                } else {
                    None::<u64>
                }),
    {
        let mut r: Vec<(u8, Option<u64>)> = Vec::new();
        let mut i: usize = 0;
        while i < self.entries.len()
            invariant
                i <= self.entries@.len(),
                r@.len() == i,
                forall|j: int|
                    0 <= j < i ==> (#[trigger] r@[j]).0 == self.entries@[j].id && r@[j].1 == (
                    if self.entries@[j].controller.ctx.started {
                        Some(
                            spec_elapsed(self.entries@[j].controller.ctx.last_buffer_time, now),
                        )
                    } else {
                        None::<u64>
                    }),
            decreases self.entries@.len() - i,
        {
            let e = &self.entries[i];
            let seen = if e.controller.ctx.started {
                Some(crate::watchdog::elapsed_ms(e.controller.ctx.last_buffer_time, now))
            } else {
                None
            };
            r.push((e.id, seen));
            i = i + 1;
        }
        r
    }
}

/// Raising the allocator bound keeps the live entries acceptable.
pub proof fn lemma_entries_wf_mono(s: Seq<SourceEntry>, n1: u64, n2: u64)
    requires
        spec_entries_wf(s, n1),
        n1 <= n2,
    ensures
        spec_entries_wf(s, n2),
{
    assert forall|i: int|
        0 <= i < s.len() implies spec_controller_wf((#[trigger] s[i]).controller, n2) by {
        assert(spec_controller_wf(s[i].controller, n1));
    }
}

/// The kinds of messages from the graph's shared bus that the run loop
/// distinguishes.
#[derive(Debug, Clone, Copy, PartialEq, Eq, Structural)]
pub enum BusMessageKind {
    /// Every source reached end-of-stream.
    EndOfStream,
    /// A graph-level fatal error, not attributable to one source.
    FatalError,
    /// Anything else.
    Other,
}

/// What the run loop does with a bus message.
#[derive(Debug, Clone, Copy, PartialEq, Eq, Structural)]
pub enum BusAction {
    /// Bring the whole graph to the ready state, stopping playback.
    SetReady,
    /// Stop the run loop and bring the whole graph to the null state.
    StopNull,
    /// Nothing.
    Ignore,
}

/// Classify a message from the graph's shared bus: end-of-stream of the
/// whole graph stops playback, and a graph-level fatal error — the only
/// unrecoverable class — stops the run loop.  A single source's stall never
/// appears here; it is recovered by that source's watchdog.
pub fn bus_action(kind: BusMessageKind) -> (a: BusAction)
    ensures
        a == (match kind {
            BusMessageKind::EndOfStream => BusAction::SetReady,
            BusMessageKind::FatalError => BusAction::StopNull,
            BusMessageKind::Other => BusAction::Ignore,
        }),
        a == BusAction::StopNull <==> kind == BusMessageKind::FatalError,
{
    match kind {
        BusMessageKind::EndOfStream => BusAction::SetReady,
        BusMessageKind::FatalError => BusAction::StopNull,
        BusMessageKind::Other => BusAction::Ignore,
    }
}

/// Whether a detach of the id comes before a reattach of it in the
/// operation list: reuse of the source's attachment point is destructive,
/// so the removal must come first.
pub open spec fn spec_detach_before_attach(ops: Seq<SourceOp>, id: u8) -> bool {
    exists|i: int, j: int|
        0 <= i < j < ops.len() && ops[i] == (SourceOp::Detach { id }) && ops[j]
            == (SourceOp::Attach { id })
}

/// Whether the live entries already realize the desired list exactly: every
/// desired id is live under its configuration's fingerprint, and nothing
/// else is live.
pub open spec fn spec_converged(s: Seq<SourceEntry>, d: Seq<SourceConfig>) -> bool {
    &&& forall|id: u8|
        #[trigger] spec_desired_has_id(d, id) ==> spec_has_id(s, id) && spec_entry_of(
            s,
            id,
        ).fingerprint == spec_fingerprint(spec_desired_config(d, id))
    &&& forall|id: u8| #[trigger] spec_has_id(s, id) ==> spec_desired_has_id(d, id)
}

/// Membership of one kind of operation after pushing another.
pub proof fn lemma_push_contains_op(s: Seq<SourceOp>, x: SourceOp, y: SourceOp)
    ensures
        s.push(x).contains(y) <==> (s.contains(y) || y == x),
{
    if s.push(x).contains(y) {
        let i = choose|i: int| 0 <= i < s.push(x).len() && s.push(x)[i] == y;
        if i < s.len() {
            assert(s[i] == y);
        }
    }
    if s.contains(y) {
        let i = choose|i: int| 0 <= i < s.len() && s[i] == y;
        assert(s.push(x)[i] == y);
    }
    if y == x {
        assert(s.push(x)[s.len() as int] == y);
    }
}

/// What `add_or_update_source` can have emitted: its operation list names
/// only the configured id, with a detach exactly for a changed live entry
/// and an attach exactly for a changed or missing one.
proof fn lemma_sub_ops(pre: Seq<SourceEntry>, cfg: SourceConfig, sub: Seq<SourceOp>, id: u8)
    requires
        (spec_has_id(pre, cfg.id) && spec_entry_of(pre, cfg.id).fingerprint == spec_fingerprint(
            cfg,
        )) ==> sub =~= Seq::<SourceOp>::empty(),
        (spec_has_id(pre, cfg.id) && spec_entry_of(pre, cfg.id).fingerprint != spec_fingerprint(
            cfg,
        )) ==> sub =~= seq![SourceOp::Detach { id: cfg.id }, SourceOp::Attach { id: cfg.id }],
        !spec_has_id(pre, cfg.id) ==> sub =~= seq![SourceOp::Attach { id: cfg.id }],
    ensures
        sub.contains((SourceOp::Detach { id })) <==> (id == cfg.id && spec_has_id(pre, cfg.id)
            && spec_entry_of(pre, cfg.id).fingerprint != spec_fingerprint(cfg)),
        sub.contains((SourceOp::Attach { id })) <==> (id == cfg.id && !(spec_has_id(pre, cfg.id)
            && spec_entry_of(pre, cfg.id).fingerprint == spec_fingerprint(cfg))),
{
    if spec_has_id(pre, cfg.id) && spec_entry_of(pre, cfg.id).fingerprint == spec_fingerprint(
        cfg,
    ) {
        if sub.contains((SourceOp::Detach { id })) {
            let i = choose|i: int| 0 <= i < sub.len() && sub[i] == (SourceOp::Detach { id });
            assert(false);
        }
        if sub.contains((SourceOp::Attach { id })) {
            let i = choose|i: int| 0 <= i < sub.len() && sub[i] == (SourceOp::Attach { id });
            assert(false);
        }
    } else if spec_has_id(pre, cfg.id) {
        assert(sub[0] == (SourceOp::Detach { id: cfg.id }));
        assert(sub[1] == (SourceOp::Attach { id: cfg.id }));
        if sub.contains((SourceOp::Detach { id })) {
            let i = choose|i: int| 0 <= i < sub.len() && sub[i] == (SourceOp::Detach { id });
            assert(id == cfg.id);
        }
        if sub.contains((SourceOp::Attach { id })) {
            let i = choose|i: int| 0 <= i < sub.len() && sub[i] == (SourceOp::Attach { id });
            assert(id == cfg.id);
        }
    } else {
        assert(sub[0] == (SourceOp::Attach { id: cfg.id }));
        if sub.contains((SourceOp::Detach { id })) {
            let i = choose|i: int| 0 <= i < sub.len() && sub[i] == (SourceOp::Detach { id });
            assert(false);
        }
        if sub.contains((SourceOp::Attach { id })) {
            let i = choose|i: int| 0 <= i < sub.len() && sub[i] == (SourceOp::Attach { id });
            assert(id == cfg.id);
        }
    }
}

/// The position of the desired configuration with the id, if any.
fn desired_index(desired: &Vec<SourceConfig>, id: u8) -> (r: Option<usize>)
    ensures
        match r {
            Some(i) => i < desired@.len() && desired@[i as int].id == id && spec_desired_has_id(
                desired@,
                id,
            ),
            None => !spec_desired_has_id(desired@, id),
        },
{
    let mut i: usize = 0;
    while i < desired.len()
        invariant
            i <= desired@.len(),
            forall|j: int| 0 <= j < i ==> desired@[j].id != id,
        decreases desired@.len() - i,
    {
        if desired[i].id == id {
            return Some(i);
        }
        i = i + 1;
    }
    proof {
        if spec_desired_has_id(desired@, id) {
            let j = choose|j: int| 0 <= j < desired@.len() && desired@[j].id == id;
            assert(false);
        }
    }
    None
}

/// No id occurs twice in the sequence.
pub open spec fn spec_no_dup(s: Seq<u8>) -> bool {
    forall|i: int, j: int| 0 <= i < j < s.len() ==> s[i] != s[j]
}

/// Whether a prefix of the live entries has the id.
pub open spec fn spec_has_id_upto(s: Seq<SourceEntry>, id: u8, n: int) -> bool {
    exists|i: int| 0 <= i < n && s[i].id == id
}

/// Membership in a concatenation.
pub proof fn lemma_append_contains<T>(s1: Seq<T>, s2: Seq<T>, x: T)
    ensures
        (s1 + s2).contains(x) <==> (s1.contains(x) || s2.contains(x)),
{
    if (s1 + s2).contains(x) {
        let i = choose|i: int| 0 <= i < (s1 + s2).len() && (s1 + s2)[i] == x;
        if i < s1.len() {
            assert(s1[i] == x);
        } else {
            assert(s2[i - s1.len()] == x);
        }
    }
    if s1.contains(x) {
        let i = choose|i: int| 0 <= i < s1.len() && s1[i] == x;
        assert((s1 + s2)[i] == x);
    }
    if s2.contains(x) {
        let i = choose|i: int| 0 <= i < s2.len() && s2[i] == x;
        assert((s1 + s2)[i + s1.len()] == x);
    }
}

/// Membership after a push.
pub proof fn lemma_push_contains(s: Seq<u8>, x: u8, id: u8)
    ensures
        s.push(x).contains(id) <==> (s.contains(id) || id == x),
{
    if s.push(x).contains(id) {
        let i = choose|i: int| 0 <= i < s.push(x).len() && s.push(x)[i] == id;
        if i < s.len() {
            assert(s[i] == id);
        }
    }
    if s.contains(id) {
        let i = choose|i: int| 0 <= i < s.len() && s[i] == id;
        assert(s.push(x)[i] == id);
    }
    if id == x {
        assert(s.push(x)[s.len() as int] == id);
    }
}

/// Pushing a fresh id keeps the sequence free of duplicates.
pub proof fn lemma_push_no_dup(s: Seq<u8>, x: u8)
    requires
        spec_no_dup(s),
        !s.contains(x),
    ensures
        spec_no_dup(s.push(x)),
{
    let p = s.push(x);
    assert forall|i: int, j: int| 0 <= i < j < p.len() implies p[i] != p[j] by {
        if j == s.len() {
            assert(p[i] == s[i]);
            if s[i] == x {
                assert(s.contains(x));
            }
        }
    }
}

/// One more desired element extends the prefix membership by its id.
pub proof fn lemma_desired_upto_extend(d: Seq<SourceConfig>, id: u8, k: int)
    requires
        0 <= k < d.len(),
    ensures
        spec_desired_has_id_upto(d, id, k + 1) <==> (spec_desired_has_id_upto(d, id, k) || d[k].id
            == id),
{
    if spec_desired_has_id_upto(d, id, k + 1) {
        let i = choose|i: int| 0 <= i < k + 1 && d[i].id == id;
        if i < k {
            assert(spec_desired_has_id_upto(d, id, k));
        }
    }
    if spec_desired_has_id_upto(d, id, k) {
        let i = choose|i: int| 0 <= i < k && d[i].id == id;
        assert(0 <= i < k + 1 && d[i].id == id);
    }
    if d[k].id == id {
        assert(0 <= k < k + 1 && d[k].id == id);
    }
}

/// One more live entry extends the prefix membership by its id.
pub proof fn lemma_has_upto_extend(s: Seq<SourceEntry>, id: u8, k: int)
    requires
        0 <= k < s.len(),
    ensures
        spec_has_id_upto(s, id, k + 1) <==> (spec_has_id_upto(s, id, k) || s[k].id == id),
{
    if spec_has_id_upto(s, id, k + 1) {
        let i = choose|i: int| 0 <= i < k + 1 && s[i].id == id;
        if i < k {
            assert(spec_has_id_upto(s, id, k));
        }
    }
    if spec_has_id_upto(s, id, k) {
        let i = choose|i: int| 0 <= i < k && s[i].id == id;
        assert(0 <= i < k + 1 && s[i].id == id);
    }
}

/// Removing position `i` keeps every other id's entry.
pub proof fn lemma_remove_other(s: Seq<SourceEntry>, i: int, id: u8)
    requires
        spec_unique_ids(s),
        0 <= i < s.len(),
        id != s[i].id,
    ensures
        spec_has_id(s.remove(i), id) <==> spec_has_id(s, id),
        spec_has_id(s, id) ==> spec_entry_of(s.remove(i), id) == spec_entry_of(s, id),
{
    let r = s.remove(i);
    lemma_remove_unique(s, i);
    if spec_has_id(s, id) {
        let j = spec_index_of(s, id);
        lemma_entry_at(s, id, j);
        if j < i {
            assert(r[j] == s[j]);
            lemma_entry_at(r, id, j);
        } else {
            assert(j > i);
            assert(r[j - 1] == s[j]);
            lemma_entry_at(r, id, j - 1);
        }
    }
    if spec_has_id(r, id) {
        let j = choose|j: int| 0 <= j < r.len() && r[j].id == id;
        if j < i {
            assert(s[j] == r[j]);
        } else {
            assert(s[j + 1] == r[j]);
        }
        assert(spec_has_id(s, id));
    }
}

/// Removing the position of an id removes the id (ids are unique).
pub proof fn lemma_remove_gone(s: Seq<SourceEntry>, i: int, id: u8)
    requires
        spec_unique_ids(s),
        0 <= i < s.len(),
        s[i].id == id,
    ensures
        !spec_has_id(s.remove(i), id),
{
    let r = s.remove(i);
    if spec_has_id(r, id) {
        let j = choose|j: int| 0 <= j < r.len() && r[j].id == id;
        if j < i {
            assert(s[j] == r[j]);
        } else {
            assert(s[j + 1] == r[j]);
        }
        assert(false);
    }
}

/// Removing a position preserves uniqueness of ids.
pub proof fn lemma_remove_unique(s: Seq<SourceEntry>, i: int)
    requires
        spec_unique_ids(s),
        0 <= i < s.len(),
    ensures
        spec_unique_ids(s.remove(i)),
{
    let r = s.remove(i);
    assert forall|a: int, b: int| 0 <= a < b < r.len() implies r[a].id != r[b].id by {
        let a2 = if a < i { a } else { a + 1 };
        let b2 = if b < i { b } else { b + 1 };
        assert(r[a] == s[a2]);
        assert(r[b] == s[b2]);
    }
}

/// Appending an entry keeps every other id's entry.
pub proof fn lemma_push_other(s: Seq<SourceEntry>, e: SourceEntry, id: u8)
    requires
        spec_unique_ids(s),
        !spec_has_id(s, e.id),
        id != e.id,
    ensures
        spec_has_id(s.push(e), id) <==> spec_has_id(s, id),
        spec_has_id(s, id) ==> spec_entry_of(s.push(e), id) == spec_entry_of(s, id),
        spec_unique_ids(s.push(e)),
{
    let p = s.push(e);
    assert forall|a: int, b: int| 0 <= a < b < p.len() implies p[a].id != p[b].id by {
        if b < s.len() {
        } else {
            assert(p[b] == e);
            assert(p[a] == s[a]);
        }
    }
    if spec_has_id(s, id) {
        let j = spec_index_of(s, id);
        lemma_entry_at(s, id, j);
        assert(p[j] == s[j]);
        lemma_entry_at(p, id, j);
    }
    if spec_has_id(p, id) {
        let j = choose|j: int| 0 <= j < p.len() && p[j].id == id;
        assert(j < s.len());
        assert(spec_has_id(s, id));
    }
}

} // verus!
