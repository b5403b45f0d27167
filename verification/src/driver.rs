//! The derivation pipeline driver: a pull-based orchestrator over a
//! composed stage stack that yields L2 block-building attributes.
//!
//! The driver owns a FIFO queue of prepared attributes. One `step` asks
//! the stage for the next attributes: success enqueues exactly one set,
//! EOF advances the L1 origin, anything else is fatal to the run and
//! calls for a reset. The driver never reorders and never drops: the
//! queue grows only at the back by `step` and shrinks only at the front
//! by `next`.

use vstd::prelude::*;
use std::collections::VecDeque;
use crate::errors::{ProviderError, ResetError, StageError};
use crate::types::{
    AttributesWithParent, AttributesWithParentV, BlockInfo, BlockInfoV, L2BlockInfo,
    L2BlockInfoV, RollupConfig, SystemConfig, SystemConfigV,
};

verus! {

/// The result of one unit of derivation progress.
#[derive(PartialEq, Eq, Structural, Clone, Copy, Debug)]
pub enum StepResult {
    /// A new attribute set was enqueued.
    PreparedAttributes,
    /// The stage hit EOF and the L1 origin advanced; call `step` again.
    AdvancedOrigin,
    /// The stage hit EOF and advancing the origin failed.
    OriginAdvanceErr(StageError),
    /// The stage failed outright; fatal to this derivation run.
    StepFailed(StageError),
}

/// The capability set every derivation stage stack must offer, stated
/// over a mathematical model of the stage's state: each operation's
/// result and successor state are functions of that model, which is what
/// makes derivation replayable.
pub trait DerivationStage: Sized {
    /// The mathematical state of the stage stack.
    type Model;

    /// The stage's current model.
    spec fn model(&self) -> Self::Model;

    /// The stage's internal invariant.
    spec fn stage_wf(&self) -> bool;

    /// What `next_attributes` answers from a given state.
    spec fn next_result(m: Self::Model, cursor: L2BlockInfoV) -> Result<
        AttributesWithParentV,
        StageError,
    >;

    /// The state after `next_attributes`.
    spec fn next_model(m: Self::Model, cursor: L2BlockInfoV) -> Self::Model;

    /// What `advance_origin` answers from a given state.
    spec fn advance_result(m: Self::Model) -> Result<(), StageError>;

    /// The state after `advance_origin`.
    spec fn advance_model(m: Self::Model) -> Self::Model;

    /// The current L1 origin of a given state.
    spec fn origin_model(m: Self::Model) -> Option<BlockInfoV>;

    /// What `reset` answers from a given state.
    spec fn reset_result(m: Self::Model, l1: BlockInfoV, cfg: SystemConfigV) -> Result<
        (),
        StageError,
    >;

    /// The state `reset` restores.
    spec fn reset_model(m: Self::Model, l1: BlockInfoV, cfg: SystemConfigV) -> Self::Model;

    /// Resetting is a projection: resetting an already-reset state with
    /// the same origin and config changes neither the state nor the
    /// answer.
    proof fn lemma_reset_projects(m: Self::Model, l1: BlockInfoV, cfg: SystemConfigV)
        ensures
            Self::reset_model(Self::reset_model(m, l1, cfg), l1, cfg) == Self::reset_model(
                m,
                l1,
                cfg,
            ),
            Self::reset_result(Self::reset_model(m, l1, cfg), l1, cfg) == Self::reset_result(
                m,
                l1,
                cfg,
            ),
    ;

    /// Produces the next attributes, or `Eof` when the stage drained its
    /// current input, or fails.
    fn next_attributes(&mut self, cursor: &L2BlockInfo) -> (r: Result<
        AttributesWithParent,
        StageError,
    >)
        requires
            old(self).stage_wf(),
        ensures
            final(self).stage_wf(),
            final(self).model() == Self::next_model(old(self).model(), cursor@),
            match r {
                Ok(a) => Self::next_result(old(self).model(), cursor@) == Ok::<
                    AttributesWithParentV,
                    StageError,
                >(a@),
                Err(e) => Self::next_result(old(self).model(), cursor@) == Err::<
                    AttributesWithParentV,
                    StageError,
                >(e),
            },
    ;

    /// Consumes more L1 data.
    fn advance_origin(&mut self) -> (r: Result<(), StageError>)
        requires
            old(self).stage_wf(),
        ensures
            final(self).stage_wf(),
            final(self).model() == Self::advance_model(old(self).model()),
            r == Self::advance_result(old(self).model()),
    ;

    /// The current L1 origin.
    fn origin(&self) -> (r: Option<BlockInfo>)
        requires
            self.stage_wf(),
        ensures
            match r {
                Some(b) => Self::origin_model(self.model()) == Some(b@),
                None => Self::origin_model(self.model()) is None,
            },
    ;

    /// Restores the stage at a given L1 origin and system config. `Eof`
    /// during reset is benign: the restored state is reached all the
    /// same.
    fn reset(&mut self, l1: &BlockInfo, cfg: &SystemConfig) -> (r: Result<(), StageError>)
        requires
            old(self).stage_wf(),
        ensures
            final(self).stage_wf(),
            r == Self::reset_result(old(self).model(), l1@, cfg@),
            (r is Ok || r == Err::<(), StageError>(StageError::Eof)) ==> final(self).model()
                == Self::reset_model(old(self).model(), l1@, cfg@),
    ;
}

/// A deterministic source of per-height system configs, as the driver
/// needs one during reset: answers are a function of the source's
/// unchanging contents, and success comes exactly on the heights it
/// holds.
pub trait L2ConfigSource: Sized {
    /// The configs the source can answer with, by L2 height.
    spec fn config_model(&self) -> Map<u64, SystemConfigV>;

    /// The one rollup configuration the source answers for: every entry
    /// of `config_model` is derived under it, and callers must hold it.
    spec fn source_config(&self) -> RollupConfig;

    /// The source's internal invariant.
    spec fn source_wf(&self) -> bool;

    /// The system config at an L2 height, derived under the source's own
    /// rollup config, which the caller's must equal.
    fn system_config_by_number(&mut self, number: u64, cfg: &RollupConfig) -> (r: Result<
        SystemConfig,
        ProviderError,
    >)
        requires
            old(self).source_wf(),
            cfg@ == old(self).source_config()@,
        ensures
            final(self).source_wf(),
            final(self).config_model() == old(self).config_model(),
            final(self).source_config() == old(self).source_config(),
            match r {
                Ok(sc) => old(self).config_model().dom().contains(number) && sc@ == old(
                    self,
                ).config_model()[number] && sc.wf(),
                Err(_) => !old(self).config_model().dom().contains(number),
            },
    ;
}

/// The derivation pipeline driver over a stage stack `S` and an L2
/// config source `P`.
pub struct DerivationPipeline<S: DerivationStage, P: L2ConfigSource> {
    /// The composed stage stack the driver pulls from.
    pub attributes: S,
    /// Prepared attribute sets, in production order, not yet consumed.
    pub prepared: VecDeque<AttributesWithParent>,
    /// The chain-wide rollup configuration.
    pub rollup_config: RollupConfig,
    /// The config source consulted during reset.
    pub l2_chain_provider: P,
}

impl<S: DerivationStage, P: L2ConfigSource> DerivationPipeline<S, P> {
    /// The stage and the config source are well formed, and the source
    /// answers for the driver's own rollup config.
    pub open spec fn wf(&self) -> bool {
        &&& self.attributes.stage_wf()
        &&& self.l2_chain_provider.source_wf()
        &&& self.l2_chain_provider.source_config()@ == self.rollup_config@
    }

    /// The prepared queue, front first.
    pub open spec fn queue(&self) -> Seq<AttributesWithParentV> {
        self.prepared@.map_values(|a: AttributesWithParent| a@)
    }

    /// Creates a driver with an empty prepared queue.
    pub fn new(attributes: S, rollup_config: RollupConfig, l2_chain_provider: P) -> (r: Self)
        requires
            attributes.stage_wf(),
            l2_chain_provider.source_wf(),
            l2_chain_provider.source_config()@ == rollup_config@,
        ensures
            r.wf(),
            r.attributes == attributes,
            r.rollup_config == rollup_config,
            r.l2_chain_provider == l2_chain_provider,
            r.queue() == Seq::<AttributesWithParentV>::empty(),
    {
        let r = DerivationPipeline {
            attributes,
            prepared: VecDeque::new(),
            rollup_config,
            l2_chain_provider,
        };
        proof {
            assert(r.queue() =~= Seq::<AttributesWithParentV>::empty());
        }
        r
    }

    /// The stage stack's current L1 origin.
    pub fn origin(&self) -> (r: Option<BlockInfo>)
        requires
            self.wf(),
        ensures
            match r {
                Some(b) => S::origin_model(self.attributes.model()) == Some(b@),
                None => S::origin_model(self.attributes.model()) is None,
            },
    {
        self.attributes.origin()
    }

    /// The head of the prepared queue, unconsumed.
    pub fn peek(&self) -> (r: Option<&AttributesWithParent>)
        ensures
            match r {
                Some(a) => self.queue().len() > 0 && a@ == self.queue()[0],
                None => self.queue().len() == 0,
            },
    {
        if self.prepared.len() == 0 {
            None
        } else {
            Some(&self.prepared[0])
        }
    }

    /// Pops the head of the prepared queue: the queue shrinks by exactly
    /// the front element; nothing else moves.
    pub fn next(&mut self) -> (r: Option<AttributesWithParent>)
        ensures
            final(self).attributes == old(self).attributes,
            final(self).rollup_config == old(self).rollup_config,
            final(self).l2_chain_provider == old(self).l2_chain_provider,
            match r {
                Some(a) => old(self).queue().len() > 0 && a@ == old(self).queue()[0]
                    && final(self).queue() == old(self).queue().subrange(
                    1,
                    old(self).queue().len() as int,
                ),
                None => old(self).queue().len() == 0 && final(self).queue() == old(
                    self,
                ).queue(),
            },
    {
        let r = self.prepared.pop_front();
        proof {
            match r {
                Some(ref a) => {
                    assert(self.queue() =~= old(self).queue().subrange(
                        1,
                        old(self).queue().len() as int,
                    ));
                },
                None => {
                    assert(self.queue() =~= old(self).queue());
                },
            }
        }
        r
    }

    /// Attempts one unit of progress. Success enqueues exactly one
    /// attribute set at the back and touches nothing already queued; EOF
    /// advances the origin instead; any other stage error is fatal to
    /// the run. The config source is never consulted.
    pub fn step(&mut self, cursor: &L2BlockInfo) -> (r: StepResult)
        requires
            old(self).wf(),
        ensures
            final(self).wf(),
            final(self).rollup_config == old(self).rollup_config,
            final(self).l2_chain_provider == old(self).l2_chain_provider,
            ({
                let m0 = old(self).attributes.model();
                match S::next_result(m0, cursor@) {
                    Ok(a) => r == StepResult::PreparedAttributes && final(self).queue()
                        == old(self).queue().push(a) && final(self).attributes.model()
                        == S::next_model(m0, cursor@),
                    Err(StageError::Eof) => {
                        let m1 = S::next_model(m0, cursor@);
                        &&& final(self).queue() == old(self).queue()
                        &&& final(self).attributes.model() == S::advance_model(m1)
                        &&& match S::advance_result(m1) {
                            Ok(u) => r == StepResult::AdvancedOrigin,
                            Err(e) => r == StepResult::OriginAdvanceErr(e),
                        }
                    },
                    Err(e) => r == StepResult::StepFailed(e) && final(self).queue() == old(
                        self,
                    ).queue() && final(self).attributes.model() == S::next_model(m0, cursor@),
                }
            }),
    {
        let ghost q0 = self.queue();
        match self.attributes.next_attributes(cursor) {
            Ok(a) => {
                let ghost av = a@;
                self.prepared.push_back(a);
                proof {
                    assert(self.queue() =~= q0.push(av));
                }
                StepResult::PreparedAttributes
            },
            Err(StageError::Eof) => {
                match self.attributes.advance_origin() {
                    Ok(_) => StepResult::AdvancedOrigin,
                    Err(e) => StepResult::OriginAdvanceErr(e),
                }
            },
            Err(e) => StepResult::StepFailed(e),
        }
    }

    /// What a successful reset leaves behind: the system config at the
    /// L2 height is consulted from the source, the stage stack accepted
    /// the reset (cleanly or with a benign EOF) and is restored at the
    /// L1 origin with that config; the prepared queue, the rollup config
    /// and the source's contents stay as they were.
    pub open spec fn reset_relation(
        pre: Self,
        post: Self,
        l2_block_info: BlockInfoV,
        l1_block_info: BlockInfoV,
    ) -> bool {
        &&& pre.l2_chain_provider.config_model().dom().contains(l2_block_info.number)
        &&& (S::reset_result(
            pre.attributes.model(),
            l1_block_info,
            pre.l2_chain_provider.config_model()[l2_block_info.number],
        ) is Ok || S::reset_result(
            pre.attributes.model(),
            l1_block_info,
            pre.l2_chain_provider.config_model()[l2_block_info.number],
        ) == Err::<(), StageError>(StageError::Eof))
        &&& post.attributes.model() == S::reset_model(
            pre.attributes.model(),
            l1_block_info,
            pre.l2_chain_provider.config_model()[l2_block_info.number],
        )
        &&& post.queue() == pre.queue()
        &&& post.rollup_config == pre.rollup_config
        &&& post.l2_chain_provider.config_model() == pre.l2_chain_provider.config_model()
    }

    /// Resets the pipeline: fetches the system config at the reset
    /// height, then restores the stage stack at the L1 origin with it.
    /// `Eof` from the stage is benign; any other stage error, or an
    /// unknown height, fails and restores nothing.
    pub fn reset(&mut self, l2_block_info: &BlockInfo, l1_block_info: &BlockInfo) -> (r: Result<
        (),
        ResetError,
    >)
        requires
            old(self).wf(),
        ensures
            final(self).wf(),
            final(self).rollup_config == old(self).rollup_config,
            final(self).l2_chain_provider.config_model() == old(
                self,
            ).l2_chain_provider.config_model(),
            final(self).queue() == old(self).queue(),
            match r {
                Ok(u) => Self::reset_relation(
                    *old(self),
                    *final(self),
                    l2_block_info@,
                    l1_block_info@,
                ),
                Err(ResetError::Provider(e)) => !old(
                    self,
                ).l2_chain_provider.config_model().dom().contains(l2_block_info@.number)
                    && final(self).attributes == old(self).attributes,
                Err(ResetError::Stage(e)) => e != StageError::Eof && old(
                    self,
                ).l2_chain_provider.config_model().dom().contains(l2_block_info@.number)
                    && S::reset_result(
                    old(self).attributes.model(),
                    l1_block_info@,
                    old(self).l2_chain_provider.config_model()[l2_block_info@.number],
                ) == Err::<(), StageError>(e),
            },
    {
        let system_config = match self.l2_chain_provider.system_config_by_number(
            l2_block_info.number,
            &self.rollup_config,
        ) {
            Ok(sc) => sc,
            Err(e) => {
                return Err(ResetError::Provider(e));
            },
        };
        match self.attributes.reset(l1_block_info, &system_config) {
            Ok(_) => Ok(()),
            Err(StageError::Eof) => Ok(()),
            Err(e) => Err(ResetError::Stage(e)),
        }
    }
}

/// Reset is idempotent: two successful resets with the same arguments
/// leave the driver exactly as one does, state for state, given the
/// deterministic config source the reset consulted.
pub proof fn lemma_reset_idempotent<S: DerivationStage, P: L2ConfigSource>(
    p0: DerivationPipeline<S, P>,
    p1: DerivationPipeline<S, P>,
    p2: DerivationPipeline<S, P>,
    l2_block_info: BlockInfoV,
    l1_block_info: BlockInfoV,
)
    requires
        DerivationPipeline::<S, P>::reset_relation(p0, p1, l2_block_info, l1_block_info),
        DerivationPipeline::<S, P>::reset_relation(p1, p2, l2_block_info, l1_block_info),
    ensures
        p2.attributes.model() == p1.attributes.model(),
        p2.queue() == p1.queue(),
        p2.rollup_config == p1.rollup_config,
        p2.l2_chain_provider.config_model() == p1.l2_chain_provider.config_model(),
{
    let cfg = p0.l2_chain_provider.config_model()[l2_block_info.number];
    S::lemma_reset_projects(p0.attributes.model(), l1_block_info, cfg);
}

} // verus!
