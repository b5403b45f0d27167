//! Deterministic in-memory implementations of the driver's two
//! capabilities: a stage stack that answers from a script, and a config
//! source that answers from a table. Both are fully verified and serve
//! offline replay and testing of the driver.

use vstd::prelude::*;
use std::collections::VecDeque;
use crate::driver::{DerivationStage, L2ConfigSource};
use crate::errors::{ProviderError, StageError};
use crate::types::{
    AttributesWithParent, AttributesWithParentV, BlockInfo, BlockInfoV, L2BlockInfoV,
    RollupConfig, SystemConfig, SystemConfigV,
};

verus! {

/// A stage stack that answers `next_attributes` from the front of a
/// script, advances its origin freely, and resets to a given origin
/// without touching the script; a configured fault makes every reset
/// answer with it instead.
pub struct ScriptedStage {
    /// The answers still to give, front first.
    pub script: VecDeque<Result<AttributesWithParent, StageError>>,
    /// The current L1 origin.
    pub origin: Option<BlockInfo>,
    /// What every reset answers; `Eof` is benign and still restores.
    pub reset_fault: Option<StageError>,
}

/// Ghost image of a [`ScriptedStage`].
#[verifier::ext_equal]
pub ghost struct ScriptedStageV {
    pub script: Seq<Result<AttributesWithParentV, StageError>>,
    pub origin: Option<BlockInfoV>,
    pub reset_fault: Option<StageError>,
}

/// The view of one scripted answer.
pub open spec fn script_entry_view(r: Result<AttributesWithParent, StageError>) -> Result<
    AttributesWithParentV,
    StageError,
> {
    match r {
        Ok(a) => Ok(a@),
        Err(e) => Err(e),
    }
}

impl ScriptedStage {
    /// Creates a stage with the given script and no origin yet.
    pub fn new(script: VecDeque<Result<AttributesWithParent, StageError>>) -> (r: ScriptedStage)
        ensures
            r.stage_wf(),
            r.model() == (ScriptedStageV {
                script: script@.map_values(|e: Result<AttributesWithParent, StageError>|
                    script_entry_view(e)),
                origin: None::<BlockInfoV>,
                reset_fault: None::<StageError>,
            }),
    {
        ScriptedStage { script, origin: None, reset_fault: None }
    }
}

impl DerivationStage for ScriptedStage {
    type Model = ScriptedStageV;

    open spec fn model(&self) -> ScriptedStageV {
        ScriptedStageV {
            script: self.script@.map_values(|e: Result<AttributesWithParent, StageError>|
                script_entry_view(e)),
            origin: match self.origin {
                Some(ref b) => Some(b@),
                None => None,
            },
            reset_fault: self.reset_fault,
        }
    }

    open spec fn stage_wf(&self) -> bool {
        true
    }

    open spec fn next_result(m: ScriptedStageV, cursor: L2BlockInfoV) -> Result<
        AttributesWithParentV,
        StageError,
    > {
        if m.script.len() == 0 {
            Err(StageError::Eof)
        } else {
            m.script[0]
        }
    }

    open spec fn next_model(m: ScriptedStageV, cursor: L2BlockInfoV) -> ScriptedStageV {
        if m.script.len() == 0 {
            m
        } else {
            ScriptedStageV { script: m.script.subrange(1, m.script.len() as int), ..m }
        }
    }

    open spec fn advance_result(m: ScriptedStageV) -> Result<(), StageError> {
        Ok(())
    }

    open spec fn advance_model(m: ScriptedStageV) -> ScriptedStageV {
        m
    }

    open spec fn origin_model(m: ScriptedStageV) -> Option<BlockInfoV> {
        m.origin
    }

    open spec fn reset_result(m: ScriptedStageV, l1: BlockInfoV, cfg: SystemConfigV) -> Result<
        (),
        StageError,
    > {
        match m.reset_fault {
            Some(e) => Err(e),
            None => Ok(()),
        }
    }

    open spec fn reset_model(m: ScriptedStageV, l1: BlockInfoV, cfg: SystemConfigV)
        -> ScriptedStageV {
        ScriptedStageV { script: m.script, origin: Some(l1), reset_fault: m.reset_fault }
    }

    proof fn lemma_reset_projects(m: ScriptedStageV, l1: BlockInfoV, cfg: SystemConfigV) {
    }

    fn next_attributes(&mut self, cursor: &crate::types::L2BlockInfo) -> (r: Result<
        AttributesWithParent,
        StageError,
    >) {
        match self.script.pop_front() {
            None => {
                proof {
                    assert(self.model() =~= Self::next_model(old(self).model(), cursor@));
                }
                Err(StageError::Eof)
            },
            Some(entry) => {
                proof {
                    assert(old(self).model().script[0] == script_entry_view(entry));
                    assert(self.model().script =~= old(self).model().script.subrange(
                        1,
                        old(self).model().script.len() as int,
                    ));
                    assert(self.model() =~= Self::next_model(old(self).model(), cursor@));
                }
                entry
            },
        }
    }

    fn advance_origin(&mut self) -> (r: Result<(), StageError>) {
        Ok(())
    }

    fn origin(&self) -> (r: Option<BlockInfo>) {
        match &self.origin {
            Some(b) => Some(b.dup()),
            None => None,
        }
    }

    fn reset(&mut self, l1: &BlockInfo, cfg: &SystemConfig) -> (r: Result<(), StageError>) {
        match self.reset_fault {
            None => {
                self.origin = Some(l1.dup());
                proof {
                    assert(self.model() =~= Self::reset_model(old(self).model(), l1@, cfg@));
                }
                Ok(())
            },
            Some(StageError::Eof) => {
                self.origin = Some(l1.dup());
                proof {
                    assert(self.model() =~= Self::reset_model(old(self).model(), l1@, cfg@));
                }
                Err(StageError::Eof)
            },
            Some(e) => Err(e),
        }
    }
}

/// A config source that answers from a fixed table of heights, on
/// behalf of one fixed rollup config.
pub struct MapConfigSource {
    numbers: Vec<u64>,
    configs: Vec<SystemConfig>,
    contents: Ghost<Map<u64, SystemConfigV>>,
    for_config: Ghost<RollupConfig>,
}

impl MapConfigSource {
    /// Creates an empty source answering for the given rollup config.
    pub fn new(cfg: &RollupConfig) -> (r: MapConfigSource)
        ensures
            r.source_wf(),
            r.config_model() == Map::<u64, SystemConfigV>::empty(),
            r.source_config() == *cfg,
    {
        MapConfigSource {
            numbers: Vec::new(),
            configs: Vec::new(),
            contents: Ghost(Map::empty()),
            for_config: Ghost(*cfg),
        }
    }

    /// Binds one height to a config.
    #[verifier::loop_isolation(false)]
    pub fn insert(&mut self, number: u64, sc: SystemConfig)
        requires
            old(self).source_wf(),
            sc.wf(),
        ensures
            final(self).source_wf(),
            final(self).config_model() == old(self).config_model().insert(number, sc@),
            final(self).source_config() == old(self).source_config(),
    {
        let ghost old_self = *self;
        let ghost scv = sc@;
        let mut i: usize = 0;
        while i < self.numbers.len()
            invariant
                *self == old_self,
                i <= self.numbers@.len(),
                forall|j: int| 0 <= j < i ==> self.numbers@[j] != number,
            decreases self.numbers@.len() - i,
        {
            if self.numbers[i] == number {
                self.configs.set(i, sc);
                proof {
                    self.contents@ = self.contents@.insert(number, scv);
                    assert forall|j: int| 0 <= j < self.numbers@.len() implies
                        #[trigger] self.contents@.dom().contains(self.numbers@[j])
                            && self.contents@[self.numbers@[j]] == self.configs@[j]@
                            && self.configs@[j].wf() by {
                        if j != i {
                            if j < i {
                                assert(old_self.numbers@[j] != old_self.numbers@[i as int]);
                            } else {
                                assert(old_self.numbers@[i as int] != old_self.numbers@[j]);
                            }
                            assert(old_self.contents@.dom().contains(old_self.numbers@[j]));
                        }
                    }
                    assert forall|n: u64| self.contents@.dom().contains(n) implies exists|j: int|
                        0 <= j < self.numbers@.len() && #[trigger] self.numbers@[j] == n by {
                        if n != number {
                            assert(old_self.contents@.dom().contains(n));
                            let j = choose|j: int|
                                0 <= j < old_self.numbers@.len()
                                    && #[trigger] old_self.numbers@[j] == n;
                            assert(self.numbers@[j] == n);
                        } else {
                            assert(self.numbers@[i as int] == n);
                        }
                    }
                    assert(self.source_wf());
                    assert(self.config_model() =~= old_self.config_model().insert(number, scv));
                }
                return ;
            }
            i = i + 1;
        }
        self.numbers.push(number);
        self.configs.push(sc);
        proof {
            self.contents@ = self.contents@.insert(number, scv);
            assert forall|n: u64| self.contents@.dom().contains(n) implies exists|j: int|
                0 <= j < self.numbers@.len() && #[trigger] self.numbers@[j] == n by {
                if n != number {
                    assert(old_self.contents@.dom().contains(n));
                    let j = choose|j: int|
                        0 <= j < old_self.numbers@.len() && #[trigger] old_self.numbers@[j] == n;
                    assert(self.numbers@[j] == n);
                } else {
                    assert(self.numbers@[self.numbers@.len() - 1] == n);
                }
            }
            assert(self.source_wf());
            assert(self.config_model() =~= old_self.config_model().insert(number, scv));
        }
    }
}

impl L2ConfigSource for MapConfigSource {
    closed spec fn config_model(&self) -> Map<u64, SystemConfigV> {
        self.contents@
    }

    closed spec fn source_config(&self) -> RollupConfig {
        self.for_config@
    }

    closed spec fn source_wf(&self) -> bool {
        &&& self.numbers@.len() == self.configs@.len()
        &&& forall|i: int, j: int|
            0 <= i < j < self.numbers@.len() ==> self.numbers@[i] != self.numbers@[j]
        &&& forall|j: int|
            0 <= j < self.numbers@.len() ==> #[trigger] self.contents@.dom().contains(
                self.numbers@[j],
            ) && self.contents@[self.numbers@[j]] == self.configs@[j]@ && self.configs@[
                j
            ].wf()
        &&& forall|n: u64|
            self.contents@.dom().contains(n) ==> exists|j: int|
                0 <= j < self.numbers@.len() && #[trigger] self.numbers@[j] == n
    }

    fn system_config_by_number(&mut self, number: u64, cfg: &RollupConfig) -> (r: Result<
        SystemConfig,
        ProviderError,
    >) {
        let mut i: usize = 0;
        while i < self.numbers.len()
            invariant
                self.source_wf(),
                i <= self.numbers@.len(),
                forall|j: int| 0 <= j < i ==> self.numbers@[j] != number,
            decreases self.numbers@.len() - i,
        {
            if self.numbers[i] == number {
                proof {
                    assert(self.contents@.dom().contains(self.numbers@[i as int]));
                }
                return Ok(self.configs[i].dup());
            }
            i = i + 1;
        }
        proof {
            if self.contents@.dom().contains(number) {
                let j = choose|j: int|
                    0 <= j < self.numbers@.len() && #[trigger] self.numbers@[j] == number;
                assert(false);
            }
        }
        Err(ProviderError::Transport)
    }
}

} // verus!
