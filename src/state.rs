use vstd::prelude::*;
use crate::config::{UserConfig, UserConfigView};

verus! {

/// The settings record after a series of updates, applied one after another
/// to `start`: each update replaces the whole record.
pub open spec fn after_updates(start: UserConfigView, updates: Seq<UserConfigView>) -> UserConfigView
    decreases updates.len(),
{
    if updates.len() == 0 {
        start
    } else {
        after_updates(updates[0], updates.drop_first())
    }
}

/// The process-wide current settings. Callers share it behind a lock, so
/// updates are applied one at a time and each replaces the record whole.
pub struct ConfigState {
    current: UserConfig,
}

impl View for ConfigState {
    type V = UserConfigView;

    closed spec fn view(&self) -> UserConfigView {
        self.current@
    }
}

impl ConfigState {
    /// A state holding `config`.
    pub fn new(config: UserConfig) -> (r: ConfigState)
        ensures
            r@ == config@,
    {
        ConfigState { current: config }
    }

    /// A deep copy of the current settings.
    pub fn get(&self) -> (r: UserConfig)
        ensures
            r@ == self@,
    {
        self.current.snapshot()
    }

    /// Replaces the current settings by `new_config` and returns the record
    /// that is to be persisted, which equals it.
    pub fn set(&mut self, new_config: UserConfig) -> (to_persist: UserConfig)
        ensures
            final(self)@ == after_updates(old(self)@, seq![new_config@]),
            to_persist@ == new_config@,
    {
        let to_persist = new_config.snapshot();
        self.current = new_config;
        proof {
            let once = seq![new_config@];
            assert(once.drop_first() =~= Seq::<UserConfigView>::empty());
            assert(after_updates(new_config@, once.drop_first()) == new_config@);
        }
        to_persist
    }
}

/// Updates applied one at a time never mix records: after any non-empty
/// series of updates, the settings equal the last update exactly, which is
/// one of the inputs.
pub proof fn lemma_updates_end_in_last(start: UserConfigView, updates: Seq<UserConfigView>)
    requires
        updates.len() > 0,
    ensures
        after_updates(start, updates) == updates.last(),
        updates.contains(after_updates(start, updates)),
    decreases updates.len(),
{
    let rest = updates.drop_first();
    if updates.len() > 1 {
        lemma_updates_end_in_last(updates[0], rest);
        assert(rest.last() == updates.last());
    } else {
        assert(after_updates(updates[0], rest) == updates[0]);
    }
    assert(after_updates(start, updates) == after_updates(updates[0], rest));
    assert(updates[updates.len() - 1] == updates.last());
}

/// Two updates, in whichever order a lock lets them through, leave the
/// settings equal to exactly one of the two records.
pub proof fn lemma_two_updates_pick_one(start: UserConfigView, a: UserConfigView, b: UserConfigView)
    ensures
        after_updates(start, seq![a, b]) == b,
        after_updates(start, seq![b, a]) == a,
{
    lemma_updates_end_in_last(start, seq![a, b]);
    lemma_updates_end_in_last(start, seq![b, a]);
}

} // verus!
