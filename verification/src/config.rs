//! The bot's configuration: one set of credentials per member it answers for.
use vstd::prelude::*;

verus! {

/// The credentials and addresses for one member.
#[derive(Debug, PartialEq, Eq)]
pub struct ConfigSet {
    pub bearer_token: String,
    pub group_id: String,
    pub user_id: String,
    pub discord_webhook: String,
}

/// All configured members; the first one's group drives the event list.
#[derive(Debug, PartialEq, Eq)]
pub struct Config {
    pub config: Vec<ConfigSet>,
}

impl Clone for ConfigSet {
    fn clone(&self) -> (r: Self)
        ensures
            r == *self,
    {
        ConfigSet {
            bearer_token: self.bearer_token.clone(),
            group_id: self.group_id.clone(),
            user_id: self.user_id.clone(),
            discord_webhook: self.discord_webhook.clone(),
        }
    }
}

impl Clone for Config {
    fn clone(&self) -> (r: Self)
        ensures
            r.config@ == self.config@,
    {
        let mut sets: Vec<ConfigSet> = Vec::new();
        let n = self.config.len();
        let mut i: usize = 0;
        while i < n
            invariant
                n == self.config.len(),
                i <= n,
                sets@ == self.config@.take(i as int),
            decreases n - i,
        {
            sets.push(self.config[i].clone());
            assert(sets@ =~= self.config@.take(i + 1));
            i = i + 1;
        }
        assert(self.config@.take(n as int) =~= self.config@);
        Config { config: sets }
    }
}

} // verus!
