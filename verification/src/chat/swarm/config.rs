//! The configuration of the swarm: one entry for each role, without tokens.
//! Empty overrides mean that the role uses what the main agent uses.
use vstd::prelude::*;

use crate::text::{is_blank, same, to_ascii_lowercase, trim};

verus! {

broadcast use vstd::string::group_string_axioms;

/// The roles of the swarm: the responders of the stages, the general responder,
/// and the services around them.
#[derive(Debug, Clone, Copy, PartialEq, Eq, Hash, PartialOrd, Ord, Structural)]
pub enum SubAgentRole {
    Planning,
    Execution,
    Validation,
    Done,
    General,
    Memory,
    Summary,
    Topic,
    Profile,
    Invariant,
    /// A worker of a pipeline stage; configured with the stage.
    Worker,
    /// A former role that stored configurations may still name.
    Task,
}

/// The name of a role.
pub open spec fn role_name(role: SubAgentRole) -> Seq<char> {
    match role {
        SubAgentRole::Planning => "planning"@,
        SubAgentRole::Execution => "execution"@,
        SubAgentRole::Validation => "validation"@,
        SubAgentRole::Done => "done"@,
        SubAgentRole::General => "general"@,
        SubAgentRole::Memory => "memory"@,
        SubAgentRole::Summary => "summary"@,
        SubAgentRole::Topic => "topic"@,
        SubAgentRole::Profile => "profile"@,
        SubAgentRole::Invariant => "invariant"@,
        SubAgentRole::Worker => "worker"@,
        SubAgentRole::Task => "task"@,
    }
}

/// The role that a name in lower case stands for.
pub open spec fn role_named(name: Seq<char>) -> Option<SubAgentRole> {
    if name == "planning"@ {
        Some(SubAgentRole::Planning)
    } else if name == "execution"@ {
        Some(SubAgentRole::Execution)
    } else if name == "validation"@ {
        Some(SubAgentRole::Validation)
    } else if name == "done"@ {
        Some(SubAgentRole::Done)
    } else if name == "general"@ {
        Some(SubAgentRole::General)
    } else if name == "memory"@ {
        Some(SubAgentRole::Memory)
    } else if name == "summary"@ {
        Some(SubAgentRole::Summary)
    } else if name == "topic"@ {
        Some(SubAgentRole::Topic)
    } else if name == "profile"@ {
        Some(SubAgentRole::Profile)
    } else if name == "invariant"@ {
        Some(SubAgentRole::Invariant)
    } else if name == "worker"@ {
        Some(SubAgentRole::Worker)
    } else if name == "task"@ {
        Some(SubAgentRole::Task)
    } else {
        None
    }
}

/// Whether a role answers for a stage of a task.
pub open spec fn stage_role(role: SubAgentRole) -> bool {
    role == SubAgentRole::Planning || role == SubAgentRole::Execution || role
        == SubAgentRole::Validation || role == SubAgentRole::Done
}

/// Whether a role is one that every swarm has.
pub open spec fn mandatory(role: SubAgentRole) -> bool {
    role != SubAgentRole::Worker && role != SubAgentRole::Task
}

impl SubAgentRole {
    /// The roles that every swarm has, in order.
    pub const ALL: [SubAgentRole; 10] = [
        SubAgentRole::Planning,
        SubAgentRole::Execution,
        SubAgentRole::Validation,
        SubAgentRole::Done,
        SubAgentRole::General,
        SubAgentRole::Memory,
        SubAgentRole::Summary,
        SubAgentRole::Topic,
        SubAgentRole::Profile,
        SubAgentRole::Invariant,
    ];

    /// The roles that answer for a stage, in the order of the stages.
    pub const STAGES: [SubAgentRole; 4] = [
        SubAgentRole::Planning,
        SubAgentRole::Execution,
        SubAgentRole::Validation,
        SubAgentRole::Done,
    ];

    /// The name of the role.
    pub fn as_str(self) -> (r: &'static str)
        ensures
            r@ == role_name(self),
    {
        match self {
            SubAgentRole::Planning => "planning",
            SubAgentRole::Execution => "execution",
            SubAgentRole::Validation => "validation",
            SubAgentRole::Done => "done",
            SubAgentRole::General => "general",
            SubAgentRole::Memory => "memory",
            SubAgentRole::Summary => "summary",
            SubAgentRole::Topic => "topic",
            SubAgentRole::Profile => "profile",
            SubAgentRole::Invariant => "invariant",
            SubAgentRole::Worker => "worker",
            SubAgentRole::Task => "task",
        }
    }

    /// Whether the role answers for a stage.
    pub fn is_stage(self) -> (r: bool)
        ensures
            r == stage_role(self),
    {
        match self {
            SubAgentRole::Planning
            | SubAgentRole::Execution
            | SubAgentRole::Validation
            | SubAgentRole::Done => true,
            _ => false,
        }
    }

    /// The role that a name stands for, whatever the white space around it and
    /// the case of its ASCII letters.
    pub fn parse(value: &str) -> (r: Option<SubAgentRole>)
        ensures
            r == role_named(crate::text::ascii_lower(crate::text::trimmed(value@))),
    {
        let lower = to_ascii_lowercase(trim(value));
        let name = lower.as_str();
        if same(name, "planning") {
            Some(SubAgentRole::Planning)
        } else if same(name, "execution") {
            Some(SubAgentRole::Execution)
        } else if same(name, "validation") {
            Some(SubAgentRole::Validation)
        } else if same(name, "done") {
            Some(SubAgentRole::Done)
        } else if same(name, "general") {
            Some(SubAgentRole::General)
        } else if same(name, "memory") {
            Some(SubAgentRole::Memory)
        } else if same(name, "summary") {
            Some(SubAgentRole::Summary)
        } else if same(name, "topic") {
            Some(SubAgentRole::Topic)
        } else if same(name, "profile") {
            Some(SubAgentRole::Profile)
        } else if same(name, "invariant") {
            Some(SubAgentRole::Invariant)
        } else if same(name, "worker") {
            Some(SubAgentRole::Worker)
        } else if same(name, "task") {
            Some(SubAgentRole::Task)
        } else {
            None
        }
    }
}

impl std::str::FromStr for SubAgentRole {
    type Err = ();

    fn from_str(value: &str) -> (r: Result<SubAgentRole, ()>)
        ensures
            r == (match role_named(crate::text::ascii_lower(crate::text::trimmed(value@))) {
                Some(role) => Ok::<SubAgentRole, ()>(role),
                None => Err(()),
            }),
    {
        match SubAgentRole::parse(value) {
            Some(role) => Ok(role),
            None => Err(()),
        }
    }
}

/// A role's own name stands for it.
pub proof fn role_name_is_parsed_back(role: SubAgentRole)
    ensures
        role_named(crate::text::ascii_lower(crate::text::trimmed(role_name(role)))) == Some(role),
{
    reveal_strlit("planning");
    reveal_strlit("execution");
    reveal_strlit("validation");
    reveal_strlit("done");
    reveal_strlit("general");
    reveal_strlit("memory");
    reveal_strlit("summary");
    reveal_strlit("topic");
    reveal_strlit("profile");
    reveal_strlit("invariant");
    reveal_strlit("worker");
    reveal_strlit("task");
    let name = role_name(role);
    assert(crate::text::trimmed(name) == name);
    assert(crate::text::ascii_lower(name) =~= name);
    assert("planning"@.len() == 8 && "execution"@.len() == 9 && "validation"@.len() == 10);
    assert("done"@.len() == 4 && "task"@.len() == 4 && "done"@[0] == 'd' && "task"@[0] == 't');
    assert("general"@.len() == 7 && "summary"@.len() == 7 && "profile"@.len() == 7);
    assert("general"@[0] == 'g' && "summary"@[0] == 's' && "profile"@[0] == 'p');
    assert("memory"@.len() == 6 && "worker"@.len() == 6 && "memory"@[0] == 'm' && "worker"@[0]
        == 'w');
    assert("topic"@.len() == 5);
    assert("invariant"@.len() == 9 && "invariant"@[0] == 'i' && "execution"@[0] == 'e');
}

/// The roles of `ALL` are the mandatory ones, each once.
pub proof fn all_roles_are_mandatory(role: SubAgentRole)
    ensures
        SubAgentRole::ALL@.contains(role) <==> mandatory(role),
        SubAgentRole::ALL@.no_duplicates(),
        SubAgentRole::STAGES@.contains(role) <==> stage_role(role),
{
    let all = SubAgentRole::ALL@;
    let stages = SubAgentRole::STAGES@;
    assert(all[0] == SubAgentRole::Planning && all[1] == SubAgentRole::Execution && all[2]
        == SubAgentRole::Validation && all[3] == SubAgentRole::Done && all[4]
        == SubAgentRole::General && all[5] == SubAgentRole::Memory && all[6]
        == SubAgentRole::Summary && all[7] == SubAgentRole::Topic && all[8]
        == SubAgentRole::Profile && all[9] == SubAgentRole::Invariant);
    assert(stages[0] == SubAgentRole::Planning && stages[1] == SubAgentRole::Execution && stages[2]
        == SubAgentRole::Validation && stages[3] == SubAgentRole::Done);
}

/// What a role uses in place of what the main agent uses.
#[derive(Debug, PartialEq, Eq)]
pub struct SubAgentConfig {
    pub role: SubAgentRole,
    /// Always true once the configuration is taken up.
    pub enabled: bool,
    pub provider: String,
    pub base_url: String,
    pub model: String,
    pub system_prompt: String,
    /// The role's own memory partition; empty for the default of the role.
    pub memory_scope: String,
}

impl Clone for SubAgentConfig {
    fn clone(&self) -> (r: Self)
        ensures
            r == *self,
    {
        SubAgentConfig {
            role: self.role,
            enabled: self.enabled,
            provider: self.provider.clone(),
            base_url: self.base_url.clone(),
            model: self.model.clone(),
            system_prompt: self.system_prompt.clone(),
            memory_scope: self.memory_scope.clone(),
        }
    }
}

/// Whether `config` takes everything from the main agent.
pub open spec fn inherits_all(config: SubAgentConfig, role: SubAgentRole) -> bool {
    &&& config.role == role
    &&& config.enabled
    &&& config.provider@.len() == 0
    &&& config.base_url@.len() == 0
    &&& config.model@.len() == 0
    &&& config.system_prompt@.len() == 0
    &&& config.memory_scope@.len() == 0
}

/// Whether `config` uses the main agent's provider and credentials.
pub open spec fn uses_main_provider(config: SubAgentConfig) -> bool {
    crate::text::blank(config.provider@) && crate::text::blank(config.base_url@)
}

/// Whether `b` is `a`, enabled.
pub open spec fn enabled_copy(a: SubAgentConfig, b: SubAgentConfig) -> bool {
    b == (SubAgentConfig { enabled: true, ..a })
}

impl SubAgentConfig {
    /// The configuration that takes everything from the main agent.
    pub fn inherit(role: SubAgentRole) -> (r: Self)
        ensures
            inherits_all(r, role),
    {
        SubAgentConfig {
            role,
            enabled: true,
            provider: String::new(),
            base_url: String::new(),
            model: String::new(),
            system_prompt: String::new(),
            memory_scope: String::new(),
        }
    }

    /// Whether the main agent's provider and credentials are used.
    pub fn inherits_provider(&self) -> (r: bool)
        ensures
            r == uses_main_provider(*self),
    {
        is_blank(self.provider.as_str()) && is_blank(self.base_url.as_str())
    }
}

/// The configuration of the whole swarm.
#[derive(Debug, PartialEq, Eq)]
pub struct SwarmConfig {
    pub agents: Vec<SubAgentConfig>,
}

/// The first entry for `role` from `from` on.
pub open spec fn entry_for(agents: Seq<SubAgentConfig>, role: SubAgentRole, from: int) -> Option<int>
    decreases agents.len() - from,
{
    if from < 0 || from >= agents.len() {
        None
    } else if agents[from].role == role {
        Some(from)
    } else {
        entry_for(agents, role, from + 1)
    }
}

/// The roles of `roles` that have no entry, in their order.
pub open spec fn unlisted(agents: Seq<SubAgentConfig>, roles: Seq<SubAgentRole>) -> Seq<
    SubAgentRole,
>
    decreases roles.len(),
{
    if roles.len() == 0 {
        Seq::empty()
    } else if entry_for(agents, roles.last(), 0) is None {
        unlisted(agents, roles.drop_last()).push(roles.last())
    } else {
        unlisted(agents, roles.drop_last())
    }
}

proof fn lemma_unlisted(agents: Seq<SubAgentConfig>, roles: Seq<SubAgentRole>)
    ensures
        forall|i: int|
            0 <= i < unlisted(agents, roles).len() ==> roles.contains(
                #[trigger] unlisted(agents, roles)[i],
            ),
    decreases roles.len(),
{
    if roles.len() > 0 {
        let rest = roles.drop_last();
        lemma_unlisted(agents, rest);
        assert forall|i: int| 0 <= i < unlisted(agents, roles).len() implies roles.contains(
            #[trigger] unlisted(agents, roles)[i],
        ) by {
            if i < unlisted(agents, rest).len() {
                let m = choose|m: int| 0 <= m < rest.len() && rest[m] == unlisted(agents, rest)[i];
                assert(roles[m] == unlisted(agents, roles)[i]);
            } else {
                assert(roles[roles.len() - 1] == unlisted(agents, roles)[i]);
            }
        }
    }
}

proof fn lemma_entry_for(agents: Seq<SubAgentConfig>, role: SubAgentRole, from: int)
    requires
        0 <= from,
    ensures
        match entry_for(agents, role, from) {
            Some(i) => from <= i < agents.len() && agents[i].role == role && (forall|j: int|
                from <= j < i ==> #[trigger] agents[j].role != role),
            None => forall|j: int| from <= j < agents.len() ==> #[trigger] agents[j].role != role,
        },
    decreases agents.len() - from,
{
    if from < agents.len() && agents[from].role != role {
        lemma_entry_for(agents, role, from + 1);
    }
}

/// The entries with `config` in place of the first one for its role, or at the
/// end.
pub open spec fn with_entry(agents: Seq<SubAgentConfig>, config: SubAgentConfig) -> Seq<
    SubAgentConfig,
> {
    match entry_for(agents, config.role, 0) {
        Some(i) => agents.update(i, config),
        None => agents.push(config),
    }
}

/// Whether `config` is what a swarm with `agents` has for `role`.
pub open spec fn configured(
    agents: Seq<SubAgentConfig>,
    role: SubAgentRole,
    config: SubAgentConfig,
) -> bool {
    match entry_for(agents, role, 0) {
        Some(i) => enabled_copy(agents[i], config),
        None => inherits_all(config, role),
    }
}

impl Default for SwarmConfig {
    fn default() -> (r: Self)
        ensures
            r.agents@.len() == 10,
            forall|i: int|
                0 <= i < 10 ==> inherits_all(#[trigger] r.agents@[i], SubAgentRole::ALL@[i]),
    {
        SwarmConfig::defaults()
    }
}

impl SwarmConfig {
    /// Every mandatory role, taking everything from the main agent.
    pub fn defaults() -> (r: Self)
        ensures
            r.agents@.len() == 10,
            forall|i: int|
                0 <= i < 10 ==> inherits_all(#[trigger] r.agents@[i], SubAgentRole::ALL@[i]),
    {
        let roles = SubAgentRole::ALL;
        let mut agents: Vec<SubAgentConfig> = Vec::new();
        let mut i: usize = 0;
        while i < 10
            invariant
                i <= 10,
                roles == SubAgentRole::ALL,
                agents@.len() == i,
                forall|j: int|
                    0 <= j < i ==> inherits_all(#[trigger] agents@[j], SubAgentRole::ALL@[j]),
            decreases 10 - i,
        {
            agents.push(SubAgentConfig::inherit(roles[i]));
            i = i + 1;
        }
        SwarmConfig { agents }
    }

    /// The position of the first entry for `role`.
    pub fn position(&self, role: SubAgentRole) -> (r: Option<usize>)
        ensures
            match r {
                Some(i) => entry_for(self.agents@, role, 0) == Some(i as int) && i
                    < self.agents@.len() && self.agents@[i as int].role == role,
                None => entry_for(self.agents@, role, 0) is None,
            },
    {
        let mut i: usize = 0;
        while i < self.agents.len()
            invariant
                i <= self.agents.len(),
                entry_for(self.agents@, role, 0) == entry_for(self.agents@, role, i as int),
            decreases self.agents.len() - i,
        {
            if self.agents[i].role == role {
                return Some(i);
            }
            i = i + 1;
        }
        None
    }

    /// The configuration of a role; one that is not listed takes everything
    /// from the main agent. A role is never disabled.
    pub fn get(&self, role: SubAgentRole) -> (r: SubAgentConfig)
        ensures
            configured(self.agents@, role, r),
            r.role == role,
            r.enabled,
    {
        match self.position(role) {
            Some(i) => SubAgentConfig { enabled: true, ..self.agents[i].clone() },
            None => SubAgentConfig::inherit(role),
        }
    }

    /// Whether a role takes part: every role does.
    pub fn is_enabled(&self, role: SubAgentRole) -> (r: bool)
        ensures
            r,
    {
        true
    }

    /// Gives a role its configuration, in place of the one it had.
    pub fn set(&mut self, config: SubAgentConfig)
        ensures
            final(self).agents@ == with_entry(
                old(self).agents@,
                (SubAgentConfig { enabled: true, ..config }),
            ),
    {
        let config = SubAgentConfig { enabled: true, ..config };
        match self.position(config.role) {
            Some(i) => {
                self.agents[i] = config;
            },
            None => {
                self.agents.push(config);
            },
        }
    }

    /// Enables every entry and adds the mandatory roles that are not listed.
    pub fn normalized(self) -> (r: Self)
        ensures
            r.agents@.len() == self.agents@.len() + unlisted(
                self.agents@,
                SubAgentRole::ALL@,
            ).len(),
            forall|i: int|
                0 <= i < self.agents@.len() ==> enabled_copy(self.agents@[i], #[trigger] r.agents@[i]),
            forall|i: int|
                self.agents@.len() <= i < r.agents@.len() ==> inherits_all(
                    #[trigger] r.agents@[i],
                    unlisted(self.agents@, SubAgentRole::ALL@)[i - self.agents@.len()],
                ),
            forall|role: SubAgentRole| #[trigger]
                mandatory(role) ==> entry_for(r.agents@, role, 0) is Some,
    {
        let ghost first = self.agents@;
        let n: usize = self.agents.len();
        let mut agents: Vec<SubAgentConfig> = Vec::new();
        let mut i: usize = 0;
        while i < n
            invariant
                n == self.agents.len(),
                i <= n,
                first == self.agents@,
                agents@.len() == i,
                forall|j: int| 0 <= j < i ==> enabled_copy(first[j], #[trigger] agents@[j]),
            decreases n - i,
        {
            agents.push(SubAgentConfig { enabled: true, ..self.agents[i].clone() });
            i = i + 1;
        }
        let mut config = SwarmConfig { agents };
        let roles = SubAgentRole::ALL;
        let mut k: usize = 0;
        while k < 10
            invariant
                k <= 10,
                n == first.len(),
                roles == SubAgentRole::ALL,
                config.agents@.len() == n + unlisted(first, roles@.take(k as int)).len(),
                forall|j: int| 0 <= j < n ==> enabled_copy(first[j], #[trigger] config.agents@[j]),
                forall|j: int|
                    n <= j < config.agents@.len() ==> inherits_all(
                        #[trigger] config.agents@[j],
                        unlisted(first, roles@.take(k as int))[j - n],
                    ),
                forall|m: int|
                    0 <= m < k ==> entry_for(config.agents@, #[trigger] roles@[m], 0) is Some,
            decreases 10 - k,
        {
            let role = roles[k];
            proof {
                let earlier = roles@.take(k as int);
                assert(roles@.take(k + 1).drop_last() =~= earlier);
                lemma_unlisted(first, earlier);
                lemma_entry_for(config.agents@, role, 0);
                lemma_entry_for(first, role, 0);
                if let Some(p) = entry_for(first, role, 0) {
                    assert(config.agents@[p].role == role);
                }
                if let Some(p) = entry_for(config.agents@, role, 0) {
                    if p >= n {
                        assert(earlier.contains(config.agents@[p].role));
                        let m = choose|m: int| 0 <= m < k && #[trigger] earlier[m] == role;
                        assert(SubAgentRole::ALL@[m] == SubAgentRole::ALL@[k as int]);
                        assert(false);
                    }
                    assert(first[p].role == role);
                }
            }
            if config.position(role).is_none() {
                let ghost before = config.agents@;
                config.agents.push(SubAgentConfig::inherit(role));
                proof {
                    lemma_entry_for(before, role, 0);
                    lemma_entry_for(config.agents@, role, 0);
                    assert(config.agents@.last().role == role);
                    assert forall|m: int| 0 <= m < k implies entry_for(
                        config.agents@,
                        #[trigger] roles@[m],
                        0,
                    ) is Some by {
                        lemma_entry_for(before, roles@[m], 0);
                        lemma_entry_for(config.agents@, roles@[m], 0);
                        let p = entry_for(before, roles@[m], 0)->0;
                        assert(config.agents@[p] == before[p]);
                    }
                }
            }
            k = k + 1;
        }
        proof {
            assert(roles@.take(10) =~= SubAgentRole::ALL@);
            assert forall|role: SubAgentRole| #[trigger] mandatory(role) implies entry_for(
                config.agents@,
                role,
                0,
            ) is Some by {
                all_roles_are_mandatory(role);
                let m = choose|m: int| 0 <= m < SubAgentRole::ALL@.len() && SubAgentRole::ALL@[m]
                    == role;
                assert(roles@[m] == role);
            }
        }
        config
    }
}

/// What was set for a role is what the role has.
pub proof fn set_role_is_read_back(agents: Seq<SubAgentConfig>, config: SubAgentConfig)
    ensures
        entry_for(with_entry(agents, config), config.role, 0) is Some,
        forall|read: SubAgentConfig| #[trigger]
            configured(with_entry(agents, config), config.role, read) <==> enabled_copy(config, read),
{
    let after = with_entry(agents, config);
    lemma_entry_for(agents, config.role, 0);
    lemma_entry_for(after, config.role, 0);
    let i = match entry_for(agents, config.role, 0) {
        Some(i) => i,
        None => agents.len() as int,
    };
    assert(after[i] == config);
    assert forall|j: int| 0 <= j < i implies #[trigger] after[j].role != config.role by {
        assert(after[j] == agents[j]);
    }
}

/// Setting one role leaves every other as it was.
pub proof fn set_role_leaves_the_others(
    agents: Seq<SubAgentConfig>,
    config: SubAgentConfig,
    other: SubAgentRole,
    read: SubAgentConfig,
)
    requires
        other != config.role,
    ensures
        configured(with_entry(agents, config), other, read) == configured(agents, other, read),
{
    let after = with_entry(agents, config);
    lemma_entry_for(agents, config.role, 0);
    lemma_entry_for(agents, other, 0);
    lemma_entry_for(after, other, 0);
    assert forall|j: int| 0 <= j < agents.len() && #[trigger] agents[j].role == other implies after[j]
        == agents[j] by {}
    assert forall|j: int| 0 <= j < after.len() && #[trigger] after[j].role == other implies j
        < agents.len() && after[j] == agents[j] by {}
    if let Some(i) = entry_for(agents, other, 0) {
        assert(after[i].role == other);
    }
    if let Some(i) = entry_for(after, other, 0) {
        assert(agents[i].role == other);
    }
}

proof fn lemma_unlisted_role(agents: Seq<SubAgentConfig>, roles: Seq<SubAgentRole>, role: SubAgentRole)
    ensures
        unlisted(agents, roles).contains(role) <==> roles.contains(role) && entry_for(
            agents,
            role,
            0,
        ) is None,
    decreases roles.len(),
{
    if roles.len() > 0 {
        let rest = roles.drop_last();
        let kept = unlisted(agents, rest);
        lemma_unlisted_role(agents, rest, role);
        if roles.contains(role) {
            let i = choose|i: int| 0 <= i < roles.len() && roles[i] == role;
            if i < rest.len() {
                assert(rest[i] == role);
            }
        }
        if rest.contains(role) {
            let i = choose|i: int| 0 <= i < rest.len() && rest[i] == role;
            assert(roles[i] == role);
        }
        if entry_for(agents, roles.last(), 0) is None {
            let more = kept.push(roles.last());
            if kept.contains(role) {
                let i = choose|i: int| 0 <= i < kept.len() && kept[i] == role;
                assert(more[i] == role);
            }
            if role == roles.last() {
                assert(more[kept.len() as int] == role);
                assert(roles[roles.len() - 1] == role);
            }
            if more.contains(role) && !kept.contains(role) {
                let i = choose|i: int| 0 <= i < more.len() && more[i] == role;
                if i < kept.len() {
                    assert(kept[i] == role);
                }
                assert(roles[roles.len() - 1] == role);
            }
        }
    }
}

/// The roles that are missing from a list are those of all roles that no entry
/// is for.
pub proof fn missing_roles_are_found(
    agents: Seq<SubAgentConfig>,
    roles: Seq<SubAgentRole>,
    role: SubAgentRole,
)
    requires
        roles.contains(role),
    ensures
        (exists|i: int| 0 <= i < agents.len() && (#[trigger] agents[i]).role == role) ==> !unlisted(
            agents,
            roles,
        ).contains(role),
        (forall|i: int| 0 <= i < agents.len() ==> (#[trigger] agents[i]).role != role) ==> unlisted(
            agents,
            roles,
        ).contains(role),
{
    lemma_unlisted_role(agents, roles, role);
    lemma_entry_exists(agents, role, 0);
}

proof fn lemma_entry_exists(agents: Seq<SubAgentConfig>, role: SubAgentRole, from: int)
    requires
        0 <= from <= agents.len(),
    ensures
        entry_for(agents, role, from) is Some <==> exists|i: int|
            from <= i < agents.len() && (#[trigger] agents[i]).role == role,
        entry_for(agents, role, from) matches Some(i) ==> from <= i < agents.len() && agents[i].role
            == role,
    decreases agents.len() - from,
{
    if from < agents.len() {
        lemma_entry_exists(agents, role, from + 1);
        if agents[from].role == role {
            assert(agents[from].role == role);
        }
    }
}

/// A role is configured as its entry says, and always enabled; one without an
/// entry takes everything from the main agent.
pub proof fn roles_are_configured_by_their_entry(
    agents: Seq<SubAgentConfig>,
    role: SubAgentRole,
    config: SubAgentConfig,
)
    requires
        configured(agents, role, config),
    ensures
        config.enabled,
        config.role == role,
        (forall|i: int| 0 <= i < agents.len() ==> (#[trigger] agents[i]).role != role)
            ==> config.provider@.len() == 0 && config.model@.len() == 0 && config.base_url@.len()
            == 0 && config.system_prompt@.len() == 0 && config.memory_scope@.len() == 0,
        agents.len() > 0 && agents[0].role == role ==> config.provider == agents[0].provider
            && config.model == agents[0].model && config.base_url == agents[0].base_url
            && config.system_prompt == agents[0].system_prompt && config.memory_scope
            == agents[0].memory_scope,
{
    lemma_entry_exists(agents, role, 0);
}

} // verus!
