//! The swarm as it runs: each role with the profile, the token and the prompt
//! that it uses.
use vstd::prelude::*;

use crate::chat::swarm::config::{SubAgentConfig, SubAgentRole, SwarmConfig};
use crate::config::{token_ref, AppConfig, ProfileConfig};
use crate::errors::AppError;
use crate::providers::ProviderKind;
use crate::secrets::{get_config_profile_token, SecretStore};
use crate::text::{is_blank, trim};

verus! {

broadcast use vstd::string::group_string_axioms;

/// A role with everything that a request of its own needs.
#[derive(Debug, PartialEq, Eq)]
pub struct ResolvedSubAgent {
    pub role: SubAgentRole,
    /// Always true: no role is disabled.
    pub enabled: bool,
    pub profile: ProfileConfig,
    pub token: String,
    /// Empty for the default prompt of the role.
    pub system_prompt: String,
    /// Empty for the default memory of the role.
    pub memory_scope: String,
    /// Whether the provider, the model and the token are the main agent's.
    pub inherits: bool,
}

/// The roles of one swarm.
#[derive(Debug, PartialEq, Eq)]
pub struct ResolvedSwarm {
    agents: Vec<ResolvedSubAgent>,
}

/// The first agent for `role` from `from` on.
pub open spec fn agent_for(agents: Seq<ResolvedSubAgent>, role: SubAgentRole, from: int) -> Option<
    int,
>
    decreases agents.len() - from,
{
    if from < 0 || from >= agents.len() {
        None
    } else if agents[from].role == role {
        Some(from)
    } else {
        agent_for(agents, role, from + 1)
    }
}

/// Whether `agent` takes everything from the main agent.
pub open spec fn inherits_main(
    agent: ResolvedSubAgent,
    role: SubAgentRole,
    main: ProfileConfig,
    main_token: Seq<char>,
) -> bool {
    &&& agent.role == role
    &&& agent.enabled
    &&& agent.profile == main
    &&& agent.token@ == main_token
    &&& agent.system_prompt@.len() == 0
    &&& agent.memory_scope@.len() == 0
    &&& agent.inherits
}

impl View for ResolvedSwarm {
    type V = Seq<ResolvedSubAgent>;

    closed spec fn view(&self) -> Seq<ResolvedSubAgent> {
        self.agents@
    }
}

impl ResolvedSwarm {
    /// No role at all.
    pub fn empty() -> (r: Self)
        ensures
            r@ == Seq::<ResolvedSubAgent>::empty(),
    {
        ResolvedSwarm { agents: Vec::new() }
    }

    /// Every mandatory role, taking everything from the main agent.
    pub fn inherit_all(main_profile: &ProfileConfig, main_token: &str) -> (r: Self)
        ensures
            r@.len() == 10,
            forall|i: int|
                0 <= i < 10 ==> inherits_main(
                    #[trigger] r@[i],
                    SubAgentRole::ALL@[i],
                    *main_profile,
                    main_token@,
                ),
    {
        let roles = SubAgentRole::ALL;
        let mut agents: Vec<ResolvedSubAgent> = Vec::new();
        let mut i: usize = 0;
        while i < 10
            invariant
                i <= 10,
                roles == SubAgentRole::ALL,
                agents@.len() == i,
                forall|j: int|
                    0 <= j < i ==> inherits_main(
                        #[trigger] agents@[j],
                        SubAgentRole::ALL@[j],
                        *main_profile,
                        main_token@,
                    ),
            decreases 10 - i,
        {
            agents.push(
                ResolvedSubAgent {
                    role: roles[i],
                    enabled: true,
                    profile: main_profile.clone(),
                    token: main_token.to_string(),
                    system_prompt: String::new(),
                    memory_scope: String::new(),
                    inherits: true,
                },
            );
            i = i + 1;
        }
        ResolvedSwarm { agents }
    }

    /// The agent of a role.
    pub fn for_role(&self, role: SubAgentRole) -> (r: Option<&ResolvedSubAgent>)
        ensures
            match agent_for(self@, role, 0) {
                Some(i) => 0 <= i < self@.len() && r == Some(&self@[i]) && self@[i].role == role,
                None => r is None,
            },
    {
        let mut i: usize = 0;
        while i < self.agents.len()
            invariant
                i <= self.agents.len(),
                self@ == self.agents@,
                agent_for(self@, role, 0) == agent_for(self@, role, i as int),
            decreases self.agents.len() - i,
        {
            if self.agents[i].role == role {
                return Some(&self.agents[i]);
            }
            i = i + 1;
        }
        None
    }

    /// Whether a role takes part: every role does.
    pub fn is_enabled(&self, role: SubAgentRole) -> (r: bool)
        ensures
            r,
    {
        true
    }

    /// The agents, in the order of the roles.
    pub fn agents(&self) -> (r: &[ResolvedSubAgent])
        ensures
            r@ == self@,
    {
        self.agents.as_slice()
    }
}

/// What stands in `own` where it is not blank, else `default`.
pub open spec fn or_default(own: Seq<char>, default: Seq<char>) -> Seq<char> {
    if crate::text::blank(own) {
        default
    } else {
        crate::text::trimmed(own)
    }
}

/// The provider that a configuration names, else the main agent's.
pub open spec fn custom_provider(cfg: SubAgentConfig, main: ProfileConfig) -> ProviderKind {
    match crate::providers::provider_named(
        crate::text::ascii_lower(crate::text::trimmed(cfg.provider@)),
    ) {
        Some(kind) => kind,
        None => main.provider,
    }
}

/// Whether `profile` is what a configuration with a provider of its own makes:
/// gaps are filled from the main agent where the provider is the same, else
/// from the provider's defaults. So the main agent's token is never looked up
/// for another provider.
pub open spec fn custom_profile(
    cfg: SubAgentConfig,
    main: ProfileConfig,
    profile: ProfileConfig,
) -> bool {
    let provider = custom_provider(cfg, main);
    &&& profile.provider == provider
    &&& profile.base_url@ == or_default(
        cfg.base_url@,
        if provider == main.provider {
            main.base_url@
        } else {
            crate::providers::provider_base_url(provider)
        },
    )
    &&& profile.model@ == or_default(
        cfg.model@,
        if provider == main.provider {
            main.model@
        } else {
            crate::providers::provider_model(provider)
        },
    )
    &&& profile.token_ref@ == (if provider == main.provider {
        main.token_ref@
    } else {
        crate::providers::provider_name(provider)
    })
}

/// Whether `profile` is the main agent's with the model of the configuration,
/// where it names one.
pub open spec fn main_profile_with_model(
    cfg: SubAgentConfig,
    main: ProfileConfig,
    profile: ProfileConfig,
) -> bool {
    &&& profile.provider == main.provider
    &&& profile.base_url == main.base_url
    &&& profile.token_ref == main.token_ref
    &&& profile.model@ == or_default(cfg.model@, main.model@)
}

/// What every resolved agent keeps of its configuration.
pub open spec fn keeps_config(cfg: SubAgentConfig, agent: ResolvedSubAgent) -> bool {
    &&& agent.role == cfg.role
    &&& agent.enabled
    &&& agent.system_prompt@ == crate::text::trimmed(cfg.system_prompt@)
    &&& agent.memory_scope@ == crate::text::trimmed(cfg.memory_scope@)
}

/// Whether `agent` is `cfg` resolved: with the main agent's credentials where it
/// names no provider; with a profile of its own where a token for that is
/// found; else with everything of the main agent's. `before` and `after` are
/// the stored tokens.
pub open spec fn resolved_as(
    cfg: SubAgentConfig,
    main: ProfileConfig,
    main_token: Seq<char>,
    profiles: Seq<(Seq<char>, ProfileConfig)>,
    before: Map<Seq<char>, Seq<char>>,
    after: Map<Seq<char>, Seq<char>>,
    agent: ResolvedSubAgent,
) -> bool {
    &&& keeps_config(cfg, agent)
    &&& if crate::chat::swarm::config::uses_main_provider(cfg) {
        &&& main_profile_with_model(cfg, main, agent.profile)
        &&& agent.token@ == main_token
        &&& agent.inherits == crate::text::blank(cfg.model@)
        &&& after == before
    } else {
        exists|custom: ProfileConfig| #[trigger]
            custom_profile(cfg, main, custom) && after == crate::secrets::tokens_after_search(
                before,
                profiles,
                "swarm-subagent"@,
                custom,
            ) && match crate::secrets::shared_token(before, profiles, "swarm-subagent"@, custom) {
                Some(token) => agent.profile == custom && agent.token@ == token && !agent.inherits,
                None => agent.profile == main && agent.token@ == main_token && agent.inherits,
            }
    }
}

/// What holds of a resolved agent whatever the store answers: a profile of its
/// own has the token that is stored for it, and no other. `before` and `after`
/// are the stored tokens.
pub open spec fn resolved_shape(
    cfg: SubAgentConfig,
    main: ProfileConfig,
    main_token: Seq<char>,
    profiles: Seq<(Seq<char>, ProfileConfig)>,
    before: Map<Seq<char>, Seq<char>>,
    after: Map<Seq<char>, Seq<char>>,
    agent: ResolvedSubAgent,
) -> bool {
    &&& keeps_config(cfg, agent)
    &&& if crate::chat::swarm::config::uses_main_provider(cfg) {
        &&& main_profile_with_model(cfg, main, agent.profile)
        &&& agent.token@ == main_token
        &&& agent.inherits == crate::text::blank(cfg.model@)
        &&& after == before
    } else if agent.inherits {
        agent.profile == main && agent.token@ == main_token
    } else {
        &&& custom_profile(cfg, main, agent.profile)
        &&& crate::secrets::shared_token(before, profiles, "swarm-subagent"@, agent.profile)
            == Some(agent.token@)
        &&& after == crate::secrets::tokens_after_search(
            before,
            profiles,
            "swarm-subagent"@,
            agent.profile,
        )
    }
}

fn own_or_default(own: &str, default: &str) -> (r: String)
    ensures
        r@ == or_default(own@, default@),
{
    if is_blank(own) {
        default.to_string()
    } else {
        trim(own).to_string()
    }
}

/// A role with a profile of its own, given what the store has for that profile:
/// without a token, or with an error, the role answers with everything of the
/// main agent's.
pub fn with_found_token(
    cfg: &SubAgentConfig,
    main_profile: &ProfileConfig,
    main_token: &str,
    profile: ProfileConfig,
    found: Result<Option<String>, AppError>,
) -> (r: ResolvedSubAgent)
    ensures
        keeps_config(*cfg, r),
        match found {
            Ok(Some(token)) => r.profile == profile && r.token == token && !r.inherits,
            _ => r.profile == *main_profile && r.token@ == main_token@ && r.inherits,
        },
{
    let system_prompt = trim(cfg.system_prompt.as_str()).to_string();
    let memory_scope = trim(cfg.memory_scope.as_str()).to_string();
    match found {
        Ok(Some(token)) => ResolvedSubAgent {
            role: cfg.role,
            enabled: true,
            profile,
            token,
            system_prompt,
            memory_scope,
            inherits: false,
        },
        _ => ResolvedSubAgent {
            role: cfg.role,
            enabled: true,
            profile: main_profile.clone(),
            token: main_token.to_string(),
            system_prompt,
            memory_scope,
            inherits: true,
        },
    }
}

/// Resolves one role.
pub fn resolve_one<S: SecretStore>(
    cfg: &SubAgentConfig,
    main_profile: &ProfileConfig,
    main_token: &str,
    app_config: &AppConfig,
    secrets: &mut S,
) -> (r: ResolvedSubAgent)
    ensures
        resolved_shape(
            *cfg,
            *main_profile,
            main_token@,
            app_config.profiles@,
            old(secrets).tokens(),
            final(secrets).tokens(),
            r,
        ),
        old(secrets).answers() ==> final(secrets).answers() && resolved_as(
            *cfg,
            *main_profile,
            main_token@,
            app_config.profiles@,
            old(secrets).tokens(),
            final(secrets).tokens(),
            r,
        ),
{
    if cfg.inherits_provider() {
        let profile = ProfileConfig {
            model: own_or_default(cfg.model.as_str(), main_profile.model.as_str()),
            ..main_profile.clone()
        };
        return ResolvedSubAgent {
            role: cfg.role,
            enabled: true,
            profile,
            token: main_token.to_string(),
            system_prompt: trim(cfg.system_prompt.as_str()).to_string(),
            memory_scope: trim(cfg.memory_scope.as_str()).to_string(),
            inherits: is_blank(cfg.model.as_str()),
        };
    }
    let provider = match ProviderKind::parse(trim(cfg.provider.as_str())) {
        Ok(kind) => kind,
        Err(_) => main_profile.provider,
    };
    let same_provider = provider == main_profile.provider;
    let base_url = if same_provider {
        own_or_default(cfg.base_url.as_str(), main_profile.base_url.as_str())
    } else {
        own_or_default(cfg.base_url.as_str(), provider.default_base_url())
    };
    let model = if same_provider {
        own_or_default(cfg.model.as_str(), main_profile.model.as_str())
    } else {
        own_or_default(cfg.model.as_str(), provider.default_model())
    };
    let token_ref = if same_provider {
        main_profile.token_ref.clone()
    } else {
        token_ref(&provider)
    };
    let profile = ProfileConfig { provider, model, base_url, token_ref };
    assert(custom_profile(*cfg, *main_profile, profile));
    let found = get_config_profile_token(secrets, app_config, "swarm-subagent", &profile);
    with_found_token(cfg, main_profile, main_token, profile, found)
}

/// Whether `agent` has the shape of what `config` has for `role`.
pub open spec fn shaped_for(
    config: SwarmConfig,
    role: SubAgentRole,
    main: ProfileConfig,
    main_token: Seq<char>,
    profiles: Seq<(Seq<char>, ProfileConfig)>,
    before: Map<Seq<char>, Seq<char>>,
    after: Map<Seq<char>, Seq<char>>,
    agent: ResolvedSubAgent,
) -> bool {
    exists|cfg: SubAgentConfig|
        crate::chat::swarm::config::configured(config.agents@, role, cfg)
            && #[trigger] resolved_shape(cfg, main, main_token, profiles, before, after, agent)
}

/// Whether `agents` have the shape of the mandatory roles of `config`, with
/// `states` the stored tokens before each and at the end.
pub open spec fn shaped_in_turn(
    config: SwarmConfig,
    main: ProfileConfig,
    main_token: Seq<char>,
    profiles: Seq<(Seq<char>, ProfileConfig)>,
    states: Seq<Map<Seq<char>, Seq<char>>>,
    agents: Seq<ResolvedSubAgent>,
) -> bool {
    &&& states.len() == agents.len() + 1
    &&& forall|i: int|
        0 <= i < agents.len() ==> (#[trigger] agents[i]).role == SubAgentRole::ALL@[i]
            && shaped_for(
            config,
            SubAgentRole::ALL@[i],
            main,
            main_token,
            profiles,
            states[i],
            states[i + 1],
            agents[i],
        )
}

/// Whether `agent` is what `config` has for `role`, resolved.
pub open spec fn resolved_for(
    config: SwarmConfig,
    role: SubAgentRole,
    main: ProfileConfig,
    main_token: Seq<char>,
    profiles: Seq<(Seq<char>, ProfileConfig)>,
    before: Map<Seq<char>, Seq<char>>,
    after: Map<Seq<char>, Seq<char>>,
    agent: ResolvedSubAgent,
) -> bool {
    exists|cfg: SubAgentConfig|
        crate::chat::swarm::config::configured(config.agents@, role, cfg)
            && #[trigger] resolved_as(cfg, main, main_token, profiles, before, after, agent)
}

/// Whether `agents` are the mandatory roles of `config` resolved one after the
/// other, with `states` the stored tokens before each and at the end.
pub open spec fn resolved_in_turn(
    config: SwarmConfig,
    main: ProfileConfig,
    main_token: Seq<char>,
    profiles: Seq<(Seq<char>, ProfileConfig)>,
    states: Seq<Map<Seq<char>, Seq<char>>>,
    agents: Seq<ResolvedSubAgent>,
) -> bool {
    &&& states.len() == agents.len() + 1
    &&& forall|i: int|
        0 <= i < agents.len() ==> resolved_for(
            config,
            SubAgentRole::ALL@[i],
            main,
            main_token,
            profiles,
            states[i],
            states[i + 1],
            #[trigger] agents[i],
        )
}

/// Resolves every mandatory role, in order.
pub fn resolve_swarm<S: SecretStore>(
    main_profile: &ProfileConfig,
    main_token: &str,
    config: &SwarmConfig,
    app_config: &AppConfig,
    secrets: &mut S,
) -> (r: ResolvedSwarm)
    ensures
        r@.len() == 10,
        exists|states: Seq<Map<Seq<char>, Seq<char>>>| #[trigger]
            shaped_in_turn(
                *config,
                *main_profile,
                main_token@,
                app_config.profiles@,
                states,
                r@,
            ) && states[0] == old(secrets).tokens() && states.last() == final(secrets).tokens() && (
            old(secrets).answers() ==> resolved_in_turn(
                *config,
                *main_profile,
                main_token@,
                app_config.profiles@,
                states,
                r@,
            )),
        old(secrets).answers() ==> final(secrets).answers(),
{
    let roles = SubAgentRole::ALL;
    let mut agents: Vec<ResolvedSubAgent> = Vec::new();
    let ghost mut states: Seq<Map<Seq<char>, Seq<char>>> = seq![secrets.tokens()];
    let mut i: usize = 0;
    while i < 10
        invariant
            i <= 10,
            roles == SubAgentRole::ALL,
            agents@.len() == i,
            states.len() == i + 1,
            states[0] == old(secrets).tokens(),
            states.last() == secrets.tokens(),
            shaped_in_turn(
                *config,
                *main_profile,
                main_token@,
                app_config.profiles@,
                states,
                agents@,
            ),
            old(secrets).answers() ==> secrets.answers() && resolved_in_turn(
                *config,
                *main_profile,
                main_token@,
                app_config.profiles@,
                states,
                agents@,
            ),
        decreases 10 - i,
    {
        let cfg = config.get(roles[i]);
        let ghost before = states;
        let ghost list = agents@;
        let agent = resolve_one(&cfg, main_profile, main_token, app_config, secrets);
        proof {
            states = before.push(secrets.tokens());
        }
        agents.push(agent);
        proof {
            assert forall|j: int| 0 <= j < agents@.len() implies (
            #[trigger] agents@[j]).role == SubAgentRole::ALL@[j] && shaped_for(
                *config,
                SubAgentRole::ALL@[j],
                *main_profile,
                main_token@,
                app_config.profiles@,
                states[j],
                states[j + 1],
                agents@[j],
            ) by {
                if j < i {
                    assert(agents@[j] == list[j]);
                    assert(states[j] == before[j] && states[j + 1] == before[j + 1]);
                } else {
                    assert(states[j] == before.last());
                    assert(resolved_shape(
                        cfg,
                        *main_profile,
                        main_token@,
                        app_config.profiles@,
                        states[j],
                        states[j + 1],
                        agents@[j],
                    ));
                }
            }
            if old(secrets).answers() {
                assert forall|j: int| 0 <= j < agents@.len() implies resolved_for(
                    *config,
                    SubAgentRole::ALL@[j],
                    *main_profile,
                    main_token@,
                    app_config.profiles@,
                    states[j],
                    states[j + 1],
                    #[trigger] agents@[j],
                ) by {
                    if j < i {
                        assert(agents@[j] == list[j]);
                        assert(states[j] == before[j] && states[j + 1] == before[j + 1]);
                    } else {
                        assert(states[j] == before.last());
                        assert(resolved_as(
                            cfg,
                            *main_profile,
                            main_token@,
                            app_config.profiles@,
                            states[j],
                            states[j + 1],
                            agents@[j],
                        ));
                    }
                }
            }
        }
        i = i + 1;
    }
    let r = ResolvedSwarm { agents };
    assert(r@ == agents@);
    assert(shaped_in_turn(
        *config,
        *main_profile,
        main_token@,
        app_config.profiles@,
        states,
        r@,
    ));
    r
}

/// A role without a provider and a model of its own answers with the main
/// agent's profile and token.
pub proof fn unset_role_is_the_main_agent(
    cfg: SubAgentConfig,
    main: ProfileConfig,
    main_token: Seq<char>,
    profiles: Seq<(Seq<char>, ProfileConfig)>,
    before: Map<Seq<char>, Seq<char>>,
    after: Map<Seq<char>, Seq<char>>,
    agent: ResolvedSubAgent,
)
    requires
        crate::chat::swarm::config::uses_main_provider(cfg),
        crate::text::blank(cfg.model@),
        resolved_shape(cfg, main, main_token, profiles, before, after, agent),
    ensures
        agent.inherits,
        agent.token@ == main_token,
        agent.profile.provider == main.provider,
        agent.profile.model@ == main.model@,
        agent.profile.base_url == main.base_url,
{
}

/// A role with a provider of its own for which no token is stored answers with
/// the main agent's profile and token, and is marked so, whether the store
/// answers or errs.
pub proof fn role_without_token_is_the_main_agent(
    cfg: SubAgentConfig,
    main: ProfileConfig,
    main_token: Seq<char>,
    profiles: Seq<(Seq<char>, ProfileConfig)>,
    before: Map<Seq<char>, Seq<char>>,
    after: Map<Seq<char>, Seq<char>>,
    agent: ResolvedSubAgent,
)
    requires
        !crate::chat::swarm::config::uses_main_provider(cfg),
        forall|custom: ProfileConfig| #[trigger]
            custom_profile(cfg, main, custom) ==> crate::secrets::shared_token(
                before,
                profiles,
                "swarm-subagent"@,
                custom,
            ) is None,
        resolved_shape(cfg, main, main_token, profiles, before, after, agent),
    ensures
        agent.inherits,
        agent.profile == main,
        agent.token@ == main_token,
{
}

/// An agent of another provider than the main agent's has a token that is
/// stored for that provider, never the main agent's own.
pub proof fn token_belongs_to_the_provider(
    cfg: SubAgentConfig,
    main: ProfileConfig,
    main_token: Seq<char>,
    profiles: Seq<(Seq<char>, ProfileConfig)>,
    before: Map<Seq<char>, Seq<char>>,
    after: Map<Seq<char>, Seq<char>>,
    agent: ResolvedSubAgent,
)
    requires
        agent.profile.provider != main.provider,
        resolved_shape(cfg, main, main_token, profiles, before, after, agent),
    ensures
        !agent.inherits,
        crate::secrets::token_refs("swarm-subagent"@, agent.profile) == seq![
            crate::providers::provider_name(agent.profile.provider),
            crate::config::legacy_ref(agent.profile.provider, "swarm-subagent"@),
        ],
        crate::secrets::shared_token(before, profiles, "swarm-subagent"@, agent.profile) == Some(
            agent.token@,
        ),
        crate::secrets::lookup(
            after,
            crate::providers::provider_name(agent.profile.provider),
        ) == Some(agent.token@),
{
    crate::secrets::second_search_is_direct(before, profiles, "swarm-subagent"@, agent.profile);
}

/// Of two agents of one role the first counts, and a role without an agent has
/// none.
pub proof fn the_first_agent_of_a_role_counts(
    agents: Seq<ResolvedSubAgent>,
    role: SubAgentRole,
    from: int,
    k: int,
)
    requires
        0 <= from <= k <= agents.len(),
        k < agents.len() ==> agents[k].role == role,
        forall|j: int| from <= j < k ==> (#[trigger] agents[j]).role != role,
    ensures
        k < agents.len() ==> agent_for(agents, role, from) == Some(k),
        k == agents.len() ==> agent_for(agents, role, from) is None,
    decreases k - from,
{
    if from < k {
        assert(agents[from].role != role);
        the_first_agent_of_a_role_counts(agents, role, from + 1, k);
    }
}

/// An agent keeps what is configured for it: its role, its prompt and its memory.
/// On the main agent's provider it asks with the main agent's token, at the main
/// agent's address, and with a model of its own where one is named.
pub proof fn an_agent_on_the_main_provider_uses_its_token(
    cfg: SubAgentConfig,
    main: ProfileConfig,
    main_token: Seq<char>,
    profiles: Seq<(Seq<char>, ProfileConfig)>,
    before: Map<Seq<char>, Seq<char>>,
    after: Map<Seq<char>, Seq<char>>,
    agent: ResolvedSubAgent,
)
    requires
        resolved_as(cfg, main, main_token, profiles, before, after, agent),
        crate::text::blank(cfg.provider@),
        crate::text::blank(cfg.base_url@),
    ensures
        agent.role == cfg.role,
        agent.system_prompt@ == crate::text::trimmed(cfg.system_prompt@),
        agent.memory_scope@ == crate::text::trimmed(cfg.memory_scope@),
        agent.token@ == main_token,
        agent.profile.provider == main.provider,
        agent.profile.base_url == main.base_url,
        crate::text::blank(cfg.model@) ==> agent.profile.model@ == main.model@,
        !crate::text::blank(cfg.model@) ==> agent.profile.model@ == crate::text::trimmed(cfg.model@),
        after == before,
{
}

/// An agent with a provider of its own asks that provider, at the address and with
/// the model that are named, else at those of the provider, and never with a
/// token of another provider: without one it is the main agent.
pub proof fn an_agent_with_its_own_provider_asks_there(
    cfg: SubAgentConfig,
    main: ProfileConfig,
    main_token: Seq<char>,
    profiles: Seq<(Seq<char>, ProfileConfig)>,
    before: Map<Seq<char>, Seq<char>>,
    after: Map<Seq<char>, Seq<char>>,
    agent: ResolvedSubAgent,
    provider: ProviderKind,
)
    requires
        resolved_as(cfg, main, main_token, profiles, before, after, agent),
        !crate::text::blank(cfg.provider@),
        crate::providers::provider_named(
            crate::text::ascii_lower(crate::text::trimmed(cfg.provider@)),
        ) == Some(provider),
        provider != main.provider,
    ensures
        agent.inherits ==> agent.profile == main && agent.token@ == main_token,
        !agent.inherits ==> {
            &&& agent.profile.provider == provider
            &&& crate::text::blank(cfg.model@) ==> agent.profile.model@
                == crate::providers::provider_model(provider)
            &&& !crate::text::blank(cfg.model@) ==> agent.profile.model@ == crate::text::trimmed(
                cfg.model@,
            )
            &&& crate::text::blank(cfg.base_url@) ==> agent.profile.base_url@
                == crate::providers::provider_base_url(provider)
            &&& !crate::text::blank(cfg.base_url@) ==> agent.profile.base_url@
                == crate::text::trimmed(cfg.base_url@)
            &&& before.contains_key(crate::providers::provider_name(provider)) ==> agent.token@
                == before[crate::providers::provider_name(provider)]
        },
        before.contains_key(crate::providers::provider_name(provider)) ==> !agent.inherits,
{
    let custom = choose|custom: ProfileConfig| #[trigger]
        custom_profile(cfg, main, custom) && after == crate::secrets::tokens_after_search(
            before,
            profiles,
            "swarm-subagent"@,
            custom,
        ) && match crate::secrets::shared_token(before, profiles, "swarm-subagent"@, custom) {
            Some(token) => agent.profile == custom && agent.token@ == token && !agent.inherits,
            None => agent.profile == main && agent.token@ == main_token && agent.inherits,
        };
    crate::secrets::own_tokens_come_before_shared_ones(
        before,
        profiles,
        "swarm-subagent"@,
        custom,
    );
}

/// An agent that takes everything from the main agent asks with its profile and
/// its token, and has no prompt and no memory of its own.
pub proof fn an_inheriting_agent_is_the_main_agent(
    agent: ResolvedSubAgent,
    role: SubAgentRole,
    main: ProfileConfig,
    main_token: Seq<char>,
)
    requires
        inherits_main(agent, role, main, main_token),
    ensures
        agent.role == role && agent.enabled && agent.inherits,
        agent.profile == main && agent.token@ == main_token,
        agent.system_prompt@.len() == 0 && agent.memory_scope@.len() == 0,
{
}

/// Every role is resolved in its turn, and each role's configuration decides for
/// that role alone.
pub proof fn roles_are_resolved_one_by_one(
    config: SwarmConfig,
    main: ProfileConfig,
    main_token: Seq<char>,
    profiles: Seq<(Seq<char>, ProfileConfig)>,
    states: Seq<Map<Seq<char>, Seq<char>>>,
    agents: Seq<ResolvedSubAgent>,
    i: int,
)
    requires
        resolved_in_turn(config, main, main_token, profiles, states, agents),
        0 <= i < agents.len(),
        forall|j: int|
            0 <= j < config.agents@.len() ==> (#[trigger] config.agents@[j]).role
                != SubAgentRole::ALL@[i],
    ensures
        states.len() == agents.len() + 1,
        agents[i].role == SubAgentRole::ALL@[i],
        agents[i].token@ == main_token,
        agents[i].profile.provider == main.provider,
        agents[i].profile.model@ == main.model@,
        states[i + 1] == states[i],
{
    let role = SubAgentRole::ALL@[i];
    assert(resolved_for(
        config,
        role,
        main,
        main_token,
        profiles,
        states[i],
        states[i + 1],
        agents[i],
    ));
    let cfg = choose|cfg: SubAgentConfig|
        crate::chat::swarm::config::configured(config.agents@, role, cfg)
            && #[trigger] resolved_as(
            cfg,
            main,
            main_token,
            profiles,
            states[i],
            states[i + 1],
            agents[i],
        );
    crate::chat::swarm::config::roles_are_configured_by_their_entry(config.agents@, role, cfg);
    crate::text::trimming_takes_off_white_space_alone(cfg.provider@);
    crate::text::trimming_takes_off_white_space_alone(cfg.base_url@);
    crate::text::trimming_takes_off_white_space_alone(cfg.model@);
}

} // verus!
