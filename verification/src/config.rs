//! The configuration: profiles, the active one, and the MCP servers.
use vstd::prelude::*;

use crate::errors::AppError;
use crate::providers::ProviderKind;
use crate::text::{cat3, same};
use crate::text_map::TextMap;

verus! {

broadcast use vstd::string::group_string_axioms;

/// A provider with the model and the base URL to use it with.
#[derive(Debug, PartialEq, Eq)]
pub struct ProfileConfig {
    pub provider: ProviderKind,
    pub model: String,
    pub base_url: String,
    pub token_ref: String,
}

impl Clone for ProfileConfig {
    fn clone(&self) -> (r: Self)
        ensures
            r == *self,
    {
        ProfileConfig {
            provider: self.provider,
            model: self.model.clone(),
            base_url: self.base_url.clone(),
            token_ref: self.token_ref.clone(),
        }
    }
}

/// An MCP server: a local child process or a remote streamable HTTP endpoint.
#[derive(Debug, PartialEq, Eq)]
pub enum McpServerConfig {
    Stdio { command: String, args: Vec<String> },
    Http { url: String },
}

/// Whether two server descriptions are the same.
pub open spec fn same_server(a: McpServerConfig, b: McpServerConfig) -> bool {
    match (a, b) {
        (
            McpServerConfig::Stdio { command: ca, args: aa },
            McpServerConfig::Stdio { command: cb, args: ab },
        ) => ca == cb && aa@ == ab@,
        (McpServerConfig::Http { url: ua }, McpServerConfig::Http { url: ub }) => ua == ub,
        _ => false,
    }
}

impl Clone for McpServerConfig {
    fn clone(&self) -> (r: Self)
        ensures
            same_server(r, *self),
    {
        match self {
            McpServerConfig::Stdio { command, args } => McpServerConfig::Stdio {
                command: command.clone(),
                args: crate::text::clone_list(args),
            },
            McpServerConfig::Http { url } => McpServerConfig::Http { url: url.clone() },
        }
    }
}

/// The configuration. Profiles and servers are listed in the order of their
/// names.
pub struct AppConfig {
    pub active_profile: Option<String>,
    pub profiles: TextMap<ProfileConfig>,
    pub mcp_servers: TextMap<McpServerConfig>,
}

/// Whether `server` is the reference filesystem server, launched for the
/// current directory.
pub open spec fn filesystem_server(server: McpServerConfig) -> bool {
    server matches McpServerConfig::Stdio { command, args } && command@ == "npx"@
        && crate::text::texts(args@) == seq![
        "-y"@,
        "@modelcontextprotocol/server-filesystem"@,
        "."@,
    ]
}

/// Whether `servers` holds the filesystem server and nothing else.
pub open spec fn default_servers(servers: Map<Seq<char>, McpServerConfig>) -> bool {
    servers.dom() == set!["filesystem"@] && filesystem_server(servers["filesystem"@])
}

/// The server that is there out of the box.
pub fn default_mcp_servers() -> (r: TextMap<McpServerConfig>)
    ensures
        default_servers(r.map()),
{
    let mut servers: TextMap<McpServerConfig> = TextMap::new();
    let args = vec![
        "-y".to_string(),
        "@modelcontextprotocol/server-filesystem".to_string(),
        ".".to_string(),
    ];
    assert(crate::text::texts(args@) =~= seq![
        "-y"@,
        "@modelcontextprotocol/server-filesystem"@,
        "."@,
    ]);
    let server = McpServerConfig::Stdio { command: "npx".to_string(), args };
    servers.insert("filesystem".to_string(), server);
    assert(servers.map().dom() =~= set!["filesystem"@]);
    servers
}

impl Default for AppConfig {
    fn default() -> (r: Self)
        ensures
            r.active_profile is None,
            r.profiles.map() == Map::<Seq<char>, ProfileConfig>::empty(),
            r.profiles@.len() == 0,
            default_servers(r.mcp_servers.map()),
    {
        AppConfig {
            active_profile: None,
            profiles: TextMap::new(),
            mcp_servers: default_mcp_servers(),
        }
    }
}

/// The profile as it is stored under its provider's token reference.
pub open spec fn stored_profile(profile: ProfileConfig, stored: ProfileConfig) -> bool {
    &&& stored.provider == profile.provider
    &&& stored.model == profile.model
    &&& stored.base_url == profile.base_url
    &&& stored.token_ref@ == crate::providers::provider_name(profile.provider)
}

/// The name of the profile to use: the one asked for, else the active one.
pub open spec fn selected_name(active: Option<String>, requested: Option<&str>) -> Option<
    Seq<char>,
> {
    match requested {
        Some(name) => Some(name@),
        None => crate::text::option_text(active),
    }
}

impl AppConfig {
    /// Whether the active profile, where there is one, is a profile.
    pub open spec fn active_exists(&self) -> bool {
        self.active_profile matches Some(name) ==> self.profiles.map().dom().contains(name@)
    }

    /// Which configuration file is read: the current one where it is there, else
    /// the one of the former name where that is there, else the current one.
    pub fn existing_config_path(
        path: String,
        path_exists: bool,
        legacy_path: String,
        legacy_exists: bool,
    ) -> (r: String)
        ensures
            r == (if path_exists || !legacy_exists {
                path
            } else {
                legacy_path
            }),
    {
        if path_exists {
            return path;
        }
        if legacy_exists {
            return legacy_path;
        }
        path
    }

    /// Stores a profile under `name`, with the token reference of its provider.
    /// The first profile becomes the active one.
    pub fn add_profile(&mut self, name: String, profile: ProfileConfig)
        ensures
            exists|stored: ProfileConfig| #[trigger]
                stored_profile(profile, stored) && final(self).profiles.map() == old(self).profiles.map().insert(name@, stored),
            crate::text_map::sorted_keys(final(self).profiles@),
            final(self).active_profile == (if old(self).active_profile is Some {
                old(self).active_profile
            } else {
                Some(name)
            }),
            final(self).mcp_servers == old(self).mcp_servers,
            old(self).active_exists() ==> final(self).active_exists(),
    {
        let stored = ProfileConfig { token_ref: token_ref(&profile.provider), ..profile };
        assert(stored_profile(profile, stored));
        self.profiles.insert(name.clone(), stored);
        if self.active_profile.is_none() {
            self.active_profile = Some(name);
        }
    }

    /// Makes `name` the active profile, where it is a profile.
    pub fn use_profile(&mut self, name: &str) -> (r: Result<(), AppError>)
        ensures
            final(self).profiles == old(self).profiles,
            final(self).mcp_servers == old(self).mcp_servers,
            if old(self).profiles.map().dom().contains(name@) {
                r is Ok && crate::text::option_text(final(self).active_profile) == Some(name@)
            } else {
                (r matches Err(AppError::ProfileMissing(n)) && n@ == name@) && final(self).active_profile == old(self).active_profile
            },
            old(self).active_exists() ==> final(self).active_exists(),
    {
        if !self.profiles.contains_key(name) {
            return Err(AppError::ProfileMissing(name.to_string()));
        }
        self.active_profile = Some(name.to_string());
        Ok(())
    }

    /// Takes a profile out. Where it was the active one, the first of the
    /// remaining profiles becomes active.
    pub fn remove_profile(&mut self, name: &str) -> (r: Result<ProfileConfig, AppError>)
        ensures
            final(self).mcp_servers == old(self).mcp_servers,
            final(self).profiles.map() == old(self).profiles.map().remove(name@),
            crate::text_map::sorted_keys(final(self).profiles@),
            if old(self).profiles.map().dom().contains(name@) {
                &&& r == Ok::<ProfileConfig, AppError>(old(self).profiles.map()[name@])
                &&& crate::text::option_text(final(self).active_profile) == (
                if crate::text::option_text(old(self).active_profile) == Some(name@) {
                    if final(self).profiles@.len() > 0 {
                        Some(final(self).profiles@[0].0)
                    } else {
                        None
                    }
                } else {
                    crate::text::option_text(old(self).active_profile)
                })
            } else {
                (r matches Err(AppError::ProfileMissing(n)) && n@ == name@) && final(self).active_profile == old(self).active_profile
            },
            old(self).active_exists() ==> final(self).active_exists(),
    {
        let removed = match self.profiles.remove(name) {
            Some(profile) => profile,
            None => {
                return Err(AppError::ProfileMissing(name.to_string()));
            },
        };
        let was_active = match &self.active_profile {
            Some(active) => same(active.as_str(), name),
            None => false,
        };
        if was_active {
            self.active_profile = if self.profiles.len() > 0 {
                let first = self.profiles.key_at(0).clone();
                assert(crate::text_map::has_key(self.profiles@, first@)) by {
                    assert(self.profiles@[0].0 == first@);
                }
                Some(first)
            } else {
                None
            };
        }
        Ok(removed)
    }

    /// The profile to use: the one asked for, else the active one.
    pub fn selected_profile(&self, requested: Option<&str>) -> (r: Result<
        (String, &ProfileConfig),
        AppError,
    >)
        ensures
            match selected_name(self.active_profile, requested) {
                None => r matches Err(AppError::NoActiveProfile),
                Some(name) => if self.profiles.map().dom().contains(name) {
                    r matches Ok((n, profile)) && n@ == name && *profile
                        == self.profiles.map()[name]
                } else {
                    r matches Err(AppError::ProfileMissing(n)) && n@ == name
                },
            },
    {
        let name = match requested {
            Some(value) => value.to_string(),
            None => match &self.active_profile {
                Some(active) => active.clone(),
                None => {
                    return Err(AppError::NoActiveProfile);
                },
            },
        };
        match self.profiles.get(name.as_str()) {
            Some(profile) => Ok((name, profile)),
            None => Err(AppError::ProfileMissing(name)),
        }
    }

    /// The MCP server with the name `name`.
    pub fn mcp_server(&self, name: &str) -> (r: Result<&McpServerConfig, AppError>)
        ensures
            if self.mcp_servers.map().dom().contains(name@) {
                r matches Ok(server) && *server == self.mcp_servers.map()[name@]
            } else {
                r matches Err(AppError::Mcp(message)) && message@ == "MCP server '"@ + name@
                    + "' is not configured"@
            },
    {
        match self.mcp_servers.get(name) {
            Some(server) => Ok(server),
            None => Err(AppError::Mcp(cat3("MCP server '", name, "' is not configured"))),
        }
    }
}

/// The reference under which a provider's token is stored.
pub fn token_ref(provider: &ProviderKind) -> (r: String)
    ensures
        r@ == crate::providers::provider_name(*provider),
{
    provider.name().to_string()
}

/// The reference under which a profile's own token was stored.
pub open spec fn legacy_ref(provider: ProviderKind, profile_name: Seq<char>) -> Seq<char> {
    crate::providers::provider_name(provider) + ":"@ + profile_name
}

/// The reference under which a profile's own token was stored.
pub fn legacy_token_ref(provider: &ProviderKind, profile_name: &str) -> (r: String)
    ensures
        r@ == legacy_ref(*provider, profile_name@),
{
    cat3(provider.name(), ":", profile_name)
}

/// A profile that is asked for by name is the one that is used, whichever is
/// active; without a name it is the active one.
pub proof fn a_requested_profile_comes_first(
    active: Option<String>,
    other: Option<String>,
    requested: &str,
)
    ensures
        selected_name(active, Some(requested)) == Some(requested@),
        selected_name(active, Some(requested)) == selected_name(other, Some(requested)),
        active matches Some(name) ==> selected_name(active, None) == Some(name@),
        active is None ==> selected_name(active, None) is None,
{
}

/// The token of a provider is stored under its name alone, so that two profiles
/// of one provider share it; the former place holds the name of the profile too.
pub proof fn profiles_share_the_token_of_their_provider(
    a: ProfileConfig,
    b: ProfileConfig,
    stored_a: ProfileConfig,
    stored_b: ProfileConfig,
    name: Seq<char>,
)
    requires
        stored_profile(a, stored_a),
        stored_profile(b, stored_b),
        a.provider == b.provider,
    ensures
        stored_a.token_ref@ == stored_b.token_ref@,
        stored_a.model == a.model && stored_a.base_url == a.base_url && stored_a.provider
            == a.provider,
        crate::text::one_after_other(
            legacy_ref(a.provider, name),
            stored_a.token_ref@,
            name,
        ),
{
    let none = Seq::<char>::empty();
    let provider = crate::providers::provider_name(a.provider);
    crate::text::lemma_one_after_other(none, provider, ":"@, name, none);
    assert(none + provider + ":"@ + name + none =~= legacy_ref(a.provider, name));
}

/// Without a configuration there is one server, for files, started by its command
/// on the current directory.
pub proof fn the_default_server_is_for_files(servers: Map<Seq<char>, McpServerConfig>)
    requires
        default_servers(servers),
    ensures
        servers.contains_key("filesystem"@),
        forall|name: Seq<char>| #[trigger] servers.contains_key(name) ==> name == "filesystem"@,
        servers["filesystem"@] matches McpServerConfig::Stdio { command, args } && command@
            == "npx"@ && args@.len() == 3 && args@[1]@ == "@modelcontextprotocol/server-filesystem"@
            && args@[2]@ == "."@,
{
    assert(servers.dom().contains("filesystem"@));
    assert forall|name: Seq<char>| #[trigger] servers.contains_key(name) implies name
        == "filesystem"@ by {
        assert(servers.dom().contains(name));
    }
    match servers["filesystem"@] {
        McpServerConfig::Stdio { command, args } => {
            let told = crate::text::texts(args@);
            assert(told.len() == args@.len());
            assert(told[1] == args@[1]@);
            assert(told[2] == args@[2]@);
        },
        McpServerConfig::Http { url } => {},
    }
}

} // verus!
