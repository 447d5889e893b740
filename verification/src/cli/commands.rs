//! What the commands decide and print.
use vstd::prelude::*;

use crate::chat::token_accounting::{ContextStatus, TokenGrowthReport};
use crate::cli::args::McpToolsArgs;
use crate::config::{AppConfig, McpServerConfig, ProfileConfig};
use crate::errors::AppError;
use crate::mcp::{stdio_label, McpConnection, McpToolInfo};
use crate::providers::validate_base_url;
use crate::secrets::{get_config_profile_token, SecretStore};
use crate::text::{cat2, cat3, cat4, cat5, clone_list, join, number_text, same, trim};

verus! {

broadcast use vstd::string::group_string_axioms;

/// The server that is asked unless another is named.
pub const DEFAULT_SERVER: &'static str = "filesystem";

/// Whether a server is the one that a command line describes itself: by a URL
/// first, else by a command.
pub open spec fn described(args: McpToolsArgs, r: Option<(String, McpServerConfig)>) -> bool {
    match args.url {
        Some(url) => r matches Some((label, server)) && label@ == url@ && (
        server matches McpServerConfig::Http { url: u } && u@ == url@),
        None => match args.command {
            Some(command) => r matches Some((label, server)) && label@ == crate::text::trimmed(
                command@ + " "@ + crate::text::joined(crate::text::texts(args.args@), " "@),
            ) && (server matches McpServerConfig::Stdio { command: c, args: a } && c@ == command@
                && crate::text::texts(a@) == crate::text::texts(args.args@)),
            None => r is None,
        },
    }
}

/// The server that a command line describes itself, without the configuration.
pub fn described_server(args: &McpToolsArgs) -> (r: Option<(String, McpServerConfig)>)
    ensures
        described(*args, r),
{
    if let Some(url) = &args.url {
        return Some((url.clone(), McpServerConfig::Http { url: url.clone() }));
    }
    if let Some(command) = &args.command {
        let label = stdio_label(command.as_str(), &args.args);
        return Some(
            (
                trim(label.as_str()).to_string(),
                McpServerConfig::Stdio { command: command.clone(), args: clone_list(&args.args) },
            ),
        );
    }
    None
}

/// The name of the configured server that a command line asks for.
pub open spec fn asked_server(args: McpToolsArgs) -> Seq<char> {
    match args.server {
        Some(name) => name@,
        None => DEFAULT_SERVER@,
    }
}

/// The server that a command line asks for: one that it describes itself comes
/// before one of the configuration.
pub fn resolve_server(args: &McpToolsArgs, config: &AppConfig) -> (r: Result<
    (String, McpServerConfig),
    AppError,
>)
    ensures
        if args.url is Some || args.command is Some {
            r matches Ok(found) && described(*args, Some(found))
        } else if config.mcp_servers.map().dom().contains(asked_server(*args)) {
            r matches Ok((label, server)) && label@ == asked_server(*args)
                && crate::config::same_server(server, config.mcp_servers.map()[asked_server(*args)])
        } else {
            r matches Err(AppError::Mcp(message)) && message@ == "MCP server '"@ + asked_server(
                *args,
            ) + "' is not configured"@
        },
{
    if let Some(found) = described_server(args) {
        return Ok(found);
    }
    let name = match &args.server {
        Some(name) => name.as_str(),
        None => DEFAULT_SERVER,
    };
    match config.mcp_server(name) {
        Ok(server) => Ok((name.to_string(), server.clone())),
        Err(error) => Err(error),
    }
}

/// The line on a connection.
pub open spec fn connection_line_of(connection: McpConnection) -> Seq<char> {
    "Connected to "@ + connection.server_name@ + (match connection.server_version {
        Some(version) => " v"@ + version@,
        None => ""@,
    }) + " ("@ + crate::text::decimal(connection.tool_count as nat) + " tools)"@
}

/// The line on a connection.
pub fn connection_line(connection: &McpConnection) -> (r: String)
    ensures
        r@ == connection_line_of(*connection),
{
    let version = match &connection.server_version {
        Some(version) => cat2(" v", version.as_str()),
        None => "".to_string(),
    };
    let count = number_text(connection.tool_count as u64);
    cat5(
        "Connected to ",
        connection.server_name.as_str(),
        version.as_str(),
        " (",
        cat2(count.as_str(), " tools)").as_str(),
    )
}

/// The line of a tool.
pub fn tool_line(tool: &McpToolInfo) -> (r: String)
    ensures
        r@ == (match tool.description {
            Some(description) => "- "@ + tool.name@ + ": "@ + description@,
            None => "- "@ + tool.name@,
        }),
{
    match &tool.description {
        Some(description) => cat4("- ", tool.name.as_str(), ": ", description.as_str()),
        None => cat2("- ", tool.name.as_str()),
    }
}

/// A file that goes with a prompt: its label and its content.
#[derive(Debug, PartialEq, Eq)]
pub struct AttachedFile {
    pub label: String,
    pub content: String,
}

/// A file as it stands behind a prompt.
pub open spec fn attachment(file: AttachedFile) -> Seq<char> {
    "--- "@ + file.label@ + " ---\n"@ + file.content@
}

/// The parts of a prompt with files.
pub open spec fn prompt_parts(prompt: Seq<char>, files: Seq<AttachedFile>) -> Seq<Seq<char>> {
    seq![prompt] + Seq::new(files.len(), |i: int| attachment(files[i]))
}

/// A prompt with the files that go with it, each behind its label.
pub fn build_prompt_with_files(prompt: &str, files: &Vec<AttachedFile>) -> (r: String)
    ensures
        r@ == crate::text::joined(prompt_parts(prompt@, files@), "\n\n"@),
{
    let mut parts: Vec<String> = Vec::new();
    parts.push(prompt.to_string());
    let mut i: usize = 0;
    assert(crate::text::texts(parts@) =~= prompt_parts(prompt@, files@.take(0)));
    while i < files.len()
        invariant
            i <= files.len(),
            crate::text::texts(parts@) == prompt_parts(prompt@, files@.take(i as int)),
        decreases files.len() - i,
    {
        let ghost before = crate::text::texts(parts@);
        let file = &files[i];
        parts.push(cat4("--- ", file.label.as_str(), " ---\n", file.content.as_str()));
        assert(crate::text::texts(parts@) =~= before.push(attachment(*file)));
        assert(prompt_parts(prompt@, files@.take(i + 1)) =~= prompt_parts(
            prompt@,
            files@.take(i as int),
        ).push(attachment(*file)));
        i = i + 1;
    }
    assert(files@.take(i as int) =~= files@);
    join(&parts, "\n\n")
}

/// The error for a file that cannot be read.
pub fn unreadable_file(path: &str, reason: &str) -> (r: AppError)
    ensures
        r matches AppError::InvalidInput(message) && message@ == "Cannot read file '"@ + path@
            + "': "@ + reason@,
{
    AppError::InvalidInput(cat4("Cannot read file '", path, "': ", reason))
}

/// A comparison of ways to stop needs a field to be filled.
pub fn check_required_fields(fields: &Vec<String>) -> (r: Result<(), AppError>)
    ensures
        if fields@.len() == 0 {
            r matches Err(AppError::InvalidInput(message)) && message@
                == "compare-goal requires at least one --required-field"@
        } else {
            r is Ok
        },
{
    if fields.is_empty() {
        return Err(
            AppError::InvalidInput(
                "compare-goal requires at least one --required-field".to_string(),
            ),
        );
    }
    Ok(())
}

/// The line of a profile in a list.
pub open spec fn listed(
    name: Seq<char>,
    profile: ProfileConfig,
    active: bool,
    has_token: bool,
) -> Seq<char> {
    (if active {
        "* "@
    } else {
        "  "@
    }) + name + " ["@ + crate::providers::provider_name(profile.provider) + "] "@ + profile.model@
        + (if has_token {
        " token: present"@
    } else {
        " token: missing"@
    })
}

/// The line of a profile in a list.
pub fn profile_list_line(
    name: &str,
    profile: &ProfileConfig,
    active: bool,
    has_token: bool,
) -> (r: String)
    ensures
        r@ == listed(name@, *profile, active, has_token),
{
    let mark = if active {
        "* "
    } else {
        "  "
    };
    let token = if has_token {
        " token: present"
    } else {
        " token: missing"
    };
    let head = cat5(mark, name, " [", profile.provider.name(), "] ");
    cat3(head.as_str(), profile.model.as_str(), token)
}

/// The line of the profile at `index` in the list of the profiles, which looks
/// its token up.
pub fn profile_line_at<S: SecretStore>(
    secrets: &mut S,
    config: &AppConfig,
    index: usize,
) -> (r: Result<String, AppError>)
    requires
        index < config.profiles@.len(),
    ensures
        r matches Ok(line) ==> {
            let entry = config.profiles@[index as int];
            &&& line@ == listed(
                entry.0,
                entry.1,
                crate::text::option_text(config.active_profile) == Some(entry.0),
                crate::secrets::shared_token(
                    old(secrets).tokens(),
                    config.profiles@,
                    entry.0,
                    entry.1,
                ) is Some,
            )
            &&& final(secrets).tokens() == crate::secrets::tokens_after_search(
                old(secrets).tokens(),
                config.profiles@,
                entry.0,
                entry.1,
            )
        },
        old(secrets).answers() ==> r is Ok && final(secrets).answers(),
{
    let name = config.profiles.key_at(index);
    let profile = config.profiles.value_at(index);
    let active = match &config.active_profile {
        Some(active) => same(active.as_str(), name.as_str()),
        None => false,
    };
    match get_config_profile_token(secrets, config, name.as_str(), profile) {
        Ok(found) => Ok(profile_list_line(name.as_str(), profile, active, found.is_some())),
        Err(error) => Err(error),
    }
}

/// What the check of a profile says of it, once its base URL was accepted.
pub open spec fn doctor_texts(name: Seq<char>, profile: ProfileConfig) -> Seq<Seq<char>> {
    seq![
        "Profile: "@ + name,
        "Provider: "@ + crate::providers::provider_name(profile.provider),
        "Model: "@ + profile.model@,
        "Base URL: valid"@,
    ]
}

/// What the check of a profile says of its token.
pub open spec fn token_text(present: bool) -> Seq<char> {
    if present {
        "Token: present"@
    } else {
        "Token: missing"@
    }
}

/// What the check of a profile says of it, once its base URL was accepted.
pub fn doctor_lines(name: &str, profile: &ProfileConfig) -> (r: Vec<String>)
    ensures
        crate::text::texts(r@) == doctor_texts(name@, *profile),
{
    let mut lines: Vec<String> = Vec::new();
    lines.push(cat2("Profile: ", name));
    lines.push(cat2("Provider: ", profile.provider.name()));
    lines.push(cat2("Model: ", profile.model.as_str()));
    lines.push("Base URL: valid".to_string());
    assert(crate::text::texts(lines@) =~= doctor_texts(name@, *profile));
    lines
}

/// What the check of a profile says of its token: whether there is one, and
/// nothing more.
pub fn doctor_token_line(token: &Option<String>) -> (r: &'static str)
    ensures
        r@ == token_text(token is Some),
{
    if token.is_some() {
        "Token: present"
    } else {
        "Token: missing"
    }
}

/// What the check of the selected profile says: the lines, then the result.
/// `found` is whether the profile finds a token, or the error of the store.
pub open spec fn doctor_says(
    config: AppConfig,
    requested: Option<&str>,
    found: Result<bool, AppError>,
    lines: Seq<Seq<char>>,
    r: Result<(), AppError>,
) -> bool {
    match crate::config::selected_name(config.active_profile, requested) {
        None => lines.len() == 0 && r matches Err(AppError::NoActiveProfile),
        Some(name) => if !config.profiles.map().dom().contains(name) {
            lines.len() == 0 && (r matches Err(AppError::ProfileMissing(n)) && n@ == name)
        } else {
            let profile = config.profiles.map()[name];
            if crate::providers::usable_scheme(crate::providers::url_scheme(profile.base_url@)) {
                match found {
                    Ok(present) => lines == doctor_texts(name, profile).push(token_text(present))
                        && r is Ok,
                    Err(error) => lines == doctor_texts(name, profile) && r
                        == Err::<(), AppError>(error),
                }
            } else {
                lines.len() == 0 && (r matches Err(AppError::InvalidBaseUrl { profile: n, url })
                    && n@ == name && url@ == profile.base_url@)
            }
        },
    }
}

/// Whether `found` is what a store with `tokens` has for the selected profile,
/// unless it is an error.
pub open spec fn searched(
    config: AppConfig,
    requested: Option<&str>,
    tokens: Map<Seq<char>, Seq<char>>,
    found: Result<bool, AppError>,
) -> bool {
    match (crate::config::selected_name(config.active_profile, requested), found) {
        (Some(name), Ok(present)) => config.profiles.map().dom().contains(name) ==> present == (
        crate::secrets::shared_token(
            tokens,
            config.profiles@,
            name,
            config.profiles.map()[name],
        ) is Some),
        _ => true,
    }
}

/// Checks the selected profile: its base URL, and whether it has a token. A
/// store that errs ends the check after the lines on the profile.
pub fn doctor<S: SecretStore>(
    config: &AppConfig,
    requested: Option<&str>,
    secrets: &mut S,
) -> (r: (Vec<String>, Result<(), AppError>))
    ensures
        exists|found: Result<bool, AppError>| #[trigger]
            doctor_says(*config, requested, found, crate::text::texts(r.0@), r.1) && searched(
                *config,
                requested,
                old(secrets).tokens(),
                found,
            ) && (old(secrets).answers() ==> found is Ok),
        r.1 is Ok ==> (crate::config::selected_name(config.active_profile, requested) matches Some(
            name,
        ) && final(secrets).tokens() == crate::secrets::tokens_after_search(
            old(secrets).tokens(),
            config.profiles@,
            name,
            config.profiles.map()[name],
        )),
        old(secrets).answers() ==> final(secrets).answers(),
{
    let ghost tokens = secrets.tokens();
    let mut r: (Vec<String>, Result<(), AppError>) = (Vec::new(), Ok(()));
    assert(crate::text::texts(r.0@) =~= Seq::<Seq<char>>::empty());
    let (name, profile) = match config.selected_profile(requested) {
        Ok(selected) => selected,
        Err(error) => {
            r.1 = Err(error);
            assert(doctor_says(*config, requested, Ok(true), crate::text::texts(r.0@), r.1));
            return r;
        },
    };
    let ghost present = crate::secrets::shared_token(
        tokens,
        config.profiles@,
        name@,
        *profile,
    ) is Some;
    if let Err(error) = validate_base_url(name.as_str(), profile.base_url.as_str()) {
        r.1 = Err(error);
        assert(doctor_says(*config, requested, Ok(present), crate::text::texts(r.0@), r.1));
        return r;
    }
    r.0 = doctor_lines(name.as_str(), profile);
    match get_config_profile_token(secrets, config, name.as_str(), profile) {
        Ok(found) => {
            let ghost before = crate::text::texts(r.0@);
            r.0.push(doctor_token_line(&found).to_string());
            assert(crate::text::texts(r.0@) =~= before.push(token_text(found is Some)));
            assert(doctor_says(*config, requested, Ok(present), crate::text::texts(r.0@), r.1));
        },
        Err(error) => {
            r.1 = Err(error);
            assert(doctor_says(*config, requested, Err(error), crate::text::texts(r.0@), r.1));
        },
    }
    r
}

/// The check of a profile never tells a token: where the same references hold
/// tokens in two stores, and the stores answer or err alike, the lines are the
/// same and so is what is said of an error, whatever the tokens are.
pub proof fn doctor_tells_no_token(
    config: AppConfig,
    requested: Option<&str>,
    a: Map<Seq<char>, Seq<char>>,
    b: Map<Seq<char>, Seq<char>>,
    found_a: Result<bool, AppError>,
    found_b: Result<bool, AppError>,
    lines_a: Seq<Seq<char>>,
    lines_b: Seq<Seq<char>>,
    r_a: Result<(), AppError>,
    r_b: Result<(), AppError>,
)
    requires
        a.dom() == b.dom(),
        searched(config, requested, a, found_a),
        searched(config, requested, b, found_b),
        found_a is Err || found_b is Err ==> found_a == found_b,
        doctor_says(config, requested, found_a, lines_a, r_a),
        doctor_says(config, requested, found_b, lines_b, r_b),
    ensures
        lines_a == lines_b,
        r_a is Ok <==> r_b is Ok,
        r_a is Err ==> crate::errors::error_text(r_a->Err_0) == crate::errors::error_text(
            r_b->Err_0,
        ),
{
    if let Some(name) = crate::config::selected_name(config.active_profile, requested) {
        crate::secrets::presence_depends_on_references(
            a,
            b,
            config.profiles@,
            name,
            config.profiles.map()[name],
        );
    }
    if lines_a.len() == 0 {
        assert(lines_a =~= lines_b);
    }
}

/// What is left of the context, written as a number.
pub open spec fn remaining_text(limit: int, total: int) -> Seq<char> {
    if total > limit {
        "-"@ + crate::text::decimal((total - limit) as nat)
    } else {
        crate::text::decimal((limit - total) as nat)
    }
}

/// What a growth report comes to: what breaks, else what is left of the context;
/// nothing for a report without turns.
pub open spec fn conclusion(report: TokenGrowthReport) -> Option<Seq<char>> {
    match report.breakage {
        Some(breakage) => Some("Что ломается: "@ + breakage@),
        None => if report.rows@.len() == 0 {
            None
        } else {
            Some(
                "Итог: помещается, запас контекста "@ + remaining_text(
                    report.context_limit as int,
                    report.rows@.last().total_tokens as int,
                ) + " токенов."@,
            )
        },
    }
}

/// What a growth report comes to: what breaks, else what is left of the context.
pub fn report_conclusion(report: &TokenGrowthReport) -> (r: Option<String>)
    ensures
        crate::text::option_text(r) == conclusion(*report),
{
    if let Some(breakage) = &report.breakage {
        return Some(cat2("Что ломается: ", breakage.as_str()));
    }
    if report.rows.is_empty() {
        return None;
    }
    let limit: u32 = report.context_limit;
    let total: u32 = report.rows[report.rows.len() - 1].total_tokens;
    let remaining = if total > limit {
        cat2("-", number_text((total - limit) as u64).as_str())
    } else {
        number_text((limit - total) as u64)
    };
    Some(cat3("Итог: помещается, запас контекста ", remaining.as_str(), " токенов."))
}

/// What a status of the context is called.
pub fn format_status(status: ContextStatus) -> (r: &'static str)
    ensures
        r@ == (match status {
            ContextStatus::Fits => "fits"@,
            ContextStatus::NearLimit => "near-limit"@,
            ContextStatus::Overflow => "overflow"@,
        }),
{
    match status {
        ContextStatus::Fits => "fits",
        ContextStatus::NearLimit => "near-limit",
        ContextStatus::Overflow => "overflow",
    }
}

/// A prompt with files holds the prompt and, of every file, the label and behind
/// it the whole content.
pub proof fn a_prompt_holds_its_files(prompt: Seq<char>, files: Seq<AttachedFile>, i: int)
    requires
        0 <= i < files.len(),
    ensures
        ({
            let whole = crate::text::joined(prompt_parts(prompt, files), "\n\n"@);
            &&& crate::text::contains_text(whole, prompt)
            &&& crate::text::one_after_other(whole, files[i].label@, files[i].content@)
        }),
{
    let none = Seq::<char>::empty();
    let parts = prompt_parts(prompt, files);
    let whole = crate::text::joined(parts, "\n\n"@);
    crate::text::joined_texts_hold_their_parts(parts, "\n\n"@, 0);
    crate::text::joined_texts_hold_their_parts(parts, "\n\n"@, i + 1);
    let part = parts[i + 1];
    crate::text::lemma_one_after_other(
        "--- "@,
        files[i].label@,
        " ---\n"@,
        files[i].content@,
        none,
    );
    assert("--- "@ + files[i].label@ + " ---\n"@ + files[i].content@ + none =~= part);
    crate::text::lemma_order_through(files[i].label@, files[i].content@, part, whole);
}

/// The line of a profile tells its name and, behind it, its model; the active one
/// is marked, and whether there is a token is told, not the token.
pub proof fn a_profiles_line_tells_what_it_is(
    name: Seq<char>,
    profile: ProfileConfig,
    active: bool,
    has_token: bool,
)
    ensures
        crate::text::one_after_other(
            listed(name, profile, active, has_token),
            name,
            profile.model@,
        ),
        crate::text::contains_text(
            listed(name, profile, active, has_token),
            crate::providers::provider_name(profile.provider),
        ),
        listed(name, profile, active, has_token).len() > 0,
        (listed(name, profile, active, has_token)[0] == '*') == active,
        has_token ==> crate::text::contains_text(
            listed(name, profile, active, has_token),
            "present"@,
        ),
        !has_token ==> crate::text::contains_text(
            listed(name, profile, active, has_token),
            "missing"@,
        ),
{
    let none = Seq::<char>::empty();
    let line = listed(name, profile, active, has_token);
    let mark = if active {
        "* "@
    } else {
        "  "@
    };
    let provider = crate::providers::provider_name(profile.provider);
    let end = if has_token {
        " token: present"@
    } else {
        " token: missing"@
    };
    reveal_strlit("* ");
    reveal_strlit("  ");
    assert(line[0] == mark[0]);
    crate::text::lemma_one_after_other(
        mark,
        name,
        " ["@ + provider + "] "@,
        profile.model@,
        end,
    );
    assert(mark + name + (" ["@ + provider + "] "@) + profile.model@ + end =~= line);
    crate::text::lemma_part_occurs(mark + name + " ["@, provider, "] "@ + profile.model@ + end);
    assert(mark + name + " ["@ + provider + ("] "@ + profile.model@ + end) =~= line);
    let head = mark + name + " ["@ + provider + "] "@ + profile.model@;
    reveal_strlit(" token: present");
    reveal_strlit(" token: missing");
    reveal_strlit(" token: ");
    reveal_strlit("present");
    reveal_strlit("missing");
    let word = if has_token {
        "present"@
    } else {
        "missing"@
    };
    assert(end =~= " token: "@ + word);
    crate::text::lemma_part_occurs(head + " token: "@, word, none);
    assert(head + " token: "@ + word + none =~= line);
}

/// A server that is described by an address is reached there, one that is
/// described by a command is started with all its arguments; an address comes
/// before a command, and without either none is described.
pub proof fn servers_are_described_by_address_or_command(
    args: McpToolsArgs,
    r: Option<(String, McpServerConfig)>,
)
    requires
        described(args, r),
    ensures
        args.url is Some ==> r is Some && ((r->0).1 matches McpServerConfig::Http { url } && url@
            == args.url->0@),
        args.url is None && args.command is Some ==> r is Some && ((
        r->0).1 matches McpServerConfig::Stdio { command, args: given } && command@
            == args.command->0@ && crate::text::texts(given@) == crate::text::texts(args.args@)),
        args.url is None && args.command is None ==> r is None,
{
}

/// What is left of a limit is told with its sign.
pub proof fn what_is_left_has_its_sign(limit: int, total: int)
    requires
        limit >= 0,
        total >= 0,
    ensures
        total <= limit ==> crate::text::digits_value(remaining_text(limit, total)) == limit - total,
        total > limit ==> remaining_text(limit, total).len() > 0 && remaining_text(limit, total)[0]
            == '-' && crate::text::digits_value(remaining_text(limit, total).skip(1)) == total
            - limit,
{
    if total <= limit {
        crate::text::digits_are_read_back((limit - total) as nat);
    } else {
        let n = (total - limit) as nat;
        crate::text::digits_are_read_back(n);
        reveal_strlit("-");
        assert(("-"@ + crate::text::decimal(n)).skip(1) =~= crate::text::decimal(n));
    }
}

/// A report that breaks off says what breaks; one that does not says how much is
/// left after its last row; one without rows says nothing.
pub proof fn reports_conclude_with_what_counts(report: TokenGrowthReport)
    ensures
        report.breakage matches Some(t) ==> conclusion(report) is Some
            && crate::text::contains_text(conclusion(report)->0, t@),
        report.breakage is None && report.rows@.len() == 0 ==> conclusion(report) is None,
        report.breakage is None && report.rows@.len() > 0 ==> conclusion(report) is Some
            && crate::text::contains_text(
            conclusion(report)->0,
            remaining_text(
                report.context_limit as int,
                report.rows@[report.rows@.len() - 1].total_tokens as int,
            ),
        ),
{
    let none = Seq::<char>::empty();
    if let Some(t) = report.breakage {
        crate::text::lemma_part_occurs("Что ломается: "@, t@, none);
        assert("Что ломается: "@ + t@ + none =~= "Что ломается: "@ + t@);
    } else if report.rows@.len() > 0 {
        crate::text::lemma_part_occurs(
            "Итог: помещается, запас контекста "@,
            remaining_text(
                report.context_limit as int,
                report.rows@.last().total_tokens as int,
            ),
            " токенов."@,
        );
    }
}

/// A server that is asked for by name is that one; without a name it is the one
/// for files.
pub proof fn servers_are_asked_for_by_name(args: McpToolsArgs)
    ensures
        args.server matches Some(name) ==> asked_server(args) == name@,
        args.server is None ==> asked_server(args) == "filesystem"@,
{
}

/// The line on a connection names the server and, behind it, its version, where
/// one is known, and how many tools it has.
pub proof fn connections_are_told_by_name_and_tools(connection: McpConnection)
    ensures
        crate::text::one_after_other(
            connection_line_of(connection),
            connection.server_name@,
            crate::text::decimal(connection.tool_count as nat),
        ),
        connection.server_version matches Some(version) ==> crate::text::one_after_other(
            connection_line_of(connection),
            connection.server_name@,
            version@,
        ),
{
    let line = connection_line_of(connection);
    let name = connection.server_name@;
    let count = crate::text::decimal(connection.tool_count as nat);
    let version = match connection.server_version {
        Some(version) => " v"@ + version@,
        None => ""@,
    };
    crate::text::lemma_one_after_other(
        "Connected to "@,
        name,
        version + " ("@,
        count,
        " tools)"@,
    );
    assert("Connected to "@ + name + (version + " ("@) + count + " tools)"@ =~= line);
    if let Some(v) = connection.server_version {
        let after = " ("@ + count + " tools)"@;
        crate::text::lemma_one_after_other("Connected to "@, name, " v"@, v@, after);
        assert("Connected to "@ + name + " v"@ + v@ + after =~= line);
    }
}

/// The diagnosis of a profile names it, its provider and its model, line by line,
/// and says whether there is a token.
pub proof fn a_diagnosis_names_the_profile(name: Seq<char>, profile: ProfileConfig)
    ensures
        crate::text::contains_text(doctor_texts(name, profile)[0], name),
        crate::text::contains_text(
            doctor_texts(name, profile)[1],
            crate::providers::provider_name(profile.provider),
        ),
        crate::text::contains_text(doctor_texts(name, profile)[2], profile.model@),
        token_text(true) == "Token: present"@,
        token_text(false) == "Token: missing"@,
{
    let none = Seq::<char>::empty();
    let provider = crate::providers::provider_name(profile.provider);
    crate::text::lemma_part_occurs("Profile: "@, name, none);
    assert("Profile: "@ + name + none =~= "Profile: "@ + name);
    crate::text::lemma_part_occurs("Provider: "@, provider, none);
    assert("Provider: "@ + provider + none =~= "Provider: "@ + provider);
    crate::text::lemma_part_occurs("Model: "@, profile.model@, none);
    assert("Model: "@ + profile.model@ + none =~= "Model: "@ + profile.model@);
}

} // verus!
