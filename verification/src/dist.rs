//! Downloadable builds: where one is fetched from, where it is installed, and
//! whether it may be.
use vstd::prelude::*;

use crate::errors::AppError;
use crate::text::{cat3, cat4, cat5, strip_trailing_char};

verus! {

broadcast use vstd::string::group_string_axioms;

/// Where the builds are published.
pub const DEFAULT_REPO_URL: &'static str = "https://github.com/Langepas94/ai-playground";

/// The channel that is installed unless another is named.
pub const DEFAULT_CHANNEL: &'static str = "dev";

/// What is installed, and where.
#[derive(Debug, PartialEq, Eq)]
pub struct DistConfig {
    pub repo_url: String,
    pub channel: String,
    pub asset_name: String,
    pub install_path: String,
    pub url_override: Option<String>,
}

/// What is known of an installation.
#[derive(Debug, PartialEq, Eq)]
pub struct DistStatus {
    pub install_path: String,
    pub download_url: String,
    pub installed: bool,
    pub executable: bool,
}

/// What an installation came to.
#[derive(Debug, PartialEq, Eq)]
pub struct DistInstallResult {
    pub install_path: String,
    pub download_url: String,
    pub bytes_written: u64,
}

/// The first text that there is, else the default.
pub open spec fn chosen(first: Option<String>, second: Option<String>, default: Seq<char>) -> Seq<
    char,
> {
    match first {
        Some(text) => text@,
        None => match second {
            Some(text) => text@,
            None => default,
        },
    }
}

fn choose_text(first: Option<String>, second: Option<String>, default: &str) -> (r: String)
    ensures
        r@ == chosen(first, second, default@),
{
    match first {
        Some(text) => text,
        None => match second {
            Some(text) => text,
            None => default.to_string(),
        },
    }
}

/// What is installed, and where: the environment may name another repository and
/// another channel, and a channel that is asked for comes before both.
pub fn default_config(
    channel: Option<String>,
    repo_of_environment: Option<String>,
    channel_of_environment: Option<String>,
    asset_name: String,
    install_path: String,
    url: Option<String>,
) -> (r: DistConfig)
    ensures
        r.repo_url@ == chosen(repo_of_environment, None, DEFAULT_REPO_URL@),
        r.channel@ == chosen(channel, channel_of_environment, DEFAULT_CHANNEL@),
        r.asset_name == asset_name,
        r.install_path == install_path,
        r.url_override == url,
{
    DistConfig {
        repo_url: choose_text(repo_of_environment, None, DEFAULT_REPO_URL),
        channel: choose_text(channel, channel_of_environment, DEFAULT_CHANNEL),
        asset_name,
        install_path,
        url_override: url,
    }
}

/// Where a build is fetched from: a URL that is given, else the asset of the
/// channel's release.
pub open spec fn fetched_from(config: DistConfig) -> Seq<char> {
    match config.url_override {
        Some(url) => url@,
        None => crate::text::strip_trailing(config.repo_url@, '/') + "/releases/download/"@
            + config.channel@ + "/"@ + config.asset_name@,
    }
}

/// Where a build is fetched from.
pub fn download_url(config: &DistConfig) -> (r: String)
    ensures
        r@ == fetched_from(*config),
{
    match &config.url_override {
        Some(url) => url.clone(),
        None => cat5(
            strip_trailing_char(config.repo_url.as_str(), '/'),
            "/releases/download/",
            config.channel.as_str(),
            "/",
            config.asset_name.as_str(),
        ),
    }
}

/// Whether a file that exists may be run, from the bits of its mode; where files
/// have none, it may.
pub fn is_executable(exists: bool, mode: Option<u32>) -> (r: bool)
    ensures
        r == (exists && (mode matches Some(bits) ==> bits & 0o111 != 0)),
{
    if !exists {
        return false;
    }
    match mode {
        Some(bits) => bits & 0o111 != 0,
        None => true,
    }
}

/// What is known of an installation.
pub fn status(config: &DistConfig, installed: bool, executable: bool) -> (r: DistStatus)
    ensures
        r.install_path@ == config.install_path@,
        r.download_url@ == fetched_from(*config),
        r.installed == installed,
        r.executable == executable,
{
    DistStatus {
        install_path: config.install_path.clone(),
        download_url: download_url(config),
        installed,
        executable,
    }
}

/// Refuses to replace a file unless that is asked for.
pub fn check_overwrite(config: &DistConfig, exists: bool, overwrite: bool) -> (r: Result<
    (),
    AppError,
>)
    ensures
        if exists && !overwrite {
            r matches Err(AppError::InvalidInput(message)) && message@
                == "Binary already exists at "@ + config.install_path@
                + ". Use --overwrite to replace it."@
        } else {
            r is Ok
        },
{
    if exists && !overwrite {
        return Err(
            AppError::InvalidInput(
                cat3(
                    "Binary already exists at ",
                    config.install_path.as_str(),
                    ". Use --overwrite to replace it.",
                ),
            ),
        );
    }
    Ok(())
}

/// What an installation came to.
pub fn installed(config: &DistConfig, bytes_written: u64) -> (r: DistInstallResult)
    ensures
        r.install_path@ == config.install_path@,
        r.download_url@ == fetched_from(*config),
        r.bytes_written == bytes_written,
{
    DistInstallResult {
        install_path: config.install_path.clone(),
        download_url: download_url(config),
        bytes_written,
    }
}

/// The name of the asset for a system.
pub open spec fn asset_of(os: Seq<char>, arch: Seq<char>, windows: bool) -> Seq<char> {
    let name = "ai-"@ + os + "-"@ + arch;
    if windows {
        name + ".exe"@
    } else {
        name
    }
}

/// The name of the asset for a system.
pub fn target_asset_name(os: &str, arch: &str, windows: bool) -> (r: String)
    ensures
        r@ == asset_of(os@, arch@, windows),
{
    let mut name = cat4("ai-", os, "-", arch);
    if windows {
        name.append(".exe");
    }
    name
}

/// The name of the installed file.
pub fn binary_filename(windows: bool) -> (r: &'static str)
    ensures
        r@ == (if windows {
            "ai.exe"@
        } else {
            "ai"@
        }),
{
    if windows {
        "ai.exe"
    } else {
        "ai"
    }
}

/// A line on where the default build is to be had.
pub fn default_release_note(repo_of_environment: Option<String>, asset_name: &str) -> (r: String)
    ensures
        r@ == "Downloadable dev build: "@ + chosen(repo_of_environment, None, DEFAULT_REPO_URL@)
            + "/releases/download/"@ + DEFAULT_CHANNEL@ + "/"@ + asset_name@,
{
    let repo = choose_text(repo_of_environment, None, DEFAULT_REPO_URL);
    let head = cat4("Downloadable dev build: ", repo.as_str(), "/releases/download/", DEFAULT_CHANNEL);
    cat3(head.as_str(), "/", asset_name)
}

/// Where a build is installed unless another place is named: below the home
/// directory, else below the data directory, else here.
pub fn suggested_install_dir(home_bin: Option<String>, data_bin: Option<String>) -> (r: String)
    ensures
        r@ == chosen(home_bin, data_bin, "."@),
{
    choose_text(home_bin, data_bin, ".")
}

/// A configured address is fetched from as it is; any other is made of the
/// repository, the channel and the asset, in this order, with or without a slash
/// at the end of the repository.
pub proof fn assets_are_fetched_from_their_channel(config: DistConfig, other: DistConfig)
    ensures
        config.url_override matches Some(url) ==> fetched_from(config) == url@,
        config.url_override is None ==> crate::text::one_after_other(
            fetched_from(config),
            config.channel@,
            config.asset_name@,
        ),
        config.url_override is None && other.url_override is None && other.repo_url@
            == config.repo_url@.push('/') && other.channel == config.channel && other.asset_name
            == config.asset_name ==> fetched_from(other) == fetched_from(config),
{
    let none = Seq::<char>::empty();
    let base = crate::text::strip_trailing(config.repo_url@, '/') + "/releases/download/"@;
    crate::text::lemma_one_after_other(base, config.channel@, "/"@, config.asset_name@, none);
    if config.url_override is None {
        assert(base + config.channel@ + "/"@ + config.asset_name@ + none =~= fetched_from(config));
        let longer = config.repo_url@.push('/');
        assert(longer.drop_last() =~= config.repo_url@);
        assert(crate::text::strip_trailing(longer, '/') == crate::text::strip_trailing(
            config.repo_url@,
            '/',
        ));
    }
}

/// The name of an asset tells the system and, behind it, the architecture; on
/// Windows it ends in `.exe`.
pub proof fn assets_are_named_after_their_target(os: Seq<char>, arch: Seq<char>, windows: bool)
    ensures
        crate::text::one_after_other(asset_of(os, arch, windows), os, arch),
        asset_of(os, arch, true) == asset_of(os, arch, false) + ".exe"@,
{
    let none = Seq::<char>::empty();
    let after = if windows {
        ".exe"@
    } else {
        none
    };
    crate::text::lemma_one_after_other("ai-"@, os, "-"@, arch, after);
    assert("ai-"@ + os + "-"@ + arch + after =~= asset_of(os, arch, windows));
}

/// What is given first counts before what is given second, and that before the
/// default.
pub proof fn what_is_given_counts_before_the_default(
    first: Option<String>,
    second: Option<String>,
    default: Seq<char>,
)
    ensures
        first matches Some(text) ==> chosen(first, second, default) == text@,
        first is None && (second matches Some(text)) ==> chosen(first, second, default)
            == second->0@,
        first is None && second is None ==> chosen(first, second, default) == default,
{
}

} // verus!
