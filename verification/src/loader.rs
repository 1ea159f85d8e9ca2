//! How the configuration layers are stacked, and where they are looked for.
//!
//! Layers, top overriding bottom: managed preferences, `managed_config.toml`,
//! the repository's `.codex/config.toml`, and the user's `config.toml` (the base).
//! Paths are held as strings and follow POSIX rules: `/` separates components and
//! a path is absolute when it starts with `/`.

use vstd::prelude::*;
use crate::config::{
    ConfigModel, ConfigValue, default_empty_table, merge_models, merge_toml_values,
    lookup, leaves_untouched, lemma_merge_overlay_wins, lemma_merge_keeps_base,
};

verus! {

/// The name of a configuration file in a configuration directory.
pub const CONFIG_TOML_FILE: &'static str = "config.toml";

/// The system-wide managed configuration file on Unix.
pub const CODEX_MANAGED_CONFIG_SYSTEM_PATH: &'static str = "/etc/codex/managed_config.toml";

/// The configuration layers as loaded, before the managed layers are applied.
pub struct LoadedConfigLayers {
    /// The user's configuration with the repository's configuration merged over it.
    pub base: ConfigValue,
    pub managed_config: Option<ConfigValue>,
    pub managed_preferences: Option<ConfigValue>,
}

/// `base` with `layer` merged over it, where there is a layer.
pub open spec fn overlay_layer(base: ConfigModel, layer: Option<ConfigValue>) -> ConfigModel {
    match layer {
        Some(v) => merge_models(base, v.model()),
        None => base,
    }
}

/// The configuration that the layers give once the managed layers are applied.
pub open spec fn layered_model(layers: LoadedConfigLayers) -> ConfigModel {
    overlay_layer(
        overlay_layer(layers.base.model(), layers.managed_config),
        layers.managed_preferences,
    )
}

/// The base layer: the user's configuration, or an empty table where there is none,
/// with the repository's configuration merged over it.
pub open spec fn base_layer_model(
    user_config: Option<ConfigValue>,
    repo_config: Option<ConfigValue>,
) -> ConfigModel {
    let user = match user_config {
        Some(v) => v.model(),
        None => ConfigModel::Table(Map::empty()),
    };
    overlay_layer(user, repo_config)
}

/// Merges `layer`, where there is one, over `base`.
fn apply_layer(base: &mut ConfigValue, layer: &Option<ConfigValue>)
    ensures
        final(base).model() == overlay_layer(old(base).model(), *layer),
{
    if let Some(overlay) = layer {
        merge_toml_values(base, overlay);
    }
}

/// Stacks the layers that were read: the repository's configuration over the user's
/// (or over an empty table), and the two managed layers kept for later.
pub fn load_config_layers_from(
    user_config: Option<ConfigValue>,
    repo_config: Option<ConfigValue>,
    managed_config: Option<ConfigValue>,
    managed_preferences: Option<ConfigValue>,
) -> (r: LoadedConfigLayers)
    ensures
        r.base.model() == base_layer_model(user_config, repo_config),
        r.managed_config == managed_config,
        r.managed_preferences == managed_preferences,
{
    let mut base = match user_config {
        Some(v) => v,
        None => default_empty_table(),
    };
    apply_layer(&mut base, &repo_config);
    LoadedConfigLayers { base, managed_config, managed_preferences }
}

/// Applies the managed layers over the base: first `managed_config.toml`, then the
/// managed preferences, each taking precedence over what lies below it.
pub fn apply_managed_layers(layers: LoadedConfigLayers) -> (r: ConfigValue)
    ensures
        r.model() == layered_model(layers),
{
    let LoadedConfigLayers { base, managed_config, managed_preferences } = layers;
    let mut base = base;
    apply_layer(&mut base, &managed_config);
    apply_layer(&mut base, &managed_preferences);
    base
}

/// Whether `layer`, where there is one, leaves `path` untouched.
pub open spec fn layer_leaves_untouched(layer: Option<ConfigValue>, path: Seq<Seq<char>>) -> bool {
    match layer {
        Some(v) => leaves_untouched(v.model(), path),
        None => true,
    }
}

/// Whether `layer` holds a value that is not a table at `path`.
pub open spec fn layer_sets(layer: Option<ConfigValue>, path: Seq<Seq<char>>) -> bool {
    layer matches Some(v) && lookup(v.model(), path) matches Some(x) && !(x is Table)
}

/// Managed preferences take the highest precedence: a value that is not a table, set
/// there at `path`, is the layered configuration's value at `path`.
pub proof fn lemma_managed_preferences_win(layers: LoadedConfigLayers, path: Seq<Seq<char>>)
    requires
        layer_sets(layers.managed_preferences, path),
    ensures
        lookup(layered_model(layers), path) == lookup(
            layers.managed_preferences.unwrap().model(),
            path,
        ),
{
    let below = overlay_layer(layers.base.model(), layers.managed_config);
    lemma_merge_overlay_wins(below, layers.managed_preferences.unwrap().model(), path);
}

/// `managed_config.toml` overrides the base: a value that is not a table, set there at
/// `path`, is the layered configuration's value at `path` unless the managed
/// preferences reach `path`.
pub proof fn lemma_managed_config_wins(layers: LoadedConfigLayers, path: Seq<Seq<char>>)
    requires
        layer_sets(layers.managed_config, path),
        layer_leaves_untouched(layers.managed_preferences, path),
    ensures
        lookup(layered_model(layers), path) == lookup(layers.managed_config.unwrap().model(), path),
{
    let below = overlay_layer(layers.base.model(), layers.managed_config);
    lemma_merge_overlay_wins(layers.base.model(), layers.managed_config.unwrap().model(), path);
    if let Some(p) = layers.managed_preferences {
        lemma_merge_keeps_base(below, p.model(), path);
    }
}

/// Where neither managed layer reaches `path`, the base decides its value.
pub proof fn lemma_base_layer_kept(layers: LoadedConfigLayers, path: Seq<Seq<char>>)
    requires
        layer_leaves_untouched(layers.managed_config, path),
        layer_leaves_untouched(layers.managed_preferences, path),
    ensures
        lookup(layered_model(layers), path) == lookup(layers.base.model(), path),
{
    let below = overlay_layer(layers.base.model(), layers.managed_config);
    if let Some(c) = layers.managed_config {
        lemma_merge_keeps_base(layers.base.model(), c.model(), path);
    }
    if let Some(p) = layers.managed_preferences {
        lemma_merge_keeps_base(below, p.model(), path);
    }
}

/// The repository's configuration overrides the user's: a value that is not a table,
/// set in the repository's configuration at `path`, is the base layer's value there.
pub proof fn lemma_repo_config_wins(
    user_config: Option<ConfigValue>,
    repo_config: Option<ConfigValue>,
    path: Seq<Seq<char>>,
)
    requires
        layer_sets(repo_config, path),
    ensures
        lookup(base_layer_model(user_config, repo_config), path) == lookup(
            repo_config.unwrap().model(),
            path,
        ),
{
    let user = match user_config {
        Some(v) => v.model(),
        None => ConfigModel::Table(Map::empty()),
    };
    lemma_merge_overlay_wins(user, repo_config.unwrap().model(), path);
}

/// The user's configuration survives where the repository's is silent: wherever the
/// repository configuration (if any) leaves `path` untouched, the base layer holds what
/// the user's configuration holds there.
pub proof fn lemma_user_config_kept(
    user_config: ConfigValue,
    repo_config: Option<ConfigValue>,
    path: Seq<Seq<char>>,
)
    requires
        layer_leaves_untouched(repo_config, path),
    ensures
        lookup(base_layer_model(Some(user_config), repo_config), path) == lookup(
            user_config.model(),
            path,
        ),
{
    if let Some(r) = repo_config {
        lemma_merge_keeps_base(user_config.model(), r.model(), path);
    }
}

/// With neither a user nor a repository configuration, the base layer is an empty table.
pub proof fn lemma_no_config_is_empty_table()
    ensures
        base_layer_model(None, None) == ConfigModel::Table(Map::empty()),
{
}

/// The path that `rel` names relative to `base`, as `PathBuf::push` forms it on Unix:
/// an absolute `rel` stands alone; otherwise a separator joins the two unless `base` is
/// empty or already ends in one.
pub open spec fn joined_path(base: Seq<char>, rel: Seq<char>) -> Seq<char> {
    if rel.len() > 0 && rel[0] == '/' {
        rel
    } else if base.len() > 0 && base.last() != '/' {
        base + seq!['/'] + rel
    } else {
        base + rel
    }
}

/// Whether `path` is absolute, that is, starts at the root.
pub open spec fn is_absolute(path: Seq<char>) -> bool {
    path.len() > 0 && path[0] == '/'
}

/// Whether `path` is absolute.
pub fn is_absolute_path(path: &str) -> (b: bool)
    ensures
        b == is_absolute(path@),
{
    let n = path.unicode_len();
    n > 0 && path.get_char(0) == '/'
}

/// `rel` joined onto `base`.
pub fn join_path(base: &str, rel: &str) -> (r: String)
    ensures
        r@ == joined_path(base@, rel@),
{
    if is_absolute_path(rel) {
        return rel.to_owned();
    }
    let n = base.unicode_len();
    let mut out = base.to_owned();
    if n > 0 && base.get_char(n - 1) != '/' {
        out.append("/");
        proof {
            reveal_strlit("/");
        }
    }
    out.append(rel);
    out
}

/// Where the managed configuration file is looked for when none is given: the
/// system-wide location, whatever `codex_home` is.
pub fn managed_config_default_path(codex_home: &str) -> (r: String)
    ensures
        r@ == CODEX_MANAGED_CONFIG_SYSTEM_PATH@,
{
    let _ = codex_home;
    CODEX_MANAGED_CONFIG_SYSTEM_PATH.to_owned()
}

/// The managed configuration file to read: the one given, or else the default.
pub fn resolve_managed_config_path(managed_config_path: Option<&str>, codex_home: &str) -> (r: String)
    ensures
        r@ == match managed_config_path {
            Some(path) => path@,
            None => CODEX_MANAGED_CONFIG_SYSTEM_PATH@,
        },
{
    match managed_config_path {
        Some(path) => path.to_owned(),
        None => managed_config_default_path(codex_home),
    }
}

/// Where the managed configuration file is looked for off Unix, when none is given:
/// `managed_config.toml` in `codex_home`, joined by POSIX rules.
pub fn managed_config_home_path(codex_home: &str) -> (r: String)
    ensures
        r@ == joined_path(codex_home@, "managed_config.toml"@),
{
    join_path(codex_home, "managed_config.toml")
}

/// What looking up the repository configuration file found.
pub enum CandidateLookup {
    /// A regular file, or a symbolic link.
    FileOrSymlink,
    /// Something else, such as a directory.
    OtherEntry,
    NotFound,
    Failed(std::io::Error),
}

/// The repository configuration file to read, given what looking up `candidate` found:
/// the candidate where it is a file or a symbolic link, none where it is something else
/// or missing, and the error where the lookup failed.
pub fn repo_config_from_lookup(candidate: String, lookup: CandidateLookup) -> (r: Result<
    Option<String>,
    std::io::Error,
>)
    ensures
        match lookup {
            CandidateLookup::FileOrSymlink => r matches Ok(Some(path)) && path@ == candidate@,
            CandidateLookup::OtherEntry => r matches Ok(None),
            CandidateLookup::NotFound => r matches Ok(None),
            CandidateLookup::Failed(e) => r == Err::<Option<String>, std::io::Error>(e),
        },
{
    match lookup {
        CandidateLookup::FileOrSymlink => Ok(Some(candidate)),
        CandidateLookup::OtherEntry => Ok(None),
        CandidateLookup::NotFound => Ok(None),
        CandidateLookup::Failed(e) => Err(e),
    }
}

/// The user's configuration file in `codex_home`.
pub fn user_config_path(codex_home: &str) -> (r: String)
    ensures
        r@ == joined_path(codex_home@, CONFIG_TOML_FILE@),
{
    join_path(codex_home, CONFIG_TOML_FILE)
}

/// The directory searched for a repository: the override where it is absolute, the
/// override taken relative to `current_dir` where it is not, and otherwise `current_dir`.
pub fn resolve_repo_search_dir(repo_cwd_override: Option<&str>, current_dir: &str) -> (r: String)
    ensures
        r@ == match repo_cwd_override {
            Some(dir) => if is_absolute(dir@) {
                dir@
            } else {
                joined_path(current_dir@, dir@)
            },
            None => current_dir@,
        },
{
    match repo_cwd_override {
        Some(dir) => {
            if is_absolute_path(dir) {
                dir.to_owned()
            } else {
                join_path(current_dir, dir)
            }
        },
        None => current_dir.to_owned(),
    }
}

/// The repository configuration file to look for: `.codex/config.toml` under the
/// repository root where one was found, and under the search directory otherwise.
pub fn repo_config_candidate(git_root: Option<&str>, search_dir: &str) -> (r: String)
    ensures
        r@ == joined_path(
            joined_path(
                match git_root {
                    Some(root) => root@,
                    None => search_dir@,
                },
                ".codex"@,
            ),
            CONFIG_TOML_FILE@,
        ),
{
    let root = match git_root {
        Some(root) => root,
        None => search_dir,
    };
    let dir = join_path(root, ".codex");
    join_path(dir.as_str(), CONFIG_TOML_FILE)
}

} // verus!
