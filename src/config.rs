use vstd::prelude::*;
use vstd::string::*;
use crate::workspace::{joined, resolve};

verus! {

/// Name of the per-user directory that holds the settings file and, by
/// default, the workspace.
pub const APP_DIR_NAME: &'static str = ".llamaman";

/// Name of the settings file inside the per-user directory.
pub const CONFIG_FILE_NAME: &'static str = "config.toml";

/// Default agent step budget.
pub const DEFAULT_MAX_STEPS: u8 = 10;

/// Default temperature, as the bit pattern of the `f32` value `0.0`.
pub const DEFAULT_TEMPERATURE_BITS: u32 = 0;

/// Default nucleus-sampling parameter, as the bit pattern of the `f32`
/// value `0.9`.
pub const DEFAULT_TOP_P_BITS: u32 = 0x3F66_6666;

/// The persisted settings record. The two generation parameters are kept as
/// the bit patterns of their `f32` values, so that they round-trip exactly.
#[derive(Debug, Clone)]
pub struct UserConfig {
    pub platform: String,
    pub url: String,
    pub model: String,
    pub temperature_bits: u32,
    pub max_steps: u8,
    pub top_p_bits: u32,
    pub workspace_dir: String,
}

/// The mathematical value of a settings record.
pub struct UserConfigView {
    pub platform: Seq<char>,
    pub url: Seq<char>,
    pub model: Seq<char>,
    pub temperature_bits: u32,
    pub max_steps: u8,
    pub top_p_bits: u32,
    pub workspace_dir: Seq<char>,
}

impl View for UserConfig {
    type V = UserConfigView;

    open spec fn view(&self) -> UserConfigView {
        UserConfigView {
            platform: self.platform@,
            url: self.url@,
            model: self.model@,
            temperature_bits: self.temperature_bits,
            max_steps: self.max_steps,
            top_p_bits: self.top_p_bits,
            workspace_dir: self.workspace_dir@,
        }
    }
}

/// The default workspace for a user whose home directory is `home`.
pub open spec fn default_workspace(home: Seq<char>) -> Seq<char> {
    joined(home, APP_DIR_NAME@)
}

/// The default settings record for a user whose home directory is `home`.
pub open spec fn default_view(home: Seq<char>) -> UserConfigView {
    UserConfigView {
        platform: "ollama"@,
        url: "http://localhost:11434/api/generate"@,
        model: "llama3.1"@,
        temperature_bits: DEFAULT_TEMPERATURE_BITS,
        max_steps: DEFAULT_MAX_STEPS,
        top_p_bits: DEFAULT_TOP_P_BITS,
        workspace_dir: default_workspace(home),
    }
}

/// Where the settings file lives for a user whose home directory is `home`.
pub open spec fn config_path_of(home: Seq<char>) -> Seq<char> {
    joined(joined(home, APP_DIR_NAME@), CONFIG_FILE_NAME@)
}

impl UserConfig {
    /// A deep copy of the record.
    pub fn snapshot(&self) -> (r: UserConfig)
        ensures
            r@ == self@,
    {
        UserConfig {
            platform: self.platform.clone(),
            url: self.url.clone(),
            model: self.model.clone(),
            temperature_bits: self.temperature_bits,
            max_steps: self.max_steps,
            top_p_bits: self.top_p_bits,
            workspace_dir: self.workspace_dir.clone(),
        }
    }

    /// The default record for a user whose home directory is `home`.
    pub fn default_for(home: &str) -> (r: UserConfig)
        ensures
            r@ == default_view(home@),
    {
        UserConfig {
            platform: String::from_str("ollama"),
            url: String::from_str("http://localhost:11434/api/generate"),
            model: String::from_str("llama3.1"),
            temperature_bits: DEFAULT_TEMPERATURE_BITS,
            max_steps: DEFAULT_MAX_STEPS,
            top_p_bits: DEFAULT_TOP_P_BITS,
            workspace_dir: resolve(home, APP_DIR_NAME),
        }
    }

    /// The workspace root that handlers work in: the configured directory,
    /// or the default one where none is configured.
    pub fn workspace_root(&self, home: &str) -> (r: String)
        ensures
            self.workspace_dir@.len() == 0 ==> r@ == default_workspace(home@),
            self.workspace_dir@.len() != 0 ==> r@ == self.workspace_dir@,
    {
        if self.workspace_dir.as_str().is_empty() {
            resolve(home, APP_DIR_NAME)
        } else {
            self.workspace_dir.clone()
        }
    }
}

/// The path of the settings file for a user whose home directory is `home`.
pub fn config_path(home: &str) -> (r: String)
    ensures
        r@ == config_path_of(home@),
{
    let dir = resolve(home, APP_DIR_NAME);
    resolve(dir.as_str(), CONFIG_FILE_NAME)
}

/// What was found where the settings file should be.
pub enum StoredConfig {
    /// There is no settings file.
    Absent,
    /// There is a file, but its text is not a settings record.
    Unparseable,
    /// The file holds this record.
    Parsed(UserConfig),
}

/// The record that loading yields, and whether it has to be written out
/// because no file existed.
pub struct LoadOutcome {
    pub config: UserConfig,
    pub persist: bool,
}

/// Decides what loading the settings yields. A stored record is taken as it
/// is. A missing file yields the default record, which is then to be
/// persisted. An unparseable file yields the default record and is left alone.
pub fn load_outcome(stored: StoredConfig, home: &str) -> (r: LoadOutcome)
    ensures
        stored matches StoredConfig::Parsed(c) ==> r.config@ == c@ && !r.persist,
        stored is Absent ==> r.config@ == default_view(home@) && r.persist,
        stored is Unparseable ==> r.config@ == default_view(home@) && !r.persist,
{
    match stored {
        StoredConfig::Parsed(c) => LoadOutcome { config: c, persist: false },
        StoredConfig::Absent => LoadOutcome { config: UserConfig::default_for(home), persist: true },
        StoredConfig::Unparseable => LoadOutcome {
            config: UserConfig::default_for(home),
            persist: false,
        },
    }
}

} // verus!
