//! Settings: providers, key bindings, custom models and prompts.

use vstd::prelude::*;
use crate::text::views;

verus! {

/// A system prompt that can be switched on.
#[derive(Debug, Clone)]
pub struct Prompt {
    pub name: String,
    pub content: String,
    pub active: bool,
}

impl Prompt {
    pub fn new(name: &str, content: &str, active: bool) -> (r: Prompt)
        ensures
            r.name@ == name@,
            r.content@ == content@,
            r.active == active,
    {
        Prompt { name: String::from_str(name), content: String::from_str(content), active }
    }
}

/// A provider's saved API key and enabled models.
#[derive(Debug, Clone)]
pub struct ProviderConfig {
    pub name: String,
    pub api_key: String,
    pub enabled_models: Vec<String>,
}

/// A model the user added: one of a known provider's, or one at an endpoint of its own.
#[derive(Debug, Clone)]
pub enum CustomModel {
    Derived { provider: String, model: String },
    Standalone {
        name: String,
        endpoint: String,
        model: String,
        api_key: Option<String>,
        use_key_from: Option<String>,
    },
}

impl CustomModel {
    /// The name shown for the model.
    pub fn name(&self) -> (r: &str)
        ensures
            r@ == match self {
                CustomModel::Derived { model, .. } => model@,
                CustomModel::Standalone { name, .. } => name@,
            },
    {
        match self {
            CustomModel::Derived { model, .. } => model.as_str(),
            CustomModel::Standalone { name, .. } => name.as_str(),
        }
    }
}

/// The keys bound to the client's actions.
#[derive(Debug, Clone)]
pub struct KeyBindings {
    pub new_chat: String,
    pub toggle_sidebar: String,
    pub switch_focus: String,
    pub lock_focus: String,
    pub delete_chat: String,
    pub copy_code: String,
    pub insert_mode: String,
    pub exit_insert_mode: String,
    pub command_mode: String,
    pub open_settings: String,
    pub copy_code_blocks: Vec<String>,
}

/// All settings.
#[derive(Debug, Clone)]
pub struct Settings {
    pub providers: Vec<ProviderConfig>,
    pub keybindings: KeyBindings,
    pub copy_code_blocks: Vec<String>,
    pub custom_models: Vec<CustomModel>,
    pub prompts: Vec<Prompt>,
}

pub open spec fn openai_model_names() -> Seq<Seq<char>> {
    seq!["gpt-4o"@, "gpt-4-turbo"@, "gpt-3.5-turbo"@]
}

/// Anthropic's models are not built in: they come from the settings file.
pub open spec fn anthropic_model_names() -> Seq<Seq<char>> {
    seq![]
}

pub open spec fn grok_model_names() -> Seq<Seq<char>> {
    seq!["grok-3-latest"@, "grok-3-mini-beta"@]
}

/// The keys that copy the first, second, third and fourth code block of a message.
pub open spec fn copy_code_block_keys() -> Seq<Seq<char>> {
    seq!["c"@, "C"@, "x"@, "X"@]
}

/// The models OpenAI offers.
pub fn openai_models() -> (r: Vec<String>)
    ensures
        views(r@) == openai_model_names(),
{
    let mut r: Vec<String> = Vec::new();
    r.push(String::from_str("gpt-4o"));
    r.push(String::from_str("gpt-4-turbo"));
    r.push(String::from_str("gpt-3.5-turbo"));
    assert(views(r@) =~= openai_model_names());
    r
}

/// The models of Anthropic's that are built in: none, the settings file
/// names them.
pub fn anthropic_models() -> (r: Vec<String>)
    ensures
        views(r@) == anthropic_model_names(),
{
    let r: Vec<String> = Vec::new();
    assert(views(r@) =~= anthropic_model_names());
    r
}

/// The models Grok offers.
pub fn grok_models() -> (r: Vec<String>)
    ensures
        views(r@) == grok_model_names(),
{
    let mut r: Vec<String> = Vec::new();
    r.push(String::from_str("grok-3-latest"));
    r.push(String::from_str("grok-3-mini-beta"));
    assert(views(r@) =~= grok_model_names());
    r
}

/// The keys that copy code blocks, in order of the blocks.
pub fn copy_code_blocks() -> (r: Vec<String>)
    ensures
        views(r@) == copy_code_block_keys(),
{
    let mut r: Vec<String> = Vec::new();
    r.push(String::from_str("c"));
    r.push(String::from_str("C"));
    r.push(String::from_str("x"));
    r.push(String::from_str("X"));
    assert(views(r@) =~= copy_code_block_keys());
    r
}

fn provider_config(name: &str, enabled_models: Vec<String>) -> (r: ProviderConfig)
    ensures
        r.name@ == name@,
        r.api_key@.len() == 0,
        r.enabled_models@ == enabled_models@,
{
    ProviderConfig { name: String::from_str(name), api_key: String::new(), enabled_models }
}

impl Default for Settings {
    /// The three built-in providers with no keys and all their models, the
    /// default key bindings, no custom models, and one active default prompt.
    fn default() -> (r: Settings)
        ensures
            r.providers@.len() == 3,
            r.providers@[0].name@ == "OpenAI"@,
            views(r.providers@[0].enabled_models@) == openai_model_names(),
            r.providers@[1].name@ == "Anthropic"@,
            views(r.providers@[1].enabled_models@) == anthropic_model_names(),
            r.providers@[2].name@ == "Grok"@,
            views(r.providers@[2].enabled_models@) == grok_model_names(),
            forall|i: int| 0 <= i < 3 ==> (#[trigger] r.providers@[i]).api_key@.len() == 0,
            views(r.keybindings.copy_code_blocks@) == copy_code_block_keys(),
            views(r.copy_code_blocks@) == copy_code_block_keys(),
            r.custom_models@.len() == 0,
            r.prompts@.len() == 1,
            r.prompts@[0].name@ == "Default"@,
            r.prompts@[0].content@ == "You are a helpful assistant."@,
            r.prompts@[0].active,
    {
        let mut providers: Vec<ProviderConfig> = Vec::new();
        providers.push(provider_config("OpenAI", openai_models()));
        providers.push(provider_config("Anthropic", anthropic_models()));
        providers.push(provider_config("Grok", grok_models()));
        let keybindings = KeyBindings {
            new_chat: String::from_str("n"),
            toggle_sidebar: String::from_str("s"),
            switch_focus: String::from_str("Tab"),
            lock_focus: String::from_str("l"),
            delete_chat: String::from_str("d"),
            copy_code: String::from_str("y"),
            insert_mode: String::from_str("i"),
            exit_insert_mode: String::from_str("Esc"),
            command_mode: String::from_str(":"),
            open_settings: String::from_str("o"),
            copy_code_blocks: copy_code_blocks(),
        };
        let mut prompts: Vec<Prompt> = Vec::new();
        prompts.push(Prompt::new("Default", "You are a helpful assistant.", true));
        Settings {
            providers,
            keybindings,
            copy_code_blocks: copy_code_blocks(),
            custom_models: Vec::new(),
            prompts,
        }
    }
}

/// Hides an API key but for its last four characters; a key of four
/// characters or fewer is hidden whole.
pub fn mask_api_key(k: &str) -> (r: String)
    ensures
        r@ == (if k@.len() <= 4 {
            Seq::<char>::empty()
        } else {
            k@.subrange(k@.len() - 4, k@.len() as int)
        }),
{
    let n = k.unicode_len();
    if n <= 4 {
        String::new()
    } else {
        String::from_str(k.substring_char(n - 4, n))
    }
}

} // verus!
