//! The client's state: conversations, the stream registry that feeds them,
//! the line cache of the displayed conversation, and its viewport.

use vstd::prelude::*;
use crate::chat::{
    chat_views, decimal, decimal_string, message_views, Chat, ChatView, Message, MessageView, Role,
};
use crate::registry::StreamTask;
use crate::config::{
    anthropic_model_names, anthropic_models, copy_code_block_keys, copy_code_blocks, grok_model_names,
    grok_models, openai_model_names, openai_models, CustomModel, Prompt,
};
use crate::document::{flatten, flatten_lines, flatten_owners, Document};
use crate::fence::{block_views, code_blocks_of, extract_code_blocks, CodeBlock, CodeBlockView};
use crate::highlight::Highlighter;
use crate::render::{
    build_document, document_entries, entry_views, line_views, CacheEntry, LineView,
};
use crate::text::{trim, views};
use crate::viewport::{NavCommand, Viewport};
use crate::wizard::CustomModelInput;

verus! {

/// Which pane takes the navigation keys.
#[derive(Debug, Clone, Copy, PartialEq, Eq, Structural)]
pub enum Focus {
    Sidebar,
    Chat,
}

/// The steps of adding a custom model.
#[derive(Debug, Clone, Copy, PartialEq, Eq, Structural)]
pub enum CustomModelStage {
    TypeChoice,
    ProviderChoice,
    DerivedModelName,
    StandaloneName,
    StandaloneUrl,
    StandaloneModelId,
    StandaloneApiKeyChoice,
    StandaloneApiKeyInput,
}

/// What the keyboard is driving.
#[derive(Debug, Clone, Copy, PartialEq, Eq, Structural)]
pub enum Mode {
    Normal,
    Insert,
    Visual,
    Command,
    Settings,
    ModelSelect,
    ApiKeyInput,
    RenameChat,
    CustomModelInput,
    PromptInput,
}

/// The tabs of the settings screen.
#[derive(Debug, Clone, Copy, PartialEq, Eq, Structural)]
pub enum SettingsTab {
    Providers,
    Shortcuts,
    Prompts,
}

/// A model provider: its key, the models it offers and those enabled.
#[derive(Debug, Clone)]
pub struct Provider {
    pub name: String,
    pub api_key: String,
    pub models: Vec<String>,
    pub enabled_models: Vec<String>,
    pub expanded: bool,
}

/// Relies on uuid::Uuid::new_v4: a random identifier, hyphenated.
#[verifier::external_body]
fn new_chat_id() -> String {
    uuid::Uuid::new_v4().to_string()
}

/// The whole state of the client.
pub struct App {
    pub mode: Mode,
    pub chats: Vec<Chat>,
    pub current_chat: usize,
    pub sidebar_visible: bool,
    pub input: String,
    pub command: String,
    pub providers: Vec<Provider>,
    pub current_model: String,
    pub settings_tab: SettingsTab,
    pub selected_provider_idx: usize,
    pub selected_model_idx: usize,
    pub selected_line: usize,
    pub api_key_input: String,
    pub selected_sidebar_idx: usize,
    pub viewport: Viewport,
    pub last_width: usize,
    pub line_cache: Vec<CacheEntry>,
    pub need_rebuild_cache: bool,
    pub document: Document,
    pub focus: Focus,
    pub stream_tasks: Vec<StreamTask>,
    pub error_message: Option<String>,
    pub info_message: Option<String>,
    pub api_key_old: String,
    pub api_key_editing_started: bool,
    pub custom_models: Vec<CustomModel>,
    pub custom_model_input: Option<CustomModelInput>,
    pub prompts: Vec<Prompt>,
    pub visual_start: Option<usize>,
    pub visual_end: Option<usize>,
    pub copy_shortcuts: Vec<String>,
    pub loading_frame: usize,
    pub highlighter: Highlighter,
}

pub open spec fn provider_pairs(ps: Seq<Provider>) -> Seq<(Seq<char>, Seq<char>)>
    decreases ps.len(),
{
    if ps.len() == 0 {
        seq![]
    } else {
        provider_pairs(ps.drop_last()) + views(ps.last().enabled_models@).map_values(
            |m: Seq<char>| (ps.last().name@, m),
        )
    }
}

pub open spec fn custom_pair(c: CustomModel) -> (Seq<char>, Seq<char>) {
    match c {
        CustomModel::Derived { provider, model } => (provider@, model@),
        CustomModel::Standalone { name, .. } => ("Custom"@, name@),
    }
}

pub open spec fn pair_views(v: Seq<(String, String)>) -> Seq<(Seq<char>, Seq<char>)> {
    v.map_values(|p: (String, String)| (p.0@, p.1@))
}

impl App {
    /// The messages of the displayed conversation, none if there is none.
    pub open spec fn current_messages(self) -> Seq<MessageView> {
        if self.current_chat < self.chats@.len() {
            message_views(self.chats@[self.current_chat as int].messages@)
        } else {
            seq![]
        }
    }

    /// The line cache that the displayed conversation has at `width`.
    pub open spec fn expected_cache(self, width: nat) -> Seq<(Seq<LineView>, bool)> {
        document_entries(self.current_messages(), views(self.copy_shortcuts@), width)
    }

    /// A cache not marked dirty is the one the displayed conversation has at
    /// the width it was built at.
    pub open spec fn cache_valid(self) -> bool {
        !self.need_rebuild_cache ==> entry_views(self.line_cache@) == self.expected_cache(
            self.last_width as nat,
        )
    }

    pub open spec fn stream_ids(self) -> Seq<Seq<char>> {
        self.stream_tasks@.map_values(|t: StreamTask| t.chat_id@)
    }

    /// At most one stream per conversation identifier.
    pub open spec fn registry_wf(self) -> bool {
        forall|i: int, j: int|
            0 <= i < j < self.stream_tasks@.len() ==> #[trigger] self.stream_ids()[i]
                != #[trigger] self.stream_ids()[j]
    }

    pub fn new() -> (r: App)
        ensures
            r.chats@.len() == 1,
            r.current_chat == 0,
            r.chats@[0].messages@.len() == 0,
            r.chats@[0].title@ == "Chat "@ + decimal(1),
            r.chats@[0].model@ == "OpenAI:gpt-4o"@,
            r.current_model@ == "OpenAI:gpt-4o"@,
            !r.chats@[0].streaming,
            r.mode == Mode::Normal,
            r.focus == Focus::Chat,
            r.sidebar_visible,
            r.stream_tasks@.len() == 0,
            r.need_rebuild_cache,
            r.viewport.wf(),
            r.viewport.follow_bottom,
            r.providers@.len() == 3,
            r.providers@[0].name@ == "OpenAI"@,
            views(r.providers@[0].enabled_models@) == openai_model_names(),
            views(r.providers@[0].models@) == openai_model_names(),
            r.providers@[1].name@ == "Anthropic"@,
            views(r.providers@[1].enabled_models@) == anthropic_model_names(),
            views(r.providers@[1].models@) == anthropic_model_names(),
            r.providers@[2].name@ == "Grok"@,
            views(r.providers@[2].enabled_models@) == grok_model_names(),
            views(r.providers@[2].models@) == grok_model_names(),
            forall|i: int| 0 <= i < 3 ==> (#[trigger] r.providers@[i]).api_key@.len() == 0 && !r.providers@[i].expanded,
            views(r.copy_shortcuts@) == copy_code_block_keys(),
            r.cache_valid(),
            r.registry_wf(),
    {
        let mut providers: Vec<Provider> = Vec::new();
        providers.push(
            Provider {
                name: String::from_str("OpenAI"),
                api_key: String::new(),
                models: openai_models(),
                enabled_models: openai_models(),
                expanded: false,
            },
        );
        providers.push(
            Provider {
                name: String::from_str("Anthropic"),
                api_key: String::new(),
                models: anthropic_models(),
                enabled_models: anthropic_models(),
                expanded: false,
            },
        );
        providers.push(
            Provider {
                name: String::from_str("Grok"),
                api_key: String::new(),
                models: grok_models(),
                enabled_models: grok_models(),
                expanded: false,
            },
        );
        let mut app = App {
            mode: Mode::Normal,
            chats: Vec::new(),
            current_chat: 0,
            sidebar_visible: true,
            input: String::new(),
            command: String::new(),
            providers,
            current_model: String::from_str("OpenAI:gpt-4o"),
            settings_tab: SettingsTab::Providers,
            selected_provider_idx: 0,
            selected_model_idx: 0,
            selected_line: 0,
            api_key_input: String::new(),
            selected_sidebar_idx: 0,
            viewport: Viewport::new(0),
            last_width: 0,
            line_cache: Vec::new(),
            need_rebuild_cache: true,
            document: Document { lines: Vec::new(), line_to_message: Vec::new() },
            focus: Focus::Chat,
            stream_tasks: Vec::new(),
            error_message: None,
            info_message: None,
            api_key_old: String::new(),
            api_key_editing_started: false,
            custom_models: Vec::new(),
            custom_model_input: None,
            prompts: Vec::new(),
            visual_start: None,
            visual_end: None,
            copy_shortcuts: copy_code_blocks(),
            loading_frame: 0,
            highlighter: Highlighter::new(),
        };
        app.create_new_chat();
        app
    }

    /// Shows or hides the sidebar; a shown sidebar takes the focus.
    pub fn toggle_sidebar(&mut self)
        ensures
            final(self).sidebar_visible == !old(self).sidebar_visible,
            final(self).focus == (if final(self).sidebar_visible {
                Focus::Sidebar
            } else {
                Focus::Chat
            }),
    {
        self.sidebar_visible = !self.sidebar_visible;
        self.focus = if self.sidebar_visible {
            Focus::Sidebar
        } else {
            Focus::Chat
        };
    }

    /// Adds an empty conversation titled "Chat n" on the current model and
    /// displays it, following its bottom.
    pub fn create_new_chat(&mut self)
        requires
            old(self).chats@.len() < usize::MAX,
        ensures
            final(self).chats@.len() == old(self).chats@.len() + 1,
            final(self).chats@.drop_last() == old(self).chats@,
            final(self).chats@.last().title@ == "Chat "@ + decimal(old(self).chats@.len() + 1),
            final(self).chats@.last().messages@.len() == 0,
            final(self).chats@.last().model@ == old(self).current_model@,
            !final(self).chats@.last().streaming,
            final(self).current_chat == old(self).chats@.len(),
            final(self).selected_sidebar_idx == old(self).chats@.len(),
            final(self).need_rebuild_cache,
            final(self).viewport == old(self).viewport.step(NavCommand::SetLines(0)).step(NavCommand::End),
            final(self).viewport.cursor_line == 0,
            final(self).stream_tasks@ == old(self).stream_tasks@,
            final(self).copy_shortcuts@ == old(self).copy_shortcuts@,
            final(self).providers@ == old(self).providers@,
            final(self).current_model@ == old(self).current_model@,
            final(self).mode == old(self).mode,
            final(self).focus == old(self).focus,
            final(self).sidebar_visible == old(self).sidebar_visible,
    {
        let n = self.chats.len();
        let mut title = String::from_str("Chat ");
        let num = decimal_string(n + 1);
        title.append(num.as_str());
        let chat = Chat {
            id: new_chat_id(),
            title,
            messages: Vec::new(),
            model: self.current_model.clone(),
            streaming: false,
        };
        self.chats.push(chat);
        self.current_chat = n;
        self.selected_sidebar_idx = n;
        self.viewport.apply(NavCommand::SetLines(0));
        self.viewport.apply(NavCommand::End);
        self.need_rebuild_cache = true;
    }

    pub fn current_model_name(&self) -> (r: &str)
        ensures
            r@ == self.current_model@,
    {
        self.current_model.as_str()
    }

    /// Every enabled model as (provider, model): the providers' in order,
    /// then the custom models, a standalone one under "Custom".
    pub open spec fn enabled_pairs(self) -> Seq<(Seq<char>, Seq<char>)> {
        provider_pairs(self.providers@) + self.custom_models@.map_values(
            |c: CustomModel| custom_pair(c),
        )
    }

    /// Lists every enabled model as (provider, model).
    pub fn enabled_models_flat(&self) -> (r: Vec<(String, String)>)
        ensures
            pair_views(r@) == self.enabled_pairs(),
    {
        let mut r: Vec<(String, String)> = Vec::new();
        let mut i: usize = 0;
        while i < self.providers.len()
            invariant
                i <= self.providers.len(),
                pair_views(r@) == provider_pairs(self.providers@.take(i as int)),
            decreases self.providers.len() - i,
        {
            let p = &self.providers[i];
            let ghost base = pair_views(r@);
            proof {
                assert(self.providers@.take(i + 1).drop_last() =~= self.providers@.take(i as int));
            }
            let mut j: usize = 0;
            while j < p.enabled_models.len()
                invariant
                    j <= p.enabled_models.len(),
                    pair_views(r@) == base + views(p.enabled_models@).take(j as int).map_values(
                        |m: Seq<char>| (p.name@, m),
                    ),
                decreases p.enabled_models.len() - j,
            {
                let ghost before = r@;
                r.push((p.name.clone(), p.enabled_models[j].clone()));
                assert(pair_views(r@) =~= pair_views(before).push((p.name@, p.enabled_models@[j as int]@)));
                assert(views(p.enabled_models@).take(j + 1) =~= views(p.enabled_models@).take(j as int).push(p.enabled_models@[j as int]@));
                assert(pair_views(r@) =~= base + views(p.enabled_models@).take(j + 1).map_values(
                    |m: Seq<char>| (p.name@, m),
                ));
                j = j + 1;
            }
            assert(views(p.enabled_models@).take(j as int) =~= views(p.enabled_models@));
            i = i + 1;
        }
        assert(self.providers@.take(i as int) =~= self.providers@);
        let ghost base = pair_views(r@);
        let mut k: usize = 0;
        while k < self.custom_models.len()
            invariant
                k <= self.custom_models.len(),
                pair_views(r@) == base + self.custom_models@.take(k as int).map_values(
                    |c: CustomModel| custom_pair(c),
                ),
            decreases self.custom_models.len() - k,
        {
            proof {
                reveal_strlit("Custom");
            }
            let pair = match &self.custom_models[k] {
                CustomModel::Derived { provider, model } => (provider.clone(), model.clone()),
                CustomModel::Standalone { name, .. } => (String::from_str("Custom"), name.clone()),
            };
            let ghost before = r@;
            r.push(pair);
            assert(pair_views(r@) =~= pair_views(before).push(custom_pair(self.custom_models@[k as int])));
            assert(self.custom_models@.take(k + 1) =~= self.custom_models@.take(k as int).push(self.custom_models@[k as int]));
            assert(pair_views(r@) =~= base + self.custom_models@.take(k + 1).map_values(
                |c: CustomModel| custom_pair(c),
            ));
            k = k + 1;
        }
        assert(self.custom_models@.take(k as int) =~= self.custom_models@);
        r
    }

    /// Moves the cursor to the last line and follows the bottom.
    pub fn jump_to_last_message(&mut self)
        ensures
            final(self).viewport == old(self).viewport.step(NavCommand::End),
            final(self).chats@ == old(self).chats@,
            final(self).line_cache@ == old(self).line_cache@,
            final(self).document.lines@ == old(self).document.lines@,
            final(self).document.line_to_message@ == old(self).document.line_to_message@,
            final(self).need_rebuild_cache == old(self).need_rebuild_cache,
            final(self).current_chat == old(self).current_chat,
    {
        self.viewport.apply(NavCommand::End);
    }

    /// Applies a navigation command to the viewport.
    pub fn navigate(&mut self, cmd: NavCommand)
        ensures
            final(self).viewport == old(self).viewport.step(cmd),
            final(self).chats@ == old(self).chats@,
            final(self).line_cache@ == old(self).line_cache@,
            final(self).document.lines@ == old(self).document.lines@,
            final(self).document.line_to_message@ == old(self).document.line_to_message@,
            final(self).need_rebuild_cache == old(self).need_rebuild_cache,
            final(self).current_chat == old(self).current_chat,
    {
        self.viewport.apply(cmd);
    }

    pub fn set_error(&mut self, message: &str)
        ensures
            final(self).error_message matches Some(m) && m@ == message@,
    {
        self.error_message = Some(String::from_str(message));
    }

    pub fn set_info(&mut self, message: &str)
        ensures
            final(self).info_message matches Some(m) && m@ == message@,
    {
        self.info_message = Some(String::from_str(message));
    }

    pub fn clear_error(&mut self)
        ensures
            final(self).error_message is None,
    {
        self.error_message = None;
    }

    /// Whether a conversation is displayed.
    pub fn has_valid_chat(&self) -> (r: bool)
        ensures
            r == (self.current_chat < self.chats@.len()),
    {
        self.current_chat < self.chats.len()
    }
}

/// What preparing a frame at `width` columns and `height` rows leaves: the
/// line cache rebuilt where it was dirty or built at another width, the
/// document flattened from it, and the viewport told the new heights.
pub open spec fn frame_prepared(a: App, b: App, width: nat, height: nat) -> bool {
    &&& (a.need_rebuild_cache || width != a.last_width || a.cache_valid()) ==> entry_views(
        b.line_cache@,
    ) == a.expected_cache(width)
    &&& (a.need_rebuild_cache || width != a.last_width || a.cache_valid()) ==> b.cache_valid()
    &&& !b.need_rebuild_cache
    &&& b.last_width == width
    &&& chat_views(b.chats@) == chat_views(a.chats@)
    &&& b.current_chat == a.current_chat
    &&& b.copy_shortcuts@ == a.copy_shortcuts@
    &&& line_views(b.document.lines@) == flatten_lines(entry_views(b.line_cache@))
    &&& b.document.line_to_message@ == flatten_owners(entry_views(b.line_cache@))
    &&& b.viewport == a.viewport.step(NavCommand::SetLines(b.document.lines@.len() as usize)).step(
        NavCommand::SetHeight(height as usize),
    )
}

impl App {
    /// Collapses a long message or expands it again.
    pub fn toggle_message_truncation(&mut self, msg_idx: usize)
        ensures
            ({
                let c = old(self).current_chat as int;
                if c < old(self).chats@.len() && msg_idx < old(self).chats@[c].messages@.len() {
                    let cv = chat_views(old(self).chats@)[c];
                    let m = cv.messages[msg_idx as int];
                    chat_views(final(self).chats@) == chat_views(old(self).chats@).update(
                        c,
                        ChatView {
                            messages: cv.messages.update(
                                msg_idx as int,
                                MessageView { collapsed: !m.collapsed, ..m },
                            ),
                            ..cv
                        },
                    )
                } else {
                    chat_views(final(self).chats@) == chat_views(old(self).chats@)
                }
            }),
            final(self).need_rebuild_cache,
            final(self).current_chat == old(self).current_chat,
            final(self).copy_shortcuts@ == old(self).copy_shortcuts@,
            final(self).stream_tasks@ == old(self).stream_tasks@,
    {
        let c = self.current_chat;
        if c < self.chats.len() && msg_idx < self.chats[c].messages.len() {
            let ghost old_chats = chat_views(self.chats@);
            let mut chat = self.chats.remove(c);
            let mut m = chat.messages.remove(msg_idx);
            m.collapsed = !m.collapsed;
            chat.messages.insert(msg_idx, m);
            self.chats.insert(c, chat);
            proof {
                let cv = old_chats[c as int];
                let mv = cv.messages[msg_idx as int];
                assert(message_views(self.chats@[c as int].messages@) =~= cv.messages.update(
                    msg_idx as int,
                    MessageView { collapsed: !mv.collapsed, ..mv },
                ));
                assert(chat_views(self.chats@) =~= old_chats.update(
                    c as int,
                    ChatView {
                        messages: cv.messages.update(
                            msg_idx as int,
                            MessageView { collapsed: !mv.collapsed, ..mv },
                        ),
                        ..cv
                    },
                ));
            }
        }
        self.need_rebuild_cache = true;
    }

    /// Adds a user message to the displayed conversation.
    pub fn add_user_message(&mut self, content: String)
        ensures
            ({
                let c = old(self).current_chat as int;
                if c < old(self).chats@.len() {
                    let cv = chat_views(old(self).chats@)[c];
                    &&& chat_views(final(self).chats@) == chat_views(old(self).chats@).update(
                        c,
                        ChatView {
                            messages: cv.messages.push(
                                MessageView { role: Role::User, content: content@, collapsed: true },
                            ),
                            ..cv
                        },
                    )
                    &&& final(self).need_rebuild_cache
                } else {
                    &&& final(self).chats@ == old(self).chats@
                    &&& final(self).need_rebuild_cache == old(self).need_rebuild_cache
                }
            }),
            final(self).current_chat == old(self).current_chat,
            final(self).copy_shortcuts@ == old(self).copy_shortcuts@,
            final(self).stream_tasks@ == old(self).stream_tasks@,
            final(self).viewport == old(self).viewport,
    {
        let c = self.current_chat;
        if c < self.chats.len() {
            let ghost old_chats = chat_views(self.chats@);
            let mut chat = self.chats.remove(c);
            chat.messages.push(Message::new(Role::User, content.as_str()));
            self.chats.insert(c, chat);
            proof {
                let cv = old_chats[c as int];
                assert(message_views(self.chats@[c as int].messages@) =~= cv.messages.push(
                    MessageView { role: Role::User, content: content@, collapsed: true },
                ));
                assert(chat_views(self.chats@) =~= old_chats.update(
                    c as int,
                    ChatView {
                        messages: cv.messages.push(
                            MessageView { role: Role::User, content: content@, collapsed: true },
                        ),
                        ..cv
                    },
                ));
            }
            self.need_rebuild_cache = true;
        }
    }
}

impl App {
    /// Readies the displayed conversation for drawing at `width` columns and
    /// `height` rows: rebuilds the line cache if it is dirty or was built at
    /// another width, flattens it, and clamps the cursor and scroll offset.
    pub fn prepare_frame(&mut self, width: usize, height: usize)
        ensures
            frame_prepared(*old(self), *final(self), width as nat, height as nat),
            final(self).stream_tasks@ == old(self).stream_tasks@,
            final(self).viewport.wf(),
            final(self).viewport.cursor_visible(),
    {
        if self.need_rebuild_cache || width != self.last_width {
            let cache = if self.current_chat < self.chats.len() {
                build_document(
                    &self.highlighter,
                    &self.chats[self.current_chat].messages,
                    &self.copy_shortcuts,
                    width,
                )
            } else {
                let v: Vec<CacheEntry> = Vec::new();
                assert(entry_views(v@) =~= self.expected_cache(width as nat));
                v
            };
            self.line_cache = cache;
            self.last_width = width;
            self.need_rebuild_cache = false;
        }
        self.document = flatten(&self.line_cache);
        proof {
            crate::document::lemma_owners_len(entry_views(self.line_cache@));
        }
        let total = self.document.lines.len();
        self.viewport.apply(NavCommand::SetLines(total));
        let ghost mid = self.viewport;
        self.viewport.apply(NavCommand::SetHeight(height));
        proof {
            crate::viewport::lemma_resized_visible(mid, mid.total_lines, height);
        }
        assert(self.current_messages() == old(self).current_messages());
    }

    /// The message that owns the cursor line, and whether that line is an
    /// ellipsis marker.
    pub fn message_at_cursor(&self) -> (r: Option<(usize, bool)>)
        ensures
            r == (if self.viewport.cursor_line < self.document.line_to_message@.len() {
                Some(self.document.line_to_message@[self.viewport.cursor_line as int])
            } else {
                None
            }),
    {
        if self.viewport.cursor_line < self.document.line_to_message.len() {
            Some(self.document.line_to_message[self.viewport.cursor_line])
        } else {
            None
        }
    }

    /// The `n`-th code block of the message under the cursor.
    pub open spec fn block_at_cursor(self, n: nat) -> Option<CodeBlockView> {
        let map = self.document.line_to_message@;
        let c = self.viewport.cursor_line as int;
        let msgs = self.current_messages();
        if 0 <= c < map.len() && map[c].0 < msgs.len() {
            let bs = code_blocks_of(msgs[map[c].0 as int].content);
            if n < bs.len() {
                Some(bs[n as int])
            } else {
                None
            }
        } else {
            None
        }
    }

    /// The `n`-th code block of the message under the cursor, extracted
    /// afresh from its current text.
    pub fn code_block_at_cursor(&self, n: usize) -> (r: Option<CodeBlock>)
        ensures
            match r {
                Some(b) => self.block_at_cursor(n as nat) == Some(b@),
                None => self.block_at_cursor(n as nat) is None,
            },
    {
        let c = self.viewport.cursor_line;
        if c >= self.document.line_to_message.len() || self.current_chat >= self.chats.len() {
            return None;
        }
        let (msg_idx, _) = self.document.line_to_message[c];
        let msgs = &self.chats[self.current_chat].messages;
        if msg_idx >= msgs.len() {
            return None;
        }
        let mut blocks = extract_code_blocks(msgs[msg_idx].content.as_str());
        if n < blocks.len() {
            proof {
                assert(block_views(blocks@)[n as int] == blocks@[n as int]@);
            }
            Some(blocks.remove(n))
        } else {
            None
        }
    }

    /// Displays conversation `idx`, following its bottom.
    pub fn select_chat(&mut self, idx: usize)
        ensures
            idx < old(self).chats@.len() ==> final(self).current_chat == idx
                && final(self).current_model@ == old(self).chats@[idx as int].model@
                && final(self).viewport == old(self).viewport.step(NavCommand::SetLines(0)).step(
                NavCommand::End,
            ) && final(self).need_rebuild_cache,
            idx >= old(self).chats@.len() ==> final(self).current_chat == old(self).current_chat
                && final(self).viewport == old(self).viewport && final(self).need_rebuild_cache
                == old(self).need_rebuild_cache,
            final(self).chats@ == old(self).chats@,
            final(self).stream_tasks@ == old(self).stream_tasks@,
    {
        if idx < self.chats.len() {
            self.current_chat = idx;
            self.current_model = self.chats[idx].model.clone();
            self.viewport.apply(NavCommand::SetLines(0));
            self.viewport.apply(NavCommand::End);
            self.need_rebuild_cache = true;
        }
    }

    /// Deletes conversation `idx`; the one that takes its place in the list
    /// (or the new last one) is displayed, with the cursor on its first line.
    pub fn delete_chat(&mut self, idx: usize)
        ensures
            idx < old(self).chats@.len() ==> chat_views(final(self).chats@) == chat_views(
                old(self).chats@,
            ).remove(idx as int) && final(self).need_rebuild_cache && final(self).current_chat == (
            if idx < final(self).chats@.len() {
                idx
            } else if final(self).chats@.len() > 0 {
                (final(self).chats@.len() - 1) as usize
            } else {
                0
            }) && final(self).selected_sidebar_idx == final(self).current_chat
                && final(self).viewport == old(self).viewport.step(NavCommand::SetLines(0)).step(
                NavCommand::Start,
            ) && final(self).viewport.cursor_line == 0,
            idx < old(self).chats@.len() && old(self).chats@.len() == 1 ==> final(self).line_cache@.len()
                == 0 && final(self).document.lines@.len() == 0
                && final(self).document.line_to_message@.len() == 0,
            idx >= old(self).chats@.len() ==> final(self).chats@ == old(self).chats@
                && final(self).current_chat == old(self).current_chat,
            final(self).stream_tasks@ == old(self).stream_tasks@,
    {
        if idx < self.chats.len() {
            let ghost old_chats = chat_views(self.chats@);
            let _removed = self.chats.remove(idx);
            assert(chat_views(self.chats@) =~= old_chats.remove(idx as int));
            let n = self.chats.len();
            let sel = if idx < n {
                idx
            } else if n > 0 {
                n - 1
            } else {
                0
            };
            self.selected_sidebar_idx = sel;
            self.current_chat = sel;
            self.viewport.apply(NavCommand::SetLines(0));
            self.viewport.apply(NavCommand::Start);
            self.need_rebuild_cache = true;
            if n == 0 {
                self.line_cache = Vec::new();
                self.document = Document { lines: Vec::new(), line_to_message: Vec::new() };
            }
        }
    }

    /// Renames conversation `idx`.
    pub fn rename_chat(&mut self, idx: usize, title: String)
        ensures
            idx < old(self).chats@.len() ==> chat_views(final(self).chats@) == chat_views(
                old(self).chats@,
            ).update(idx as int, ChatView { title: title@, ..chat_views(old(self).chats@)[idx as int] }),
            idx >= old(self).chats@.len() ==> final(self).chats@ == old(self).chats@,
            final(self).current_chat == old(self).current_chat,
            final(self).need_rebuild_cache == old(self).need_rebuild_cache,
    {
        if idx < self.chats.len() {
            let ghost old_chats = chat_views(self.chats@);
            let mut chat = self.chats.remove(idx);
            chat.title = title;
            self.chats.insert(idx, chat);
            assert(chat_views(self.chats@) =~= old_chats.update(
                idx as int,
                ChatView { title: title@, ..old_chats[idx as int] },
            ));
        }
    }
}

/// What the displayed conversation sends when the user submits a message:
/// its identifier, its history with the new message, and the provider and
/// model that its model reference names.
pub struct Submission {
    pub chat_id: String,
    pub history: Vec<Message>,
    pub provider: String,
    pub model: String,
}

/// Why a message cannot be submitted.
pub enum SubmitError {
    /// No conversation is displayed.
    NoChat,
    /// The conversation is still receiving a response.
    Busy,
    /// The conversation's model reference is not "provider:model".
    InvalidModel,
}

fn copy_message(m: &Message) -> (r: Message)
    ensures
        r@ == m@,
{
    Message { role: m.role, content: m.content.clone(), collapsed: m.collapsed }
}

/// The index of the first provider named `name`, or -1.
pub open spec fn first_provider_named(ps: Seq<Provider>, name: Seq<char>) -> int
    decreases ps.len(),
{
    if ps.len() == 0 {
        -1
    } else {
        let r = first_provider_named(ps.drop_last(), name);
        if r >= 0 {
            r
        } else if ps.last().name@ == name {
            ps.len() - 1
        } else {
            -1
        }
    }
}

/// The stored key of the first provider named `name`, where it is not empty.
pub open spec fn stored_key(ps: Seq<Provider>, name: Seq<char>) -> Option<Seq<char>> {
    let k = first_provider_named(ps, name);
    if k >= 0 && ps[k].api_key@.len() > 0 {
        Some(ps[k].api_key@)
    } else {
        None
    }
}

/// The index of the first standalone custom model named `name`, or -1.
pub open spec fn first_standalone_named(cs: Seq<CustomModel>, name: Seq<char>) -> int
    decreases cs.len(),
{
    if cs.len() == 0 {
        -1
    } else {
        let r = first_standalone_named(cs.drop_last(), name);
        if r >= 0 {
            r
        } else if cs.last() matches CustomModel::Standalone { name: n, .. } && n@ == name {
            cs.len() - 1
        } else {
            -1
        }
    }
}

impl App {
    /// Checks that the displayed conversation can take a new message and
    /// gathers what its request needs.
    pub fn prepare_submission(&self, text: &str) -> (r: Result<Submission, SubmitError>)
        ensures
            ({
                let c = self.current_chat as int;
                match r {
                    Err(SubmitError::NoChat) => c >= self.chats@.len(),
                    Err(SubmitError::Busy) => c < self.chats@.len() && self.chats@[c].streaming,
                    Err(SubmitError::InvalidModel) => c < self.chats@.len() && !self.chats@[c].streaming
                        && crate::transport::model_ref_parts(self.chats@[c].model@) is None,
                    Ok(s) => c < self.chats@.len() && !self.chats@[c].streaming
                        && crate::transport::model_ref_parts(self.chats@[c].model@) == Some(
                        (s.provider@, s.model@),
                    ) && s.chat_id@ == self.chats@[c].id@ && message_views(s.history@)
                        == message_views(self.chats@[c].messages@).push(
                        MessageView { role: Role::User, content: text@, collapsed: true },
                    ),
                }
            }),
    {
        if self.current_chat >= self.chats.len() {
            return Err(SubmitError::NoChat);
        }
        let chat = &self.chats[self.current_chat];
        if chat.streaming {
            return Err(SubmitError::Busy);
        }
        let parts = crate::transport::split_model_ref(chat.model.as_str());
        match parts {
            None => Err(SubmitError::InvalidModel),
            Some((provider, model)) => {
                let mut history: Vec<Message> = Vec::new();
                let mut i: usize = 0;
                while i < chat.messages.len()
                    invariant
                        i <= chat.messages.len(),
                        message_views(history@) == message_views(chat.messages@).take(i as int),
                    decreases chat.messages.len() - i,
                {
                    let ghost before = history@;
                    history.push(copy_message(&chat.messages[i]));
                    assert(message_views(history@) =~= message_views(before).push(chat.messages@[i as int]@));
                    assert(message_views(chat.messages@).take(i + 1) =~= message_views(chat.messages@).take(i as int).push(chat.messages@[i as int]@));
                    i = i + 1;
                }
                assert(message_views(chat.messages@).take(i as int) =~= message_views(chat.messages@));
                let ghost before = history@;
                history.push(Message::new(Role::User, text));
                assert(message_views(history@) =~= message_views(before).push(
                    MessageView { role: Role::User, content: text@, collapsed: true },
                ));
                Ok(Submission { chat_id: chat.id.clone(), history, provider, model })
            },
        }
    }

    /// Adds the user's message to the displayed conversation, marks it as
    /// streaming, registers its stream and follows the bottom; returns the
    /// sending half for the transport, none where no conversation is
    /// displayed or its stream is registered already.
    pub fn commit_submission(&mut self, text: String) -> (r: Option<tokio::sync::mpsc::Sender<String>>)
        ensures
            ({
                let c = old(self).current_chat as int;
                if c < old(self).chats@.len() {
                    let cv = chat_views(old(self).chats@)[c];
                    &&& chat_views(final(self).chats@) == chat_views(old(self).chats@).update(
                        c,
                        ChatView {
                            messages: cv.messages.push(
                                MessageView { role: Role::User, content: text@, collapsed: true },
                            ),
                            streaming: true,
                            ..cv
                        },
                    )
                    &&& r.is_some() <==> !old(self).stream_ids().contains(cv.id)
                    &&& r.is_some() ==> final(self).stream_ids() == old(self).stream_ids().push(cv.id)
                    &&& r.is_none() ==> final(self).stream_tasks@ == old(self).stream_tasks@
                    &&& final(self).viewport == old(self).viewport.step(NavCommand::End)
                    &&& final(self).need_rebuild_cache
                } else {
                    &&& r.is_none()
                    &&& final(self).chats@ == old(self).chats@
                    &&& final(self).stream_tasks@ == old(self).stream_tasks@
                }
            }),
            old(self).registry_wf() ==> final(self).registry_wf(),
            final(self).current_chat == old(self).current_chat,
    {
        let c = self.current_chat;
        if c >= self.chats.len() {
            return None;
        }
        let ghost old_chats = chat_views(self.chats@);
        self.add_user_message(text);
        let ghost mid = chat_views(self.chats@);
        assert(mid.len() == self.chats@.len());
        assert(old_chats.len() == old(self).chats@.len());
        let mut chat = self.chats.remove(c);
        chat.streaming = true;
        let id = chat.id.clone();
        assert(id@ == old_chats[c as int].id);
        self.chats.insert(c, chat);
        assert(self.stream_ids() =~= old(self).stream_ids());
        assert(chat_views(self.chats@) =~= mid.update(c as int, ChatView { streaming: true, ..mid[c as int] }));
        let r = self.start_stream(id);
        self.viewport.apply(NavCommand::End);
        r
    }

    /// The stored API key of the provider named `name`, where one is set.
    pub fn provider_api_key(&self, name: &str) -> (r: Option<String>)
        ensures
            match (r, stored_key(self.providers@, name@)) {
                (Some(k), Some(s)) => k@ == s,
                (None, None) => true,
                _ => false,
            },
    {
        let mut i: usize = 0;
        while i < self.providers.len()
            invariant
                i <= self.providers.len(),
                first_provider_named(self.providers@.take(i as int), name@) == -1,
            decreases self.providers.len() - i,
        {
            proof {
                assert(self.providers@.take(i + 1).drop_last() =~= self.providers@.take(i as int));
            }
            if str_eq(self.providers[i].name.as_str(), name) {
                assert(first_provider_named(self.providers@.take(i + 1), name@) == i);
                proof {
                    lemma_first_provider_prefix(self.providers@, name@, i + 1);
                }
                if self.providers[i].api_key.as_str().unicode_len() > 0 {
                    return Some(self.providers[i].api_key.clone());
                } else {
                    return None;
                }
            }
            i = i + 1;
        }
        assert(self.providers@.take(i as int) =~= self.providers@);
        None
    }

    /// The endpoint, model identifier and key of the standalone custom model
    /// named `name`: its own key, or else the stored key of the provider it
    /// borrows one from.
    pub fn custom_endpoint(&self, name: &str) -> (r: Option<(String, String, Option<String>)>)
        ensures
            ({
                let k = first_standalone_named(self.custom_models@, name@);
                match r {
                    None => k < 0,
                    Some((e, m, key)) => k >= 0 && match self.custom_models@[k] {
                        CustomModel::Standalone { endpoint, model, api_key, use_key_from, .. } => {
                            &&& e@ == endpoint@
                            &&& m@ == model@
                            &&& match (key, api_key, use_key_from) {
                                (Some(a), Some(b), _) => a@ == b@,
                                (key, None, Some(p)) => match (key, stored_key(self.providers@, p@)) {
                                    (Some(a), Some(b)) => a@ == b,
                                    (None, None) => true,
                                    _ => false,
                                },
                                (None, None, None) => true,
                                _ => false,
                            }
                        },
                        _ => false,
                    },
                }
            }),
    {
        let mut i: usize = 0;
        while i < self.custom_models.len()
            invariant
                i <= self.custom_models.len(),
                first_standalone_named(self.custom_models@.take(i as int), name@) == -1,
            decreases self.custom_models.len() - i,
        {
            proof {
                assert(self.custom_models@.take(i + 1).drop_last() =~= self.custom_models@.take(i as int));
            }
            match &self.custom_models[i] {
                CustomModel::Standalone { name: n, endpoint, model, api_key, use_key_from } => {
                    if str_eq(n.as_str(), name) {
                        assert(first_standalone_named(self.custom_models@.take(i + 1), name@) == i);
                        proof {
                            lemma_first_standalone_prefix(self.custom_models@, name@, i + 1);
                        }
                        let key = match api_key {
                            Some(k) => Some(k.clone()),
                            None => match use_key_from {
                                Some(p) => self.provider_api_key(p.as_str()),
                                None => None,
                            },
                        };
                        return Some((endpoint.clone(), model.clone(), key));
                    }
                },
                CustomModel::Derived { .. } => {},
            }
            i = i + 1;
        }
        assert(self.custom_models@.take(i as int) =~= self.custom_models@);
        None
    }

    /// Puts the `idx`-th enabled model on the displayed conversation and makes
    /// it the model of new conversations.
    pub fn select_model(&mut self, idx: usize)
        ensures
            ({
                let pairs = old(self).enabled_pairs();
                if idx < pairs.len() {
                    let reference = pairs[idx as int].0 + seq![':'] + pairs[idx as int].1;
                    &&& final(self).current_model@ == reference
                    &&& old(self).current_chat < old(self).chats@.len() ==> chat_views(
                        final(self).chats@,
                    ) == chat_views(old(self).chats@).update(
                        old(self).current_chat as int,
                        ChatView { model: reference, ..chat_views(old(self).chats@)[old(self).current_chat as int] },
                    )
                    &&& old(self).current_chat >= old(self).chats@.len() ==> final(self).chats@ == old(self).chats@
                } else {
                    &&& final(self).current_model@ == old(self).current_model@
                    &&& final(self).chats@ == old(self).chats@
                }
            }),
            final(self).current_chat == old(self).current_chat,
            final(self).stream_tasks@ == old(self).stream_tasks@,
            final(self).need_rebuild_cache == old(self).need_rebuild_cache,
    {
        let models = self.enabled_models_flat();
        if idx >= models.len() {
            return;
        }
        proof {
            reveal_strlit(":");
        }
        assert(pair_views(models@)[idx as int] == (models@[idx as int].0@, models@[idx as int].1@));
        let mut reference = models[idx].0.clone();
        reference.append(":");
        reference.append(models[idx].1.as_str());
        let c = self.current_chat;
        if c < self.chats.len() {
            let ghost old_chats = chat_views(self.chats@);
            let mut chat = self.chats.remove(c);
            chat.model = reference.clone();
            self.chats.insert(c, chat);
            assert(chat_views(self.chats@) =~= old_chats.update(c as int, ChatView { model: reference@, ..old_chats[c as int] }));
        }
        assert(reference@ == self.enabled_pairs()[idx as int].0 + seq![':'] + self.enabled_pairs()[idx as int].1);
        self.current_model = reference;
    }
}

fn str_eq(a: &str, b: &str) -> (r: bool)
    ensures
        r == (a@ == b@),
{
    String::from_str(a) == String::from_str(b)
}

proof fn lemma_first_provider_prefix(ps: Seq<Provider>, name: Seq<char>, i: int)
    requires
        0 <= i <= ps.len(),
        first_provider_named(ps.take(i), name) >= 0,
    ensures
        first_provider_named(ps, name) == first_provider_named(ps.take(i), name),
    decreases ps.len() - i,
{
    if i < ps.len() {
        assert(ps.take(i + 1).drop_last() =~= ps.take(i));
        lemma_first_provider_prefix(ps, name, i + 1);
    } else {
        assert(ps.take(i) =~= ps);
    }
}

proof fn lemma_first_standalone_prefix(cs: Seq<CustomModel>, name: Seq<char>, i: int)
    requires
        0 <= i <= cs.len(),
        first_standalone_named(cs.take(i), name) >= 0,
    ensures
        first_standalone_named(cs, name) == first_standalone_named(cs.take(i), name),
    decreases cs.len() - i,
{
    if i < cs.len() {
        assert(cs.take(i + 1).drop_last() =~= cs.take(i));
        lemma_first_standalone_prefix(cs, name, i + 1);
    } else {
        assert(cs.take(i) =~= cs);
    }
}

/// Idempotent rebuild: preparing a second frame at the same size, with no
/// change of content in between, yields the same cache, lines and
/// line-to-message index as the first.
pub proof fn lemma_rebuild_idempotent(a: App, b: App, c: App, width: nat, height: nat)
    requires
        a.cache_valid(),
        frame_prepared(a, b, width, height),
        frame_prepared(b, c, width, height),
    ensures
        entry_views(c.line_cache@) == entry_views(b.line_cache@),
        line_views(c.document.lines@) == line_views(b.document.lines@),
        c.document.line_to_message@ == b.document.line_to_message@,
{
    assert(chat_views(b.chats@).len() == b.chats@.len());
    assert(chat_views(a.chats@).len() == a.chats@.len());
    if b.current_chat < b.chats@.len() {
        let i = b.current_chat as int;
        assert(chat_views(b.chats@)[i] == b.chats@[i]@);
        assert(chat_views(a.chats@)[i] == a.chats@[i]@);
        assert(chat_views(b.chats@)[i] == chat_views(a.chats@)[i]);
    }
    assert(b.current_messages() == a.current_messages());
    assert(b.expected_cache(width) == a.expected_cache(width));
}

/// `s` with every occurrence of `x` taken out.
pub open spec fn without(s: Seq<Seq<char>>, x: Seq<char>) -> Seq<Seq<char>>
    decreases s.len(),
{
    if s.len() == 0 {
        seq![]
    } else if s.last() == x {
        without(s.drop_last(), x)
    } else {
        without(s.drop_last(), x).push(s.last())
    }
}

/// The enabled models after toggling `model`: taken out where enabled,
/// added at the end where not.
pub open spec fn toggled_models(enabled: Seq<Seq<char>>, model: Seq<char>) -> Seq<Seq<char>> {
    if enabled.contains(model) {
        without(enabled, model)
    } else {
        enabled.push(model)
    }
}

impl App {
    /// Enables the model of provider `p_idx` if it is disabled, and
    /// disables it if it is enabled.
    pub fn toggle_model_enabled(&mut self, p_idx: usize, model: &str)
        ensures
            p_idx < old(self).providers@.len() ==> {
                let p = old(self).providers@[p_idx as int];
                let q = final(self).providers@[p_idx as int];
                &&& final(self).providers@.len() == old(self).providers@.len()
                &&& forall|i: int|
                    0 <= i < old(self).providers@.len() && i != p_idx ==> #[trigger] final(self).providers@[i]
                        == old(self).providers@[i]
                &&& views(q.enabled_models@) == toggled_models(views(p.enabled_models@), model@)
                &&& q.name == p.name && q.api_key == p.api_key && q.models == p.models && q.expanded
                    == p.expanded
            },
            p_idx >= old(self).providers@.len() ==> final(self).providers@ == old(self).providers@,
            final(self).chats@ == old(self).chats@,
    {
        if p_idx >= self.providers.len() {
            return;
        }
        let target = String::from_str(model);
        let mut p = self.providers.remove(p_idx);
        let ghost old_enabled = views(p.enabled_models@);
        let mut found = false;
        let mut kept: Vec<String> = Vec::new();
        let mut i: usize = 0;
        while i < p.enabled_models.len()
            invariant
                i <= p.enabled_models.len(),
                old_enabled == views(p.enabled_models@),
                target@ == model@,
                views(kept@) == without(old_enabled.take(i as int), model@),
                found == old_enabled.take(i as int).contains(model@),
            decreases p.enabled_models.len() - i,
        {
            proof {
                let t = old_enabled.take(i + 1);
                assert(t.drop_last() =~= old_enabled.take(i as int));
                assert(t.last() == p.enabled_models@[i as int]@);
                if old_enabled.take(i as int).contains(model@) {
                    let k = choose|k: int| 0 <= k < i && old_enabled.take(i as int)[k] == model@;
                    assert(t[k] == model@);
                }
                if t.contains(model@) && t.last() != model@ {
                    let k = choose|k: int| 0 <= k < t.len() && t[k] == model@;
                    assert(old_enabled.take(i as int)[k] == model@);
                }
            }
            if p.enabled_models[i] == target {
                found = true;
            } else {
                let ghost before = kept@;
                kept.push(p.enabled_models[i].clone());
                assert(views(kept@) =~= views(before).push(p.enabled_models@[i as int]@));
            }
            i = i + 1;
        }
        assert(old_enabled.take(i as int) =~= old_enabled);
        if found {
            p.enabled_models = kept;
        } else {
            let ghost before = p.enabled_models@;
            p.enabled_models.push(target);
            assert(views(p.enabled_models@) =~= views(before).push(model@));
        }
        self.providers.insert(p_idx, p);
    }

    /// Stores a provider's API key, trimmed; a key shorter than the minimum
    /// is refused and nothing changes.
    pub fn set_provider_key(&mut self, p_idx: usize, key: &str) -> (r: bool)
        ensures
            r == (p_idx < old(self).providers@.len() && trim(key@).len()
                >= crate::wizard::MIN_API_KEY_CHARS),
            r ==> final(self).providers@.len() == old(self).providers@.len()
                && final(self).providers@[p_idx as int].api_key@ == trim(key@)
                && final(self).providers@[p_idx as int].name == old(self).providers@[p_idx as int].name
                && final(self).providers@[p_idx as int].enabled_models
                    == old(self).providers@[p_idx as int].enabled_models
                && forall|i: int|
                0 <= i < old(self).providers@.len() && i != p_idx ==> #[trigger] final(self).providers@[i]
                    == old(self).providers@[i],
            !r ==> final(self).providers@ == old(self).providers@,
            final(self).chats@ == old(self).chats@,
    {
        if p_idx >= self.providers.len() {
            return false;
        }
        let k = crate::wizard::trimmed(key);
        if k.as_str().unicode_len() < crate::wizard::MIN_API_KEY_CHARS {
            return false;
        }
        let mut p = self.providers.remove(p_idx);
        p.api_key = k;
        self.providers.insert(p_idx, p);
        true
    }
}


impl App {
    /// Whether the displayed conversation waits for the first text of a
    /// response: it is streaming and has no assistant text yet at its end.
    pub fn awaiting_response(&self) -> (r: bool)
        ensures
            r == (self.current_chat < self.chats@.len() && {
                let c = self.chats@[self.current_chat as int];
                let ms = c.messages@;
                c.streaming && (ms.len() == 0 || ms.last().role == Role::User || trim(
                    ms.last().content@,
                ).len() == 0)
            }),
    {
        if self.current_chat >= self.chats.len() {
            return false;
        }
        let c = &self.chats[self.current_chat];
        if !c.streaming {
            return false;
        }
        let n = c.messages.len();
        if n == 0 {
            return true;
        }
        let last = &c.messages[n - 1];
        last.role == Role::User || crate::wizard::trimmed(last.content.as_str()).as_str().unicode_len() == 0
    }
}

} // verus!
