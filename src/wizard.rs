//! Adding a custom model, step by step: one state per step, each holding
//! only what that step has gathered.

use vstd::prelude::*;
use crate::config::CustomModel;
use crate::render::opt_view;
use crate::session::{CustomModelStage, Provider};
use crate::text::{chars_of, trim, trim_bounds};

verus! {

/// The longest name a custom model may have, in characters.
pub const MAX_MODEL_NAME_CHARS: usize = 50;

/// The shortest API key accepted, in characters.
pub const MIN_API_KEY_CHARS: usize = 8;

/// The steps of adding a custom model and what each has gathered.
pub enum CustomModelInput {
    /// Choosing between a model of a known provider and one at its own endpoint.
    TypeChoice { standalone: bool },
    /// Choosing the provider of a derived model.
    ProviderChoice { provider_idx: usize },
    DerivedModelName { provider: String, model: String },
    StandaloneName { name: String },
    StandaloneUrl { name: String, endpoint: String },
    StandaloneModelId { name: String, endpoint: String, model: String },
    /// Choosing whose key to use: a provider's (`choice` below the number of
    /// providers) or a key of its own.
    StandaloneApiKeyChoice { name: String, endpoint: String, model: String, choice: usize },
    StandaloneApiKeyInput { name: String, endpoint: String, model: String, key: String },
}

/// Why a step did not advance.
#[derive(Debug, Clone, Copy, PartialEq, Eq, Structural)]
pub enum WizardError {
    NoProviders,
    EmptyName,
    NameTooLong,
    InvalidUrl,
    EmptyModelId,
    KeyTooShort,
}

/// What pressing Enter did.
pub enum WizardOutcome {
    /// Moved on to the next step.
    Continue,
    /// Stayed on the step.
    Rejected(WizardError),
    /// The model is complete.
    Done(CustomModel),
}

/// The scheme of `s` parsed as a URL by the url crate, lower case.
pub uninterp spec fn parsed_scheme(s: Seq<char>) -> Option<Seq<char>>;

/// Relies on url::Url::parse and Url::scheme: the scheme of a URL that parses.
#[verifier::external_body]
fn url_scheme(s: &str) -> (r: Option<String>)
    ensures
        match (r, parsed_scheme(s@)) {
            (Some(a), Some(b)) => a@ == b,
            (None, None) => true,
            _ => false,
        },
{
    url::Url::parse(s).ok().map(|u| u.scheme().to_string())
}

pub open spec fn is_web_scheme(s: Seq<char>) -> bool {
    s == seq!['h', 't', 't', 'p'] || s == seq!['h', 't', 't', 'p', 's']
}

/// Whether `s` is a URL whose scheme is http or https.
pub open spec fn is_web_url(s: Seq<char>) -> bool {
    match parsed_scheme(s) {
        Some(scheme) => is_web_scheme(scheme),
        None => false,
    }
}

fn is_web_url_exec(s: &str) -> (r: bool)
    ensures
        r == is_web_url(s@),
{
    match url_scheme(s) {
        None => false,
        Some(scheme) => {
            let cs = chars_of(scheme.as_str());
            let http = cs.len() >= 4 && cs[0] == 'h' && cs[1] == 't' && cs[2] == 't' && cs[3] == 'p';
            let r = http && (cs.len() == 4 || (cs.len() == 5 && cs[4] == 's'));
            proof {
                if r {
                    if cs.len() == 4 {
                        assert(cs@ =~= seq!['h', 't', 't', 'p']);
                    } else {
                        assert(cs@ =~= seq!['h', 't', 't', 'p', 's']);
                    }
                }
                if is_web_scheme(cs@) {
                    assert(cs@.len() == 4 || cs@.len() == 5);
                    assert(cs@[0] == 'h' && cs@[1] == 't' && cs@[2] == 't' && cs@[3] == 'p');
                    if cs@.len() == 5 {
                        assert(cs@[4] == 's');
                    }
                }
            }
            r
        },
    }
}

/// `s` without leading and trailing whitespace.
pub fn trimmed(s: &str) -> (r: String)
    ensures
        r@ == trim(s@),
{
    let cs = chars_of(s);
    let (a, b) = trim_bounds(&cs, 0, cs.len());
    assert(cs@.subrange(0, cs.len() as int) =~= s@);
    String::from_str(s.substring_char(a, b))
}

fn appended(s: &String, t: &str) -> (r: String)
    ensures
        r@ == s@ + t@,
{
    let mut r = s.clone();
    r.append(t);
    r
}

pub open spec fn without_last(s: Seq<char>) -> Seq<char> {
    if s.len() > 0 {
        s.drop_last()
    } else {
        s
    }
}

fn shortened(s: &String) -> (r: String)
    ensures
        r@ == without_last(s@),
{
    let n = s.as_str().unicode_len();
    if n == 0 {
        String::new()
    } else {
        String::from_str(s.as_str().substring_char(0, n - 1))
    }
}

/// Whether a choice step moves down (else up) among `n` items, wrapping around.
pub open spec fn cycled(i: nat, n: nat, down: bool) -> nat {
    if n == 0 {
        i
    } else if down {
        if i + 1 >= n {
            0
        } else {
            i + 1
        }
    } else if i == 0 || i >= n {
        (n - 1) as nat
    } else {
        (i - 1) as nat
    }
}

fn cycle(i: usize, n: usize, down: bool) -> (r: usize)
    ensures
        r == cycled(i as nat, n as nat, down),
{
    if n == 0 {
        i
    } else if down {
        if i >= n - 1 {
            0
        } else {
            i + 1
        }
    } else if i == 0 || i >= n {
        n - 1
    } else {
        i - 1
    }
}

impl CustomModelInput {
    pub fn new() -> (r: CustomModelInput)
        ensures
            r == (CustomModelInput::TypeChoice { standalone: false }),
    {
        CustomModelInput::TypeChoice { standalone: false }
    }

    /// The step this state is at.
    pub fn stage(&self) -> (r: CustomModelStage)
        ensures
            r == match self {
                CustomModelInput::TypeChoice { .. } => CustomModelStage::TypeChoice,
                CustomModelInput::ProviderChoice { .. } => CustomModelStage::ProviderChoice,
                CustomModelInput::DerivedModelName { .. } => CustomModelStage::DerivedModelName,
                CustomModelInput::StandaloneName { .. } => CustomModelStage::StandaloneName,
                CustomModelInput::StandaloneUrl { .. } => CustomModelStage::StandaloneUrl,
                CustomModelInput::StandaloneModelId { .. } => CustomModelStage::StandaloneModelId,
                CustomModelInput::StandaloneApiKeyChoice { .. } => CustomModelStage::StandaloneApiKeyChoice,
                CustomModelInput::StandaloneApiKeyInput { .. } => CustomModelStage::StandaloneApiKeyInput,
            },
    {
        match self {
            CustomModelInput::TypeChoice { .. } => CustomModelStage::TypeChoice,
            CustomModelInput::ProviderChoice { .. } => CustomModelStage::ProviderChoice,
            CustomModelInput::DerivedModelName { .. } => CustomModelStage::DerivedModelName,
            CustomModelInput::StandaloneName { .. } => CustomModelStage::StandaloneName,
            CustomModelInput::StandaloneUrl { .. } => CustomModelStage::StandaloneUrl,
            CustomModelInput::StandaloneModelId { .. } => CustomModelStage::StandaloneModelId,
            CustomModelInput::StandaloneApiKeyChoice { .. } => CustomModelStage::StandaloneApiKeyChoice,
            CustomModelInput::StandaloneApiKeyInput { .. } => CustomModelStage::StandaloneApiKeyInput,
        }
    }

    /// The text being typed at this step, if it is a typing step.
    pub open spec fn field(self) -> Option<Seq<char>> {
        match self {
            CustomModelInput::DerivedModelName { model, .. } => Some(model@),
            CustomModelInput::StandaloneName { name } => Some(name@),
            CustomModelInput::StandaloneUrl { endpoint, .. } => Some(endpoint@),
            CustomModelInput::StandaloneModelId { model, .. } => Some(model@),
            CustomModelInput::StandaloneApiKeyInput { key, .. } => Some(key@),
            _ => None,
        }
    }

    /// Everything but the text being typed is the same in `a` and `b`.
    pub open spec fn same_but_field(a: CustomModelInput, b: CustomModelInput) -> bool {
        match (a, b) {
            (CustomModelInput::DerivedModelName { provider: p1, .. }, CustomModelInput::DerivedModelName {
                provider: p2,
                ..
            }) => p1@ == p2@,
            (CustomModelInput::StandaloneName { .. }, CustomModelInput::StandaloneName { .. }) => true,
            (CustomModelInput::StandaloneUrl { name: n1, .. }, CustomModelInput::StandaloneUrl { name: n2, .. }) => n1@
                == n2@,
            (
                CustomModelInput::StandaloneModelId { name: n1, endpoint: e1, .. },
                CustomModelInput::StandaloneModelId { name: n2, endpoint: e2, .. },
            ) => n1@ == n2@ && e1@ == e2@,
            (
                CustomModelInput::StandaloneApiKeyInput { name: n1, endpoint: e1, model: m1, .. },
                CustomModelInput::StandaloneApiKeyInput { name: n2, endpoint: e2, model: m2, .. },
            ) => n1@ == n2@ && e1@ == e2@ && m1@ == m2@,
            _ => false,
        }
    }

    /// Types `s` into the field of a typing step; a choice step is left as it is.
    pub fn type_text(&mut self, s: &str)
        ensures
            match old(self).field() {
                Some(f) => final(self).field() == Some(f + s@) && Self::same_but_field(
                    *old(self),
                    *final(self),
                ),
                None => *final(self) == *old(self),
            },
    {
        match self {
            CustomModelInput::DerivedModelName { model, .. } => {
                *model = appended(model, s);
            },
            CustomModelInput::StandaloneName { name } => {
                *name = appended(name, s);
            },
            CustomModelInput::StandaloneUrl { endpoint, .. } => {
                *endpoint = appended(endpoint, s);
            },
            CustomModelInput::StandaloneModelId { model, .. } => {
                *model = appended(model, s);
            },
            CustomModelInput::StandaloneApiKeyInput { key, .. } => {
                *key = appended(key, s);
            },
            _ => {},
        }
    }

    /// Deletes the last character of the field of a typing step.
    pub fn backspace(&mut self)
        ensures
            match old(self).field() {
                Some(f) => final(self).field() == Some(without_last(f)) && Self::same_but_field(
                    *old(self),
                    *final(self),
                ),
                None => *final(self) == *old(self),
            },
    {
        match self {
            CustomModelInput::DerivedModelName { model, .. } => {
                *model = shortened(model);
            },
            CustomModelInput::StandaloneName { name } => {
                *name = shortened(name);
            },
            CustomModelInput::StandaloneUrl { endpoint, .. } => {
                *endpoint = shortened(endpoint);
            },
            CustomModelInput::StandaloneModelId { model, .. } => {
                *model = shortened(model);
            },
            CustomModelInput::StandaloneApiKeyInput { key, .. } => {
                *key = shortened(key);
            },
            _ => {},
        }
    }

    /// Moves the selection of a choice step down or up, wrapping around;
    /// `providers` is how many providers there are. The key choice has one
    /// entry more: a key of the model's own.
    pub fn move_choice(&mut self, down: bool, providers: usize)
        ensures
            match *old(self) {
                CustomModelInput::TypeChoice { standalone } => *final(self) == (CustomModelInput::TypeChoice {
                    standalone: !standalone,
                }),
                CustomModelInput::ProviderChoice { provider_idx } => *final(self) == (
                CustomModelInput::ProviderChoice {
                    provider_idx: cycled(provider_idx as nat, providers as nat, down) as usize,
                }),
                CustomModelInput::StandaloneApiKeyChoice { name, endpoint, model, choice } => providers
                    < usize::MAX ==> *final(self) == (CustomModelInput::StandaloneApiKeyChoice {
                    name,
                    endpoint,
                    model,
                    choice: cycled(choice as nat, (providers + 1) as nat, down) as usize,
                }),
                _ => *final(self) == *old(self),
            },
    {
        match self {
            CustomModelInput::TypeChoice { standalone } => {
                *standalone = !*standalone;
            },
            CustomModelInput::ProviderChoice { provider_idx } => {
                *provider_idx = cycle(*provider_idx, providers, down);
            },
            CustomModelInput::StandaloneApiKeyChoice { choice, .. } => {
                if providers < usize::MAX {
                    *choice = cycle(*choice, providers + 1, down);
                }
            },
            _ => {},
        }
    }
}

pub ghost enum InputView {
    TypeChoice { standalone: bool },
    ProviderChoice { provider_idx: nat },
    DerivedModelName { provider: Seq<char>, model: Seq<char> },
    StandaloneName { name: Seq<char> },
    StandaloneUrl { name: Seq<char>, endpoint: Seq<char> },
    StandaloneModelId { name: Seq<char>, endpoint: Seq<char>, model: Seq<char> },
    StandaloneApiKeyChoice { name: Seq<char>, endpoint: Seq<char>, model: Seq<char>, choice: nat },
    StandaloneApiKeyInput { name: Seq<char>, endpoint: Seq<char>, model: Seq<char>, key: Seq<char> },
}

impl View for CustomModelInput {
    type V = InputView;

    open spec fn view(&self) -> InputView {
        match self {
            CustomModelInput::TypeChoice { standalone } => InputView::TypeChoice { standalone: *standalone },
            CustomModelInput::ProviderChoice { provider_idx } => InputView::ProviderChoice {
                provider_idx: *provider_idx as nat,
            },
            CustomModelInput::DerivedModelName { provider, model } => InputView::DerivedModelName {
                provider: provider@,
                model: model@,
            },
            CustomModelInput::StandaloneName { name } => InputView::StandaloneName { name: name@ },
            CustomModelInput::StandaloneUrl { name, endpoint } => InputView::StandaloneUrl {
                name: name@,
                endpoint: endpoint@,
            },
            CustomModelInput::StandaloneModelId { name, endpoint, model } => InputView::StandaloneModelId {
                name: name@,
                endpoint: endpoint@,
                model: model@,
            },
            CustomModelInput::StandaloneApiKeyChoice { name, endpoint, model, choice } =>
                InputView::StandaloneApiKeyChoice {
                name: name@,
                endpoint: endpoint@,
                model: model@,
                choice: *choice as nat,
            },
            CustomModelInput::StandaloneApiKeyInput { name, endpoint, model, key } =>
                InputView::StandaloneApiKeyInput {
                name: name@,
                endpoint: endpoint@,
                model: model@,
                key: key@,
            },
        }
    }
}

pub ghost enum ModelView {
    Derived { provider: Seq<char>, model: Seq<char> },
    Standalone {
        name: Seq<char>,
        endpoint: Seq<char>,
        model: Seq<char>,
        api_key: Option<Seq<char>>,
        use_key_from: Option<Seq<char>>,
    },
}

pub open spec fn model_view(c: CustomModel) -> ModelView {
    match c {
        CustomModel::Derived { provider, model } => ModelView::Derived { provider: provider@, model: model@ },
        CustomModel::Standalone { name, endpoint, model, api_key, use_key_from } => ModelView::Standalone {
            name: name@,
            endpoint: endpoint@,
            model: model@,
            api_key: opt_view(api_key),
            use_key_from: opt_view(use_key_from),
        },
    }
}

pub ghost enum OutcomeView {
    Continue,
    Rejected(WizardError),
    Done(ModelView),
}

pub open spec fn outcome_view(o: WizardOutcome) -> OutcomeView {
    match o {
        WizardOutcome::Continue => OutcomeView::Continue,
        WizardOutcome::Rejected(e) => OutcomeView::Rejected(e),
        WizardOutcome::Done(c) => OutcomeView::Done(model_view(c)),
    }
}

/// A name that is not empty and not too long once trimmed, or why not.
pub open spec fn name_error(name: Seq<char>) -> Option<WizardError> {
    let n = trim(name);
    if n.len() == 0 {
        Some(WizardError::EmptyName)
    } else if n.len() > MAX_MODEL_NAME_CHARS {
        Some(WizardError::NameTooLong)
    } else {
        None
    }
}

/// What Enter does at each step, given the providers' names: the next step
/// and the outcome. A rejected step stays where it is; a completed model
/// holds the trimmed texts.
pub open spec fn entered(w: InputView, providers: Seq<Seq<char>>) -> (InputView, OutcomeView) {
    match w {
        InputView::TypeChoice { standalone } => if standalone {
            (InputView::StandaloneName { name: seq![] }, OutcomeView::Continue)
        } else if providers.len() == 0 {
            (w, OutcomeView::Rejected(WizardError::NoProviders))
        } else {
            (InputView::ProviderChoice { provider_idx: 0 }, OutcomeView::Continue)
        },
        InputView::ProviderChoice { provider_idx } => if provider_idx < providers.len() {
            (
                InputView::DerivedModelName { provider: providers[provider_idx as int], model: seq![] },
                OutcomeView::Continue,
            )
        } else {
            (w, OutcomeView::Rejected(WizardError::NoProviders))
        },
        InputView::DerivedModelName { provider, model } => match name_error(model) {
            Some(e) => (w, OutcomeView::Rejected(e)),
            None => (w, OutcomeView::Done(ModelView::Derived { provider, model: trim(model) })),
        },
        InputView::StandaloneName { name } => match name_error(name) {
            Some(e) => (w, OutcomeView::Rejected(e)),
            None => (InputView::StandaloneUrl { name, endpoint: seq![] }, OutcomeView::Continue),
        },
        InputView::StandaloneUrl { name, endpoint } => if is_web_url(trim(endpoint)) {
            (InputView::StandaloneModelId { name, endpoint, model: seq![] }, OutcomeView::Continue)
        } else {
            (w, OutcomeView::Rejected(WizardError::InvalidUrl))
        },
        InputView::StandaloneModelId { name, endpoint, model } => if trim(model).len() == 0 {
            (w, OutcomeView::Rejected(WizardError::EmptyModelId))
        } else {
            (InputView::StandaloneApiKeyChoice { name, endpoint, model, choice: 0 }, OutcomeView::Continue)
        },
        InputView::StandaloneApiKeyChoice { name, endpoint, model, choice } => if choice < providers.len() {
            (
                w,
                OutcomeView::Done(
                    ModelView::Standalone {
                        name: trim(name),
                        endpoint: trim(endpoint),
                        model: trim(model),
                        api_key: None,
                        use_key_from: Some(providers[choice as int]),
                    },
                ),
            )
        } else {
            (InputView::StandaloneApiKeyInput { name, endpoint, model, key: seq![] }, OutcomeView::Continue)
        },
        InputView::StandaloneApiKeyInput { name, endpoint, model, key } => if trim(key).len()
            < MIN_API_KEY_CHARS {
            (w, OutcomeView::Rejected(WizardError::KeyTooShort))
        } else {
            (
                w,
                OutcomeView::Done(
                    ModelView::Standalone {
                        name: trim(name),
                        endpoint: trim(endpoint),
                        model: trim(model),
                        api_key: Some(trim(key)),
                        use_key_from: None,
                    },
                ),
            )
        },
    }
}

pub open spec fn provider_names(ps: Seq<Provider>) -> Seq<Seq<char>> {
    ps.map_values(|p: Provider| p.name@)
}

fn check_name(name: &String) -> (r: Option<WizardError>)
    ensures
        r == name_error(name@),
{
    let n = trimmed(name.as_str());
    let len = n.as_str().unicode_len();
    if len == 0 {
        Some(WizardError::EmptyName)
    } else if len > MAX_MODEL_NAME_CHARS {
        Some(WizardError::NameTooLong)
    } else {
        None
    }
}

impl CustomModelInput {
    /// Enter: validates the step and moves on, or completes the model.
    pub fn enter(&mut self, providers: &Vec<Provider>) -> (r: WizardOutcome)
        ensures
            (final(self)@, outcome_view(r)) == entered(old(self)@, provider_names(providers@)),
    {
        let ghost names = provider_names(providers@);
        match self {
            CustomModelInput::TypeChoice { standalone } => {
                if *standalone {
                    *self = CustomModelInput::StandaloneName { name: String::new() };
                    WizardOutcome::Continue
                } else if providers.len() == 0 {
                    WizardOutcome::Rejected(WizardError::NoProviders)
                } else {
                    *self = CustomModelInput::ProviderChoice { provider_idx: 0 };
                    WizardOutcome::Continue
                }
            },
            CustomModelInput::ProviderChoice { provider_idx } => {
                let i = *provider_idx;
                if i < providers.len() {
                    *self = CustomModelInput::DerivedModelName {
                        provider: providers[i].name.clone(),
                        model: String::new(),
                    };
                    WizardOutcome::Continue
                } else {
                    WizardOutcome::Rejected(WizardError::NoProviders)
                }
            },
            CustomModelInput::DerivedModelName { provider, model } => match check_name(model) {
                Some(e) => WizardOutcome::Rejected(e),
                None => WizardOutcome::Done(
                    CustomModel::Derived { provider: provider.clone(), model: trimmed(model.as_str()) },
                ),
            },
            CustomModelInput::StandaloneName { name } => match check_name(name) {
                Some(e) => WizardOutcome::Rejected(e),
                None => {
                    *self = CustomModelInput::StandaloneUrl { name: name.clone(), endpoint: String::new() };
                    WizardOutcome::Continue
                },
            },
            CustomModelInput::StandaloneUrl { name, endpoint } => {
                let e = trimmed(endpoint.as_str());
                if is_web_url_exec(e.as_str()) {
                    *self = CustomModelInput::StandaloneModelId {
                        name: name.clone(),
                        endpoint: endpoint.clone(),
                        model: String::new(),
                    };
                    WizardOutcome::Continue
                } else {
                    WizardOutcome::Rejected(WizardError::InvalidUrl)
                }
            },
            CustomModelInput::StandaloneModelId { name, endpoint, model } => {
                let m = trimmed(model.as_str());
                if m.as_str().unicode_len() == 0 {
                    WizardOutcome::Rejected(WizardError::EmptyModelId)
                } else {
                    *self = CustomModelInput::StandaloneApiKeyChoice {
                        name: name.clone(),
                        endpoint: endpoint.clone(),
                        model: model.clone(),
                        choice: 0,
                    };
                    WizardOutcome::Continue
                }
            },
            CustomModelInput::StandaloneApiKeyChoice { name, endpoint, model, choice } => {
                let c = *choice;
                if c < providers.len() {
                    WizardOutcome::Done(
                        CustomModel::Standalone {
                            name: trimmed(name.as_str()),
                            endpoint: trimmed(endpoint.as_str()),
                            model: trimmed(model.as_str()),
                            api_key: None,
                            use_key_from: Some(providers[c].name.clone()),
                        },
                    )
                } else {
                    *self = CustomModelInput::StandaloneApiKeyInput {
                        name: name.clone(),
                        endpoint: endpoint.clone(),
                        model: model.clone(),
                        key: String::new(),
                    };
                    WizardOutcome::Continue
                }
            },
            CustomModelInput::StandaloneApiKeyInput { name, endpoint, model, key } => {
                let k = trimmed(key.as_str());
                if k.as_str().unicode_len() < MIN_API_KEY_CHARS {
                    WizardOutcome::Rejected(WizardError::KeyTooShort)
                } else {
                    WizardOutcome::Done(
                        CustomModel::Standalone {
                            name: trimmed(name.as_str()),
                            endpoint: trimmed(endpoint.as_str()),
                            model: trimmed(model.as_str()),
                            api_key: Some(k),
                            use_key_from: None,
                        },
                    )
                }
            },
        }
    }
}

} // verus!
