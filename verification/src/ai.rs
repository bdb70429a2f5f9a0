//! The model registry: compute modes, provider status, the provider trait
//! and the choice of models a prompt goes to.
use vstd::prelude::*;
use vstd::string::*;

use crate::text::{list_contains, str_eq, views};

verus! {

#[derive(Debug, Clone, Copy, PartialEq, Eq, Structural)]
pub enum ComputeMode {
    Local,
    Cloud,
}

#[derive(Debug, Clone, Copy, PartialEq, Eq, Structural)]
pub enum ProviderStatus {
    /// Ready for messages to be sent to
    Ready,
    /// Cloud model needs user to complete OAuth
    RequiresAuth,
    /// Local model needs to be downloaded
    RequiresInstallation,
}

/// The synchronous part of a model provider; the asynchronous `setup` and
/// `ask` are added where providers are run.
///
/// Every provider states which modes it supports and which one it uses
/// (`modes_view`, `mode_view`), proves that the mode in use is among the
/// supported ones, and answers `supported_modes` and `current_mode`
/// accordingly.
pub trait ModelProvider {
    /// The compute modes the provider supports.
    spec fn modes_view(&self) -> Seq<ComputeMode>;

    /// The compute mode the provider uses.
    spec fn mode_view(&self) -> ComputeMode;

    /// The mode a provider uses is always one of the modes it supports.
    proof fn mode_is_supported(&self)
        ensures
            self.modes_view().contains(self.mode_view()),
    ;

    /// Return the model localization identifier
    fn id(&self) -> &'static str;

    /// Return the english name of the model.
    fn name(&self) -> &'static str;

    /// What modes the AI model supports.
    fn supported_modes(&self) -> (r: Vec<ComputeMode>)
        ensures
            r@ == self.modes_view(),
    ;

    /// Get the current execution mode.
    fn current_mode(&self) -> (r: ComputeMode)
        ensures
            r == self.mode_view(),
    ;

    /// Set the execution mode of the model. If the model only supports one
    /// mode, it will not change anything: the provider is taken by shared
    /// reference, so its modes are the same after the call.
    fn set_mode(&self) {
    }

    /// Indicate if the model is ready to be used, or if the user needs to login or install the model
    fn status(&self) -> ProviderStatus;
}

/// For every provider, the mode in use is among the supported modes.
pub proof fn current_mode_is_supported<P: ModelProvider>(p: &P)
    ensures
        p.modes_view().contains(p.mode_view()),
{
    p.mode_is_supported();
}

/// A provider that supports one mode uses that mode; `set_mode` leaves it
/// (and the supported modes) as they were.
pub proof fn single_mode_is_current<P: ModelProvider>(p: &P)
    requires
        p.modes_view().len() == 1,
    ensures
        p.modes_view() == seq![p.mode_view()],
{
    p.mode_is_supported();
    let i = choose|i: int| 0 <= i < p.modes_view().len() && p.modes_view()[i] == p.mode_view();
    assert(i == 0);
    assert(p.modes_view() =~= seq![p.mode_view()]);
}

/// The modes of a cloud provider.
pub open spec fn cloud_modes() -> Seq<ComputeMode> {
    seq![ComputeMode::Cloud]
}

/// The modes of an on-device provider.
pub open spec fn local_modes() -> Seq<ComputeMode> {
    seq![ComputeMode::Local]
}

/// `[mode]`, as a vector.
pub fn single_mode(mode: ComputeMode) -> (r: Vec<ComputeMode>)
    ensures
        r@ == seq![mode],
        r@.contains(mode),
{
    let r = vec![mode];
    assert(r@ =~= seq![mode]);
    assert(r@[0] == mode);
    r
}

/// A lookup of a model by position that found nothing.
#[derive(Debug, Clone, Copy, PartialEq, Eq, Structural)]
pub enum ModelsError {
    /// No model at this index.
    NotFound(usize),
}

/// The loaded model providers, in load order.
pub struct Models<P> {
    pub models: Vec<P>,
}

impl<P> Models<P> {
    /// Initialize Models to be empty
    pub fn new() -> (m: Self)
        ensures
            m.models@ == Seq::<P>::empty(),
    {
        Models { models: Vec::new() }
    }

    /// A registry holding `models`.
    pub fn from_models(models: Vec<P>) -> (m: Self)
        ensures
            m.models@ == models@,
    {
        Models { models }
    }

    /// The model that `setup(index)` sets up: an error when there is none.
    pub fn model_at(&self, index: usize) -> (r: Result<&P, ModelsError>)
        ensures
            index < self.models.len() ==> r == Ok::<&P, ModelsError>(&self.models@[index as int]),
            index >= self.models.len() ==> r == Err::<&P, ModelsError>(ModelsError::NotFound(index)),
    {
        if index < self.models.len() {
            Ok(&self.models[index])
        } else {
            Err(ModelsError::NotFound(index))
        }
    }
}

/// What the registry knows of a provider when a prompt is sent.
pub struct ModelEntry {
    pub id: String,
    pub name: String,
    pub status: ProviderStatus,
}

/// The provider is asked: it is ready and the user selected it.
pub open spec fn is_asked(m: ModelEntry, selected: Seq<Seq<char>>) -> bool {
    m.status == ProviderStatus::Ready && selected.contains(m.id@)
}

/// `r` lists, in increasing order, exactly the positions of the models that
/// are asked.
pub open spec fn asked_positions(models: Seq<ModelEntry>, selected: Seq<Seq<char>>, r: Seq<usize>) -> bool {
    &&& forall|k: int| 0 <= k < r.len() ==> #[trigger] r[k] < models.len()
    &&& forall|k: int| 0 <= k < r.len() ==> is_asked(models[#[trigger] r[k] as int], selected)
    &&& forall|k: int, l: int| 0 <= k < l < r.len() ==> #[trigger] r[k] < #[trigger] r[l]
    &&& forall|i: int|
        0 <= i < models.len() && is_asked(#[trigger] models[i], selected) ==> r.contains(i as usize)
}

fn is_ready(s: ProviderStatus) -> (r: bool)
    ensures
        r == (s == ProviderStatus::Ready),
{
    match s {
        ProviderStatus::Ready => true,
        _ => false,
    }
}

/// `Models::ask` sends the prompt to every model that is ready and
/// selected, in registry order.
pub fn models_to_ask(models: &Vec<ModelEntry>, selected: &Vec<String>) -> (r: Vec<usize>)
    ensures
        asked_positions(models@, views(selected@), r@),
{
    let mut r: Vec<usize> = Vec::new();
    let mut i: usize = 0;
    while i < models.len()
        invariant
            i <= models.len(),
            forall|k: int| 0 <= k < r.len() ==> #[trigger] r@[k] < i,
            forall|k: int| 0 <= k < r.len() ==> is_asked(models@[#[trigger] r@[k] as int], views(selected@)),
            forall|k: int, l: int| 0 <= k < l < r.len() ==> #[trigger] r@[k] < #[trigger] r@[l],
            forall|j: int|
                0 <= j < i && is_asked(#[trigger] models@[j], views(selected@)) ==> r@.contains(j as usize),
        decreases models.len() - i,
    {
        let ghost before = r@;
        if is_ready(models[i].status) && list_contains(selected, models[i].id.as_str()) {
            r.push(i);
            assert(r@[r.len() - 1] == i);
            assert forall|j: int|
                0 <= j < i + 1 && is_asked(#[trigger] models@[j], views(selected@)) implies r@.contains(j as usize) by {
                if j < i {
                    let k = choose|k: int| 0 <= k < before.len() && before[k] == j as usize;
                    assert(r@[k] == j as usize);
                }
            }
        }
        i = i + 1;
    }
    r
}

/// Position of the first model with id `id`.
pub open spec fn model_position(models: Seq<ModelEntry>, id: Seq<char>) -> Option<int>
    decreases models.len(),
{
    if models.len() == 0 {
        None
    } else if models[0].id@ == id {
        Some(0)
    } else {
        match model_position(models.drop_first(), id) {
            Some(j) => Some(j + 1),
            None => None,
        }
    }
}

/// Position of the first model with the given id.
pub fn find_model(models: &Vec<ModelEntry>, id: &str) -> (r: Option<usize>)
    ensures
        match r {
            Some(i) => model_position(models@, id@) == Some(i as int) && i < models.len(),
            None => model_position(models@, id@) is None,
        },
{
    let mut i: usize = 0;
    assert(models@.skip(0) =~= models@);
    while i < models.len()
        invariant
            i <= models.len(),
            model_position(models@, id@) == match model_position(models@.skip(i as int), id@) {
                Some(j) => Some(j + i),
                None => None::<int>,
            },
        decreases models.len() - i,
    {
        assert(models@.skip(i as int)[0] == models@[i as int]);
        if str_eq(models[i].id.as_str(), id) {
            return Some(i);
        }
        assert(models@.skip(i as int).drop_first() =~= models@.skip(i + 1));
        i = i + 1;
    }
    None
}

/// Text the settings page shows for a provider's status.
pub fn status_label(s: ProviderStatus) -> (r: &'static str)
    ensures
        r@ == match s {
            ProviderStatus::Ready => "Authenticated"@,
            ProviderStatus::RequiresAuth => "Needs Login"@,
            ProviderStatus::RequiresInstallation => "Needs Install"@,
        },
{
    match s {
        ProviderStatus::Ready => "Authenticated",
        ProviderStatus::RequiresAuth => "Needs Login",
        ProviderStatus::RequiresInstallation => "Needs Install",
    }
}

} // verus!
