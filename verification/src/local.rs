//! Decisions of the local (on-device) model: which files make an
//! installation, which weights get loaded, and the bookkeeping of the
//! token generation loop.
use vstd::prelude::*;
use vstd::string::*;

use crate::text::{
    after_last, after_last_seq, last_index_of, lemma_last_index_of_bounds, list_contains, trim,
    trim_seq, views,
};

verus! {

/// Installation state of a local model directory.
#[derive(Debug, Clone, Copy, PartialEq, Eq, Structural)]
pub enum LocalStatus {
    Installed,
    NotInstalled,
    PartiallyInstalled,
}

/// The character views of a list of string slices.
pub open spec fn str_views(v: Seq<&str>) -> Seq<Seq<char>> {
    v.map_values(|s: &str| s@)
}

pub open spec fn install_marker_name() -> Seq<char> {
    ".install_complete"@
}

/// Weight files whose presence marks an installation as complete.
pub open spec fn installed_weight_names() -> Seq<Seq<char>> {
    seq!["model.onnx"@, "decoder_model_merged_q4.onnx"@, "model_q4.onnx"@]
}

/// Weight files that `load` accepts, in order of preference.
pub open spec fn loadable_weight_names() -> Seq<Seq<char>> {
    seq!["model.onnx"@, "decoder_model_merged_q4.onnx"@, "model_q4.onnx"@, "decoder_model.onnx"@]
}

/// Embedding models that `load` accepts, in order of preference.
pub open spec fn embedding_names() -> Seq<Seq<char>> {
    seq!["embed_tokens.onnx"@, "embed_tokens_q4.onnx"@, "embeddings.onnx"@, "embed.onnx"@]
}

/// Name of the file that marks a finished download.
pub fn install_marker() -> (r: &'static str)
    ensures
        r@ == install_marker_name(),
{
    ".install_complete"
}

pub fn installed_weight_files() -> (r: Vec<&'static str>)
    ensures
        str_views(r@) == installed_weight_names(),
{
    let r = vec!["model.onnx", "decoder_model_merged_q4.onnx", "model_q4.onnx"];
    assert(str_views(r@) =~= installed_weight_names());
    r
}

pub fn loadable_weight_files() -> (r: Vec<&'static str>)
    ensures
        str_views(r@) == loadable_weight_names(),
{
    let r = vec!["model.onnx", "decoder_model_merged_q4.onnx", "model_q4.onnx", "decoder_model.onnx"];
    assert(str_views(r@) =~= loadable_weight_names());
    r
}

pub fn embedding_files() -> (r: Vec<&'static str>)
    ensures
        str_views(r@) == embedding_names(),
{
    let r = vec!["embed_tokens.onnx", "embed_tokens_q4.onnx", "embeddings.onnx", "embed.onnx"];
    assert(str_views(r@) =~= embedding_names());
    r
}

/// Name of the tokenizer file of a model directory.
pub fn tokenizer_file() -> (r: &'static str)
    ensures
        r@ == "tokenizer.json"@,
{
    "tokenizer.json"
}

/// Name of the generation configuration of a model directory.
pub fn generation_config_file() -> (r: &'static str)
    ensures
        r@ == "genai_config.json"@,
{
    "genai_config.json"
}

/// Status of a model directory, given whether it exists and the names of
/// the files in it.
pub open spec fn install_status_spec(dir_exists: bool, present: Seq<Seq<char>>) -> LocalStatus {
    if !dir_exists {
        LocalStatus::NotInstalled
    } else if present.contains(install_marker_name()) {
        LocalStatus::Installed
    } else if exists|k: int|
        0 <= k < installed_weight_names().len() && present.contains(
            #[trigger] installed_weight_names()[k],
        ) {
        LocalStatus::Installed
    } else {
        LocalStatus::PartiallyInstalled
    }
}

/// The first candidate (by position in `candidates`) that is among `present`.
pub open spec fn is_first_present(
    candidates: Seq<Seq<char>>,
    present: Seq<Seq<char>>,
    r: Option<usize>,
) -> bool {
    match r {
        Some(i) => {
            &&& i < candidates.len()
            &&& present.contains(candidates[i as int])
            &&& forall|j: int| 0 <= j < i ==> !present.contains(#[trigger] candidates[j])
        },
        None => forall|j: int| 0 <= j < candidates.len() ==> !present.contains(#[trigger] candidates[j]),
    }
}

/// Index of the first of `candidates` found among `present`.
pub fn first_present(candidates: &Vec<&str>, present: &Vec<String>) -> (r: Option<usize>)
    ensures
        is_first_present(str_views(candidates@), views(present@), r),
{
    let mut i: usize = 0;
    while i < candidates.len()
        invariant
            i <= candidates.len(),
            forall|j: int| 0 <= j < i ==> !views(present@).contains(#[trigger] str_views(candidates@)[j]),
        decreases candidates.len() - i,
    {
        if list_contains(present, candidates[i]) {
            return Some(i);
        }
        i = i + 1;
    }
    None
}

/// `LocalModel::status`: a missing directory is not installed; the
/// marker file or any known weight file makes it installed; anything else
/// is a partial installation.
pub fn install_status(dir_exists: bool, present: &Vec<String>) -> (r: LocalStatus)
    ensures
        r == install_status_spec(dir_exists, views(present@)),
{
    if !dir_exists {
        return LocalStatus::NotInstalled;
    }
    if list_contains(present, install_marker()) {
        return LocalStatus::Installed;
    }
    let names = installed_weight_files();
    match first_present(&names, present) {
        Some(i) => {
            assert(views(present@).contains(installed_weight_names()[i as int]));
            LocalStatus::Installed
        },
        None => LocalStatus::PartiallyInstalled,
    }
}

/// The files `load` uses: indices into `loadable_weight_names()` and
/// `embedding_names()`.
#[derive(Debug, Clone, Copy, PartialEq, Eq, Structural)]
pub struct ModelFiles {
    pub weights: usize,
    pub embeddings: Option<usize>,
}

/// Why a model cannot be loaded.
#[derive(Debug, Clone, Copy, PartialEq, Eq, Structural)]
pub enum LoadError {
    /// No weight file was found in the model directory.
    NoModelWeights,
}

/// `LocalModel::load`'s choice of files: the first loadable weight file that
/// is present (an error when none is), and the first embedding model that is
/// present, if any.
pub fn select_model_files(present: &Vec<String>) -> (r: Result<ModelFiles, LoadError>)
    ensures
        match r {
            Ok(f) => {
                &&& is_first_present(loadable_weight_names(), views(present@), Some(f.weights))
                &&& is_first_present(embedding_names(), views(present@), f.embeddings)
            },
            Err(e) => {
                &&& e == LoadError::NoModelWeights
                &&& is_first_present(loadable_weight_names(), views(present@), None)
            },
        },
{
    let weights = loadable_weight_files();
    let embeds = embedding_files();
    match first_present(&weights, present) {
        None => Err(LoadError::NoModelWeights),
        Some(w) => Ok(ModelFiles { weights: w, embeddings: first_present(&embeds, present) }),
    }
}

/// Local file name of a download: the last `/`-separated piece of the
/// trimmed URL.
pub fn download_file_name<'a>(url: &'a str) -> (r: &'a str)
    ensures
        r@ == after_last_seq(trim_seq(url@), '/'),
{
    after_last(trim(url), '/')
}

/// A downloaded file lands directly in the model directory: its name holds
/// no `/`.
pub proof fn download_name_has_no_separator(url: Seq<char>)
    ensures
        forall|i: int|
            0 <= i < after_last_seq(trim_seq(url), '/').len() ==> after_last_seq(trim_seq(url), '/')[i]
                != '/',
{
    let t = trim_seq(url);
    lemma_last_index_of_bounds(t, '/');
    assert forall|i: int| 0 <= i < after_last_seq(t, '/').len() implies after_last_seq(t, '/')[i] != '/' by {
        assert(after_last_seq(t, '/')[i] == t[last_index_of(t, '/') + 1 + i]);
    }
}

/// Default `top_k` of a generation configuration.
pub fn default_top_k() -> (r: usize)
    ensures
        r == 1,
{
    1
}

/// Default `max_length` of a generation configuration.
pub fn default_max_length() -> (r: usize)
    ensures
        r == 512,
{
    512
}

/// Number of generation steps: `max_length`, or 512 when it is 0.
pub fn generation_limit(max_length: usize) -> (r: usize)
    ensures
        r == (if max_length > 0 { max_length } else { 512 }),
{
    if max_length > 0 {
        max_length
    } else {
        512
    }
}

} // verus!
