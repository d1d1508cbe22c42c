//! Where model files live: the local cache path and the download address of each
//! file of a model repository.

use vstd::prelude::*;

verus! {

/// Repository of the content-rating model.
pub const RATING_MODEL_REPO: &'static str = "AdamCodd/vit-base-nsfw-detector";

/// The local path of `file_name` of repository `repo_id`: under `models/`.
pub open spec fn file_path_of(repo_id: Seq<char>, file_name: Seq<char>) -> Seq<char> {
    "models/"@ + repo_id + "/"@ + file_name
}

/// The download address of `file_name` of repository `repo_id`.
pub open spec fn url_of(repo_id: Seq<char>, file_name: Seq<char>) -> Seq<char> {
    "https://huggingface.co/"@ + repo_id + "/resolve/main/"@ + file_name
}

/// The local path of a model file: `models/<repo_id>/<file_name>`.
pub fn get_file_path(repo_id: &str, file_name: &str) -> (r: String)
    ensures
        r@ == file_path_of(repo_id@, file_name@),
{
    let mut p = String::from_str("models/");
    p.append(repo_id);
    p.append("/");
    p.append(file_name);
    p
}

/// The download address of a model file.
pub fn download_url(repo_id: &str, file_name: &str) -> (r: String)
    ensures
        r@ == url_of(repo_id@, file_name@),
{
    let mut u = String::from_str("https://huggingface.co/");
    u.append(repo_id);
    u.append("/resolve/main/");
    u.append(file_name);
    u
}

/// A file of a model repository.
pub struct RepoFile {
    pub repo_id: String,
    pub file_name: String,
}

impl RepoFile {
    /// Its local path.
    pub fn path(&self) -> (r: String)
        ensures
            r@ == file_path_of(self.repo_id@, self.file_name@),
    {
        get_file_path(self.repo_id.as_str(), self.file_name.as_str())
    }

    /// Its download address.
    pub fn url(&self) -> (r: String)
        ensures
            r@ == url_of(self.repo_id@, self.file_name@),
    {
        download_url(self.repo_id.as_str(), self.file_name.as_str())
    }
}

/// The tagging model of a repository.
pub struct TaggerModelFile {
    repo_id: String,
    model_path: String,
}

impl TaggerModelFile {
    pub fn new(repo_id: &str) -> (r: TaggerModelFile)
        ensures
            r.file() == file_path_of(repo_id@, "model.onnx"@),
    {
        TaggerModelFile { repo_id: String::from_str(repo_id), model_path: String::from_str("model.onnx") }
    }

    pub closed spec fn file(&self) -> Seq<char> {
        file_path_of(self.repo_id@, self.model_path@)
    }

    /// The repository and file name.
    pub fn location(&self) -> (r: RepoFile)
        ensures
            file_path_of(r.repo_id@, r.file_name@) == self.file(),
    {
        RepoFile { repo_id: self.repo_id.clone(), file_name: self.model_path.clone() }
    }
}

/// The table of labels of a repository.
pub struct TagCSVFile {
    repo_id: String,
    csv_path: String,
}

impl TagCSVFile {
    pub fn new(repo_id: &str) -> (r: TagCSVFile)
        ensures
            r.file() == file_path_of(repo_id@, "selected_tags.csv"@),
    {
        TagCSVFile { repo_id: String::from_str(repo_id), csv_path: String::from_str("selected_tags.csv") }
    }

    pub closed spec fn file(&self) -> Seq<char> {
        file_path_of(self.repo_id@, self.csv_path@)
    }

    /// The repository and file name.
    pub fn location(&self) -> (r: RepoFile)
        ensures
            file_path_of(r.repo_id@, r.file_name@) == self.file(),
    {
        RepoFile { repo_id: self.repo_id.clone(), file_name: self.csv_path.clone() }
    }
}

/// The model configuration of a repository.
pub struct ConfigFile {
    repo_id: String,
    config_path: String,
}

impl ConfigFile {
    pub fn new(repo_id: &str) -> (r: ConfigFile)
        ensures
            r.file() == file_path_of(repo_id@, "config.json"@),
    {
        ConfigFile { repo_id: String::from_str(repo_id), config_path: String::from_str("config.json") }
    }

    pub closed spec fn file(&self) -> Seq<char> {
        file_path_of(self.repo_id@, self.config_path@)
    }

    /// The repository and file name.
    pub fn location(&self) -> (r: RepoFile)
        ensures
            file_path_of(r.repo_id@, r.file_name@) == self.file(),
    {
        RepoFile { repo_id: self.repo_id.clone(), file_name: self.config_path.clone() }
    }
}

/// The preprocessing configuration of a repository.
pub struct PreprocessFile {
    repo_id: String,
    preprocess_path: String,
}

impl PreprocessFile {
    pub fn new(repo_id: &str) -> (r: PreprocessFile)
        ensures
            r.file() == file_path_of(repo_id@, "preprocessor_config.json"@),
    {
        PreprocessFile {
            repo_id: String::from_str(repo_id),
            preprocess_path: String::from_str("preprocessor_config.json"),
        }
    }

    pub closed spec fn file(&self) -> Seq<char> {
        file_path_of(self.repo_id@, self.preprocess_path@)
    }

    /// The repository and file name.
    pub fn location(&self) -> (r: RepoFile)
        ensures
            file_path_of(r.repo_id@, r.file_name@) == self.file(),
    {
        RepoFile { repo_id: self.repo_id.clone(), file_name: self.preprocess_path.clone() }
    }
}

/// The content-rating model.
pub struct RatingModelFile;

/// The content-rating model's configuration.
pub struct RatingConfigFile;

/// The content-rating model's preprocessing configuration.
pub struct RatingPreprocessorConfigFile;

impl RatingModelFile {
    pub fn location() -> (r: RepoFile)
        ensures
            r.repo_id@ == RATING_MODEL_REPO@,
            r.file_name@ == "onnx/model.onnx"@,
    {
        RepoFile {
            repo_id: String::from_str(RATING_MODEL_REPO),
            file_name: String::from_str("onnx/model.onnx"),
        }
    }
}

impl RatingConfigFile {
    pub fn location() -> (r: RepoFile)
        ensures
            r.repo_id@ == RATING_MODEL_REPO@,
            r.file_name@ == "onnx/config.json"@,
    {
        RepoFile {
            repo_id: String::from_str(RATING_MODEL_REPO),
            file_name: String::from_str("onnx/config.json"),
        }
    }
}

impl RatingPreprocessorConfigFile {
    pub fn location() -> (r: RepoFile)
        ensures
            r.repo_id@ == RATING_MODEL_REPO@,
            r.file_name@ == "onnx/preprocessor_config.json"@,
    {
        RepoFile {
            repo_id: String::from_str(RATING_MODEL_REPO),
            file_name: String::from_str("onnx/preprocessor_config.json"),
        }
    }
}

} // verus!
