//! The renderer's settings and where settings files live.
use vstd::prelude::*;

verus! {

/// The renderer's settings: whether validation is on, and the name of the
/// GPU to prefer (empty for none).
#[derive(Debug)]
pub struct RenderConfig {
    pub debugging: bool,
    pub gpu: String,
}

impl Default for RenderConfig {
    fn default() -> (r: RenderConfig)
        ensures
            !r.debugging,
            r.gpu@ == Seq::<char>::empty(),
    {
        RenderConfig { debugging: false, gpu: String::new() }
    }
}

/// The kind of a settings file, which decides its directory and extension.
#[derive(Clone, Copy, Debug, PartialEq, Eq, Structural)]
pub enum FileType {
    Config,
    Cache,
}

/// The file name extension of each kind of file.
pub open spec fn extension(file_type: FileType) -> Seq<char> {
    match file_type {
        FileType::Config => seq!['.', 't', 'o', 'm', 'l'],
        FileType::Cache => seq!['.', 'c', 'a', 'c', 'h', 'e'],
    }
}

/// The directories that hold an application's configuration and cache files.
#[derive(Clone, Debug)]
pub struct PathManager {
    pub config_directory: String,
    pub cache_directory: String,
}

impl PathManager {
    pub fn new(config_directory: String, cache_directory: String) -> (r: PathManager)
        ensures
            r.config_directory@ == config_directory@,
            r.cache_directory@ == cache_directory@,
    {
        PathManager { config_directory, cache_directory }
    }

    /// The directory that holds files of a kind.
    pub open spec fn directory(&self, file_type: FileType) -> Seq<char> {
        match file_type {
            FileType::Config => self.config_directory@,
            FileType::Cache => self.cache_directory@,
        }
    }

    /// The path of the file `name` of a kind: its directory, a separator, the
    /// name and the kind's extension.
    pub fn get_path(&self, name: &str, file_type: FileType) -> (r: String)
        ensures
            r@ == self.directory(file_type) + seq!['/'] + name@ + extension(file_type),
    {
        let mut path = match file_type {
            FileType::Config => self.config_directory.clone(),
            FileType::Cache => self.cache_directory.clone(),
        };
        proof {
            reveal_strlit("/");
            reveal_strlit(".toml");
            reveal_strlit(".cache");
        }
        path.append("/");
        path.append(name);
        match file_type {
            FileType::Config => path.append(".toml"),
            FileType::Cache => path.append(".cache"),
        }
        path
    }
}

} // verus!
