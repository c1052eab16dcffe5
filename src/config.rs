//! The application's own settings: where the SSH configuration lives.
use vstd::prelude::*;
use crate::paths::{join, join_spec};

verus! {

/// Relies on `home::home_dir`: the current user's home directory, if one is
/// known (it depends on the environment, so nothing more is stated).
#[verifier::external_body]
fn home_directory() -> (r: Option<String>) {
    home::home_dir().map(|p| p.to_string_lossy().to_string())
}

/// The home directory of the current user, if one is known.
pub fn home_dir() -> (r: Option<String>) {
    home_directory()
}

pub struct AppConfig {
    /// Directory that holds the root `config` file.
    pub workdir: String,
}

pub open spec fn default_workdir(home: Option<Seq<char>>) -> Seq<char> {
    match home {
        Some(h) => join_spec(h, ".ssh"@),
        None => join_spec("/"@, ".ssh"@),
    }
}

pub open spec fn settings_path_spec(home: Seq<char>) -> Seq<char> {
    join_spec(join_spec(home, ".config"@), "lazysshrs"@)
}

impl AppConfig {
    /// The settings for a user whose home directory is `home`: the `.ssh`
    /// directory in it, or `/.ssh` when none is known.
    pub fn for_home(home: Option<&str>) -> (r: AppConfig)
        ensures
            r.workdir@ == default_workdir(match home {
                Some(h) => Some(h@),
                None => None,
            }),
    {
        match home {
            Some(h) => AppConfig { workdir: join(h, ".ssh") },
            None => AppConfig { workdir: join("/", ".ssh") },
        }
    }

    /// Where the settings file of a user with home directory `home` is kept.
    pub fn settings_path(home: &str) -> (r: String)
        ensures
            r@ == settings_path_spec(home@),
    {
        let c = join(home, ".config");
        join(c.as_str(), "lazysshrs")
    }

    /// The settings file of the current user; `None` when no home directory is known.
    pub fn get_config_path() -> (r: Option<String>)
        ensures
            r is Some ==> exists|h: Seq<char>| r->0@ == settings_path_spec(h),
    {
        match home_dir() {
            Some(h) => Some(Self::settings_path(h.as_str())),
            None => None,
        }
    }

    /// The root configuration file.
    pub fn get_main_config_path(&self) -> (r: String)
        ensures
            r@ == join_spec(self.workdir@, "config"@),
    {
        join(self.workdir.as_str(), "config")
    }

    pub fn get_workdir(&self) -> (r: String)
        ensures
            r@ == self.workdir@,
    {
        self.workdir.clone()
    }

    /// The configuration file of folder `folder` under the working directory.
    pub fn folder_config_path(&self, folder: &str) -> (r: String)
        ensures
            r@ == join_spec(join_spec(self.workdir@, folder@), "config"@),
    {
        let d = join(self.workdir.as_str(), folder);
        join(d.as_str(), "config")
    }

    /// The file that defines an entry with source label `source_dir`: the
    /// root file when there is none, else that folder's file.
    pub fn source_config_path(&self, source_dir: &Option<String>) -> (r: String)
        ensures
            r@ == match source_dir {
                None => join_spec(self.workdir@, "config"@),
                Some(l) => join_spec(join_spec(self.workdir@, l@), "config"@),
            },
    {
        match source_dir {
            None => self.get_main_config_path(),
            Some(l) => self.folder_config_path(l.as_str()),
        }
    }
}

impl Default for AppConfig {
    fn default() -> (r: AppConfig)
        ensures
            exists|h: Option<Seq<char>>| r.workdir@ == default_workdir(h),
    {
        match home_dir() {
            Some(h) => {
                let r = AppConfig::for_home(Some(h.as_str()));
                assert(r.workdir@ == default_workdir(Some(h@)));
                r
            },
            None => {
                let r = AppConfig::for_home(None);
                assert(r.workdir@ == default_workdir(None));
                r
            },
        }
    }
}

} // verus!
