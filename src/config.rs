use vstd::prelude::*;

verus! {

/// The base directories of the XDG specification, carried opaquely.
#[verifier::external_type_specification]
#[verifier::external_body]
pub struct ExBaseDirectories(xdg::BaseDirectories);

/// The configuration: the task files that can be worked on, the first one by default.
pub struct Config {
    pub taskfiles: Vec<TaskFileConfig>,
}

/// One named task file, its optional done file, and whether finished tasks are discarded.
#[derive(Debug)]
pub struct TaskFileConfig {
    pub name: String,
    pub task_file: String,
    pub done_file: Option<String>,
    pub discard_done: bool,
}

/// Relies on `xdg::BaseDirectories::with_prefix`, which fails where the environment names no home.
#[verifier::external_body]
fn xdg_dirs(prefix: &str) -> (r: Option<xdg::BaseDirectories>) {
    xdg::BaseDirectories::with_prefix(prefix).ok()
}

/// Relies on `xdg::BaseDirectories::find_config_file`: the first existing file of that name.
#[verifier::external_body]
fn find_config_file(dirs: &xdg::BaseDirectories, name: &str) -> (r: Option<String>) {
    dirs.find_config_file(name).map(|p| p.to_string_lossy().into_owned())
}

/// The path of the configuration file in the XDG configuration directories, if one exists.
pub fn get_xdg_path() -> (r: Option<String>) {
    match xdg_dirs("giskard") {
        Some(dirs) => find_config_file(&dirs, "config.toml"),
        None => None,
    }
}

impl TaskFileConfig {
    /// Where finished tasks go: the done file if one is named; else the task file itself,
    /// unless finished tasks are to be discarded.
    pub fn archive_path(&self) -> (r: Option<String>)
        ensures
            match self.done_file {
                Some(d) => r is Some && r.unwrap()@ == d@,
                None => if self.discard_done {
                    r is None
                } else {
                    r is Some && r.unwrap()@ == self.task_file@
                },
            },
    {
        match &self.done_file {
            Some(d) => Some(d.clone()),
            None => if self.discard_done {
                None
            } else {
                Some(self.task_file.clone())
            },
        }
    }
}

impl Config {
    /// The index of the task file to work on: the first one named `name`, or the first one
    /// of all when no name is given.
    pub fn select(&self, name: Option<&String>) -> (r: Option<usize>)
        ensures
            match name {
                None => r == if self.taskfiles@.len() > 0 {
                    Some(0usize)
                } else {
                    None
                },
                Some(n) => match r {
                    Some(i) => i < self.taskfiles@.len() && self.taskfiles@[i as int].name@ == n@
                        && forall|j: int| 0 <= j < i ==> self.taskfiles@[j].name@ != n@,
                    None => forall|j: int|
                        0 <= j < self.taskfiles@.len() ==> self.taskfiles@[j].name@ != n@,
                },
            },
    {
        match name {
            None => if self.taskfiles.len() > 0 {
                Some(0)
            } else {
                None
            },
            Some(n) => {
                let mut i: usize = 0;
                while i < self.taskfiles.len()
                    invariant
                        i <= self.taskfiles@.len(),
                        name == Some(n),
                        forall|j: int| 0 <= j < i ==> self.taskfiles@[j].name@ != n@,
                    decreases self.taskfiles@.len() - i,
                {
                    if self.taskfiles[i].name == *n {
                        return Some(i);
                    }
                    i += 1;
                }
                None
            },
        }
    }
}

} // verus!
