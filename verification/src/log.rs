use vstd::prelude::*;

verus! {

/// Names the file to which completed trades are logged.
#[derive(Clone, Debug)]
pub struct Logger {
    file_path: String,
}

impl Logger {
    /// A logger that writes to `file_path`.
    pub fn new(file_path: &str) -> (res: Logger)
        ensures
            res.path()@ == file_path@,
    {
        Logger { file_path: file_path.to_owned() }
    }

    pub closed spec fn path(&self) -> String {
        self.file_path
    }

    /// The file that this logger writes to.
    pub fn file_path(&self) -> (res: &str)
        ensures
            res@ == self.path()@,
    {
        self.file_path.as_str()
    }
}

} // verus!
