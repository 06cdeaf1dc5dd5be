use vstd::prelude::*;

verus! {

/// Where the per-character failure logs of one run are kept.
pub struct FileLogger {
    log_dir: String,
}

impl View for FileLogger {
    type V = Seq<char>;

    closed spec fn view(&self) -> Seq<char> {
        self.log_dir@
    }
}

/// Name of the run's log directory under the system's temporary directory.
pub fn log_dir_name() -> (r: &'static str)
    ensures
        r@ == "login-rs"@,
{
    "login-rs"
}

/// The line appended to a character's log for one failure.
pub open spec fn error_entry_text(timestamp: Seq<char>, step: Seq<char>, error: Seq<char>) -> Seq<
    char,
> {
    "["@ + timestamp + "] Step: "@ + step + " | Error: "@ + error + "\n"@
}

impl FileLogger {
    /// A logger writing under `log_dir`, which the caller has prepared.
    pub fn with_dir(log_dir: String) -> (r: FileLogger)
        ensures
            r@ == log_dir@,
    {
        FileLogger { log_dir }
    }

    pub fn log_dir(&self) -> (r: &String)
        ensures
            r@ == self@,
    {
        &self.log_dir
    }

    /// The file, inside the log directory, that holds a character's failures.
    pub fn log_file_name(character_name: &str) -> (r: String)
        ensures
            r@ == character_name@ + ".log"@,
    {
        let mut s = String::from_str(character_name);
        s.append(".log");
        s
    }

    /// One log line: the timestamp in brackets, the step, and the error.
    pub fn error_entry(timestamp: &str, step: &str, error: &str) -> (r: String)
        ensures
            r@ == error_entry_text(timestamp@, step@, error@),
    {
        let mut s = String::from_str("[");
        s.append(timestamp);
        s.append("] Step: ");
        s.append(step);
        s.append(" | Error: ");
        s.append(error);
        s.append("\n");
        s
    }
}

} // verus!
