use vstd::prelude::*;

verus! {

/// Helpers shared by pipeline driver code.
pub struct TaskUtil {}

impl TaskUtil {
    /// Statement logging is enabled only at the two most verbose log levels.
    pub fn check_enable_sqlx_log(log_level: &str) -> (r: bool)
        ensures
            r == (log_level@ == "debug"@ || log_level@ == "trace"@),
    {
        crate::strutil::str_equal(log_level, "debug") || crate::strutil::str_equal(
            log_level,
            "trace",
        )
    }
}

} // verus!
