//! the assembler's command line settings

use vstd::prelude::*;

verus! {

/// the source and output paths, and which stage's result to print instead of emitting
pub struct Params {
    pub s: String,
    pub o: String,
    pub lex_only: bool,
    pub use_stdout: bool,
    pub syn_parse_only: bool,
    pub sem_parse_only: bool,
    pub dry_run: bool,
}

impl Default for Params {
    fn default() -> (r: Self)
        ensures
            r.s@.len() == 0,
            r.o@.len() == 0,
            !r.lex_only,
            !r.use_stdout,
            !r.syn_parse_only,
            !r.sem_parse_only,
            !r.dry_run,
    {
        Params {
            s: String::new(),
            o: String::new(),
            lex_only: false,
            use_stdout: false,
            syn_parse_only: false,
            sem_parse_only: false,
            dry_run: false,
        }
    }
}

impl Params {
    /// the settings lack a source path, or an output path where the result goes to a file
    pub fn unpopulated(&self) -> (r: bool)
        ensures
            r == (self.s@.len() == 0 || (!self.use_stdout && self.o@.len() == 0)),
    {
        self.s.as_str().is_empty() || (!self.use_stdout && self.o.as_str().is_empty())
    }
}

} // verus!
