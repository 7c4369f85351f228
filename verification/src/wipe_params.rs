//! The resolved parameters of one run.

use vstd::prelude::*;

use crate::command::{Args, LanguageEnum};

verus! {

/// What a run needs to know: the mode, the resolved search root, the
/// selected language and the ignore prefixes.
#[derive(Debug)]
pub struct WipeParams {
    pub wipe: bool,
    pub path: String,
    pub language: LanguageEnum,
    pub ignores: Vec<String>,
}

impl WipeParams {
    /// Builds the parameters from parsed arguments and the search
    /// root; the caller resolves the root (normally the current
    /// directory) and hands it in.
    pub fn new(args: &Args, path: String) -> (r: WipeParams)
        ensures
            r.wipe == args.wipe,
            r.path == path,
            r.language == args.language,
            r.ignores@.len() == args.ignores@.len(),
            forall|i: int| 0 <= i < args.ignores@.len() ==> r.ignores@[i] == args.ignores@[i],
    {
        let ignores = args.ignores.clone();
        proof {
            assert forall|i: int| 0 <= i < args.ignores@.len() implies ignores@[i]
                == args.ignores@[i] by {
                assert(vstd::pervasive::cloned::<String>(
                    args.ignores@[i],
                    ignores@[i],
                ));
            }
        }
        WipeParams { wipe: args.wipe, path, language: args.language, ignores }
    }
}

} // verus!
