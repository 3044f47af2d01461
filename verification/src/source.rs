use vstd::prelude::*;
use vstd::string::StrSliceExecFns;

use crate::errors::{ConfigError, RunError};
use crate::request::char_ci;

verus! {

/// Where the configuration comes from: a format selector and a filesystem
/// path. Opening and reading the path is the surrounding program's work.
#[derive(Debug)]
pub struct FileContext {
    pub path: String,
    pub format: String,
}

/// `s` names the one supported configuration format, matched
/// case-insensitively: `yaml`.
pub open spec fn is_supported_format(s: Seq<char>) -> bool {
    s.len() == 4 && char_ci(s[0], 'y', 'Y') && char_ci(s[1], 'a', 'A') && char_ci(s[2], 'm', 'M')
        && char_ci(s[3], 'l', 'L')
}

/// Gates a run on the configuration format selector: only `yaml`, in any
/// ASCII case, is accepted; every other selector is a fatal configuration
/// error.
pub fn validate_format(ctx: &FileContext) -> (r: Result<(), RunError>)
    ensures
        r is Ok <==> is_supported_format(ctx.format@),
        r is Err ==> r == Err::<(), RunError>(
            RunError::Configuration(ConfigError::UnsupportedFormat),
        ),
{
    let s = ctx.format.as_str();
    let n = s.unicode_len();
    if n == 4 {
        let c0 = s.get_char(0);
        let c1 = s.get_char(1);
        let c2 = s.get_char(2);
        let c3 = s.get_char(3);
        if (c0 == 'y' || c0 == 'Y') && (c1 == 'a' || c1 == 'A') && (c2 == 'm' || c2 == 'M') && (c3
            == 'l' || c3 == 'L') {
            return Ok(());
        }
    }
    Err(RunError::Configuration(ConfigError::UnsupportedFormat))
}

} // verus!
