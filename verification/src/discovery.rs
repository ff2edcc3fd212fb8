//! Recognising the Apple SMC's hwmon device and its fans by name.
use vstd::prelude::*;

use crate::text::{same_text, trim, trimmed};

verus! {

/// The name the Apple SMC's hwmon device reports.
pub open spec fn smc_device_name() -> Seq<char> {
    "applesmc"@
}

/// The suffix of a fan's speed input file, after the fan's base name.
pub open spec fn fan_input_suffix() -> Seq<char> {
    "_input"@
}

/// Whether the text of a hwmon device's `name` file names the Apple SMC
/// (surrounding whitespace aside).
pub fn is_smc_device(name: &str) -> (res: bool)
    ensures
        res == (trimmed(name@) == smc_device_name()),
{
    same_text(trim(name), "applesmc")
}

/// The base name of a fan from the file name of its speed input: the file
/// name without its `_input` suffix, or nothing when it lacks the suffix.
pub fn fan_name_from_input(file_name: &str) -> (res: Option<&str>)
    ensures
        match res {
            Some(base) => file_name@ == base@ + fan_input_suffix(),
            None => !(file_name@.len() >= fan_input_suffix().len() && file_name@.subrange(
                file_name@.len() - fan_input_suffix().len(),
                file_name@.len() as int,
            ) == fan_input_suffix()),
        },
{
    let suffix = "_input";
    proof {
        reveal_strlit("_input");
    }
    let n = file_name.unicode_len();
    let k = suffix.unicode_len();
    if n < k {
        return None;
    }
    let tail = file_name.substring_char(n - k, n);
    if !same_text(tail, suffix) {
        return None;
    }
    let base = file_name.substring_char(0, n - k);
    assert(file_name@ =~= base@ + suffix@);
    Some(base)
}

} // verus!
