use vstd::prelude::*;

verus! {

/// A configuration value that must never be shown in logs.
pub struct Secret {
    pub value: String,
}

impl Secret {
    /// The debug rendering of a secret, which hides its value.
    pub fn redacted(&self) -> (r: &'static str)
        ensures
            r@ == "Secret { value: \"<REDACTED>\" }"@,
    {
        "Secret { value: \"<REDACTED>\" }"
    }
}

} // verus!
