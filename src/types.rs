use vstd::prelude::*;

verus! {

/// The object id of the English text-search configuration.
pub const ENGLISH: u32 = 13043;

/// The object id of the Spanish text-search configuration.
pub const SPANISH: u32 = 13063;

/// A text-search configuration, by its object id in the store.
pub struct RegConfig(pub u32);

/// The name shown for the configuration with object id `oid`.
pub open spec fn language_name(oid: u32) -> Seq<char> {
    if oid == ENGLISH {
        "English"@
    } else if oid == SPANISH {
        "Spanish"@
    } else {
        "Unsupported Language"@
    }
}

impl RegConfig {
    /// The language of the configuration, or "Unsupported Language".
    pub fn to_string(&self) -> (r: String)
        ensures
            r@ == language_name(self.0),
    {
        if self.0 == ENGLISH {
            String::from_str("English")
        } else if self.0 == SPANISH {
            String::from_str("Spanish")
        } else {
            String::from_str("Unsupported Language")
        }
    }
}

} // verus!
