use vstd::prelude::*;

verus! {

/// Why a bus request could not be served.
#[derive(Debug, Clone, Copy, PartialEq, Eq, Structural)]
pub enum KrustifyError {
    /// A hint holds a value of another type than its key calls for.
    IncorrectType,
    /// An image hint holds a structure with fewer fields than an image needs.
    MissingImageField,
    /// Every notification id has been handed out.
    IdsExhausted,
}

impl KrustifyError {
    /// The text of the bus error that reports this failure.
    pub open spec fn message_text(self) -> Seq<char> {
        match self {
            KrustifyError::IncorrectType => "a hint holds a value of the wrong type"@,
            KrustifyError::MissingImageField => "an image hint lacks one of its fields"@,
            KrustifyError::IdsExhausted => "no notification id is left"@,
        }
    }

    /// A message for the bus error that reports this failure.
    pub fn message(&self) -> (r: String)
        ensures
            r@ == self.message_text(),
    {
        match self {
            KrustifyError::IncorrectType => {
                let m = "a hint holds a value of the wrong type".to_string();
                proof {
                    reveal_strlit("a hint holds a value of the wrong type");
                }
                m
            },
            KrustifyError::MissingImageField => {
                let m = "an image hint lacks one of its fields".to_string();
                proof {
                    reveal_strlit("an image hint lacks one of its fields");
                }
                m
            },
            KrustifyError::IdsExhausted => {
                let m = "no notification id is left".to_string();
                proof {
                    reveal_strlit("no notification id is left");
                }
                m
            },
        }
    }
}

} // verus!
