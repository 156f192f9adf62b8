use vstd::prelude::*;
use vstd::string::StringExecFns;

verus! {

/// Why a fragment could not be resolved or an identifier could not be built.
///
/// `kind` names the failure class (for example `FieldNotFound` or `ParseFailure`),
/// `message` attributes it to the stage that failed.
#[derive(Debug)]
pub struct HWIDError {
    message: String,
    kind: String,
}

impl HWIDError {
    /// The failure class.
    pub closed spec fn kind_spec(&self) -> Seq<char> {
        self.kind@
    }

    /// The stage-specific explanation.
    pub closed spec fn message_spec(&self) -> Seq<char> {
        self.message@
    }

    pub fn new(reason: &str, message: &str) -> (r: Self)
        ensures
            r.kind_spec() == reason@,
            r.message_spec() == message@,
    {
        HWIDError { kind: String::from_str(reason), message: String::from_str(message) }
    }

    pub fn kind(&self) -> (r: &str)
        ensures
            r@ == self.kind_spec(),
    {
        self.kind.as_str()
    }

    pub fn message(&self) -> (r: &str)
        ensures
            r@ == self.message_spec(),
    {
        self.message.as_str()
    }

    /// The error rendered as `kind: message`.
    pub fn describe(&self) -> (r: String)
        ensures
            r@ == self.kind_spec() + ": "@ + self.message_spec(),
    {
        let r = self.kind.clone().concat(": ");
        r.concat(self.message.as_str())
    }
}

} // verus!
