use vstd::prelude::*;
use vstd::string::StringExecFns;

verus! {

/// A vocabulary prefix; terms of the vocabulary are written as the prefix
/// followed by the term.
pub struct Namespace<'a>(pub &'a str);

impl<'a> Namespace<'a> {
    /// The IRI of `term` in this vocabulary.
    pub fn to_iri(&self, term: &str) -> (r: String)
        ensures
            r@ == self.0@ + term@,
    {
        let s = String::from_str(self.0);
        s.concat(term)
    }

    /// The prefix of this vocabulary.
    pub fn ns(&self) -> (r: &'a str)
        ensures
            r@ == self.0@,
    {
        self.0
    }
}

pub const EDC_PREFIX: &'static str = "https://w3id.org/edc/v0.0.1/ns/";

pub const DSPACE_PREFIX: &'static str = "https://w3id.org/dspace/v0.8/";

pub const IDSA_PREFIX: &'static str = "https://w3id.org/idsa/v4.1/";

/// The IRI of `term` in the EDC vocabulary.
pub open spec fn edc_iri(term: Seq<char>) -> Seq<char> {
    EDC_PREFIX@ + term
}

} // verus!
