//! The identity translator: text passes through unchanged in both directions.
use vstd::prelude::*;
use crate::translator::Translator;

verus! {

/// Translator that leaves every text as it is.
pub struct Nil {}

impl Translator for Nil {
    open spec fn latin_of(&self, input: Seq<char>) -> Seq<char> {
        input
    }

    open spec fn cyrillic_of(&self, input: Seq<char>) -> Seq<char> {
        input
    }

    /// Just returns input
    fn to_latin(&self, input: &String) -> (output: String) {
        input.clone()
    }

    /// Just returns input
    fn to_cyrillic(&self, input: &String) -> (output: String) {
        input.clone()
    }
}

} // verus!
