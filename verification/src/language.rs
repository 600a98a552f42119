//! Languages of artist names, identified by their ISO 639-1 code.
use vstd::prelude::*;
use vstd::string::*;

use crate::text::opt_chars;

verus! {

/// What `isolang` knows of a two-letter code: `None` where `Language::from_639_1` finds no
/// language for it, else the language's display text (its English name).
pub uninterp spec fn spec_iso639_1_name(code: Seq<char>) -> Option<Seq<char>>;

/// Looks `code` up with `isolang::Language::from_639_1` and renders a found language with its
/// `Display` impl (the English name, under the crate's default features). Only the tie of the
/// result to `spec_iso639_1_name` of the argument is claimed, and that only two-character
/// codes are found (every key of isolang's two-letter table has two letters); which codes
/// exist and what their names are is isolang's table and is not stated here.
#[verifier::external_body]
fn iso639_1_name(code: &str) -> (r: Option<String>)
    ensures
        opt_chars(r) == spec_iso639_1_name(code@),
        r is Some ==> code@.len() == 2,
{
    isolang::Language::from_639_1(code).map(|language| language.to_string())
}

/// Whether `code` is an ISO 639-1 code that isolang knows.
pub open spec fn is_known_code(code: Seq<char>) -> bool {
    spec_iso639_1_name(code) is Some
}

/// The display name of a known code.
pub open spec fn language_name(code: Seq<char>) -> Seq<char> {
    spec_iso639_1_name(code).unwrap()
}

/// A language, held as its ISO 639-1 code together with its display name.
#[derive(Debug)]
pub struct Language {
    code: String,
    name: String,
}

impl View for Language {
    type V = Seq<char>;

    /// A language is its code.
    closed spec fn view(&self) -> Seq<char> {
        self.code@
    }
}

impl Language {
    #[verifier::type_invariant]
    closed spec fn inv(self) -> bool {
        &&& spec_iso639_1_name(self.code@) == Some(self.name@)
        &&& self.code@.len() == 2
    }

    /// The language whose ISO 639-1 code is `code`, if there is one.
    pub fn from_639_1(code: &str) -> (r: Option<Language>)
        ensures
            r is Some <==> is_known_code(code@),
            r matches Some(language) ==> language@ == code@,
            r is Some ==> code@.len() == 2,
    {
        match iso639_1_name(code) {
            Some(name) => Some(Language { code: String::from_str(code), name }),
            None => None,
        }
    }

    /// The language's ISO 639-1 code.
    pub fn to_639_1(&self) -> (r: Option<String>)
        ensures
            r matches Some(code) && code@ == self@,
            self@.len() == 2,
    {
        proof {
            use_type_invariant(self);
        }
        Some(self.code.clone())
    }

    /// The language's display name.
    pub fn to_string(&self) -> (r: String)
        ensures
            is_known_code(self@),
            r@ == language_name(self@),
    {
        proof {
            use_type_invariant(self);
        }
        self.name.clone()
    }
}

impl Clone for Language {
    /// The same language.
    fn clone(&self) -> (r: Language)
        ensures
            r@ == self@,
    {
        proof {
            use_type_invariant(self);
        }
        Language { code: self.code.clone(), name: self.name.clone() }
    }
}

} // verus!
