//! The grammars that queries can be run against.
use crate::query::engine::{compile_query, rust_grammar, CompileError};
use tree_sitter::{Language as Grammar, Query};
use vstd::prelude::*;
use vstd::string::StringExecFns;

verus! {

/// A supported source language. New languages are added as variants.
#[derive(Clone, Copy, Debug, PartialEq, Eq, Structural, PartialOrd, Ord, Hash)]
pub enum Language {
    Rust,
}

/// The display name of a language, used to tag extraction results.
pub open spec fn language_name(language: Language) -> Seq<char> {
    match language {
        Language::Rust => seq!['r', 'u', 's', 't'],
    }
}

impl Language {
    /// The tree-sitter grammar of this language.
    pub fn language(&self) -> Grammar {
        match self {
            Language::Rust => rust_grammar(),
        }
    }

    /// The display name of this language.
    pub fn name(&self) -> (r: String)
        ensures
            r@ == language_name(*self),
    {
        match self {
            Language::Rust => {
                let r = String::from_str("rust");
                proof {
                    reveal_strlit("rust");
                }
                r
            },
        }
    }

    /// Compiles a query for this language's grammar. The text is handed on
    /// with a newline at its end, which means nothing in a query and leaves
    /// the rows and columns of errors as they are.
    pub fn parse_query(&self, text: &str) -> Result<Query, CompileError> {
        let mut source = String::from_str(text);
        source.append("\n");
        proof {
            reveal_strlit("\n");
        }
        compile_query(self.language(), source.as_str())
    }
}

} // verus!
