use vstd::prelude::*;

verus! {

/// A fatal lexical error. Any of these aborts the whole parse: no partial
/// command is ever handed back.
#[derive(Debug, Clone, Copy, PartialEq, Eq, Structural)]
pub enum ParseError {
    /// A backslash appeared inside a flag or switch name.
    EscapeInName,
    /// A quote character appeared inside a flag or switch name.
    QuoteInName,
    /// A short-flag cluster contained a hyphen.
    HyphenInShortName,
    /// A long flag name began with a further hyphen.
    HyphenAtNameStart,
    /// A flag name was still empty when the input ended, or when a value
    /// token followed it.
    EmptyName,
    /// The input ended directly after an escaping backslash.
    EolAfterEscape,
    /// The input ended while a quoted region was still open.
    UnclosedQuote,
}

/// A per-call error from the accessor layer or the flag resolver. The
/// command stays usable; the caller decides how to recover.
#[derive(Debug, Clone, PartialEq, Eq)]
pub enum AccessError {
    /// No positional argument remains.
    MissingArgument,
    /// The next positional argument did not parse as the requested type.
    ArgumentNotParsable,
    /// The named flag has no queued value left.
    MissingFlag { name: String },
    /// The named flag's value did not parse as the requested type.
    FlagNotParsable { name: String },
    /// Neither the primary name nor its alias has a queued value.
    MissingFlagOrAlias { name: String, alias: String },
}

} // verus!
