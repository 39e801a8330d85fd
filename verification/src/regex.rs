//! Username patterns (`regexCheck`), compiled and run by `fancy_regex`.
//!
//! The manifest's patterns use look-around, which `fancy_regex` supports.
//! What a pattern accepts is the crate's business: the results below are
//! named, as functions of the pattern text and the input text alone.
use vstd::prelude::*;

verus! {

/// A compiled `fancy_regex` pattern, opaque to the verifier.
#[verifier::external_type_specification]
#[verifier::external_body]
pub struct ExRegex(fancy_regex::Regex);

/// The message that `fancy_regex::Regex::new` fails with on `pattern`, or
/// `None` when the pattern compiles.
pub uninterp spec fn regex_compile_error(pattern: Seq<char>) -> Option<Seq<char>>;

/// What `fancy_regex::Regex::is_match` returns for the regex compiled from
/// `pattern` on `text`: whether it matches somewhere, or the message of the
/// run-time error (such as the backtracking limit) it stopped with.
pub uninterp spec fn regex_match_outcome(pattern: Seq<char>, text: Seq<char>) -> Result<
    bool,
    Seq<char>,
>;

/// A pattern together with the regex compiled from it.
///
/// The only way to build one is [`CompiledPattern::compile`], whose trusted
/// step compiles the pattern and stores the regex beside the pattern text.
pub struct CompiledPattern {
    regex: fancy_regex::Regex,
    source: String,
}

impl View for CompiledPattern {
    type V = Seq<char>;

    /// The pattern text the regex was compiled from.
    closed spec fn view(&self) -> Seq<char> {
        self.source@
    }
}

/// Calls `fancy_regex::Regex::new(pattern)` and keeps the compiled regex
/// together with a copy of `pattern`; on failure the error is turned into
/// its `Display` text. The contract names the outcome: it depends on the
/// pattern alone.
#[verifier::external_body]
fn compile_regex(pattern: &str) -> (r: Result<CompiledPattern, String>)
    ensures
        match r {
            Ok(p) => regex_compile_error(pattern@) is None && p@ == pattern@,
            Err(msg) => regex_compile_error(pattern@) == Some(msg@),
        },
{
    match fancy_regex::Regex::new(pattern) {
        Ok(re) => Ok(CompiledPattern { regex: re, source: pattern.to_string() }),
        Err(e) => Err(e.to_string()),
    }
}

/// Calls `fancy_regex::Regex::is_match` on the regex held by `p`; on failure
/// the error is turned into its `Display` text. The contract names the
/// outcome as a function of the pattern `p` was compiled from and of `text`.
#[verifier::external_body]
pub(crate) fn run_regex(p: &CompiledPattern, text: &str) -> (r: Result<bool, String>)
    ensures
        match r {
            Ok(b) => regex_match_outcome(p@, text@) == Ok::<bool, Seq<char>>(b),
            Err(msg) => regex_match_outcome(p@, text@) == Err::<bool, Seq<char>>(msg@),
        },
{
    match p.regex.is_match(text) {
        Ok(b) => Ok(b),
        Err(e) => Err(e.to_string()),
    }
}

impl CompiledPattern {
    /// Compile `pattern`, or say why it does not compile.
    pub fn compile(pattern: &str) -> (r: Result<CompiledPattern, String>)
        ensures
            match r {
                Ok(p) => regex_compile_error(pattern@) is None && p@ == pattern@,
                Err(msg) => regex_compile_error(pattern@) == Some(msg@),
            },
    {
        compile_regex(pattern)
    }
}

} // verus!
