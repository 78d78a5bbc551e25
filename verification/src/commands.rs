//! The command surface that a front end invokes: optional settings in,
//! a success flag with either the output or an error text out.

use crate::escape::EscapeStrategy;
use crate::formatter::{default_options, FormatOptions, FormatOptionsView};
use crate::generator::{
    error_message, generation, result_view, GeneratorView, QuineError, QuineErrorView,
    QuineGenerator, QuineOutput, QuineOutputView, DEFAULT_MAX_INPUT_SIZE,
};
use crate::text::str_eq;
use vstd::prelude::*;
use vstd::std_specs::convert::FromSpecImpl;

verus! {

/// The lowercase form of a text, as `str::to_lowercase` computes it from the
/// Unicode case mappings.
pub uninterp spec fn lowercase(s: Seq<char>) -> Seq<char>;

/// `str::to_lowercase`: the result is the lowercase form of the argument, a
/// function of the argument's characters alone.
#[verifier::external_body]
fn to_lowercase(s: &str) -> (lowered: String)
    ensures
        lowered@ == lowercase(s@),
{
    s.to_lowercase()
}

/// The strategy that a lowercase name stands for; a name that stands for
/// none gives the standard strategy.
pub open spec fn strategy_named(name: Seq<char>) -> EscapeStrategy {
    if name == "unicode"@ {
        EscapeStrategy::Unicode
    } else if name == "hex"@ || name == "hexadecimal"@ {
        EscapeStrategy::Hexadecimal
    } else if name == "raw"@ {
        EscapeStrategy::Raw
    } else {
        EscapeStrategy::Standard
    }
}

/// The strategy that `name`, already in lowercase, stands for.
pub fn strategy_for_name(name: &str) -> (strategy: EscapeStrategy)
    ensures
        strategy == strategy_named(name@),
{
    if str_eq(name, "unicode") {
        EscapeStrategy::Unicode
    } else if str_eq(name, "hex") || str_eq(name, "hexadecimal") {
        EscapeStrategy::Hexadecimal
    } else if str_eq(name, "raw") {
        EscapeStrategy::Raw
    } else {
        EscapeStrategy::Standard
    }
}

/// Parse escape strategy from string, whatever its case.
pub fn parse_escape_strategy(s: &str) -> (strategy: EscapeStrategy)
    ensures
        strategy == strategy_named(lowercase(s@)),
{
    let lowered = to_lowercase(s);
    strategy_for_name(lowered.as_str())
}

/// Options passed from the front end; each one that is absent leaves the
/// default in place.
#[derive(Debug)]
pub struct GenerateOptions {
    pub escape_strategy: Option<String>,
    pub indent: Option<String>,
    pub max_line_length: Option<usize>,
}

/// What a `GenerateOptions` value holds, with each text as a sequence of
/// characters.
pub struct GenerateOptionsView {
    pub escape_strategy: Option<Seq<char>>,
    pub indent: Option<Seq<char>>,
    pub max_line_length: Option<usize>,
}

impl View for GenerateOptions {
    type V = GenerateOptionsView;

    open spec fn view(&self) -> GenerateOptionsView {
        GenerateOptionsView {
            escape_strategy: match self.escape_strategy {
                Some(name) => Some(name@),
                None => None,
            },
            indent: match self.indent {
                Some(indent) => Some(indent@),
                None => None,
            },
            max_line_length: self.max_line_length,
        }
    }
}

/// The format options that a command runs with: the defaults, with each
/// setting that the front end gave in place of its default. A strategy name
/// is read in any case, and an unknown one means the standard strategy.
pub open spec fn command_options(options: Option<GenerateOptionsView>) -> FormatOptionsView {
    match options {
        Some(given) => FormatOptionsView {
            escape_strategy: match given.escape_strategy {
                Some(name) => strategy_named(lowercase(name)),
                None => default_options().escape_strategy,
            },
            indent: match given.indent {
                Some(indent) => indent,
                None => default_options().indent,
            },
            max_line_length: match given.max_line_length {
                Some(length) => length,
                None => default_options().max_line_length,
            },
            ..default_options()
        },
        None => default_options(),
    }
}

/// Response structure for the front end.
#[derive(Debug)]
pub struct GenerateResponse {
    pub success: bool,
    pub data: Option<QuineOutput>,
    pub error: Option<String>,
}

/// What a `GenerateResponse` holds, with each text as a sequence of
/// characters.
pub struct GenerateResponseView {
    pub success: bool,
    pub data: Option<QuineOutputView>,
    pub error: Option<Seq<char>>,
}

impl View for GenerateResponse {
    type V = GenerateResponseView;

    open spec fn view(&self) -> GenerateResponseView {
        GenerateResponseView {
            success: self.success,
            data: match self.data {
                Some(output) => Some(output@),
                None => None,
            },
            error: match self.error {
                Some(text) => Some(text@),
                None => None,
            },
        }
    }
}

/// The response that reports `result`: success with the output and no
/// error text, or failure with the error's message and no output.
pub open spec fn response_to(result: Result<QuineOutputView, QuineErrorView>) -> GenerateResponseView {
    match result {
        Ok(output) => GenerateResponseView { success: true, data: Some(output), error: None },
        Err(error) => GenerateResponseView {
            success: false,
            data: None,
            error: Some(error_message(error)),
        },
    }
}

impl FromSpecImpl<Result<QuineOutput, QuineError>> for GenerateResponse {
    /// The conversion is pinned down by what the response holds, in the
    /// contract of `from`, and not as a value: a specification cannot build
    /// the strings inside one.
    open spec fn obeys_from_spec() -> bool {
        false
    }

    open spec fn from_spec(result: Result<QuineOutput, QuineError>) -> Self {
        arbitrary()
    }
}

impl From<Result<QuineOutput, QuineError>> for GenerateResponse {
    fn from(result: Result<QuineOutput, QuineError>) -> (response: Self)
        ensures
            response@ == response_to(result_view(result)),
    {
        match result {
            Ok(output) => GenerateResponse { success: true, data: Some(output), error: None },
            Err(e) => GenerateResponse { success: false, data: None, error: Some(e.message()) },
        }
    }
}

/// Generate a quine from the input.
pub fn generate_quine(input: String, options: Option<GenerateOptions>) -> (response:
    GenerateResponse)
    ensures
        response@ == response_to(
            generation(
                GeneratorView {
                    options: command_options(
                        match options {
                            Some(given) => Some(given@),
                            None => None,
                        },
                    ),
                    max_input_size: DEFAULT_MAX_INPUT_SIZE,
                },
                input@,
            ),
        ),
{
    let mut format_options = FormatOptions::default();

    if let Some(opts) = options {
        if let Some(strategy) = opts.escape_strategy {
            format_options.escape_strategy = parse_escape_strategy(strategy.as_str());
        }
        if let Some(indent) = opts.indent {
            format_options.indent = indent;
        }
        if let Some(max_len) = opts.max_line_length {
            format_options.max_line_length = max_len;
        }
    }
    let generator = QuineGenerator::with_options(format_options);
    GenerateResponse::from(generator.generate(input.as_str()))
}

} // verus!
