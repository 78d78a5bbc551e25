//! Quine generation: escaping, templating and formatting of arbitrary text.

pub mod commands;
pub mod escape;
pub mod formatter;
pub mod generator;
pub mod text;

pub use escape::EscapeStrategy;
pub use formatter::{FormatOptions, OutputFormat};
pub use generator::{QuineError, QuineGenerator, QuineGeneratorBuilder, QuineOutput, QuineStats};

use crate::generator::{
    default_config, generation, result_view, GeneratorView, DEFAULT_MAX_INPUT_SIZE,
};
use vstd::prelude::*;

verus! {

/// Generate a quine from `input` with the default options and ceiling.
pub fn generate(input: &str) -> (result: Result<QuineOutput, QuineError>)
    ensures
        result_view(result) == generation(default_config(), input@),
{
    QuineGenerator::new().generate(input)
}

/// Generate a quine from `input` with custom options and the default
/// ceiling.
pub fn generate_with_options(input: &str, options: FormatOptions) -> (result: Result<
    QuineOutput,
    QuineError,
>)
    ensures
        result_view(result) == generation(
            GeneratorView { options: options@, max_input_size: DEFAULT_MAX_INPUT_SIZE },
            input@,
        ),
{
    QuineGenerator::with_options(options).generate(input)
}

} // verus!
