//! The generation pipeline: validation, escaping, both renderings and size
//! statistics.

use crate::escape::{escape_text, EscapeStrategy};
use crate::formatter::{
    default_options, ends_with_single_newline, lemma_multi_line_of_template,
    lemma_one_line_has_no_newline, lemma_one_line_of_template_nonempty, multi_line_of,
    one_line_of, quine_template, FormatOptions, FormatOptionsView, Formatter, OutputFormat,
};
use crate::text::{byte_len, decimal_digits, lemma_utf8_len_zero, push_decimal, utf8_len};
use vstd::prelude::*;
use vstd::utf8::{decode_utf8, encode_utf8, encode_utf8_decode_utf8, valid_utf8};

verus! {

/// Errors that can occur during quine generation.
#[derive(Debug)]
pub enum QuineError {
    /// The input had zero length.
    EmptyInput,
    /// The input exceeded the configured ceiling.
    InputTooLarge { max: usize, actual: usize },
    /// The input bytes are not valid text.
    InvalidUtf8,
    /// A failure of the formatting stage. The formatting is total, so the
    /// pipeline never returns this today.
    FormattingError(String),
}

/// What a `QuineError` holds, with numbers unbounded and the message as a
/// sequence of characters.
pub enum QuineErrorView {
    EmptyInput,
    InputTooLarge { max: nat, actual: nat },
    InvalidUtf8,
    FormattingError(Seq<char>),
}

impl View for QuineError {
    type V = QuineErrorView;

    open spec fn view(&self) -> QuineErrorView {
        match self {
            QuineError::EmptyInput => QuineErrorView::EmptyInput,
            QuineError::InputTooLarge { max, actual } => QuineErrorView::InputTooLarge {
                max: *max as nat,
                actual: *actual as nat,
            },
            QuineError::InvalidUtf8 => QuineErrorView::InvalidUtf8,
            QuineError::FormattingError(message) => QuineErrorView::FormattingError(message@),
        }
    }
}

/// The text that describes an error to a person.
pub open spec fn error_message(error: QuineErrorView) -> Seq<char> {
    match error {
        QuineErrorView::EmptyInput => "Input is empty"@,
        QuineErrorView::InputTooLarge { max, actual } => "Input exceeds maximum size of "@
            + decimal_digits(max) + " bytes (got "@ + decimal_digits(actual) + ")"@,
        QuineErrorView::InvalidUtf8 => "Input contains invalid UTF-8 sequences"@,
        QuineErrorView::FormattingError(message) => "Formatting error: "@ + message,
    }
}

impl QuineError {
    /// The text that describes this error to a person.
    pub fn message(&self) -> (text: String)
        ensures
            text@ == error_message(self@),
    {
        let mut text = String::new();
        match self {
            QuineError::EmptyInput => {
                text.append("Input is empty");
            },
            QuineError::InputTooLarge { max, actual } => {
                text.append("Input exceeds maximum size of ");
                push_decimal(&mut text, *max);
                text.append(" bytes (got ");
                push_decimal(&mut text, *actual);
                text.append(")");
            },
            QuineError::InvalidUtf8 => {
                text.append("Input contains invalid UTF-8 sequences");
            },
            QuineError::FormattingError(message) => {
                text.append("Formatting error: ");
                text.append(message.as_str());
            },
        }
        assert(text@ =~= error_message(self@));
        text
    }
}

/// Statistics about the quine generation.
#[derive(Debug)]
pub struct QuineStats {
    /// Original input size in bytes.
    pub input_bytes: usize,
    /// One-line output size in bytes.
    pub one_line_bytes: usize,
    /// Multi-line output size in bytes.
    pub multi_line_bytes: usize,
}

/// The three sizes as unbounded numbers.
pub struct QuineStatsView {
    pub input_bytes: nat,
    pub one_line_bytes: nat,
    pub multi_line_bytes: nat,
}

impl View for QuineStats {
    type V = QuineStatsView;

    open spec fn view(&self) -> QuineStatsView {
        QuineStatsView {
            input_bytes: self.input_bytes as nat,
            one_line_bytes: self.one_line_bytes as nat,
            multi_line_bytes: self.multi_line_bytes as nat,
        }
    }
}

impl Clone for QuineStats {
    fn clone(&self) -> (r: Self)
        ensures
            r == *self,
    {
        Self {
            input_bytes: self.input_bytes,
            one_line_bytes: self.one_line_bytes,
            multi_line_bytes: self.multi_line_bytes,
        }
    }
}

/// The output of quine generation.
#[derive(Debug)]
pub struct QuineOutput {
    /// The original input.
    pub original: String,
    /// One-line quine representation.
    pub one_line: String,
    /// Multi-line formatted quine representation.
    pub multi_line: String,
    /// The escape strategy used.
    pub escape_strategy: EscapeStrategy,
    /// Statistics about the generation.
    pub stats: QuineStats,
}

/// What a `QuineOutput` holds, with each text as a sequence of characters.
pub struct QuineOutputView {
    pub original: Seq<char>,
    pub one_line: Seq<char>,
    pub multi_line: Seq<char>,
    pub escape_strategy: EscapeStrategy,
    pub stats: QuineStatsView,
}

impl View for QuineOutput {
    type V = QuineOutputView;

    open spec fn view(&self) -> QuineOutputView {
        QuineOutputView {
            original: self.original@,
            one_line: self.one_line@,
            multi_line: self.multi_line@,
            escape_strategy: self.escape_strategy,
            stats: self.stats@,
        }
    }
}

impl Clone for QuineOutput {
    fn clone(&self) -> (r: Self)
        ensures
            r@ == self@,
    {
        Self {
            original: self.original.clone(),
            one_line: self.one_line.clone(),
            multi_line: self.multi_line.clone(),
            escape_strategy: self.escape_strategy,
            stats: self.stats.clone(),
        }
    }
}

/// Whether the statistics in `output` are the byte lengths of its input and
/// of its two renderings.
pub open spec fn stats_measure(output: QuineOutputView) -> bool {
    &&& output.stats.input_bytes == utf8_len(output.original)
    &&& output.stats.one_line_bytes == utf8_len(output.one_line)
    &&& output.stats.multi_line_bytes == utf8_len(output.multi_line)
}

/// What generation under `options` makes of `input`: the input itself, the
/// two renderings of the template around the escaped input, the strategy
/// that escaped it, and the three byte lengths.
pub open spec fn rendering(options: FormatOptionsView, input: Seq<char>) -> QuineOutputView {
    let code = quine_template(escape_text(options.escape_strategy, input));
    let one_line = one_line_of(code);
    let multi_line = multi_line_of(code, options.indent, options.trailing_newline);
    QuineOutputView {
        original: input,
        one_line,
        multi_line,
        escape_strategy: options.escape_strategy,
        stats: QuineStatsView {
            input_bytes: utf8_len(input),
            one_line_bytes: utf8_len(one_line),
            multi_line_bytes: utf8_len(multi_line),
        },
    }
}

/// Every rendering is well formed: neither form is empty, the one-line form
/// holds no newline, the multi-line form ends with exactly one newline when
/// a trailing newline is asked for, and the statistics are the byte lengths
/// of the three texts.
pub proof fn lemma_rendering_is_well_formed(options: FormatOptionsView, input: Seq<char>)
    ensures
        rendering(options, input).original == input,
        rendering(options, input).one_line.len() > 0,
        rendering(options, input).multi_line.len() > 0,
        !rendering(options, input).one_line.contains('\n'),
        options.trailing_newline ==> ends_with_single_newline(
            rendering(options, input).multi_line,
        ),
        stats_measure(rendering(options, input)),
{
    let escaped = escape_text(options.escape_strategy, input);
    lemma_one_line_of_template_nonempty(escaped);
    lemma_one_line_has_no_newline(quine_template(escaped));
    lemma_multi_line_of_template(escaped, options.indent, options.trailing_newline);
}

/// Maximum input size that a generator starts with: ten mebibytes.
pub const DEFAULT_MAX_INPUT_SIZE: usize = 10 * 1024 * 1024;

/// What a generator is set up with.
pub struct GeneratorView {
    pub options: FormatOptionsView,
    pub max_input_size: usize,
}

/// The configuration a generator starts with: the default options and the
/// default ceiling.
pub open spec fn default_config() -> GeneratorView {
    GeneratorView { options: default_options(), max_input_size: DEFAULT_MAX_INPUT_SIZE }
}

/// Whether generation under `config` takes `input`: it is not empty and its
/// byte length is within the ceiling.
pub open spec fn accepts(config: GeneratorView, input: Seq<char>) -> bool {
    input.len() > 0 && utf8_len(input) <= config.max_input_size
}

/// The outcome of generation from `input` under `config`: the empty input
/// is refused, then an input longer in bytes than the ceiling, and every
/// other input is rendered.
pub open spec fn generation(config: GeneratorView, input: Seq<char>) -> Result<
    QuineOutputView,
    QuineErrorView,
> {
    if input.len() == 0 {
        Err(QuineErrorView::EmptyInput)
    } else if utf8_len(input) > config.max_input_size {
        Err(
            QuineErrorView::InputTooLarge {
                max: config.max_input_size as nat,
                actual: utf8_len(input),
            },
        )
    } else {
        Ok(rendering(config.options, input))
    }
}

/// The outcome of generation from raw bytes under `config`: bytes that are
/// not UTF-8 are refused before anything else is looked at, and bytes that
/// are go through generation as the text they encode.
pub open spec fn generation_from_bytes(config: GeneratorView, bytes: Seq<u8>) -> Result<
    QuineOutputView,
    QuineErrorView,
> {
    if valid_utf8(bytes) {
        generation(config, decode_utf8(bytes))
    } else {
        Err(QuineErrorView::InvalidUtf8)
    }
}

/// `core::str::from_utf8`: the bytes are accepted exactly when they are
/// well-formed UTF-8, and the text that comes back is made of those very
/// bytes.
#[verifier::external_body]
fn text_from_utf8(bytes: &[u8]) -> (text: Option<&str>)
    ensures
        text is Some <==> valid_utf8(bytes@),
        text matches Some(s) ==> encode_utf8(s@) == bytes@,
{
    core::str::from_utf8(bytes).ok()
}

/// The views of both sides of a generation result.
pub open spec fn result_view(result: Result<QuineOutput, QuineError>) -> Result<
    QuineOutputView,
    QuineErrorView,
> {
    match result {
        Ok(output) => Ok(output@),
        Err(error) => Err(error@),
    }
}

/// The main quine generator.
pub struct QuineGenerator {
    options: FormatOptions,
    max_input_size: usize,
}

impl View for QuineGenerator {
    type V = GeneratorView;

    /// The options and the ceiling the generator works with.
    closed spec fn view(&self) -> GeneratorView {
        GeneratorView { options: self.options@, max_input_size: self.max_input_size }
    }
}

impl Default for QuineGenerator {
    fn default() -> (r: Self)
        ensures
            r@ == default_config(),
    {
        Self::new()
    }
}

impl QuineGenerator {
    /// Create a new generator with default options.
    pub fn new() -> (r: Self)
        ensures
            r@ == default_config(),
    {
        Self { options: FormatOptions::default(), max_input_size: DEFAULT_MAX_INPUT_SIZE }
    }

    /// Create a generator with custom options.
    pub fn with_options(options: FormatOptions) -> (r: Self)
        ensures
            r@ == (GeneratorView { options: options@, max_input_size: DEFAULT_MAX_INPUT_SIZE }),
    {
        Self { options, max_input_size: DEFAULT_MAX_INPUT_SIZE }
    }

    /// Set the maximum input size.
    pub fn with_max_input_size(self, size: usize) -> (r: Self)
        ensures
            r@ == (GeneratorView { max_input_size: size, ..self@ }),
    {
        let mut generator = self;
        generator.max_input_size = size;
        generator
    }

    /// Generate a quine from the input.
    pub fn generate(&self, input: &str) -> (result: Result<QuineOutput, QuineError>)
        ensures
            result_view(result) == generation(self@, input@),
            input@.len() == 0 ==> result matches Err(QuineError::EmptyInput),
            utf8_len(input@) > self@.max_input_size ==> (result matches Err(
                QuineError::InputTooLarge { max, actual },
            ) && max == self@.max_input_size && actual == utf8_len(input@)),
            accepts(self@, input@) <==> result is Ok,
            result matches Ok(output) ==> {
                &&& output.one_line@.len() > 0
                &&& output.multi_line@.len() > 0
                &&& !output.one_line@.contains('\n')
                &&& self@.options.trailing_newline ==> ends_with_single_newline(
                    output.multi_line@,
                )
                &&& stats_measure(output@)
            },
    {
        proof {
            lemma_utf8_len_zero(input@);
        }
        // Validation
        if input.is_empty() {
            return Err(QuineError::EmptyInput);
        }
        let input_bytes = byte_len(input);
        if input_bytes > self.max_input_size {
            return Err(QuineError::InputTooLarge { max: self.max_input_size, actual: input_bytes });
        }
        // Escape the input

        let escaped = self.options.escape_strategy.escape(input);

        // Create formatter
        let formatter = Formatter::new(self.options.clone());

        // Generate both formats
        let one_line = formatter.format_one_line(input, escaped.as_str());
        let multi_line = formatter.format_multi_line(input, escaped.as_str());

        // Calculate stats
        let stats = QuineStats {
            input_bytes,
            one_line_bytes: byte_len(one_line.as_str()),
            multi_line_bytes: byte_len(multi_line.as_str()),
        };

        Ok(
            QuineOutput {
                original: input.to_owned(),
                one_line,
                multi_line,
                escape_strategy: self.options.escape_strategy,
                stats,
            },
        )
    }

    /// Generate a quine from input that arrives as bytes.
    pub fn generate_from_bytes(&self, bytes: &[u8]) -> (result: Result<QuineOutput, QuineError>)
        ensures
            result_view(result) == generation_from_bytes(self@, bytes@),
            !valid_utf8(bytes@) <==> result matches Err(QuineError::InvalidUtf8),
    {
        match text_from_utf8(bytes) {
            Some(text) => {
                proof {
                    encode_utf8_decode_utf8(text@);
                }
                self.generate(text)
            },
            None => Err(QuineError::InvalidUtf8),
        }
    }

    /// Generate only one-line output.
    pub fn generate_one_line(&self, input: &str) -> (result: Result<String, QuineError>)
        ensures
            match result {
                Ok(text) => generation(self@, input@) matches Ok(output) && text@
                    == output.one_line,
                Err(error) => generation(self@, input@) == Err::<QuineOutputView, _>(error@),
            },
    {
        match self.generate(input) {
            Ok(output) => Ok(output.one_line),
            Err(error) => Err(error),
        }
    }

    /// Generate only multi-line output.
    pub fn generate_multi_line(&self, input: &str) -> (result: Result<String, QuineError>)
        ensures
            match result {
                Ok(text) => generation(self@, input@) matches Ok(output) && text@
                    == output.multi_line,
                Err(error) => generation(self@, input@) == Err::<QuineOutputView, _>(error@),
            },
    {
        match self.generate(input) {
            Ok(output) => Ok(output.multi_line),
            Err(error) => Err(error),
        }
    }
}

/// Generation has no hidden input: two results of generating from the same
/// text under the same configuration hold the same texts and numbers.
pub proof fn lemma_generation_is_deterministic(
    first_generator: QuineGenerator,
    second_generator: QuineGenerator,
    input: Seq<char>,
    first: Result<QuineOutput, QuineError>,
    second: Result<QuineOutput, QuineError>,
)
    requires
        first_generator@ == second_generator@,
        result_view(first) == generation(first_generator@, input),
        result_view(second) == generation(second_generator@, input),
    ensures
        result_view(first) == result_view(second),
        first is Ok <==> second is Ok,
        first matches Ok(a) ==> second matches Ok(b) && a@ == b@,
        first matches Err(a) ==> second matches Err(b) && a@ == b@,
{
}

/// Builder pattern for `QuineGenerator`.
pub struct QuineGeneratorBuilder {
    options: FormatOptions,
    max_input_size: usize,
}

impl View for QuineGeneratorBuilder {
    type V = GeneratorView;

    /// What a generator built now would be set up with.
    closed spec fn view(&self) -> GeneratorView {
        GeneratorView { options: self.options@, max_input_size: self.max_input_size }
    }
}

impl QuineGeneratorBuilder {
    /// A builder that starts from the default configuration.
    pub fn new() -> (r: Self)
        ensures
            r@ == default_config(),
    {
        Self { options: FormatOptions::default(), max_input_size: DEFAULT_MAX_INPUT_SIZE }
    }

    /// Set the escape strategy.
    pub fn escape_strategy(self, strategy: EscapeStrategy) -> (r: Self)
        ensures
            r@ == (GeneratorView {
                options: FormatOptionsView { escape_strategy: strategy, ..self@.options },
                ..self@
            }),
    {
        let mut builder = self;
        builder.options.escape_strategy = strategy;
        builder
    }

    /// Set the indentation string.
    pub fn indent(self, indent: &str) -> (r: Self)
        ensures
            r@ == (GeneratorView {
                options: FormatOptionsView { indent: indent@, ..self@.options },
                ..self@
            }),
    {
        let mut builder = self;
        builder.options.indent = indent.to_owned();
        builder
    }

    /// Set the maximum line length.
    pub fn max_line_length(self, length: usize) -> (r: Self)
        ensures
            r@ == (GeneratorView {
                options: FormatOptionsView { max_line_length: length, ..self@.options },
                ..self@
            }),
    {
        let mut builder = self;
        builder.options.max_line_length = length;
        builder
    }

    /// Set the maximum input size.
    pub fn max_input_size(self, size: usize) -> (r: Self)
        ensures
            r@ == (GeneratorView { max_input_size: size, ..self@ }),
    {
        let mut builder = self;
        builder.max_input_size = size;
        builder
    }

    /// Set the output format.
    pub fn output_format(self, format: OutputFormat) -> (r: Self)
        ensures
            r@ == (GeneratorView {
                options: FormatOptionsView { output_format: format, ..self@.options },
                ..self@
            }),
    {
        let mut builder = self;
        builder.options.output_format = format;
        builder
    }

    /// The generator with the configuration collected so far.
    pub fn build(self) -> (r: QuineGenerator)
        ensures
            r@ == self@,
    {
        QuineGenerator { options: self.options, max_input_size: self.max_input_size }
    }
}

impl Default for QuineGeneratorBuilder {
    fn default() -> (r: Self)
        ensures
            r@ == default_config(),
    {
        Self::new()
    }
}

} // verus!
