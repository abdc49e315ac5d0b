//! Error types of property testing, test outcomes and failure reports.

use vstd::prelude::*;
use crate::config::TestConfig;
use crate::text::{debug_text, decimal, fmt_option_u64, fmt_u128, fmt_usize, option_u64_text, push_char};
use crate::time::{Duration, duration_text};

verus! {

/// The result of a property: its output, or the error it failed with.
pub type PropertyResult<T> = Result<T, PropertyError>;

/// Error type for property testing failures.
#[derive(Debug, Clone)]
pub enum PropertyError {
    /// Property test failed with a specific message and optional context.
    PropertyFailed { message: String, context: Option<String>, iteration: Option<usize> },
    /// Generation of test data failed.
    GenerationFailed { message: String, context: Option<String> },
    /// Shrinkage process timed out.
    ShrinkageTimeout { iterations: usize, last_successful_shrink: Option<String> },
    /// Configuration error.
    ConfigError { message: String, field: Option<String> },
    /// Test execution was cancelled.
    TestCancelled { reason: String },
    /// Internal error in the testing framework.
    InternalError { message: String, source_message: Option<String> },
}

/// ` (label: value)` when there is a value, nothing otherwise.
pub open spec fn labeled(label: Seq<char>, value: Option<String>) -> Seq<char> {
    match value {
        Some(v) => " ("@ + label + ": "@ + v@ + ")"@,
        None => seq![],
    }
}

/// ` (iteration: n)` when there is an iteration number, nothing otherwise.
pub open spec fn iteration_note(iteration: Option<usize>) -> Seq<char> {
    match iteration {
        Some(n) => " (iteration: "@ + decimal(n as nat) + ")"@,
        None => seq![],
    }
}

/// The display text of a property error.
pub open spec fn property_error_text(e: PropertyError) -> Seq<char> {
    match e {
        PropertyError::PropertyFailed { message, context, iteration } => "Property failed: "@
            + message@ + labeled("context"@, context) + iteration_note(iteration),
        PropertyError::GenerationFailed { message, context } => "Generation failed: "@ + message@
            + labeled("context"@, context),
        PropertyError::ShrinkageTimeout { iterations, last_successful_shrink } =>
            "Shrinkage timeout after "@ + decimal(iterations as nat) + " iterations"@ + labeled(
            "last successful shrink"@,
            last_successful_shrink,
        ),
        PropertyError::ConfigError { message, field } => "Configuration error: "@ + message@
            + labeled("field"@, field),
        PropertyError::TestCancelled { reason } => "Test cancelled: "@ + reason@,
        PropertyError::InternalError { message, source_message } => "Internal error: "@
            + message@ + labeled("source"@, source_message),
    }
}

/// Appends ` (label: value)` to `out` when there is a value.
fn append_labeled(out: &mut String, label: &str, value: &Option<String>)
    ensures
        final(out)@ == old(out)@ + labeled(label@, *value),
{
    match value {
        Some(v) => {
            out.append(" (");
            out.append(label);
            out.append(": ");
            out.append(v.as_str());
            out.append(")");
        },
        None => {
            assert(old(out)@ + labeled(label@, *value) =~= old(out)@);
        },
    }
}

/// A copy of an optional string.
fn copy_option(o: &Option<String>) -> (r: Option<String>)
    ensures
        r is Some <==> o is Some,
        r is Some ==> r->0@ == o->0@,
{
    match o {
        Some(s) => Some(s.clone()),
        None => None,
    }
}

/// An optional string from an optional `&str`.
fn owned_option(o: Option<&str>) -> (r: Option<String>)
    ensures
        r is Some <==> o is Some,
        r is Some ==> r->0@ == o->0@,
{
    match o {
        Some(s) => Some(String::from_str(s)),
        None => None,
    }
}

impl PropertyError {
    /// The display text of the error.
    pub fn to_string(&self) -> (r: String)
        ensures
            r@ == property_error_text(*self),
    {
        match self {
            PropertyError::PropertyFailed { message, context, iteration } => {
                let mut s = String::from_str("Property failed: ");
                s.append(message.as_str());
                append_labeled(&mut s, "context", context);
                match iteration {
                    Some(n) => {
                        s.append(" (iteration: ");
                        s.append(fmt_usize(*n).as_str());
                        s.append(")");
                    },
                    None => {},
                }
                s
            },
            PropertyError::GenerationFailed { message, context } => {
                let mut s = String::from_str("Generation failed: ");
                s.append(message.as_str());
                append_labeled(&mut s, "context", context);
                s
            },
            PropertyError::ShrinkageTimeout { iterations, last_successful_shrink } => {
                let mut s = String::from_str("Shrinkage timeout after ");
                s.append(fmt_usize(*iterations).as_str());
                s.append(" iterations");
                append_labeled(&mut s, "last successful shrink", last_successful_shrink);
                s
            },
            PropertyError::ConfigError { message, field } => {
                let mut s = String::from_str("Configuration error: ");
                s.append(message.as_str());
                append_labeled(&mut s, "field", field);
                s
            },
            PropertyError::TestCancelled { reason } => {
                let mut s = String::from_str("Test cancelled: ");
                s.append(reason.as_str());
                s
            },
            PropertyError::InternalError { message, source_message } => {
                let mut s = String::from_str("Internal error: ");
                s.append(message.as_str());
                append_labeled(&mut s, "source", source_message);
                s
            },
        }
    }

    /// The underlying error: a property error wraps none.
    pub fn source(&self) -> (r: Option<String>)
        ensures
            r is None,
    {
        None
    }

    /// A property failure with a message only.
    pub fn property_failed(message: &str) -> (r: Self)
        ensures
            r matches PropertyError::PropertyFailed { message: m, context: None, iteration: None }
                && m@ == message@,
    {
        PropertyError::PropertyFailed {
            message: String::from_str(message),
            context: None,
            iteration: None,
        }
    }

    /// A property failure with a message, an optional context and an optional iteration.
    pub fn property_failed_with_context(
        message: &str,
        context: Option<&str>,
        iteration: Option<usize>,
    ) -> (r: Self)
        ensures
            r matches PropertyError::PropertyFailed { message: m, context: c, iteration: i } && m@
                == message@ && (c is Some <==> context is Some) && (c is Some ==> c->0@
                == context->0@) && i == iteration,
    {
        PropertyError::PropertyFailed {
            message: String::from_str(message),
            context: owned_option(context),
            iteration,
        }
    }

    /// A generation failure with a message and an optional context.
    pub fn generation_failed_with_context(message: &str, context: Option<&str>) -> (r: Self)
        ensures
            r matches PropertyError::GenerationFailed { message: m, context: c } && m@ == message@
                && (c is Some <==> context is Some) && (c is Some ==> c->0@ == context->0@),
    {
        PropertyError::GenerationFailed {
            message: String::from_str(message),
            context: owned_option(context),
        }
    }

    /// A configuration error with a message and an optional field name.
    pub fn config_error_with_field(message: &str, field: Option<&str>) -> (r: Self)
        ensures
            r matches PropertyError::ConfigError { message: m, field: f } && m@ == message@ && (
            f is Some <==> field is Some) && (f is Some ==> f->0@ == field->0@),
    {
        PropertyError::ConfigError { message: String::from_str(message), field: owned_option(field) }
    }

    /// A shrinkage timeout after `iterations`, with the last successful shrink if any.
    pub fn shrinkage_timeout_with_context(
        iterations: usize,
        last_successful_shrink: Option<&str>,
    ) -> (r: Self)
        ensures
            r matches PropertyError::ShrinkageTimeout { iterations: n, last_successful_shrink: l }
                && n == iterations && (l is Some <==> last_successful_shrink is Some) && (l is Some
                ==> l->0@ == last_successful_shrink->0@),
    {
        PropertyError::ShrinkageTimeout {
            iterations,
            last_successful_shrink: owned_option(last_successful_shrink),
        }
    }

    /// An internal error with a message and an optional source message.
    pub fn internal_error(message: &str, source_message: Option<&str>) -> (r: Self)
        ensures
            r matches PropertyError::InternalError { message: m, source_message: s } && m@
                == message@ && (s is Some <==> source_message is Some) && (s is Some ==> s->0@
                == source_message->0@),
    {
        PropertyError::InternalError {
            message: String::from_str(message),
            source_message: owned_option(source_message),
        }
    }

    /// A test cancellation with a reason.
    pub fn test_cancelled(reason: &str) -> (r: Self)
        ensures
            r matches PropertyError::TestCancelled { reason: m } && m@ == reason@,
    {
        PropertyError::TestCancelled { reason: String::from_str(reason) }
    }

    /// An execution failure: an internal error with a message and no source.
    pub fn execution_failed(message: &str) -> (r: Self)
        ensures
            r matches PropertyError::InternalError { message: m, source_message: None } && m@
                == message@,
    {
        PropertyError::InternalError { message: String::from_str(message), source_message: None }
    }

    /// A copy of the error, with the same texts.
    pub fn duplicate(&self) -> (r: Self)
        ensures
            property_error_text(r) == property_error_text(*self),
            same_error(r, *self),
    {
        match self {
            PropertyError::PropertyFailed { message, context, iteration } =>
                PropertyError::PropertyFailed {
                    message: message.clone(),
                    context: copy_option(context),
                    iteration: *iteration,
                },
            PropertyError::GenerationFailed { message, context } =>
                PropertyError::GenerationFailed {
                    message: message.clone(),
                    context: copy_option(context),
                },
            PropertyError::ShrinkageTimeout { iterations, last_successful_shrink } =>
                PropertyError::ShrinkageTimeout {
                    iterations: *iterations,
                    last_successful_shrink: copy_option(last_successful_shrink),
                },
            PropertyError::ConfigError { message, field } => PropertyError::ConfigError {
                message: message.clone(),
                field: copy_option(field),
            },
            PropertyError::TestCancelled { reason } => PropertyError::TestCancelled {
                reason: reason.clone(),
            },
            PropertyError::InternalError { message, source_message } =>
                PropertyError::InternalError {
                    message: message.clone(),
                    source_message: copy_option(source_message),
                },
        }
    }
}

/// Whether two optional strings hold the same text.
pub open spec fn same_text(a: Option<String>, b: Option<String>) -> bool {
    (a is Some <==> b is Some) && (a is Some ==> a->0@ == b->0@)
}

/// Whether two errors are of the same kind with the same texts and numbers.
pub open spec fn same_error(a: PropertyError, b: PropertyError) -> bool {
    match (a, b) {
        (
            PropertyError::PropertyFailed { message: m1, context: c1, iteration: i1 },
            PropertyError::PropertyFailed { message: m2, context: c2, iteration: i2 },
        ) => m1@ == m2@ && same_text(c1, c2) && i1 == i2,
        (
            PropertyError::GenerationFailed { message: m1, context: c1 },
            PropertyError::GenerationFailed { message: m2, context: c2 },
        ) => m1@ == m2@ && same_text(c1, c2),
        (
            PropertyError::ShrinkageTimeout { iterations: i1, last_successful_shrink: l1 },
            PropertyError::ShrinkageTimeout { iterations: i2, last_successful_shrink: l2 },
        ) => i1 == i2 && same_text(l1, l2),
        (
            PropertyError::ConfigError { message: m1, field: f1 },
            PropertyError::ConfigError { message: m2, field: f2 },
        ) => m1@ == m2@ && same_text(f1, f2),
        (PropertyError::TestCancelled { reason: r1 }, PropertyError::TestCancelled { reason: r2 }) =>
            r1@ == r2@,
        (
            PropertyError::InternalError { message: m1, source_message: s1 },
            PropertyError::InternalError { message: m2, source_message: s2 },
        ) => m1@ == m2@ && same_text(s1, s2),
        _ => false,
    }
}

} // verus!

verus! {

/// Information about a successful test run.
#[derive(Debug)]
pub struct TestSuccess<T> {
    /// Number of iterations completed.
    pub iterations: usize,
    /// Test configuration used.
    pub config: TestConfig,
    /// Ties the record to the input type of the property.
    pub marker: core::marker::PhantomData<T>,
}

impl<T> TestSuccess<T> {
    /// A successful run of `iterations` iterations under `config`.
    pub fn new(iterations: usize, config: TestConfig) -> (r: Self)
        ensures
            r.iterations == iterations,
            r.config == config,
    {
        TestSuccess { iterations, config, marker: core::marker::PhantomData }
    }
}

/// Information about a failed test run.
#[derive(Debug)]
pub struct TestFailure<T> {
    /// The error that caused the failure.
    pub error: PropertyError,
    /// Original input that caused the failure.
    pub original_input: T,
    /// Shrunk input, if shrinking was successful.
    pub shrunk_input: Option<T>,
    /// Number of shrinking steps performed.
    pub shrink_steps: usize,
    /// Test configuration used.
    pub config: TestConfig,
    /// Iteration number where the failure occurred.
    pub failed_iteration: usize,
    /// Total time spent on the test.
    pub test_duration: Duration,
    /// Time spent on shrinking.
    pub shrink_duration: Duration,
}

/// The detailed report of a failure whose inputs read `original` and `shrunk`.
pub open spec fn detailed_report_text<T>(f: TestFailure<T>, original: Seq<char>, shrunk: Seq<char>) -> Seq<
    char,
> {
    "Property test failed on iteration "@ + decimal(f.failed_iteration as nat) + "\n"@
        + "Error: "@ + property_error_text(f.error) + "\n"@ + "Original input: "@ + original
        + "\n"@ + (if f.shrunk_input is Some {
        "Shrunk input: "@ + shrunk + "\n"@ + "Shrinking steps: "@ + decimal(f.shrink_steps as nat)
            + "\n"@ + "Shrinking time: "@ + duration_text(f.shrink_duration@) + "\n"@
    } else {
        "No shrinking performed\n"@
    }) + "Total test time: "@ + duration_text(f.test_duration@) + "\n"@
        + "Test configuration: iterations="@ + decimal(f.config.iterations as nat) + ", seed="@
        + option_u64_text(f.config.seed) + "\n"@
}

/// The one-line summary of a failure whose inputs read `original` and `shrunk`.
pub open spec fn summary_text<T>(f: TestFailure<T>, original: Seq<char>, shrunk: Seq<char>) -> Seq<
    char,
> {
    if f.shrunk_input is Some {
        "Property failed with input "@ + shrunk + " (shrunk from "@ + original + ") on iteration "@
            + decimal(f.failed_iteration as nat)
    } else {
        "Property failed with input "@ + original + " on iteration "@ + decimal(
            f.failed_iteration as nat,
        )
    }
}

impl<T> TestFailure<T> {
    /// A failure record from its parts.
    pub fn new(
        error: PropertyError,
        original_input: T,
        shrunk_input: Option<T>,
        shrink_steps: usize,
        config: TestConfig,
        failed_iteration: usize,
        test_duration: Duration,
        shrink_duration: Duration,
    ) -> (r: Self)
        ensures
            r == (TestFailure {
                error,
                original_input,
                shrunk_input,
                shrink_steps,
                config,
                failed_iteration,
                test_duration,
                shrink_duration,
            }),
    {
        TestFailure {
            error,
            original_input,
            shrunk_input,
            shrink_steps,
            config,
            failed_iteration,
            test_duration,
            shrink_duration,
        }
    }

    /// The `Debug` texts of the original and (when there is one) the shrunk input.
    fn input_texts(&self) -> (r: (String, String)) where T: core::fmt::Debug
        ensures
            self.shrunk_input is None ==> r.1@ == Seq::<char>::empty(),
    {
        let original = debug_text(&self.original_input);
        let shrunk = match &self.shrunk_input {
            Some(x) => debug_text(x),
            None => String::new(),
        };
        (original, shrunk)
    }

    /// The detailed report, given the texts of the original and the shrunk input.
    pub fn detailed_report_with(&self, original: &str, shrunk: &str) -> (r: String)
        ensures
            r@ == detailed_report_text(*self, original@, shrunk@),
    {
        let mut report = String::from_str("Property test failed on iteration ");
        report.append(fmt_usize(self.failed_iteration).as_str());
        report.append("\n");
        report.append("Error: ");
        report.append(self.error.to_string().as_str());
        report.append("\n");
        report.append("Original input: ");
        report.append(original);
        report.append("\n");
        let ghost head = report@;
        if self.shrunk_input.is_some() {
            report.append("Shrunk input: ");
            report.append(shrunk);
            report.append("\n");
            report.append("Shrinking steps: ");
            report.append(fmt_usize(self.shrink_steps).as_str());
            report.append("\n");
            report.append("Shrinking time: ");
            report.append(self.shrink_duration.debug_text().as_str());
            report.append("\n");
        } else {
            report.append("No shrinking performed\n");
        }
        report.append("Total test time: ");
        report.append(self.test_duration.debug_text().as_str());
        report.append("\n");
        report.append("Test configuration: iterations=");
        report.append(fmt_usize(self.config.iterations).as_str());
        report.append(", seed=");
        report.append(fmt_option_u64(self.config.seed).as_str());
        report.append("\n");
        assert(report@ =~= detailed_report_text(*self, original@, shrunk@));
        report
    }

    /// A detailed report of the failure: iteration, error, inputs, shrinking, timing and
    /// configuration, one item per line.
    pub fn detailed_report(&self) -> (r: String) where T: core::fmt::Debug
        ensures
            exists|original: Seq<char>, shrunk: Seq<char>|
                r@ == #[trigger] detailed_report_text(*self, original, shrunk),
    {
        let (original, shrunk) = self.input_texts();
        self.detailed_report_with(original.as_str(), shrunk.as_str())
    }

    /// The summary, given the texts of the original and the shrunk input.
    pub fn summary_with(&self, original: &str, shrunk: &str) -> (r: String)
        ensures
            r@ == summary_text(*self, original@, shrunk@),
    {
        let mut s = String::from_str("Property failed with input ");
        if self.shrunk_input.is_some() {
            s.append(shrunk);
            s.append(" (shrunk from ");
            s.append(original);
            s.append(") on iteration ");
        } else {
            s.append(original);
            s.append(" on iteration ");
        }
        s.append(fmt_usize(self.failed_iteration).as_str());
        assert(s@ =~= summary_text(*self, original@, shrunk@));
        s
    }

    /// A one-line summary of the failure: the (shrunk) input and the iteration.
    pub fn summary(&self) -> (r: String) where T: core::fmt::Debug
        ensures
            exists|original: Seq<char>, shrunk: Seq<char>|
                r@ == #[trigger] summary_text(*self, original, shrunk),
    {
        let (original, shrunk) = self.input_texts();
        self.summary_with(original.as_str(), shrunk.as_str())
    }
}

} // verus!

verus! {

/// Comprehensive error reporter with various output modes.
#[derive(Debug, Clone, Copy, PartialEq, Eq, Structural)]
pub struct ErrorReporter {
    /// Whether the detailed error context is shown.
    pub verbose: bool,
    /// Whether the shrinking progress is shown.
    pub show_shrink_progress: bool,
    /// Whether timing information is shown.
    pub show_timing: bool,
    /// Whether the configuration is shown.
    pub show_config: bool,
}

/// Width, in steps, of the shrinking progress bar.
pub const PROGRESS_BAR_WIDTH: usize = 50;

/// The shrinking progress bar of `width` cells: full cells then an arrow.
pub open spec fn progress_bar(width: nat) -> Seq<char> {
    if width == 0 {
        seq![]
    } else {
        Seq::new((width - 1) as nat, |i: int| '█').push('▶')
    }
}

/// Tenths of shrinking steps per second, rounded half up; 0 when no millisecond passed.
pub open spec fn rate_tenths(steps: nat, millis: nat) -> nat {
    if millis > 0 {
        (steps * 10000 + millis / 2) / millis
    } else {
        0
    }
}

/// Decimal notation, with one decimal, of `tenths` tenths.
pub open spec fn tenths_text(tenths: nat) -> Seq<char> {
    decimal(tenths / 10) + "."@ + decimal(tenths % 10)
}

/// The shrinking progress lines of a failure.
pub open spec fn shrink_progress_text<T>(f: TestFailure<T>) -> Seq<char> {
    if f.shrink_steps > 0 {
        let width = if f.shrink_steps > PROGRESS_BAR_WIDTH {
            PROGRESS_BAR_WIDTH as nat
        } else {
            f.shrink_steps as nat
        };
        "   Shrink progress:\n"@ + "   "@ + progress_bar(width) + (if f.shrink_steps
            > PROGRESS_BAR_WIDTH {
            " ("@ + decimal(f.shrink_steps as nat) + " steps)"@
        } else {
            seq![]
        }) + "\n"@ + "   Shrink rate:    "@ + tenths_text(
            rate_tenths(f.shrink_steps as nat, f.shrink_duration@ / 1_000_000),
        ) + " steps/sec\n"@
    } else {
        seq![]
    }
}

/// The detailed context lines of an error.
pub open spec fn error_context_text(e: PropertyError) -> Seq<char> {
    match e {
        PropertyError::PropertyFailed { message, context, iteration } =>
            "   Type: Property assertion failure\n"@ + "   Message: "@ + message@ + "\n"@
                + line_if("   Context: "@, context) + (match iteration {
                Some(n) => "   Failed at iteration: "@ + decimal(n as nat) + "\n"@,
                None => seq![],
            }),
        PropertyError::GenerationFailed { message, context } =>
            "   Type: Test data generation failure\n"@ + "   Message: "@ + message@ + "\n"@
                + line_if("   Context: "@, context),
        PropertyError::ShrinkageTimeout { iterations, last_successful_shrink } =>
            "   Type: Shrinkage process timeout\n"@ + "   Iterations attempted: "@ + decimal(
                iterations as nat,
            ) + "\n"@ + line_if("   Last successful shrink: "@, last_successful_shrink),
        PropertyError::ConfigError { message, field } => "   Type: Configuration error\n"@
            + "   Message: "@ + message@ + "\n"@ + line_if("   Field: "@, field),
        PropertyError::TestCancelled { reason } => "   Type: Test cancellation\n"@
            + "   Reason: "@ + reason@ + "\n"@,
        PropertyError::InternalError { message, source_message } =>
            "   Type: Internal framework error\n"@ + "   Message: "@ + message@ + "\n"@
                + line_if("   Source: "@, source_message),
    }
}

/// `label` and the value on a line of their own when there is a value, nothing otherwise.
pub open spec fn line_if(label: Seq<char>, value: Option<String>) -> Seq<char> {
    match value {
        Some(v) => label + v@ + "\n"@,
        None => seq![],
    }
}

/// The suggestion lines for an error, knowing whether a shrunk input exists.
pub open spec fn suggestions_text(e: PropertyError, has_shrunk: bool) -> Seq<char> {
    (match e {
        PropertyError::PropertyFailed { .. } => "   • Check if your property logic is correct\n"@
            + "   • Verify that the failing input reveals a real bug\n"@ + (if has_shrunk {
            "   • Focus on the shrunk input for easier debugging\n"@
        } else {
            "   • Consider implementing shrinking for your data type\n"@
        }),
        PropertyError::GenerationFailed { .. } =>
            "   • Check your generator implementation for panics\n"@
                + "   • Verify generator constraints are satisfiable\n"@
                + "   • Consider adding bounds checking to your generator\n"@,
        PropertyError::ShrinkageTimeout { .. } => "   • Increase shrink timeout if needed\n"@
            + "   • Optimize your shrinking strategy\n"@
            + "   • Consider reducing max shrink iterations\n"@,
        PropertyError::ConfigError { .. } => "   • Review your test configuration parameters\n"@
            + "   • Check for valid ranges and constraints\n"@,
        PropertyError::TestCancelled { .. } => "   • Check if cancellation was intentional\n"@
            + "   • Review timeout settings if applicable\n"@,
        PropertyError::InternalError { .. } =>
            "   • This may be a bug in the testing framework\n"@
                + "   • Consider reporting this issue\n"@ + "   • Try simplifying your test case\n"@,
    }) + "   • Run with a fixed seed for reproducible results\n"@
        + "   • Try increasing iterations to find edge cases\n"@
}

/// The input section of a failure report.
pub open spec fn input_section<T>(
    rep: ErrorReporter,
    f: TestFailure<T>,
    original: Seq<char>,
    shrunk: Seq<char>,
) -> Seq<char> {
    "📊 INPUT INFORMATION:\n"@ + "   Original input: "@ + original + "\n"@ + (if f.shrunk_input is Some {
        "   Shrunk input:   "@ + shrunk + "\n"@ + "   Shrink steps:   "@ + decimal(f.shrink_steps as nat) + "\n"@
            + (if rep.show_shrink_progress {
            shrink_progress_text(f)
        } else {
            seq![]
        })
    } else {
        "   No shrinking performed\n"@
    }) + "\n"@
}

/// The timing section of a failure report.
pub open spec fn timing_section<T>(rep: ErrorReporter, f: TestFailure<T>) -> Seq<char> {
    if rep.show_timing {
        "⏱️  TIMING INFORMATION:\n"@ + "   Total test time:  "@ + duration_text(f.test_duration@) + "\n"@ + "   Shrinking time:   "@
            + duration_text(f.shrink_duration@) + "\n"@ + (if f.shrink_steps > 0 {
            "   Avg shrink time:  "@ + duration_text(((f.shrink_duration@ / (f.shrink_steps as nat)) as u64) as nat)
                + "\n"@
        } else {
            seq![]
        }) + "\n"@
    } else {
        seq![]
    }
}

/// The configuration section of a failure report.
pub open spec fn config_section(rep: ErrorReporter, c: TestConfig) -> Seq<char> {
    if rep.show_config {
        "⚙️  CONFIGURATION:\n"@ + "   Iterations:       "@ + decimal(c.iterations as nat) + "\n"@ + "   Seed:             "@
            + option_u64_text(c.seed) + "\n"@ + "   Max shrink iter:  "@ + decimal(
            c.max_shrink_iterations as nat,
        ) + "\n"@ + "   Shrink timeout:   "@ + duration_text(c.shrink_timeout@) + "\n"@ + "\n"@
    } else {
        seq![]
    }
}

/// The context section of a failure report.
pub open spec fn context_section(rep: ErrorReporter, e: PropertyError) -> Seq<char> {
    if rep.verbose {
        "🔍 DETAILED ERROR CONTEXT:\n"@ + error_context_text(e) + "\n"@
    } else {
        seq![]
    }
}

/// The full failure report, for inputs that read `original` and `shrunk`.
pub open spec fn failure_report_text<T>(
    rep: ErrorReporter,
    f: TestFailure<T>,
    original: Seq<char>,
    shrunk: Seq<char>,
) -> Seq<char> {
    "═══════════════════════════════════════════════════════════════\n"@ + "                    PROPERTY TEST FAILURE                     \n"@ + "═══════════════════════════════════════════════════════════════\n\n"@ + "❌ Test failed on iteration "@ + decimal(f.failed_iteration as nat) + "\n"@
        + "📝 Error: "@ + property_error_text(f.error) + "\n\n"@ + input_section(rep, f, original, shrunk)
        + timing_section(rep, f) + config_section(rep, f.config) + context_section(rep, f.error)
        + "💡 SUGGESTIONS:\n"@ + suggestions_text(f.error, f.shrunk_input is Some) + "═══════════════════════════════════════════════════════════════\n"@
}

/// The quick summary of a failure, for inputs that read `original` and `shrunk`.
pub open spec fn quick_summary_text<T>(f: TestFailure<T>, original: Seq<char>, shrunk: Seq<char>) -> Seq<
    char,
> {
    "🚨 QUICK SUMMARY:\n"@ + "   "@ + summary_text(f, original, shrunk) + "\n"@
        + "   Focus on input: "@ + (if f.shrunk_input is Some {
        shrunk
    } else {
        original
    }) + "\n"@ + "   Error: "@ + property_error_text(f.error) + "\n"@
}

/// The reporter that `ErrorReporter::new` makes: timing shown, nothing else.
pub open spec fn spec_default_reporter() -> ErrorReporter {
    ErrorReporter {
        verbose: false,
        show_shrink_progress: false,
        show_timing: true,
        show_config: false,
    }
}

/// Appends `label` and the value on a line of their own when there is a value.
fn append_line_if(out: &mut String, label: &str, value: &Option<String>)
    ensures
        final(out)@ == old(out)@ + line_if(label@, *value),
{
    match value {
        Some(v) => {
            out.append(label);
            out.append(v.as_str());
            out.append("\n");
        },
        None => {
            assert(old(out)@ + line_if(label@, *value) =~= old(out)@);
        },
    }
}

/// A progress bar of `width` cells.
fn progress_bar_string(width: usize) -> (r: String)
    ensures
        r@ == progress_bar(width as nat),
{
    let mut out = String::new();
    let mut i: usize = 0;
    while i < width
        invariant
            i <= width,
            out@ == (if i == 0 {
                seq![]
            } else if i < width {
                Seq::new(i as nat, |k: int| '█')
            } else {
                progress_bar(width as nat)
            }),
        decreases width - i,
    {
        if i + 1 < width {
            push_char(&mut out, '█');
            assert(out@ =~= Seq::new((i + 1) as nat, |k: int| '█'));
        } else {
            push_char(&mut out, '▶');
            assert(out@ =~= progress_bar(width as nat));
        }
        i = i + 1;
    }
    assert(out@ =~= progress_bar(width as nat));
    out
}

/// Decimal notation, with one decimal, of `tenths` tenths.
fn fmt_tenths(tenths: u128) -> (r: String)
    ensures
        r@ == tenths_text(tenths as nat),
{
    let mut out = fmt_u128(tenths / 10);
    out.append(".");
    out.append(fmt_u128(tenths % 10).as_str());
    out
}

impl ErrorReporter {
    /// A reporter that shows timing information and nothing else optional.
    pub fn new() -> (r: Self)
        ensures
            r == spec_default_reporter(),
    {
        ErrorReporter {
            verbose: false,
            show_shrink_progress: false,
            show_timing: true,
            show_config: false,
        }
    }

    /// This reporter with verbose output (detailed error context).
    pub fn verbose(self) -> (r: Self)
        ensures
            r == (ErrorReporter { verbose: true, ..self }),
    {
        ErrorReporter { verbose: true, ..self }
    }

    /// This reporter with the shrinking progress shown.
    pub fn show_shrink_progress(self) -> (r: Self)
        ensures
            r == (ErrorReporter { show_shrink_progress: true, ..self }),
    {
        ErrorReporter { show_shrink_progress: true, ..self }
    }

    /// This reporter with timing information shown.
    pub fn show_timing(self) -> (r: Self)
        ensures
            r == (ErrorReporter { show_timing: true, ..self }),
    {
        ErrorReporter { show_timing: true, ..self }
    }

    /// This reporter with the configuration shown.
    pub fn show_config(self) -> (r: Self)
        ensures
            r == (ErrorReporter { show_config: true, ..self }),
    {
        ErrorReporter { show_config: true, ..self }
    }

    /// The shrinking progress lines: a bar of one cell per step (at most 50, with the
    /// step count beyond that) and the rate in steps per second, rounded to one decimal.
    fn format_shrink_progress<T>(&self, failure: &TestFailure<T>) -> (r: String)
        ensures
            r@ == shrink_progress_text(*failure),
    {
        let mut progress = String::new();
        if failure.shrink_steps > 0 {
            progress.append("   Shrink progress:\n");
            let width = if failure.shrink_steps > PROGRESS_BAR_WIDTH {
                PROGRESS_BAR_WIDTH
            } else {
                failure.shrink_steps
            };
            progress.append("   ");
            progress.append(progress_bar_string(width).as_str());
            if failure.shrink_steps > PROGRESS_BAR_WIDTH {
                progress.append(" (");
                progress.append(fmt_usize(failure.shrink_steps).as_str());
                progress.append(" steps)");
            }
            progress.append("\n");
            let millis = failure.shrink_duration.as_millis();
            let steps = failure.shrink_steps as u128;
            let tenths: u128 = if millis > 0 {
                assert(steps * 10000 + millis / 2 <= u128::MAX) by (nonlinear_arith)
                    requires
                        steps <= u64::MAX,
                        millis <= u128::MAX / 1_000_000,
                ;
                (steps * 10000 + millis / 2) / millis
            } else {
                0
            };
            progress.append("   Shrink rate:    ");
            progress.append(fmt_tenths(tenths).as_str());
            progress.append(" steps/sec\n");
        }
        assert(progress@ =~= shrink_progress_text(*failure));
        progress
    }

    /// The detailed context lines of an error: its kind, message and details.
    pub fn format_error_context(&self, error: &PropertyError) -> (r: String)
        ensures
            r@ == error_context_text(*error),
    {
        let mut context = String::new();
        match error {
            PropertyError::PropertyFailed { message, context: ctx, iteration } => {
                context.append("   Type: Property assertion failure\n");
                context.append("   Message: ");
                context.append(message.as_str());
                context.append("\n");
                append_line_if(&mut context, "   Context: ", ctx);
                match iteration {
                    Some(n) => {
                        context.append("   Failed at iteration: ");
                        context.append(fmt_usize(*n).as_str());
                        context.append("\n");
                    },
                    None => {},
                }
            },
            PropertyError::GenerationFailed { message, context: ctx } => {
                context.append("   Type: Test data generation failure\n");
                context.append("   Message: ");
                context.append(message.as_str());
                context.append("\n");
                append_line_if(&mut context, "   Context: ", ctx);
            },
            PropertyError::ShrinkageTimeout { iterations, last_successful_shrink } => {
                context.append("   Type: Shrinkage process timeout\n");
                context.append("   Iterations attempted: ");
                context.append(fmt_usize(*iterations).as_str());
                context.append("\n");
                append_line_if(&mut context, "   Last successful shrink: ", last_successful_shrink);
            },
            PropertyError::ConfigError { message, field } => {
                context.append("   Type: Configuration error\n");
                context.append("   Message: ");
                context.append(message.as_str());
                context.append("\n");
                append_line_if(&mut context, "   Field: ", field);
            },
            PropertyError::TestCancelled { reason } => {
                context.append("   Type: Test cancellation\n");
                context.append("   Reason: ");
                context.append(reason.as_str());
                context.append("\n");
            },
            PropertyError::InternalError { message, source_message } => {
                context.append("   Type: Internal framework error\n");
                context.append("   Message: ");
                context.append(message.as_str());
                context.append("\n");
                append_line_if(&mut context, "   Source: ", source_message);
            },
        }
        assert(context@ =~= error_context_text(*error));
        context
    }

    /// Suggestions for the failure's kind of error, then two general ones.
    pub fn generate_suggestions<T>(&self, failure: &TestFailure<T>) -> (r: String)
        ensures
            r@ == suggestions_text(failure.error, failure.shrunk_input is Some),
    {
        let mut s = String::new();
        match &failure.error {
            PropertyError::PropertyFailed { .. } => {
                s.append("   • Check if your property logic is correct\n");
                s.append("   • Verify that the failing input reveals a real bug\n");
                if failure.shrunk_input.is_some() {
                    s.append("   • Focus on the shrunk input for easier debugging\n");
                } else {
                    s.append("   • Consider implementing shrinking for your data type\n");
                }
            },
            PropertyError::GenerationFailed { .. } => {
                s.append("   • Check your generator implementation for panics\n");
                s.append("   • Verify generator constraints are satisfiable\n");
                s.append("   • Consider adding bounds checking to your generator\n");
            },
            PropertyError::ShrinkageTimeout { .. } => {
                s.append("   • Increase shrink timeout if needed\n");
                s.append("   • Optimize your shrinking strategy\n");
                s.append("   • Consider reducing max shrink iterations\n");
            },
            PropertyError::ConfigError { .. } => {
                s.append("   • Review your test configuration parameters\n");
                s.append("   • Check for valid ranges and constraints\n");
            },
            PropertyError::TestCancelled { .. } => {
                s.append("   • Check if cancellation was intentional\n");
                s.append("   • Review timeout settings if applicable\n");
            },
            PropertyError::InternalError { .. } => {
                s.append("   • This may be a bug in the testing framework\n");
                s.append("   • Consider reporting this issue\n");
                s.append("   • Try simplifying your test case\n");
            },
        }
        s.append("   • Run with a fixed seed for reproducible results\n");
        s.append("   • Try increasing iterations to find edge cases\n");
        assert(s@ =~= suggestions_text(failure.error, failure.shrunk_input is Some));
        s
    }

    /// Appends the input section.
    #[verifier::spinoff_prover]
    #[verifier::rlimit(30)]
    fn append_input_section<T>(
        &self,
        out: &mut String,
        failure: &TestFailure<T>,
        original: &str,
        shrunk: &str,
    )
        ensures
            final(out)@ == old(out)@ + input_section(*self, *failure, original@, shrunk@),
    {
        let ghost start = out@;
        out.append("📊 INPUT INFORMATION:\n");
        out.append("   Original input: ");
        out.append(original);
        out.append("\n");
        if failure.shrunk_input.is_some() {
            out.append("   Shrunk input:   ");
            out.append(shrunk);
            out.append("\n");
            out.append("   Shrink steps:   ");
            out.append(fmt_usize(failure.shrink_steps).as_str());
            out.append("\n");
            if self.show_shrink_progress {
                out.append(self.format_shrink_progress(failure).as_str());
            }
        } else {
            out.append("   No shrinking performed\n");
        }
        out.append("\n");
        assert(out@ =~= start + input_section(*self, *failure, original@, shrunk@));
    }

    /// Appends the timing section.
    fn append_timing_section<T>(&self, out: &mut String, failure: &TestFailure<T>)
        ensures
            final(out)@ == old(out)@ + timing_section(*self, *failure),
    {
        let ghost start = out@;
        if self.show_timing {
            out.append("⏱️  TIMING INFORMATION:\n");
            out.append("   Total test time:  ");
            out.append(failure.test_duration.debug_text().as_str());
            out.append("\n");
            out.append("   Shrinking time:   ");
            out.append(failure.shrink_duration.debug_text().as_str());
            out.append("\n");
            if failure.shrink_steps > 0 {
                let avg = failure.shrink_duration.as_nanos() / (failure.shrink_steps as u128);
                let avg_nanos: u64 = #[verifier::truncate] (avg as u64);
                out.append("   Avg shrink time:  ");
                out.append(Duration::from_nanos(avg_nanos).debug_text().as_str());
                out.append("\n");
            }
            out.append("\n");
        }
        assert(out@ =~= start + timing_section(*self, *failure));
    }

    /// Appends the configuration section.
    fn append_config_section(&self, out: &mut String, config: &TestConfig)
        ensures
            final(out)@ == old(out)@ + config_section(*self, *config),
    {
        let ghost start = out@;
        if self.show_config {
            out.append("⚙️  CONFIGURATION:\n");
            out.append("   Iterations:       ");
            out.append(fmt_usize(config.iterations).as_str());
            out.append("\n");
            out.append("   Seed:             ");
            out.append(fmt_option_u64(config.seed).as_str());
            out.append("\n");
            out.append("   Max shrink iter:  ");
            out.append(fmt_usize(config.max_shrink_iterations).as_str());
            out.append("\n");
            out.append("   Shrink timeout:   ");
            out.append(config.shrink_timeout.debug_text().as_str());
            out.append("\n");
            out.append("\n");
        }
        assert(out@ =~= start + config_section(*self, *config));
    }

    /// The full failure report, given the texts of the original and the shrunk input.
    pub fn format_failure_with<T>(&self, failure: &TestFailure<T>, original: &str, shrunk: &str) -> (r:
        String)
        ensures
            r@ == failure_report_text(*self, *failure, original@, shrunk@),
    {
        let mut report = String::from_str("═══════════════════════════════════════════════════════════════\n");
        report.append("                    PROPERTY TEST FAILURE                     \n");
        report.append("═══════════════════════════════════════════════════════════════\n\n");
        report.append("❌ Test failed on iteration ");
        report.append(fmt_usize(failure.failed_iteration).as_str());
        report.append("\n");
        report.append("📝 Error: ");
        report.append(failure.error.to_string().as_str());
        report.append("\n\n");
        self.append_input_section(&mut report, failure, original, shrunk);
        self.append_timing_section(&mut report, failure);
        self.append_config_section(&mut report, &failure.config);
        if self.verbose {
            report.append("🔍 DETAILED ERROR CONTEXT:\n");
            report.append(self.format_error_context(&failure.error).as_str());
            report.append("\n");
        }
        report.append("💡 SUGGESTIONS:\n");
        report.append(self.generate_suggestions(failure).as_str());
        report.append("═══════════════════════════════════════════════════════════════\n");
        assert(report@ =~= failure_report_text(*self, *failure, original@, shrunk@));
        report
    }

    /// A comprehensive report of a failure: a banner, the iteration and error, the inputs
    /// (with the shrinking progress when asked for), and, as configured, timing,
    /// configuration and detailed context, then suggestions.
    pub fn format_failure<T: core::fmt::Debug>(&self, failure: &TestFailure<T>) -> (r: String)
        ensures
            exists|original: Seq<char>, shrunk: Seq<char>|
                r@ == #[trigger] failure_report_text(*self, *failure, original, shrunk),
    {
        let (original, shrunk) = failure.input_texts();
        self.format_failure_with(failure, original.as_str(), shrunk.as_str())
    }

    /// The quick summary, given the texts of the original and the shrunk input.
    pub fn format_summary_with<T>(&self, failure: &TestFailure<T>, original: &str, shrunk: &str) -> (r:
        String)
        ensures
            r@ == quick_summary_text(*failure, original@, shrunk@),
    {
        let mut summary = String::from_str("🚨 QUICK SUMMARY:\n");
        summary.append("   ");
        summary.append(failure.summary_with(original, shrunk).as_str());
        summary.append("\n");
        summary.append("   Focus on input: ");
        if failure.shrunk_input.is_some() {
            summary.append(shrunk);
        } else {
            summary.append(original);
        }
        summary.append("\n");
        summary.append("   Error: ");
        summary.append(failure.error.to_string().as_str());
        summary.append("\n");
        assert(summary@ =~= quick_summary_text(*failure, original@, shrunk@));
        summary
    }

    /// A concise summary for quick debugging: the failure summary, the input to focus on
    /// (the shrunk one when there is one) and the error.
    pub fn format_summary<T: core::fmt::Debug>(&self, failure: &TestFailure<T>) -> (r: String)
        ensures
            exists|original: Seq<char>, shrunk: Seq<char>|
                r@ == #[trigger] quick_summary_text(*failure, original, shrunk),
    {
        let (original, shrunk) = failure.input_texts();
        self.format_summary_with(failure, original.as_str(), shrunk.as_str())
    }

    /// The report for standard test output, given the texts of the original and the shrunk
    /// input: the full report when verbose, the quick summary otherwise.
    pub fn format_for_test_output_with<T>(
        &self,
        failure: &TestFailure<T>,
        original: &str,
        shrunk: &str,
    ) -> (r: String)
        ensures
            r@ == if self.verbose {
                failure_report_text(*self, *failure, original@, shrunk@)
            } else {
                quick_summary_text(*failure, original@, shrunk@)
            },
    {
        if self.verbose {
            self.format_failure_with(failure, original, shrunk)
        } else {
            self.format_summary_with(failure, original, shrunk)
        }
    }

    /// The report for standard test output: the full report when verbose, the quick
    /// summary otherwise.
    pub fn format_for_test_output<T: core::fmt::Debug>(&self, failure: &TestFailure<T>) -> (r:
        String)
        ensures
            self.verbose ==> exists|original: Seq<char>, shrunk: Seq<char>|
                r@ == #[trigger] failure_report_text(*self, *failure, original, shrunk),
            !self.verbose ==> exists|original: Seq<char>, shrunk: Seq<char>|
                r@ == #[trigger] quick_summary_text(*failure, original, shrunk),
    {
        if self.verbose {
            self.format_failure(failure)
        } else {
            self.format_summary(failure)
        }
    }
}

impl Default for ErrorReporter {
    fn default() -> (r: Self)
        ensures
            r == spec_default_reporter(),
    {
        ErrorReporter::new()
    }
}

} // verus!

verus! {

/// Shrinkage progress tracker for visualization.
#[derive(Debug, Clone)]
pub struct ShrinkProgress {
    /// The steps recorded so far.
    pub steps: Vec<ShrinkStep>,
    /// Total shrinking time, once completed.
    pub total_time: Duration,
    /// Whether shrinking has completed.
    pub completed: bool,
}

/// Individual shrinking step information.
#[derive(Debug, Clone)]
pub struct ShrinkStep {
    /// The number of the step.
    pub step_number: usize,
    /// What the input became.
    pub input_description: String,
    /// Time the step took.
    pub step_time: Duration,
    /// Whether the step found a smaller failing input.
    pub successful: bool,
}

/// The line of one step: status mark, number, description and time.
pub open spec fn step_line(step: ShrinkStep) -> Seq<char> {
    "  "@ + (if step.successful {
        "✓"@
    } else {
        "✗"@
    }) + " Step "@ + decimal(step.step_number as nat) + ": "@ + step.input_description@ + " ("@
        + duration_text(step.step_time@) + ")\n"@
}

/// The lines of the steps, in order.
pub open spec fn step_lines(steps: Seq<ShrinkStep>) -> Seq<char>
    decreases steps.len(),
{
    if steps.len() == 0 {
        seq![]
    } else {
        step_lines(steps.drop_last()) + step_line(steps.last())
    }
}

/// The visualization of shrinking progress.
pub open spec fn progress_text(p: ShrinkProgress) -> Seq<char> {
    "Shrinking Progress:\n"@ + step_lines(p.steps@) + (if p.completed {
        "Completed in "@ + duration_text(p.total_time@) + " ("@ + decimal(p.steps@.len()) + " steps)\n"@
    } else {
        "In progress...\n"@
    })
}

/// The number of successful steps.
pub open spec fn successful_count(steps: Seq<ShrinkStep>) -> nat
    decreases steps.len(),
{
    if steps.len() == 0 {
        0
    } else {
        successful_count(steps.drop_last()) + if steps.last().successful {
            1nat
        } else {
            0nat
        }
    }
}

impl ShrinkProgress {
    /// An empty tracker: no steps, no time, not completed.
    pub fn new() -> (r: Self)
        ensures
            r.steps@.len() == 0,
            r.total_time@ == 0,
            !r.completed,
    {
        ShrinkProgress { steps: Vec::new(), total_time: Duration::from_secs(0), completed: false }
    }

    /// The counts of the steps: how many were successful, how many there are, and the
    /// average time of a step (none when there are no steps).
    pub fn step_summary(&self) -> (r: (usize, usize, Duration))
        ensures
            r.0 == successful_count(self.steps@),
            r.1 == self.steps@.len(),
            r.2@ == if r.1 > 0 {
                self.total_time@ / (r.1 as nat)
            } else {
                0
            },
    {
        let n = self.steps.len();
        let mut successful: usize = 0;
        let mut i: usize = 0;
        while i < n
            invariant
                n == self.steps@.len(),
                i <= n,
                successful <= i,
                successful == successful_count(self.steps@.take(i as int)),
            decreases n - i,
        {
            assert(self.steps@.take(i + 1).drop_last() =~= self.steps@.take(i as int));
            if self.steps[i].successful {
                successful = successful + 1;
            }
            i = i + 1;
        }
        assert(self.steps@.take(n as int) =~= self.steps@);
        let total = self.total_time.as_nanos();
        let average = if n > 0 {
            Duration::from_nanos_saturating(total / (n as u128))
        } else {
            Duration::zero()
        };
        proof {
            if n > 0 {
                let t = self.total_time@;
                assert(t / (n as nat) <= t) by (nonlinear_arith)
                    requires
                        n > 0,
                ;
            }
        }
        (successful, n, average)
    }

    /// Records a shrinking step.
    pub fn add_step(&mut self, step: ShrinkStep)
        ensures
            final(self).steps@ == old(self).steps@.push(step),
            final(self).total_time == old(self).total_time,
            final(self).completed == old(self).completed,
    {
        self.steps.push(step);
    }

    /// Marks shrinking as completed after `total_time`.
    pub fn complete(&mut self, total_time: Duration)
        ensures
            final(self).steps@ == old(self).steps@,
            final(self).total_time == total_time,
            final(self).completed,
    {
        self.total_time = total_time;
        self.completed = true;
    }

    /// A visualization of the progress: a heading, one line per step, then the total
    /// time and step count once completed.
    pub fn visualize(&self) -> (r: String)
        ensures
            r@ == progress_text(*self),
    {
        let mut viz = String::from_str("Shrinking Progress:\n");
        let n = self.steps.len();
        let mut i: usize = 0;
        while i < n
            invariant
                n == self.steps@.len(),
                i <= n,
                viz@ == "Shrinking Progress:\n"@ + step_lines(self.steps@.take(i as int)),
            decreases n - i,
        {
            let step = &self.steps[i];
            let ghost before = viz@;
            viz.append("  ");
            if step.successful {
                viz.append("✓");
            } else {
                viz.append("✗");
            }
            viz.append(" Step ");
            viz.append(fmt_usize(step.step_number).as_str());
            viz.append(": ");
            viz.append(step.input_description.as_str());
            viz.append(" (");
            viz.append(step.step_time.debug_text().as_str());
            viz.append(")\n");
            assert(self.steps@.take(i + 1).drop_last() =~= self.steps@.take(i as int));
            assert(viz@ =~= before + step_line(self.steps@[i as int]));
            i = i + 1;
        }
        assert(self.steps@.take(n as int) =~= self.steps@);
        let ghost body = viz@;
        if self.completed {
            viz.append("Completed in ");
            viz.append(self.total_time.debug_text().as_str());
            viz.append(" (");
            viz.append(fmt_usize(n).as_str());
            viz.append(" steps)\n");
        } else {
            viz.append("In progress...\n");
        }
        assert(viz@ =~= progress_text(*self));
        viz
    }
}

impl Default for ShrinkProgress {
    fn default() -> (r: Self)
        ensures
            r.steps@.len() == 0,
            r.total_time@ == 0,
            !r.completed,
    {
        ShrinkProgress::new()
    }
}

} // verus!
