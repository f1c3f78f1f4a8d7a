//! The messages exchanged with callers and with the result store.

use vstd::prelude::*;
use vstd::string::StringExecFns;
use crate::decimal::{decimal_text, push_decimal};
use crate::text::same_text;

verus! {

/// A real number as decimal text, together with the bit precision it is held at.
#[derive(Clone, Debug, PartialEq, Eq)]
pub struct SerFloat {
    pub value: String,
    pub prec: u64,
}

/// A complex number as a pair of precision-tagged reals.
#[derive(Clone, Debug, PartialEq, Eq)]
pub struct SerComplex {
    pub real: SerFloat,
    pub imag: SerFloat,
}

/// A request to classify one point of the plane.
#[derive(Clone, Debug, PartialEq, Eq)]
pub struct ComputePointRequest {
    /// The point to classify, as supplied by the caller.
    pub c: SerComplex,
    /// The largest number of iterations to run.
    pub iterations: u32,
}

/// What is known of a point once its orbit has been followed.
#[derive(Clone, Debug, PartialEq, Eq)]
pub struct ComputePointResult {
    /// The point that was classified, at the precision it was evaluated at.
    pub c: SerComplex,
    /// The index of the iteration at which the orbit left the bailout disc, if it did.
    pub escape_iteration: Option<u32>,
    /// The number of iterations that were run.
    pub computed_iterations: u32,
    /// The last iterate that was reached.
    pub final_value: SerComplex,
}

/// A result together with the id of the request that asked for it.
#[derive(Clone, Debug, PartialEq, Eq)]
pub struct ComputePointResponse {
    pub computed_point_result: ComputePointResult,
    pub request_id: String,
}

/// The party an error is attributed to.
#[derive(Clone, Copy, Debug, PartialEq, Eq, Structural)]
pub enum ErrorType {
    Sender,
    Receiver,
}

/// An error as reported to a caller.
#[derive(Clone, Debug, PartialEq, Eq)]
pub struct Error {
    pub error_type: ErrorType,
    pub code: Option<String>,
    pub message: Option<String>,
}

/// An error together with the id of the request that met it.
#[derive(Clone, Debug, PartialEq, Eq)]
pub struct ErrorResponse {
    pub error: Error,
    pub request_id: String,
}

/// Where results are kept: a bucket and the prefix put before every key.
#[derive(Clone, Debug, PartialEq, Eq)]
pub struct S3Config {
    pub bucket: String,
    pub prefix: String,
}

impl SerFloat {
    /// The text `value#prec`.
    pub open spec fn spec_text(&self) -> Seq<char> {
        self.value@ + seq!['#'] + decimal_text(self.prec as nat)
    }

    /// Appends `value#prec` to `out`.
    pub fn push_text(&self, out: &mut String)
        ensures
            final(out)@ == old(out)@ + self.spec_text(),
    {
        proof {
            reveal_strlit("#");
        }
        out.append(self.value.as_str());
        out.append("#");
        push_decimal(out, self.prec);
        assert("#"@ =~= seq!['#']);
        assert(final(out)@ =~= old(out)@ + self.spec_text());
    }

    /// The number written as `value#prec`.
    pub fn text(&self) -> (text: String)
        ensures
            text@ == self.spec_text(),
    {
        let mut text = String::new();
        self.push_text(&mut text);
        assert(text@ =~= self.spec_text());
        text
    }
}

impl SerComplex {
    /// The text `(real, imag)`, each part written as `value#prec`.
    pub open spec fn spec_text(&self) -> Seq<char> {
        seq!['('] + self.real.spec_text() + seq![',', ' '] + self.imag.spec_text() + seq![')']
    }

    /// The number written as `(real, imag)`.
    pub fn text(&self) -> (text: String)
        ensures
            text@ == self.spec_text(),
    {
        proof {
            reveal_strlit("(");
            reveal_strlit(", ");
            reveal_strlit(")");
        }
        let mut text = String::from_str("(");
        self.real.push_text(&mut text);
        text.append(", ");
        self.imag.push_text(&mut text);
        text.append(")");
        assert("("@ =~= seq!['(']);
        assert(", "@ =~= seq![',', ' ']);
        assert(")"@ =~= seq![')']);
        assert(text@ =~= self.spec_text());
        text
    }
}

impl ErrorType {
    /// The name an error type goes by on the wire.
    pub open spec fn spec_name(&self) -> Seq<char> {
        match self {
            ErrorType::Sender => "Sender"@,
            ErrorType::Receiver => "Receiver"@,
        }
    }

    /// The name an error type goes by on the wire.
    pub fn name(&self) -> (text: &'static str)
        ensures
            text@ == self.spec_name(),
    {
        match self {
            ErrorType::Sender => "Sender",
            ErrorType::Receiver => "Receiver",
        }
    }
}

impl ErrorType {
    /// The error type that goes by `name` on the wire, if there is one.
    pub fn from_name(name: &str) -> (found: Option<ErrorType>)
        ensures
            name@ == "Sender"@ ==> found == Some(ErrorType::Sender),
            name@ == "Receiver"@ ==> found == Some(ErrorType::Receiver),
            name@ != "Sender"@ && name@ != "Receiver"@ ==> found.is_none(),
    {
        proof {
            reveal_strlit("Sender");
            reveal_strlit("Receiver");
            assert("Sender"@.len() != "Receiver"@.len());
        }
        if same_text(name, "Sender") {
            Some(ErrorType::Sender)
        } else if same_text(name, "Receiver") {
            Some(ErrorType::Receiver)
        } else {
            None
        }
    }
}

impl S3Config {
    /// A configuration for the given bucket and key prefix.
    pub fn new(bucket: String, prefix: String) -> (config: S3Config)
        ensures
            config.bucket == bucket,
            config.prefix == prefix,
    {
        S3Config { bucket, prefix }
    }
}

} // verus!
