//! The errors of this library.

use vstd::prelude::*;
use vstd::string::*;

verus! {

/// Why an operation of this library failed.
#[derive(Debug)]
pub enum ProvisioningError {
    /// The CBOR decoder refused the input; the text is its report.
    CborDecode(String),
    /// The CBOR encoder failed; the text is its report.
    CborEncode(String),
    /// Bytes remain after the one CBOR item that the input should hold.
    ExtraneousData,
    /// A CBOR item of type `found` stood where one of type `expected` was required;
    /// `context` names the step that required it.
    UnexpectedItem { found: &'static str, expected: &'static str, context: &'static str },
    /// The DER reader refused a certificate chain; the text is its report.
    Der(String),
    /// A certificate is not a DER-encoded X.509 certificate; the text is the parser's report.
    Certificate(String),
    /// The step named by the text failed with the inner error.
    Context(&'static str, Box<ProvisioningError>),
}

impl ProvisioningError {
    /// The text that [`ProvisioningError::message`] gives for this error.
    pub open spec fn message_text(self) -> Seq<char>
        decreases self,
    {
        match self {
            ProvisioningError::CborDecode(m) => "decode CBOR failure: "@ + m@,
            ProvisioningError::CborEncode(m) => "encode CBOR failure: "@ + m@,
            ProvisioningError::ExtraneousData => "extraneous data in CBOR input"@,
            ProvisioningError::UnexpectedItem { found, expected, context } =>
                "unexpected item: "@ + found@ + ", want "@ + expected@ + " ("@ + context@ + ")"@,
            ProvisioningError::Der(m) => "DER error: "@ + m@,
            ProvisioningError::Certificate(m) => "Parse certificate from DER: "@ + m@,
            ProvisioningError::Context(c, inner) => c@ + ": "@ + inner.message_text(),
        }
    }

    /// A human-readable description of this error.
    pub fn message(&self) -> (r: String)
        ensures
            r@ == self.message_text(),
        decreases self,
    {
        match self {
            ProvisioningError::CborDecode(m) => {
                let mut r = String::from_str("decode CBOR failure: ");
                r.append(m.as_str());
                r
            },
            ProvisioningError::CborEncode(m) => {
                let mut r = String::from_str("encode CBOR failure: ");
                r.append(m.as_str());
                r
            },
            ProvisioningError::ExtraneousData => String::from_str("extraneous data in CBOR input"),
            ProvisioningError::UnexpectedItem { found, expected, context } => {
                let mut r = String::from_str("unexpected item: ");
                r.append(found);
                r.append(", want ");
                r.append(expected);
                r.append(" (");
                r.append(context);
                r.append(")");
                r
            },
            ProvisioningError::Der(m) => {
                let mut r = String::from_str("DER error: ");
                r.append(m.as_str());
                r
            },
            ProvisioningError::Certificate(m) => {
                let mut r = String::from_str("Parse certificate from DER: ");
                r.append(m.as_str());
                r
            },
            ProvisioningError::Context(c, inner) => {
                let mut r = String::from_str(c);
                r.append(": ");
                let rest = inner.message();
                r.append(rest.as_str());
                r
            },
        }
    }
}

} // verus!
