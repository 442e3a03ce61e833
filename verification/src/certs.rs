//! Certificate chains: consecutive DER-encoded X.509 certificates, read one TLV at a time
//! with `der` and parsed with `x509-cert` for display.

use vstd::prelude::*;
use vstd::slice::slice_subrange;
use crate::error::ProvisioningError;
use crate::cbor::{deserialize, deserialized, unexpected, value_to_array, value_to_bytes, CborValue};
use der::{Decode, Reader};

verus! {

/// What is to be printed, line by line, and the error that stopped the printing, if any.
#[derive(Debug)]
pub struct Printout {
    /// The lines to print, in order.
    pub lines: Vec<String>,
    /// Why the printing stopped after these lines, if it stopped early.
    pub error: Option<ProvisioningError>,
}

/// The texts of `lines`.
pub open spec fn line_texts(lines: Seq<String>) -> Seq<Seq<char>> {
    lines.map_values(|s: String| s@)
}

/// What `der::Reader::tlv_bytes` makes of a `der::SliceReader` over `data` whose
/// position is `offset`: the length of the complete tag-length-value element that starts
/// there, or the text of the reader's error.
pub uninterp spec fn der_tlv_len(data: Seq<u8>, offset: usize) -> Result<usize, String>;

/// What `x509_cert::Certificate::from_der` makes of `data`, as the pretty-printed
/// `Debug` text of the certificate; or the text of the parser's error.
pub uninterp spec fn x509_certificate_text(data: Seq<u8>) -> Result<String, String>;

/// Reads the TLV element that starts at `offset` in `data` with `der::Reader::tlv_bytes`
/// on a `der::SliceReader` over all of `data`, moved to `offset` with
/// `der::Reader::read_slice`, and returns its length.
///
/// Trusted: the result is `der_tlv_len(data, offset)`; an element holds its tag byte and
/// at least one length byte, and lies within `data`.
#[verifier::external_body]
fn read_tlv_len(data: &[u8], offset: usize) -> (r: Result<usize, String>)
    ensures
        r == der_tlv_len(data@, offset),
        r matches Ok(n) ==> 2 <= n && offset + n <= data.len(),
{
    let mut reader = der::SliceReader::new(data).map_err(|e| e.to_string())?;
    let skip = der::Length::try_from(offset).map_err(|e| e.to_string())?;
    reader.read_slice(skip).map_err(|e| e.to_string())?;
    reader.tlv_bytes().map(|tlv| tlv.len()).map_err(|e| e.to_string())
}

/// Parses `data` with `x509_cert::Certificate::from_der` and renders the certificate
/// with its pretty-printed `Debug` form.
///
/// Trusted: the result is `x509_certificate_text(data)`.
#[verifier::external_body]
fn certificate_text(data: &[u8]) -> (r: Result<String, String>)
    ensures
        r == x509_certificate_text(data@),
{
    match x509_cert::Certificate::from_der(data) {
        Ok(cert) => Ok(format!("{:#?}", cert)),
        Err(e) => Err(e.to_string()),
    }
}

/// The lines that [`render_certs`] gives for the certificate chain `data` from position
/// `pos` on, and the error that stops it, if any: one line per certificate, in order,
/// until the end of `data`, a TLV element that the DER reader refuses, or one that is not
/// a certificate.
pub open spec fn certs_printout_from(data: Seq<u8>, pos: nat) -> (Seq<Seq<char>>, Option<ProvisioningError>)
    decreases data.len() - pos,
{
    if pos >= data.len() {
        (Seq::empty(), None)
    } else {
        match der_tlv_len(data, pos as usize) {
            Err(m) => (Seq::empty(), Some(ProvisioningError::Der(m))),
            Ok(n) => if n == 0 || pos + n > data.len() {
                // Not reached: the reader's elements are never empty and never pass the end.
                (Seq::empty(), None)
            } else {
                match x509_certificate_text(data.subrange(pos as int, pos + n)) {
                    Err(m) => (Seq::empty(), Some(ProvisioningError::Certificate(m))),
                    Ok(text) => {
                        let rest = certs_printout_from(data, (pos + n) as nat);
                        (seq![text@] + rest.0, rest.1)
                    },
                }
            },
        }
    }
}

/// The lines that [`render_certs`] gives for the certificate chain `data`, and the error
/// that stops it, if any.
pub open spec fn certs_printout(data: Seq<u8>) -> (Seq<Seq<char>>, Option<ProvisioningError>) {
    certs_printout_from(data, 0)
}

/// A chain is shown in its own order: the first line shown from a position is the
/// certificate whose TLV element starts there, and the lines after it are those shown
/// from the end of that element on.
pub proof fn lemma_chain_lines_in_order(data: Seq<u8>, pos: nat, n: usize, text: String)
    requires
        pos < data.len(),
        der_tlv_len(data, pos as usize) == Ok::<usize, String>(n),
        0 < n,
        pos + n <= data.len(),
        x509_certificate_text(data.subrange(pos as int, pos + n)) == Ok::<String, String>(text),
    ensures
        certs_printout_from(data, pos).0.len() >= 1,
        certs_printout_from(data, pos).0[0] == text@,
        certs_printout_from(data, pos).0.drop_first() == certs_printout_from(data, (pos + n) as nat).0,
        certs_printout_from(data, pos).1 == certs_printout_from(data, (pos + n) as nat).1,
{
    let rest = certs_printout_from(data, (pos + n) as nat);
    assert(certs_printout_from(data, pos).0 == seq![text@] + rest.0);
    assert((seq![text@] + rest.0).drop_first() =~= rest.0);
}

/// A chain of whole certificates, each one TLV element that the X.509 parser accepts,
/// shows exactly one line per certificate, in order, and no error.
pub proof fn lemma_chain_of_one_certificate(data: Seq<u8>, text: String)
    requires
        0 < data.len() <= usize::MAX,
        der_tlv_len(data, 0) == Ok::<usize, String>(data.len() as usize),
        x509_certificate_text(data) == Ok::<String, String>(text),
    ensures
        certs_printout(data) == (seq![text@], None::<ProvisioningError>),
{
    let n = data.len() as usize;
    assert(n as nat == data.len());
    assert(data.subrange(0, n as int) =~= data);
    assert(certs_printout_from(data, (0 + n) as nat) == (Seq::<Seq<char>>::empty(), None::<ProvisioningError>));
    assert(seq![text@] + Seq::<Seq<char>>::empty() =~= seq![text@]);
    assert(certs_printout_from(data, 0) == (seq![text@] + Seq::<Seq<char>>::empty(), None::<ProvisioningError>));
}

/// Renders a certificate chain: reads `certs` as consecutive DER TLV elements and
/// renders each as an X.509 certificate, stopping at the first that fails.
pub fn render_certs(certs: &[u8]) -> (r: Printout)
    ensures
        line_texts(r.lines@) == certs_printout(certs@).0,
        r.error == certs_printout(certs@).1,
{
    let mut lines: Vec<String> = Vec::new();
    let mut pos: usize = 0;
    assert(line_texts(lines@) + certs_printout_from(certs@, 0).0 =~= certs_printout_from(certs@, 0).0);
    while pos < certs.len()
        invariant
            pos <= certs.len(),
            certs_printout(certs@) == (
                line_texts(lines@) + certs_printout_from(certs@, pos as nat).0,
                certs_printout_from(certs@, pos as nat).1,
            ),
        decreases certs.len() - pos,
    {
        let n = match read_tlv_len(certs, pos) {
            Ok(n) => n,
            Err(m) => {
                assert(line_texts(lines@) + Seq::<Seq<char>>::empty() =~= line_texts(lines@));
                return Printout { lines, error: Some(ProvisioningError::Der(m)) };
            },
        };
        let element = slice_subrange(certs, pos, pos + n);
        match certificate_text(element) {
            Ok(text) => {
                let ghost before = lines@;
                lines.push(text);
                assert(line_texts(lines@) == line_texts(before) + seq![text@]);
                assert(line_texts(lines@) + certs_printout_from(certs@, (pos + n) as nat).0
                    == line_texts(before) + (seq![text@] + certs_printout_from(certs@, (pos + n) as nat).0));
                pos = pos + n;
            },
            Err(m) => {
                assert(line_texts(lines@) + Seq::<Seq<char>>::empty() =~= line_texts(lines@));
                return Printout { lines, error: Some(ProvisioningError::Certificate(m)) };
            },
        }
    }
    assert(line_texts(lines@) + Seq::<Seq<char>>::empty() =~= line_texts(lines@));
    Printout { lines, error: None }
}

/// The context of the errors about the form of a signer's certificate array.
pub open spec fn cert_array_context() -> &'static str {
    "UdsCerts certificate array"
}

/// The lines that [`render_cert_array`] gives for the array elements `items`, and the
/// error that stops it, if any: for each element in order, the lines of the certificates
/// that its bytes hold; it stops at an element that is not a byte string, or at one whose
/// certificates do not render.
pub open spec fn cert_items_printout(items: Seq<CborValue>) -> (Seq<Seq<char>>, Option<ProvisioningError>)
    decreases items.len(),
{
    if items.len() == 0 {
        (Seq::empty(), None)
    } else {
        match items[0] {
            CborValue::Bytes(b) => {
                let shown = certs_printout(b@);
                if shown.1 is Some {
                    shown
                } else {
                    let rest = cert_items_printout(items.drop_first());
                    (shown.0 + rest.0, rest.1)
                }
            },
            _ => (Seq::empty(), Some(unexpected(items[0], "bstr", cert_array_context()))),
        }
    }
}

/// The lines that [`render_cert_array`] gives for `data`, and the error that stops it,
/// if any: `data` must be one CBOR array of byte strings, each holding DER-encoded
/// certificates.
pub open spec fn cert_array_printout(data: Seq<u8>) -> (Seq<Seq<char>>, Option<ProvisioningError>) {
    match deserialized(data) {
        Err(e) => (Seq::empty(), Some(e)),
        Ok(v) => match v {
            CborValue::Array(items) => cert_items_printout(items@),
            _ => (Seq::empty(), Some(unexpected(v, "array", cert_array_context()))),
        },
    }
}

/// The lines of a certificate array begin with every line of its first element's
/// certificates; if those render, the lines of the other elements follow, else the
/// element's error stops the array.
pub proof fn lemma_cert_array_element_lines(items: Seq<CborValue>, bytes: Vec<u8>)
    requires
        items.len() > 0,
        items[0] == CborValue::Bytes(bytes),
    ensures
        ({
            let all = cert_items_printout(items);
            let shown = certs_printout(bytes@);
            &&& all.0.len() >= shown.0.len()
            &&& all.0.subrange(0, shown.0.len() as int) == shown.0
            &&& shown.1 is None ==> all.0.subrange(shown.0.len() as int, all.0.len() as int)
                == cert_items_printout(items.drop_first()).0 && all.1 == cert_items_printout(items.drop_first()).1
            &&& shown.1 is Some ==> all.0.len() == shown.0.len() && all.1 == shown.1
        }),
{
    let shown = certs_printout(bytes@);
    let rest = cert_items_printout(items.drop_first());
    if shown.1 is None {
        assert((shown.0 + rest.0).subrange(0, shown.0.len() as int) =~= shown.0);
        assert((shown.0 + rest.0).subrange(shown.0.len() as int, (shown.0 + rest.0).len() as int) =~= rest.0);
    } else {
        assert(shown.0.subrange(0, shown.0.len() as int) =~= shown.0);
    }
}

/// An array whose elements are each one whole certificate that the X.509 parser accepts
/// shows exactly one line per element, the i-th being the i-th certificate, and no error.
pub proof fn lemma_cert_array_one_line_per_certificate(items: Seq<CborValue>, texts: Seq<String>)
    requires
        items.len() == texts.len(),
        forall|i: int|
            0 <= i < items.len() ==> (#[trigger] items[i] matches CborValue::Bytes(b) && 0 < b@.len() <= usize::MAX
                && der_tlv_len(b@, 0) == Ok::<usize, String>(b@.len() as usize)
                && x509_certificate_text(b@) == Ok::<String, String>(texts[i])),
    ensures
        cert_items_printout(items) == (line_texts(texts), None::<ProvisioningError>),
    decreases items.len(),
{
    if items.len() == 0 {
        assert(line_texts(texts) =~= Seq::<Seq<char>>::empty());
    } else {
        let b = items[0]->Bytes_0;
        assert(items[0] matches CborValue::Bytes(b0) && b0@.len() > 0);
        lemma_chain_of_one_certificate(b@, texts[0]);
        assert forall|i: int| 0 <= i < items.drop_first().len() implies (#[trigger] items.drop_first()[i] matches CborValue::Bytes(c) && 0 < c@.len() <= usize::MAX
                && der_tlv_len(c@, 0) == Ok::<usize, String>(c@.len() as usize)
                && x509_certificate_text(c@) == Ok::<String, String>(texts.drop_first()[i])) by {
            assert(items.drop_first()[i] == items[i + 1]);
            assert(texts.drop_first()[i] == texts[i + 1]);
        }
        lemma_cert_array_one_line_per_certificate(items.drop_first(), texts.drop_first());
        assert(line_texts(texts) =~= seq![texts[0]@] + line_texts(texts.drop_first()));
    }
}

/// Renders a signer's certificates, stored as a CBOR-encoded array of byte strings: the
/// certificates of each element in turn, stopping at the first that fails.
pub fn render_cert_array(certs: &[u8]) -> (r: Printout)
    ensures
        line_texts(r.lines@) == cert_array_printout(certs@).0,
        r.error == cert_array_printout(certs@).1,
{
    let value = match deserialize(certs) {
        Ok(v) => v,
        Err(e) => {
            return Printout { lines: Vec::new(), error: Some(e) };
        },
    };
    let items = match value_to_array(value, "UdsCerts certificate array") {
        Ok(items) => items,
        Err(e) => {
            return Printout { lines: Vec::new(), error: Some(e) };
        },
    };
    let ghost all = items@;
    let mut lines: Vec<String> = Vec::new();
    assert(all.skip(0) == all);
    assert(line_texts(lines@) + cert_items_printout(all).0 =~= cert_items_printout(all).0);
    for item in it: items.into_iter()
        invariant
            it.seq() == all,
            cert_array_printout(certs@) == cert_items_printout(all),
            cert_items_printout(all) == (
                line_texts(lines@) + cert_items_printout(all.skip(it.index() as int)).0,
                cert_items_printout(all.skip(it.index() as int)).1,
            ),
    {
        let ghost i = it.index();
        let ghost tail = all.skip(i as int);
        assert(tail[0] == all[i as int]);
        assert(tail.drop_first() == all.skip(i + 1));
        let ghost before = line_texts(lines@);
        assert(item == all[i as int]);
        let bytes = match value_to_bytes(item, "UdsCerts certificate array") {
            Ok(b) => b,
            Err(e) => {
                assert(cert_items_printout(tail) == (Seq::<Seq<char>>::empty(), Some(e)));
                assert(before + Seq::<Seq<char>>::empty() =~= before);
                return Printout { lines, error: Some(e) };
            },
        };
        let mut shown = render_certs(bytes.as_slice());
        let ghost shown_lines = shown.lines@;
        lines.append(&mut shown.lines);
        assert(line_texts(lines@) =~= before + line_texts(shown_lines));
        if shown.error.is_some() {
            return Printout { lines, error: shown.error };
        }
        let ghost rest = cert_items_printout(all.skip(i + 1));
        assert(line_texts(lines@) + rest.0 =~= before + (line_texts(shown_lines) + rest.0));
    }
    assert(all.skip(all.len() as int) =~= Seq::<CborValue>::empty());
    assert(line_texts(lines@) + Seq::<Seq<char>>::empty() =~= line_texts(lines@));
    Printout { lines, error: None }
}

} // verus!
