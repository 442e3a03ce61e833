//! UDS certificate chains: the file that maps each signer's name to its CBOR-encoded
//! array of certificates.

use vstd::prelude::*;
use crate::cbor::{
    cbor_text_bytes_map, entry_views, deserialize, deserialized, is_text_bytes_map,
    serialize_text_bytes_map, unexpected, value_to_bytes, value_to_map, value_to_text, CborValue,
};
use crate::error::ProvisioningError;
use crate::certs::{
    cert_array_printout, cert_items_printout, lemma_cert_array_one_line_per_certificate, line_texts,
    render_cert_array, x509_certificate_text, der_tlv_len, Printout,
};
use vstd::string::*;

verus! {

/// Where UDS certificates are provisioned.
#[derive(Clone, Copy, Debug, PartialEq, Eq, Structural)]
pub enum UdsCertsTarget {
    /// The host's persistent storage.
    Host,
}

/// Where the host keeps its UDS certificates.
pub const HOST_UDS_CERTS_PATH: &'static str = "/mnt/vendor/persist/uds_certs";

/// The UDS certificate chains of one signer.
#[derive(Debug)]
pub struct UdsCerts {
    /// The signer's name.
    pub signer_name: String,
    /// CBOR-encoded array of byte strings, one per certificate.
    pub certs: Vec<u8>,
}

/// The context that [`load_uds_certs`] gives when the file is not a map.
pub open spec fn load_map_context() -> &'static str {
    "parse Uds certs map"
}

/// The context that [`load_uds_certs`] gives when an entry is not a text/bytes pair.
pub open spec fn load_entry_context() -> &'static str {
    "converting to UdsCerts"
}

/// What [`UdsCerts::try_from_cbor`] returns for a map entry `(k, v)`.
pub open spec fn uds_certs_of(k: CborValue, v: CborValue, context: &'static str) -> Result<UdsCerts, ProvisioningError> {
    match k {
        CborValue::Text(name) => match v {
            CborValue::Bytes(certs) => Ok(UdsCerts { signer_name: name, certs }),
            _ => Err(unexpected(v, "bstr", context)),
        },
        _ => Err(unexpected(k, "tstr", context)),
    }
}

/// The UDS certificates of the map entries `entries`, in order; or the error of the
/// first entry that is not a text/bytes pair.
pub open spec fn uds_certs_of_entries(entries: Seq<(CborValue, CborValue)>, context: &'static str) -> Result<Seq<UdsCerts>, ProvisioningError>
    decreases entries.len(),
{
    if entries.len() == 0 {
        Ok(Seq::empty())
    } else {
        match uds_certs_of_entries(entries.drop_last(), context) {
            Err(e) => Err(e),
            Ok(prefix) => match uds_certs_of(entries.last().0, entries.last().1, context) {
                Err(e) => Err(e),
                Ok(c) => Ok(prefix.push(c)),
            },
        }
    }
}

/// Once a prefix of the entries fails, all the entries fail with the same error.
proof fn lemma_entries_error_extends(entries: Seq<(CborValue, CborValue)>, j: int, context: &'static str)
    requires
        0 <= j <= entries.len(),
        uds_certs_of_entries(entries.take(j), context) is Err,
    ensures
        uds_certs_of_entries(entries, context) == uds_certs_of_entries(entries.take(j), context),
    decreases entries.len() - j,
{
    if j < entries.len() {
        assert(entries.take(j + 1).drop_last() == entries.take(j));
        lemma_entries_error_extends(entries, j + 1, context);
    } else {
        assert(entries.take(j) == entries);
    }
}

/// What [`load_uds_certs`] returns for the contents `data` of a UDS certificates file.
pub open spec fn loaded_uds_certs(data: Seq<u8>) -> Result<Seq<UdsCerts>, ProvisioningError> {
    match deserialized(data) {
        Err(e) => Err(e),
        Ok(v) => match v {
            CborValue::Pairs(m) => uds_certs_of_entries(m@, load_entry_context()),
            _ => Err(unexpected(v, "map", load_map_context())),
        },
    }
}

impl UdsCerts {
    /// Reads a map entry: the key must be the signer's name (a text string), the value
    /// the certificates (a byte string); fails, naming `context`, otherwise.
    pub fn try_from_cbor(k: CborValue, v: CborValue, context: &'static str) -> (r: Result<Self, ProvisioningError>)
        ensures
            r == uds_certs_of(k, v, context),
    {
        let signer_name = value_to_text(k, context)?;
        let certs = value_to_bytes(v, context)?;
        Ok(UdsCerts { signer_name, certs })
    }

    /// The map entry that stands for these certificates: the signer's name as a text
    /// string, the certificates as a byte string.
    pub fn into_cbor_entry(self) -> (r: (CborValue, CborValue))
        ensures
            r == (CborValue::Text(self.signer_name), CborValue::Bytes(self.certs)),
    {
        (CborValue::Text(self.signer_name), CborValue::Bytes(self.certs))
    }
}

/// The map entry of a signer's certificates reads back as those certificates; and a map
/// entry that reads as some certificates is exactly the map entry of those certificates.
pub proof fn lemma_cbor_entry_round_trip(c: UdsCerts, k: CborValue, v: CborValue, context: &'static str)
    ensures
        uds_certs_of(CborValue::Text(c.signer_name), CborValue::Bytes(c.certs), context)
            == Ok::<UdsCerts, ProvisioningError>(c),
        uds_certs_of(k, v, context) == Ok::<UdsCerts, ProvisioningError>(c) ==> k == CborValue::Text(
            c.signer_name,
        ) && v == CborValue::Bytes(c.certs),
{
}

/// Reads the UDS certificates from the map entries `entries`, in order.
fn uds_certs_from_entries(entries: Vec<(CborValue, CborValue)>, context: &'static str) -> (r: Result<Vec<UdsCerts>, ProvisioningError>)
    ensures
        r matches Ok(c) ==> uds_certs_of_entries(entries@, context) == Ok::<Seq<UdsCerts>, ProvisioningError>(c@),
        r matches Err(e) ==> uds_certs_of_entries(entries@, context) == Err::<Seq<UdsCerts>, ProvisioningError>(e),
{
    let ghost all = entries@;
    let mut out: Vec<UdsCerts> = Vec::new();
    for entry in it: entries.into_iter()
        invariant
            it.seq() == all,
            uds_certs_of_entries(all.take(it.index() as int), context) == Ok::<Seq<UdsCerts>, ProvisioningError>(out@),
    {
        let ghost i = it.index();
        assert(all.take(i + 1).drop_last() == all.take(i as int));
        let (k, v) = entry;
        match UdsCerts::try_from_cbor(k, v, context) {
            Ok(c) => out.push(c),
            Err(e) => {
                proof {
                    lemma_entries_error_extends(all, i + 1, context);
                }
                return Err(e);
            },
        }
    }
    assert(all.take(all.len() as int) == all);
    Ok(out)
}

/// Reads a UDS certificates file: `data` must be one CBOR map whose keys are signer
/// names (text strings) and whose values are certificates (byte strings).
pub fn load_uds_certs(data: &[u8]) -> (r: Result<Vec<UdsCerts>, ProvisioningError>)
    ensures
        r matches Ok(c) ==> loaded_uds_certs(data@) == Ok::<Seq<UdsCerts>, ProvisioningError>(c@),
        r matches Err(e) ==> loaded_uds_certs(data@) == Err::<Seq<UdsCerts>, ProvisioningError>(e),
        data.len() == 0 ==> r is Err,
{
    let value = deserialize(data)?;
    let entries = value_to_map(value, "parse Uds certs map")?;
    uds_certs_from_entries(entries, "converting to UdsCerts")
}

/// The text/bytes pairs that stand for `certs` in a UDS certificates file, in order.
pub open spec fn uds_certs_pairs(certs: Seq<UdsCerts>) -> Seq<(String, Vec<u8>)> {
    certs.map_values(|c: UdsCerts| (c.signer_name, c.certs))
}

/// The signer names and certificates of `certs`, in order, as they stand in a UDS
/// certificates file.
pub open spec fn uds_certs_entries(certs: Seq<UdsCerts>) -> Seq<(Seq<char>, Seq<u8>)> {
    certs.map_values(|c: UdsCerts| (c.signer_name@, c.certs@))
}

/// Map entries that are the text and byte strings of `certs` read back as `certs`.
proof fn lemma_entries_read_back(m: Seq<(CborValue, CborValue)>, certs: Seq<UdsCerts>, context: &'static str)
    requires
        m.len() == certs.len(),
        forall|i: int|
            0 <= i < m.len() ==> #[trigger] m[i] == (
            CborValue::Text(certs[i].signer_name),
            CborValue::Bytes(certs[i].certs),
        ),
    ensures
        uds_certs_of_entries(m, context) == Ok::<Seq<UdsCerts>, ProvisioningError>(certs),
    decreases m.len(),
{
    if m.len() > 0 {
        let n = m.len() - 1;
        assert(m[n] == (CborValue::Text(certs[n].signer_name), CborValue::Bytes(certs[n].certs)));
        lemma_entries_read_back(m.drop_last(), certs.drop_last(), context);
        assert(certs.drop_last().push(certs.last()) == certs);
    } else {
        assert(certs == Seq::<UdsCerts>::empty());
    }
}

/// Encodes `certs` as a UDS certificates file: a CBOR map from each signer's name to its
/// certificates, in the order of `certs`.
fn uds_certs_to_file(certs: Vec<UdsCerts>) -> (r: Result<Vec<u8>, ProvisioningError>)
    ensures
        r is Ok,
        r matches Ok(bytes) ==> {
            &&& bytes@ == cbor_text_bytes_map(uds_certs_entries(certs@))
            &&& loaded_uds_certs(bytes@) == Ok::<Seq<UdsCerts>, ProvisioningError>(certs@)
        },
{
    let ghost all = certs@;
    let mut entries: Vec<(String, Vec<u8>)> = Vec::new();
    for c in it: certs.into_iter()
        invariant
            it.seq() == all,
            entries@ == uds_certs_pairs(all.take(it.index() as int)),
    {
        let ghost i = it.index();
        assert(all.take(i + 1) == all.take(i as int).push(all[i as int]));
        let (k, v) = c.into_cbor_entry();
        match (k, v) {
            (CborValue::Text(name), CborValue::Bytes(bytes)) => entries.push((name, bytes)),
            _ => {
                proof {
                    assert(false);
                }
            },
        }
        assert(entries@ == uds_certs_pairs(all.take(i + 1)));
    }
    assert(all.take(all.len() as int) == all);
    let ghost pairs = entries@;
    assert(entry_views(pairs) =~= uds_certs_entries(all));
    let r = serialize_text_bytes_map(entries);
    proof {
        if r is Ok {
            let bytes = r->Ok_0;
            if let Ok(v) = deserialized(bytes@) {
                if let CborValue::Pairs(m) = v {
                    assert forall|i: int| 0 <= i < m@.len() implies #[trigger] m@[i] == (
                        CborValue::Text(all[i].signer_name),
                        CborValue::Bytes(all[i].certs),
                    ) by {
                        assert(m@[i] == (CborValue::Text(pairs[i].0), CborValue::Bytes(pairs[i].1)));
                    }
                    lemma_entries_read_back(m@, all, load_entry_context());
                }
            }
        }
    }
    r
}

/// Whether a signer named `name` has certificates in `certs`.
pub open spec fn has_signer(certs: Seq<UdsCerts>, name: Seq<char>) -> bool {
    exists|i: int| 0 <= i < certs.len() && #[trigger] certs[i].signer_name@ == name
}

/// The certificates of `stored` whose signer has none in `new`, in order.
pub open spec fn kept_uds_certs(stored: Seq<UdsCerts>, new: Seq<UdsCerts>) -> Seq<UdsCerts>
    decreases stored.len(),
{
    if stored.len() == 0 {
        Seq::empty()
    } else {
        let prefix = kept_uds_certs(stored.drop_last(), new);
        if has_signer(new, stored.last().signer_name@) {
            prefix
        } else {
            prefix.push(stored.last())
        }
    }
}

/// The certificates that appending `new` to `stored` gives: those of `stored` whose
/// signer has none in `new`, then all of `new`, each group in its own order.
pub open spec fn merged_uds_certs(stored: Seq<UdsCerts>, new: Seq<UdsCerts>) -> Seq<UdsCerts> {
    kept_uds_certs(stored, new) + new
}

/// Appending keeps every stored certificate whose signer the new certificates do not
/// name, keeps none whose signer they name, and keeps every new certificate.
pub proof fn lemma_merge_keeps_unnamed_signers(stored: Seq<UdsCerts>, new: Seq<UdsCerts>, i: int)
    requires
        0 <= i < stored.len(),
    ensures
        !has_signer(new, stored[i].signer_name@) ==> merged_uds_certs(stored, new).contains(stored[i]),
        forall|j: int|
            0 <= j < kept_uds_certs(stored, new).len() ==> !has_signer(
                new,
                #[trigger] kept_uds_certs(stored, new)[j].signer_name@,
            ),
        forall|j: int| 0 <= j < new.len() ==> merged_uds_certs(stored, new).contains(#[trigger] new[j]),
    decreases stored.len(),
{
    let kept = kept_uds_certs(stored, new);
    let merged = merged_uds_certs(stored, new);
    let prefix = kept_uds_certs(stored.drop_last(), new);
    if i < stored.len() - 1 {
        lemma_merge_keeps_unnamed_signers(stored.drop_last(), new, i);
        assert(stored.drop_last()[i] == stored[i]);
        if !has_signer(new, stored[i].signer_name@) {
            let k = choose|k: int| 0 <= k < prefix.len() + new.len() && merged_uds_certs(stored.drop_last(), new)[k] == stored[i];
            if k < prefix.len() {
                assert(kept[k] == prefix[k]);
                assert(merged[k] == stored[i]);
            } else {
                assert(merged[kept.len() + (k - prefix.len())] == stored[i]);
            }
        }
    } else {
        if stored.len() > 1 {
            lemma_merge_keeps_unnamed_signers(stored.drop_last(), new, 0);
        }
        if !has_signer(new, stored[i].signer_name@) {
            assert(merged[prefix.len() as int] == stored[i]);
        }
    }
    if stored.len() == 1 {
        assert(prefix == Seq::<UdsCerts>::empty());
    }
    assert forall|j: int| 0 <= j < new.len() implies merged.contains(#[trigger] new[j]) by {
        assert(merged[kept.len() + j] == new[j]);
    }
}

/// What appending keeps of the stored certificates comes from them, in order, and holds
/// no signer that any of the new certificates names, the last one included.
proof fn lemma_kept_from_stored_and_unnamed(stored: Seq<UdsCerts>, new: Seq<UdsCerts>)
    ensures
        forall|j: int, k: int|
            0 <= j < kept_uds_certs(stored, new).len() && 0 <= k < new.len() ==> #[trigger] kept_uds_certs(stored, new)[j].signer_name@
                != #[trigger] new[k].signer_name@,
        forall|j: int| 0 <= j < kept_uds_certs(stored, new).len() ==> stored.contains(#[trigger] kept_uds_certs(stored, new)[j]),
    decreases stored.len(),
{
    if stored.len() > 0 {
        let prefix = kept_uds_certs(stored.drop_last(), new);
        let kept = kept_uds_certs(stored, new);
        lemma_kept_from_stored_and_unnamed(stored.drop_last(), new);
        assert forall|j: int, k: int| 0 <= j < kept.len() && 0 <= k < new.len() implies #[trigger] kept[j].signer_name@
            != #[trigger] new[k].signer_name@ by {
            if j < prefix.len() {
                assert(kept[j] == prefix[j]);
            } else {
                assert(kept[j] == stored.last());
                assert(!has_signer(new, stored.last().signer_name@));
                if new[k].signer_name@ == stored.last().signer_name@ {
                    assert(has_signer(new, stored.last().signer_name@));
                }
            }
        }
        assert forall|j: int| 0 <= j < kept.len() implies stored.contains(#[trigger] kept[j]) by {
            if j < prefix.len() {
                assert(kept[j] == prefix[j]);
                let m = choose|m: int| 0 <= m < stored.drop_last().len() && stored.drop_last()[m] == prefix[j];
                assert(stored[m] == prefix[j]);
            } else {
                assert(stored[stored.len() - 1] == kept[j]);
            }
        }
    }
}

/// Appending `new` to `stored` gives the stored certificates of the signers that none of
/// `new` names, in their order, then exactly `new`: no stored certificate survives whose
/// signer any new certificate names, and every other stored certificate survives.
pub proof fn lemma_append_replaces_named_signers(stored: Seq<UdsCerts>, new: Seq<UdsCerts>)
    ensures
        ({
            let merged = merged_uds_certs(stored, new);
            let kept_len = merged.len() - new.len();
            &&& merged.len() >= new.len()
            &&& merged.subrange(kept_len, merged.len() as int) == new
            &&& forall|j: int, k: int|
                0 <= j < kept_len && 0 <= k < new.len() ==> #[trigger] merged[j].signer_name@ != #[trigger] new[k].signer_name@
            &&& forall|j: int| 0 <= j < kept_len ==> stored.contains(#[trigger] merged[j])
            &&& forall|i: int|
                0 <= i < stored.len() && (forall|k: int| 0 <= k < new.len() ==> #[trigger] new[k].signer_name@ != stored[i].signer_name@)
                    ==> merged.contains(#[trigger] stored[i])
        }),
{
    let kept = kept_uds_certs(stored, new);
    let merged = merged_uds_certs(stored, new);
    lemma_kept_from_stored_and_unnamed(stored, new);
    assert(merged.subrange(kept.len() as int, merged.len() as int) =~= new);
    assert forall|j: int, k: int| 0 <= j < kept.len() && 0 <= k < new.len() implies #[trigger] merged[j].signer_name@
        != #[trigger] new[k].signer_name@ by {
        assert(merged[j] == kept[j]);
        assert(kept[j].signer_name@ != new[k].signer_name@);
    }
    assert forall|j: int| 0 <= j < kept.len() implies stored.contains(#[trigger] merged[j]) by {
        assert(merged[j] == kept[j]);
        assert(stored.contains(kept[j]));
    }
    assert forall|i: int|
        0 <= i < stored.len() && (forall|k: int| 0 <= k < new.len() ==> #[trigger] new[k].signer_name@ != stored[i].signer_name@)
        implies merged.contains(#[trigger] stored[i]) by {
        if has_signer(new, stored[i].signer_name@) {
            let k = choose|k: int| 0 <= k < new.len() && #[trigger] new[k].signer_name@ == stored[i].signer_name@;
            assert(new[k].signer_name@ != stored[i].signer_name@);
        }
        lemma_merge_keeps_unnamed_signers(stored, new, i);
    }
}

/// The certificates of the store whose contents are `stored`: none when there is no
/// store yet, else what its file loads as.
pub open spec fn stored_uds_certs(stored: Option<&[u8]>) -> Result<Seq<UdsCerts>, ProvisioningError> {
    match stored {
        None => Ok(Seq::empty()),
        Some(data) => loaded_uds_certs(data@),
    }
}

/// Whether `certs` holds certificates of the signer named `name`.
fn contains_signer(certs: &Vec<UdsCerts>, name: &String) -> (r: bool)
    ensures
        r == has_signer(certs@, name@),
{
    let mut j: usize = 0;
    while j < certs.len()
        invariant
            j <= certs.len(),
            forall|k: int| 0 <= k < j ==> certs@[k].signer_name@ != name@,
        decreases certs.len() - j,
    {
        if certs[j].signer_name == *name {
            assert(certs@[j as int].signer_name@ == name@);
            return true;
        }
        j = j + 1;
    }
    false
}

/// Appends `new` to `stored`: the certificates of `stored` whose signer has none in
/// `new` are kept, and all of `new` follows them.
fn merge_uds_certs(stored: Vec<UdsCerts>, new: Vec<UdsCerts>) -> (r: Vec<UdsCerts>)
    ensures
        r@ == merged_uds_certs(stored@, new@),
{
    let ghost all = stored@;
    let mut out: Vec<UdsCerts> = Vec::new();
    for c in it: stored.into_iter()
        invariant
            it.seq() == all,
            out@ == kept_uds_certs(all.take(it.index() as int), new@),
    {
        let ghost i = it.index();
        assert(all.take(i + 1).drop_last() == all.take(i as int));
        assert(all.take(i + 1).last() == all[i as int]);
        if !contains_signer(&new, &c.signer_name) {
            out.push(c);
        }
    }
    assert(all.take(all.len() as int) == all);
    let mut new = new;
    out.append(&mut new);
    out
}

/// Appends UDS certificate chains: reads the certificates in `input` (a UDS certificates
/// file) and the certificates already stored for `target` (`stored`, the contents of its
/// file, or `None` when there is none yet), and returns the file to store, which holds
/// the stored certificates of every signer that `input` does not name, followed by all
/// the certificates of `input`.
///
/// Fails with the error of `input` if it does not load, else with that of the stored
/// file if it does not load.
pub fn append_uds_certs(target: UdsCertsTarget, stored: Option<&[u8]>, input: &[u8]) -> (r: Result<
    Vec<u8>,
    ProvisioningError,
>)
    ensures
        r is Ok <==> loaded_uds_certs(input@) is Ok && stored_uds_certs(stored) is Ok,
        input.len() == 0 ==> r is Err,
        r matches Err(e) ==> {
            ||| loaded_uds_certs(input@) == Err::<Seq<UdsCerts>, ProvisioningError>(e)
            ||| loaded_uds_certs(input@) is Ok && stored_uds_certs(stored) == Err::<
                Seq<UdsCerts>,
                ProvisioningError,
            >(e)
        },
        r matches Ok(bytes) ==> {
            &&& loaded_uds_certs(input@) matches Ok(new)
            &&& stored_uds_certs(stored) matches Ok(old)
            &&& bytes@ == cbor_text_bytes_map(uds_certs_entries(merged_uds_certs(old, new)))
            &&& loaded_uds_certs(bytes@) == Ok::<Seq<UdsCerts>, ProvisioningError>(merged_uds_certs(old, new))
        },
{
    match target {
        UdsCertsTarget::Host => {
            let new_uds_certs = load_uds_certs(input)?;
            let stored_certs = match stored {
                None => Vec::new(),
                Some(data) => load_uds_certs(data)?,
            };
            let merged = merge_uds_certs(stored_certs, new_uds_certs);
            uds_certs_to_file(merged)
        },
    }
}

/// The context of a file that [`render_uds_certs`] cannot decode.
pub open spec fn deserialize_context() -> &'static str {
    "UdsCerts deserialize CBOR value"
}

/// The line that introduces the certificates of the signer named `name`.
pub open spec fn signer_line(name: Seq<char>) -> Seq<char> {
    "SignerName: "@ + name
}

/// The line printed when the host holds no UDS certificates.
pub open spec fn no_certs_line() -> Seq<char> {
    "No UDS certificates found in "@ + HOST_UDS_CERTS_PATH@ + "."@
}

/// The lines that [`render_uds_certs`] gives for the map entries `entries`, and the error
/// that stops it, if any: for each entry in order, the signer line and the lines of its
/// certificates (a CBOR-encoded array of byte strings, see [`cert_array_printout`]); it stops at an entry that is not a text/bytes pair, or at a chain
/// that does not render.
pub open spec fn uds_entries_printout(entries: Seq<(CborValue, CborValue)>) -> (Seq<Seq<char>>, Option<ProvisioningError>)
    decreases entries.len(),
{
    if entries.len() == 0 {
        (Seq::empty(), None)
    } else {
        let k = entries[0].0;
        let v = entries[0].1;
        match k {
            CborValue::Text(name) => match v {
                CborValue::Bytes(certs) => {
                    let shown = cert_array_printout(certs@);
                    let head = seq![signer_line(name@)] + shown.0;
                    if shown.1 is Some {
                        (head, shown.1)
                    } else {
                        let rest = uds_entries_printout(entries.drop_first());
                        (head + rest.0, rest.1)
                    }
                },
                _ => (Seq::empty(), Some(unexpected(v, "bstr", "UdsCerts get certificate bytes"))),
            },
            _ => (Seq::empty(), Some(unexpected(k, "tstr", "UdsCerts get signer name"))),
        }
    }
}

/// The lines for a signer are its signer line, then every line that its certificate
/// array renders to; if that array renders without error, the lines of the next signers
/// follow, else its error ends the printout.
pub proof fn lemma_signer_lines(entries: Seq<(CborValue, CborValue)>, name: String, certs: Vec<u8>)
    requires
        entries.len() > 0,
        entries[0] == (CborValue::Text(name), CborValue::Bytes(certs)),
    ensures
        ({
            let all = uds_entries_printout(entries);
            let shown = cert_array_printout(certs@);
            let rest = uds_entries_printout(entries.drop_first());
            &&& all.0.len() >= 1 + shown.0.len()
            &&& all.0[0] == signer_line(name@)
            &&& all.0.subrange(1, 1 + shown.0.len() as int) == shown.0
            &&& shown.1 is None ==> all.0.subrange(1 + shown.0.len() as int, all.0.len() as int) == rest.0 && all.1 == rest.1
            &&& shown.1 is Some ==> all.0.len() == 1 + shown.0.len() && all.1 == shown.1
        }),
{
    let shown = cert_array_printout(certs@);
    let rest = uds_entries_printout(entries.drop_first());
    let head = seq![signer_line(name@)] + shown.0;
    if shown.1 is None {
        assert(uds_entries_printout(entries).0 == head + rest.0);
        assert((head + rest.0).subrange(1, 1 + shown.0.len() as int) =~= shown.0);
        assert((head + rest.0).subrange(1 + shown.0.len() as int, (head + rest.0).len() as int) =~= rest.0);
    } else {
        assert(uds_entries_printout(entries).0 == head);
        assert(head.subrange(1, 1 + shown.0.len() as int) =~= shown.0);
    }
}

/// A signer whose certificates decode to an array of whole certificates, each one TLV
/// element that the X.509 parser accepts, is shown by exactly its signer line and then
/// one line per certificate, in the array's order; the next signers follow.
pub proof fn lemma_signer_with_certificate_array(
    entries: Seq<(CborValue, CborValue)>,
    name: String,
    certs: Vec<u8>,
    items: Vec<CborValue>,
    texts: Seq<String>,
)
    requires
        entries.len() > 0,
        entries[0] == (CborValue::Text(name), CborValue::Bytes(certs)),
        deserialized(certs@) == Ok::<CborValue, ProvisioningError>(CborValue::Array(items)),
        items@.len() == texts.len(),
        forall|i: int|
            0 <= i < items@.len() ==> (#[trigger] items@[i] matches CborValue::Bytes(b) && 0 < b@.len() <= usize::MAX
                && der_tlv_len(b@, 0) == Ok::<usize, String>(b@.len() as usize)
                && x509_certificate_text(b@) == Ok::<String, String>(texts[i])),
    ensures
        uds_entries_printout(entries).0 == seq![signer_line(name@)] + line_texts(texts)
            + uds_entries_printout(entries.drop_first()).0,
        uds_entries_printout(entries).1 == uds_entries_printout(entries.drop_first()).1,
{
    lemma_cert_array_one_line_per_certificate(items@, texts);
    assert(cert_array_printout(certs@) == cert_items_printout(items@));
    lemma_signer_lines(entries, name, certs);
    let all = uds_entries_printout(entries).0;
    let k = line_texts(texts).len();
    assert(all =~= all.subrange(0, 1) + all.subrange(1, 1 + k as int) + all.subrange(1 + k as int, all.len() as int));
    assert(all.subrange(0, 1) =~= seq![signer_line(name@)]);
}

/// The lines that [`render_uds_certs`] gives for the UDS certificates file `data`, and
/// the error that stops it, if any.
pub open spec fn uds_certs_printout(data: Seq<u8>) -> (Seq<Seq<char>>, Option<ProvisioningError>) {
    match deserialized(data) {
        Err(e) => (Seq::empty(), Some(ProvisioningError::Context(deserialize_context(), Box::new(e)))),
        Ok(v) => match v {
            CborValue::Pairs(m) => if m@.len() == 0 {
                (seq![no_certs_line()], None)
            } else {
                uds_entries_printout(m@)
            },
            _ => (Seq::empty(), Some(unexpected(v, "map", "UdsCerts CBOR value to map"))),
        },
    }
}

/// Renders the UDS certificates that `target` holds, given the contents `data` of its
/// file: each signer's name, then its certificates.
pub fn render_uds_certs(target: UdsCertsTarget, data: &[u8]) -> (r: Printout)
    ensures
        line_texts(r.lines@) == uds_certs_printout(data@).0,
        r.error == uds_certs_printout(data@).1,
{
    match target {
        UdsCertsTarget::Host => {},
    }
    let value = match deserialize(data) {
        Ok(v) => v,
        Err(e) => {
            let error = ProvisioningError::Context("UdsCerts deserialize CBOR value", Box::new(e));
            return Printout { lines: Vec::new(), error: Some(error) };
        },
    };
    let entries = match value_to_map(value, "UdsCerts CBOR value to map") {
        Ok(m) => m,
        Err(e) => {
            return Printout { lines: Vec::new(), error: Some(e) };
        },
    };
    if entries.len() == 0 {
        let mut line = String::from_str("No UDS certificates found in ");
        line.append(HOST_UDS_CERTS_PATH);
        line.append(".");
        let lines = vec![line];
        assert(line_texts(lines@) =~= seq![no_certs_line()]);
        return Printout { lines, error: None };
    }
    let ghost all = entries@;
    let mut lines: Vec<String> = Vec::new();
    assert(all.skip(0) == all);
    assert(line_texts(lines@) + uds_entries_printout(all).0 =~= uds_entries_printout(all).0);
    for entry in it: entries.into_iter()
        invariant
            it.seq() == all,
            uds_certs_printout(data@) == uds_entries_printout(all),
            uds_entries_printout(all) == (
                line_texts(lines@) + uds_entries_printout(all.skip(it.index() as int)).0,
                uds_entries_printout(all.skip(it.index() as int)).1,
            ),
    {
        let ghost i = it.index();
        let ghost tail = all.skip(i as int);
        assert(tail[0] == all[i as int]);
        assert(tail.drop_first() == all.skip(i + 1));
        let ghost before = line_texts(lines@);
        assert(entry == all[i as int]);
        let (k, v) = entry;
        let signer = match value_to_text(k, "UdsCerts get signer name") {
            Ok(s) => s,
            Err(e) => {
                assert(uds_entries_printout(tail) == (Seq::<Seq<char>>::empty(), Some(e)));
                assert(before + Seq::<Seq<char>>::empty() =~= before);
                return Printout { lines, error: Some(e) };
            },
        };
        let certs = match value_to_bytes(v, "UdsCerts get certificate bytes") {
            Ok(b) => b,
            Err(e) => {
                assert(before + Seq::<Seq<char>>::empty() =~= before);
                return Printout { lines, error: Some(e) };
            },
        };
        let mut line = String::from_str("SignerName: ");
        line.append(signer.as_str());
        lines.push(line);
        let mut shown = render_cert_array(certs.as_slice());
        let ghost shown_lines = shown.lines@;
        lines.append(&mut shown.lines);
        assert(line_texts(lines@) =~= before + (seq![signer_line(signer@)] + line_texts(shown_lines)));
        if shown.error.is_some() {
            return Printout { lines, error: shown.error };
        }
        let ghost rest = uds_entries_printout(all.skip(i + 1));
        assert(line_texts(lines@) + rest.0 =~= before + ((seq![signer_line(signer@)] + line_texts(shown_lines)) + rest.0));
    }
    assert(all.skip(all.len() as int) =~= Seq::<(CborValue, CborValue)>::empty());
    assert(line_texts(lines@) + Seq::<Seq<char>>::empty() =~= line_texts(lines@));
    Printout { lines, error: None }
}

} // verus!
