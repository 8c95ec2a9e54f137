//! Certificates read from a PEM bundle, and their merge into the trust store
//! that the API client is built with.
use vstd::prelude::*;
use vstd::string::StringSliceAdditionalSpecFns;

verus! {

/// The error type of the `pem` crate.
#[verifier::external_type_specification]
#[verifier::external_body]
pub struct ExPemError(pem::PemError);

/// One section of a PEM document: the label of its BEGIN/END lines and the
/// bytes that its base64 payload decodes to.
#[derive(Clone, Debug, PartialEq, Eq)]
pub struct PemBlock {
    /// The label, such as `CERTIFICATE`, as UTF-8 bytes.
    pub tag: Vec<u8>,
    /// The decoded payload.
    pub contents: Vec<u8>,
}

impl View for PemBlock {
    type V = (Seq<u8>, Seq<u8>);

    open spec fn view(&self) -> (Seq<u8>, Seq<u8>) {
        (self.tag@, self.contents@)
    }
}

/// The sections that `pem::parse_many` finds in `input`, each as its label's
/// bytes and its decoded payload, in the order in which they stand; `None`
/// where it rejects the input.
pub uninterp spec fn pem_parse_many(input: Seq<u8>) -> Option<Seq<(Seq<u8>, Seq<u8>)>>;

/// The views of a sequence of sections.
pub open spec fn blocks_view(blocks: Seq<PemBlock>) -> Seq<(Seq<u8>, Seq<u8>)> {
    blocks.map_values(|b: PemBlock| b@)
}

/// The views of a sequence of byte vectors.
pub open spec fn bytes_view(items: Seq<Vec<u8>>) -> Seq<Seq<u8>> {
    items.map_values(|v: Vec<u8>| v@)
}

/// The label of a certificate section.
pub open spec fn certificate_tag() -> Seq<u8> {
    "CERTIFICATE".spec_bytes()
}

/// Whether a section holds a certificate.
pub open spec fn is_certificate_block(block: (Seq<u8>, Seq<u8>)) -> bool {
    block.0 == certificate_tag()
}

/// The payloads of the certificate sections among `blocks`, in their order;
/// every other section is left out.
pub open spec fn certificate_contents(blocks: Seq<(Seq<u8>, Seq<u8>)>) -> Seq<Seq<u8>>
    decreases blocks.len(),
{
    if blocks.len() == 0 {
        Seq::empty()
    } else if is_certificate_block(blocks.last()) {
        certificate_contents(blocks.drop_last()).push(blocks.last().1)
    } else {
        certificate_contents(blocks.drop_last())
    }
}

/// The certificates of a bundle are exactly its sections labelled
/// `CERTIFICATE`, filtered in their order, each taken as its payload.
pub proof fn lemma_certificate_contents_is_filter(blocks: Seq<(Seq<u8>, Seq<u8>)>)
    ensures
        certificate_contents(blocks) == blocks.filter(
            |b: (Seq<u8>, Seq<u8>)| b.0 == "CERTIFICATE".spec_bytes(),
        ).map_values(|b: (Seq<u8>, Seq<u8>)| b.1),
    decreases blocks.len(),
{
    let pred = |b: (Seq<u8>, Seq<u8>)| b.0 == "CERTIFICATE".spec_bytes();
    let payload = |b: (Seq<u8>, Seq<u8>)| b.1;
    reveal_with_fuel(Seq::filter, 1);
    if blocks.len() == 0 {
        assert(blocks.filter(pred).map_values(payload) =~= Seq::<Seq<u8>>::empty());
    } else {
        lemma_certificate_contents_is_filter(blocks.drop_last());
        let rest = blocks.drop_last().filter(pred);
        if pred(blocks.last()) {
            assert(blocks.filter(pred) == rest.push(blocks.last()));
            assert(rest.push(blocks.last()).map_values(payload) =~= rest.map_values(payload).push(
                blocks.last().1,
            ));
        } else {
            assert(blocks.filter(pred) == rest);
        }
    }
}

/// The certificates of two bundles read one after the other are those of
/// the first followed by those of the second: any number of certificate
/// sections is read, none is dropped and none reordered.
pub proof fn lemma_certificate_contents_concat(
    first: Seq<(Seq<u8>, Seq<u8>)>,
    second: Seq<(Seq<u8>, Seq<u8>)>,
)
    ensures
        certificate_contents(first + second) == certificate_contents(first) + certificate_contents(
            second,
        ),
    decreases second.len(),
{
    if second.len() == 0 {
        assert(first + second =~= first);
        assert(certificate_contents(first) + certificate_contents(second) =~= certificate_contents(
            first,
        ));
    } else {
        lemma_certificate_contents_concat(first, second.drop_last());
        assert((first + second).drop_last() =~= first + second.drop_last());
        assert((first + second).last() == second.last());
        if is_certificate_block(second.last()) {
            assert(certificate_contents(first) + certificate_contents(second) =~= (
            certificate_contents(first) + certificate_contents(second.drop_last())).push(
                second.last().1,
            ));
        }
    }
}

/// One section gives its payload when it is labelled `CERTIFICATE`, and
/// nothing otherwise.
pub proof fn lemma_certificate_contents_single(block: (Seq<u8>, Seq<u8>))
    ensures
        certificate_contents(seq![block]) == if block.0 == "CERTIFICATE".spec_bytes() {
            seq![block.1]
        } else {
            Seq::<Seq<u8>>::empty()
        },
{
    assert(seq![block].drop_last() =~= Seq::<(Seq<u8>, Seq<u8>)>::empty());
    assert(seq![block].last() == block);
    assert(certificate_contents(Seq::<(Seq<u8>, Seq<u8>)>::empty()) =~= Seq::<Seq<u8>>::empty());
    assert(Seq::<Seq<u8>>::empty().push(block.1) =~= seq![block.1]);
}

/// The error of a PEM bundle that does not parse.
#[derive(Debug, PartialEq, Eq)]
pub struct PemParseError {
    /// The error the PEM parser returned, with its own causes.
    pub source: pem::PemError,
}

/// Calls `pem::parse_many` on `data` and hands each section out as its
/// label's bytes and its payload. Claimed: the outcome is a function of
/// `data` alone, named `pem_parse_many`, sections in the order the parser
/// returns them; empty input parses to no section (the parser's section
/// iterator stops at once on empty input).
#[verifier::external_body]
fn parse_pem_sections(data: &[u8]) -> (sections: Result<Vec<PemBlock>, pem::PemError>)
    ensures
        match sections {
            Ok(blocks) => pem_parse_many(data@) == Some(blocks_view(blocks@)),
            Err(_) => pem_parse_many(data@) is None,
        },
        data@.len() == 0 ==> sections is Ok && sections->Ok_0@.len() == 0,
{
    match pem::parse_many(data) {
        Ok(pems) => Ok(
            pems.into_iter().map(
                |p| PemBlock { tag: p.tag().as_bytes().to_vec(), contents: p.into_contents() },
            ).collect(),
        ),
        Err(e) => Err(e),
    }
}

/// Whether a label is `CERTIFICATE`.
pub fn is_certificate_tag(tag: &[u8]) -> (is_certificate: bool)
    ensures
        is_certificate == (tag@ == certificate_tag()),
{
    let expected = "CERTIFICATE".as_bytes();
    if tag.len() != expected.len() {
        return false;
    }
    let mut i: usize = 0;
    while i < tag.len()
        invariant
            i <= tag@.len(),
            tag@.len() == expected@.len(),
            expected@ == certificate_tag(),
            tag@.take(i as int) == expected@.take(i as int),
        decreases tag@.len() - i,
    {
        if tag[i] != expected[i] {
            assert(tag@[i as int] != expected@[i as int]);
            return false;
        }
        assert(tag@.take(i + 1) =~= tag@.take(i as int).push(tag@[i as int]));
        assert(expected@.take(i + 1) =~= expected@.take(i as int).push(expected@[i as int]));
        i += 1;
    }
    assert(tag@ =~= tag@.take(tag@.len() as int));
    assert(expected@ =~= expected@.take(expected@.len() as int));
    true
}

/// The payloads of the certificate sections among `blocks`, in their order.
pub fn certificates_of(blocks: &Vec<PemBlock>) -> (certificates: Vec<Vec<u8>>)
    ensures
        bytes_view(certificates@) == certificate_contents(blocks_view(blocks@)),
{
    let mut certificates: Vec<Vec<u8>> = Vec::new();
    let mut i: usize = 0;
    while i < blocks.len()
        invariant
            i <= blocks@.len(),
            bytes_view(certificates@) == certificate_contents(blocks_view(blocks@.take(i as int))),
        decreases blocks@.len() - i,
    {
        let block = &blocks[i];
        let ghost before = certificates@;
        assert(blocks_view(blocks@.take(i + 1)).drop_last() =~= blocks_view(blocks@.take(i as int)));
        if is_certificate_tag(block.tag.as_slice()) {
            let contents = block.contents.clone();
            assert(contents@ =~= block.contents@);
            certificates.push(contents);
            assert(bytes_view(certificates@) =~= bytes_view(before).push(block.contents@));
        }
        i += 1;
    }
    assert(blocks@.take(blocks@.len() as int) =~= blocks@);
    certificates
}

/// The certificates of a PEM bundle: the payloads of its `CERTIFICATE`
/// sections, in order, other sections left out. Fails exactly where the PEM
/// parser rejects the bundle.
pub fn parse_pem_certificates(data: &[u8]) -> (parsed: Result<Vec<Vec<u8>>, PemParseError>)
    ensures
        match pem_parse_many(data@) {
            Some(blocks) => parsed matches Ok(certs) && bytes_view(certs@) == certificate_contents(
                blocks,
            ),
            None => parsed is Err,
        },
        data@.len() == 0 ==> parsed is Ok && parsed->Ok_0@.len() == 0,
{
    match parse_pem_sections(data) {
        Ok(blocks) => Ok(certificates_of(&blocks)),
        Err(e) => Err(PemParseError { source: e }),
    }
}

/// Why an extra bundle of certificate authorities cannot be used.
#[derive(Debug, PartialEq, Eq)]
pub enum CaBundleError {
    /// The bundle is not PEM that the parser accepts; the parser's error.
    Malformed { source: pem::PemError },
    /// The bundle parses but holds no `CERTIFICATE` section.
    NoCertificates,
}

/// The certificates of an extra CA bundle. A bundle that does not parse, and
/// one with no `CERTIFICATE` section, is refused.
pub fn extra_ca_certificates(bundle: &[u8]) -> (certificates: Result<Vec<Vec<u8>>, CaBundleError>)
    ensures
        match pem_parse_many(bundle@) {
            None => certificates matches Err(CaBundleError::Malformed { .. }),
            Some(blocks) => if certificate_contents(blocks).len() == 0 {
                certificates matches Err(CaBundleError::NoCertificates)
            } else {
                certificates matches Ok(certs) && bytes_view(certs@) == certificate_contents(blocks)
            },
        },
        bundle@.len() == 0 ==> certificates matches Err(CaBundleError::NoCertificates),
{
    match parse_pem_certificates(bundle) {
        Err(e) => Err(CaBundleError::Malformed { source: e.source }),
        Ok(certs) => {
            if certs.len() == 0 {
                Err(CaBundleError::NoCertificates)
            } else {
                Ok(certs)
            }
        },
    }
}

/// The trust store after extra certificates are added: the certificates it
/// held, then the extra ones.
pub open spec fn merged_roots<T>(existing: Option<Seq<T>>, extra: Seq<T>) -> Seq<T> {
    match existing {
        Some(held) => held + extra,
        None => extra,
    }
}

/// The view of an optional trust store.
pub open spec fn roots_view(roots: Option<Vec<Vec<u8>>>) -> Option<Seq<Seq<u8>>> {
    match roots {
        Some(held) => Some(bytes_view(held@)),
        None => None,
    }
}

/// Adds `extra` certificates to the client's trust store, after those it
/// already holds (the cluster's own CA among them).
pub fn merge_root_certs(existing: Option<Vec<Vec<u8>>>, extra: Vec<Vec<u8>>) -> (merged: Vec<Vec<u8>>)
    ensures
        merged@ == merged_roots(
            match existing {
                Some(held) => Some(held@),
                None => None,
            },
            extra@,
        ),
{
    match existing {
        Some(held) => {
            let mut held = held;
            let mut extra = extra;
            held.append(&mut extra);
            held
        },
        None => extra,
    }
}

/// Extra certificates are added to the trust store, never in place of it:
/// every certificate it held stays, in its place, and every extra one follows
/// in the bundle's order.
pub proof fn lemma_merge_keeps_trusted_roots<T>(existing: Option<Seq<T>>, extra: Seq<T>)
    ensures
        ({
            let held = match existing {
                Some(h) => h,
                None => Seq::<T>::empty(),
            };
            let merged = merged_roots(existing, extra);
            &&& merged.len() == held.len() + extra.len()
            &&& forall|i: int| 0 <= i < held.len() ==> #[trigger] merged[i] == held[i]
            &&& forall|j: int| 0 <= j < extra.len() ==> #[trigger] merged[held.len() + j] == extra[j]
        }),
{
    match existing {
        Some(h) => {},
        None => {
            assert(Seq::<T>::empty() + extra =~= extra);
        },
    }
}

/// The views of merged byte vectors are the merged views.
pub proof fn lemma_merged_roots_view(existing: Option<Seq<Vec<u8>>>, extra: Seq<Vec<u8>>)
    ensures
        bytes_view(merged_roots(existing, extra)) == merged_roots(
            match existing {
                Some(held) => Some(bytes_view(held)),
                None => None,
            },
            bytes_view(extra),
        ),
{
    match existing {
        Some(held) => {
            assert(bytes_view(held + extra) =~= bytes_view(held) + bytes_view(extra));
        },
        None => {},
    }
}

} // verus!
