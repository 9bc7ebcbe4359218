use vstd::prelude::*;
use crate::event::{Event, tags_view};

verus! {

/// The identifier that nostr computes for an event's author, timestamp, kind,
/// tags and content: a digest of their canonical encoding.
pub uninterp spec fn event_digest(
    pubkey: Seq<u8>,
    created_at: u64,
    kind: u16,
    tags: Seq<Seq<Seq<char>>>,
    content: Seq<char>,
) -> Seq<u8>;

/// Whether a Schnorr signature over an identifier validates against an author key.
pub uninterp spec fn signature_valid(sig: Seq<u8>, id: Seq<u8>, pubkey: Seq<u8>) -> bool;

/// Why an event failed verification.
#[derive(Debug, PartialEq, Eq, Structural, Clone, Copy)]
pub enum VerifyError {
    /// The identifier is not the digest of the event's contents.
    InvalidIdentifier,
    /// The signature does not validate against the identifier and the author key.
    InvalidSignature,
}

/// The identifier that an event's contents give.
pub open spec fn expected_id(e: &Event) -> Seq<u8> {
    event_digest(e.pubkey@, e.created_at, e.kind, tags_view(e.tags@), e.content@)
}

/// The outcome of verifying an event.
pub open spec fn verification(e: &Event) -> Result<(), VerifyError> {
    if e.id@ != expected_id(e) {
        Err(VerifyError::InvalidIdentifier)
    } else if !signature_valid(e.sig@, e.id@, e.pubkey@) {
        Err(VerifyError::InvalidSignature)
    } else {
        Ok(())
    }
}

/// Relies on nostr's `EventId::compute`, which hashes the canonical JSON encoding
/// of the fields; `Tag::parse` only fails on an empty tag, which `requires` rules out.
#[verifier::external_body]
fn compute_id(
    pubkey: &[u8; 32],
    created_at: u64,
    kind: u16,
    tags: &Vec<Vec<String>>,
    content: &String,
) -> (r: [u8; 32])
    requires
        forall|i: int| 0 <= i < tags@.len() ==> #[trigger] tags@[i]@.len() >= 1,
    ensures
        r@ == event_digest(pubkey@, created_at, kind, tags_view(tags@), content@),
{
    let tags: Vec<nostr::event::Tag> = tags.iter().map(|t| nostr::event::Tag::parse(t.clone()).unwrap()).collect();
    let id = nostr::event::EventId::compute(
        &nostr::key::PublicKey::from_byte_array(*pubkey),
        &nostr::types::Timestamp::from_secs(created_at),
        &nostr::event::Kind::from_u16(kind),
        &nostr::event::Tags::from_list(tags),
        content,
    );
    id.to_bytes()
}

/// Relies on nostr's `Event::verify_signature`, which reads only the identifier,
/// the author key and the signature, and checks the Schnorr signature with the
/// process-wide context that nostr builds once.
#[verifier::external_body]
fn check_signature(sig: &[u8; 64], id: &[u8; 32], pubkey: &[u8; 32]) -> (r: bool)
    ensures
        r == signature_valid(sig@, id@, pubkey@),
{
    nostr::event::Event::new(
        nostr::event::EventId::from_byte_array(*id),
        nostr::key::PublicKey::from_byte_array(*pubkey),
        nostr::types::Timestamp::from_secs(0),
        nostr::event::Kind::from_u16(0),
        Vec::<nostr::event::Tag>::new(),
        "",
        nostr::event::Signature::from_byte_array(*sig),
    ).verify_signature()
}

/// Checks that the event's identifier is the digest of its contents, then that
/// its signature validates against that identifier and its author key.
pub fn verify_event(e: &Event) -> (r: Result<(), VerifyError>)
    requires
        e.well_formed(),
    ensures
        r == verification(e),
{
    let id = compute_id(&e.pubkey, e.created_at, e.kind, &e.tags, &e.content);
    if !crate::event::bytes32_eq(&id, &e.id) {
        return Err(VerifyError::InvalidIdentifier);
    }
    if !check_signature(&e.sig, &e.id, &e.pubkey) {
        return Err(VerifyError::InvalidSignature);
    }
    Ok(())
}

/// An event whose content was altered after its identifier was computed is
/// refused for its identifier, whenever the altered content gives a different
/// digest.
pub proof fn lemma_tampered_content_rejected(genuine: &Event, tampered: &Event)
    requires
        genuine.id@ == expected_id(genuine),
        tampered.id@ == genuine.id@,
        tampered.pubkey@ == genuine.pubkey@,
        tampered.created_at == genuine.created_at,
        tampered.kind == genuine.kind,
        tags_view(tampered.tags@) == tags_view(genuine.tags@),
        tampered.content@ != genuine.content@,
        expected_id(tampered) != expected_id(genuine),
    ensures
        verification(tampered) == Err::<(), VerifyError>(VerifyError::InvalidIdentifier),
{
}

/// An event with a correct identifier whose signature does not validate under
/// its claimed author key (for instance one made with another key) is refused
/// for its signature.
pub proof fn lemma_foreign_signature_rejected(e: &Event)
    requires
        e.id@ == expected_id(e),
        !signature_valid(e.sig@, e.id@, e.pubkey@),
    ensures
        verification(e) == Err::<(), VerifyError>(VerifyError::InvalidSignature),
{
}

} // verus!
