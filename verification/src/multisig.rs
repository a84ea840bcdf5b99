//! Multi-party invoice verification: an invoice counts as verified once a
//! required number of known Ed25519 keys have signed for it, each at most once
//! and all within the verification window. Progress is kept until then; a
//! window that closes first has expired.

use vstd::prelude::*;

use crate::ident::Symbol;
use crate::table::{lemma_viewed_replaced, viewed, Table};

verus! {

/// Length of the verification window, in seconds: seven days.
pub const DEFAULT_TIMEOUT_SECS: u64 = 604_800;

/// The policy for one invoice: `required` signatures out of the listed
/// `signers`.
#[derive(Debug, PartialEq, Eq)]
pub struct VerificationConfig {
    pub required: u32,
    pub signers: Vec<[u8; 32]>,
}

/// The progress of one invoice's verification.
#[derive(Debug, PartialEq, Eq)]
pub struct VerificationState {
    /// The keys that have submitted a valid signature so far.
    pub collected: Vec<[u8; 32]>,
    /// The last moment at which signatures are accepted.
    pub deadline: u64,
    /// Whether the required number of signatures has been collected.
    pub verified: bool,
}

/// The verification of one invoice as the contracts speak of it.
#[verifier::ext_equal]
pub struct Progress {
    pub required: u32,
    pub signers: Seq<[u8; 32]>,
    pub collected: Seq<[u8; 32]>,
    pub deadline: u64,
    pub verified: bool,
}

impl Progress {
    /// A window opened at `now`.
    pub open spec fn opened(required: u32, signers: Seq<[u8; 32]>, now: u64) -> Progress {
        Progress {
            required,
            signers,
            collected: Seq::empty(),
            deadline: (now + DEFAULT_TIMEOUT_SECS) as u64,
            verified: false,
        }
    }

    /// The collected keys are known signers, each counted once, and the
    /// verification is complete exactly when there are as many as required.
    pub open spec fn inv(self) -> bool {
        &&& 0 < self.required <= self.signers.len()
        &&& self.collected.no_duplicates()
        &&& forall|i: int|
            0 <= i < self.collected.len() ==> self.signers.contains(#[trigger] self.collected[i])
        &&& self.collected.len() <= self.required
        &&& self.verified == (self.collected.len() >= self.required)
    }

    /// A signature of `signer` is awaited at `now`: the verification is not
    /// complete, its window is open, and the signer is one of the known keys
    /// and has not submitted yet.
    pub open spec fn awaits(self, signer: [u8; 32], now: u64) -> bool {
        &&& !self.verified
        &&& now <= self.deadline
        &&& self.signers.contains(signer)
        &&& !self.collected.contains(signer)
    }

    /// One more signature has been collected.
    pub open spec fn signed_by(self, signer: [u8; 32]) -> Progress {
        Progress {
            collected: self.collected.push(signer),
            verified: self.collected.len() + 1 >= self.required,
            ..self
        }
    }

    /// The window has closed before the verification was complete.
    pub open spec fn expired(self, now: u64) -> bool {
        !self.verified && now > self.deadline
    }
}

/// The policy for one invoice together with its progress.
pub struct Verification {
    pub config: VerificationConfig,
    pub state: VerificationState,
}

impl View for Verification {
    type V = Progress;

    open spec fn view(&self) -> Progress {
        Progress {
            required: self.config.required,
            signers: self.config.signers@,
            collected: self.state.collected@,
            deadline: self.state.deadline,
            verified: self.state.verified,
        }
    }
}

/// The verifications that have been configured, by invoice.
pub struct VerificationLedger {
    pub verifications: Table<Symbol, Verification>,
}

impl View for VerificationLedger {
    type V = Map<Symbol, Progress>;

    open spec fn view(&self) -> Map<Symbol, Progress> {
        viewed(self.verifications@)
    }
}

/// Every verification is sound.
pub open spec fn all_sound(m: Map<Symbol, Progress>) -> bool {
    forall|k: Symbol| #[trigger] m.contains_key(k) ==> m[k].inv()
}

impl VerificationLedger {
    pub open spec fn wf(&self) -> bool {
        self.verifications.wf() && all_sound(self@)
    }

    /// A ledger on which nothing has been configured.
    pub fn new() -> (l: VerificationLedger)
        ensures
            l.wf(),
            l@ == Map::<Symbol, Progress>::empty(),
    {
        let l = VerificationLedger { verifications: Table::new() };
        assert(l@ =~= Map::<Symbol, Progress>::empty());
        l
    }

    /// Whether verification has been configured for the invoice.
    pub fn is_configured(&self, invoice_id: Symbol) -> (r: bool)
        requires
            self.wf(),
        ensures
            r == self@.contains_key(invoice_id),
    {
        self.verifications.get(&invoice_id).is_some()
    }

    /// Whether a signature of `signer` for the invoice is awaited at `now`.
    pub fn awaits(&self, now: u64, invoice_id: Symbol, signer: &[u8; 32]) -> (r: bool)
        requires
            self.wf(),
        ensures
            r == (self@.contains_key(invoice_id) && self@[invoice_id].awaits(*signer, now)),
    {
        match self.verifications.get(&invoice_id) {
            Some(v) => !v.state.verified && now <= v.state.deadline && holds_key(
                &v.config.signers,
                signer,
            ) && !holds_key(&v.state.collected, signer),
            None => false,
        }
    }
}

/// Whether two keys are the same.
fn same_key(a: &[u8; 32], b: &[u8; 32]) -> (r: bool)
    ensures
        r == (*a == *b),
{
    broadcast use vstd::array::axiom_array_ext_equal;

    let mut i: usize = 0;
    while i < 32
        invariant
            i <= 32,
            forall|j: int| 0 <= j < i ==> a[j] == b[j],
        decreases 32 - i,
    {
        if a[i] != b[i] {
            assert(a[i as int] != b[i as int]);
            return false;
        }
        i += 1;
    }
    assert(*a =~= *b);
    true
}

/// Whether `keys` holds `key`.
fn holds_key(keys: &Vec<[u8; 32]>, key: &[u8; 32]) -> (r: bool)
    ensures
        r == keys@.contains(*key),
{
    let mut i: usize = 0;
    while i < keys.len()
        invariant
            i <= keys@.len(),
            forall|j: int| 0 <= j < i ==> keys@[j] != *key,
        decreases keys@.len() - i,
    {
        if same_key(&keys[i], key) {
            assert(keys@[i as int] == *key);
            return true;
        }
        i += 1;
    }
    false
}

/// Whether `signature` is an Ed25519 signature of `message` under the key
/// `public_key`, by the strict rules of `ed25519_dalek`.
pub uninterp spec fn ed25519_valid(
    public_key: Seq<u8>,
    message: Seq<u8>,
    signature: Seq<u8>,
) -> bool;

/// Calls `ed25519_dalek::VerifyingKey::verify_strict` on the key and the
/// signature that the bytes encode. The contract claims that the outcome is a
/// function of the three byte strings alone, which it names; bytes that encode
/// no key count as not valid. What makes a signature valid is left to that
/// function.
#[verifier::external_body]
fn ed25519_verify(public_key: &[u8; 32], message: &[u8], signature: &[u8; 64]) -> (valid: bool)
    ensures
        valid == ed25519_valid(public_key@, message@, signature@),
{
    match ed25519_dalek::VerifyingKey::from_bytes(public_key) {
        Ok(key) => {
            let signature = ed25519_dalek::Signature::from_bytes(signature);
            key.verify_strict(message, &signature).is_ok()
        },
        Err(_) => false,
    }
}

/// Sets the policy for `invoice_id` and opens a new verification window at
/// `now`, in place of any earlier one.
pub fn configure(
    ledger: &mut VerificationLedger,
    now: u64,
    invoice_id: Symbol,
    required: u32,
    signers: Vec<[u8; 32]>,
)
    requires
        old(ledger).wf(),
        required > 0,
        required <= signers@.len(),
        now + DEFAULT_TIMEOUT_SECS <= u64::MAX,
    ensures
        final(ledger).wf(),
        final(ledger)@ == old(ledger)@.insert(
            invoice_id,
            Progress::opened(required, signers@, now),
        ),
{
    let v = Verification {
        config: VerificationConfig { required, signers },
        state: VerificationState {
            collected: Vec::new(),
            deadline: now + DEFAULT_TIMEOUT_SECS,
            verified: false,
        },
    };
    assert(v@ =~= Progress::opened(required, signers@, now));
    proof {
        lemma_viewed_replaced(ledger.verifications@, invoice_id, v);
        lemma_sound_replaced(ledger@, invoice_id, v@);
    }
    ledger.verifications.set(invoice_id, v);
}

proof fn lemma_sound_replaced(m: Map<Symbol, Progress>, k: Symbol, p: Progress)
    requires
        all_sound(m),
        p.inv(),
    ensures
        all_sound(m.insert(k, p)),
{
    assert forall|j: Symbol| #[trigger] m.insert(k, p).contains_key(j) implies m.insert(
        k,
        p,
    )[j].inv() by {
        if j != k {
            assert(m.contains_key(j));
        }
    }
}

/// A signature that was awaited keeps the verification sound.
pub proof fn law_signature_keeps_sound(p: Progress, signer: [u8; 32], now: u64)
    requires
        p.inv(),
        p.awaits(signer, now),
    ensures
        p.signed_by(signer).inv(),
{
    let q = p.signed_by(signer);
    assert forall|i: int| 0 <= i < q.collected.len() implies q.signers.contains(
        #[trigger] q.collected[i],
    ) by {
        if i < p.collected.len() {
            assert(p.signers.contains(p.collected[i]));
        }
    }
    assert forall|i: int, j: int|
        0 <= i < q.collected.len() && 0 <= j < q.collected.len() && i != j implies q.collected[i]
        != q.collected[j] by {
        if i < p.collected.len() && j < p.collected.len() {
        } else if i < p.collected.len() {
            assert(p.collected.contains(p.collected[i]));
        } else {
            assert(p.collected.contains(p.collected[j]));
        }
    }
}

/// Takes account of a signature of `signer` that was awaited: where it is
/// `valid` it is collected, and the answer is whether the verification is now
/// complete; otherwise nothing changes and the answer is `None`.
pub fn record_signature(
    ledger: &mut VerificationLedger,
    now: u64,
    invoice_id: Symbol,
    signer_pubkey: [u8; 32],
    valid: bool,
) -> (r: Option<bool>)
    requires
        old(ledger).wf(),
        old(ledger)@.contains_key(invoice_id),
        old(ledger)@[invoice_id].awaits(signer_pubkey, now),
    ensures
        final(ledger).wf(),
        !valid ==> r is None && final(ledger)@ == old(ledger)@,
        valid ==> {
            let next = old(ledger)@[invoice_id].signed_by(signer_pubkey);
            r == Some(next.verified) && final(ledger)@ == old(ledger)@.insert(invoice_id, next)
        },
{
    if !valid {
        return None;
    }
    proof {
        let p = ledger@[invoice_id];
        law_signature_keeps_sound(p, signer_pubkey, now);
        lemma_sound_replaced(ledger@, invoice_id, p.signed_by(signer_pubkey));
    }
    let mut v = ledger.verifications.take(&invoice_id).unwrap();
    let ghost p = v@;
    v.state.collected.push(signer_pubkey);
    if v.state.collected.len() >= v.config.required as usize {
        v.state.verified = true;
    }
    let reached: bool = v.state.verified;
    assert(v@ =~= p.signed_by(signer_pubkey));
    proof {
        lemma_viewed_replaced(old(ledger).verifications@, invoice_id, v);
    }
    ledger.verifications.set(invoice_id, v);
    Some(reached)
}

/// Submits one awaited signature over `message`. The answer is `None`, with
/// nothing changed, where the signature does not verify; otherwise the
/// signature is collected, and the answer is whether the verification is now
/// complete.
pub fn submit_signature(
    ledger: &mut VerificationLedger,
    now: u64,
    invoice_id: Symbol,
    signer_pubkey: [u8; 32],
    message: &[u8],
    signature: &[u8; 64],
) -> (r: Option<bool>)
    requires
        old(ledger).wf(),
        old(ledger)@.contains_key(invoice_id),
        old(ledger)@[invoice_id].awaits(signer_pubkey, now),
    ensures
        final(ledger).wf(),
        !ed25519_valid(signer_pubkey@, message@, signature@) ==> r is None && final(ledger)@
            == old(ledger)@,
        ed25519_valid(signer_pubkey@, message@, signature@) ==> {
            let next = old(ledger)@[invoice_id].signed_by(signer_pubkey);
            r == Some(next.verified) && final(ledger)@ == old(ledger)@.insert(invoice_id, next)
        },
{
    let valid: bool = ed25519_verify(&signer_pubkey, message, signature);
    record_signature(ledger, now, invoice_id, signer_pubkey, valid)
}

/// The progress of a configured verification.
pub fn status(ledger: &VerificationLedger, invoice_id: Symbol) -> (r: &VerificationState)
    requires
        ledger.wf(),
        ledger@.contains_key(invoice_id),
    ensures
        r.collected@ == ledger@[invoice_id].collected,
        r.deadline == ledger@[invoice_id].deadline,
        r.verified == ledger@[invoice_id].verified,
{
    &ledger.verifications.get(&invoice_id).unwrap().state
}

/// Whether the window of a configured verification has closed at `now` before
/// the verification was complete.
pub fn is_expired(ledger: &VerificationLedger, now: u64, invoice_id: Symbol) -> (r: bool)
    requires
        ledger.wf(),
        ledger@.contains_key(invoice_id),
    ensures
        r == ledger@[invoice_id].expired(now),
        r == (!ledger@[invoice_id].verified && now > ledger@[invoice_id].deadline),
{
    let v = ledger.verifications.get(&invoice_id).unwrap();
    !v.state.verified && now > v.state.deadline
}

/// The quorum is real: a complete verification has signatures of as many
/// different known signers as required.
pub proof fn law_verified_by_quorum(p: Progress)
    requires
        p.inv(),
        p.verified,
    ensures
        p.collected.to_set().len() == p.required,
        p.collected.to_set().subset_of(p.signers.to_set()),
{
    p.collected.unique_seq_to_set();
    assert forall|k: [u8; 32]| p.collected.to_set().contains(k) implies p.signers.to_set().contains(
        k,
    ) by {
        let i = choose|i: int| 0 <= i < p.collected.len() && p.collected[i] == k;
        assert(p.signers.contains(p.collected[i]));
    }
}

/// A signature that somebody submits at some time.
pub ghost struct Submission {
    pub signer: [u8; 32],
    pub now: u64,
    pub valid: bool,
}

impl Progress {
    /// What a submission leaves: only a valid signature that was awaited
    /// changes anything.
    pub open spec fn after(self, s: Submission) -> Progress {
        if self.awaits(s.signer, s.now) && s.valid {
            self.signed_by(s.signer)
        } else {
            self
        }
    }

    /// What a run of submissions leaves.
    pub open spec fn after_all(self, submissions: Seq<Submission>) -> Progress
        decreases submissions.len(),
    {
        if submissions.len() == 0 {
            self
        } else {
            self.after_all(submissions.drop_last()).after(submissions.last())
        }
    }
}

/// `key` submitted a valid signature no later than `deadline`.
pub open spec fn submitted(submissions: Seq<Submission>, key: [u8; 32], deadline: u64) -> bool {
    exists|j: int|
        0 <= j < submissions.len() && (#[trigger] submissions[j]).signer == key
            && submissions[j].valid && submissions[j].now <= deadline
}

/// Whatever is submitted to a new window, by whom and how often: every key
/// that is counted is a known signer, is counted once, and submitted a valid
/// signature within the window; and the invoice is verified exactly when as
/// many are counted as required.
pub proof fn law_quorum_counts_valid_signatures(
    required: u32,
    signers: Seq<[u8; 32]>,
    now: u64,
    submissions: Seq<Submission>,
)
    requires
        0 < required <= signers.len(),
    ensures
        ({
            let start = Progress::opened(required, signers, now);
            let end = start.after_all(submissions);
            &&& end.inv()
            &&& end.required == required && end.signers == signers
            &&& end.deadline == start.deadline
            &&& forall|i: int|
                0 <= i < end.collected.len() ==> submitted(
                    submissions,
                    #[trigger] end.collected[i],
                    start.deadline,
                )
        }),
    decreases submissions.len(),
{
    let start = Progress::opened(required, signers, now);
    if submissions.len() > 0 {
        let rest = submissions.drop_last();
        let last = submissions.last();
        law_quorum_counts_valid_signatures(required, signers, now, rest);
        let mid = start.after_all(rest);
        let end = start.after_all(submissions);
        if mid.awaits(last.signer, last.now) && last.valid {
            law_signature_keeps_sound(mid, last.signer, last.now);
        }
        assert forall|i: int| 0 <= i < end.collected.len() implies submitted(
            submissions,
            #[trigger] end.collected[i],
            start.deadline,
        ) by {
            if i < mid.collected.len() {
                assert(end.collected[i] == mid.collected[i]);
                assert(submitted(rest, mid.collected[i], start.deadline));
                let j = choose|j: int|
                    0 <= j < rest.len() && (#[trigger] rest[j]).signer == mid.collected[i]
                        && rest[j].valid && rest[j].now <= start.deadline;
                assert(submissions[j] == rest[j]);
            } else {
                assert(submissions[submissions.len() - 1] == last);
            }
        }
    }
}

/// The verification is complete with exactly the last required signature, not
/// before it.
pub proof fn law_quorum_reached_exactly(p: Progress, signer: [u8; 32], now: u64)
    requires
        p.inv(),
        p.awaits(signer, now),
    ensures
        p.signed_by(signer).verified <==> p.collected.len() + 1 == p.required,
{
}

/// No signer counts twice: once collected, a signature is never awaited again
/// in that window, and neither is any once the verification is complete.
pub proof fn law_signer_counts_once(p: Progress, signer: [u8; 32], other: [u8; 32], later: u64)
    ensures
        !p.signed_by(signer).awaits(signer, later),
        p.verified ==> !p.awaits(other, later),
{
    assert(p.signed_by(signer).collected.last() == signer);
}

/// An expired verification stays expired, and awaits no signature.
pub proof fn law_expired_for_good(p: Progress, now: u64, later: u64, signer: [u8; 32])
    requires
        p.expired(now),
        now <= later,
    ensures
        p.expired(later),
        !p.awaits(signer, later),
{
}

/// A window lasts seven days: a new verification is not expired until then.
pub proof fn law_window_lasts_a_week(required: u32, signers: Seq<[u8; 32]>, now: u64, later: u64)
    requires
        now + DEFAULT_TIMEOUT_SECS <= u64::MAX,
    ensures
        Progress::opened(required, signers, now).expired(later) <==> later > now
            + DEFAULT_TIMEOUT_SECS,
{
}

/// A verification is seen as what its fields hold, and so is the ledger.
pub proof fn law_view(v: Verification, ledger: VerificationLedger, id: Symbol)
    ensures
        v@.required == v.config.required,
        v@.signers == v.config.signers@,
        v@.collected == v.state.collected@,
        v@.deadline == v.state.deadline,
        v@.verified == v.state.verified,
        ledger@.contains_key(id) <==> ledger.verifications@.contains_key(id),
        ledger.verifications@.contains_key(id) ==> ledger@[id] == ledger.verifications@[id]@,
{
}

/// A new window asks for the given number of the given keys, has collected
/// none, is not verified, and closes 604 800 seconds after it was opened.
pub proof fn law_new_window(required: u32, signers: Seq<[u8; 32]>, now: u64)
    requires
        now + 604_800 <= u64::MAX,
    ensures
        ({
            let p = Progress::opened(required, signers, now);
            &&& p.required == required && p.signers == signers
            &&& p.collected.len() == 0 && !p.verified
            &&& p.deadline == now + 604_800
        }),
{
}

/// A signature is awaited exactly from a known key that has not signed yet, up
/// to the deadline, while the verification is not complete; a verification has
/// expired exactly where it is not complete after its deadline.
pub proof fn law_what_is_awaited(p: Progress, signer: [u8; 32], now: u64)
    ensures
        p.awaits(signer, now) <==> {
            &&& !p.verified && now <= p.deadline
            &&& exists|i: int| 0 <= i < p.signers.len() && #[trigger] p.signers[i] == signer
            &&& forall|i: int| 0 <= i < p.collected.len() ==> #[trigger] p.collected[i] != signer
        },
        p.expired(now) <==> !p.verified && now > p.deadline,
{
    if p.awaits(signer, now) {
        assert forall|i: int| 0 <= i < p.collected.len() implies #[trigger] p.collected[i]
            != signer by {
            if p.collected[i] == signer {
                assert(p.collected.contains(signer));
            }
        }
    }
}

/// A collected signature adds its key to the keys that were collected, and
/// completes the verification exactly where there are then as many as required;
/// policy and deadline stay.
pub proof fn law_signature_is_collected(p: Progress, signer: [u8; 32])
    ensures
        ({
            let q = p.signed_by(signer);
            &&& q.collected.len() == p.collected.len() + 1
            &&& q.collected.take(p.collected.len() as int) == p.collected
            &&& q.collected.last() == signer
            &&& q.verified <==> q.collected.len() >= p.required
            &&& q.required == p.required && q.signers == p.signers && q.deadline == p.deadline
        }),
{
    assert(p.signed_by(signer).collected.take(p.collected.len() as int) =~= p.collected);
}

} // verus!
