//! The joining node's side of the resource-proof challenge: one exchange
//! per challenger, from the challenge to the receipt of the last part of the
//! answer.

use crate::id::PublicId;
use crate::messages::{clone_bytes, direct_views, DirectMessage, DirectMessageView};
use crate::outbox::{Effect, EffectView, Event, Outbox, Timer, TimerToken, TokenKind, serial_after};
use crate::state_machine::{Transition, TransitionView};
use crate::table::{
    distinct_by, first_index, first_match, is_first, lemma_first_index_found,
    lemma_first_index_none, lemma_first_index_sound, lemma_with_entry, lemma_without_first,
    selects, with_entry, without_first,
};
use vstd::prelude::*;

verus! {

/// Seconds after which a node that has not been approved gives up.
pub const APPROVAL_TIMEOUT_SECS: u64 = 720;

/// Seconds after which it gives up where resource proofs are disabled.
pub const APPROVAL_TIMEOUT_DISABLED_SECS: u64 = 30;

/// Seconds between two looks at the progress of the approval.
pub const APPROVAL_PROGRESS_INTERVAL_SECS: u64 = 30;

/// Largest number of proof bytes sent in one message.
pub const MAX_PART_LEN: usize = 20480;

/// Where the exchange with one challenger stands.
#[derive(Clone, Copy, Debug, PartialEq, Eq, Structural)]
pub enum Progress {
    /// No challenge has come from this challenger.
    Idle,
    /// A challenge has come and the proof is being computed.
    ProofComputing,
    /// The proof has been submitted, in whole or in part, and the
    /// challenger's receipt is awaited.
    ReceiptAwaited,
    /// The challenger has acknowledged the last part.
    Completed,
    /// The approval did not come in time.
    TimedOut,
}

/// The record of an exchange that is under way.
#[derive(Debug)]
struct Challenge {
    pub_id: PublicId,
    seed: Vec<u8>,
    target_size: usize,
    difficulty: u8,
    /// The parts of the answer not yet sent, the next one last; `None`
    /// while the proof is being computed.
    remaining: Option<Vec<DirectMessage>>,
}

/// The record of an exchange that is under way: the challenge, and the
/// parts of the answer not yet sent, the next one last (`None` while the
/// proof is being computed).
pub struct ChallengeView {
    pub pub_id: PublicId,
    pub seed: Seq<u8>,
    pub target_size: usize,
    pub difficulty: u8,
    pub remaining: Option<Seq<DirectMessageView>>,
}

impl View for Challenge {
    type V = ChallengeView;

    closed spec fn view(&self) -> ChallengeView {
        ChallengeView {
            pub_id: self.pub_id,
            seed: self.seed@,
            target_size: self.target_size,
            difficulty: self.difficulty,
            remaining: match self.remaining {
                Some(parts) => Some(direct_views(parts@)),
                None => None,
            },
        }
    }
}

/// Selects the exchange with the given challenger.
pub open spec fn with_challenger(id: PublicId) -> spec_fn(ChallengeView) -> bool {
    |c: ChallengeView| c.pub_id == id
}

/// The challenger of an exchange, as a function.
pub open spec fn challenger_of() -> spec_fn(ChallengeView) -> PublicId {
    |c: ChallengeView| c.pub_id
}

/// What the resource prover holds.
pub struct ResourceProverView {
    /// The challengers, each of which must complete its exchange: the
    /// members of the section that the node is joining.
    pub challengers: Seq<PublicId>,
    /// Whether resource proofs are switched off.
    pub disabled: bool,
    /// The exchanges under way, in the order in which they began.
    pub in_flight: Seq<ChallengeView>,
    /// The challengers whose exchange is complete, each once.
    pub completed: Seq<PublicId>,
    /// Whether the approval failed to come in time.
    pub timed_out: bool,
    /// The token under which the wait for the approval runs.
    pub approval_token: Option<TimerToken>,
    /// The token under which the next look at the progress is due.
    pub progress_token: Option<TimerToken>,
}

impl ResourceProverView {
    /// At most one exchange is under way with any challenger, and no
    /// challenger is listed twice as completed.
    pub open spec fn wf(self) -> bool {
        &&& distinct_by(self.in_flight, challenger_of())
        &&& self.completed.no_duplicates()
    }

    /// Where the exchange with `id` stands.
    pub open spec fn progress_of(self, id: PublicId) -> Progress {
        match first_match(self.in_flight, with_challenger(id)) {
            Some(c) => if c.remaining is Some {
                Progress::ReceiptAwaited
            } else {
                Progress::ProofComputing
            },
            None => if self.completed.contains(id) {
                Progress::Completed
            } else if self.timed_out {
                Progress::TimedOut
            } else {
                Progress::Idle
            },
        }
    }

    /// Whether the node may be approved: every challenger has completed
    /// its exchange, or resource proofs are switched off.
    pub open spec fn is_eligible(self) -> bool {
        self.disabled || forall|i: int|
            0 <= i < self.challengers.len() ==> self.completed.contains(
                #[trigger] self.challengers[i],
            )
    }

    /// The state after a challenge from `id`: a fresh exchange, in place
    /// of one under way with the same challenger.
    pub open spec fn after_request(
        self,
        id: PublicId,
        seed: Seq<u8>,
        target_size: usize,
        difficulty: u8,
    ) -> ResourceProverView {
        ResourceProverView {
            in_flight: with_entry(
                self.in_flight,
                with_challenger(id),
                ChallengeView { pub_id: id, seed, target_size, difficulty, remaining: None },
            ),
            ..self
        }
    }

    /// Whether the proof computed for `id` is taken: it has parts, and the
    /// exchange with `id` is waiting for it.
    pub open spec fn takes_result(self, id: PublicId, messages: Seq<DirectMessageView>) -> bool {
        messages.len() > 0 && self.progress_of(id) == Progress::ProofComputing
    }

    /// The state after the proof for `id` has been computed. `messages`
    /// holds its parts, the first one last. The first part is on its way;
    /// the others wait for the challenger's receipts.
    pub open spec fn after_result(
        self,
        id: PublicId,
        messages: Seq<DirectMessageView>,
    ) -> ResourceProverView {
        if self.takes_result(id, messages) {
            let c = first_match(self.in_flight, with_challenger(id)).unwrap();
            ResourceProverView {
                in_flight: with_entry(
                    self.in_flight,
                    with_challenger(id),
                    ChallengeView { remaining: Some(messages.drop_last()), ..c },
                ),
                ..self
            }
        } else {
            self
        }
    }

    /// The part of the answer that a receipt from `id` releases, if any.
    pub open spec fn next_part(self, id: PublicId) -> Option<DirectMessageView> {
        match first_match(self.in_flight, with_challenger(id)) {
            Some(c) => match c.remaining {
                Some(parts) => if parts.len() > 0 {
                    Some(parts.last())
                } else {
                    None
                },
                None => None,
            },
            None => None,
        }
    }

    /// The state after a receipt from `id`. While parts remain, the next
    /// one goes out. After the last one the exchange is complete: its
    /// record goes, and `id` counts as completed from then on. A receipt
    /// that nothing awaits changes nothing.
    pub open spec fn after_receipt(self, id: PublicId) -> ResourceProverView {
        match first_match(self.in_flight, with_challenger(id)) {
            Some(c) => match c.remaining {
                Some(parts) => if parts.len() > 0 {
                    ResourceProverView {
                        in_flight: with_entry(
                            self.in_flight,
                            with_challenger(id),
                            ChallengeView { remaining: Some(parts.drop_last()), ..c },
                        ),
                        ..self
                    }
                } else {
                    ResourceProverView {
                        in_flight: without_first(self.in_flight, with_challenger(id)),
                        completed: if self.completed.contains(id) {
                            self.completed
                        } else {
                            self.completed.push(id)
                        },
                        ..self
                    }
                },
                None => self,
            },
            None => self,
        }
    }

    /// The state after the approval: no timer is awaited any more and no
    /// exchange is under way. Completed challengers stay completed.
    pub open spec fn after_approval(self) -> ResourceProverView {
        ResourceProverView {
            in_flight: Seq::empty(),
            approval_token: None,
            progress_token: None,
            ..self
        }
    }

    /// Whether `token` is the one under which the approval is awaited.
    pub open spec fn is_approval_token(self, token: TimerToken) -> bool {
        self.approval_token == Some(token)
    }

    /// Whether `token` is the one under which the next look at the
    /// progress is due.
    pub open spec fn is_progress_token(self, token: TimerToken) -> bool {
        !self.is_approval_token(token) && self.progress_token == Some(token)
    }

    /// The state after the wait for the approval has run out: every
    /// exchange under way is abandoned.
    pub open spec fn after_approval_timeout(self) -> ResourceProverView {
        ResourceProverView {
            in_flight: Seq::empty(),
            timed_out: true,
            approval_token: None,
            progress_token: None,
            ..self
        }
    }
}

/// The steps of an exchange. A challenge puts the exchange into
/// `ProofComputing`. The computed proof, if the exchange waits for it, puts
/// it into `ReceiptAwaited`. A receipt leaves it there while parts remain,
/// and completes it after the last one. A completed exchange stays
/// completed whatever else comes from the challenger, unless a new challenge
/// begins another. None of this touches the exchange with any other
/// challenger.
pub proof fn lemma_exchange_steps(
    v: ResourceProverView,
    id: PublicId,
    other: PublicId,
    seed: Seq<u8>,
    target_size: usize,
    difficulty: u8,
    messages: Seq<DirectMessageView>,
)
    requires
        v.wf(),
    ensures
        v.after_request(id, seed, target_size, difficulty).wf(),
        v.after_result(id, messages).wf(),
        v.after_receipt(id).wf(),
        v.after_approval().wf(),
        v.after_approval_timeout().wf(),
        v.after_request(id, seed, target_size, difficulty).progress_of(id)
            == Progress::ProofComputing,
        v.after_result(id, messages).progress_of(id) == if v.takes_result(id, messages) {
            Progress::ReceiptAwaited
        } else {
            v.progress_of(id)
        },
        v.after_receipt(id).progress_of(id) == if v.progress_of(id) == Progress::ReceiptAwaited
            && v.next_part(id) is None {
            Progress::Completed
        } else {
            v.progress_of(id)
        },
        other != id ==> {
            &&& v.after_request(id, seed, target_size, difficulty).progress_of(other)
                == v.progress_of(other)
            &&& v.after_result(id, messages).progress_of(other) == v.progress_of(other)
            &&& v.after_receipt(id).progress_of(other) == v.progress_of(other)
        },
        v.progress_of(other) == Progress::Completed ==> v.after_approval().progress_of(other)
            == Progress::Completed && v.after_approval_timeout().progress_of(other)
            == Progress::Completed,
{
    let key = challenger_of();
    let pred = with_challenger(id);
    let pred2 = with_challenger(other);
    assert(selects(pred, key, id));
    assert(selects(pred2, key, other));
    lemma_first_index_sound(v.in_flight, pred);
    lemma_first_index_sound(v.in_flight, pred2);
    lemma_first_index_none(Seq::<ChallengeView>::empty(), pred2);
    // A challenge.
    let fresh = ChallengeView { pub_id: id, seed, target_size, difficulty, remaining: None };
    lemma_with_entry(v.in_flight, key, pred, id, fresh, pred2, other);
    // A computed proof.
    if v.takes_result(id, messages) {
        let c = first_match(v.in_flight, pred).unwrap();
        let next = ChallengeView { remaining: Some(messages.drop_last()), ..c };
        lemma_with_entry(v.in_flight, key, pred, id, next, pred2, other);
    }
    // A receipt.
    match first_match(v.in_flight, pred) {
        Some(c) => match c.remaining {
            Some(parts) => {
                if parts.len() > 0 {
                    let next = ChallengeView { remaining: Some(parts.drop_last()), ..c };
                    lemma_with_entry(v.in_flight, key, pred, id, next, pred2, other);
                } else {
                    lemma_without_first(v.in_flight, key, pred, id, pred2, other);
                    let after = v.after_receipt(id);
                    if !v.completed.contains(id) {
                        let n = v.completed.len() as int;
                        assert(after.completed[n] == id);
                        assert forall|a: int, b: int|
                            0 <= a < after.completed.len() && 0 <= b < after.completed.len() && a
                                != b implies after.completed[a] != after.completed[b] by {
                            if a < n {
                                assert(v.completed.contains(after.completed[a]));
                            }
                            if b < n {
                                assert(v.completed.contains(after.completed[b]));
                            }
                        }
                        if other != id {
                            if v.completed.contains(other) {
                                let k = choose|k: int|
                                    0 <= k < v.completed.len() && v.completed[k] == other;
                                assert(after.completed[k] == other);
                            }
                            if after.completed.contains(other) {
                                let k = choose|k: int|
                                    0 <= k < after.completed.len() && after.completed[k] == other;
                                assert(v.completed[k] == other);
                            }
                        }
                    }
                    assert(after.completed.contains(id));
                }
            },
            None => {},
        },
        None => {},
    }
}

/// Completing an exchange never takes eligibility away, and neither does a
/// challenge, a computed proof or the approval.
pub proof fn lemma_eligibility_is_kept(
    v: ResourceProverView,
    id: PublicId,
    seed: Seq<u8>,
    target_size: usize,
    difficulty: u8,
    messages: Seq<DirectMessageView>,
)
    requires
        v.is_eligible(),
    ensures
        v.after_request(id, seed, target_size, difficulty).is_eligible(),
        v.after_result(id, messages).is_eligible(),
        v.after_receipt(id).is_eligible(),
        v.after_approval().is_eligible(),
{
    let after = v.after_receipt(id);
    if !v.disabled {
        assert forall|i: int| 0 <= i < after.challengers.len() implies after.completed.contains(
            #[trigger] after.challengers[i],
        ) by {
            let c = v.challengers[i];
            assert(v.completed.contains(c));
            let k = choose|k: int| 0 <= k < v.completed.len() && v.completed[k] == c;
            if after.completed != v.completed {
                assert(after.completed[k] == c);
            }
        }
    }
}

/// The number of completed challengers grows only by a receipt from a
/// challenger whose last part was out, and then by one.
pub proof fn lemma_completion_needs_receipt(v: ResourceProverView, id: PublicId)
    ensures
        v.after_receipt(id).completed.len() <= v.completed.len() + 1,
        v.after_receipt(id).completed.len() > v.completed.len() ==> v.progress_of(id)
            == Progress::ReceiptAwaited && v.next_part(id) is None,
{
}

/// Into how many parts a proof of `len` bytes is cut.
pub open spec fn part_count_of(len: nat) -> nat {
    if len == 0 {
        0
    } else {
        ((len - 1) / (MAX_PART_LEN as int) + 1) as nat
    }
}

/// Part `i` of a proof: up to `MAX_PART_LEN` bytes from byte
/// `i * MAX_PART_LEN` on.
pub open spec fn part_of(proof: Seq<u8>, i: int) -> Seq<u8> {
    let start = i * MAX_PART_LEN;
    let end = if proof.len() - start > MAX_PART_LEN {
        start + MAX_PART_LEN
    } else {
        proof.len() as int
    };
    proof.subrange(start, end)
}

/// The message that carries part `i` of a proof.
pub open spec fn response_part(
    proof: Seq<u8>,
    leading_zero_bytes: u64,
    i: int,
) -> DirectMessageView {
    DirectMessageView::ResourceProofResponse {
        part_index: i as usize,
        part_count: part_count_of(proof.len()) as usize,
        proof: part_of(proof, i),
        leading_zero_bytes,
    }
}

/// A copy of the bytes of `bytes` from `start` up to `end`.
fn copy_range(bytes: &Vec<u8>, start: usize, end: usize) -> (r: Vec<u8>)
    requires
        start <= end <= bytes@.len(),
    ensures
        r@ == bytes@.subrange(start as int, end as int),
{
    let mut out: Vec<u8> = Vec::new();
    let mut i: usize = start;
    while i < end
        invariant
            start <= i <= end,
            end <= bytes@.len(),
            out@ == bytes@.subrange(start as int, i as int),
        decreases end - i,
    {
        out.push(bytes[i]);
        proof {
            assert(out@ =~= bytes@.subrange(start as int, i as int + 1));
        }
        i += 1;
    }
    out
}

/// Cuts a computed proof into the messages that carry it to the
/// challenger: parts of at most `MAX_PART_LEN` bytes, each with its index
/// and the number of parts. The messages come in reverse, the first part
/// last, which is the order in which `handle_action_res_proof` takes them.
pub fn proof_response_parts(proof: &Vec<u8>, leading_zero_bytes: u64) -> (r: Vec<DirectMessage>)
    ensures
        r@.len() == part_count_of(proof@.len()),
        forall|k: int|
            0 <= k < r@.len() ==> (#[trigger] r@[k])@ == response_part(
                proof@,
                leading_zero_bytes,
                r@.len() - 1 - k,
            ),
{
    let len = proof.len();
    let count: usize = if len == 0 {
        0
    } else {
        (len - 1) / MAX_PART_LEN + 1
    };
    let mut out: Vec<DirectMessage> = Vec::new();
    let mut k: usize = 0;
    while k < count
        invariant
            k <= count,
            len == proof@.len(),
            count == part_count_of(len as nat),
            out@.len() == k,
            forall|j: int|
                0 <= j < k ==> (#[trigger] out@[j])@ == response_part(
                    proof@,
                    leading_zero_bytes,
                    count - 1 - j,
                ),
        decreases count - k,
    {
        let i: usize = count - 1 - k;
        assert(i * MAX_PART_LEN <= len - 1) by {
            assert(i <= (len - 1) / (MAX_PART_LEN as int));
        }
        let start: usize = i * MAX_PART_LEN;
        let end: usize = if len - start > MAX_PART_LEN {
            start + MAX_PART_LEN
        } else {
            len
        };
        let part = copy_range(proof, start, end);
        out.push(
            DirectMessage::ResourceProofResponse {
                part_index: i,
                part_count: count,
                proof: part,
                leading_zero_bytes,
            },
        );
        k += 1;
    }
    out
}

/// Conducts the resource-proof exchanges of a joining node.
#[derive(Debug)]
pub struct ResourceProver {
    challengers: Vec<PublicId>,
    disabled: bool,
    in_flight: Vec<Challenge>,
    completed: Vec<PublicId>,
    timed_out: bool,
    approval_token: Option<TimerToken>,
    progress_token: Option<TimerToken>,
}

impl View for ResourceProver {
    type V = ResourceProverView;

    closed spec fn view(&self) -> ResourceProverView {
        ResourceProverView {
            challengers: self.challengers@,
            disabled: self.disabled,
            in_flight: self.in_flight@.map_values(|c: Challenge| c@),
            completed: self.completed@,
            timed_out: self.timed_out,
            approval_token: self.approval_token,
            progress_token: self.progress_token,
        }
    }
}

impl ResourceProver {
    #[verifier::type_invariant]
    closed spec fn inv(self) -> bool {
        self@.wf()
    }

    /// A prover that expects a challenge from each of `challengers`.
    pub fn new(challengers: Vec<PublicId>) -> (r: ResourceProver)
        ensures
            r@ == (ResourceProverView {
                challengers: challengers@,
                disabled: false,
                in_flight: Seq::empty(),
                completed: Seq::empty(),
                timed_out: false,
                approval_token: None,
                progress_token: None,
            }),
    {
        let r = ResourceProver {
            challengers,
            disabled: false,
            in_flight: Vec::new(),
            completed: Vec::new(),
            timed_out: false,
            approval_token: None,
            progress_token: None,
        };
        proof {
            assert(r@.in_flight =~= Seq::<ChallengeView>::empty());
        }
        r
    }

    /// Starts the clocks: one for the approval, which has less time where
    /// resource proofs are switched off, and one for the next look at the
    /// progress.
    pub fn start(&mut self, resource_proof_disabled: bool, timer: &mut Timer, outbox: &mut Outbox)
        ensures
            final(self)@ == (ResourceProverView {
                disabled: resource_proof_disabled,
                approval_token: Some(
                    TimerToken { kind: TokenKind::ResourceProof, serial: old(timer).next() },
                ),
                progress_token: Some(
                    TimerToken {
                        kind: TokenKind::ResourceProof,
                        serial: serial_after(old(timer).next()),
                    },
                ),
                ..old(self)@
            }),
            final(timer).next() == serial_after(serial_after(old(timer).next())),
            final(outbox)@ == old(outbox)@.push(
                EffectView::Schedule {
                    token: TimerToken { kind: TokenKind::ResourceProof, serial: old(timer).next() },
                    secs: if resource_proof_disabled {
                        APPROVAL_TIMEOUT_DISABLED_SECS
                    } else {
                        APPROVAL_TIMEOUT_SECS
                    },
                },
            ).push(
                EffectView::Schedule {
                    token: TimerToken {
                        kind: TokenKind::ResourceProof,
                        serial: serial_after(old(timer).next()),
                    },
                    secs: APPROVAL_PROGRESS_INTERVAL_SECS,
                },
            ),
    {
        proof {
            use_type_invariant(&*self);
        }
        let secs: u64 = if resource_proof_disabled {
            APPROVAL_TIMEOUT_DISABLED_SECS
        } else {
            APPROVAL_TIMEOUT_SECS
        };
        self.disabled = resource_proof_disabled;
        self.approval_token = Some(timer.schedule(TokenKind::ResourceProof, secs, outbox));
        self.progress_token = Some(
            timer.schedule(TokenKind::ResourceProof, APPROVAL_PROGRESS_INTERVAL_SECS, outbox),
        );
    }

    /// Position of the exchange with `id`.
    fn position(&self, id: &PublicId) -> (r: Option<usize>)
        ensures
            self@.wf(),
            match r {
                Some(i) => first_index(self@.in_flight, with_challenger(*id)) == Some(i as int)
                    && i < self.in_flight@.len() && self@.in_flight[i as int]
                    == self.in_flight@[i as int]@,
                None => first_index(self@.in_flight, with_challenger(*id)) is None,
            },
    {
        proof {
            use_type_invariant(self);
        }
        let ghost views = self@.in_flight;
        let mut i: usize = 0;
        while i < self.in_flight.len()
            invariant
                i <= self.in_flight.len(),
                self@.wf(),
                views == self@.in_flight,
                views.len() == self.in_flight@.len(),
                forall|j: int| 0 <= j < i ==> !with_challenger(*id)(#[trigger] views[j]),
            decreases self.in_flight.len() - i,
        {
            proof {
                assert(views[i as int] == self.in_flight@[i as int]@);
            }
            if self.in_flight[i].pub_id == *id {
                proof {
                    assert(is_first(views, with_challenger(*id), i as int));
                    lemma_first_index_found(views, with_challenger(*id), i as int);
                }
                return Some(i);
            }
            i += 1;
        }
        proof {
            lemma_first_index_none(views, with_challenger(*id));
        }
        None
    }

    /// Whether the exchange with `id` is complete.
    fn has_completed(&self, id: &PublicId) -> (r: bool)
        ensures
            r == self@.completed.contains(*id),
    {
        let mut i: usize = 0;
        while i < self.completed.len()
            invariant
                i <= self.completed.len(),
                forall|j: int| 0 <= j < i ==> self.completed@[j] != *id,
            decreases self.completed.len() - i,
        {
            if self.completed[i] == *id {
                return true;
            }
            i += 1;
        }
        false
    }

    /// Where the exchange with `id` stands.
    pub fn progress(&self, id: &PublicId) -> (r: Progress)
        ensures
            r == self@.progress_of(*id),
            self@.wf(),
    {
        match self.position(id) {
            Some(i) => {
                if self.in_flight[i].remaining.is_some() {
                    Progress::ReceiptAwaited
                } else {
                    Progress::ProofComputing
                }
            },
            None => {
                if self.has_completed(id) {
                    Progress::Completed
                } else if self.timed_out {
                    Progress::TimedOut
                } else {
                    Progress::Idle
                }
            },
        }
    }

    /// How many challengers have completed their exchange.
    pub fn completed_count(&self) -> (r: usize)
        ensures
            r == self@.completed.len(),
    {
        self.completed.len()
    }

    /// How many challengers are expected.
    pub fn challenger_count(&self) -> (r: usize)
        ensures
            r == self@.challengers.len(),
    {
        self.challengers.len()
    }

    /// Whether the node may be approved.
    pub fn is_eligible(&self) -> (r: bool)
        ensures
            r == self@.is_eligible(),
    {
        if self.disabled {
            return true;
        }
        let mut i: usize = 0;
        while i < self.challengers.len()
            invariant
                i <= self.challengers.len(),
                !self.disabled,
                forall|j: int|
                    0 <= j < i ==> self@.completed.contains(#[trigger] self@.challengers[j]),
            decreases self.challengers.len() - i,
        {
            if !self.has_completed(&self.challengers[i]) {
                proof {
                    assert(!self@.completed.contains(self@.challengers[i as int]));
                }
                return false;
            }
            i += 1;
        }
        true
    }

    /// Takes up a challenge from `pub_id` and asks for the proof to be
    /// computed in the background.
    pub fn handle_request(
        &mut self,
        pub_id: PublicId,
        seed: Vec<u8>,
        target_size: usize,
        difficulty: u8,
        outbox: &mut Outbox,
    )
        ensures
            final(self)@ == old(self)@.after_request(pub_id, seed@, target_size, difficulty),
            final(outbox)@ == old(outbox)@.push(
                EffectView::StartProof { challenger: pub_id, seed: seed@, target_size, difficulty },
            ),
            final(self)@.progress_of(pub_id) == Progress::ProofComputing,
    {
        outbox.push(
            Effect::StartProof {
                challenger: pub_id,
                seed: clone_bytes(&seed),
                target_size,
                difficulty,
            },
        );
        let entry = Challenge { pub_id, seed, target_size, difficulty, remaining: None };
        let ghost pred = with_challenger(pub_id);
        let ghost before = self@;
        let position = self.position(&pub_id);
        proof {
            assert(selects(pred, challenger_of(), pub_id));
            lemma_with_entry(before.in_flight, challenger_of(), pred, pub_id, entry@, pred, pub_id);
        }
        let mut in_flight: Vec<Challenge> = Vec::new();
        std::mem::swap(&mut self.in_flight, &mut in_flight);
        match position {
            Some(i) => {
                let _ = in_flight.remove(i);
                in_flight.insert(i, entry);
                proof {
                    assert(in_flight@.map_values(|c: Challenge| c@) =~= before.in_flight.update(
                        i as int,
                        entry@,
                    ));
                }
            },
            None => {
                in_flight.push(entry);
                proof {
                    assert(in_flight@.map_values(|c: Challenge| c@) =~= before.in_flight.push(
                        entry@,
                    ));
                }
            },
        }
        self.in_flight = in_flight;
    }

    /// Takes the computed proof for `pub_id`: `messages` holds its parts,
    /// the first one last. Returns the first part, to be sent to the
    /// challenger. A proof without parts, or one that no exchange is waiting
    /// for, is dropped.
    pub fn handle_action_res_proof(&mut self, pub_id: PublicId, messages: Vec<DirectMessage>) -> (r:
        Option<DirectMessage>)
        ensures
            final(self)@ == old(self)@.after_result(pub_id, direct_views(messages@)),
            match r {
                Some(first) => old(self)@.takes_result(pub_id, direct_views(messages@)) && first@
                    == direct_views(messages@).last(),
                None => !old(self)@.takes_result(pub_id, direct_views(messages@)),
            },
    {
        let mut messages = messages;
        let ghost all = direct_views(messages@);
        let ghost before = self@;
        let ghost pred = with_challenger(pub_id);
        match self.position(&pub_id) {
            Some(i) => {
                if self.in_flight[i].remaining.is_some() || messages.len() == 0 {
                    return None;
                }
                let first = messages.pop().unwrap();
                proof {
                    assert(direct_views(messages@) =~= all.drop_last());
                }
                let mut in_flight: Vec<Challenge> = Vec::new();
                std::mem::swap(&mut self.in_flight, &mut in_flight);
                let old_entry = in_flight.remove(i);
                let entry = Challenge {
                    pub_id: old_entry.pub_id,
                    seed: old_entry.seed,
                    target_size: old_entry.target_size,
                    difficulty: old_entry.difficulty,
                    remaining: Some(messages),
                };
                proof {
                    assert(selects(pred, challenger_of(), pub_id));
                    lemma_with_entry(
                        before.in_flight,
                        challenger_of(),
                        pred,
                        pub_id,
                        entry@,
                        pred,
                        pub_id,
                    );
                }
                in_flight.insert(i, entry);
                proof {
                    assert(in_flight@.map_values(|c: Challenge| c@) =~= before.in_flight.update(
                        i as int,
                        entry@,
                    ));
                }
                self.in_flight = in_flight;
                Some(first)
            },
            None => None,
        }
    }

    /// Takes a receipt from `pub_id`. Returns the next part of the answer
    /// if one remains; after the last part the exchange is complete.
    pub fn handle_receipt(&mut self, pub_id: PublicId) -> (r: Option<DirectMessage>)
        ensures
            final(self)@ == old(self)@.after_receipt(pub_id),
            match r {
                Some(part) => old(self)@.next_part(pub_id) == Some(part@),
                None => old(self)@.next_part(pub_id) is None,
            },
    {
        let ghost before = self@;
        let ghost pred = with_challenger(pub_id);
        match self.position(&pub_id) {
            Some(i) => {
                if self.in_flight[i].remaining.is_none() {
                    return None;
                }
                proof {
                    assert(selects(pred, challenger_of(), pub_id));
                    lemma_exchange_steps(before, pub_id, pub_id, Seq::empty(), 0, 0, Seq::empty());
                }
                let mut in_flight: Vec<Challenge> = Vec::new();
                std::mem::swap(&mut self.in_flight, &mut in_flight);
                let old_entry = in_flight.remove(i);
                proof {
                    assert(in_flight@.map_values(|c: Challenge| c@) =~= before.in_flight.remove(
                        i as int,
                    ));
                }
                let mut parts = old_entry.remaining.unwrap();
                let ghost parts_before = direct_views(parts@);
                if parts.len() > 0 {
                    let part = parts.pop().unwrap();
                    proof {
                        assert(direct_views(parts@) =~= parts_before.drop_last());
                    }
                    let entry = Challenge {
                        pub_id: old_entry.pub_id,
                        seed: old_entry.seed,
                        target_size: old_entry.target_size,
                        difficulty: old_entry.difficulty,
                        remaining: Some(parts),
                    };
                    in_flight.insert(i, entry);
                    proof {
                        assert(in_flight@.map_values(|c: Challenge| c@)
                            =~= before.in_flight.update(i as int, entry@));
                    }
                    self.in_flight = in_flight;
                    Some(part)
                } else {
                    let known = self.has_completed(&pub_id);
                    let mut completed: Vec<PublicId> = Vec::new();
                    std::mem::swap(&mut self.completed, &mut completed);
                    if !known {
                        completed.push(pub_id);
                    }
                    self.completed = completed;
                    self.in_flight = in_flight;
                    None
                }
            },
            None => None,
        }
    }

    /// Winds up once the node has been approved: stops the clocks and
    /// abandons the exchanges still under way.
    pub fn handle_approval(&mut self)
        ensures
            final(self)@ == old(self)@.after_approval(),
    {
        proof {
            use_type_invariant(&*self);
        }
        self.approval_token = None;
        self.progress_token = None;
        self.in_flight = Vec::new();
        proof {
            assert(self@.in_flight =~= Seq::<ChallengeView>::empty());
        }
    }

    /// Handles a timer token. Where the wait for the approval has run out,
    /// the node must start over and stops. Where a look at the progress is
    /// due, the next one is scheduled. Any other token is not ours: nothing
    /// changes and `None` is returned.
    pub fn handle_timeout(
        &mut self,
        token: TimerToken,
        timer: &mut Timer,
        outbox: &mut Outbox,
    ) -> (r: Option<Transition>)
        ensures
            old(self)@.is_approval_token(token) ==> {
                &&& r matches Some(t) && t@ == TransitionView::Terminate
                &&& final(self)@ == old(self)@.after_approval_timeout()
                &&& final(outbox)@ == old(outbox)@.push(EffectView::Event(Event::RestartRequired))
                &&& final(timer).next() == old(timer).next()
            },
            old(self)@.is_progress_token(token) ==> {
                &&& r matches Some(t) && t@ == TransitionView::Stay
                &&& final(self)@ == (ResourceProverView {
                    progress_token: Some(
                        TimerToken { kind: TokenKind::ResourceProof, serial: old(timer).next() },
                    ),
                    ..old(self)@
                })
                &&& final(outbox)@ == old(outbox)@.push(
                    EffectView::Schedule {
                        token: TimerToken {
                            kind: TokenKind::ResourceProof,
                            serial: old(timer).next(),
                        },
                        secs: APPROVAL_PROGRESS_INTERVAL_SECS,
                    },
                )
                &&& final(timer).next() == serial_after(old(timer).next())
            },
            !old(self)@.is_approval_token(token) && !old(self)@.is_progress_token(token) ==> {
                &&& r is None
                &&& final(self)@ == old(self)@
                &&& final(outbox)@ == old(outbox)@
                &&& final(timer).next() == old(timer).next()
            },
    {
        proof {
            use_type_invariant(&*self);
        }
        if self.approval_token == Some(token) {
            self.approval_token = None;
            self.progress_token = None;
            self.timed_out = true;
            self.in_flight = Vec::new();
            proof {
                assert(self@.in_flight =~= Seq::<ChallengeView>::empty());
            }
            outbox.send_event(Event::RestartRequired);
            Some(Transition::Terminate)
        } else if self.progress_token == Some(token) {
            self.progress_token = Some(
                timer.schedule(TokenKind::ResourceProof, APPROVAL_PROGRESS_INTERVAL_SECS, outbox),
            );
            Some(Transition::Stay)
        } else {
            None
        }
    }
}

} // verus!
