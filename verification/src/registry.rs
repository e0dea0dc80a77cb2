//! Validation-code registry and pre-check workflow: a content-addressed code
//! store, the para registrations bound to it, and the quorum vote that admits
//! newly submitted code. A pre-check round resolves exactly once — accept,
//! reject, or expiry-as-reject — and is then removed from the pending set.

use vstd::prelude::*;

use crate::cores::{count_ones, count_ones_vec, availability_threshold, spec_availability_threshold};
use crate::types::{
    BlockNumber, HeadData, HostError, ParaId, PvfCheckStatement, SessionIndex, ValidationCode,
    ValidationCodeHash,
};

verus! {

/// Registration of one para: its latest head and its current code binding.
#[derive(Clone, PartialEq, Eq, Debug)]
pub struct ParaEntry {
    pub para_id: ParaId,
    pub current_head: HeadData,
    pub code_hash: ValidationCodeHash,
}

/// One entry of the content-addressed code store.
#[derive(Clone, PartialEq, Eq, Debug)]
pub struct CodeEntry {
    pub hash: ValidationCodeHash,
    pub code: ValidationCode,
}

/// One active pre-check round: the submitted code, the para whose
/// registration triggered the check, the expiry of the check window, and one
/// vote slot per committee member on each side.
#[derive(Clone, PartialEq, Eq, Debug)]
pub struct PvfRound {
    pub code_hash: ValidationCodeHash,
    pub code: ValidationCode,
    pub session: SessionIndex,
    pub cause_para: ParaId,
    pub expires_at: BlockNumber,
    pub accept_votes: Vec<bool>,
    pub reject_votes: Vec<bool>,
}

/// The code registry with its para bindings and the pre-check state.
/// `resolved` records every hash whose round reached an outcome in an
/// earlier block, so a resolved hash can never re-enter the pending set.
#[derive(Clone, PartialEq, Eq, Debug)]
pub struct CodeRegistry {
    pub paras: Vec<ParaEntry>,
    pub store: Vec<CodeEntry>,
    pub pending: Vec<PvfRound>,
    pub resolved: Vec<ValidationCodeHash>,
}

/// Whether some registration in `s` belongs to `p`.
pub open spec fn has_para(s: Seq<ParaEntry>, p: ParaId) -> bool {
    exists|j: int| 0 <= j < s.len() && s[j].para_id == p
}

/// The index of `p`'s registration; meaningful under `paras_wf`.
pub open spec fn para_index(s: Seq<ParaEntry>, p: ParaId) -> int {
    choose|j: int| 0 <= j < s.len() && s[j].para_id == p
}

/// Each para is registered at most once.
pub open spec fn paras_wf(s: Seq<ParaEntry>) -> bool {
    forall|i: int, j: int|
        0 <= i < s.len() && 0 <= j < s.len() && s[i].para_id == s[j].para_id ==> i == j
}

/// Whether the store holds code under `h`.
pub open spec fn has_code(s: Seq<CodeEntry>, h: ValidationCodeHash) -> bool {
    exists|j: int| 0 <= j < s.len() && s[j].hash == h
}

/// The index of `h`'s entry; meaningful under `store_wf`.
pub open spec fn code_index(s: Seq<CodeEntry>, h: ValidationCodeHash) -> int {
    choose|j: int| 0 <= j < s.len() && s[j].hash == h
}

/// The hash is a collision-free identity: at most one entry per hash.
pub open spec fn store_wf(s: Seq<CodeEntry>) -> bool {
    forall|i: int, j: int| 0 <= i < s.len() && 0 <= j < s.len() && s[i].hash == s[j].hash ==> i == j
}

/// Whether a pre-check round for `h` is active.
pub open spec fn has_round(s: Seq<PvfRound>, h: ValidationCodeHash) -> bool {
    exists|j: int| 0 <= j < s.len() && s[j].code_hash == h
}

/// The index of `h`'s round; meaningful under `pending_wf`.
pub open spec fn round_index(s: Seq<PvfRound>, h: ValidationCodeHash) -> int {
    choose|j: int| 0 <= j < s.len() && s[j].code_hash == h
}

/// The hashes currently awaiting quorum, in submission order.
pub open spec fn round_hashes(s: Seq<PvfRound>) -> Seq<ValidationCodeHash> {
    s.map_values(|r: PvfRound| r.code_hash)
}

/// Pending rounds are unique per hash, carry one vote slot per committee
/// member on each side, and have never reached quorum (a round at quorum is
/// resolved within the same block and leaves the set).
pub open spec fn pending_wf(s: Seq<PvfRound>, n: nat) -> bool {
    &&& forall|i: int, j: int|
        0 <= i < s.len() && 0 <= j < s.len() && s[i].code_hash == s[j].code_hash ==> i == j
    &&& forall|i: int|
        0 <= i < s.len() ==> (#[trigger] s[i]).accept_votes@.len() == n && s[i].reject_votes@.len()
            == n
    &&& forall|i: int|
        0 <= i < s.len() ==> count_ones((#[trigger] s[i]).accept_votes@)
            < spec_availability_threshold(n) && count_ones(s[i].reject_votes@)
            < spec_availability_threshold(n)
}

impl CodeRegistry {
    /// Well-formedness for a committee of `n` validators. The last clause is
    /// the exclusion at the heart of the workflow: no pending hash has
    /// already reached an outcome in an earlier block.
    pub open spec fn wf(self, n: nat) -> bool {
        &&& paras_wf(self.paras@)
        &&& store_wf(self.store@)
        &&& pending_wf(self.pending@, n)
        &&& forall|i: int|
            0 <= i < self.pending@.len() ==> !self.resolved@.contains(
                (#[trigger] self.pending@[i]).code_hash,
            )
    }

    /// An empty registry.
    pub fn new() -> (r: CodeRegistry)
        ensures
            r.paras@.len() == 0,
            r.store@.len() == 0,
            r.pending@.len() == 0,
            r.resolved@.len() == 0,
            forall|n: nat| r.wf(n),
    {
        CodeRegistry { paras: Vec::new(), store: Vec::new(), pending: Vec::new(), resolved: Vec::new() }
    }
}

/// Position of `p`'s registration, if any.
pub fn find_para_entry(paras: &Vec<ParaEntry>, p: ParaId) -> (r: Option<usize>)
    requires
        paras_wf(paras@),
    ensures
        match r {
            Some(i) => i < paras@.len() && paras@[i as int].para_id == p && i as int == para_index(
                paras@,
                p,
            ),
            None => !has_para(paras@, p),
        },
{
    let mut i: usize = 0;
    while i < paras.len()
        invariant
            paras_wf(paras@),
            i <= paras@.len(),
            forall|j: int| 0 <= j < i ==> paras@[j].para_id != p,
        decreases paras@.len() - i,
    {
        if paras[i].para_id == p {
            proof {
                let k = para_index(paras@, p);
                assert(0 <= k < paras@.len() && paras@[k].para_id == p);
                assert(k == i as int);
            }
            return Some(i);
        }
        i = i + 1;
    }
    None
}

/// Position of `h`'s entry in the code store, if any.
pub fn find_code_entry(store: &Vec<CodeEntry>, h: ValidationCodeHash) -> (r: Option<usize>)
    requires
        store_wf(store@),
    ensures
        match r {
            Some(i) => i < store@.len() && store@[i as int].hash == h && i as int == code_index(
                store@,
                h,
            ),
            None => !has_code(store@, h),
        },
{
    let mut i: usize = 0;
    while i < store.len()
        invariant
            store_wf(store@),
            i <= store@.len(),
            forall|j: int| 0 <= j < i ==> store@[j].hash != h,
        decreases store@.len() - i,
    {
        if store[i].hash == h {
            proof {
                let k = code_index(store@, h);
                assert(0 <= k < store@.len() && store@[k].hash == h);
                assert(k == i as int);
            }
            return Some(i);
        }
        i = i + 1;
    }
    None
}

/// Position of `h`'s pre-check round, if one is active.
pub fn find_pvf_round(pending: &Vec<PvfRound>, h: ValidationCodeHash) -> (r: Option<usize>)
    requires
        forall|i: int, j: int|
            0 <= i < pending@.len() && 0 <= j < pending@.len() && pending@[i].code_hash
                == pending@[j].code_hash ==> i == j,
    ensures
        match r {
            Some(i) => i < pending@.len() && pending@[i as int].code_hash == h && i as int
                == round_index(pending@, h),
            None => !has_round(pending@, h),
        },
{
    let mut i: usize = 0;
    while i < pending.len()
        invariant
            forall|a: int, b: int|
                0 <= a < pending@.len() && 0 <= b < pending@.len() && pending@[a].code_hash
                    == pending@[b].code_hash ==> a == b,
            i <= pending@.len(),
            forall|j: int| 0 <= j < i ==> pending@[j].code_hash != h,
        decreases pending@.len() - i,
    {
        if pending[i].code_hash == h {
            proof {
                let k = round_index(pending@, h);
                assert(0 <= k < pending@.len() && pending@[k].code_hash == h);
                assert(k == i as int);
            }
            return Some(i);
        }
        i = i + 1;
    }
    None
}

/// Whether `h` already reached an outcome in an earlier block.
pub fn resolved_contains(resolved: &Vec<ValidationCodeHash>, h: ValidationCodeHash) -> (r: bool)
    ensures
        r == resolved@.contains(h),
{
    let mut i: usize = 0;
    while i < resolved.len()
        invariant
            i <= resolved@.len(),
            forall|j: int| 0 <= j < i ==> resolved@[j] != h,
        decreases resolved@.len() - i,
    {
        if resolved[i] == h {
            proof {
                assert(resolved@[i as int] == h);
            }
            return true;
        }
        i = i + 1;
    }
    false
}

/// The error a pre-check statement draws, if any: a failing signature or an
/// out-of-committee index is `InvalidSignature`; a wrong session or a subject
/// with no active round is `Stale`.
pub open spec fn spec_statement_error(
    pending: Seq<PvfRound>,
    stmt: PvfCheckStatement,
    signature_valid: bool,
    current_session: SessionIndex,
    n: nat,
) -> Option<HostError> {
    if !signature_valid || stmt.validator_index.0 >= n {
        Some(HostError::InvalidSignature)
    } else if stmt.session_index != current_session || !has_round(pending, stmt.subject) {
        Some(HostError::Stale)
    } else {
        None
    }
}

/// On an accepted quorum the outcome is applied to the para registration that
/// triggered the check, and the code enters the content-addressed store
/// unless already present.
pub open spec fn spec_accept_applied(
    old_reg: CodeRegistry,
    new_reg: CodeRegistry,
    round: PvfRound,
) -> bool {
    &&& if has_para(old_reg.paras@, round.cause_para) {
        let pi = para_index(old_reg.paras@, round.cause_para);
        &&& new_reg.paras@.len() == old_reg.paras@.len()
        &&& forall|j: int|
            0 <= j < old_reg.paras@.len() && j != pi ==> new_reg.paras@[j] == old_reg.paras@[j]
        &&& new_reg.paras@[pi].para_id == round.cause_para
        &&& new_reg.paras@[pi].current_head == old_reg.paras@[pi].current_head
        &&& new_reg.paras@[pi].code_hash == round.code_hash
    } else {
        new_reg.paras == old_reg.paras
    }
    &&& if has_code(old_reg.store@, round.code_hash) {
        new_reg.store == old_reg.store
    } else {
        &&& new_reg.store@.len() == old_reg.store@.len() + 1
        &&& forall|j: int|
            0 <= j < old_reg.store@.len() ==> new_reg.store@[j] == old_reg.store@[j]
        &&& new_reg.store@.last().hash == round.code_hash
        &&& new_reg.store@.last().code == round.code
    }
}

/// The full effect of one pre-check statement: errors fail closed; a
/// duplicate vote is ignored, not accumulated; a recorded vote either leaves
/// the round pending or, on reaching the committee supermajority, resolves it
/// exactly once and removes it from the pending set.
pub open spec fn spec_submit_post(
    old_reg: CodeRegistry,
    new_reg: CodeRegistry,
    stmt: PvfCheckStatement,
    signature_valid: bool,
    current_session: SessionIndex,
    n: nat,
    r: Result<(), HostError>,
) -> bool {
    match spec_statement_error(old_reg.pending@, stmt, signature_valid, current_session, n) {
        Some(e) => r == Err::<(), HostError>(e) && new_reg == old_reg,
        None => {
            let k = round_index(old_reg.pending@, stmt.subject);
            let round = old_reg.pending@[k];
            let vix = stmt.validator_index.0 as int;
            let already = round.accept_votes@[vix] || round.reject_votes@[vix];
            let accept2 = if stmt.accept {
                round.accept_votes@.update(vix, true)
            } else {
                round.accept_votes@
            };
            let reject2 = if stmt.accept {
                round.reject_votes@
            } else {
                round.reject_votes@.update(vix, true)
            };
            let side = if stmt.accept {
                accept2
            } else {
                reject2
            };
            &&& r == Ok::<(), HostError>(())
            &&& if already {
                new_reg == old_reg
            } else if count_ones(side) < spec_availability_threshold(n) {
                &&& new_reg.paras == old_reg.paras
                &&& new_reg.store == old_reg.store
                &&& new_reg.resolved == old_reg.resolved
                &&& new_reg.pending@.len() == old_reg.pending@.len()
                &&& forall|j: int|
                    0 <= j < old_reg.pending@.len() && j != k ==> new_reg.pending@[j]
                        == old_reg.pending@[j]
                &&& new_reg.pending@[k].code_hash == round.code_hash
                &&& new_reg.pending@[k].code == round.code
                &&& new_reg.pending@[k].session == round.session
                &&& new_reg.pending@[k].cause_para == round.cause_para
                &&& new_reg.pending@[k].expires_at == round.expires_at
                &&& new_reg.pending@[k].accept_votes@ == accept2
                &&& new_reg.pending@[k].reject_votes@ == reject2
            } else {
                &&& new_reg.pending@ == old_reg.pending@.remove(k)
                &&& new_reg.resolved@ == old_reg.resolved@.push(stmt.subject)
                &&& if stmt.accept {
                    spec_accept_applied(old_reg, new_reg, round)
                } else {
                    new_reg.paras == old_reg.paras && new_reg.store == old_reg.store
                }
            }
        },
    }
}

impl CodeRegistry {
    /// Apply one pre-check statement. `signature_valid` is the verdict of the
    /// external signature-verification collaborator on `stmt` for the stated
    /// validator and session. Rejection is atomic: on any error the state is
    /// unchanged.
    pub fn submit_statement(
        &mut self,
        stmt: PvfCheckStatement,
        signature_valid: bool,
        current_session: SessionIndex,
        n_validators: usize,
    ) -> (r: Result<(), HostError>)
        requires
            old(self).wf(n_validators as nat),
        ensures
            final(self).wf(n_validators as nat),
            spec_submit_post(
                *old(self),
                *final(self),
                stmt,
                signature_valid,
                current_session,
                n_validators as nat,
                r,
            ),
    {
        if !signature_valid || stmt.validator_index.0 >= n_validators {
            return Err(HostError::InvalidSignature);
        }
        if stmt.session_index != current_session {
            return Err(HostError::Stale);
        }
        let found = find_pvf_round(&self.pending, stmt.subject);
        let k = match found {
            None => {
                return Err(HostError::Stale);
            },
            Some(k) => k,
        };
        let vix = stmt.validator_index.0;
        let already = self.pending[k].accept_votes[vix] || self.pending[k].reject_votes[vix];
        if already {
            return Ok(());
        }
        let mut round = self.pending.remove(k);
        let ghost old_round = old(self).pending@[k as int];
        if stmt.accept {
            round.accept_votes.set(vix, true);
        } else {
            round.reject_votes.set(vix, true);
        }
        let side_count = if stmt.accept {
            count_ones_vec(&round.accept_votes)
        } else {
            count_ones_vec(&round.reject_votes)
        };
        let threshold = availability_threshold(n_validators);
        if side_count < threshold {
            self.pending.insert(k, round);
            proof {
                assert(self.pending@ =~= old(self).pending@.update(
                    k as int,
                    self.pending@[k as int],
                ));
            }
            Ok(())
        } else {
            self.resolved.push(stmt.subject);
            if stmt.accept {
                match find_para_entry(&self.paras, round.cause_para) {
                    Some(pi) => {
                        let entry = self.paras.remove(pi);
                        self.paras.insert(
                            pi,
                            ParaEntry {
                                para_id: entry.para_id,
                                current_head: entry.current_head,
                                code_hash: round.code_hash,
                            },
                        );
                        proof {
                            assert(self.paras@ =~= old(self).paras@.update(
                                pi as int,
                                self.paras@[pi as int],
                            ));
                        }
                    },
                    None => {},
                }
                match find_code_entry(&self.store, round.code_hash) {
                    Some(_) => {},
                    None => {
                        self.store.push(CodeEntry { hash: round.code_hash, code: round.code });
                    },
                }
            }
            proof {
                assert forall|i: int| 0 <= i < self.pending@.len() implies !self.resolved@.contains(
                    (#[trigger] self.pending@[i]).code_hash,
                ) by {
                    let h = self.pending@[i].code_hash;
                    let oi = if i < k as int {
                        i
                    } else {
                        i + 1
                    };
                    assert(self.pending@[i] == old(self).pending@[oi]);
                    assert(h != stmt.subject);
                    if self.resolved@.contains(h) {
                        let w = choose|w: int|
                            0 <= w < self.resolved@.len() && self.resolved@[w] == h;
                        assert(old(self).resolved@.contains(h));
                    }
                }
            }
            Ok(())
        }
    }
}

/// The rounds still within their check window at `now`, in order.
pub open spec fn spec_active_rounds(s: Seq<PvfRound>, now: BlockNumber) -> Seq<PvfRound>
    decreases s.len(),
{
    if s.len() == 0 {
        Seq::empty()
    } else {
        let rest = spec_active_rounds(s.drop_first(), now);
        if now < s.first().expires_at {
            seq![s.first()] + rest
        } else {
            rest
        }
    }
}

/// The hashes of rounds whose check window has expired at `now`, in order.
pub open spec fn spec_expired_hashes(s: Seq<PvfRound>, now: BlockNumber) -> Seq<ValidationCodeHash>
    decreases s.len(),
{
    if s.len() == 0 {
        Seq::empty()
    } else {
        let rest = spec_expired_hashes(s.drop_first(), now);
        if now >= s.first().expires_at {
            seq![s.first().code_hash] + rest
        } else {
            rest
        }
    }
}

/// Splitting off expired rounds preserves well-formedness, keeps only rounds
/// from the original set, and no surviving round shares a hash with an
/// expired one.
pub proof fn lemma_active_rounds_wf(s: Seq<PvfRound>, now: BlockNumber, n: nat)
    requires
        pending_wf(s, n),
    ensures
        pending_wf(spec_active_rounds(s, now), n),
        forall|x: PvfRound|
            #[trigger] spec_active_rounds(s, now).contains(x) ==> s.contains(x) && now
                < x.expires_at,
        forall|x: PvfRound|
            #[trigger] spec_active_rounds(s, now).contains(x) ==> !spec_expired_hashes(
                s,
                now,
            ).contains(x.code_hash),
    decreases s.len(),
{
    if s.len() > 0 {
        let rest = s.drop_first();
        assert forall|i: int, j: int|
            0 <= i < rest.len() && 0 <= j < rest.len() && rest[i].code_hash
                == rest[j].code_hash implies i == j by {
            assert(rest[i] == s[i + 1] && rest[j] == s[j + 1]);
        }
        assert forall|i: int| 0 <= i < rest.len() implies (#[trigger] rest[i]).accept_votes@.len()
            == n && rest[i].reject_votes@.len() == n && count_ones(rest[i].accept_votes@)
            < spec_availability_threshold(n) && count_ones(rest[i].reject_votes@)
            < spec_availability_threshold(n) by {
            assert(rest[i] == s[i + 1]);
        }
        lemma_active_rounds_wf(rest, now, n);
        let act = spec_active_rounds(s, now);
        let act_rest = spec_active_rounds(rest, now);
        assert forall|x: PvfRound| act.contains(x) implies s.contains(x) && now
            < x.expires_at by {
            let w = choose|w: int| 0 <= w < act.len() && act[w] == x;
            if now < s.first().expires_at && w == 0 {
                assert(act[0] == s.first());
                assert(s[0] == x);
            } else {
                let wr = if now < s.first().expires_at {
                    w - 1
                } else {
                    w
                };
                assert(act_rest[wr] == x);
                assert(act_rest.contains(x));
                assert(rest.contains(x) && now < x.expires_at);
                let m = choose|m: int| 0 <= m < rest.len() && rest[m] == x;
                assert(rest[m] == s[m + 1]);
                assert(s.contains(x)) by {
                    assert(s[m + 1] == x);
                }
            }
        }
        assert forall|i: int, j: int|
            0 <= i < act.len() && 0 <= j < act.len() && act[i].code_hash
                == act[j].code_hash implies i == j by {
            if now < s.first().expires_at {
                if i >= 1 && j >= 1 {
                    assert(act[i] == act_rest[i - 1] && act[j] == act_rest[j - 1]);
                } else if i == 0 && j >= 1 {
                    assert(act[j] == act_rest[j - 1]);
                    assert(act_rest.contains(act[j]));
                    assert(rest.contains(act[j]));
                    let m = choose|m: int| 0 <= m < rest.len() && rest[m] == act[j];
                    assert(rest[m] == s[m + 1]);
                    assert(s[m + 1] == act[j] && s[0] == act[0]);
                } else if j == 0 && i >= 1 {
                    assert(act[i] == act_rest[i - 1]);
                    assert(act_rest.contains(act[i]));
                    assert(rest.contains(act[i]));
                    let m = choose|m: int| 0 <= m < rest.len() && rest[m] == act[i];
                    assert(rest[m] == s[m + 1]);
                    assert(s[m + 1] == act[i] && s[0] == act[0]);
                }
            } else {
                assert(act[i] == act_rest[i] && act[j] == act_rest[j]);
            }
        }
        let exp = spec_expired_hashes(s, now);
        let exp_rest = spec_expired_hashes(rest, now);
        assert forall|x: PvfRound| act.contains(x) implies !exp.contains(x.code_hash) by {
            assert(s.contains(x) && now < x.expires_at);
            let a = choose|a: int| 0 <= a < s.len() && s[a] == x;
            if exp.contains(x.code_hash) {
                let w = choose|w: int| 0 <= w < exp.len() && exp[w] == x.code_hash;
                if now >= s.first().expires_at && w == 0 {
                    assert(s[0].code_hash == x.code_hash);
                    assert(a == 0);
                } else {
                    let wr = if now >= s.first().expires_at {
                        w - 1
                    } else {
                        w
                    };
                    assert(exp_rest[wr] == x.code_hash);
                    assert(exp_rest.contains(x.code_hash));
                    if act_rest.contains(x) {
                        lemma_active_rounds_wf(rest, now, n);
                    } else {
                        assert(a == 0 && s.first() == x);
                        assert(now < s.first().expires_at);
                        assert(act[0] == x);
                        lemma_expired_from(rest, now, x.code_hash);
                        let m = choose|m: int|
                            0 <= m < rest.len() && rest[m].code_hash == x.code_hash && now
                                >= rest[m].expires_at;
                        assert(s[m + 1].code_hash == s[0].code_hash);
                    }
                }
            }
        }
    }
}

/// Every expired hash stems from a round of the original set whose window has
/// in fact expired.
pub proof fn lemma_expired_from(s: Seq<PvfRound>, now: BlockNumber, h: ValidationCodeHash)
    requires
        spec_expired_hashes(s, now).contains(h),
    ensures
        exists|m: int| 0 <= m < s.len() && s[m].code_hash == h && now >= s[m].expires_at,
    decreases s.len(),
{
    let exp = spec_expired_hashes(s, now);
    let exp_rest = spec_expired_hashes(s.drop_first(), now);
    let w = choose|w: int| 0 <= w < exp.len() && exp[w] == h;
    if now >= s.first().expires_at && w == 0 {
        assert(s[0].code_hash == h && now >= s[0].expires_at);
    } else {
        let wr = if now >= s.first().expires_at {
            w - 1
        } else {
            w
        };
        assert(exp_rest[wr] == h);
        assert(exp_rest.contains(h));
        lemma_expired_from(s.drop_first(), now, h);
        let m = choose|m: int|
            0 <= m < s.drop_first().len() && s.drop_first()[m].code_hash == h && now
                >= s.drop_first()[m].expires_at;
        assert(s[m + 1].code_hash == h && now >= s[m + 1].expires_at);
    }
}

impl CodeRegistry {
    /// Register a para with its genesis head and initial code. A no-op when
    /// the para is already registered; the code enters the store unless its
    /// hash is already present (content-addressed: same hash, same content).
    pub fn register_para(
        &mut self,
        para_id: ParaId,
        genesis_head: HeadData,
        code: ValidationCode,
        code_hash: ValidationCodeHash,
        n_validators: usize,
    ) -> (added: bool)
        requires
            old(self).wf(n_validators as nat),
        ensures
            final(self).wf(n_validators as nat),
            added <==> !has_para(old(self).paras@, para_id),
            !added ==> *final(self) == *old(self),
            added ==> {
                &&& final(self).pending == old(self).pending
                &&& final(self).resolved == old(self).resolved
                &&& final(self).paras@.len() == old(self).paras@.len() + 1
                &&& forall|j: int|
                    0 <= j < old(self).paras@.len() ==> final(self).paras@[j]
                        == old(self).paras@[j]
                &&& final(self).paras@.last().para_id == para_id
                &&& final(self).paras@.last().current_head == genesis_head
                &&& final(self).paras@.last().code_hash == code_hash
                &&& if has_code(old(self).store@, code_hash) {
                    final(self).store == old(self).store
                } else {
                    &&& final(self).store@.len() == old(self).store@.len() + 1
                    &&& forall|j: int|
                        0 <= j < old(self).store@.len() ==> final(self).store@[j]
                            == old(self).store@[j]
                    &&& final(self).store@.last().hash == code_hash
                    &&& final(self).store@.last().code == code
                }
            },
    {
        match find_para_entry(&self.paras, para_id) {
            Some(_) => false,
            None => {
                self.paras.push(
                    ParaEntry { para_id, current_head: genesis_head, code_hash },
                );
                match find_code_entry(&self.store, code_hash) {
                    Some(_) => {},
                    None => {
                        self.store.push(CodeEntry { hash: code_hash, code });
                    },
                }
                true
            },
        }
    }

    /// Submit new code for a registered para, opening a pre-check round on
    /// the first submission of an unseen hash. No round starts for a hash
    /// that is already pending or that reached quorum in an earlier block.
    pub fn submit_code_upgrade(
        &mut self,
        para_id: ParaId,
        code: ValidationCode,
        code_hash: ValidationCodeHash,
        session: SessionIndex,
        expires_at: BlockNumber,
        n_validators: usize,
    ) -> (started: bool)
        requires
            old(self).wf(n_validators as nat),
        ensures
            final(self).wf(n_validators as nat),
            started <==> has_para(old(self).paras@, para_id) && !has_round(
                old(self).pending@,
                code_hash,
            ) && !old(self).resolved@.contains(code_hash),
            !started ==> *final(self) == *old(self),
            started ==> {
                &&& final(self).paras == old(self).paras
                &&& final(self).store == old(self).store
                &&& final(self).resolved == old(self).resolved
                &&& final(self).pending@.len() == old(self).pending@.len() + 1
                &&& forall|j: int|
                    0 <= j < old(self).pending@.len() ==> final(self).pending@[j]
                        == old(self).pending@[j]
                &&& final(self).pending@.last().code_hash == code_hash
                &&& final(self).pending@.last().code == code
                &&& final(self).pending@.last().session == session
                &&& final(self).pending@.last().cause_para == para_id
                &&& final(self).pending@.last().expires_at == expires_at
                &&& count_ones(final(self).pending@.last().accept_votes@) == 0
                &&& count_ones(final(self).pending@.last().reject_votes@) == 0
                &&& final(self).pending@.last().accept_votes@.len() == n_validators
                &&& final(self).pending@.last().reject_votes@.len() == n_validators
            },
    {
        let registered = match find_para_entry(&self.paras, para_id) {
            Some(_) => true,
            None => false,
        };
        if !registered {
            return false;
        }
        match find_pvf_round(&self.pending, code_hash) {
            Some(_) => {
                return false;
            },
            None => {},
        }
        if resolved_contains(&self.resolved, code_hash) {
            return false;
        }
        let mut accept_votes: Vec<bool> = Vec::new();
        let mut reject_votes: Vec<bool> = Vec::new();
        let mut i: usize = 0;
        while i < n_validators
            invariant
                i <= n_validators,
                accept_votes@.len() == i,
                reject_votes@.len() == i,
                count_ones(accept_votes@) == 0,
                count_ones(reject_votes@) == 0,
            decreases n_validators - i,
        {
            proof {
                assert(accept_votes@.push(false).drop_last() =~= accept_votes@);
                assert(reject_votes@.push(false).drop_last() =~= reject_votes@);
            }
            accept_votes.push(false);
            reject_votes.push(false);
            i = i + 1;
        }
        self.pending.push(
            PvfRound {
                code_hash,
                code,
                session,
                cause_para: para_id,
                expires_at,
                accept_votes,
                reject_votes,
            },
        );
        true
    }

    /// Resolve every round whose check window has expired at `now`: expiry
    /// counts as rejection, so each such hash leaves the pending set and is
    /// recorded as resolved. Active rounds survive unchanged, in order.
    pub fn prune_expired(&mut self, now: BlockNumber, n_validators: usize) -> (expired: usize)
        requires
            old(self).wf(n_validators as nat),
        ensures
            final(self).wf(n_validators as nat),
            final(self).paras == old(self).paras,
            final(self).store == old(self).store,
            final(self).pending@ == spec_active_rounds(old(self).pending@, now),
            final(self).resolved@ == old(self).resolved@ + spec_expired_hashes(
                old(self).pending@,
                now,
            ),
    {
        let ghost orig: Seq<PvfRound> = old(self).pending@;
        let n0 = self.pending.len();
        let mut drained = self.pending.split_off(0);
        let mut kept: Vec<PvfRound> = Vec::new();
        let mut expired: usize = 0;
        proof {
            assert(drained@ =~= orig);
            assert(kept@ + spec_active_rounds(drained@, now) =~= spec_active_rounds(orig, now));
        }
        while drained.len() > 0
            invariant
                self.paras == old(self).paras,
                self.store == old(self).store,
                self.pending@.len() == 0,
                n0 == orig.len(),
                expired + kept@.len() + drained@.len() == n0,
                spec_active_rounds(orig, now) == kept@ + spec_active_rounds(drained@, now),
                old(self).resolved@ + spec_expired_hashes(orig, now) == self.resolved@
                    + spec_expired_hashes(drained@, now),
            decreases drained@.len(),
        {
            let ghost before: Seq<PvfRound> = drained@;
            let r = drained.remove(0);
            proof {
                assert(before.drop_first() =~= drained@);
                assert(before.first() == r);
            }
            if now < r.expires_at {
                kept.push(r);
                proof {
                    assert(kept@ + spec_active_rounds(drained@, now) =~= kept@.drop_last() + (seq![
                        r,
                    ] + spec_active_rounds(drained@, now)));
                }
            } else {
                self.resolved.push(r.code_hash);
                expired = expired + 1;
                proof {
                    assert(self.resolved@ + spec_expired_hashes(drained@, now)
                        =~= self.resolved@.drop_last() + (seq![r.code_hash]
                        + spec_expired_hashes(drained@, now)));
                }
            }
        }
        proof {
            assert(drained@ =~= Seq::<PvfRound>::empty());
            assert(kept@ + spec_active_rounds(drained@, now) =~= kept@);
            assert(self.resolved@ + spec_expired_hashes(drained@, now) =~= self.resolved@);
        }
        self.pending = kept;
        proof {
            lemma_active_rounds_wf(orig, now, n_validators as nat);
            assert forall|i: int| 0 <= i < self.pending@.len() implies !self.resolved@.contains(
                (#[trigger] self.pending@[i]).code_hash,
            ) by {
                let x = self.pending@[i];
                assert(spec_active_rounds(orig, now).contains(x));
                let h = x.code_hash;
                if self.resolved@.contains(h) {
                    let w = choose|w: int|
                        0 <= w < self.resolved@.len() && self.resolved@[w] == h;
                    if w < old(self).resolved@.len() {
                        assert(old(self).resolved@.contains(h));
                        assert(orig.contains(x));
                        let m = choose|m: int| 0 <= m < orig.len() && orig[m] == x;
                    } else {
                        assert(spec_expired_hashes(orig, now)[w - old(self).resolved@.len()] == h);
                        assert(spec_expired_hashes(orig, now).contains(h));
                    }
                }
            }
        }
        expired
    }

    /// All code hashes currently awaiting quorum, in submission order.
    pub fn pvfs_require_precheck(&self) -> (r: Vec<ValidationCodeHash>)
        ensures
            r@ == round_hashes(self.pending@),
    {
        let mut r: Vec<ValidationCodeHash> = Vec::new();
        let mut i: usize = 0;
        while i < self.pending.len()
            invariant
                i <= self.pending@.len(),
                r@.len() == i,
                forall|j: int| 0 <= j < i ==> r@[j] == self.pending@[j].code_hash,
            decreases self.pending@.len() - i,
        {
            r.push(self.pending[i].code_hash);
            i = i + 1;
        }
        proof {
            assert(r@ =~= round_hashes(self.pending@));
        }
        r
    }
}

/// A hash that already reached quorum in an earlier block never appears
/// among the hashes awaiting pre-check.
pub proof fn lemma_precheck_excludes_resolved(reg: CodeRegistry, n: nat, h: ValidationCodeHash)
    requires
        reg.wf(n),
        reg.resolved@.contains(h),
    ensures
        !round_hashes(reg.pending@).contains(h),
{
    if round_hashes(reg.pending@).contains(h) {
        let i = choose|i: int|
            0 <= i < round_hashes(reg.pending@).len() && round_hashes(reg.pending@)[i] == h;
        assert(reg.pending@[i].code_hash == h);
        assert(!reg.resolved@.contains(reg.pending@[i].code_hash));
    }
}

} // verus!
