//! An executable check of the invariant of a state.
//!
//! A state that was put together outside the operations, such as one read
//! back from storage, can be checked before it is used: [`Dao::audit`]
//! accepts exactly the states that satisfy [`Dao::inv`].

use vstd::prelude::*;
use crate::ledger::{lemma_sum_monotone, sum_upto};
use crate::state::{ballot_weight, deposit_amount, Dao};
use crate::status::{status_code, Status, Vote};
use crate::text::same_text;

verus! {

impl Dao {
    /// All seven collections are in order.
    pub open spec fn ordered(&self) -> bool {
        &&& self.proposals.wf()
        &&& self.idx_props_by_status.wf()
        &&& self.idx_props_by_proposer.wf()
        &&& self.ballots.wf()
        &&& self.deposits.wf()
        &&& self.idx_deposits_by_depositor.wf()
        &&& self.treasury_tokens.wf()
    }

    /// The index by status lists exactly the proposals, each under its
    /// status.
    pub open spec fn status_index_exact(&self) -> bool {
        forall|s: u8, id: u64| #[trigger]
            self.idx_props_by_status.contains((s, id)) <==> (self.proposals.contains(id)
                && status_code(self.proposals.value(id).status) == s)
    }

    /// The index by proposer lists exactly the proposals, each under its
    /// proposer.
    pub open spec fn proposer_index_exact(&self) -> bool {
        forall|a: Seq<char>, id: u64| #[trigger]
            self.idx_props_by_proposer.contains((a, id)) <==> (self.proposals.contains(id)
                && self.proposals.value(id).proposer@ == a)
    }

    /// The index by depositor lists exactly the deposits.
    pub open spec fn depositor_index_exact(&self) -> bool {
        forall|a: Seq<char>, id: u64| #[trigger]
            self.idx_deposits_by_depositor.contains((a, id)) <==> self.deposits.contains((id, a))
    }

    /// No proposal has an id beyond the counter.
    pub open spec fn ids_counted(&self) -> bool {
        forall|id: u64| #[trigger] self.proposals.contains(id) ==> id <= self.proposal_count
    }

    /// Every token of the treasury is filed as native or as cw20.
    pub open spec fn tokens_filed(&self) -> bool {
        forall|k: (Seq<char>, Seq<char>)| #[trigger]
            self.treasury_tokens.contains(k) ==> (k.0 == "native"@ || k.0 == "cw20"@)
    }

    /// Every ballot belongs to a stored proposal.
    pub open spec fn ballots_belong(&self) -> bool {
        forall|id: u64, a: Seq<char>| #[trigger]
            self.ballots.contains((id, a)) ==> self.proposals.contains(id)
    }

    /// Every deposit belongs to a stored proposal.
    pub open spec fn deposits_belong(&self) -> bool {
        forall|id: u64, a: Seq<char>| #[trigger]
            self.deposits.contains((id, a)) ==> self.proposals.contains(id)
    }

    /// Every stored proposal is sound.
    pub open spec fn all_sound(&self) -> bool {
        forall|id: u64| #[trigger] self.proposals.contains(id) ==> self.sound(id)
    }

    fn check_status_index(&self) -> (r: bool)
        requires
            self.ordered(),
        ensures
            r == self.status_index_exact(),
    {
        let ghost pkeys = self.proposals.key_seq();
        let ghost pvals = self.proposals.val_seq();
        let ghost ikeys = self.idx_props_by_status.key_seq();
        let n = self.proposals.len();
        let mut i: usize = 0;
        while i < n
            invariant
                self.ordered(),
                n == self.proposals.count(),
                i <= n,
                pkeys == self.proposals.key_seq(),
                pvals == self.proposals.val_seq(),
                forall|j: int|
                    0 <= j < i ==> self.idx_props_by_status.contains(
                        (status_code((#[trigger] pvals[j]).status), pkeys[j]),
                    ),
            decreases n - i,
        {
            let id = *self.proposals.key_at(i);
            let code = self.proposals.val_at(i).status.code();
            if !self.idx_props_by_status.has(&(code, id)) {
                proof {
                    self.proposals.lemma_position(i as int);
                    assert(!self.idx_props_by_status.contains((code, id)));
                }
                return false;
            }
            i = i + 1;
        }
        let m = self.idx_props_by_status.len();
        let mut j: usize = 0;
        while j < m
            invariant
                self.ordered(),
                m == self.idx_props_by_status.count(),
                j <= m,
                ikeys == self.idx_props_by_status.key_seq(),
                forall|t: int|
                    0 <= t < j ==> self.proposals.contains((#[trigger] ikeys[t]).1) && status_code(
                        self.proposals.value(ikeys[t].1).status,
                    ) == ikeys[t].0,
            decreases m - j,
        {
            let key = self.idx_props_by_status.key_at(j);
            let listed = match self.proposals.get(&key.1) {
                Some(p) => p.status.code() == key.0,
                None => false,
            };
            if !listed {
                proof {
                    self.idx_props_by_status.lemma_position(j as int);
                    assert(self.idx_props_by_status.contains((ikeys[j as int].0,
                        ikeys[j as int].1)));
                }
                return false;
            }
            j = j + 1;
        }
        proof {
            assert forall|s: u8, id: u64| #[trigger]
                self.idx_props_by_status.contains((s, id)) <==> (self.proposals.contains(id)
                    && status_code(self.proposals.value(id).status) == s) by {
                if self.idx_props_by_status.contains((s, id)) {
                    let t = self.idx_props_by_status.index_of((s, id));
                    assert(ikeys[t] == (s, id));
                }
                if self.proposals.contains(id) && status_code(self.proposals.value(id).status)
                    == s {
                    let t = self.proposals.index_of(id);
                    self.proposals.lemma_position(t);
                    assert(status_code(pvals[t].status) == s);
                }
            }
        }
        true
    }

    fn check_proposer_index(&self) -> (r: bool)
        requires
            self.ordered(),
        ensures
            r == self.proposer_index_exact(),
    {
        let ghost pkeys = self.proposals.key_seq();
        let ghost pvals = self.proposals.val_seq();
        let ghost ikeys = self.idx_props_by_proposer.key_seq();
        let n = self.proposals.len();
        let mut i: usize = 0;
        while i < n
            invariant
                self.ordered(),
                n == self.proposals.count(),
                i <= n,
                pkeys == self.proposals.key_seq(),
                pvals == self.proposals.val_seq(),
                forall|j: int|
                    0 <= j < i ==> self.idx_props_by_proposer.contains(
                        ((#[trigger] pvals[j]).proposer@, pkeys[j]),
                    ),
            decreases n - i,
        {
            let id = *self.proposals.key_at(i);
            let who = crate::text::copy_text(&self.proposals.val_at(i).proposer);
            if !self.idx_props_by_proposer.has(&(who, id)) {
                proof {
                    self.proposals.lemma_position(i as int);
                    assert(!self.idx_props_by_proposer.contains((pvals[i as int].proposer@, id)));
                }
                return false;
            }
            i = i + 1;
        }
        let m = self.idx_props_by_proposer.len();
        let mut j: usize = 0;
        while j < m
            invariant
                self.ordered(),
                m == self.idx_props_by_proposer.count(),
                j <= m,
                ikeys == self.idx_props_by_proposer.key_seq(),
                forall|t: int|
                    0 <= t < j ==> self.proposals.contains((#[trigger] ikeys[t]).1)
                        && self.proposals.value(ikeys[t].1).proposer@ == ikeys[t].0,
            decreases m - j,
        {
            let key = self.idx_props_by_proposer.key_at(j);
            let listed = match self.proposals.get(&key.1) {
                Some(p) => same_text(&p.proposer, &key.0),
                None => false,
            };
            if !listed {
                proof {
                    self.idx_props_by_proposer.lemma_position(j as int);
                    assert(self.idx_props_by_proposer.contains(
                        (ikeys[j as int].0, ikeys[j as int].1),
                    ));
                }
                return false;
            }
            j = j + 1;
        }
        proof {
            assert forall|a: Seq<char>, id: u64| #[trigger]
                self.idx_props_by_proposer.contains((a, id)) <==> (self.proposals.contains(id)
                    && self.proposals.value(id).proposer@ == a) by {
                if self.idx_props_by_proposer.contains((a, id)) {
                    let t = self.idx_props_by_proposer.index_of((a, id));
                    assert(ikeys[t] == (a, id));
                }
                if self.proposals.contains(id) && self.proposals.value(id).proposer@ == a {
                    let t = self.proposals.index_of(id);
                    self.proposals.lemma_position(t);
                    assert(pvals[t].proposer@ == a);
                }
            }
        }
        true
    }

    fn check_depositor_index(&self) -> (r: bool)
        requires
            self.ordered(),
        ensures
            r == self.depositor_index_exact(),
    {
        let ghost dkeys = self.deposits.key_seq();
        let ghost ikeys = self.idx_deposits_by_depositor.key_seq();
        let n = self.deposits.len();
        let mut i: usize = 0;
        while i < n
            invariant
                self.ordered(),
                n == self.deposits.count(),
                i <= n,
                dkeys == self.deposits.key_seq(),
                forall|j: int|
                    0 <= j < i ==> self.idx_deposits_by_depositor.contains(
                        ((#[trigger] dkeys[j]).1, dkeys[j].0),
                    ),
            decreases n - i,
        {
            let key = self.deposits.key_at(i);
            let entry = (crate::text::copy_text(&key.1), key.0);
            if !self.idx_deposits_by_depositor.has(&entry) {
                proof {
                    self.deposits.lemma_position(i as int);
                    assert(self.deposits.contains((dkeys[i as int].0, dkeys[i as int].1)));
                    assert(!self.idx_deposits_by_depositor.contains(
                        (dkeys[i as int].1, dkeys[i as int].0),
                    ));
                }
                return false;
            }
            i = i + 1;
        }
        let m = self.idx_deposits_by_depositor.len();
        let mut j: usize = 0;
        while j < m
            invariant
                self.ordered(),
                m == self.idx_deposits_by_depositor.count(),
                j <= m,
                ikeys == self.idx_deposits_by_depositor.key_seq(),
                forall|t: int|
                    0 <= t < j ==> self.deposits.contains(((#[trigger] ikeys[t]).1, ikeys[t].0)),
            decreases m - j,
        {
            let key = self.idx_deposits_by_depositor.key_at(j);
            let entry = (key.1, crate::text::copy_text(&key.0));
            if !self.deposits.has(&entry) {
                proof {
                    self.idx_deposits_by_depositor.lemma_position(j as int);
                    assert(self.idx_deposits_by_depositor.contains(
                        (ikeys[j as int].0, ikeys[j as int].1),
                    ));
                }
                return false;
            }
            j = j + 1;
        }
        proof {
            assert forall|a: Seq<char>, id: u64| #[trigger]
                self.idx_deposits_by_depositor.contains((a, id)) <==> self.deposits.contains(
                    (id, a),
                ) by {
                if self.idx_deposits_by_depositor.contains((a, id)) {
                    let t = self.idx_deposits_by_depositor.index_of((a, id));
                    assert(ikeys[t] == (a, id));
                }
                if self.deposits.contains((id, a)) {
                    let t = self.deposits.index_of((id, a));
                    assert(dkeys[t] == (id, a));
                }
            }
        }
        true
    }

    fn check_ids_counted(&self) -> (r: bool)
        requires
            self.ordered(),
        ensures
            r == self.ids_counted(),
    {
        let ghost pkeys = self.proposals.key_seq();
        let n = self.proposals.len();
        let mut i: usize = 0;
        while i < n
            invariant
                self.ordered(),
                n == self.proposals.count(),
                i <= n,
                pkeys == self.proposals.key_seq(),
                forall|j: int| 0 <= j < i ==> (#[trigger] pkeys[j]) <= self.proposal_count,
            decreases n - i,
        {
            if *self.proposals.key_at(i) > self.proposal_count {
                proof {
                    self.proposals.lemma_position(i as int);
                }
                return false;
            }
            i = i + 1;
        }
        proof {
            assert forall|id: u64| #[trigger] self.proposals.contains(id) implies id
                <= self.proposal_count by {
                let t = self.proposals.index_of(id);
                assert(pkeys[t] == id);
            }
        }
        true
    }

    fn check_tokens_filed(&self) -> (r: bool)
        requires
            self.ordered(),
        ensures
            r == self.tokens_filed(),
    {
        let ghost keys = self.treasury_tokens.key_seq();
        let native = "native".to_owned();
        let cw20 = "cw20".to_owned();
        let n = self.treasury_tokens.len();
        let mut i: usize = 0;
        while i < n
            invariant
                self.ordered(),
                n == self.treasury_tokens.count(),
                i <= n,
                keys == self.treasury_tokens.key_seq(),
                native@ == "native"@,
                cw20@ == "cw20"@,
                forall|j: int|
                    0 <= j < i ==> ((#[trigger] keys[j]).0 == "native"@ || keys[j].0 == "cw20"@),
            decreases n - i,
        {
            let key = self.treasury_tokens.key_at(i);
            if !same_text(&key.0, &native) && !same_text(&key.0, &cw20) {
                proof {
                    self.treasury_tokens.lemma_position(i as int);
                }
                return false;
            }
            i = i + 1;
        }
        proof {
            assert forall|k: (Seq<char>, Seq<char>)| #[trigger]
                self.treasury_tokens.contains(k) implies (k.0 == "native"@ || k.0 == "cw20"@) by {
                let t = self.treasury_tokens.index_of(k);
                assert(keys[t] == k);
            }
        }
        true
    }

    fn check_ballots_belong(&self) -> (r: bool)
        requires
            self.ordered(),
        ensures
            r == self.ballots_belong(),
    {
        let ghost keys = self.ballots.key_seq();
        let n = self.ballots.len();
        let mut i: usize = 0;
        while i < n
            invariant
                self.ordered(),
                n == self.ballots.count(),
                i <= n,
                keys == self.ballots.key_seq(),
                forall|j: int| 0 <= j < i ==> self.proposals.contains((#[trigger] keys[j]).0),
            decreases n - i,
        {
            if !self.proposals.has(&self.ballots.key_at(i).0) {
                proof {
                    self.ballots.lemma_position(i as int);
                    assert(self.ballots.contains((keys[i as int].0, keys[i as int].1)));
                }
                return false;
            }
            i = i + 1;
        }
        proof {
            assert forall|id: u64, a: Seq<char>| #[trigger]
                self.ballots.contains((id, a)) implies self.proposals.contains(id) by {
                let t = self.ballots.index_of((id, a));
                assert(keys[t] == (id, a));
            }
        }
        true
    }

    fn check_deposits_belong(&self) -> (r: bool)
        requires
            self.ordered(),
        ensures
            r == self.deposits_belong(),
    {
        let ghost keys = self.deposits.key_seq();
        let n = self.deposits.len();
        let mut i: usize = 0;
        while i < n
            invariant
                self.ordered(),
                n == self.deposits.count(),
                i <= n,
                keys == self.deposits.key_seq(),
                forall|j: int| 0 <= j < i ==> self.proposals.contains((#[trigger] keys[j]).0),
            decreases n - i,
        {
            if !self.proposals.has(&self.deposits.key_at(i).0) {
                proof {
                    self.deposits.lemma_position(i as int);
                    assert(self.deposits.contains((keys[i as int].0, keys[i as int].1)));
                }
                return false;
            }
            i = i + 1;
        }
        proof {
            assert forall|id: u64, a: Seq<char>| #[trigger]
                self.deposits.contains((id, a)) implies self.proposals.contains(id) by {
                let t = self.deposits.index_of((id, a));
                assert(keys[t] == (id, a));
            }
        }
        true
    }

    /// The weight cast for one option of proposal `id`, or `None` where the
    /// sum leaves 128 bits.
    pub fn cast_weight(&self, id: u64, option: Vote) -> (r: Option<u128>)
        requires
            self.ballots.wf(),
        ensures
            match r {
                Some(w) => w == self.cast_on(id, option),
                None => self.cast_on(id, option) > u128::MAX,
            },
    {
        let ghost keys = self.ballots.key_seq();
        let ghost vals = self.ballots.val_seq();
        let ghost weigh = ballot_weight(id, option);
        proof {
            assert forall|j: int| 0 <= j < keys.len() implies weigh(#[trigger] keys[j], vals[j])
                >= 0 by {}
        }
        let n = self.ballots.len();
        let mut sum: u128 = 0;
        let mut i: usize = 0;
        while i < n
            invariant
                self.ballots.wf(),
                n == self.ballots.count(),
                i <= n,
                keys == self.ballots.key_seq(),
                vals == self.ballots.val_seq(),
                weigh == ballot_weight(id, option),
                forall|j: int| 0 <= j < keys.len() ==> weigh(#[trigger] keys[j], vals[j]) >= 0,
                sum == sum_upto(keys, vals, weigh, i as int),
            decreases n - i,
        {
            let ballot = self.ballots.val_at(i);
            if self.ballots.key_at(i).0 == id && ballot.vote == option {
                match sum.checked_add(ballot.weight) {
                    Some(s) => {
                        sum = s;
                    },
                    None => {
                        proof {
                            lemma_sum_monotone(keys, vals, weigh, i + 1, n as int);
                        }
                        return None;
                    },
                }
            }
            i = i + 1;
        }
        Some(sum)
    }

    /// What is deposited on proposal `id`, or `None` where the sum leaves
    /// 128 bits.
    pub fn deposited_total(&self, id: u64) -> (r: Option<u128>)
        requires
            self.deposits.wf(),
        ensures
            match r {
                Some(w) => w == self.deposited_on(id),
                None => self.deposited_on(id) > u128::MAX,
            },
    {
        let ghost keys = self.deposits.key_seq();
        let ghost vals = self.deposits.val_seq();
        let ghost weigh = deposit_amount(id);
        proof {
            assert forall|j: int| 0 <= j < keys.len() implies weigh(#[trigger] keys[j], vals[j])
                >= 0 by {}
        }
        let n = self.deposits.len();
        let mut sum: u128 = 0;
        let mut i: usize = 0;
        while i < n
            invariant
                self.deposits.wf(),
                n == self.deposits.count(),
                i <= n,
                keys == self.deposits.key_seq(),
                vals == self.deposits.val_seq(),
                weigh == deposit_amount(id),
                forall|j: int| 0 <= j < keys.len() ==> weigh(#[trigger] keys[j], vals[j]) >= 0,
                sum == sum_upto(keys, vals, weigh, i as int),
            decreases n - i,
        {
            if self.deposits.key_at(i).0 == id {
                match sum.checked_add(self.deposits.val_at(i).amount) {
                    Some(s) => {
                        sum = s;
                    },
                    None => {
                        proof {
                            lemma_sum_monotone(keys, vals, weigh, i + 1, n as int);
                        }
                        return None;
                    },
                }
            }
            i = i + 1;
        }
        Some(sum)
    }

    /// Whether the stored proposal `id` is sound.
    pub fn is_sound(&self, id: u64) -> (r: bool)
        requires
            self.ordered(),
            self.proposals.contains(id),
        ensures
            r == self.sound(id),
    {
        let p = match self.proposals.get(&id) {
            Some(p) => p,
            None => {
                return false;
            },
        };
        if !p.is_countable() || p.threshold.validate().is_err() || p.total_weight == 0 {
            return false;
        }
        if p.total_deposit > p.deposit_base_amount {
            return false;
        }
        if p.status == Status::Pending && p.total_deposit == p.deposit_base_amount {
            return false;
        }
        if p.deposit_claimable && p.status != Status::Rejected && p.status != Status::Executed {
            return false;
        }
        let yes = self.cast_weight(id, Vote::Yes);
        let no = self.cast_weight(id, Vote::No);
        let abstain = self.cast_weight(id, Vote::Abstain);
        let veto = self.cast_weight(id, Vote::Veto);
        let deposited = self.deposited_total(id);
        yes == Some(p.votes.yes) && no == Some(p.votes.no) && abstain == Some(p.votes.abstain)
            && veto == Some(p.votes.veto) && deposited == Some(p.total_deposit)
    }

    fn check_all_sound(&self) -> (r: bool)
        requires
            self.ordered(),
        ensures
            r == self.all_sound(),
    {
        let ghost keys = self.proposals.key_seq();
        let n = self.proposals.len();
        let mut i: usize = 0;
        while i < n
            invariant
                self.ordered(),
                n == self.proposals.count(),
                i <= n,
                keys == self.proposals.key_seq(),
                forall|j: int| 0 <= j < i ==> self.sound(#[trigger] keys[j]),
            decreases n - i,
        {
            proof {
                self.proposals.lemma_position(i as int);
            }
            if !self.is_sound(*self.proposals.key_at(i)) {
                return false;
            }
            i = i + 1;
        }
        proof {
            assert forall|id: u64| #[trigger] self.proposals.contains(id) implies self.sound(
                id,
            ) by {
                let t = self.proposals.index_of(id);
                assert(keys[t] == id);
            }
        }
        true
    }

    /// Whether this state satisfies the invariant that the operations rely
    /// on.
    pub fn audit(&self) -> (r: bool)
        ensures
            r == self.inv(),
    {
        self.proposals.is_ordered() && self.idx_props_by_status.is_ordered()
            && self.idx_props_by_proposer.is_ordered() && self.ballots.is_ordered()
            && self.deposits.is_ordered() && self.idx_deposits_by_depositor.is_ordered()
            && self.treasury_tokens.is_ordered() && self.check_status_index()
            && self.check_proposer_index() && self.check_depositor_index()
            && self.check_ids_counted() && self.check_tokens_filed()
            && self.config.threshold.validate().is_ok() && self.check_all_sound()
            && self.check_ballots_belong() && self.check_deposits_belong()
    }
}

} // verus!
