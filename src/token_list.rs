use crate::metadata::MetadataRecord;
use crate::storage::{
    set_contains, set_elements, set_insert, set_len, set_new, set_slot_count, set_to_vec, AccountSet,
};
use vstd::prelude::*;

verus! {

/// A request to the host: ask the account `token` for the balance that
/// `holder` has with it and for its metadata, at once, and hand both answers
/// to `TokenList::verify_account_is_token_callback` when both have come back.
#[derive(Clone, Debug, PartialEq, Eq)]
pub struct VerificationRequest {
    pub token: String,
    pub holder: String,
}

/// What a submission asks of the host: the verifications to run, or a value
/// that is final without any remote call.
#[derive(Debug, PartialEq, Eq)]
pub enum Dispatch<T> {
    Verify(Vec<VerificationRequest>),
    Value(T),
}

/// Why a batch submission was refused before any remote call.
#[derive(Clone, Copy, Debug, PartialEq, Eq)]
pub enum AddTokensError {
    NoTokensProvided,
}

/// The requests ask, in order, to verify each of `tokens`, each on behalf of
/// `holder`.
pub open spec fn requests_for(
    reqs: Seq<VerificationRequest>,
    tokens: Seq<Seq<char>>,
    holder: Seq<char>,
) -> bool {
    &&& reqs.map_values(|q: VerificationRequest| q.token@) == tokens
    &&& forall|j: int| 0 <= j < reqs.len() ==> (#[trigger] reqs[j]).holder@ == holder
}

/// The identifiers that the strings spell.
pub open spec fn identifiers(tokens: Seq<String>) -> Seq<Seq<char>> {
    tokens.map_values(|t: String| t@)
}

/// An account is verified only if the registry does not hold it yet.
pub open spec fn needs_verification(registry: Seq<Seq<char>>, token: Seq<char>) -> bool {
    !registry.contains(token)
}

/// The identifiers of a batch with repeats left out, each kept at its first
/// occurrence that `listed` does not mark as already in the registry.
pub open spec fn distinct_unlisted(batch: Seq<Seq<char>>, listed: Seq<bool>) -> Seq<Seq<char>>
    decreases batch.len(),
{
    if batch.len() == 0 {
        Seq::empty()
    } else {
        let prev = distinct_unlisted(batch.drop_last(), listed.drop_last());
        let x = batch.last();
        if listed[batch.len() - 1] || prev.contains(x) {
            prev
        } else {
            prev.push(x)
        }
    }
}

/// The answers mark, position by position, whether each identifier of the
/// batch is in the registry; every member is marked.
pub open spec fn answers_cover(
    registry: Seq<Seq<char>>,
    batch: Seq<Seq<char>>,
    listed: Seq<bool>,
) -> bool {
    &&& listed.len() == batch.len()
    &&& forall|i: int| 0 <= i < batch.len() && registry.contains(#[trigger] batch[i]) ==> listed[i]
}

/// What submitting `token` gives when the registry answered `listed` for it:
/// `false` at once for a listed account, else one verification.
pub open spec fn token_dispatch(
    listed: bool,
    token: Seq<char>,
    signer: Seq<char>,
    r: Dispatch<bool>,
) -> bool {
    if listed {
        r == Dispatch::<bool>::Value(false)
    } else {
        r matches Dispatch::Verify(reqs) && requests_for(reqs@, seq![token], signer)
    }
}

/// What submitting `batch` gives when the registry answered `listed` for its
/// identifiers: a refusal for an empty batch, else one verification for each
/// of `distinct_unlisted(batch, listed)`, or 0 at once when there is none.
pub open spec fn batch_dispatch(
    batch: Seq<Seq<char>>,
    listed: Seq<bool>,
    signer: Seq<char>,
    r: Result<Dispatch<u64>, AddTokensError>,
) -> bool {
    if batch.len() == 0 {
        r == Err::<Dispatch<u64>, AddTokensError>(AddTokensError::NoTokensProvided)
    } else if distinct_unlisted(batch, listed).len() == 0 {
        r == Ok::<Dispatch<u64>, AddTokensError>(Dispatch::Value(0))
    } else {
        r matches Ok(Dispatch::Verify(reqs)) && requests_for(
            reqs@,
            distinct_unlisted(batch, listed),
            signer,
        )
    }
}

/// The entries from `from` on, at most `limit` of them; none when `from` lies
/// past the end.
pub open spec fn page(s: Seq<Seq<char>>, from: int, limit: int) -> Seq<Seq<char>> {
    if from >= s.len() {
        Seq::empty()
    } else if from + limit < s.len() {
        s.subrange(from, from + limit)
    } else {
        s.subrange(from, s.len() as int)
    }
}

/// An account passes verification when both remote calls answered and the
/// metadata is valid; the balance itself decides nothing.
pub open spec fn verdict(balance: Option<u128>, metadata: Option<MetadataRecord>) -> bool {
    &&& balance.is_some()
    &&& metadata matches Some(m) && m.valid()
}

/// The number of `true` entries.
pub open spec fn count_true(s: Seq<bool>) -> nat
    decreases s.len(),
{
    if s.len() == 0 {
        0
    } else {
        count_true(s.drop_last()) + if s.last() {
            1nat
        } else {
            0nat
        }
    }
}

/// The step from `before` to `after` when the verification of `token` ended
/// with `outcome` (`None` when its result could not be read): an account is
/// admitted, at the end, only when it passed and was not yet present, and the
/// registry is otherwise left as it was.
pub open spec fn admission(
    before: Seq<Seq<char>>,
    after: Seq<Seq<char>>,
    token: Seq<char>,
    outcome: Option<bool>,
    admitted: bool,
) -> bool {
    &&& admitted ==> outcome == Some(true) && !before.contains(token)
    &&& admitted ==> after == before.push(token)
    &&& !admitted ==> after == before
}

/// The registry of admitted token accounts.
pub struct TokenList {
    tokens: AccountSet,
}

impl View for TokenList {
    type V = Seq<Seq<char>>;

    /// The admitted accounts, in enumeration order.
    closed spec fn view(&self) -> Seq<Seq<char>> {
        set_elements(self.tokens)
    }
}

impl Default for TokenList {
    fn default() -> (r: Self)
        ensures
            r.wf(),
            r@ == Seq::<Seq<char>>::empty(),
    {
        TokenList::new()
    }
}

impl TokenList {
    /// No account appears twice, and no slot of the storage set is vacant,
    /// so new accounts are enumerated last.
    pub closed spec fn wf(&self) -> bool {
        &&& set_elements(self.tokens).no_duplicates()
        &&& set_slot_count(self.tokens) == set_elements(self.tokens).len()
    }

    /// An empty registry, stored under the prefix `t`.
    pub fn new() -> (r: Self)
        ensures
            r.wf(),
            r@ == Seq::<Seq<char>>::empty(),
    {
        let prefix: Vec<u8> = vec![116u8];
        TokenList { tokens: set_new(prefix) }
    }

    /// Enumerating the whole registry yields every admitted account once.
    pub proof fn lemma_full_enumeration(&self)
        requires
            self.wf(),
        ensures
            page(self@, 0, self@.len() as int) == self@,
            page(self@, 0, self@.len() as int).len() == self@.len(),
            page(self@, 0, self@.len() as int).no_duplicates(),
    {
        if self@.len() > 0 {
            assert(self@.subrange(0, self@.len() as int) =~= self@);
        }
    }

    /// The number of admitted accounts.
    pub fn len(&self) -> (r: u32)
        ensures
            r == self@.len(),
    {
        set_len(&self.tokens)
    }

    /// Whether the registry's storage lists `token`: every admitted account
    /// is listed, and so may be an account that another registry under the
    /// same storage prefix admitted.
    pub fn contains(&self, token: &String) -> (r: bool)
        ensures
            self@.contains(token@) ==> r,
    {
        set_contains(&self.tokens, token)
    }

    /// Decides a submission of `token` on behalf of `signer`, given whether
    /// the registry answered that it holds it.
    pub fn dispatch_token(listed: bool, token: String, signer: String) -> (r: Dispatch<bool>)
        ensures
            token_dispatch(listed, token@, signer@, r),
    {
        if listed {
            Dispatch::Value(false)
        } else {
            let reqs: Vec<VerificationRequest> = vec![
                VerificationRequest { token: token, holder: signer },
            ];
            proof {
                assert(reqs@.map_values(|q: VerificationRequest| q.token@) =~= seq![token@]);
            }
            Dispatch::Verify(reqs)
        }
    }

    /// Submits one account on behalf of `signer`: an account already admitted
    /// gives `false` at once; any other is to be verified unless the storage
    /// that the registry shares already lists it.
    pub fn add_token(&self, token: String, signer: String) -> (r: Dispatch<bool>)
        ensures
            exists|listed: bool|
                (self@.contains(token@) ==> listed) && #[trigger] token_dispatch(
                    listed,
                    token@,
                    signer@,
                    r,
                ),
            !needs_verification(self@, token@) ==> r == Dispatch::<bool>::Value(false),
    {
        let listed = set_contains(&self.tokens, &token);
        let ghost (t, g) = (token@, signer@);
        let r = Self::dispatch_token(listed, token, signer);
        assert(token_dispatch(listed, t, g, r));
        r
    }

    /// Decides a batch submission on behalf of `signer`, given each identifier
    /// with whether the registry answered that it holds it. An empty batch is
    /// refused. Of the rest, repeats and listed identifiers are dropped before
    /// any remote call; each remaining one is to be verified once, and when
    /// none remains the count of new accounts is 0 at once.
    pub fn dispatch_tokens(candidates: Vec<(String, bool)>, signer: String) -> (r: Result<
        Dispatch<u64>,
        AddTokensError,
    >)
        ensures
            batch_dispatch(
                candidates@.map_values(|c: (String, bool)| c.0@),
                candidates@.map_values(|c: (String, bool)| c.1),
                signer@,
                r,
            ),
    {
        let ghost batch = candidates@.map_values(|c: (String, bool)| c.0@);
        let ghost listed = candidates@.map_values(|c: (String, bool)| c.1);
        if candidates.len() == 0 {
            return Err(AddTokensError::NoTokensProvided);
        }
        let mut reqs: Vec<VerificationRequest> = Vec::new();
        let mut i: usize = 0;
        assert(distinct_unlisted(batch.subrange(0, 0), listed.subrange(0, 0))
            == Seq::<Seq<char>>::empty());
        assert(reqs@.map_values(|q: VerificationRequest| q.token@) =~= Seq::<Seq<char>>::empty());
        while i < candidates.len()
            invariant
                0 <= i <= candidates.len(),
                batch == candidates@.map_values(|c: (String, bool)| c.0@),
                listed == candidates@.map_values(|c: (String, bool)| c.1),
                requests_for(
                    reqs@,
                    distinct_unlisted(batch.subrange(0, i as int), listed.subrange(0, i as int)),
                    signer@,
                ),
            decreases candidates.len() - i,
        {
            let ghost old_reqs = reqs@;
            assert(batch.subrange(0, i + 1).drop_last() =~= batch.subrange(0, i as int));
            assert(listed.subrange(0, i + 1).drop_last() =~= listed.subrange(0, i as int));
            assert(batch.subrange(0, i + 1).last() == candidates@[i as int].0@);
            assert(listed.subrange(0, i + 1)[i as int] == candidates@[i as int].1);
            let token = &candidates[i].0;
            if !candidates[i].1 && !already_requested(&reqs, token) {
                reqs.push(VerificationRequest { token: token.clone(), holder: signer.clone() });
                assert(reqs@.map_values(|q: VerificationRequest| q.token@) =~= old_reqs.map_values(
                    |q: VerificationRequest| q.token@,
                ).push(token@));
            }
            i += 1;
        }
        assert(batch.subrange(0, candidates@.len() as int) =~= batch);
        assert(listed.subrange(0, candidates@.len() as int) =~= listed);
        if reqs.len() == 0 {
            Ok(Dispatch::Value(0))
        } else {
            Ok(Dispatch::Verify(reqs))
        }
    }

    /// Submits a batch on behalf of `signer`, asking the registry about each
    /// identifier; see `dispatch_tokens` for what follows from the answers.
    pub fn add_tokens(&self, tokens: Vec<String>, signer: String) -> (r: Result<
        Dispatch<u64>,
        AddTokensError,
    >)
        ensures
            exists|listed: Seq<bool>|
                answers_cover(self@, identifiers(tokens@), listed) && #[trigger] batch_dispatch(
                    identifiers(tokens@),
                    listed,
                    signer@,
                    r,
                ),
            tokens@.len() == 0 <==> r == Err::<Dispatch<u64>, AddTokensError>(
                AddTokensError::NoTokensProvided,
            ),
    {
        let ghost batch = identifiers(tokens@);
        let mut candidates: Vec<(String, bool)> = Vec::new();
        let mut i: usize = 0;
        while i < tokens.len()
            invariant
                0 <= i <= tokens.len(),
                batch == tokens@.map_values(|t: String| t@),
                candidates@.len() == i,
                forall|j: int| 0 <= j < i ==> (#[trigger] candidates@[j]).0@ == batch[j],
                forall|j: int|
                    0 <= j < i && self@.contains(batch[j]) ==> (#[trigger] candidates@[j]).1,
            decreases tokens.len() - i,
        {
            let listed = set_contains(&self.tokens, &tokens[i]);
            candidates.push((tokens[i].clone(), listed));
            i += 1;
        }
        let ghost listed = candidates@.map_values(|c: (String, bool)| c.1);
        assert(candidates@.map_values(|c: (String, bool)| c.0@) =~= batch);
        assert(answers_cover(self@, batch, listed));
        let r = Self::dispatch_tokens(candidates, signer);
        assert(batch_dispatch(batch, listed, signer@, r));
        r
    }

    /// Up to `limit` admitted accounts, starting at position `from_index` of
    /// the enumeration order; none when `from_index` lies past the end.
    pub fn get_tokens(&self, from_index: u64, limit: u64) -> (r: Vec<String>)
        ensures
            r@.map_values(|t: String| t@) == page(self@, from_index as int, limit as int),
            from_index >= self@.len() ==> r@.len() == 0,
    {
        let keys = set_to_vec(&self.tokens);
        let ghost all = keys@.map_values(|t: String| t@);
        assert(all.len() == keys@.len());
        let n: usize = keys.len();
        let mut out: Vec<String> = Vec::new();
        if from_index as u128 >= n as u128 {
            assert(out@.map_values(|t: String| t@) =~= Seq::<Seq<char>>::empty());
            return out;
        }
        let start: usize = from_index as usize;
        let end: usize = if limit as u128 >= (n - start) as u128 {
            n
        } else {
            start + limit as usize
        };
        let mut i: usize = start;
        while i < end
            invariant
                start <= i <= end <= n,
                n == keys@.len(),
                all == self@,
                all == keys@.map_values(|t: String| t@),
                out@.map_values(|t: String| t@) =~= all.subrange(start as int, i as int),
            decreases end - i,
        {
            let ghost old_out = out@;
            let t = keys[i].clone();
            assert(t@ == all[i as int]);
            out.push(t);
            assert(out@.map_values(|t: String| t@) =~= old_out.map_values(|t: String| t@).push(
                all[i as int],
            ));
            assert(out@.map_values(|t: String| t@) =~= all.subrange(start as int, i + 1));
            i += 1;
        }
        out
    }

    /// Decides a verification from the two answers, `None` standing for a
    /// call that failed: both must have come back and the metadata must be
    /// valid.
    pub fn verify_account_is_token_callback(
        balance: Option<u128>,
        metadata: Option<MetadataRecord>,
    ) -> (r: bool)
        ensures
            r == verdict(balance, metadata),
    {
        match (balance, metadata) {
            (Some(_), Some(m)) => m.is_valid(),
            _ => false,
        }
    }

    /// Acts on the outcome of the verification of `token` (`None` when it
    /// could not be read): a passed account is admitted unless the storage
    /// that the registry shares already lists it. Returns whether it was.
    pub fn add_token_to_list_callback(
        &mut self,
        is_token_account: Option<bool>,
        token: String,
    ) -> (r: bool)
        requires
            old(self).wf(),
            is_token_account == Some(true) ==> old(self)@.len() < u32::MAX,
        ensures
            final(self).wf(),
            admission(old(self)@, final(self)@, token@, is_token_account, r),
    {
        match is_token_account {
            Some(true) => {
                let ghost before = self@;
                let r = set_insert(&mut self.tokens, token);
                proof {
                    if r {
                        assert(self@[before.len() as int] == token@);
                        assert forall|a: int, b: int|
                            0 <= a < self@.len() && 0 <= b < self@.len() && a != b implies self@[a]
                            != self@[b] by {
                            if b == before.len() {
                                assert(before[a] == self@[a]);
                            } else if a == before.len() {
                                assert(before[b] == self@[b]);
                            }
                        }
                    }
                }
                r
            },
            _ => false,
        }
    }

    /// The number of accounts that a batch admitted, given the result of each
    /// of its admissions.
    pub fn add_tokens_callback(admitted: &Vec<bool>) -> (r: u64)
        requires
            admitted@.len() <= u64::MAX,
        ensures
            r == count_true(admitted@),
    {
        let mut count: u64 = 0;
        let mut i: usize = 0;
        assert(admitted@.subrange(0, 0) =~= Seq::<bool>::empty());
        while i < admitted.len()
            invariant
                0 <= i <= admitted@.len() <= u64::MAX,
                count == count_true(admitted@.subrange(0, i as int)),
                count <= i,
            decreases admitted.len() - i,
        {
            assert(admitted@.subrange(0, i + 1).drop_last() =~= admitted@.subrange(0, i as int));
            if admitted[i] {
                count += 1;
            }
            i += 1;
        }
        assert(admitted@.subrange(0, admitted@.len() as int) =~= admitted@);
        count
    }
}

/// Whether one of the requests already names `token`.
fn already_requested(reqs: &Vec<VerificationRequest>, token: &String) -> (r: bool)
    ensures
        r == reqs@.map_values(|q: VerificationRequest| q.token@).contains(token@),
{
    let ghost tokens = reqs@.map_values(|q: VerificationRequest| q.token@);
    let mut i: usize = 0;
    while i < reqs.len()
        invariant
            0 <= i <= reqs.len(),
            tokens == reqs@.map_values(|q: VerificationRequest| q.token@),
            forall|j: int| 0 <= j < i ==> tokens[j] != token@,
        decreases reqs.len() - i,
    {
        if reqs[i].token == *token {
            assert(tokens[i as int] == token@);
            return true;
        }
        i += 1;
    }
    false
}

} // verus!
