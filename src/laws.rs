use crate::metadata::{MetadataRecord, REFERENCE_HASH_LEN};
use crate::token_list::{admission, count_true, distinct_unlisted, needs_verification, verdict};
use vstd::prelude::*;

verus! {

/// Once an account has been admitted, submitting it again asks for no
/// verification: the registry holds it, once more than before.
pub proof fn lemma_add_token_idempotent(
    before: Seq<Seq<char>>,
    after: Seq<Seq<char>>,
    token: Seq<char>,
)
    requires
        admission(before, after, token, Some(true), true),
    ensures
        after.contains(token),
        !needs_verification(after, token),
        after.len() == before.len() + 1,
{
    assert(after[before.len() as int] == token);
}

/// A batch asks for one verification per distinct identifier that the
/// registry's answers leave unlisted, and for no other.
pub proof fn lemma_batch_dedup(batch: Seq<Seq<char>>, listed: Seq<bool>)
    requires
        listed.len() == batch.len(),
    ensures
        distinct_unlisted(batch, listed).no_duplicates(),
        forall|x: Seq<char>|
            #![auto]
            distinct_unlisted(batch, listed).contains(x) <==> exists|i: int|
                0 <= i < batch.len() && batch[i] == x && !listed[i],
        distinct_unlisted(batch, listed).len() <= batch.len(),
    decreases batch.len(),
{
    if batch.len() > 0 {
        let n = batch.len() - 1;
        let rest = batch.drop_last();
        let rest_listed = listed.drop_last();
        lemma_batch_dedup(rest, rest_listed);
        let x = batch.last();
        let prev = distinct_unlisted(rest, rest_listed);
        let cur = distinct_unlisted(batch, listed);
        assert forall|y: Seq<char>| #![auto] cur.contains(y) <==> exists|i: int|
            0 <= i < batch.len() && batch[i] == y && !listed[i] by {
            if cur.contains(y) {
                if prev.contains(y) {
                    let i = choose|i: int| 0 <= i < rest.len() && rest[i] == y && !rest_listed[i];
                    assert(0 <= i < batch.len() && batch[i] == y && !listed[i]);
                } else {
                    let j = choose|j: int| 0 <= j < cur.len() && cur[j] == y;
                    assert(cur == prev.push(x));
                    if j < prev.len() {
                        assert(prev[j] == y);
                    }
                    assert(0 <= n < batch.len() && batch[n] == y && !listed[n]);
                }
            }
            if exists|i: int| 0 <= i < batch.len() && batch[i] == y && !listed[i] {
                let i = choose|i: int| 0 <= i < batch.len() && batch[i] == y && !listed[i];
                if i < n {
                    assert(0 <= i < rest.len() && rest[i] == y && !rest_listed[i]);
                    assert(prev.contains(y));
                    if cur != prev {
                        assert(cur == prev.push(x));
                        let k = choose|k: int| 0 <= k < prev.len() && prev[k] == y;
                        assert(cur[k] == y);
                    }
                } else if !prev.contains(y) {
                    assert(cur == prev.push(x));
                    assert(cur[prev.len() as int] == y);
                }
            }
        }
    }
}

/// No more `true` entries than entries.
proof fn lemma_count_true_bounded(s: Seq<bool>)
    ensures
        count_true(s) <= s.len(),
    decreases s.len(),
{
    if s.len() > 0 {
        lemma_count_true_bounded(s.drop_last());
    }
}

/// A batch admits at most as many accounts as it holds distinct identifiers
/// that the registry's answers left unlisted: one outcome comes back per
/// verification requested, and the count is that of the admissions among them.
pub proof fn lemma_accepted_at_most_distinct_new(
    batch: Seq<Seq<char>>,
    listed: Seq<bool>,
    outcomes: Seq<bool>,
)
    requires
        listed.len() == batch.len(),
        outcomes.len() == distinct_unlisted(batch, listed).len(),
    ensures
        count_true(outcomes) <= distinct_unlisted(batch, listed).len(),
        distinct_unlisted(batch, listed).len() <= batch.len(),
{
    lemma_count_true_bounded(outcomes);
    lemma_batch_dedup(batch, listed);
}

/// Metadata with a reference but no reference hash, or a hash but no
/// reference, fails verification whatever the balance call gave.
pub proof fn lemma_reference_mismatch_rejects(balance: Option<u128>, m: MetadataRecord)
    requires
        m.reference.is_some() != m.reference_hash.is_some(),
    ensures
        !verdict(balance, Some(m)),
{
}

/// Metadata whose reference hash is not 32 bytes long fails verification
/// whatever the balance call gave.
pub proof fn lemma_bad_hash_length_rejects(balance: Option<u128>, m: MetadataRecord)
    requires
        m.reference_hash matches Some(h) && h@.len() != REFERENCE_HASH_LEN,
    ensures
        !verdict(balance, Some(m)),
{
}

} // verus!
