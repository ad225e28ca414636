//! The search query: one `from:` filter term per tracked account, joined
//! with a logical OR.  Built once at startup; deterministic in the account
//! list.

use vstd::prelude::*;
use vstd::string::StringExecFns;
use crate::account::TrackedAccount;
use crate::numeral::dec_seq;
use crate::numeral::u64_to_dec;

verus! {

/// The filter term selecting posts authored by `u`.
pub open spec fn from_term(u: TrackedAccount) -> Seq<char> {
    "from:"@ + dec_seq(u.id as nat)
}

/// The whole query: the accounts' filter terms joined with `" OR "`.
pub open spec fn spec_query(users: Seq<TrackedAccount>) -> Seq<char>
    decreases users.len(),
{
    if users.len() == 0 {
        Seq::<char>::empty()
    } else if users.len() == 1 {
        from_term(users[0])
    } else {
        spec_query(users.drop_last()) + " OR "@ + from_term(users.last())
    }
}

/// Builds the search query selecting posts authored by any account in
/// `users`.
pub fn build_query_of_tweets_from_multiple_users(users: &Vec<TrackedAccount>) -> (q: String)
    ensures
        q@ == spec_query(users@),
{
    let mut q = String::new();
    proof {
        assert(q@ =~= spec_query(users@.subrange(0, 0)));
    }
    let mut i: usize = 0;
    while i < users.len()
        invariant
            0 <= i <= users.len(),
            q@ == spec_query(users@.subrange(0, i as int)),
        decreases users.len() - i,
    {
        if i > 0 {
            q.append(" OR ");
        }
        q.append("from:");
        let d = u64_to_dec(users[i].id);
        q.append(d.as_str());
        proof {
            let pre = users@.subrange(0, i as int);
            let pre1 = users@.subrange(0, i + 1);
            assert(pre1.drop_last() =~= pre);
            assert(pre1.last() == users@[i as int]);
            if i == 0 {
                assert(q@ =~= from_term(pre1[0]));
            } else {
                assert(q@ =~= spec_query(pre) + " OR "@ + from_term(pre1.last()));
            }
        }
        i = i + 1;
    }
    proof {
        assert(users@.subrange(0, users.len() as int) =~= users@);
    }
    q
}

} // verus!
