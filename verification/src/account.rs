//! The tracked-account registry: a fixed list of accounts whose posts the
//! relay watches, and the lookup from an account id to its display name.

use vstd::prelude::*;

verus! {

/// One tracked account: the display name used in outgoing messages and the
/// account id the search API knows it by.
pub struct TrackedAccount {
    pub name: String,
    pub id: u64,
}

/// The display name registered for `id`: the name of the first account in
/// `users` with that id, or `None` when no account has it.
pub open spec fn spec_name_of(users: Seq<TrackedAccount>, id: u64) -> Option<Seq<char>>
    decreases users.len(),
{
    if users.len() == 0 {
        None::<Seq<char>>
    } else if users[0].id == id {
        Some(users[0].name@)
    } else {
        spec_name_of(users.drop_first(), id)
    }
}

/// Looks up the display name registered for `id`.  The caller treats
/// `None` as a fatal registry/query desync.
pub fn get_name_from_id(id: u64, users: &Vec<TrackedAccount>) -> (r: Option<&String>)
    ensures
        match r {
            Some(n) => spec_name_of(users@, id) == Some(n@),
            None => spec_name_of(users@, id) is None,
        },
{
    let ghost all = users@;
    proof {
        assert(all.skip(0) =~= all);
    }
    let mut i: usize = 0;
    while i < users.len()
        invariant
            0 <= i <= users.len(),
            all == users@,
            spec_name_of(all, id) == spec_name_of(all.skip(i as int), id),
        decreases users.len() - i,
    {
        let u = &users[i];
        if u.id == id {
            proof {
                assert(all.skip(i as int)[0] == all[i as int]);
            }
            return Some(&u.name);
        }
        proof {
            assert(all.skip(i as int).drop_first() =~= all.skip(i + 1));
        }
        i = i + 1;
    }
    proof {
        assert(all.skip(users.len() as int) =~= Seq::<TrackedAccount>::empty());
    }
    None
}

} // verus!
