//! Saved login profiles. A profile names a user and may hold the password;
//! there is at most one profile per user name.

use vstd::prelude::*;

verus! {

/// A saved login.
#[derive(Debug, Clone)]
pub struct Profile {
    pub name: String,
    pub username: String,
    pub password: Option<String>,
}

/// `ps` without the profiles of user `u`.
pub open spec fn without_user(ps: Seq<Profile>, u: Seq<char>) -> Seq<Profile>
    decreases ps.len(),
{
    if ps.len() == 0 {
        Seq::empty()
    } else if ps.last().username@ == u {
        without_user(ps.drop_last(), u)
    } else {
        without_user(ps.drop_last(), u).push(ps.last())
    }
}

/// No two profiles have the same user name.
pub open spec fn unique_users(ps: Seq<Profile>) -> bool {
    forall|i: int, j: int|
        0 <= i < ps.len() && 0 <= j < ps.len() && i != j ==> (#[trigger] ps[i]).username@
            != (#[trigger] ps[j]).username@
}

fn remove_user(profiles: &mut Vec<Profile>, username: &String)
    ensures
        final(profiles)@ == without_user(old(profiles)@, username@),
{
    let ghost ps = profiles@;
    let ghost mut j: int = 0;
    let mut i: usize = 0;
    assert(ps.take(0) =~= Seq::<Profile>::empty());
    assert(profiles@ =~= without_user(ps.take(0), username@) + ps.skip(0));
    while i < profiles.len()
        invariant
            0 <= j <= ps.len(),
            i == without_user(ps.take(j), username@).len(),
            profiles@ == without_user(ps.take(j), username@) + ps.skip(j),
        decreases profiles@.len() - i,
    {
        let ghost kept = without_user(ps.take(j), username@);
        assert(ps.take(j + 1).drop_last() =~= ps.take(j));
        assert(profiles@[i as int] == ps[j]);
        if profiles[i].username == *username {
            profiles.remove(i);
            proof {
                assert(profiles@ =~= kept + ps.skip(j + 1));
                j = j + 1;
            }
        } else {
            i = i + 1;
            proof {
                assert(profiles@ =~= kept.push(ps[j]) + ps.skip(j + 1));
                j = j + 1;
            }
        }
    }
    assert(j == ps.len()) by {
        if j < ps.len() {
            assert(profiles@.len() > i);
        }
    }
    assert(ps.take(j) =~= ps);
    assert(profiles@ =~= without_user(ps, username@));
}

/// Adds `profile`, replacing any profile of the same user; it goes last.
pub fn add_profile(profiles: &mut Vec<Profile>, profile: Profile)
    ensures
        final(profiles)@ == without_user(old(profiles)@, profile.username@).push(profile),
{
    remove_user(profiles, &profile.username);
    profiles.push(profile);
}

/// Removes the profiles of user `username`.
pub fn remove_profile(profiles: &mut Vec<Profile>, username: &str)
    ensures
        final(profiles)@ == without_user(old(profiles)@, username@),
{
    let u = username.to_owned();
    remove_user(profiles, &u);
}

proof fn lemma_without_user(ps: Seq<Profile>, u: Seq<char>)
    ensures
        forall|k: int|
            0 <= k < without_user(ps, u).len() ==> (#[trigger] without_user(ps, u)[k]).username@
                != u,
        forall|k: int|
            0 <= k < without_user(ps, u).len() ==> ps.contains(#[trigger] without_user(ps, u)[k]),
        unique_users(ps) ==> unique_users(without_user(ps, u)),
    decreases ps.len(),
{
    if ps.len() > 0 {
        let d = ps.drop_last();
        let r = without_user(d, u);
        lemma_without_user(d, u);
        assert forall|k: int| 0 <= k < r.len() implies ps.contains(#[trigger] r[k]) by {
            let i = choose|i: int| 0 <= i < d.len() && d[i] == r[k];
            assert(ps[i] == r[k]);
        }
        if ps.last().username@ != u {
            let l = ps.last();
            assert forall|k: int| 0 <= k < r.push(l).len() implies ps.contains(
                #[trigger] r.push(l)[k],
            ) by {
                if k < r.len() {
                    assert(r.push(l)[k] == r[k]);
                } else {
                    assert(ps[ps.len() - 1] == l);
                }
            }
            if unique_users(ps) {
                assert(unique_users(d)) by {
                    assert forall|i: int, j: int|
                        0 <= i < d.len() && 0 <= j < d.len() && i != j implies (#[trigger] d[i]).username@
                        != (#[trigger] d[j]).username@ by {
                        assert(ps[i] == d[i] && ps[j] == d[j]);
                    }
                }
                assert forall|i: int, j: int|
                    0 <= i < r.push(l).len() && 0 <= j < r.push(l).len() && i != j implies (
                    #[trigger] r.push(l)[i]).username@ != (#[trigger] r.push(l)[j]).username@ by {
                    if i < r.len() && j < r.len() {
                        assert(r.push(l)[i] == r[i] && r.push(l)[j] == r[j]);
                    } else if i < r.len() {
                        let a = choose|a: int| 0 <= a < d.len() && d[a] == r[i];
                        assert(ps[a] == r[i]);
                        assert(ps[ps.len() - 1] == l);
                    } else {
                        let a = choose|a: int| 0 <= a < d.len() && d[a] == r[j];
                        assert(ps[a] == r[j]);
                        assert(ps[ps.len() - 1] == l);
                    }
                }
            }
        } else {
            if unique_users(ps) {
                assert(unique_users(d)) by {
                    assert forall|i: int, j: int|
                        0 <= i < d.len() && 0 <= j < d.len() && i != j implies (#[trigger] d[i]).username@
                        != (#[trigger] d[j]).username@ by {
                        assert(ps[i] == d[i] && ps[j] == d[j]);
                    }
                }
            }
        }
    }
}

/// Adding a profile keeps one profile per user name, and the user's profile
/// is then the one added; removing a user leaves no profile of it.
pub proof fn law_one_profile_per_user(ps: Seq<Profile>, p: Profile, u: Seq<char>)
    requires
        unique_users(ps),
    ensures
        unique_users(without_user(ps, p.username@).push(p)),
        without_user(ps, p.username@).push(p).last() == p,
        forall|k: int|
            0 <= k < without_user(ps, p.username@).len() ==> (#[trigger] without_user(
                ps,
                p.username@,
            )[k]).username@ != p.username@,
        unique_users(without_user(ps, u)),
        forall|k: int|
            0 <= k < without_user(ps, u).len() ==> (#[trigger] without_user(ps, u)[k]).username@
                != u,
{
    lemma_without_user(ps, p.username@);
    lemma_without_user(ps, u);
    let r = without_user(ps, p.username@);
    assert forall|i: int, j: int|
        0 <= i < r.push(p).len() && 0 <= j < r.push(p).len() && i != j implies (
        #[trigger] r.push(p)[i]).username@ != (#[trigger] r.push(p)[j]).username@ by {
        if i < r.len() && j < r.len() {
            assert(r.push(p)[i] == r[i] && r.push(p)[j] == r[j]);
        } else if i < r.len() {
            assert(r.push(p)[i] == r[i]);
        } else {
            assert(r.push(p)[j] == r[j]);
        }
    }
}

} // verus!
