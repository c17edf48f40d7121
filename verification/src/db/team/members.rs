//! Who is a member of a team, and who is its captain.
use vstd::prelude::*;

verus! {

/// A member of a team.
#[derive(Debug, Clone, Copy, PartialEq, Eq, Structural)]
pub struct Membership {
    pub user_id: i32,
    pub is_captain: bool,
}

/// Whether a user is among the members.
pub open spec fn is_member(members: Seq<Membership>, user_id: i32) -> bool {
    exists|i: int| 0 <= i < members.len() && (#[trigger] members[i]).user_id == user_id
}

/// The members without one user.
pub open spec fn without(members: Seq<Membership>, user_id: i32) -> Seq<Membership>
    decreases members.len(),
{
    if members.len() == 0 {
        Seq::empty()
    } else {
        let rest = without(members.drop_last(), user_id);
        if members.last().user_id == user_id {
            rest
        } else {
            rest.push(members.last())
        }
    }
}

fn find_member(members: &Vec<Membership>, user_id: i32) -> (r: bool)
    ensures
        r == is_member(members@, user_id),
{
    let mut i: usize = 0;
    while i < members.len()
        invariant
            i <= members@.len(),
            forall|k: int| 0 <= k < i ==> (#[trigger] members@[k]).user_id != user_id,
        decreases members@.len() - i,
    {
        if members[i].user_id == user_id {
            return true;
        }
        i += 1;
    }
    false
}

fn part(members: &Vec<Membership>, is_locked: bool, user_id: i32) -> (r: Option<Vec<Membership>>)
    ensures
        match r {
            Some(rest) => {
                &&& !is_locked
                &&& is_member(members@, user_id)
                &&& rest@ == without(members@, user_id)
            },
            None => is_locked || !is_member(members@, user_id),
        },
{
    if is_locked || !find_member(members, user_id) {
        return None;
    }
    let mut rest: Vec<Membership> = Vec::new();
    let mut i: usize = 0;
    while i < members.len()
        invariant
            i <= members@.len(),
            rest@ == without(members@.take(i as int), user_id),
        decreases members@.len() - i,
    {
        assert(members@.take(i + 1).drop_last() =~= members@.take(i as int));
        assert(members@.take(i + 1).last() == members@[i as int]);
        if members[i].user_id != user_id {
            rest.push(members[i]);
        }
        i += 1;
    }
    assert(members@.take(i as int) =~= members@);
    Some(rest)
}

/// The members after a user has left, if the user may: nobody leaves a team that has started.
pub fn leave(members: &Vec<Membership>, is_locked: bool, user_id: i32) -> (r: Option<
    Vec<Membership>,
>)
    ensures
        match r {
            Some(rest) => {
                &&& !is_locked
                &&& is_member(members@, user_id)
                &&& rest@ == without(members@, user_id)
            },
            None => is_locked || !is_member(members@, user_id),
        },
{
    part(members, is_locked, user_id)
}

/// The members after one of them has been sent away, if that may be: nobody is sent away from a team
/// that has started.
pub fn kick_member(members: &Vec<Membership>, is_locked: bool, user_id: i32) -> (r: Option<
    Vec<Membership>,
>)
    ensures
        match r {
            Some(rest) => {
                &&& !is_locked
                &&& is_member(members@, user_id)
                &&& rest@ == without(members@, user_id)
            },
            None => is_locked || !is_member(members@, user_id),
        },
{
    part(members, is_locked, user_id)
}

/// The members, of whom one user alone is captain.
pub open spec fn led_by(members: Seq<Membership>, user_id: i32) -> Seq<Membership> {
    Seq::new(
        members.len(),
        |i: int| Membership { user_id: members[i].user_id, is_captain: members[i].user_id == user_id },
    )
}

/// The members after one of them has become captain; only a member can.
pub fn promote_member(members: &Vec<Membership>, user_id: i32) -> (r: Option<Vec<Membership>>)
    ensures
        match r {
            Some(led) => is_member(members@, user_id) && led@ == led_by(members@, user_id),
            None => !is_member(members@, user_id),
        },
{
    if !find_member(members, user_id) {
        return None;
    }
    let mut led: Vec<Membership> = Vec::new();
    let mut i: usize = 0;
    while i < members.len()
        invariant
            i <= members@.len(),
            led@ == led_by(members@, user_id).take(i as int),
        decreases members@.len() - i,
    {
        let id = members[i].user_id;
        led.push(Membership { user_id: id, is_captain: id == user_id });
        i += 1;
        assert(led@ =~= led_by(members@, user_id).take(i as int));
    }
    assert(led@ =~= led_by(members@, user_id));
    Some(led)
}

/// Who has left is no longer a member, and everyone else stays what they were.
pub proof fn only_one_parts(members: Seq<Membership>, user_id: i32, member: Membership)
    ensures
        !is_member(without(members, user_id), user_id),
        member.user_id != user_id ==> (without(members, user_id).contains(member)
            <==> members.contains(member)),
    decreases members.len(),
{
    if members.len() > 0 {
        let last = members.last();
        let before = members.drop_last();
        only_one_parts(before, user_id, member);
        let rest = without(before, user_id);
        let all = without(members, user_id);
        if last.user_id != user_id {
            assert(all =~= rest.push(last));
            assert forall|i: int| 0 <= i < all.len() implies (#[trigger] all[i]).user_id
                != user_id by {
                if i < rest.len() {
                    assert(all[i] == rest[i]);
                }
            }
            assert(all[rest.len() as int] == last);
            if rest.contains(member) {
                let k = choose|k: int| 0 <= k < rest.len() && rest[k] == member;
                assert(all[k] == member);
            }
            if all.contains(member) && member != last {
                let k = choose|k: int| 0 <= k < all.len() && all[k] == member;
                assert(rest[k] == member);
            }
        }
        assert(members[members.len() - 1] == last);
        if before.contains(member) {
            let k = choose|k: int| 0 <= k < before.len() && before[k] == member;
            assert(members[k] == member);
        }
        if members.contains(member) && member != last {
            let k = choose|k: int| 0 <= k < members.len() && members[k] == member;
            assert(before[k] == member);
        }
    }
}

/// After a promotion a team has its members and one captain.
pub proof fn a_team_has_one_captain(members: Seq<Membership>, user_id: i32)
    requires
        is_member(members, user_id),
    ensures
        led_by(members, user_id).len() == members.len(),
        forall|i: int|
            0 <= i < members.len() ==> {
                let member = #[trigger] led_by(members, user_id)[i];
                &&& member.user_id == members[i].user_id
                &&& member.is_captain <==> member.user_id == user_id
            },
        led_by(members, user_id).contains(Membership { user_id, is_captain: true }),
        led_by(led_by(members, user_id), user_id) == led_by(members, user_id),
{
    let led = led_by(members, user_id);
    let i = choose|i: int| 0 <= i < members.len() && (#[trigger] members[i]).user_id == user_id;
    assert(led[i] == Membership { user_id, is_captain: true });
    assert(led_by(led, user_id) =~= led);
}

/// Whoever has a membership is a member, and nobody else.
pub proof fn members_are_those_who_joined(members: Seq<Membership>, member: Membership, user_id: i32)
    ensures
        !is_member(Seq::empty(), user_id),
        is_member(members.push(member), user_id) <==> is_member(members, user_id) || member.user_id
            == user_id,
        without(Seq::empty(), user_id).len() == 0,
        member.user_id == user_id ==> without(members.push(member), user_id) == without(
            members,
            user_id,
        ),
        member.user_id != user_id ==> without(members.push(member), user_id) == without(
            members,
            user_id,
        ).push(member),
{
    let all = members.push(member);
    assert(all.drop_last() =~= members);
    assert(all[members.len() as int] == member);
    if is_member(members, user_id) {
        let i = choose|i: int| 0 <= i < members.len() && (#[trigger] members[i]).user_id == user_id;
        assert(all[i] == members[i]);
    }
    if is_member(all, user_id) {
        let i = choose|i: int| 0 <= i < all.len() && (#[trigger] all[i]).user_id == user_id;
        if i < members.len() {
            assert(members[i] == all[i]);
        }
    }
}

} // verus!
