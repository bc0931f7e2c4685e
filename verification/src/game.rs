//! The trial engine: one complete play of the Monty Hall game, from door
//! setup through the host's reveal and the contestant's decision to the
//! scored outcome.

use vstd::prelude::*;

verus! {

/// A contestant policy, fixed for a whole run.
#[derive(Debug, PartialEq, Eq, Structural)]
pub enum Strategy {
    Swap,
    Stay,
}

/// The terminal result of one trial.
#[derive(Debug, PartialEq, Eq, Structural)]
pub enum Outcome {
    Win,
    Lose,
}

/// One door: a stable identifying number and whether the prize is behind it.
#[derive(Debug, PartialEq, Eq, Structural)]
pub struct Door {
    pub number: i32,
    pub prize: bool,
}

/// Every outcome is exactly one of `Win` and `Lose`: never both, never
/// neither.
pub proof fn lemma_outcome_exclusive(o: Outcome)
    ensures
        o is Win <==> !(o is Lose),
{
}

/// Relies on `rand::RngExt::random_range` over the thread-local generator
/// `rand::rng()`: a draw from the non-empty range `0..n` lies in that range,
/// and the call panics only on an empty range, which `n >= 1` rules out.
#[verifier::external_body]
fn rand_below(n: usize) -> (r: usize)
    requires
        n >= 1,
    ensures
        r < n,
{
    rand::RngExt::random_range(&mut rand::rng(), 0..n)
}

/// The prize sits behind the door at position `p` and behind no other.
pub open spec fn prize_only_at(s: Seq<Door>, p: int) -> bool {
    forall|i: int| 0 <= i < s.len() ==> ((#[trigger] s[i]).prize <==> i == p)
}

/// Exactly one door of `s` hides the prize.
pub open spec fn one_prize(s: Seq<Door>) -> bool {
    exists|p: int| 0 <= p < s.len() && #[trigger] prize_only_at(s, p)
}

/// Builds the full door set for one trial: doors numbered `0` up to
/// `total_doors - 1` in order, with the prize behind exactly one of them,
/// drawn uniformly at random.
pub fn generate_doors(total_doors: i32) -> (r: Vec<Door>)
    requires
        total_doors >= 1,
    ensures
        r@.len() == total_doors as int,
        forall|i: int| 0 <= i < r@.len() ==> (#[trigger] r@[i]).number == i,
        one_prize(r@),
{
    let mut doors: Vec<Door> = Vec::new();
    let num: i32 = rand_below(total_doors as usize) as i32;
    let mut count: i32 = 0;
    while count < total_doors
        invariant
            0 <= count <= total_doors,
            0 <= num < total_doors,
            doors@.len() == count as int,
            forall|i: int| 0 <= i < doors@.len() ==> (#[trigger] doors@[i]).number == i,
            forall|i: int|
                0 <= i < doors@.len() ==> ((#[trigger] doors@[i]).prize <==> i == num as int),
        decreases total_doors - count,
    {
        if count == num {
            doors.push(Door { number: count, prize: true });
        } else {
            doors.push(Door { number: count, prize: false });
        }
        count = count + 1;
    }
    proof {
        assert(prize_only_at(doors@, num as int));
    }
    doors
}

/// The host's reveal: picks uniformly at random among the doors that are
/// neither the contestant's current pick nor the prize door, and removes
/// the picked one. The removed door is never the chosen one and never
/// hides the prize.
pub fn reveal_door(doors: Vec<Door>, chosen_door: usize) -> (r: Vec<Door>)
    requires
        doors@.len() >= 3,
        chosen_door < doors@.len(),
        exists|k: int| 0 <= k < doors@.len() && k != chosen_door && !doors@[k].prize,
    ensures
        r@.len() == doors@.len() - 1,
        exists|k: int|
            0 <= k < doors@.len() && k != chosen_door && !doors@[k].prize && r@
                == #[trigger] doors@.remove(k),
{
    let ghost k0: int = choose|k: int|
        0 <= k < doors@.len() && k != chosen_door && !doors@[k].prize;
    let mut candidates: Vec<usize> = Vec::new();
    let mut i: usize = 0;
    while i < doors.len()
        invariant
            chosen_door < doors@.len(),
            i <= doors@.len(),
            0 <= k0 < doors@.len() && k0 != chosen_door && !doors@[k0].prize,
            k0 < i ==> candidates@.len() >= 1,
            forall|j: int|
                0 <= j < candidates@.len() ==> {
                    let c = (#[trigger] candidates@[j]) as int;
                    0 <= c < doors@.len() && c != chosen_door && !doors@[c].prize
                },
        decreases doors@.len() - i,
    {
        if i != chosen_door && !doors[i].prize {
            candidates.push(i);
        }
        i = i + 1;
    }
    let revealed_door = candidates[rand_below(candidates.len())];
    let mut doors = doors;
    let ghost orig = doors@;
    doors.remove(revealed_door);
    proof {
        let k = revealed_door as int;
        assert(0 <= k < orig.len() && k != chosen_door && !orig[k].prize && doors@ == orig.remove(
            k,
        ));
    }
    doors
}

/// The host's reveal removes neither the contestant's door nor any prize
/// door: whenever a set `post` came from `pre` by removing a door other
/// than the chosen one that hides no prize, the chosen door and every
/// prize door still stand in `post`.
pub proof fn lemma_reveal_preserves(pre: Seq<Door>, post: Seq<Door>, chosen: int, k: int)
    requires
        0 <= chosen < pre.len(),
        0 <= k < pre.len(),
        k != chosen,
        !pre[k].prize,
        post == pre.remove(k),
    ensures
        exists|j: int| 0 <= j < post.len() && #[trigger] post[j] == pre[chosen],
        forall|i: int|
            0 <= i < pre.len() && (#[trigger] pre[i]).prize ==> exists|j: int|
                0 <= j < post.len() && #[trigger] post[j] == pre[i],
{
    if chosen < k {
        assert(post[chosen] == pre[chosen]);
    } else {
        assert(post[chosen - 1] == pre[chosen]);
    }
    assert forall|i: int| 0 <= i < pre.len() && (#[trigger] pre[i]).prize implies exists|j: int|
        0 <= j < post.len() && #[trigger] post[j] == pre[i] by {
        if i < k {
            assert(post[i] == pre[i]);
        } else {
            assert(post[i - 1] == pre[i]);
        }
    }
}

/// The contestant swaps: picks uniformly at random among the doors whose
/// number differs from the held one, and takes that door's position.
pub fn choose_new_door(doors: &Vec<Door>, held_number: i32) -> (r: usize)
    requires
        exists|k: int| 0 <= k < doors@.len() && doors@[k].number != held_number,
    ensures
        r < doors@.len(),
        doors@[r as int].number != held_number,
{
    let ghost k0: int = choose|k: int| 0 <= k < doors@.len() && doors@[k].number != held_number;
    let mut candidates: Vec<usize> = Vec::new();
    let mut i: usize = 0;
    while i < doors.len()
        invariant
            i <= doors@.len(),
            0 <= k0 < doors@.len() && doors@[k0].number != held_number,
            k0 < i ==> candidates@.len() >= 1,
            forall|j: int|
                0 <= j < candidates@.len() ==> {
                    let c = (#[trigger] candidates@[j]) as int;
                    0 <= c < doors@.len() && doors@[c].number != held_number
                },
        decreases doors@.len() - i,
    {
        if doors[i].number != held_number {
            candidates.push(i);
        }
        i = i + 1;
    }
    candidates[rand_below(candidates.len())]
}

/// The contestant stays: keeps the held door, at whatever position it
/// now occupies.
pub fn choose_same_door(doors: &Vec<Door>, held_number: i32) -> (r: usize)
    requires
        exists|k: int| 0 <= k < doors@.len() && doors@[k].number == held_number,
    ensures
        r < doors@.len(),
        doors@[r as int].number == held_number,
{
    let ghost k0: int = choose|k: int| 0 <= k < doors@.len() && doors@[k].number == held_number;
    let n = doors.len();
    let mut i: usize = 0;
    while doors[i].number != held_number
        invariant
            n == doors@.len(),
            0 <= k0 < n as int && doors@[k0].number == held_number,
            i <= k0,
        decreases n - i,
    {
        i = i + 1;
    }
    i
}

/// Scores the final pick: the prize flag of the door the contestant
/// holds at the end determines the outcome, a win exactly when the flag
/// is set.
pub fn score(has_prize: bool) -> (r: Outcome)
    ensures
        r is Win <==> has_prize,
{
    if has_prize {
        Outcome::Win
    } else {
        Outcome::Lose
    }
}

/// One complete trial: build the doors, pick one at random, reveal a
/// losing door, apply the strategy to the held door's number, and score
/// the final pick.
pub fn play(strategy: &Strategy, total_doors: i32) -> (r: Outcome)
    requires
        total_doors >= 3,
    ensures
        r is Win <==> !(r is Lose),
{
    let doors = generate_doors(total_doors);
    let first_pick = rand_below(doors.len());
    let held_number: i32 = doors[first_pick].number;
    proof {
        let p = choose|p: int| 0 <= p < doors@.len() && #[trigger] prize_only_at(doors@, p);
        let c = first_pick as int;
        let w: int = if p != 0 && c != 0 {
            0
        } else if p != 1 && c != 1 {
            1
        } else {
            2
        };
        assert(0 <= w < doors@.len() && w != c && !doors@[w].prize);
    }
    let ghost pre = doors@;
    let doors = reveal_door(doors, first_pick);
    proof {
        let k = choose|k: int|
            0 <= k < pre.len() && k != first_pick && !pre[k].prize && doors@ == pre.remove(k);
        let c = first_pick as int;
        if c < k {
            assert(doors@[c] == pre[c]);
        } else {
            assert(doors@[c - 1] == pre[c]);
        }
        if k == 0 {
            assert(doors@[0] == pre[1] && doors@[1] == pre[2]);
        } else if k == 1 {
            assert(doors@[0] == pre[0] && doors@[1] == pre[2]);
        } else {
            assert(doors@[0] == pre[0] && doors@[1] == pre[1]);
        }
        assert(doors@[0].number != doors@[1].number);
    }
    let final_pick: usize = match strategy {
        Strategy::Swap => choose_new_door(&doors, held_number),
        Strategy::Stay => choose_same_door(&doors, held_number),
    };
    score(doors[final_pick].prize)
}

} // verus!
