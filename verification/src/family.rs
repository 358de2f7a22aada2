//! Single families that keep having children until they have a boy, and the
//! totals over many such families.
//!
//! A family is a tally `(boys, girls)`. One round of a family is one child;
//! the rounds go on until the first boy.

use vstd::prelude::*;

use crate::country::fits_i32;
use crate::rng::new_thread_rng;
use crate::rng::thread_ratio;

verus! {

/// Where a family stands after one round.
#[derive(Clone, Copy, Debug, PartialEq, Eq, Structural)]
pub enum Round {
    /// A girl was born, or none; the family tries again.
    Continue(i32, i32),
    /// A boy was born; the family is complete.
    Done(i32, i32),
}

/// One round of a family that has children until the first boy: a boy
/// completes it, a girl is added to the tally.
pub open spec fn until_boy(tally: (i32, i32), is_boy: bool) -> Round {
    if is_boy {
        Round::Done((tally.0 + 1) as i32, tally.1)
    } else {
        Round::Continue(tally.0, (tally.1 + 1) as i32)
    }
}

/// One round of a family that has children until the first boy, and in
/// which a girl may be killed at birth: a boy completes it, a girl that is
/// kept is added to the tally, a girl that is killed leaves it as it was.
pub open spec fn until_boy_second(tally: (i32, i32), is_boy: bool, killed: bool) -> Round {
    if is_boy {
        Round::Done((tally.0 + 1) as i32, tally.1)
    } else if killed {
        Round::Continue(tally.0, tally.1)
    } else {
        Round::Continue(tally.0, (tally.1 + 1) as i32)
    }
}

/// The next round, given the child: see `until_boy`.
pub fn birth_step(tally: (i32, i32), is_boy: bool) -> (r: Round)
    requires
        is_boy ==> tally.0 < i32::MAX,
        !is_boy ==> tally.1 < i32::MAX,
    ensures
        r == until_boy(tally, is_boy),
{
    let mut b_and_g = tally;
    if is_boy {
        b_and_g.0 = b_and_g.0 + 1;
        Round::Done(b_and_g.0, b_and_g.1)
    } else {
        b_and_g.1 = b_and_g.1 + 1;
        Round::Continue(b_and_g.0, b_and_g.1)
    }
}

/// The next round, given the child and whether a girl is killed: see
/// `until_boy_second`.
pub fn birth_second_step(tally: (i32, i32), is_boy: bool, shall_we_kill: bool) -> (r: Round)
    requires
        is_boy ==> tally.0 < i32::MAX,
        !is_boy && !shall_we_kill ==> tally.1 < i32::MAX,
    ensures
        r == until_boy_second(tally, is_boy, shall_we_kill),
{
    let mut b_and_g = tally;
    if is_boy {
        b_and_g.0 = b_and_g.0 + 1;
        Round::Done(b_and_g.0, b_and_g.1)
    } else {
        if !shall_we_kill {
            b_and_g.1 = b_and_g.1 + 1
        }
        Round::Continue(b_and_g.0, b_and_g.1)
    }
}

/// The tally has room for the child `is_boy` brings.
pub open spec fn step_fits(tally: (i32, i32), is_boy: bool) -> bool {
    if is_boy {
        tally.0 < i32::MAX
    } else {
        tally.1 < i32::MAX
    }
}

/// The tally has room for the child `is_boy` brings, where a killed girl
/// brings none.
pub open spec fn second_step_fits(tally: (i32, i32), is_boy: bool, killed: bool) -> bool {
    if is_boy {
        tally.0 < i32::MAX
    } else if killed {
        true
    } else {
        tally.1 < i32::MAX
    }
}

/// The next round, given the child, or `None` when the tally has no room
/// for it.
pub fn try_birth_step(tally: (i32, i32), is_boy: bool) -> (r: Option<Round>)
    ensures
        r == if step_fits(tally, is_boy) {
            Some(until_boy(tally, is_boy))
        } else {
            None
        },
{
    if (is_boy && tally.0 == i32::MAX) || (!is_boy && tally.1 == i32::MAX) {
        return None;
    }
    Some(birth_step(tally, is_boy))
}

/// The next round, given the child and whether a girl is killed, or `None`
/// when the tally has no room for it.
pub fn try_birth_second_step(tally: (i32, i32), is_boy: bool, shall_we_kill: bool) -> (r: Option<
    Round,
>)
    ensures
        r == if second_step_fits(tally, is_boy, shall_we_kill) {
            Some(until_boy_second(tally, is_boy, shall_we_kill))
        } else {
            None
        },
{
    if (is_boy && tally.0 == i32::MAX) || (!is_boy && !shall_we_kill && tally.1 == i32::MAX) {
        return None;
    }
    Some(birth_second_step(tally, is_boy, shall_we_kill))
}

/// A family that has children until the first boy, each a boy or a girl
/// with even chances: it ends with one boy and the girls born before him.
/// `None` when the girls would outgrow an `i32` before a boy comes.
pub fn birth() -> (r: Option<(i32, i32)>)
    ensures
        r matches Some(t) ==> t.0 == 1 && 0 <= t.1 && exists|draws: Seq<bool>|
            #[trigger] run_until_boy((0, 0), draws) == Some(t),
{
    let mut rng = new_thread_rng();
    let mut b_and_g: (i32, i32) = (0, 0);
    let ghost mut draws: Seq<bool> = Seq::empty();
    loop
        invariant
            b_and_g.0 == 0,
            0 <= b_and_g.1,
            forall|i: int| 0 <= i < draws.len() ==> !#[trigger] draws[i],
            girls_after((0, 0), draws) == b_and_g,
        decreases i32::MAX - b_and_g.1,
    {
        let is_boy = thread_ratio(&mut rng, 1, 2);
        match try_birth_step(b_and_g, is_boy) {
            None => {
                return None;
            },
            Some(Round::Done(b, g)) => {
                proof {
                    lemma_run_after_girls((0, 0), draws, seq![true]);
                    assert(draws + seq![true] =~= draws.push(true));
                    assert(run_until_boy((0, 0), draws.push(true)) == Some((b, g)));
                }
                return Some((b, g));
            },
            Some(Round::Continue(b, g)) => {
                proof {
                    lemma_girls_after_push((0, 0), draws, false);
                    draws = draws.push(false);
                }
                b_and_g = (b, g);
            },
        }
    }
}

/// A family that has children until the first boy, each a boy or a girl
/// with even chances, and that kills a girl at birth with chance 1 in 5: it
/// ends with one boy and the girls kept before him. `None` when the girls
/// would outgrow an `i32` before a boy comes, or after `u64::MAX` rounds
/// without a boy.
pub fn birth_second() -> (r: Option<(i32, i32)>)
    ensures
        r matches Some(t) ==> t.0 == 1 && 0 <= t.1 && exists|draws: Seq<(bool, bool)>|
            #[trigger] run_until_boy_second((0, 0), draws) == Some(t),
{
    let mut rng = new_thread_rng();
    let mut b_and_g: (i32, i32) = (0, 0);
    let mut rounds: u64 = 0;
    let ghost mut draws: Seq<(bool, bool)> = Seq::empty();
    loop
        invariant
            b_and_g.0 == 0,
            0 <= b_and_g.1,
            forall|i: int| 0 <= i < draws.len() ==> !(#[trigger] draws[i]).0,
            kept_after((0, 0), draws) == b_and_g,
        decreases u64::MAX - rounds,
    {
        if rounds == u64::MAX {
            return None;
        }
        rounds = rounds + 1;
        let is_boy = thread_ratio(&mut rng, 1, 2);
        let shall_we_kill = if is_boy {
            false
        } else {
            thread_ratio(&mut rng, 1, 5)
        };
        match try_birth_second_step(b_and_g, is_boy, shall_we_kill) {
            None => {
                return None;
            },
            Some(Round::Done(b, g)) => {
                proof {
                    lemma_run_after_kept((0, 0), draws, seq![(true, false)]);
                    assert(draws + seq![(true, false)] =~= draws.push((true, false)));
                    assert(run_until_boy_second((0, 0), draws.push((true, false))) == Some((b, g)));
                }
                return Some((b, g));
            },
            Some(Round::Continue(b, g)) => {
                proof {
                    lemma_kept_after_push((0, 0), draws, (false, shall_we_kill));
                    draws = draws.push((false, shall_we_kill));
                }
                b_and_g = (b, g);
            },
        }
    }
}

/// The tally after the girls `draws` (all false), from `tally`.
pub open spec fn girls_after(tally: (i32, i32), draws: Seq<bool>) -> (i32, i32)
    decreases draws.len(),
{
    if draws.len() == 0 {
        tally
    } else {
        girls_after((tally.0, (tally.1 + 1) as i32), draws.drop_first())
    }
}

/// The tally after the draws `(is_boy, killed)` of girls, from `tally`:
/// the kept ones counted.
pub open spec fn kept_after(tally: (i32, i32), draws: Seq<(bool, bool)>) -> (i32, i32)
    decreases draws.len(),
{
    if draws.len() == 0 {
        tally
    } else {
        kept_after(
            if draws[0].1 {
                tally
            } else {
                (tally.0, (tally.1 + 1) as i32)
            },
            draws.drop_first(),
        )
    }
}

proof fn lemma_girls_after_push(tally: (i32, i32), draws: Seq<bool>, x: bool)
    ensures
        girls_after(tally, draws.push(x)) == (girls_after(tally, draws).0, (girls_after(
            tally,
            draws,
        ).1 + 1) as i32),
    decreases draws.len(),
{
    if draws.len() > 0 {
        assert(draws.push(x).drop_first() =~= draws.drop_first().push(x));
        let next = (tally.0, (tally.1 + 1) as i32);
        lemma_girls_after_push(next, draws.drop_first(), x);
        assert(girls_after(tally, draws) == girls_after(next, draws.drop_first()));
        assert(girls_after(tally, draws.push(x)) == girls_after(next, draws.drop_first().push(x)));
    } else {
        let next = (tally.0, (tally.1 + 1) as i32);
        assert(draws.push(x).drop_first() =~= draws);
        assert(girls_after(next, draws) == next);
        assert(girls_after(tally, draws) == tally);
    }
}

proof fn lemma_kept_after_push(tally: (i32, i32), draws: Seq<(bool, bool)>, x: (bool, bool))
    ensures
        kept_after(tally, draws.push(x)) == if x.1 {
            kept_after(tally, draws)
        } else {
            (kept_after(tally, draws).0, (kept_after(tally, draws).1 + 1) as i32)
        },
    decreases draws.len(),
{
    if draws.len() > 0 {
        assert(draws.push(x).drop_first() =~= draws.drop_first().push(x));
        let next = if draws[0].1 {
            tally
        } else {
            (tally.0, (tally.1 + 1) as i32)
        };
        lemma_kept_after_push(next, draws.drop_first(), x);
        assert(kept_after(tally, draws) == kept_after(next, draws.drop_first()));
        assert(kept_after(tally, draws.push(x)) == kept_after(next, draws.drop_first().push(x)));
    } else {
        assert(draws.push(x).drop_first() =~= draws);
        let next = if x.1 {
            tally
        } else {
            (tally.0, (tally.1 + 1) as i32)
        };
        assert(kept_after(next, draws) == next);
        assert(kept_after(tally, draws) == tally);
    }
}

proof fn lemma_run_after_girls(tally: (i32, i32), girls: Seq<bool>, rest: Seq<bool>)
    requires
        forall|i: int| 0 <= i < girls.len() ==> !#[trigger] girls[i],
    ensures
        run_until_boy(tally, girls + rest) == run_until_boy(girls_after(tally, girls), rest),
    decreases girls.len(),
{
    if girls.len() > 0 {
        assert((girls + rest).drop_first() =~= girls.drop_first() + rest);
        assert(!girls[0]);
        lemma_run_after_girls((tally.0, (tally.1 + 1) as i32), girls.drop_first(), rest);
    } else {
        assert(girls + rest =~= rest);
    }
}

proof fn lemma_run_after_kept(tally: (i32, i32), girls: Seq<(bool, bool)>, rest: Seq<(bool, bool)>)
    requires
        forall|i: int| 0 <= i < girls.len() ==> !(#[trigger] girls[i]).0,
    ensures
        run_until_boy_second(tally, girls + rest) == run_until_boy_second(kept_after(tally, girls), rest),
    decreases girls.len(),
{
    if girls.len() > 0 {
        assert((girls + rest).drop_first() =~= girls.drop_first() + rest);
        assert(!girls[0].0);
        let next = if girls[0].1 {
            tally
        } else {
            (tally.0, (tally.1 + 1) as i32)
        };
        lemma_run_after_kept(next, girls.drop_first(), rest);
    } else {
        assert(girls + rest =~= rest);
    }
}

/// A family run from `tally` through the children `draws` (true for a boy),
/// stopping at the first boy; `None` if no boy is among them.
pub open spec fn run_until_boy(tally: (i32, i32), draws: Seq<bool>) -> Option<(i32, i32)>
    decreases draws.len(),
{
    if draws.len() == 0 {
        None
    } else {
        match until_boy(tally, draws[0]) {
            Round::Done(b, g) => Some((b, g)),
            Round::Continue(b, g) => run_until_boy((b, g), draws.drop_first()),
        }
    }
}

/// The index of the first boy among `draws`, if any.
pub open spec fn first_boy(draws: Seq<bool>) -> int
    decreases draws.len(),
{
    if draws.len() == 0 || draws[0] {
        0
    } else {
        1 + first_boy(draws.drop_first())
    }
}

/// Every family that has children until its first boy ends with exactly
/// one boy, and with as many girls as were born before him.
pub proof fn lemma_one_boy_per_family(draws: Seq<bool>, girls: i32)
    requires
        draws.contains(true),
        0 <= girls,
        girls + draws.len() < i32::MAX,
    ensures
        run_until_boy((0, girls), draws) == Some((1i32, (girls + first_boy(draws)) as i32)),
    decreases draws.len(),
{
    if !draws[0] {
        let rest = draws.drop_first();
        let i = choose|i: int| 0 <= i < draws.len() && draws[i] == true;
        assert(rest[i - 1] == true);
        lemma_one_boy_per_family(rest, (girls + 1) as i32);
    }
}

/// A family run from `tally` through the draws `(is_boy, killed)`, stopping
/// at the first boy; `None` if no boy is among them.
pub open spec fn run_until_boy_second(tally: (i32, i32), draws: Seq<(bool, bool)>) -> Option<(i32, i32)>
    decreases draws.len(),
{
    if draws.len() == 0 {
        None
    } else {
        match until_boy_second(tally, draws[0].0, draws[0].1) {
            Round::Done(b, g) => Some((b, g)),
            Round::Continue(b, g) => run_until_boy_second((b, g), draws.drop_first()),
        }
    }
}

/// Every family that has children until its first boy, killing some girls
/// at birth, ends with exactly one boy, and with no more girls than were
/// born before him.
pub proof fn lemma_one_boy_per_family_second(draws: Seq<(bool, bool)>, girls: i32)
    requires
        exists|i: int| 0 <= i < draws.len() && (#[trigger] draws[i]).0,
        0 <= girls,
        girls + draws.len() < i32::MAX,
    ensures
        run_until_boy_second((0, girls), draws) matches Some(t) && t.0 == 1 && girls <= t.1 <= girls
            + draws.len() - 1,
    decreases draws.len(),
{
    if !draws[0].0 {
        let rest = draws.drop_first();
        let i = choose|i: int| 0 <= i < draws.len() && (#[trigger] draws[i]).0;
        assert(rest[i - 1].0);
        if draws[0].1 {
            lemma_one_boy_per_family_second(rest, girls);
        } else {
            lemma_one_boy_per_family_second(rest, (girls + 1) as i32);
        }
    }
}

/// The family totals of many families: the boys and the girls, each summed
/// in order.
pub open spec fn sum_first(s: Seq<(i32, i32)>) -> int
    decreases s.len(),
{
    if s.len() == 0 {
        0
    } else {
        sum_first(s.drop_last()) + s.last().0
    }
}

/// The girls summed over many families.
pub open spec fn sum_second(s: Seq<(i32, i32)>) -> int
    decreases s.len(),
{
    if s.len() == 0 {
        0
    } else {
        sum_second(s.drop_last()) + s.last().1
    }
}

/// Every running sum, of boys and of girls, over the first families fits
/// in an `i32`.
pub open spec fn running_sums_fit(s: Seq<(i32, i32)>) -> bool {
    forall|i: int|
        0 < i <= s.len() ==> fits_i32(#[trigger] sum_first(s.take(i))) && fits_i32(
            sum_second(s.take(i)),
        )
}

/// The total boys and girls over the families `child`, summed in order;
/// `None` when a running sum leaves the range of `i32`.
pub fn total_children(child: &Vec<(i32, i32)>) -> (r: Option<(i32, i32)>)
    ensures
        r is Some <==> running_sums_fit(child@),
        r matches Some(t) ==> t.0 == sum_first(child@) && t.1 == sum_second(child@),
{
    let mut b_a_g: (i32, i32) = (0, 0);
    let mut i: usize = 0;
    assert(child@.take(0) =~= Seq::<(i32, i32)>::empty());
    while i < child.len()
        invariant
            i <= child@.len(),
            b_a_g.0 == sum_first(child@.take(i as int)),
            b_a_g.1 == sum_second(child@.take(i as int)),
            forall|j: int|
                0 < j <= i ==> fits_i32(#[trigger] sum_first(child@.take(j))) && fits_i32(
                    sum_second(child@.take(j)),
                ),
        decreases child@.len() - i,
    {
        let (a, b) = child[i];
        assert(child@.take(i + 1).drop_last() =~= child@.take(i as int));
        let s0: i64 = b_a_g.0 as i64 + a as i64;
        let s1: i64 = b_a_g.1 as i64 + b as i64;
        if s0 < i32::MIN as i64 || s0 > i32::MAX as i64 || s1 < i32::MIN as i64 || s1
            > i32::MAX as i64 {
            assert(!running_sums_fit(child@)) by {
                let k: int = i + 1;
                if running_sums_fit(child@) {
                    assert(0 < k <= child@.len());
                    assert(fits_i32(sum_first(child@.take(k))));
                    assert(fits_i32(sum_second(child@.take(k))));
                }
            }
            return None;
        }
        b_a_g.0 = s0 as i32;
        b_a_g.1 = s1 as i32;
        i = i + 1;
    }
    assert(child@.take(child@.len() as int) =~= child@);
    assert(running_sums_fit(child@));
    Some(b_a_g)
}

/// The families with more than one girl, in their order.
pub fn families_with_girls(child: &Vec<(i32, i32)>) -> (r: Vec<(i32, i32)>)
    ensures
        r@ == child@.filter(|b_g: (i32, i32)| b_g.1 > 1),
{
    let mut spn_bg: Vec<(i32, i32)> = Vec::new();
    let mut i: usize = 0;
    assert(child@.take(0) =~= Seq::<(i32, i32)>::empty());
    while i < child.len()
        invariant
            i <= child@.len(),
            spn_bg@ == child@.take(i as int).filter(|b_g: (i32, i32)| b_g.1 > 1),
        decreases child@.len() - i,
    {
        reveal_with_fuel(Seq::<_>::filter, 1);
        let b_g = child[i];
        if b_g.1 > 1 {
            spn_bg.push(b_g);
        }
        assert(child@.take(i + 1).drop_last() =~= child@.take(i as int));
        i = i + 1;
    }
    assert(child@.take(child@.len() as int) =~= child@);
    spn_bg
}

} // verus!
