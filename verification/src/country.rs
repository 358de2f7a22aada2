//! A country under a family-planning rule.
//!
//! Boys and girls are kept by age: index `a` of each queue holds how many
//! of that sex are `a` years old. Only people of the same age marry, every
//! couple marries once and has one birth, which happens at the age of 18:
//! a year brings as many births as there are couples of 18, the smaller of
//! the numbers of boys and girls of that age. At 60 the oldest year dies.

use std::collections::VecDeque;
use vstd::prelude::*;

use crate::rng::new_thread_rng;
use crate::rng::thread_below;
use crate::rng::thread_ratio;

verus! {

/// The age at which people marry and have their one birth.
pub const WEDDING_AGE: usize = 18;

/// The number of yearly cohorts after which the oldest one dies.
pub const LIFESPAN: usize = 60;

/// How a couple's birth turns out.
#[derive(Clone, Copy, Debug, PartialEq, Eq, Structural)]
pub enum BirthMethod {
    /// One child, a boy or a girl with even chances.
    Normal,
    /// A boy or not, a girl or not, each with even chances.
    BasicNatural,
    /// Two children, each a boy or a girl with even chances.
    WithoutOnePlan,
    /// One child; a girl is killed with chance 3 in 10.
    KillGirl,
    /// `WithoutOnePlan` while boys outnumber girls more than 17 to 10,
    /// `KillGirl` otherwise.
    KillGirlWhenStupid,
}

/// The whole state of a country, as contracts see it.
pub struct CountryView {
    pub boy: Seq<i32>,
    pub girl: Seq<i32>,
    pub count: i64,
    pub live_boy: i32,
    pub dead_boy: i32,
    pub live_girl: i32,
    pub dead_girl: i32,
    pub methods: Seq<BirthMethod>,
}

/// A country: its cohorts by age, the births so far, the living and dead of
/// each sex, and the birth methods its couples may follow.
#[derive(Debug)]
pub struct Country {
    boy: VecDeque<i32>,
    girl: VecDeque<i32>,
    count: i64,
    live_boy: i32,
    dead_boy: i32,
    live_girl: i32,
    dead_girl: i32,
    birth_method: Vec<BirthMethod>,
}

impl View for Country {
    type V = CountryView;

    closed spec fn view(&self) -> CountryView {
        CountryView {
            boy: self.boy@,
            girl: self.girl@,
            count: self.count,
            live_boy: self.live_boy,
            dead_boy: self.dead_boy,
            live_girl: self.live_girl,
            dead_girl: self.dead_girl,
            methods: self.birth_method@,
        }
    }
}

impl Country {
    /// Every country keeps its cohorts in shape: as many of boys as of
    /// girls, and one of wedding age.
    #[verifier::type_invariant]
    spec fn cohorts_shape(self) -> bool {
        country_wf(self@)
    }

    /// Moves the whole country out of `self`, leaving a new country with
    /// no birth methods in its place, so that its parts can be changed one
    /// by one and put back together.
    fn take(&mut self) -> (c: Country)
        ensures
            c@ == old(self)@,
            country_wf(c@),
    {
        let mut c = Country::new(Vec::new());
        std::mem::swap(self, &mut c);
        proof {
            use_type_invariant(&c);
        }
        c
    }
}

/// Both sexes have the same number of cohorts, and there is a cohort of
/// wedding age.
pub open spec fn country_wf(c: CountryView) -> bool {
    &&& c.boy.len() == c.girl.len()
    &&& c.boy.len() > WEDDING_AGE
}

/// The sum of a run of cohorts.
pub open spec fn cohort_sum(s: Seq<i32>) -> int
    decreases s.len(),
{
    if s.len() == 0 {
        0
    } else {
        cohort_sum(s.drop_last()) + s.last()
    }
}

/// `live_boy / live_girl > 1.7`, read as the quotient of the two integers.
/// For a positive number of girls this is `10 * boys > 17 * girls`; for a
/// negative one the inequality turns; with no girls it holds when the boys
/// are positive, as a positive number divided by zero is infinite.
pub open spec fn boys_outnumber(live_boy: int, live_girl: int) -> bool {
    if live_girl > 0 {
        10 * live_boy > 17 * live_girl
    } else if live_girl < 0 {
        10 * live_boy < 17 * live_girl
    } else {
        live_boy > 0
    }
}

/// The children (boys, girls) of a normal birth, by whether it is a boy.
pub open spec fn normal_outcome(is_boy: bool) -> (i32, i32) {
    if is_boy {
        (1, 0)
    } else {
        (0, 1)
    }
}

/// The children of a basic natural birth: a boy or not, a girl or not.
pub open spec fn basic_natural_outcome(is_boy: bool, is_girl: bool) -> (i32, i32) {
    (if is_boy { 1 } else { 0 }, if is_girl { 1 } else { 0 })
}

/// The two children of a birth without the one-child plan, by the sex of each.
pub open spec fn without_one_plan_outcome(first_boy: bool, second_boy: bool) -> (i32, i32) {
    if first_boy && second_boy {
        (2, 0)
    } else if !first_boy && !second_boy {
        (0, 2)
    } else {
        (1, 1)
    }
}

/// The child kept under the kill-girl method: a boy is kept; a girl is
/// killed when the roll, drawn from 0 to 9, is above 6.
pub open spec fn kill_girl_outcome(is_boy: bool, roll: int) -> (i32, i32) {
    if is_boy {
        (1, 0)
    } else if roll > 6 {
        (0, 0)
    } else {
        (0, 1)
    }
}

/// Whether `kid` is a possible outcome of a normal birth.
pub open spec fn normal_possible(kid: (i32, i32)) -> bool {
    kid == normal_outcome(true) || kid == normal_outcome(false)
}

/// Whether `kid` is a possible outcome of a basic natural birth.
pub open spec fn basic_natural_possible(kid: (i32, i32)) -> bool {
    ||| kid == basic_natural_outcome(true, true)
    ||| kid == basic_natural_outcome(true, false)
    ||| kid == basic_natural_outcome(false, true)
    ||| kid == basic_natural_outcome(false, false)
}

/// Whether `kid` is a possible outcome of a birth without the one-child plan.
pub open spec fn without_one_plan_possible(kid: (i32, i32)) -> bool {
    ||| kid == without_one_plan_outcome(true, true)
    ||| kid == without_one_plan_outcome(true, false)
    ||| kid == without_one_plan_outcome(false, true)
    ||| kid == without_one_plan_outcome(false, false)
}

/// Whether `kid` is a possible outcome under the kill-girl method.
pub open spec fn kill_girl_possible(kid: (i32, i32)) -> bool {
    exists|is_boy: bool, roll: int| 0 <= roll < 10 && kid == #[trigger] kill_girl_outcome(is_boy, roll)
}

/// Whether `kid` is a possible outcome of one birth under `m`, where
/// `boys_lead` says whether boys outnumber girls more than 17 to 10.
pub open spec fn method_allows(m: BirthMethod, boys_lead: bool, kid: (i32, i32)) -> bool {
    match m {
        BirthMethod::Normal => normal_possible(kid),
        BirthMethod::BasicNatural => basic_natural_possible(kid),
        BirthMethod::WithoutOnePlan => without_one_plan_possible(kid),
        BirthMethod::KillGirl => kill_girl_possible(kid),
        BirthMethod::KillGirlWhenStupid => if boys_lead {
            without_one_plan_possible(kid)
        } else {
            kill_girl_possible(kid)
        },
    }
}

/// The most boys that `n` births under `m` can bring.
pub open spec fn most_boys(m: BirthMethod, boys_lead: bool, n: int) -> int {
    match m {
        BirthMethod::WithoutOnePlan => 2 * n,
        BirthMethod::KillGirlWhenStupid => if boys_lead { 2 * n } else { n },
        _ => n,
    }
}

/// The most girls that `n` births under `m` can bring.
pub open spec fn most_girls(m: BirthMethod, boys_lead: bool, n: int) -> int {
    match m {
        BirthMethod::WithoutOnePlan => 2 * n,
        BirthMethod::KillGirlWhenStupid => if boys_lead { 2 * n } else { n },
        _ => n,
    }
}

/// How many births a year brings with `groom` grooms and `bride` brides:
/// one per couple, that is the smaller of the two, and none when that is
/// not positive.
pub open spec fn births_owed(groom: int, bride: int) -> int {
    let least = if groom <= bride { groom } else { bride };
    if least > 0 {
        least
    } else {
        0
    }
}

/// The boys among a run of births.
pub open spec fn sum_boys(kids: Seq<(i32, i32)>) -> int
    decreases kids.len(),
{
    if kids.len() == 0 {
        0
    } else {
        sum_boys(kids.drop_last()) + kids.last().0
    }
}

/// The girls among a run of births.
pub open spec fn sum_girls(kids: Seq<(i32, i32)>) -> int
    decreases kids.len(),
{
    if kids.len() == 0 {
        0
    } else {
        sum_girls(kids.drop_last()) + kids.last().1
    }
}

/// A year of births can run in `c` without an overflow, whichever method
/// is drawn and however the births turn out.
pub open spec fn births_fit(c: CountryView) -> bool {
    let lead = boys_outnumber(c.live_boy as int, c.live_girl as int);
    let n = births_owed(c.boy[WEDDING_AGE as int] as int, c.girl[WEDDING_AGE as int] as int);
    &&& c.count < i64::MAX
    &&& forall|i: int|
        0 <= i < c.methods.len() ==> {
            &&& most_boys(#[trigger] c.methods[i], lead, n) <= i32::MAX
            &&& c.live_boy + most_boys(c.methods[i], lead, n) <= i32::MAX
            &&& most_girls(c.methods[i], lead, n) <= i32::MAX
            &&& c.live_girl + most_girls(c.methods[i], lead, n) <= i32::MAX
        }
}

/// `new` is `old` after a year of births in which the couples followed `m`
/// and the births came out as `kids`.
pub open spec fn born_from(
    old: CountryView,
    new: CountryView,
    m: BirthMethod,
    kids: Seq<(i32, i32)>,
) -> bool {
    let lead = boys_outnumber(old.live_boy as int, old.live_girl as int);
    &&& old.methods.contains(m)
    &&& (old.methods.len() == 1 ==> m == old.methods[0])
    &&& kids.len() == births_owed(
        old.boy[WEDDING_AGE as int] as int,
        old.girl[WEDDING_AGE as int] as int,
    )
    &&& forall|i: int| 0 <= i < kids.len() ==> method_allows(m, lead, #[trigger] kids[i])
    &&& new.boy == seq![sum_boys(kids) as i32] + old.boy
    &&& new.girl == seq![sum_girls(kids) as i32] + old.girl
    &&& new.live_boy == old.live_boy + sum_boys(kids)
    &&& new.live_girl == old.live_girl + sum_girls(kids)
    &&& new.count == old.count + 1
    &&& new.dead_boy == old.dead_boy
    &&& new.dead_girl == old.dead_girl
    &&& new.methods == old.methods
}

/// The oldest cohorts die without an overflow of the counters.
pub open spec fn deaths_fit(c: CountryView) -> bool {
    c.boy.len() == LIFESPAN ==> {
        &&& i32::MIN <= c.live_boy - c.boy.last() <= i32::MAX
        &&& i32::MIN <= c.dead_boy + c.boy.last() <= i32::MAX
        &&& i32::MIN <= c.live_girl - c.girl.last() <= i32::MAX
        &&& i32::MIN <= c.dead_girl + c.girl.last() <= i32::MAX
    }
}

/// `new` is `old` after the deaths of a year: at the full lifespan the
/// oldest cohort of each sex moves from the living to the dead; before it,
/// nothing changes.
pub open spec fn died_from(old: CountryView, new: CountryView) -> bool {
    if old.boy.len() == LIFESPAN {
        &&& new.boy == old.boy.drop_last()
        &&& new.girl == old.girl.drop_last()
        &&& new.live_boy == old.live_boy - old.boy.last()
        &&& new.dead_boy == old.dead_boy + old.boy.last()
        &&& new.live_girl == old.live_girl - old.girl.last()
        &&& new.dead_girl == old.dead_girl + old.girl.last()
        &&& new.count == old.count
        &&& new.methods == old.methods
    } else {
        new == old
    }
}

/// Whether an `i32` holds `v`.
pub open spec fn fits_i32(v: int) -> bool {
    i32::MIN <= v <= i32::MAX
}

/// The births `kids` can be added to `c` without an overflow: every running
/// sum of their boys and of their girls, and the living after them, fit in
/// an `i32`.
pub open spec fn births_recordable(c: CountryView, kids: Seq<(i32, i32)>) -> bool {
    &&& forall|i: int|
        0 <= i <= kids.len() ==> fits_i32(#[trigger] sum_boys(kids.take(i))) && fits_i32(
            sum_girls(kids.take(i)),
        )
    &&& fits_i32(c.live_boy + sum_boys(kids))
    &&& fits_i32(c.live_girl + sum_girls(kids))
}

/// The ages of a new country: 18 empty cohorts and 50 of wedding age.
pub open spec fn founding_cohorts() -> Seq<i32> {
    Seq::new(WEDDING_AGE as nat, |i: int| 0i32).push(50)
}

/// Whether boys outnumber girls more than 17 to 10; see `boys_outnumber`.
/// The products are taken in `i64`, where they cannot overflow.
pub fn ratio_exceeds(live_boy: i32, live_girl: i32) -> (r: bool)
    ensures
        r == boys_outnumber(live_boy as int, live_girl as int),
{
    let b: i64 = live_boy as i64;
    let g: i64 = live_girl as i64;
    if g > 0 {
        10 * b > 17 * g
    } else if g < 0 {
        10 * b < 17 * g
    } else {
        b > 0
    }
}

/// The children of a normal birth, given its draw.
pub fn normal_from(is_boy: bool) -> (r: (i32, i32))
    ensures
        r == normal_outcome(is_boy),
{
    if is_boy {
        (1, 0)
    } else {
        (0, 1)
    }
}

/// The children of a basic natural birth, given its draws.
pub fn basic_natural_from(is_boy: bool, is_girl: bool) -> (r: (i32, i32))
    ensures
        r == basic_natural_outcome(is_boy, is_girl),
{
    match (is_boy, is_girl) {
        (true, true) => (1, 1),
        (false, false) => (0, 0),
        (true, false) => (1, 0),
        (false, true) => (0, 1),
    }
}

/// The children of a birth without the one-child plan, given its draws.
pub fn without_one_plan_from(is_boy: bool, is_boy2: bool) -> (r: (i32, i32))
    ensures
        r == without_one_plan_outcome(is_boy, is_boy2),
{
    match (is_boy, is_boy2) {
        (true, true) => (2, 0),
        (false, false) => (0, 2),
        (true, false) => (1, 1),
        (false, true) => (1, 1),
    }
}

/// The child kept under the kill-girl method, given its draws.
pub fn kill_girl_from(is_boy: bool, kill_girl: usize) -> (r: (i32, i32))
    ensures
        r == kill_girl_outcome(is_boy, kill_girl as int),
        is_boy ==> r == (1i32, 0i32),
        !is_boy && 7 <= kill_girl ==> r == (0i32, 0i32),
        !is_boy && kill_girl <= 6 ==> r == (0i32, 1i32),
{
    if is_boy {
        return (1, 0);
    }
    if kill_girl > 6 {
        (0, 0)
    } else {
        (0, 1)
    }
}

/// One normal birth: a boy or a girl, with even chances.
pub fn normal_birth_method(_c: &Country) -> (r: (i32, i32))
    ensures
        normal_possible(r),
{
    let mut rng = new_thread_rng();
    let is_boy = thread_ratio(&mut rng, 1, 2);
    normal_from(is_boy)
}

/// One basic natural birth: a boy or not, a girl or not, each with even chances.
pub fn normal_birth_method_basic_natural(_c: &Country) -> (r: (i32, i32))
    ensures
        basic_natural_possible(r),
{
    let mut rng = new_thread_rng();
    let is_boy = thread_ratio(&mut rng, 1, 2);
    let is_girl = thread_ratio(&mut rng, 1, 2);
    basic_natural_from(is_boy, is_girl)
}

/// One birth of two children, each a boy or a girl with even chances.
pub fn normal_birth_method_without_one_plan(_c: &Country) -> (r: (i32, i32))
    ensures
        without_one_plan_possible(r),
{
    let mut rng = new_thread_rng();
    let is_boy = thread_ratio(&mut rng, 1, 2);
    let is_boy2 = thread_ratio(&mut rng, 1, 2);
    without_one_plan_from(is_boy, is_boy2)
}

/// One birth in which a girl is killed when a roll from 0 to 9 is above 6.
pub fn kill_girl_birth_method(_c: &Country) -> (r: (i32, i32))
    ensures
        kill_girl_possible(r),
{
    let mut rng = new_thread_rng();
    let is_boy = thread_ratio(&mut rng, 1, 2);
    let kill_girl: usize = if is_boy {
        0
    } else {
        thread_below(&mut rng, 10)
    };
    let r = kill_girl_from(is_boy, kill_girl);
    assert(r == kill_girl_outcome(is_boy, kill_girl as int));
    r
}

/// A birth without the one-child plan while boys outnumber girls more than
/// 17 to 10, a birth under the kill-girl method otherwise.
pub fn kill_girl_when_stupid(c: &Country) -> (r: (i32, i32))
    ensures
        if boys_outnumber(c@.live_boy as int, c@.live_girl as int) {
            without_one_plan_possible(r)
        } else {
            kill_girl_possible(r)
        },
{
    if ratio_exceeds(c.live_boy, c.live_girl) {
        normal_birth_method_without_one_plan(c)
    } else {
        kill_girl_birth_method(c)
    }
}

/// One birth of `c` under `m`.
pub fn give_birth(m: BirthMethod, c: &Country) -> (r: (i32, i32))
    ensures
        method_allows(m, boys_outnumber(c@.live_boy as int, c@.live_girl as int), r),
{
    match m {
        BirthMethod::Normal => normal_birth_method(c),
        BirthMethod::BasicNatural => normal_birth_method_basic_natural(c),
        BirthMethod::WithoutOnePlan => normal_birth_method_without_one_plan(c),
        BirthMethod::KillGirl => kill_girl_birth_method(c),
        BirthMethod::KillGirlWhenStupid => kill_girl_when_stupid(c),
    }
}

impl Country {
    /// A new country: 50 boys and 50 girls of wedding age and none younger,
    /// 10000 of each sex counted as living, none dead, no births yet.
    pub fn new(methods: Vec<BirthMethod>) -> (c: Self)
        ensures
            country_wf(c@),
            c@.boy == founding_cohorts(),
            c@.girl == founding_cohorts(),
            c@.count == 0,
            c@.live_boy == 10000,
            c@.dead_boy == 0,
            c@.live_girl == 10000,
            c@.dead_girl == 0,
            c@.methods == methods@,
    {
        let mut boy: VecDeque<i32> = VecDeque::new();
        let mut girl: VecDeque<i32> = VecDeque::new();
        let mut i: usize = 0;
        while i < WEDDING_AGE
            invariant
                i <= WEDDING_AGE,
                boy@ == Seq::new(i as nat, |k: int| 0i32),
                girl@ == Seq::new(i as nat, |k: int| 0i32),
            decreases WEDDING_AGE - i,
        {
            boy.push_back(0);
            girl.push_back(0);
            i = i + 1;
        }
        boy.push_back(50);
        girl.push_back(50);
        Country {
            boy,
            girl,
            count: 0,
            live_boy: 10000,
            dead_boy: 0,
            live_girl: 10000,
            dead_girl: 0,
            birth_method: methods,
        }
    }

    /// The deaths of a year: once there are as many cohorts as the lifespan,
    /// the oldest cohort of each sex leaves the living for the dead.
    pub fn dead(&mut self)
        requires
            deaths_fit(old(self)@),
        ensures
            country_wf(final(self)@),
            died_from(old(self)@, final(self)@),
    {
        proof {
            use_type_invariant(&*self);
        }
        if self.boy.len() == LIFESPAN {
            let Country {
                mut boy,
                mut girl,
                count,
                mut live_boy,
                mut dead_boy,
                mut live_girl,
                mut dead_girl,
                birth_method,
            } = self.take();
            if let Some(b) = boy.pop_back() {
                live_boy = live_boy - b;
                dead_boy = dead_boy + b;
            }
            if let Some(g) = girl.pop_back() {
                live_girl = live_girl - g;
                dead_girl = dead_girl + g;
            }
            *self = Country {
                boy,
                girl,
                count,
                live_boy,
                dead_boy,
                live_girl,
                dead_girl,
                birth_method,
            };
        }
    }

    /// The birth method of this year's couples: the only one when there is
    /// one, otherwise one drawn at random from the list.
    pub fn choose_birth_method(&mut self) -> (m: BirthMethod)
        requires
            old(self)@.methods.len() > 0,
        ensures
            final(self)@ == old(self)@,
            old(self)@.methods.contains(m),
            old(self)@.methods.len() == 1 ==> m == old(self)@.methods[0],
    {
        if self.birth_method.len() == 1 {
            return self.birth_method[0];
        }
        let mut rng = new_thread_rng();
        let index = thread_below(&mut rng, self.birth_method.len());
        let m = self.birth_method[index];
        assert(self@.methods[index as int] == m);
        m
    }

    /// Adds a year's births, one entry per birth, as the newest cohort of
    /// each sex: the boys of all the births become the newborn boys and are
    /// counted as living, the girls likewise.
    pub fn record_births(&mut self, kids: &Vec<(i32, i32)>)
        requires
            births_recordable(old(self)@, kids@),
        ensures
            country_wf(final(self)@),
            final(self)@.boy == seq![sum_boys(kids@) as i32] + old(self)@.boy,
            final(self)@.girl == seq![sum_girls(kids@) as i32] + old(self)@.girl,
            final(self)@.live_boy == old(self)@.live_boy + sum_boys(kids@),
            final(self)@.live_girl == old(self)@.live_girl + sum_girls(kids@),
            final(self)@.count == old(self)@.count,
            final(self)@.dead_boy == old(self)@.dead_boy,
            final(self)@.dead_girl == old(self)@.dead_girl,
            final(self)@.methods == old(self)@.methods,
    {
        let mut little_boy: i32 = 0;
        let mut little_girl: i32 = 0;
        let mut i: usize = 0;
        assert(kids@.take(0) =~= Seq::<(i32, i32)>::empty());
        while i < kids.len()
            invariant
                i <= kids@.len(),
                births_recordable(old(self)@, kids@),
                little_boy == sum_boys(kids@.take(i as int)),
                little_girl == sum_girls(kids@.take(i as int)),
            decreases kids@.len() - i,
        {
            let (b, g) = kids[i];
            assert(kids@.take(i + 1).drop_last() =~= kids@.take(i as int));
            assert(fits_i32(sum_boys(kids@.take(i + 1))));
            assert(fits_i32(sum_girls(kids@.take(i + 1))));
            little_boy = little_boy + b;
            little_girl = little_girl + g;
            i = i + 1;
        }
        assert(kids@.take(kids@.len() as int) =~= kids@);
        let Country {
            mut boy,
            mut girl,
            count,
            live_boy,
            dead_boy,
            live_girl,
            dead_girl,
            birth_method,
        } = self.take();
        boy.push_front(little_boy);
        girl.push_front(little_girl);
        *self = Country {
            boy,
            girl,
            count,
            live_boy: live_boy + little_boy,
            dead_boy,
            live_girl: live_girl + little_girl,
            dead_girl,
            birth_method,
        };
    }

    /// The births of a year: every couple of wedding age follows this year's
    /// birth method once, and the children form the newest cohort of each sex.
    pub fn birth(&mut self)
        requires
            old(self)@.methods.len() > 0,
            births_fit(old(self)@),
        ensures
            country_wf(final(self)@),
            exists|m: BirthMethod, kids: Seq<(i32, i32)>|
                #[trigger] born_from(old(self)@, final(self)@, m, kids),
    {
        proof {
            use_type_invariant(&*self);
        }
        let ghost start = self@;
        self.count = self.count + 1;
        let groom = self.boy[WEDDING_AGE];
        let bride = self.girl[WEDDING_AGE];
        let birth_method = self.choose_birth_method();
        let least: i32 = if groom <= bride {
            groom
        } else {
            bride
        };
        let n: i32 = if least > 0 {
            least
        } else {
            0
        };
        let ghost lead = boys_outnumber(start.live_boy as int, start.live_girl as int);
        assert(start.methods.contains(birth_method));
        let ghost k = choose|k: int| 0 <= k < start.methods.len() && start.methods[k] == birth_method;
        assert(births_fit(start));
        assert(most_boys(start.methods[k], lead, n as int) <= i32::MAX);
        let mut kids: Vec<(i32, i32)> = Vec::new();
        let mut done: i32 = 0;
        while done < n
            invariant
                0 <= done <= n,
                n == births_owed(groom as int, bride as int),
                self@.live_boy == start.live_boy,
                self@.live_girl == start.live_girl,
                lead == boys_outnumber(start.live_boy as int, start.live_girl as int),
                kids@.len() == done,
                forall|i: int| 0 <= i < kids@.len() ==> method_allows(birth_method, lead, #[trigger] kids@[i]),
            decreases n - done,
        {
            let kid = give_birth(birth_method, self);
            kids.push(kid);
            done = done + 1;
        }
        proof {
            assert forall|i: int| 0 <= i <= kids@.len() implies fits_i32(#[trigger] sum_boys(kids@.take(i)))
                && fits_i32(sum_girls(kids@.take(i))) && 0 <= sum_boys(kids@.take(i)) && 0 <= sum_girls(kids@.take(i))
                && sum_boys(kids@.take(i)) <= most_boys(birth_method, lead, n as int)
                && sum_girls(kids@.take(i)) <= most_girls(birth_method, lead, n as int) by {
                let part = kids@.take(i);
                assert forall|j: int| 0 <= j < part.len() implies method_allows(birth_method, lead, #[trigger] part[j]) by {
                    assert(part[j] == kids@[j]);
                }
                lemma_kids_counted(birth_method, lead, part);
                lemma_most_grows(birth_method, lead, i, n as int);
            }
            assert(kids@.take(kids@.len() as int) =~= kids@);
            assert(sum_boys(kids@.take(kids@.len() as int)) <= most_boys(birth_method, lead, n as int));
            assert(sum_girls(kids@.take(kids@.len() as int)) <= most_girls(birth_method, lead, n as int));
        }
        self.record_births(&kids);
        assert(born_from(start, self@, birth_method, kids@));
    }
}

/// The most a run of births can bring grows with the run.
proof fn lemma_most_grows(m: BirthMethod, lead: bool, i: int, n: int)
    requires
        0 <= i <= n,
    ensures
        most_boys(m, lead, i) <= most_boys(m, lead, n),
        most_girls(m, lead, i) <= most_girls(m, lead, n),
{
}

impl Country {
    /// The births so far.
    pub fn count(&self) -> (r: i64)
        ensures
            r == self@.count,
    {
        self.count
    }

    /// The boys counted as living.
    pub fn live_boy(&self) -> (r: i32)
        ensures
            r == self@.live_boy,
    {
        self.live_boy
    }

    /// The boys counted as dead.
    pub fn dead_boy(&self) -> (r: i32)
        ensures
            r == self@.dead_boy,
    {
        self.dead_boy
    }

    /// The girls counted as living.
    pub fn live_girl(&self) -> (r: i32)
        ensures
            r == self@.live_girl,
    {
        self.live_girl
    }

    /// The girls counted as dead.
    pub fn dead_girl(&self) -> (r: i32)
        ensures
            r == self@.dead_girl,
    {
        self.dead_girl
    }

    /// The number of yearly cohorts.
    pub fn cohorts(&self) -> (r: usize)
        ensures
            r == self@.boy.len(),
    {
        self.boy.len()
    }

    /// The boys and the girls aged `age`.
    pub fn aged(&self, age: usize) -> (r: (i32, i32))
        requires
            age < self@.boy.len(),
        ensures
            r == (self@.boy[age as int], self@.girl[age as int]),
    {
        proof {
            use_type_invariant(self);
        }
        (self.boy[age], self.girl[age])
    }
}

/// The boys and girls of one birth lie between none and the most its
/// method allows.
proof fn lemma_kid_bounds(m: BirthMethod, lead: bool, kid: (i32, i32))
    requires
        method_allows(m, lead, kid),
    ensures
        0 <= kid.0 <= most_boys(m, lead, 1),
        0 <= kid.1 <= most_girls(m, lead, 1),
{
    if m == BirthMethod::KillGirl || (m == BirthMethod::KillGirlWhenStupid && !lead) {
        let (b, r) = choose|is_boy: bool, roll: int| 0 <= roll < 10 && kid == #[trigger] kill_girl_outcome(is_boy, roll);
    }
}

/// Prepending a cohort adds it to the sum.
proof fn lemma_cohort_sum_prepend(x: i32, s: Seq<i32>)
    ensures
        cohort_sum(seq![x] + s) == x + cohort_sum(s),
    decreases s.len(),
{
    if s.len() > 0 {
        lemma_cohort_sum_prepend(x, s.drop_last());
        assert((seq![x] + s).drop_last() =~= seq![x] + s.drop_last());
    } else {
        assert((seq![x] + s).drop_last() =~= s);
    }
}

/// A year of births moves the counted living and the cohorts by the same
/// newborns: the living minus the sum of the cohorts stays as it was, for
/// each sex.
pub proof fn lemma_births_keep_ledger(
    old: CountryView,
    new: CountryView,
    m: BirthMethod,
    kids: Seq<(i32, i32)>,
)
    requires
        born_from(old, new, m, kids),
        i32::MIN <= sum_boys(kids) <= i32::MAX,
        i32::MIN <= sum_girls(kids) <= i32::MAX,
    ensures
        new.live_boy - cohort_sum(new.boy) == old.live_boy - cohort_sum(old.boy),
        new.live_girl - cohort_sum(new.girl) == old.live_girl - cohort_sum(old.girl),
{
    lemma_cohort_sum_prepend(sum_boys(kids) as i32, old.boy);
    lemma_cohort_sum_prepend(sum_girls(kids) as i32, old.girl);
}

/// A year of deaths moves the oldest cohort from the living to the dead:
/// the living minus the sum of the cohorts, and the living plus the dead,
/// stay as they were, for each sex.
pub proof fn lemma_deaths_keep_ledger(old: CountryView, new: CountryView)
    requires
        country_wf(old),
        died_from(old, new),
    ensures
        new.live_boy - cohort_sum(new.boy) == old.live_boy - cohort_sum(old.boy),
        new.live_girl - cohort_sum(new.girl) == old.live_girl - cohort_sum(old.girl),
        new.live_boy + new.dead_boy == old.live_boy + old.dead_boy,
        new.live_girl + new.dead_girl == old.live_girl + old.dead_girl,
{
}

/// A year of births ages everyone by one year: the old cohorts follow the
/// newborns unchanged, and no newborn cohort is negative.
pub proof fn lemma_births_age_everyone(
    old: CountryView,
    new: CountryView,
    m: BirthMethod,
    kids: Seq<(i32, i32)>,
)
    requires
        born_from(old, new, m, kids),
    ensures
        new.boy.len() == old.boy.len() + 1,
        new.girl.len() == old.girl.len() + 1,
        new.boy.subrange(1, new.boy.len() as int) == old.boy,
        new.girl.subrange(1, new.girl.len() as int) == old.girl,
        sum_boys(kids) >= 0,
        sum_girls(kids) >= 0,
{
    let lead = boys_outnumber(old.live_boy as int, old.live_girl as int);
    lemma_kids_counted(m, lead, kids);
    assert(new.boy.subrange(1, new.boy.len() as int) =~= old.boy);
    assert(new.girl.subrange(1, new.girl.len() as int) =~= old.girl);
}

/// The children of a run of births under one method: under the normal
/// method every couple has exactly one child, without the one-child plan
/// exactly two, under the kill-girl method at most one, and under the basic
/// natural method at most two; never fewer than none.
pub proof fn lemma_kids_counted(m: BirthMethod, lead: bool, kids: Seq<(i32, i32)>)
    requires
        forall|i: int| 0 <= i < kids.len() ==> method_allows(m, lead, #[trigger] kids[i]),
    ensures
        sum_boys(kids) >= 0,
        sum_girls(kids) >= 0,
        m == BirthMethod::Normal ==> sum_boys(kids) + sum_girls(kids) == kids.len(),
        m == BirthMethod::WithoutOnePlan ==> sum_boys(kids) + sum_girls(kids) == 2 * kids.len(),
        m == BirthMethod::KillGirl ==> sum_boys(kids) + sum_girls(kids) <= kids.len(),
        m == BirthMethod::BasicNatural ==> sum_boys(kids) + sum_girls(kids) <= 2 * kids.len(),
        sum_boys(kids) <= most_boys(m, lead, kids.len() as int),
        sum_girls(kids) <= most_girls(m, lead, kids.len() as int),
    decreases kids.len(),
{
    if kids.len() > 0 {
        let rest = kids.drop_last();
        assert forall|i: int| 0 <= i < rest.len() implies method_allows(m, lead, #[trigger] rest[i]) by {
            assert(rest[i] == kids[i]);
        }
        lemma_kids_counted(m, lead, rest);
        let last = kids.last();
        assert(method_allows(m, lead, kids[kids.len() - 1]));
        lemma_kid_bounds(m, lead, last);
        if m == BirthMethod::KillGirl {
            let (b, r) = choose|is_boy: bool, roll: int| 0 <= roll < 10 && last == #[trigger] kill_girl_outcome(is_boy, roll);
        }
    }
}

/// Without couples of wedding age a year brings no births: both newborn
/// cohorts are empty.
pub proof fn lemma_no_couples_no_births(
    old: CountryView,
    new: CountryView,
    m: BirthMethod,
    kids: Seq<(i32, i32)>,
)
    requires
        born_from(old, new, m, kids),
        old.boy[WEDDING_AGE as int] <= 0 || old.girl[WEDDING_AGE as int] <= 0,
    ensures
        kids.len() == 0,
        new.boy[0] == 0,
        new.girl[0] == 0,
{
}

/// A year of deaths done twice is done once: after the first the cohorts
/// are no longer at the full lifespan.
pub proof fn lemma_dead_twice(a: CountryView, b: CountryView, c: CountryView)
    requires
        died_from(a, b),
        died_from(b, c),
    ensures
        c == b,
{
}

/// A year of births followed by a year of deaths keeps a country of at most
/// 59 cohorts at most 59 cohorts: it grows by one until it reaches 59.
pub proof fn lemma_birth_then_dead(
    a: CountryView,
    b: CountryView,
    c: CountryView,
    m: BirthMethod,
    kids: Seq<(i32, i32)>,
)
    requires
        country_wf(a),
        a.boy.len() < LIFESPAN,
        born_from(a, b, m, kids),
        died_from(b, c),
    ensures
        c.boy.len() == c.girl.len(),
        c.boy.len() == if a.boy.len() + 1 < LIFESPAN { a.boy.len() + 1 } else { (LIFESPAN - 1) as nat },
{
}

/// The number of rolls below `n` on which the kill-girl method kills a girl.
pub open spec fn killing_rolls(n: nat) -> nat
    decreases n,
{
    if n == 0 {
        0
    } else {
        killing_rolls((n - 1) as nat) + if kill_girl_outcome(false, n - 1) == (0i32, 0i32) {
            1nat
        } else {
            0nat
        }
    }
}

/// Under the kill-girl method a boy is always kept, and a girl is killed
/// exactly on the rolls 7, 8 and 9 of the ten rolls 0 to 9 and kept on the
/// others: a girl dies with chance 3 in 10.
pub proof fn lemma_girl_killed_three_in_ten()
    ensures
        forall|roll: int| 0 <= roll < 10 ==> #[trigger] kill_girl_outcome(true, roll) == (1i32, 0i32),
        forall|roll: int|
            0 <= roll < 10 ==> (#[trigger] kill_girl_outcome(false, roll) == (0i32, 0i32) <==> 7 <= roll),
        forall|roll: int|
            0 <= roll < 10 ==> (#[trigger] kill_girl_outcome(false, roll) == (0i32, 1i32) <==> roll <= 6),
        killing_rolls(10) == 3,
{
    reveal_with_fuel(killing_rolls, 11);
}

} // verus!
