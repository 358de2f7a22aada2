use life_sim::country::basic_natural_from;
use life_sim::country::give_birth;
use life_sim::country::kill_girl_birth_method;
use life_sim::country::kill_girl_from;
use life_sim::country::kill_girl_when_stupid;
use life_sim::country::normal_birth_method;
use life_sim::country::normal_birth_method_basic_natural;
use life_sim::country::normal_birth_method_without_one_plan;
use life_sim::country::normal_from;
use life_sim::country::ratio_exceeds;
use life_sim::country::without_one_plan_from;
use life_sim::country::WEDDING_AGE;
use life_sim::country::BirthMethod;
use life_sim::country::Country;

fn cohort_sums(c: &Country) -> (i64, i64) {
    let mut b = 0i64;
    let mut g = 0i64;
    for age in 0..c.cohorts() {
        let (x, y) = c.aged(age);
        b += x as i64;
        g += y as i64;
    }
    (b, g)
}

#[test]
fn new_country_has_fifty_couples_of_wedding_age() {
    let c = Country::new(vec![BirthMethod::Normal]);
    assert_eq!(c.cohorts(), 19);
    assert_eq!(c.aged(18), (50, 50));
    for age in 0..18 {
        assert_eq!(c.aged(age), (0, 0));
    }
    assert_eq!(c.count(), 0);
    assert_eq!(c.live_boy(), 10000);
    assert_eq!(c.live_girl(), 10000);
    assert_eq!(c.dead_boy(), 0);
    assert_eq!(c.dead_girl(), 0);
}

#[test]
fn normal_birth_gives_one_child_per_birth() {
    let mut c = Country::new(vec![BirthMethod::Normal]);
    c.birth();
    assert_eq!(c.count(), 1);
    assert_eq!(c.cohorts(), 20);
    let (b, g) = c.aged(0);
    // 50 couples, one birth each, one child a birth
    assert_eq!(b + g, 50);
    assert_eq!(c.aged(19), (50, 50));
    assert_eq!(c.live_boy(), 10000 + b);
    assert_eq!(c.live_girl(), 10000 + g);
}

#[test]
fn without_one_plan_gives_two_children_per_birth() {
    let mut c = Country::new(vec![BirthMethod::WithoutOnePlan]);
    c.birth();
    let (b, g) = c.aged(0);
    assert_eq!(b + g, 100);
}

#[test]
fn kill_girl_and_basic_natural_give_at_most_their_share() {
    let mut c = Country::new(vec![BirthMethod::KillGirl]);
    c.birth();
    let (b, g) = c.aged(0);
    assert!(b >= 0 && g >= 0 && b + g <= 50);
    let mut c = Country::new(vec![BirthMethod::BasicNatural]);
    c.birth();
    let (b, g) = c.aged(0);
    assert!(b >= 0 && g >= 0 && b <= 50 && g <= 50);
}

#[test]
fn births_with_many_methods_stay_in_bounds() {
    let mut c = Country::new(vec![
        BirthMethod::Normal,
        BirthMethod::BasicNatural,
        BirthMethod::WithoutOnePlan,
        BirthMethod::KillGirl,
        BirthMethod::KillGirlWhenStupid,
    ]);
    for _ in 0..5 {
        c.birth();
    }
    assert_eq!(c.count(), 5);
    assert_eq!(c.cohorts(), 24);
    let (b, g) = c.aged(4);
    assert!(b >= 0 && g >= 0 && b <= 100 && g <= 100);
}

#[test]
fn deaths_come_at_the_lifespan_and_keep_the_ledger() {
    let mut c = Country::new(vec![BirthMethod::Normal]);
    let (b0, g0) = cohort_sums(&c);
    let ledger_b = c.live_boy() as i64 - b0;
    let ledger_g = c.live_girl() as i64 - g0;
    c.dead();
    assert_eq!(c.cohorts(), 19);
    assert_eq!(c.dead_boy(), 0);
    while c.cohorts() < 60 {
        c.dead();
        c.birth();
    }
    assert_eq!(c.cohorts(), 60);
    let oldest = c.aged(59);
    assert_eq!(oldest, (50, 50));
    let (live_b, live_g) = (c.live_boy(), c.live_girl());
    c.dead();
    assert_eq!(c.cohorts(), 59);
    assert_eq!(c.dead_boy(), 50);
    assert_eq!(c.dead_girl(), 50);
    assert_eq!(c.live_boy(), live_b - 50);
    assert_eq!(c.live_girl(), live_g - 50);
    let (b1, g1) = cohort_sums(&c);
    assert_eq!(c.live_boy() as i64 - b1, ledger_b);
    assert_eq!(c.live_girl() as i64 - g1, ledger_g);
    assert_eq!(c.live_boy() + c.dead_boy(), live_b);
}

#[test]
fn one_method_is_always_chosen() {
    let mut c = Country::new(vec![BirthMethod::KillGirl]);
    for _ in 0..20 {
        assert_eq!(c.choose_birth_method(), BirthMethod::KillGirl);
    }
    let mut c = Country::new(vec![BirthMethod::Normal, BirthMethod::WithoutOnePlan]);
    for _ in 0..20 {
        let m = c.choose_birth_method();
        assert!(m == BirthMethod::Normal || m == BirthMethod::WithoutOnePlan);
    }
}

#[test]
fn ratio_is_read_as_a_quotient() {
    assert!(!ratio_exceeds(17, 10));
    assert!(ratio_exceeds(18, 10));
    assert!(!ratio_exceeds(10000, 10000));
    assert!(ratio_exceeds(1, 0));
    assert!(!ratio_exceeds(0, 0));
    assert!(!ratio_exceeds(-1, 0));
    assert!(ratio_exceeds(-18, -10));
    assert!(!ratio_exceeds(-17, -10));
    assert!(!ratio_exceeds(i32::MAX, i32::MAX));
    assert!(ratio_exceeds(i32::MAX, 1));
    // agrees with the floating-point reading
    for b in -30..30 {
        for g in -30..30 {
            let f = b as f64 / g as f64 > 1.7;
            assert_eq!(ratio_exceeds(b, g), f, "{} / {}", b, g);
        }
    }
}

#[test]
fn outcomes_follow_the_draws() {
    assert_eq!(normal_from(true), (1, 0));
    assert_eq!(normal_from(false), (0, 1));
    assert_eq!(basic_natural_from(true, true), (1, 1));
    assert_eq!(basic_natural_from(false, false), (0, 0));
    assert_eq!(basic_natural_from(true, false), (1, 0));
    assert_eq!(basic_natural_from(false, true), (0, 1));
    assert_eq!(without_one_plan_from(true, true), (2, 0));
    assert_eq!(without_one_plan_from(false, false), (0, 2));
    assert_eq!(without_one_plan_from(true, false), (1, 1));
    assert_eq!(without_one_plan_from(false, true), (1, 1));
    assert_eq!(kill_girl_from(true, 9), (1, 0));
    assert_eq!(kill_girl_from(false, 7), (0, 0));
    assert_eq!(kill_girl_from(false, 6), (0, 1));
    assert_eq!(kill_girl_from(false, 0), (0, 1));
}

#[test]
fn drawn_births_land_in_their_sets() {
    let c = Country::new(vec![BirthMethod::Normal]);
    let mut seen_boy = false;
    let mut seen_girl = false;
    for _ in 0..200 {
        let r = normal_birth_method(&c);
        assert!(r == (1, 0) || r == (0, 1));
        seen_boy |= r == (1, 0);
        seen_girl |= r == (0, 1);
        let r = normal_birth_method_basic_natural(&c);
        assert!(r.0 <= 1 && r.1 <= 1 && r.0 >= 0 && r.1 >= 0);
        let r = normal_birth_method_without_one_plan(&c);
        assert!(r == (2, 0) || r == (0, 2) || r == (1, 1));
        let r = kill_girl_birth_method(&c);
        assert!(r == (1, 0) || r == (0, 1) || r == (0, 0));
        // 10000 boys to 10000 girls: the kill-girl method applies
        let r = kill_girl_when_stupid(&c);
        assert!(r == (1, 0) || r == (0, 1) || r == (0, 0));
        let r = give_birth(BirthMethod::WithoutOnePlan, &c);
        assert_eq!(r.0 + r.1, 2);
    }
    assert!(seen_boy && seen_girl);
}

#[test]
fn no_couples_no_births() {
    let mut c = Country::new(vec![BirthMethod::WithoutOnePlan]);
    c.birth();
    assert_eq!(c.aged(WEDDING_AGE), (0, 0));
    let (live_b, live_g) = (c.live_boy(), c.live_girl());
    c.birth();
    assert_eq!(c.aged(0), (0, 0));
    assert_eq!(c.count(), 2);
    assert_eq!((c.live_boy(), c.live_girl()), (live_b, live_g));
}

#[test]
fn recorded_births_join_the_right_cohorts() {
    let mut c = Country::new(vec![BirthMethod::Normal]);
    c.record_births(&vec![(1, 0), (1, 0), (0, 1), (2, 0), (0, 0)]);
    assert_eq!(c.cohorts(), 20);
    assert_eq!(c.aged(0), (4, 1));
    assert_eq!(c.aged(19), (50, 50));
    assert_eq!(c.live_boy(), 10004);
    assert_eq!(c.live_girl(), 10001);
    assert_eq!(c.count(), 0);
    c.record_births(&vec![]);
    assert_eq!(c.aged(0), (0, 0));
    assert_eq!(c.cohorts(), 21);
}

#[test]
fn yearly_cycles_stop_at_fifty_nine_cohorts() {
    let mut c = Country::new(vec![BirthMethod::Normal]);
    for _ in 0..50 {
        c.birth();
        c.dead();
        assert!(c.cohorts() <= 59);
    }
    assert_eq!(c.cohorts(), 59);
    let before = (c.cohorts(), c.live_boy(), c.dead_boy());
    c.dead();
    assert_eq!((c.cohorts(), c.live_boy(), c.dead_boy()), before);
}
