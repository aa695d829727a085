use deser_bench::random::{rand_string, rand_string_of_len, rand_text, RandomSource};
use deser_bench::thing::{insert_stuff, Bidule, Condition, DetailedThing, Stuff, Thing, VarThing};

fn alnum(s: &str) -> bool {
    s.chars().all(|c| c.is_ascii_alphanumeric())
}

#[test]
fn rand_string_of_len_has_that_length() {
    let mut r = RandomSource::new(3);
    for len in [0usize, 1, 4, 10, 33] {
        let s = rand_string_of_len(&mut r, len);
        assert_eq!(s.chars().count(), len);
        assert!(alnum(&s));
    }
}

#[test]
fn rand_string_length_is_a_product() {
    let mut r = RandomSource::new(5);
    for _ in 0..200 {
        let s = rand_string(&mut r);
        let n = s.chars().count();
        assert!((3..78).contains(&n));
        assert!((3..8).any(|a| n % a == 0 && (1..12).contains(&(n / a))));
        assert!(alnum(&s));
    }
}

#[test]
fn rand_text_uses_the_charset() {
    let mut r = RandomSource::new(9);
    let charset: Vec<char> = "ABCDEFGHIJKLMNOPQRSTUVWXYZ0123456789 îä\t\nabcdefgh".chars().collect();
    assert_eq!(r.charset, charset);
    for _ in 0..50 {
        let s = rand_text(&mut r);
        let n = s.chars().count();
        assert!((24..=576).contains(&n));
        assert!(s.chars().all(|c| charset.contains(&c)));
    }
}

#[test]
fn rand_text_with_own_charset() {
    let mut r = RandomSource::with_charset(1, vec!['x']);
    let s = rand_text(&mut r);
    assert!(!s.is_empty());
    assert!(s.chars().all(|c| c == 'x'));
}

#[test]
fn same_seed_same_thing() {
    let a = Thing::new(&mut RandomSource::new(0));
    let b = Thing::new(&mut RandomSource::new(0));
    assert_eq!(format!("{:?}", a), format!("{:?}", b));
    let c = Thing::new(&mut RandomSource::new(1));
    assert_ne!(format!("{:?}", a), format!("{:?}", c));
}

#[test]
fn thing_cardinalities() {
    for seed in 0..3u64 {
        let t = Thing::new(&mut RandomSource::new(seed));
        assert!((1400..1500).contains(&t.var_things.len()));
        assert!((1500..1800).contains(&t.stuff.len()));
        assert!((1500..2000).contains(&t.bidules.len()));
        assert!(t.surname.as_deref().map_or(true, alnum));
        for b in &t.bidules {
            assert_eq!(b.numbers.len(), 20);
            assert_eq!(b.id.len(), 10);
        }
        for (key, s) in &t.stuff {
            assert!(alnum(key));
            assert!((5..15).contains(&s.tags.len()));
            assert!(s.tags.iter().all(|tag| tag.len() == 4 && alnum(tag)));
            assert!((3..500).contains(&s.quantity));
            assert!(s.name.as_deref().map_or(true, alnum));
        }
        for i in 0..t.stuff.len() {
            for j in i + 1..t.stuff.len() {
                assert_ne!(t.stuff[i].0, t.stuff[j].0);
            }
        }
    }
}

#[test]
fn detailed_fractions_in_range() {
    let mut r = RandomSource::new(11);
    for _ in 0..100 {
        let d = DetailedThing::new(&mut r);
        assert!(d.value < 1 << 24);
        assert!(d.coords.0 < 1 << 53 && d.coords.1 < 1 << 53);
    }
}

#[test]
fn var_thing_takes_both_shapes() {
    let mut r = RandomSource::new(2);
    let mut simple = 0;
    let mut detailed = 0;
    for _ in 0..100 {
        match VarThing::new(&mut r) {
            VarThing::Simple(s) => {
                assert!(alnum(&s));
                simple += 1;
            }
            VarThing::Detailed(_) => detailed += 1,
        }
    }
    assert!(simple > 0 && detailed > 0);
}

#[test]
fn optional_names_take_both_values() {
    let mut r = RandomSource::new(8);
    let mut some = 0;
    let mut none = 0;
    for _ in 0..100 {
        match Stuff::new(&mut r).name {
            Some(n) => {
                assert!(alnum(&n) && !n.is_empty());
                some += 1;
            }
            None => none += 1,
        }
    }
    assert!(some > 0 && none > 0);
}

#[test]
fn bidule_has_twenty_numbers() {
    let b = Bidule::new(&mut RandomSource::new(4));
    assert_eq!(b.numbers.len(), 20);
    assert_eq!(b.id.chars().count(), 10);
}

#[test]
fn conditions_in_order() {
    assert_eq!(Condition::default(), Condition::Any);
    assert_eq!(Condition::nth(0), Condition::Any);
    assert_eq!(Condition::nth(2), Condition::File);
    assert_eq!(Condition::nth(4), Condition::BinaryFile);
}

#[test]
fn insert_stuff_replaces_equal_key() {
    let mut r = RandomSource::new(6);
    let mut m: Vec<(String, Stuff)> = Vec::new();
    insert_stuff(&mut m, "k".to_string(), Stuff::new(&mut r));
    insert_stuff(&mut m, "j".to_string(), Stuff::new(&mut r));
    let s = Stuff::new(&mut r);
    let x = s.x;
    let q = s.quantity;
    insert_stuff(&mut m, "k".to_string(), s);
    assert_eq!(m.len(), 2);
    assert_eq!(m[0].0, "k");
    assert_eq!(m[0].1.x, x);
    assert_eq!(m[0].1.quantity, q);
    assert_eq!(m[1].0, "j");
}
