use fractal_saver::color::ColorStop;
use fractal_saver::config::Algorithm;
use fractal_saver::json::Json;
use fractal_saver::saver::{select, Saver, State};
use rand::rngs::StdRng;
use rand::SeedableRng;

fn text(s: &str) -> Json {
    Json::Text(s.to_string())
}

fn obj(pairs: Vec<(&str, Json)>) -> Json {
    Json::Object(pairs.into_iter().map(|(k, v)| (k.to_string(), v)).collect())
}

fn table(defs: Vec<Json>) -> Json {
    obj(vec![("define", Json::Array(defs))])
}

fn julia() -> Json {
    obj(vec![("algorithm", text("julia")), ("iter", text("40"))])
}

#[test]
fn selection_is_roughly_uniform() {
    let mut rng = StdRng::seed_from_u64(7);
    let n = 4usize;
    let mut counts = vec![0usize; n];
    for _ in 0..8000 {
        let i = select(n, &mut rng).unwrap();
        assert!(i < n);
        counts[i] += 1;
    }
    for c in counts {
        assert!(c > 1700 && c < 2300, "count {}", c);
    }
}

#[test]
fn selection_of_nothing() {
    let mut rng = StdRng::seed_from_u64(1);
    assert_eq!(select(0, &mut rng), None);
    assert_eq!(select(1, &mut rng), Some(0));
}

#[test]
fn empty_config_is_inert() {
    let mut rng = StdRng::seed_from_u64(3);
    let mut s = Saver::new();
    s.config(&table(vec![]), &mut rng).unwrap();
    assert_eq!(s.state(), State::Configured);
    s.start();
    for _ in 0..5 {
        assert!(s.current().is_none());
        s.update();
    }
    assert_eq!(s.gradient().unwrap().len(), 3);
}

#[test]
fn ticks_replay() {
    let mut rng = StdRng::seed_from_u64(11);
    let mut a = Saver::new();
    a.config(&table(vec![julia(), julia(), julia()]), &mut rng).unwrap();
    a.start();
    for _ in 0..25 {
        a.update();
    }
    let (_, tick) = a.current().unwrap();
    assert_eq!(tick, 25);
    assert_eq!(a.tick(), 25);
    assert!(matches!(a.current().unwrap().0.algorithm, Algorithm::Julia(_)));
}

#[test]
fn lifecycle() {
    let mut rng = StdRng::seed_from_u64(5);
    let mut s = Saver::new();
    assert_eq!(s.state(), State::Uninitialized);
    s.start();
    assert_eq!(s.state(), State::Uninitialized);
    assert!(s.current().is_none());
    assert!(s.gradient().is_none());
    s.config(&table(vec![julia()]), &mut rng).unwrap();
    assert_eq!(s.state(), State::Configured);
    s.update();
    assert_eq!(s.tick(), 0);
    s.start();
    assert_eq!(s.state(), State::Running);
    s.update();
    s.update();
    assert_eq!(s.tick(), 2);
    s.stop();
    assert_eq!(s.state(), State::Stopped);
    s.stop();
    assert_eq!(s.state(), State::Stopped);
    s.update();
    assert_eq!(s.tick(), 2);
    s.start();
    assert_eq!(s.state(), State::Running);
    s.config(&table(vec![julia()]), &mut rng).unwrap();
    assert_eq!(s.tick(), 0);
    assert_eq!(s.state(), State::Configured);
}

#[test]
fn failed_config_keeps_session() {
    let mut rng = StdRng::seed_from_u64(9);
    let mut s = Saver::new();
    s.config(&table(vec![julia()]), &mut rng).unwrap();
    s.start();
    s.update();
    let bad = table(vec![obj(vec![("algorithm", text("julia")), ("iter", text("1 +"))])]);
    assert!(s.config(&bad, &mut rng).is_err());
    assert_eq!(s.state(), State::Running);
    assert_eq!(s.tick(), 1);
    assert!(s.current().is_some());
}

#[test]
fn gradient_override_and_fallback() {
    let mut rng = StdRng::seed_from_u64(2);
    let mut s = Saver::new();
    let own = obj(vec![("algorithm", text("julia")), ("gradient", Json::Array(vec![text("#010203")]))]);
    s.config(&table(vec![own]), &mut rng).unwrap();
    assert_eq!(s.gradient().unwrap(), &vec![ColorStop { red: 1, green: 2, blue: 3 }]);
    let empty = obj(vec![("algorithm", text("julia")), ("gradient", Json::Array(vec![text("nope")]))]);
    s.config(&table(vec![empty]), &mut rng).unwrap();
    assert_eq!(s.gradient().unwrap().len(), 3);
}

#[test]
fn default_session_is_unconfigured() {
    let s = Saver::default();
    assert_eq!(s.state(), State::Uninitialized);
    assert_eq!(s.tick(), 0);
    assert!(s.current().is_none());
}
