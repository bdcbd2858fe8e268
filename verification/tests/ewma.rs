use metrics::ewma::EWMA;
use metrics::ewma::RATE_SCALE;
use metrics::ewma::Window;

fn rate_per_sec(e: &EWMA) -> f64 {
    e.rate() as f64 / RATE_SCALE as f64
}

// Tick a minute
fn elapse_minute(e: &mut EWMA) {
    for _ in 0..12 {
        e.tick();
    }
}

// Returns whether the rate() is within 0.0001 of expected after ticking a minute
fn within(e: &mut EWMA, expected: f64) -> bool {
    elapse_minute(e);
    let r = rate_per_sec(e);
    (r - expected).abs() < 0.0001
}

#[test]
fn ewma1() {
    let mut e = EWMA::new(Window::OneMinute);
    e.update(3);
    e.tick();

    // initial
    let r = rate_per_sec(&e);
    assert_eq!(r, 0.6);

    // 1 minute
    assert_eq!(within(&mut e, 0.22072766470286553), true);

    // 2 minute
    assert_eq!(within(&mut e, 0.08120116994196772), true);

    // 3 minute
    assert_eq!(within(&mut e, 0.029872241020718428), true);

    // 4 minute
    assert_eq!(within(&mut e, 0.01098938333324054), true);

    // 5 minute
    assert_eq!(within(&mut e, 0.004042768199451294), true);

    // 6 minute
    assert_eq!(within(&mut e, 0.0014872513059998212), true);

    // 7 minute
    assert_eq!(within(&mut e, 0.0005471291793327122), true);

    // 8 minute
    assert_eq!(within(&mut e, 0.00020127757674150815), true);

    // 9 minute
    assert_eq!(within(&mut e, 7.404588245200814e-05), true);

    // 10 minute
    assert_eq!(within(&mut e, 2.7239957857491083e-05), true);

    // 11 minute
    assert_eq!(within(&mut e, 1.0021020474147462e-05), true);

    // 12 minute
    assert_eq!(within(&mut e, 3.6865274119969525e-06), true);

    // 13 minute
    assert_eq!(within(&mut e, 1.3561976441886433e-06), true);

    // 14 minute
    assert_eq!(within(&mut e, 4.989172314621449e-07), true);

    // 15 minute
    assert_eq!(within(&mut e, 1.8354139230109722e-07), true);
}

#[test]
fn ewma5() {
    let mut e = EWMA::new(Window::FiveMinutes);
    e.update(3);
    e.tick();

    let r = rate_per_sec(&e);
    assert_eq!(r, 0.6);

    // 1 minute
    assert_eq!(within(&mut e, 0.49123845184678905), true);

    // 2 minute
    assert_eq!(within(&mut e, 0.4021920276213837), true);

    // 3 minute
    assert_eq!(within(&mut e, 0.32928698165641596), true);

    // 4 minute
    assert_eq!(within(&mut e, 0.269597378470333), true);

    // 5 minute
    assert_eq!(within(&mut e, 0.2207276647028654), true);

    // 6 minute
    assert_eq!(within(&mut e, 0.18071652714732128), true);

    // 7 minute
    assert_eq!(within(&mut e, 0.14795817836496392), true);

    // 8 minute
    assert_eq!(within(&mut e, 0.12113791079679326), true);

    // 9 minute
    assert_eq!(within(&mut e, 0.09917933293295193), true);

    // 10 minute
    assert_eq!(within(&mut e, 0.08120116994196763), true);

    // 11 minute
    assert_eq!(within(&mut e, 0.06648189501740036), true);

    // 12 minute
    assert_eq!(within(&mut e, 0.05443077197364752), true);

    // 13 minute
    assert_eq!(within(&mut e, 0.04456414692860035), true);

    // 14 minute
    assert_eq!(within(&mut e, 0.03648603757513079), true);

    // 15 minute
    assert_eq!(within(&mut e, 0.0298722410207183831020718428), true);
}

#[test]
fn ewma15() {
    let mut e = EWMA::new(Window::FifteenMinutes);
    e.update(3);
    e.tick();

    let r = rate_per_sec(&e);
    assert_eq!(r, 0.6);

    // 1 minute
    assert_eq!(within(&mut e, 0.5613041910189706), true);

    // 2 minute
    assert_eq!(within(&mut e, 0.5251039914257684), true);

    // 3 minute
    assert_eq!(within(&mut e, 0.4912384518467888184678905), true);

    // 4 minute
    assert_eq!(within(&mut e, 0.459557003018789), true);

    // 5 minute
    assert_eq!(within(&mut e, 0.4299187863442732), true);

    // 6 minute
    assert_eq!(within(&mut e, 0.4021920276213831), true);

    // 7 minute
    assert_eq!(within(&mut e, 0.37625345116383313), true);

    // 8 minute
    assert_eq!(within(&mut e, 0.3519877317060185), true);

    // 9 minute
    assert_eq!(within(&mut e, 0.3292869816564153165641596), true);

    // 10 minute
    assert_eq!(within(&mut e, 0.3080502714195546), true);

    // 11 minute
    assert_eq!(within(&mut e, 0.2881831806538789), true);

    // 12 minute
    assert_eq!(within(&mut e, 0.26959737847033216), true);

    // 13 minute
    assert_eq!(within(&mut e, 0.2522102307052083), true);

    // 14 minute
    assert_eq!(within(&mut e, 0.23594443252115815), true);

    // 15 minute
    assert_eq!(within(&mut e, 0.2207276647028646247028654470286553), true);
}

#[test]
fn ewma_first_tick_is_exact_fixed_point() {
    // a burst of three events over one five-second interval: 0.6 per second
    let mut e = EWMA::new(Window::OneMinute);
    e.update(3);
    e.tick();
    assert_eq!(e.rate(), 600_000_000_000);
    assert_eq!(e.snapshot().rate(), 600_000_000_000);
}

#[test]
fn ewma_idle_ticks_never_raise_the_rate() {
    let mut e = EWMA::new(Window::FiveMinutes);
    e.update(1000);
    e.tick();
    let mut last = e.rate();
    for _ in 0..100 {
        e.tick();
        let next = e.rate();
        assert!(next <= last);
        last = next;
    }
}

#[test]
fn ewma_update_accumulates_until_tick() {
    let mut e = EWMA::new(Window::OneMinute);
    e.update(2);
    e.update(1);
    // no tick yet: the decayed rate still reads zero
    assert_eq!(e.rate(), 0);
    e.tick();
    assert_eq!(e.rate(), 600_000_000_000);
}
