use mandelcloud::compute::{Action, Computation, Event, NumericError, StoreLookup};
use mandelcloud::evaluate::BAILOUT;
use mandelcloud::key::derive_key;
use mandelcloud::types::{ComputePointRequest, ComputePointResult, S3Config, SerComplex, SerFloat};
use std::collections::HashMap;

fn point(x: &str, y: &str, x_prec: u64, y_prec: u64) -> SerComplex {
    SerComplex {
        real: SerFloat { value: x.to_string(), prec: x_prec },
        imag: SerFloat { value: y.to_string(), prec: y_prec },
    }
}

fn ask(x: &str, y: &str, iterations: u32) -> ComputePointRequest {
    ComputePointRequest { c: point(x, y, 53, 53), iterations }
}

fn store_config() -> S3Config {
    S3Config::new("bucket".to_string(), "points/".to_string())
}

fn encode(z: (f64, f64)) -> SerComplex {
    point(&format!("{}", z.0), &format!("{}", z.1), 53, 53)
}

/// A driver in double precision over a store in memory. It counts its work.
struct Driver {
    store: HashMap<String, ComputePointResult>,
    store_fails: bool,
    gets: u32,
    puts: u32,
    decodes: u32,
    steps: u32,
}

fn new_driver() -> Driver {
    Driver { store: HashMap::new(), store_fails: false, gets: 0, puts: 0, decodes: 0, steps: 0 }
}

fn compute(d: &mut Driver, request: ComputePointRequest) -> Result<ComputePointResult, NumericError> {
    let (mut state, mut action) = Computation::begin(&store_config(), request);
    let mut c = (0.0f64, 0.0f64);
    let mut z = (0.0f64, 0.0f64);
    loop {
        let event = match action {
            Action::Get(key) => {
                d.gets += 1;
                if d.store_fails {
                    Event::Lookup(StoreLookup::Unavailable("no route".to_string()))
                } else {
                    match d.store.get(&key) {
                        Some(found) => Event::Lookup(StoreLookup::Hit(found.clone())),
                        None => Event::Lookup(StoreLookup::Miss),
                    }
                }
            }
            Action::Decode(p) => {
                d.decodes += 1;
                match (p.real.value.parse::<f64>(), p.imag.value.parse::<f64>()) {
                    (Ok(x), Ok(y)) => {
                        c = (x, y);
                        z = c;
                        Event::Decoded(Ok(encode(c)))
                    }
                    _ => Event::Decoded(Err(NumericError::InvalidNumericFormat)),
                }
            }
            Action::Step => {
                d.steps += 1;
                z = (z.0 * z.0 - z.1 * z.1 + c.0, 2.0 * z.0 * z.1 + c.1);
                Event::Stepped(z.0 * z.0 + z.1 * z.1 > BAILOUT as f64)
            }
            Action::Encode => Event::Encoded(encode(z)),
            Action::Put(key, result) => {
                d.puts += 1;
                if d.store_fails {
                    Event::Stored(false)
                } else {
                    d.store.insert(key, result);
                    Event::Stored(true)
                }
            }
            Action::Return(result) => return Ok(result),
            Action::Fail(e) => return Err(e),
            Action::Rejected => panic!("the driver answered out of turn"),
        };
        let next = state.advance(event);
        state = next.0;
        action = next.1;
    }
}

#[test]
fn begin_asks_for_the_derived_key() {
    let request = ask("0", "0", 10);
    let key = derive_key(&store_config(), &request);
    let (state, action) = Computation::begin(&store_config(), request.clone());
    assert_eq!(action, Action::Get(key.clone()));
    assert_eq!(state, Computation::Looking { key, request });
}

#[test]
fn miss_is_evaluated_written_and_returned() {
    let mut d = new_driver();
    let request = ask("1", "0", 10);
    let key = derive_key(&store_config(), &request);
    let result = compute(&mut d, request).unwrap();
    let expected = ComputePointResult {
        c: point("1", "0", 53, 53),
        escape_iteration: Some(1),
        computed_iterations: 2,
        final_value: point("5", "0", 53, 53),
    };
    assert_eq!(result, expected);
    assert_eq!(d.store.get(&key), Some(&expected));
    assert_eq!((d.gets, d.decodes, d.steps, d.puts), (1, 1, 2, 1));
}

#[test]
fn second_computation_is_served_from_the_store() {
    let mut d = new_driver();
    let first = compute(&mut d, ask("-1", "0", 1000)).unwrap();
    assert_eq!(first.escape_iteration, None);
    assert_eq!(first.computed_iterations, 1000);
    assert_eq!((d.gets, d.decodes, d.steps, d.puts), (1, 1, 1000, 1));
    let second = compute(&mut d, ask("-1", "0", 1000)).unwrap();
    assert_eq!(second, first);
    assert_eq!((d.gets, d.decodes, d.steps, d.puts), (2, 1, 1000, 1));
}

#[test]
fn computation_is_repeatable_with_the_cache_cleared() {
    let mut d = new_driver();
    let first = compute(&mut d, ask("0.3", "0.5", 200)).unwrap();
    d.store.clear();
    let second = compute(&mut d, ask("0.3", "0.5", 200)).unwrap();
    assert_eq!(first, second);
    assert_eq!(d.decodes, 2);
}

#[test]
fn hit_is_returned_unchanged() {
    let request = ask("0", "0", 10);
    let stored = ComputePointResult {
        c: point("7", "8", 9, 10),
        escape_iteration: Some(3),
        computed_iterations: 4,
        final_value: point("11", "12", 13, 14),
    };
    let (state, _) = Computation::begin(&store_config(), request);
    let (state, action) = state.advance(Event::Lookup(StoreLookup::Hit(stored.clone())));
    assert_eq!(action, Action::Return(stored));
    assert_eq!(state, Computation::Done);
}

#[test]
fn unavailable_store_falls_through_to_evaluation() {
    let mut d = new_driver();
    d.store_fails = true;
    let result = compute(&mut d, ask("2", "0", 100)).unwrap();
    assert_eq!(result.escape_iteration, Some(0));
    assert_eq!(result.computed_iterations, 1);
    assert_eq!(result.final_value, point("6", "0", 53, 53));
    assert_eq!((d.gets, d.decodes, d.steps, d.puts), (1, 1, 1, 1));
    assert!(d.store.is_empty());
}

#[test]
fn zero_iterations_returns_the_point_itself() {
    let mut d = new_driver();
    let result = compute(&mut d, ask("0.5", "0.25", 0)).unwrap();
    assert_eq!(result.computed_iterations, 0);
    assert_eq!(result.escape_iteration, None);
    assert_eq!(result.c, point("0.5", "0.25", 53, 53));
    assert_eq!(result.final_value, result.c);
    assert_eq!((d.steps, d.puts), (0, 1));
}

#[test]
fn budget_of_five_is_used_up() {
    let mut d = new_driver();
    let result = compute(&mut d, ask("0.25", "0", 5)).unwrap();
    assert_eq!(result.escape_iteration, None);
    assert_eq!(result.computed_iterations, 5);
    assert_eq!(d.steps, 5);
}

#[test]
fn malformed_coordinate_fails() {
    let mut d = new_driver();
    let outcome = compute(&mut d, ask("one", "0", 5));
    assert_eq!(outcome, Err(NumericError::InvalidNumericFormat));
    assert_eq!((d.steps, d.puts), (0, 0));
}

#[test]
fn precision_of_zero_bits_fails() {
    let mut d = new_driver();
    let request = ComputePointRequest { c: point("0", "0", 0, 53), iterations: 5 };
    assert_eq!(compute(&mut d, request), Err(NumericError::UnsupportedPrecision));
    let request = ComputePointRequest { c: point("0", "0", 53, 0), iterations: 5 };
    assert_eq!(compute(&mut d, request), Err(NumericError::UnsupportedPrecision));
    assert_eq!((d.decodes, d.steps, d.puts), (0, 0, 0));
}

#[test]
fn unsupported_precision_from_the_decoder_fails() {
    let (state, _) = Computation::begin(&store_config(), ask("0", "0", 5));
    let (state, action) = state.advance(Event::Lookup(StoreLookup::Miss));
    assert_eq!(action, Action::Decode(point("0", "0", 53, 53)));
    let (state, action) = state.advance(Event::Decoded(Err(NumericError::UnsupportedPrecision)));
    assert_eq!(action, Action::Fail(NumericError::UnsupportedPrecision));
    assert_eq!(state, Computation::Done);
}

#[test]
fn event_out_of_turn_is_rejected() {
    let request = ask("0", "0", 5);
    let (state, _) = Computation::begin(&store_config(), request);
    let before = state.clone();
    let (state, action) = state.advance(Event::Stepped(true));
    assert_eq!(action, Action::Rejected);
    assert_eq!(state, before);
    let (state, action) = Computation::Done.advance(Event::Stored(true));
    assert_eq!(action, Action::Rejected);
    assert_eq!(state, Computation::Done);
}

#[test]
fn failed_write_still_returns_the_result() {
    let result = ComputePointResult {
        c: point("0", "0", 53, 53),
        escape_iteration: None,
        computed_iterations: 3,
        final_value: point("0", "0", 53, 53),
    };
    let state = Computation::Storing { result: result.clone() };
    let (state, action) = state.advance(Event::Stored(false));
    assert_eq!(action, Action::Return(result));
    assert_eq!(state, Computation::Done);
}
