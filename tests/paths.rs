use ray_tracer::camera::image_height;
use ray_tracer::material::{scatter_outcome, Surface};
use ray_tracer::path::{advance, begin, trace, Outcome, PathEnd, Step};

#[test]
fn zero_depth_is_black() {
    assert_eq!(begin(0), Step::Done(PathEnd::Black));
    assert_eq!(trace(0, &vec![Outcome::Miss]), (Step::Done(PathEnd::Black), 0));
    assert_eq!(trace(0, &vec![]), (Step::Done(PathEnd::Black), 0));
}

#[test]
fn advance_follows_outcome() {
    assert_eq!(begin(3), Step::Trace { depth: 3 });
    assert_eq!(advance(3, Outcome::Miss), Step::Done(PathEnd::Sky));
    assert_eq!(advance(3, Outcome::Absorbed), Step::Done(PathEnd::Black));
    assert_eq!(advance(3, Outcome::Scattered), Step::Trace { depth: 2 });
    assert_eq!(advance(1, Outcome::Scattered), Step::Done(PathEnd::Black));
}

#[test]
fn trace_counts_scatters_until_sky() {
    let outs = vec![Outcome::Scattered, Outcome::Scattered, Outcome::Miss, Outcome::Absorbed];
    assert_eq!(trace(5, &outs), (Step::Done(PathEnd::Sky), 2));
}

#[test]
fn trace_runs_out_of_budget() {
    let outs = vec![Outcome::Scattered, Outcome::Scattered, Outcome::Scattered];
    assert_eq!(trace(2, &outs), (Step::Done(PathEnd::Black), 2));
    assert_eq!(trace(1, &vec![Outcome::Scattered, Outcome::Miss]), (Step::Done(PathEnd::Black), 1));
}

#[test]
fn trace_stops_when_absorbed() {
    let outs = vec![Outcome::Scattered, Outcome::Absorbed, Outcome::Miss];
    assert_eq!(trace(4, &outs), (Step::Done(PathEnd::Black), 1));
}

#[test]
fn trace_with_outcomes_left_to_come() {
    let outs = vec![Outcome::Scattered];
    assert_eq!(trace(4, &outs), (Step::Trace { depth: 3 }, 1));
}

#[test]
fn lambertian_and_glass_never_absorb() {
    assert_eq!(scatter_outcome(Surface::Lambertian, true), Outcome::Scattered);
    assert_eq!(scatter_outcome(Surface::Lambertian, false), Outcome::Scattered);
    assert_eq!(scatter_outcome(Surface::Dielectric, false), Outcome::Scattered);
}

#[test]
fn metal_absorbs_below_surface() {
    assert_eq!(scatter_outcome(Surface::Metal, false), Outcome::Absorbed);
    assert_eq!(scatter_outcome(Surface::Metal, true), Outcome::Scattered);
}

#[test]
fn image_height_rounds_and_stays_positive() {
    assert_eq!(image_height(400, 16, 9), 225);
    assert_eq!(image_height(1200, 16, 9), 675);
    assert_eq!(image_height(100, 3, 1), 33);
    assert_eq!(image_height(5, 2, 1), 3);
    assert_eq!(image_height(1, 16, 9), 1);
    assert_eq!(image_height(0, 16, 9), 1);
    assert_eq!(image_height(u32::MAX, 1, u32::MAX), (u32::MAX as u64) * (u32::MAX as u64));
}
