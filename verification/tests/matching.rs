use frame_match::frame::{Frame, FrameError, Identity};
use frame_match::pipeline::{match_all, MatchError};
use frame_match::score::{compare_frames, score_key, Policy, SimilarityScore};
use frame_match::select::{select_best, SelectError};

fn ident(name: &str) -> Identity {
    Identity { path: format!("/frames/{}", name), name: name.to_string() }
}

fn solid(name: &str, width: u32, height: u32, value: u8) -> Frame {
    let pixels = vec![value; (width * height) as usize];
    Frame::new(width, height, pixels, ident(name)).unwrap()
}

#[test]
fn identical_frames_score_the_identity_value() {
    let a = solid("a.png", 4, 3, 17);
    let b = solid("b.png", 4, 3, 17);
    let score = compare_frames(&a, &b).unwrap();
    assert_eq!(f64::from_bits(score.bits), 1.0);
}

#[test]
fn a_frame_against_itself_scores_the_identity_value() {
    let a = solid("a.png", 2, 2, 255);
    let score = compare_frames(&a, &a).unwrap();
    assert_eq!(f64::from_bits(score.bits), 1.0);
}

#[test]
fn differing_frames_score_below_the_identity_value() {
    let black = solid("black.png", 2, 2, 0);
    let white = solid("white.png", 2, 2, 255);
    let score = compare_frames(&black, &white).unwrap();
    assert_eq!(f64::from_bits(score.bits), 0.0);
}

#[test]
fn mismatched_dimensions_yield_an_error_naming_both_frames() {
    let a = solid("a.png", 2, 2, 0);
    let b = solid("b.png", 3, 2, 0);
    let err = compare_frames(&a, &b).unwrap_err();
    assert_eq!(err.left, ident("a.png"));
    assert_eq!(err.right, ident("b.png"));
}

#[test]
fn black_frame_matches_the_black_pool_frame() {
    let a = solid("a.png", 4, 4, 0);
    let pool = vec![solid("b.png", 4, 4, 0), solid("c.png", 4, 4, 255)];
    let sel = select_best(Policy::MaximizeRaw, &a, &pool).unwrap();
    assert_eq!(sel.result.source, ident("a.png"));
    assert_eq!(sel.result.chosen, ident("b.png"));
    assert_eq!(f64::from_bits(sel.score.bits), 1.0);
    assert!(sel.mismatches.is_empty());
    let worse = compare_frames(&a, &pool[1]).unwrap();
    assert!(f64::from_bits(worse.bits) < f64::from_bits(sel.score.bits));
}

#[test]
fn selection_under_absolute_policy_matches_the_identical_frame() {
    let a = solid("a.png", 4, 4, 0);
    let pool = vec![solid("c.png", 4, 4, 255), solid("b.png", 4, 4, 0)];
    let sel = select_best(Policy::MaximizeAbsolute, &a, &pool).unwrap();
    assert_eq!(sel.result.chosen, ident("b.png"));
}

#[test]
fn empty_pool_is_a_selection_error() {
    let a = solid("x.png", 2, 2, 0);
    let pool: Vec<Frame> = Vec::new();
    match select_best(Policy::MaximizeRaw, &a, &pool) {
        Err(SelectError::EmptyPool) => {},
        _ => panic!("an empty pool must be an error"),
    }
}

#[test]
fn empty_pool_aborts_the_whole_run_with_no_result() {
    let inputs = vec![solid("x.png", 2, 2, 0)];
    let pool: Vec<Frame> = Vec::new();
    match match_all(Policy::MaximizeRaw, &inputs, &pool) {
        Err(MatchError::EmptyPool) => {},
        _ => panic!("an empty pool must abort the run"),
    }
}

#[test]
fn chosen_identity_is_present_in_the_pool() {
    let a = solid("a.png", 3, 3, 100);
    let pool = vec![
        solid("p0.png", 3, 3, 90),
        solid("p1.png", 3, 3, 250),
        solid("p2.png", 3, 3, 101),
    ];
    let sel = select_best(Policy::MaximizeRaw, &a, &pool).unwrap();
    assert!(pool.iter().any(|p| p.identity == sel.result.chosen));
}

#[test]
fn equal_content_under_different_names_is_chosen_deterministically() {
    let a = solid("a.png", 4, 4, 30);
    let pool = vec![solid("twin1.png", 4, 4, 30), solid("twin2.png", 4, 4, 30)];
    let first = select_best(Policy::MaximizeAbsolute, &a, &pool).unwrap();
    let second = select_best(Policy::MaximizeAbsolute, &a, &pool).unwrap();
    assert_eq!(first.result.chosen, ident("twin1.png"));
    assert_eq!(second.result.chosen, first.result.chosen);
}

#[test]
fn running_the_pipeline_twice_pairs_the_frames_identically() {
    let inputs = vec![solid("i0.png", 3, 2, 10), solid("i1.png", 3, 2, 240)];
    let pool = vec![
        solid("p0.png", 3, 2, 15),
        solid("p1.png", 3, 2, 230),
        solid("p2.png", 3, 2, 128),
    ];
    let run1 = match_all(Policy::MaximizeAbsolute, &inputs, &pool).unwrap();
    let run2 = match_all(Policy::MaximizeAbsolute, &inputs, &pool).unwrap();
    assert_eq!(run1.len(), inputs.len());
    assert_eq!(run1.len(), run2.len());
    for (o1, o2) in run1.iter().zip(run2.iter()) {
        let s1 = o1.as_ref().unwrap();
        let s2 = o2.as_ref().unwrap();
        assert_eq!(s1.result, s2.result);
        assert_eq!(s1.score, s2.score);
    }
}

#[test]
fn incompatible_pool_frames_are_reported_but_do_not_abort() {
    let a = solid("a.png", 4, 4, 0);
    let pool = vec![
        solid("small.png", 2, 2, 0),
        solid("fits.png", 4, 4, 0),
        solid("tall.png", 4, 5, 0),
    ];
    let sel = select_best(Policy::MaximizeRaw, &a, &pool).unwrap();
    assert_eq!(sel.result.chosen, ident("fits.png"));
    assert_eq!(sel.mismatches.len(), 2);
    assert_eq!(sel.mismatches[0].left, ident("a.png"));
    assert_eq!(sel.mismatches[0].right, ident("small.png"));
    assert_eq!(sel.mismatches[1].right, ident("tall.png"));
}

#[test]
fn a_pool_with_no_compatible_frame_reports_every_pair() {
    let a = solid("a.png", 4, 4, 0);
    let pool = vec![solid("p0.png", 2, 2, 0), solid("p1.png", 8, 8, 0)];
    match select_best(Policy::MaximizeRaw, &a, &pool) {
        Err(SelectError::NoCompatibleFrame { mismatches }) => {
            assert_eq!(mismatches.len(), 2);
            assert_eq!(mismatches[0].left, ident("a.png"));
            assert_eq!(mismatches[0].right, ident("p0.png"));
            assert_eq!(mismatches[1].right, ident("p1.png"));
        },
        _ => panic!("no compatible frame must be an error"),
    }
}

#[test]
fn raw_keys_order_like_the_total_order_on_doubles() {
    let values = [-2.0f64, -0.5, -0.0, 0.0, 0.25, 1.0, 3.5];
    for x in values {
        for y in values {
            let kx = score_key(Policy::MaximizeRaw, x.to_bits());
            let ky = score_key(Policy::MaximizeRaw, y.to_bits());
            assert_eq!(kx < ky, x.total_cmp(&y).is_lt());
        }
    }
}

#[test]
fn absolute_keys_order_like_the_total_order_on_magnitudes() {
    let values = [-2.0f64, -0.5, -0.0, 0.0, 0.25, 1.0, 3.5];
    for x in values {
        for y in values {
            let kx = score_key(Policy::MaximizeAbsolute, x.to_bits());
            let ky = score_key(Policy::MaximizeAbsolute, y.to_bits());
            assert_eq!(kx < ky, x.abs().total_cmp(&y.abs()).is_lt());
        }
    }
}

#[test]
fn score_key_exact_values() {
    assert_eq!(score_key(Policy::MaximizeAbsolute, (-1.0f64).to_bits()), 0x3ff0_0000_0000_0000);
    assert_eq!(score_key(Policy::MaximizeRaw, 1.0f64.to_bits()), 0xbff0_0000_0000_0000);
    assert_eq!(score_key(Policy::MaximizeRaw, (-1.0f64).to_bits()), 0x400f_ffff_ffff_ffff);
    let _ = SimilarityScore { bits: 0 };
}

#[test]
fn an_empty_dimension_is_rejected() {
    assert_eq!(Frame::new(0, 3, Vec::new(), ident("z.png")), Err(FrameError::EmptyFrame));
    assert_eq!(Frame::new(3, 0, Vec::new(), ident("z.png")), Err(FrameError::EmptyFrame));
}

#[test]
fn a_short_buffer_is_rejected() {
    assert_eq!(
        Frame::new(2, 2, vec![0u8; 3], ident("z.png")),
        Err(FrameError::BufferSizeMismatch)
    );
}
