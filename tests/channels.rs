use lorenz::channels::{channel, channel_name, check_normalizable, NormalizeError};
use lorenz::vector::trunc_3d;

#[test]
fn trunc_3d_keeps_the_first_three() {
    assert_eq!(trunc_3d([1, 2, 3, 4, 5]), [1, 2, 3]);
    assert_eq!(trunc_3d([0.5f32, -1.0, 2.0]), [0.5, -1.0, 2.0]);
}

#[test]
fn channel_picks_one_coordinate_of_each_state() {
    let samples: Vec<[i32; 3]> = vec![[1, 2, 3], [4, 5, 6], [7, 8, 9]];
    assert_eq!(channel(&samples, 1), vec![2, 5, 8]);
    assert_eq!(channel(&samples, 2), vec![3, 6, 9]);
    let none: Vec<[f32; 5]> = Vec::new();
    assert_eq!(channel(&none, 4), Vec::<f32>::new());
}

#[test]
fn channel_names_start_at_x() {
    let names: String = (0..5).map(channel_name).collect();
    assert_eq!(names, "xyzab");
    assert_eq!(channel_name(26), 'x');
    assert_eq!(channel_name(28), 'z');
    assert_eq!(channel_name(29), 'a');
}

#[test]
fn normalizing_refuses_empty_then_all_zero() {
    assert_eq!(check_normalizable(0, true), Err(NormalizeError::Empty));
    assert_eq!(check_normalizable(0, false), Err(NormalizeError::Empty));
    assert_eq!(check_normalizable(4, true), Err(NormalizeError::Degenerate));
    assert_eq!(check_normalizable(4, false), Ok(()));
}
