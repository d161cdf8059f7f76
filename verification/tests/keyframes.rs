use css2mp4_core::keyframes::{
    animation_type_for, kept_indices, merge_keyframe_indices, motion_frame_count,
    motion_property_keys, property_shape, PropertyShape,
};

#[test]
fn short_motions_keep_every_frame() {
    assert_eq!(merge_keyframe_indices(0, &vec![5]), Vec::<usize>::new());
    assert_eq!(merge_keyframe_indices(1, &vec![]), vec![0]);
    assert_eq!(merge_keyframe_indices(2, &vec![7]), vec![0, 1]);
}

#[test]
fn merge_keeps_ends_and_proposals_sorted_once() {
    assert_eq!(merge_keyframe_indices(100, &vec![50, 0, 99, 50, 25]), vec![0, 25, 50, 99]);
    assert_eq!(merge_keyframe_indices(10, &vec![]), vec![0, 9]);
    assert_eq!(merge_keyframe_indices(10, &vec![9, 3, 3, 1]), vec![0, 1, 3, 9]);
}

#[test]
fn kept_indices_lists_set_flags() {
    assert_eq!(kept_indices(&vec![true, false, false, true, true]), vec![0, 3, 4]);
    assert_eq!(kept_indices(&vec![]), Vec::<usize>::new());
    assert_eq!(kept_indices(&vec![false, false]), Vec::<usize>::new());
}

#[test]
fn frame_count_is_longest_series() {
    assert_eq!(motion_frame_count(3, 3, 1, 3, 3), 3);
    assert_eq!(motion_frame_count(0, 0, 0, 0, 7), 7);
    assert_eq!(motion_frame_count(0, 0, 0, 0, 0), 0);
}

#[test]
fn property_shapes() {
    assert_eq!(property_shape(0), None);
    assert_eq!(property_shape(1), Some(PropertyShape::Static));
    assert_eq!(property_shape(3), Some(PropertyShape::Keyframes));
}

#[test]
fn animation_types() {
    assert_eq!(animation_type_for(PropertyShape::Static), "なし");
    assert_eq!(animation_type_for(PropertyShape::Keyframes), "自動");
}

#[test]
fn motion_keys_in_order() {
    assert_eq!(motion_property_keys(), vec!["X", "Y", "Zoom", "Rotation", "Opacity"]);
}
