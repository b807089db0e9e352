use voxel_mesher::direction::Direction;

#[test]
fn direction_indices_are_stable() {
    assert_eq!(Direction::PosX.to_idx(), 0);
    assert_eq!(Direction::PosY.to_idx(), 1);
    assert_eq!(Direction::PosZ.to_idx(), 2);
    assert_eq!(Direction::NegX.to_idx(), 3);
    assert_eq!(Direction::NegY.to_idx(), 4);
    assert_eq!(Direction::NegZ.to_idx(), 5);
}

#[test]
fn opposite_flips_axis_sign() {
    assert_eq!(Direction::PosX.opposite(), Direction::NegX);
    assert_eq!(Direction::PosY.opposite(), Direction::NegY);
    assert_eq!(Direction::PosZ.opposite(), Direction::NegZ);
    assert_eq!(Direction::NegX.opposite(), Direction::PosX);
    assert_eq!(Direction::NegY.opposite(), Direction::PosY);
    assert_eq!(Direction::NegZ.opposite(), Direction::PosZ);
}

#[test]
fn opposite_is_an_involution() {
    let all = [
        Direction::PosX,
        Direction::PosY,
        Direction::PosZ,
        Direction::NegX,
        Direction::NegY,
        Direction::NegZ,
    ];
    for d in all {
        assert_eq!(d.opposite().opposite(), d);
    }
}

#[test]
fn iterator_yields_all_six_in_index_order() {
    let mut it = Direction::iter();
    assert_eq!(it.next(), Some(Direction::PosX));
    assert_eq!(it.next(), Some(Direction::PosY));
    assert_eq!(it.next(), Some(Direction::PosZ));
    assert_eq!(it.next(), Some(Direction::NegX));
    assert_eq!(it.next(), Some(Direction::NegY));
    assert_eq!(it.next(), Some(Direction::NegZ));
    assert_eq!(it.next(), None);
}

#[test]
fn from_u64_wraps_modulo_six() {
    assert_eq!(Direction::from(0u64), Direction::PosX);
    assert_eq!(Direction::from(5u64), Direction::NegZ);
    assert_eq!(Direction::from(7u64), Direction::PosY);
    assert_eq!(Direction::from(12u64), Direction::PosX);
}
