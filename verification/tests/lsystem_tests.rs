use voxel_mesher::lsystem::LSystem;

#[test]
fn apply_replaces_matching_letters() {
    // 0 expands to [1, 0]; everything else survives
    let system = LSystem::new(|letter: &u32, _seed: u32| {
        if *letter == 0 {
            Some(vec![1u32, 0u32])
        } else {
            None
        }
    });
    let out = system.apply_to(&vec![0u32, 1u32, 0u32], 0);
    assert_eq!(out, vec![1, 0, 1, 1, 0]);
}

#[test]
fn apply_to_empty_sentence_is_empty() {
    let system = LSystem::new(|_letter: &u8, _seed: u32| Option::<Vec<u8>>::None);
    let out = system.apply_to(&Vec::new(), 42);
    assert_eq!(out, Vec::<u8>::new());
}

#[test]
fn producer_sees_seed_advanced_per_letter() {
    // the rule replaces each letter with its per-letter seed
    let system = LSystem::new(|_letter: &u32, seed: u32| Some(vec![seed]));
    let out = system.apply_to(&vec![9u32, 9u32, 9u32], 10);
    assert_eq!(out, vec![10, 11, 12]);
}

#[test]
fn iterate_applies_passes_in_sequence() {
    let system = LSystem::new(|letter: &u32, _seed: u32| {
        if *letter == 0 {
            Some(vec![1u32, 0u32])
        } else {
            None
        }
    });
    // [0] -> [1, 0] -> [1, 1, 0]
    let out = system.iterate(&vec![0u32], 2, 0);
    assert_eq!(out, vec![1, 1, 0]);
    let out = system.iterate(&vec![0u32], 3, 0);
    assert_eq!(out, vec![1, 1, 1, 0]);
}

#[test]
fn iterate_zero_times_gives_empty_sentence() {
    // zero iterations yield the empty sentence, not the input
    let system = LSystem::new(|_letter: &u32, _seed: u32| Option::<Vec<u32>>::None);
    let out = system.iterate(&vec![5u32, 6u32], 0, 0);
    assert_eq!(out, Vec::<u32>::new());
}
