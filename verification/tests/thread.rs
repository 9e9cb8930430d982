use allora::thread::{
    claim, release, spawn, SpawnStep, ALL_BUSY, BOOT_CPUS, CORES, STACK_WORDS,
};

#[test]
fn boot_word_leaves_cores_1_and_2_free() {
    assert_eq!(BOOT_CPUS, !0b110u16);
    assert_eq!(claim(BOOT_CPUS), Some((1, 0xfffb)));
    assert_eq!(claim(0xfffb), Some((2, 0xffff)));
    assert_eq!(claim(0xffff), None);
}

#[test]
fn claim_takes_the_lowest_free_core() {
    assert_eq!(claim(0), Some((0, 1)));
    assert_eq!(claim(0b0111), Some((3, 0b1111)));
    assert_eq!(claim(0b0101), Some((1, 0b0111)));
    assert_eq!(claim(0x7fff), Some((15, 0xffff)));
    assert_eq!(claim(0xfff0), Some((0, 0xfff1)));
    assert_eq!(claim(ALL_BUSY), None);
}

#[test]
fn spawn_waits_when_all_cores_are_busy() {
    assert_eq!(spawn(ALL_BUSY), SpawnStep::Wait);
    assert_eq!(
        spawn(BOOT_CPUS),
        SpawnStep::Exchange { core: 1, current: BOOT_CPUS, new: 0xfffb }
    );
}

#[test]
fn release_frees_one_core() {
    assert_eq!(release(0xffff, 1), 0xfffd);
    assert_eq!(release(0xffff, 15), 0x7fff);
    assert_eq!(release(0xfffd, 1), 0xfffd);
    assert_eq!(release(0xffff, 16), 0xffff);
    assert_eq!(release(0xffff, 1000), 0xffff);
    assert_eq!(CORES, 16);
    assert_eq!(STACK_WORDS, 1024);
}

#[test]
fn no_core_is_granted_twice() {
    for start in [0u16, BOOT_CPUS, 0xaaaa, 0x8001, 0x00ff] {
        let free = start.count_zeros() as usize;
        let mut used = start;
        let mut granted = Vec::new();
        while let Some((core, new)) = claim(used) {
            assert!(!granted.contains(&core));
            assert_eq!(used & (1 << core), 0);
            assert_eq!(new, used | (1 << core));
            granted.push(core);
            used = new;
        }
        assert_eq!(granted.len(), free);
        assert_eq!(used, ALL_BUSY);
        assert_eq!(spawn(used), SpawnStep::Wait);
    }
}

#[test]
fn a_failed_exchange_is_tried_again_with_the_value_found() {
    // Two callers load the same word; one wins, the other sees the new word.
    let loaded = BOOT_CPUS;
    let first = spawn(loaded);
    let second = spawn(loaded);
    assert_eq!(first, second);
    let word = match first {
        SpawnStep::Exchange { core, current, new } => {
            assert_eq!((core, current), (1, loaded));
            new
        }
        SpawnStep::Wait => panic!("a core is free"),
    };
    match spawn(word) {
        SpawnStep::Exchange { core, current, new } => {
            assert_eq!(core, 2);
            assert_eq!(current, word);
            assert_eq!(new, ALL_BUSY);
        }
        SpawnStep::Wait => panic!("a core is free"),
    }
    assert_eq!(release(ALL_BUSY, 1), 0xfffd);
    assert_eq!(spawn(0xfffd), SpawnStep::Exchange { core: 1, current: 0xfffd, new: ALL_BUSY });
}
