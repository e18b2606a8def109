use albatross::policy::Policy;

fn initialize_policy() -> Policy {
    let mut policy_config = Policy::test_policy();
    policy_config.genesis_block_number = 200;

    let mut cell: Option<Policy> = None;
    Policy::get_or_init(&mut cell, policy_config)
}

#[test]
fn it_correctly_computes_epoch() {
    let p = initialize_policy();
    assert_eq!(p.epoch_at(p.genesis_block_number()), 0);
    assert_eq!(p.epoch_at(1 + p.genesis_block_number()), 1);
    assert_eq!(
        p.epoch_at(p.blocks_per_epoch() + p.genesis_block_number()),
        1
    );
    assert_eq!(
        p.epoch_at(
            p.blocks_per_epoch() + p.genesis_block_number() + 1
        ),
        2
    );
}

#[test]
fn it_correctly_computes_epoch_index() {
    let p = initialize_policy();
    assert_eq!(
        p.epoch_index_at(1 + p.genesis_block_number()),
        0
    );
    assert_eq!(
        p.epoch_index_at(2 + p.genesis_block_number()),
        1
    );
    assert_eq!(
        p.epoch_index_at(
            p.blocks_per_epoch() + p.genesis_block_number()
        ),
        127
    );
    assert_eq!(
        p.epoch_index_at(
            p.blocks_per_epoch() + p.genesis_block_number() + 1
        ),
        0
    );
}

#[test]
fn it_correctly_computes_batch() {
    let p = initialize_policy();
    assert_eq!(p.batch_at(p.genesis_block_number()), 0);
    assert_eq!(p.batch_at(1 + p.genesis_block_number()), 1);
    assert_eq!(
        p.batch_at(p.blocks_per_batch() + p.genesis_block_number()),
        1
    );
    assert_eq!(
        p.batch_at(
            p.blocks_per_batch() + p.genesis_block_number() + 1
        ),
        2
    );
}

#[test]
fn it_correctly_computes_batch_index() {
    let p = initialize_policy();
    assert_eq!(
        p.batch_index_at(1 + p.genesis_block_number()),
        0
    );
    assert_eq!(
        p.batch_index_at(2 + p.genesis_block_number()),
        1
    );
    assert_eq!(
        p.batch_index_at(
            p.blocks_per_epoch() + p.genesis_block_number()
        ),
        31
    );
    assert_eq!(
        p.batch_index_at(
            p.blocks_per_epoch() + p.genesis_block_number() + 1
        ),
        0
    );
}

#[test]
fn it_correctly_computes_block_positions() {
    let p = initialize_policy();
    assert_eq!(
        p.is_macro_block_at(p.genesis_block_number()),
        true
    );
    assert_eq!(
        !p.is_micro_block_at(p.genesis_block_number()),
        true
    );
    assert_eq!(
        p.is_election_block_at(p.genesis_block_number()),
        true
    );

    assert_eq!(
        p.is_macro_block_at(1 + p.genesis_block_number()),
        false
    );
    assert_eq!(
        !p.is_micro_block_at(1 + p.genesis_block_number()),
        false
    );
    assert_eq!(
        p.is_election_block_at(1 + p.genesis_block_number()),
        false
    );

    assert_eq!(
        p.is_macro_block_at(2 + p.genesis_block_number()),
        false
    );
    assert_eq!(
        !p.is_micro_block_at(2 + p.genesis_block_number()),
        false
    );
    assert_eq!(
        p.is_election_block_at(2 + p.genesis_block_number()),
        false
    );

    assert_eq!(
        p.is_macro_block_at(
            p.blocks_per_batch() + p.genesis_block_number()
        ),
        true
    );
    assert_eq!(
        p.is_micro_block_at(
            p.blocks_per_batch() + p.genesis_block_number()
        ),
        false
    );
    assert_eq!(
        p.is_election_block_at(
            p.blocks_per_batch() + p.genesis_block_number()
        ),
        false
    );

    assert_eq!(
        p.is_macro_block_at(127 + p.genesis_block_number()),
        false
    );
    assert_eq!(
        !p.is_micro_block_at(127 + p.genesis_block_number()),
        false
    );
    assert_eq!(
        p.is_election_block_at(127 + p.genesis_block_number()),
        false
    );

    assert_eq!(
        p.is_macro_block_at(
            p.blocks_per_epoch() + p.genesis_block_number()
        ),
        true
    );
    assert_eq!(
        !p.is_micro_block_at(
            p.blocks_per_epoch() + p.genesis_block_number()
        ),
        true
    );
    assert_eq!(
        p.is_election_block_at(
            p.blocks_per_epoch() + p.genesis_block_number()
        ),
        true
    );

    assert_eq!(
        p.is_macro_block_at(
            p.blocks_per_epoch() + p.genesis_block_number() + 1
        ),
        false
    );
    assert_eq!(
        !p.is_micro_block_at(
            p.blocks_per_epoch() + p.genesis_block_number() + 1
        ),
        false
    );
    assert_eq!(
        p.is_election_block_at(
            p.blocks_per_epoch() + p.genesis_block_number() + 1
        ),
        false
    );

    assert_eq!(
        p.is_macro_block_at(
            p.blocks_per_epoch()
                + p.blocks_per_batch()
                + p.genesis_block_number()
        ),
        true
    );
    assert_eq!(
        p.is_micro_block_at(
            p.blocks_per_epoch()
                + p.blocks_per_batch()
                + p.genesis_block_number()
        ),
        false
    );
    assert_eq!(
        p.is_election_block_at(
            p.blocks_per_epoch()
                + p.blocks_per_batch()
                + p.genesis_block_number()
        ),
        false
    );
}

#[test]
fn it_correctly_computes_macro_numbers() {
    let p = initialize_policy();
    assert_eq!(
        p.macro_block_after(p.genesis_block_number()),
        p.genesis_block_number() + p.blocks_per_batch()
    );
    assert_eq!(
        p.macro_block_after(1 + p.genesis_block_number()),
        p.genesis_block_number() + p.blocks_per_batch()
    );
    assert_eq!(
        p.macro_block_after(127 + p.genesis_block_number()),
        p.genesis_block_number() + p.blocks_per_epoch()
    );
    assert_eq!(
        p.macro_block_after(
            p.blocks_per_epoch() + p.genesis_block_number()
        ),
        p.genesis_block_number() + 160
    );
    assert_eq!(
        p.macro_block_after(129 + p.genesis_block_number()),
        p.genesis_block_number() + 160
    );

    assert_eq!(
        p.macro_block_before(1 + p.genesis_block_number()),
        p.genesis_block_number()
    );
    assert_eq!(
        p.macro_block_before(2 + p.genesis_block_number()),
        p.genesis_block_number()
    );
    assert_eq!(
        p.macro_block_before(127 + p.genesis_block_number()),
        p.genesis_block_number() + 96
    );
    assert_eq!(
        p.macro_block_before(128 + p.genesis_block_number()),
        p.genesis_block_number() + 96
    );
    assert_eq!(
        p.macro_block_before(129 + p.genesis_block_number()),
        p.genesis_block_number() + p.blocks_per_epoch()
    );
    assert_eq!(
        p.macro_block_before(130 + p.genesis_block_number()),
        p.genesis_block_number() + p.blocks_per_epoch()
    );
    assert_eq!(
        p.last_macro_block(p.genesis_block_number()),
        p.genesis_block_number()
    );
    assert_eq!(
        p.last_macro_block(1 + p.genesis_block_number()),
        p.genesis_block_number()
    );
    assert_eq!(
        p.last_macro_block(31 + p.genesis_block_number()),
        p.genesis_block_number()
    );

    assert_eq!(
        p.last_macro_block(
            p.blocks_per_batch() + p.genesis_block_number() + 1
        ),
        p.genesis_block_number() + 32
    );
}

#[test]
fn it_correctly_computes_election_numbers() {
    let p = initialize_policy();
    assert_eq!(
        p.election_block_after(p.genesis_block_number()),
        p.genesis_block_number() + p.blocks_per_epoch()
    );
    assert_eq!(
        p.election_block_after(1 + p.genesis_block_number()),
        p.genesis_block_number() + p.blocks_per_epoch()
    );
    assert_eq!(
        p.election_block_after(127 + p.genesis_block_number()),
        p.genesis_block_number() + p.blocks_per_epoch()
    );
    assert_eq!(
        p.election_block_after(128 + p.genesis_block_number()),
        p.genesis_block_number() + 256
    );
    assert_eq!(
        p.election_block_after(129 + p.genesis_block_number()),
        p.genesis_block_number() + 256
    );

    assert_eq!(
        p.election_block_before(1 + p.genesis_block_number()),
        p.genesis_block_number()
    );
    assert_eq!(
        p.election_block_before(2 + p.genesis_block_number()),
        p.genesis_block_number()
    );
    assert_eq!(
        p.election_block_before(127 + p.genesis_block_number()),
        p.genesis_block_number()
    );
    assert_eq!(
        p.election_block_before(
            p.blocks_per_epoch() + p.genesis_block_number()
        ),
        p.genesis_block_number()
    );
    assert_eq!(
        p.election_block_before(
            p.blocks_per_epoch() + 1 + p.genesis_block_number()
        ),
        p.genesis_block_number() + p.blocks_per_epoch()
    );
    assert_eq!(
        p.election_block_before(
            p.blocks_per_epoch() + 2 + p.genesis_block_number()
        ),
        p.genesis_block_number() + p.blocks_per_epoch()
    );

    assert_eq!(
        p.last_election_block(p.genesis_block_number()),
        p.genesis_block_number()
    );
    assert_eq!(
        p.last_election_block(1 + p.genesis_block_number()),
        p.genesis_block_number()
    );
    assert_eq!(
        p.last_election_block(127 + p.genesis_block_number()),
        p.genesis_block_number()
    );
    assert_eq!(
        p.last_election_block(
            p.blocks_per_epoch() + p.genesis_block_number()
        ),
        p.genesis_block_number() + p.blocks_per_epoch()
    );
    assert_eq!(
        p.last_election_block(
            p.blocks_per_epoch() + p.genesis_block_number() + 1
        ),
        p.genesis_block_number() + p.blocks_per_epoch()
    );
}

#[test]
fn it_correctly_commutes_first_ofs() {
    let p = initialize_policy();
    assert_eq!(
        p.first_block_of(1),
        Some(p.genesis_block_number() + 1)
    );
    assert_eq!(
        p.first_block_of(2),
        Some(p.genesis_block_number() + p.blocks_per_epoch() + 1)
    );

    assert_eq!(
        p.first_block_of_batch(1),
        Some(1 + p.genesis_block_number())
    );
    assert_eq!(
        p.first_block_of_batch(2),
        Some(33 + p.genesis_block_number())
    );
    assert_eq!(
        p.first_block_of_batch(3),
        Some(65 + p.genesis_block_number())
    );
    assert_eq!(
        p.first_block_of_batch(4),
        Some(97 + p.genesis_block_number())
    );
    assert_eq!(
        p.first_block_of_batch(5),
        Some(129 + p.genesis_block_number())
    );
    assert_eq!(p.first_block_of_batch(4294967295), None);
}

#[test]
fn it_correctly_computes_first_batch_of_epoch() {
    let p = initialize_policy();
    assert_eq!(
        p.first_batch_of_epoch(1 + p.genesis_block_number()),
        true
    );
    assert_eq!(
        p.first_batch_of_epoch(
            p.blocks_per_batch() + p.genesis_block_number()
        ),
        true
    );
    assert_eq!(
        p.first_batch_of_epoch(
            p.blocks_per_batch() + 1 + p.genesis_block_number()
        ),
        false
    );
    assert_eq!(
        p.first_batch_of_epoch(
            p.blocks_per_epoch() + p.genesis_block_number()
        ),
        false
    );
    assert_eq!(
        p.first_batch_of_epoch(
            p.blocks_per_epoch() + 1 + p.genesis_block_number()
        ),
        true
    );
}

#[test]
fn non_zero_genesis_extra_tests() {
    let p = initialize_policy();

    // Anything prior to genesis belongs to epoch 0
    assert_eq!(p.epoch_at(p.genesis_block_number()), 0);
    assert_eq!(p.epoch_at(40), 0);
    // Epoch 1 starts at genesis + 1
    assert_eq!(p.epoch_at(1 + p.genesis_block_number()), 1);

    // If genesis is 200, this corresponds to block 401.
    assert_eq!(
        p.epoch_index_at(2 * p.genesis_block_number() + 1),
        401 - (p.genesis_block_number() + p.blocks_per_epoch()) - 1
    );

    //First batch starts after genesis
    assert_eq!(p.batch_at(p.genesis_block_number() + 1), 1);
    //Anything prior to genesis belongs to batch 0
    assert_eq!(p.batch_at(p.genesis_block_number() - 15), 0);

    assert_eq!(
        p.batch_index_at(p.genesis_block_number() + 1),
        0
    );
    assert_eq!(
        p.batch_index_at(p.genesis_block_number() + 2),
        1
    );

    // No macro blocks before genesis
    assert_eq!(p.is_macro_block_at(1), false);
    assert_eq!(
        p.is_macro_block_at(p.genesis_block_number()),
        true
    );

    // No micro blocks before genesis
    assert_eq!(
        p.is_micro_block_at(p.genesis_block_number() - 20),
        false
    );
    assert_eq!(p.is_micro_block_at(15), false);

    // Genesis is a macro/election block
    assert_eq!(
        p.is_macro_block_at(p.genesis_block_number()),
        true
    );
    assert_eq!(
        p.is_election_block_at(p.genesis_block_number()),
        true
    );

    // The next macro for any pre-genesis block is the genesis itself
    assert_eq!(p.macro_block_after(0), p.genesis_block_number());
    assert_eq!(p.macro_block_after(5), p.genesis_block_number());

    // The next election for any pre-genesis block is the genesis itself
    assert_eq!(
        p.election_block_after(0),
        p.genesis_block_number()
    );
    assert_eq!(
        p.election_block_after(10),
        p.genesis_block_number()
    );
}

#[test]
fn quorum_sizes_follow_the_slot_count() {
    assert_eq!(Policy::SLOTS, 512);
    assert_eq!(Policy::TWO_F_PLUS_ONE, 342);
    assert_eq!(Policy::F_PLUS_ONE, 171);
}

#[test]
fn default_policy_is_the_main_configuration() {
    let p = Policy::default();
    assert_eq!(p.blocks_per_batch(), 60);
    assert_eq!(p.batches_per_epoch(), 360);
    assert_eq!(p.blocks_per_epoch(), 21600);
    assert_eq!(p.transaction_validity_window(), 7200);
    assert_eq!(p.tendermint_timeout_init(), 1000);
    assert_eq!(p.tendermint_timeout_delta(), 1000);
    assert_eq!(p.state_chunks_max_size(), 200);
    assert_eq!(p.genesis_block_number(), 0);
}

#[test]
fn a_set_policy_cell_keeps_its_first_value() {
    let mut cell: Option<Policy> = None;
    let first = Policy::get_or_init(&mut cell, Policy::test_policy());
    assert_eq!(first.blocks_per_batch, 32);
    let second = Policy::get_or_init(&mut cell, Policy::default());
    assert_eq!(second.blocks_per_batch, 32);
    assert_eq!(cell.unwrap().batches_per_epoch, 4);
}

#[test]
fn next_macro_block_after_a_macro_block_is_one_batch_later() {
    let p = initialize_policy();
    let g = p.genesis_block_number();
    for h in [g, g + 32, g + 64, g + 128] {
        assert!(p.is_macro_block_at(h));
        let next = p.macro_block_after(h);
        assert!(p.is_macro_block_at(next));
        assert_eq!(next - h, 32);
    }
    for h in [g + 1, g + 5, g + 31, g + 33] {
        let next = p.macro_block_after(h);
        assert_eq!(next - h, 32 - (h - g) % 32);
    }
}

#[test]
fn election_blocks_are_macro_blocks() {
    let p = initialize_policy();
    let g = p.genesis_block_number();
    for h in [g, g + 128, g + 256] {
        assert!(p.is_election_block_at(h));
        assert!(p.is_macro_block_at(h));
    }
    assert!(!p.is_election_block_at(g + 32));
}

#[test]
fn periods_out_of_range_have_no_block_number() {
    let p = initialize_policy();
    assert_eq!(p.election_block_of(1), Some(328));
    assert_eq!(p.macro_block_of(2), Some(264));
    assert_eq!(p.election_block_of(u32::MAX), None);
    assert_eq!(p.macro_block_of(u32::MAX), None);
    assert_eq!(p.first_block_of(u32::MAX), None);
    assert_eq!(p.first_block_of(3), Some(200 + 2 * 128 + 1));
}

#[test]
fn reporting_and_jail_windows() {
    let p = initialize_policy();
    assert_eq!(p.last_block_of_reporting_window(300), 428);
    assert_eq!(p.block_after_reporting_window(300), 429);
    assert_eq!(p.block_after_jail(300), 300 + 128 * 8 + 1);
}

#[test]
fn heights_before_genesis_are_no_election_blocks() {
    let p = initialize_policy();
    assert!(!p.is_election_block_at(127));
    assert!(!p.is_macro_block_at(127));
    assert!(!p.first_batch_of_epoch(50));
    assert!(p.is_election_block_at(200 + 128));
}
