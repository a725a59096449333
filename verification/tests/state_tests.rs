use relay_core::RelayInstruction;
use relay_core::SolanaRelayError;
use relay_core::State;

const GENESIS_HEX: &str = "0100000000000000000000000000000000000000000000000000000000000000000000003ba3edfd7a7b12b27ac72c3e67768f617fc81bc3888a51323a9fb8aa4b1e5e4a29ab5f49ffff001d1dac2b7c";
const BLOCK1_HEX: &str = "010000006fe28c0ab6f1b372c1a6a246ae63f74f931e8365e15a089c68d6190000000000982051fd1e4ba744bbbe680e1fee14677ba1a3c3540bf7b1cdb606e857233e0e61bc6649ffff001d01e36299";

fn unhex(s: &str) -> Vec<u8> {
    let digit = |c: u8| -> u8 {
        match c {
            b'0'..=b'9' => c - b'0',
            b'a'..=b'f' => c - b'a' + 10,
            _ => panic!("bad hex digit"),
        }
    };
    s.as_bytes().chunks(2).map(|p| (digit(p[0]) << 4) | digit(p[1])).collect()
}

#[test]
fn uninitialized_accounts_reject_operations() {
    let block1 = unhex(BLOCK1_HEX);
    let mut state = State::Uninitialized;
    let r = state.process_add_headers(1, &block1, &block1.clone());
    assert_eq!(r.err().unwrap(), SolanaRelayError::NotYetInit);
    let r = state.process_mark_new_heaviest(0, &block1, 1, &block1);
    assert_eq!(r.err().unwrap(), SolanaRelayError::NotYetInit);
}

#[test]
fn initialization_happens_once() {
    let genesis = unhex(GENESIS_HEX);
    let mut state = State::Uninitialized;
    state.process_initialize(&genesis, 500000, &[0u8; 32]).unwrap();
    let r = state.process_initialize(&genesis, 500000, &[0u8; 32]);
    assert_eq!(r.err().unwrap(), SolanaRelayError::AlreadyInit);
}

#[test]
fn instructions_drive_the_relay() {
    let genesis = unhex(GENESIS_HEX);
    let block1 = unhex(BLOCK1_HEX);
    let mut state = State::Uninitialized;
    state
        .process(RelayInstruction::Initialize {
            genesis_header: genesis.clone(),
            genesis_height: 500000,
            epoch_start: [0u8; 32],
        })
        .unwrap();
    state
        .process(RelayInstruction::AddHeaders {
            anchor_index: 1,
            anchor_bytes: genesis.clone(),
            headers: block1.clone(),
        })
        .unwrap();
    match &state {
        State::Active(relay) => {
            assert_eq!(relay.read_metadata_store(2).height, 500001);
        }
        State::Uninitialized => panic!("relay should be active"),
    }
}

#[test]
fn all_instruction_kinds_dispatch() {
    let genesis = unhex(GENESIS_HEX);
    let block1 = unhex(BLOCK1_HEX);
    let mut state = State::Uninitialized;
    state.process_initialize(&genesis, 500000, &[0u8; 32]).unwrap();
    // the stored epoch-start digest does not match the genesis bytes
    let r = state.process(RelayInstruction::AddDifficultyChange {
        old_period_start_bytes: genesis.clone(),
        old_period_end_index: 1,
        old_period_end_bytes: genesis.clone(),
        headers: block1.clone(),
    });
    assert_eq!(r.err().unwrap(), SolanaRelayError::WrongDigest);
    // promoting the tip over itself is never heavier
    let r = state.process(RelayInstruction::MarkNewHeaviest {
        lca_index: 1,
        current_best: genesis.clone(),
        new_best_index: 1,
        new_best: genesis.clone(),
    });
    assert_eq!(r.err().unwrap(), SolanaRelayError::NotHeavier);
}

#[test]
fn core_errors_surface_through_the_binding() {
    let genesis = unhex(GENESIS_HEX);
    let block1 = unhex(BLOCK1_HEX);
    let mut state = State::Uninitialized;
    state.process_initialize(&genesis, 500000, &[0u8; 32]).unwrap();
    // wrong anchor digest
    let r = state.process_add_headers(0, &genesis, &block1.clone());
    assert_eq!(r.err().unwrap(), SolanaRelayError::WrongDigest);
    // truncated header array
    let mut short = block1.clone();
    short.pop();
    let r = state.process_add_headers(1, &genesis, &short);
    assert_eq!(r.err().unwrap(), SolanaRelayError::WrongLengthHeader);
}
