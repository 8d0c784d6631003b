use fork_harness::session::{extensions, Extension};

#[test]
fn a_test_runs_with_nine_contexts() {
    let exts = extensions(4);
    assert_eq!(exts.len(), 9);
    assert!(matches!(exts[0], Extension::Table { session_hash } if session_hash == [0u8; 32]));
    assert!(matches!(exts[1], Extension::Code));
    assert!(matches!(
        exts[3],
        Extension::Aggregator { session_hash, delayed_fields: false } if session_hash == [0u8; 32]
    ));
    assert!(matches!(exts[4], Extension::RistrettoPoint));
    assert!(matches!(exts[5], Extension::Algebra));
    assert!(matches!(exts[6], Extension::Event));
    assert!(matches!(exts[7], Extension::Object));
    assert!(matches!(exts[8], Extension::Randomness { unbiasable: true }));
}

#[test]
fn the_transaction_is_for_the_chain_and_costs_nothing() {
    let exts = extensions(7);
    match &exts[2] {
        Extension::Transaction(t) => {
            assert_eq!(t.session_hash, vec![0]);
            assert_eq!(t.script_hash, vec![1]);
            assert_eq!(t.chain_id, 7);
            let u = &t.user_transaction;
            assert_eq!(u.sender.bytes, [0u8; 32]);
            assert!(u.secondary_signers.is_empty());
            assert_eq!(u.gas_payer.bytes, [0u8; 32]);
            assert!(!u.has_payload);
            assert_eq!((u.max_gas_amount, u.gas_unit_price, u.chain_id), (0, 0, 7));
        }
        _ => panic!("the third context is the transaction's"),
    }
}
