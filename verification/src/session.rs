//! The native contexts that a test runs with.
use crate::model::AccountAddress;
use vstd::prelude::*;

verus! {

/// The user transaction that a test seems to run in.
#[derive(Debug)]
pub struct UserTransaction {
    pub sender: AccountAddress,
    pub secondary_signers: Vec<AccountAddress>,
    pub gas_payer: AccountAddress,
    pub max_gas_amount: u64,
    pub gas_unit_price: u64,
    pub chain_id: u8,
    /// Whether an entry function or a multisig transaction is run.
    pub has_payload: bool,
}

/// The transaction context of a test.
#[derive(Debug)]
pub struct TransactionContext {
    pub session_hash: Vec<u8>,
    pub script_hash: Vec<u8>,
    pub chain_id: u8,
    pub user_transaction: UserTransaction,
}

/// A native context, with what it is made from.
#[derive(Debug)]
pub enum Extension {
    Table { session_hash: [u8; 32] },
    Code,
    Transaction(TransactionContext),
    Aggregator { session_hash: [u8; 32], delayed_fields: bool },
    RistrettoPoint,
    Algebra,
    Event,
    Object,
    Randomness { unbiasable: bool },
}

/// Thirty-two zero bytes.
pub open spec fn zero_bytes() -> Seq<u8> {
    Seq::new(32, |i: int| 0u8)
}

/// The transaction of a test: nobody sends it, nothing is paid for it, it is for the chain, and it
/// carries no payload.
pub open spec fn is_test_transaction(t: TransactionContext, chain_id: u8) -> bool {
    &&& t.session_hash@ == seq![0u8]
    &&& t.script_hash@ == seq![1u8]
    &&& t.chain_id == chain_id
    &&& t.user_transaction.sender@ == zero_bytes()
    &&& t.user_transaction.secondary_signers@ == Seq::<AccountAddress>::empty()
    &&& t.user_transaction.gas_payer@ == zero_bytes()
    &&& t.user_transaction.max_gas_amount == 0
    &&& t.user_transaction.gas_unit_price == 0
    &&& t.user_transaction.chain_id == chain_id
    &&& !t.user_transaction.has_payload
}

fn test_transaction(chain_id: u8) -> (r: TransactionContext)
    ensures
        is_test_transaction(r, chain_id),
{
    let zero = AccountAddress { bytes: [0u8; 32] };
    let mut session_hash: Vec<u8> = Vec::new();
    session_hash.push(0);
    let mut script_hash: Vec<u8> = Vec::new();
    script_hash.push(1);
    assert(zero@ =~= zero_bytes());
    assert(session_hash@ =~= seq![0u8]);
    assert(script_hash@ =~= seq![1u8]);
    let user_transaction = UserTransaction {
        sender: zero,
        secondary_signers: Vec::new(),
        gas_payer: zero,
        max_gas_amount: 0,
        gas_unit_price: 0,
        chain_id,
        has_payload: false,
    };
    TransactionContext { session_hash, script_hash, chain_id, user_transaction }
}

/// The contexts of a test on a chain, in the order in which they are added.
pub fn extensions(chain_id: u8) -> (r: Vec<Extension>)
    ensures
        r@.len() == 9,
        r@[0] matches Extension::Table { session_hash } && session_hash@ == zero_bytes(),
        r@[1] is Code,
        r@[2] matches Extension::Transaction(t) && is_test_transaction(t, chain_id),
        r@[3] matches Extension::Aggregator { session_hash, delayed_fields } && session_hash@
            == zero_bytes() && !delayed_fields,
        r@[4] is RistrettoPoint,
        r@[5] is Algebra,
        r@[6] is Event,
        r@[7] is Object,
        r@[8] == (Extension::Randomness { unbiasable: true }),
{
    let zeros: [u8; 32] = [0u8; 32];
    assert(zeros@ =~= zero_bytes());
    let mut exts: Vec<Extension> = Vec::new();
    exts.push(Extension::Table { session_hash: zeros });
    exts.push(Extension::Code);
    exts.push(Extension::Transaction(test_transaction(chain_id)));
    exts.push(Extension::Aggregator { session_hash: zeros, delayed_fields: false });
    exts.push(Extension::RistrettoPoint);
    exts.push(Extension::Algebra);
    exts.push(Extension::Event);
    exts.push(Extension::Object);
    exts.push(Extension::Randomness { unbiasable: true });
    exts
}

/// What a test transaction is, part by part: the two hashes are one byte each, all numbers but the
/// chain's id are zero, and so are the addresses; no other signers, no payload.
pub proof fn test_transaction_is_for_the_chain(t: TransactionContext, chain_id: u8)
    requires
        is_test_transaction(t, chain_id),
    ensures
        t.chain_id == chain_id,
        t.user_transaction.chain_id == chain_id,
        t.session_hash@.len() == 1 && t.session_hash@[0] == 0,
        t.script_hash@.len() == 1 && t.script_hash@[0] == 1,
        forall|i: int| 0 <= i < 32 ==> #[trigger] t.user_transaction.sender.bytes@[i] == 0,
        forall|i: int| 0 <= i < 32 ==> #[trigger] t.user_transaction.gas_payer.bytes@[i] == 0,
        t.user_transaction.secondary_signers@.len() == 0,
        t.user_transaction.max_gas_amount == 0,
        t.user_transaction.gas_unit_price == 0,
        !t.user_transaction.has_payload,
{
    assert forall|i: int| 0 <= i < 32 implies #[trigger] t.user_transaction.sender.bytes@[i]
        == 0 by {
        assert(t.user_transaction.sender@[i] == zero_bytes()[i]);
    }
    assert forall|i: int| 0 <= i < 32 implies #[trigger] t.user_transaction.gas_payer.bytes@[i]
        == 0 by {
        assert(t.user_transaction.gas_payer@[i] == zero_bytes()[i]);
    }
}

/// Transactions of tests on different chains differ in the chain's id, and only there.
pub proof fn transactions_differ_in_the_chain(
    a: TransactionContext,
    b: TransactionContext,
    chain_a: u8,
    chain_b: u8,
)
    requires
        is_test_transaction(a, chain_a),
        is_test_transaction(b, chain_b),
    ensures
        a.chain_id == b.chain_id <==> chain_a == chain_b,
        a.user_transaction.sender@ == b.user_transaction.sender@,
        a.user_transaction.gas_payer@ == b.user_transaction.gas_payer@,
        a.session_hash@ == b.session_hash@,
        a.script_hash@ == b.script_hash@,
{
}

/// Zero bytes are thirty-two zeros.
pub proof fn zero_bytes_are_zero(bytes: Seq<u8>)
    ensures
        bytes == zero_bytes() <==> bytes.len() == 32 && forall|i: int|
            0 <= i < 32 ==> #[trigger] bytes[i] == 0,
{
    if bytes.len() == 32 && forall|i: int| 0 <= i < 32 ==> #[trigger] bytes[i] == 0 {
        assert(bytes =~= zero_bytes());
    }
    if bytes == zero_bytes() {
        assert forall|i: int| 0 <= i < 32 implies #[trigger] bytes[i] == 0 by {
            assert(zero_bytes()[i] == 0);
        }
    }
}

} // verus!
