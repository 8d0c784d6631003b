//! Account addresses and module ids.
use crate::assoc::MapKey;
use crate::text::same_text;
use vstd::prelude::*;

verus! {

/// The address of an account: thirty-two bytes, the most significant first.
#[derive(Clone, Copy, Debug)]
pub struct AccountAddress {
    pub bytes: [u8; 32],
}

impl View for AccountAddress {
    type V = Seq<u8>;

    open spec fn view(&self) -> Seq<u8> {
        self.bytes@
    }
}

/// The address `0x1`, under which the core modules live.
pub open spec fn core_code_address() -> Seq<u8> {
    Seq::new(32, |i: int| if i == 31 { 1u8 } else { 0u8 })
}

impl AccountAddress {
    /// Whether two addresses are equal.
    pub fn same_address(&self, other: &AccountAddress) -> (r: bool)
        ensures
            r == (self@ == other@),
    {
        let mut i: usize = 0;
        while i < 32
            invariant
                i <= 32,
                forall|j: int| 0 <= j < i ==> self@[j] == other@[j],
            decreases 32 - i,
        {
            if self.bytes[i] != other.bytes[i] {
                return false;
            }
            i += 1;
        }
        assert(self@ =~= other@);
        true
    }

    /// Whether this is the address of the core modules.
    pub fn is_core_code_address(&self) -> (r: bool)
        ensures
            r == (self@ == core_code_address()),
            r == (self.bytes@[31] == 1 && forall|i: int| 0 <= i < 31 ==> self.bytes@[i] == 0),
    {
        let mut i: usize = 0;
        while i < 31
            invariant
                i <= 31,
                forall|j: int| 0 <= j < i ==> self@[j] == 0,
            decreases 31 - i,
        {
            if self.bytes[i] != 0 {
                assert(core_code_address()[i as int] == 0);
                return false;
            }
            i += 1;
        }
        if self.bytes[31] == 1 {
            assert(self@ =~= core_code_address());
            true
        } else {
            assert(core_code_address()[31] == 1);
            false
        }
    }
}

/// The id of a module: the address it is published under and its name.
#[derive(Debug)]
pub struct ModuleId {
    pub address: AccountAddress,
    pub name: String,
}

/// What a [`ModuleId`] stands for.
pub struct ModuleIdView {
    pub address: Seq<u8>,
    pub name: Seq<char>,
}

impl View for ModuleId {
    type V = ModuleIdView;

    open spec fn view(&self) -> ModuleIdView {
        ModuleIdView { address: self.address@, name: self.name@ }
    }
}

impl Clone for ModuleId {
    fn clone(&self) -> (r: Self)
        ensures
            r@ == self@,
    {
        ModuleId { address: self.address, name: self.name.clone() }
    }
}

impl MapKey for ModuleId {
    fn same_key(&self, other: &Self) -> (r: bool) {
        self.address.same_address(&other.address) && same_text(
            self.name.as_str(),
            other.name.as_str(),
        )
    }
}

/// The core address, read as a number with the most significant byte first, is one: every byte is
/// zero but the last.
pub proof fn core_code_address_is_one(address: AccountAddress)
    ensures
        address@ == core_code_address() <==> address.bytes@[31] == 1 && forall|i: int|
            0 <= i < 31 ==> #[trigger] address.bytes@[i] == 0,
{
    if address@ == core_code_address() {
        assert forall|i: int| 0 <= i < 31 implies #[trigger] address.bytes@[i] == 0 by {
            assert(core_code_address()[i] == 0);
        }
        assert(core_code_address()[31] == 1);
    } else if address.bytes@[31] == 1 && forall|i: int|
        0 <= i < 31 ==> #[trigger] address.bytes@[i] == 0 {
        assert(address@ =~= core_code_address());
    }
}

} // verus!
