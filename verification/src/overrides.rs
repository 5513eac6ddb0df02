//! State overrides: what executed transactions changed, in the form in which a call on top of
//! the pending state takes it.

use alloy_primitives::map::foldhash::HashMap;
use vstd::prelude::*;

use crate::map::{lookup, map_clone, map_get, map_insert, map_keys, map_new, map_remove};
use crate::primitives::{
    be_bytes, law_word_holds_integer, word_from_u256, word_of, Address, Bytes, B256, U256,
};

verus! {

/// What an account holds after a transaction.
#[derive(Debug)]
pub struct AccountInfo {
    pub balance: U256,
    pub nonce: u64,
    /// The bytecode, where it was loaded.
    pub code: Option<Bytes>,
}

/// An account after a transaction.
#[derive(Debug)]
pub struct Account {
    pub info: AccountInfo,
    /// The storage slots that the transaction touched, each with its present value.
    pub storage: Vec<(U256, U256)>,
}

/// The accounts that a transaction touched, in the order in which the execution lists them.
#[derive(Debug)]
pub struct EvmState {
    pub accounts: Vec<(Address, Account)>,
}

/// The changes to one account.
#[derive(Debug)]
pub struct AccountOverride {
    pub balance: Option<U256>,
    pub nonce: Option<u64>,
    pub code: Option<Bytes>,
    /// The whole storage of the account, in place of what it has.
    pub state: Option<HashMap<B256, B256>>,
    /// Single slots of the storage.
    pub state_diff: Option<HashMap<B256, B256>>,
    pub move_precompile_to: Option<Address>,
}

/// What an [`AccountOverride`] says.
#[verifier::ext_equal]
pub struct AccountOverrideView {
    pub balance: Option<U256>,
    pub nonce: Option<u64>,
    pub code: Option<Bytes>,
    pub state: Option<Map<B256, B256>>,
    pub state_diff: Option<Map<B256, B256>>,
    pub move_precompile_to: Option<Address>,
}

/// The storage words in an optional table.
pub open spec fn words(table: Option<HashMap<B256, B256>>) -> Option<Map<B256, B256>> {
    match table {
        Some(table) => Some(table@),
        None => None,
    }
}

/// The override that changes nothing.
pub open spec fn no_override() -> AccountOverrideView {
    AccountOverrideView {
        balance: None,
        nonce: None,
        code: None,
        state: None,
        state_diff: None,
        move_precompile_to: None,
    }
}

/// Copies an optional table.
fn copy_words(table: &Option<HashMap<B256, B256>>) -> (r: Option<HashMap<B256, B256>>)
    ensures
        words(r) == words(*table),
{
    match table {
        Some(table) => {
            let copy = map_clone(table);
            proof {
                assert forall|key: B256| #[trigger] table@.contains_key(key) implies copy@[key]
                    == table@[key] by {
                    assert(cloned::<B256>(table@[key], copy@[key]));
                    assert(copy@[key] =~= table@[key]);
                }
                assert(copy@ =~= table@);
            }
            Some(copy)
        },
        None => None,
    }
}

/// Shares an optional byte string.
fn share_bytes(bytes: &Option<Bytes>) -> (r: Option<Bytes>)
    ensures
        r == *bytes,
{
    match bytes {
        Some(bytes) => Some(bytes.clone()),
        None => None,
    }
}

impl AccountOverride {
    pub open spec fn view(&self) -> AccountOverrideView {
        AccountOverrideView {
            balance: self.balance,
            nonce: self.nonce,
            code: self.code,
            state: words(self.state),
            state_diff: words(self.state_diff),
            move_precompile_to: self.move_precompile_to,
        }
    }
}

impl Default for AccountOverride {
    fn default() -> (r: Self)
        ensures
            r@ == no_override(),
    {
        AccountOverride {
            balance: None,
            nonce: None,
            code: None,
            state: None,
            state_diff: None,
            move_precompile_to: None,
        }
    }
}

impl Clone for AccountOverride {
    fn clone(&self) -> (r: Self)
        ensures
            r@ == self@,
    {
        AccountOverride {
            balance: self.balance,
            nonce: self.nonce,
            code: share_bytes(&self.code),
            state: copy_words(&self.state),
            state_diff: copy_words(&self.state_diff),
            move_precompile_to: self.move_precompile_to,
        }
    }
}

/// The storage words after each of `slots` was set in turn.
pub open spec fn with_slots(table: Map<B256, B256>, slots: Seq<(U256, U256)>) -> Map<B256, B256>
    decreases slots.len(),
{
    if slots.len() == 0 {
        table
    } else {
        let (key, value) = slots.last();
        with_slots(table, slots.drop_last()).insert(word_of(key), word_of(value))
    }
}

/// What is overridden of an account once a transaction has left it as `account`: its balance,
/// nonce and code are those of `account`, and the slots it touched have their present values.
pub open spec fn with_account(
    before: AccountOverrideView,
    account: Account,
) -> AccountOverrideView {
    AccountOverrideView {
        balance: Some(account.info.balance),
        nonce: Some(account.info.nonce),
        code: account.info.code,
        state_diff: Some(
            with_slots(
                match before.state_diff {
                    Some(table) => table,
                    None => Map::empty(),
                },
                account.storage@,
            ),
        ),
        ..before
    }
}

/// What is overridden of the account at `address`.
pub open spec fn override_of(
    overrides: Map<Address, AccountOverrideView>,
    address: Address,
) -> AccountOverrideView {
    if overrides.contains_key(address) {
        overrides[address]
    } else {
        no_override()
    }
}

/// The overrides once a transaction has left each of `accounts` as it says.
pub open spec fn with_accounts(
    overrides: Map<Address, AccountOverrideView>,
    accounts: Seq<(Address, Account)>,
) -> Map<Address, AccountOverrideView>
    decreases accounts.len(),
{
    if accounts.len() == 0 {
        overrides
    } else {
        let before = with_accounts(overrides, accounts.drop_last());
        let (address, account) = accounts.last();
        before.insert(address, with_account(override_of(before, address), account))
    }
}

/// The overrides once several transactions have left their states, one after the other.
pub open spec fn with_states(
    overrides: Map<Address, AccountOverrideView>,
    states: Seq<EvmState>,
) -> Map<Address, AccountOverrideView>
    decreases states.len(),
{
    if states.len() == 0 {
        overrides
    } else {
        with_accounts(with_states(overrides, states.drop_last()), states.last().accounts@)
    }
}

/// To apply states, and more states after them, is to apply all of them in turn.
pub proof fn law_states_apply_in_turn(
    overrides: Map<Address, AccountOverrideView>,
    states: Seq<EvmState>,
    more: Seq<EvmState>,
)
    ensures
        with_states(overrides, states + more) == with_states(with_states(overrides, states), more),
    decreases more.len(),
{
    if more.len() == 0 {
        assert(states + more =~= states);
    } else {
        law_states_apply_in_turn(overrides, states, more.drop_last());
        assert((states + more).drop_last() =~= states + more.drop_last());
        assert((states + more).last() == more.last());
    }
}

/// An account that a transaction did not touch keeps its override.
pub proof fn law_untouched_account_stays(
    overrides: Map<Address, AccountOverrideView>,
    accounts: Seq<(Address, Account)>,
    address: Address,
)
    requires
        forall|k: int| 0 <= k < accounts.len() ==> (#[trigger] accounts[k]).0 != address,
    ensures
        lookup(with_accounts(overrides, accounts), address) == lookup(overrides, address),
    decreases accounts.len(),
{
    if accounts.len() > 0 {
        let fewer = accounts.drop_last();
        assert forall|k: int| 0 <= k < fewer.len() implies (#[trigger] fewer[k]).0 != address by {
            assert(fewer[k] == accounts[k]);
        }
        assert(accounts[accounts.len() - 1].0 != address);
        law_untouched_account_stays(overrides, fewer, address);
    }
}

/// An account that a transaction touched once has the balance, nonce and code that it was left
/// with, its storage slots are set in turn on top of those that were set before, and nothing else
/// of its override changes.
pub proof fn law_touched_account_is_set(
    overrides: Map<Address, AccountOverrideView>,
    accounts: Seq<(Address, Account)>,
    k: int,
)
    requires
        0 <= k < accounts.len(),
        forall|j: int|
            0 <= j < accounts.len() && j != k ==> (#[trigger] accounts[j]).0 != accounts[k].0,
    ensures
        lookup(with_accounts(overrides, accounts), accounts[k].0) == Some(
            with_account(override_of(overrides, accounts[k].0), accounts[k].1),
        ),
    decreases accounts.len(),
{
    let fewer = accounts.drop_last();
    let address = accounts[k].0;
    if k == accounts.len() - 1 {
        assert forall|j: int| 0 <= j < fewer.len() implies (#[trigger] fewer[j]).0 != address by {
            assert(fewer[j] == accounts[j]);
        }
        law_untouched_account_stays(overrides, fewer, address);
    } else {
        assert forall|j: int| 0 <= j < fewer.len() && j != k implies (#[trigger] fewer[j]).0
            != fewer[k].0 by {
            assert(fewer[j] == accounts[j]);
        }
        assert(accounts[accounts.len() - 1].0 != address);
        law_touched_account_is_set(overrides, fewer, k);
    }
}

/// A storage word that is not among those that are set stays as it is.
pub proof fn law_other_slots_stay(table: Map<B256, B256>, slots: Seq<(U256, U256)>, key: B256)
    requires
        forall|k: int| 0 <= k < slots.len() ==> word_of((#[trigger] slots[k]).0) != key,
    ensures
        lookup(with_slots(table, slots), key) == lookup(table, key),
    decreases slots.len(),
{
    if slots.len() > 0 {
        let fewer = slots.drop_last();
        assert forall|k: int| 0 <= k < fewer.len() implies word_of((#[trigger] fewer[k]).0)
            != key by {
            assert(fewer[k] == slots[k]);
        }
        assert(word_of(slots[slots.len() - 1].0) != key);
        law_other_slots_stay(table, fewer, key);
    }
}

/// A storage word has the value that it was set to last.
pub proof fn law_last_slot_counts(table: Map<B256, B256>, slots: Seq<(U256, U256)>, k: int)
    requires
        0 <= k < slots.len(),
        forall|j: int|
            k < j < slots.len() ==> word_of((#[trigger] slots[j]).0) != word_of(slots[k].0),
    ensures
        lookup(with_slots(table, slots), word_of(slots[k].0)) == Some(word_of(slots[k].1)),
    decreases slots.len(),
{
    if k < slots.len() - 1 {
        let fewer = slots.drop_last();
        assert forall|j: int| k < j < fewer.len() implies word_of((#[trigger] fewer[j]).0)
            != word_of(fewer[k].0) by {
            assert(fewer[j] == slots[j]);
        }
        assert(word_of(slots[slots.len() - 1].0) != word_of(slots[k].0));
        law_last_slot_counts(table, fewer, k);
    }
}

/// Whether no account is listed twice.
pub open spec fn accounts_distinct(accounts: Seq<(Address, Account)>) -> bool {
    forall|i: int, j: int|
        0 <= i < j < accounts.len() ==> (#[trigger] accounts[i]).0 != (#[trigger] accounts[j]).0
}

/// Where each list names an account once, and both hold the same, the order in which the accounts
/// come makes no difference.
pub proof fn law_account_order_is_irrelevant(
    overrides: Map<Address, AccountOverrideView>,
    a: Seq<(Address, Account)>,
    b: Seq<(Address, Account)>,
)
    requires
        accounts_distinct(a),
        accounts_distinct(b),
        a.to_set() == b.to_set(),
    ensures
        with_accounts(overrides, a) == with_accounts(overrides, b),
{
    assert forall|address: Address|
        #![trigger with_accounts(overrides, a).contains_key(address)]
        #![trigger with_accounts(overrides, b).contains_key(address)]
        lookup(with_accounts(overrides, a), address) == lookup(
            with_accounts(overrides, b),
            address,
        ) by {
        if exists|i: int| 0 <= i < a.len() && (#[trigger] a[i]).0 == address {
            let i = choose|i: int| 0 <= i < a.len() && (#[trigger] a[i]).0 == address;
            assert(a.to_set().contains(a[i]));
            assert(b.to_set().contains(a[i]));
            let j = choose|j: int| 0 <= j < b.len() && b[j] == a[i];
            law_touched_account_is_set(overrides, a, i);
            law_touched_account_is_set(overrides, b, j);
        } else {
            assert forall|j: int| 0 <= j < b.len() implies (#[trigger] b[j]).0 != address by {
                assert(b.to_set().contains(b[j]));
                assert(a.to_set().contains(b[j]));
                let i = choose|i: int| 0 <= i < a.len() && a[i] == b[j];
                assert(a[i].0 == b[j].0);
            }
            law_untouched_account_stays(overrides, a, address);
            law_untouched_account_stays(overrides, b, address);
        }
    }
    assert forall|address: Address| with_accounts(overrides, a).contains_key(address)
        == with_accounts(overrides, b).contains_key(address) by {
        assert(lookup(with_accounts(overrides, a), address) == lookup(
            with_accounts(overrides, b),
            address,
        ));
    }
    assert forall|address: Address| with_accounts(overrides, a).contains_key(address) implies
        with_accounts(overrides, a)[address] == with_accounts(overrides, b)[address] by {
        assert(lookup(with_accounts(overrides, a), address) == lookup(
            with_accounts(overrides, b),
            address,
        ));
    }
    assert(with_accounts(overrides, a) =~= with_accounts(overrides, b));
}

/// Whether no storage slot is listed twice.
pub open spec fn slots_distinct(slots: Seq<(U256, U256)>) -> bool {
    forall|i: int, j: int|
        0 <= i < j < slots.len() ==> word_of((#[trigger] slots[i]).0) != word_of(
            (#[trigger] slots[j]).0,
        )
}

/// Where each list names a slot once, and both hold the same, the order in which the slots come
/// makes no difference.
pub proof fn law_slot_order_is_irrelevant(
    table: Map<B256, B256>,
    a: Seq<(U256, U256)>,
    b: Seq<(U256, U256)>,
)
    requires
        slots_distinct(a),
        slots_distinct(b),
        a.to_set() == b.to_set(),
    ensures
        with_slots(table, a) == with_slots(table, b),
{
    assert forall|key: B256|
        #![trigger with_slots(table, a).contains_key(key)]
        #![trigger with_slots(table, b).contains_key(key)]
        lookup(with_slots(table, a), key) == lookup(with_slots(table, b), key) by {
        if exists|i: int| 0 <= i < a.len() && word_of((#[trigger] a[i]).0) == key {
            let i = choose|i: int| 0 <= i < a.len() && word_of((#[trigger] a[i]).0) == key;
            assert(a.to_set().contains(a[i]));
            assert(b.to_set().contains(a[i]));
            let j = choose|j: int| 0 <= j < b.len() && b[j] == a[i];
            law_last_slot_counts(table, a, i);
            law_last_slot_counts(table, b, j);
        } else {
            assert forall|j: int| 0 <= j < b.len() implies word_of((#[trigger] b[j]).0) != key by {
                assert(b.to_set().contains(b[j]));
                assert(a.to_set().contains(b[j]));
                let i = choose|i: int| 0 <= i < a.len() && a[i] == b[j];
                assert(word_of(a[i].0) == word_of(b[j].0));
            }
            law_other_slots_stay(table, a, key);
            law_other_slots_stay(table, b, key);
        }
    }
    assert forall|key: B256| with_slots(table, a).contains_key(key) == with_slots(
        table,
        b,
    ).contains_key(key) by {
        assert(lookup(with_slots(table, a), key) == lookup(with_slots(table, b), key));
    }
    assert forall|key: B256| with_slots(table, a).contains_key(key) implies with_slots(
        table,
        a,
    )[key] == with_slots(table, b)[key] by {
        assert(lookup(with_slots(table, a), key) == lookup(with_slots(table, b), key));
    }
    assert(with_slots(table, a) =~= with_slots(table, b));
}

/// The value that a storage word of an account is overridden with, where it is.
pub open spec fn overridden_word(
    overrides: Map<Address, AccountOverrideView>,
    address: Address,
    key: B256,
) -> Option<B256> {
    if overrides.contains_key(address) {
        match overrides[address].state_diff {
            Some(table) => lookup(table, key),
            None => None,
        }
    } else {
        None
    }
}

/// Whether one of the accounts is the one at `address`, and has a slot with the word `key`.
pub open spec fn sets_word(accounts: Seq<(Address, Account)>, address: Address, key: B256) -> bool {
    exists|k: int, s: int|
        0 <= k < accounts.len() && 0 <= s < accounts[k].1.storage@.len() && accounts[k].0 == address
            && key@ == be_bytes((#[trigger] accounts[k].1.storage@[s]).0.value(), 32)
}

/// Whether one of the accounts is the one at `address`.
pub open spec fn touches(accounts: Seq<(Address, Account)>, address: Address) -> bool {
    exists|k: int| 0 <= k < accounts.len() && (#[trigger] accounts[k]).0 == address
}

/// A storage word that was overridden before, and that a transaction did not set, is overridden
/// with the same value after it, whatever else the transaction changed of the account.
pub proof fn law_unset_word_stays(
    overrides: Map<Address, AccountOverrideView>,
    accounts: Seq<(Address, Account)>,
    address: Address,
    key: B256,
)
    requires
        !sets_word(accounts, address, key),
    ensures
        overridden_word(with_accounts(overrides, accounts), address, key) == overridden_word(
            overrides,
            address,
            key,
        ),
    decreases accounts.len(),
{
    if accounts.len() > 0 {
        let fewer = accounts.drop_last();
        let (last, account) = accounts.last();
        assert forall|k: int, s: int|
            0 <= k < fewer.len() && 0 <= s < fewer[k].1.storage@.len() && fewer[k].0
                == address implies key@ != be_bytes(
            (#[trigger] fewer[k].1.storage@[s]).0.value(),
            32,
        ) by {
            assert(fewer[k] == accounts[k]);
            assert(0 <= s < accounts[k].1.storage@.len());
            assert(key@ != be_bytes(accounts[k].1.storage@[s].0.value(), 32));
        }
        law_unset_word_stays(overrides, fewer, address, key);
        if last == address {
            let before = override_of(with_accounts(overrides, fewer), address);
            let table = match before.state_diff {
                Some(table) => table,
                None => Map::empty(),
            };
            let slots = account.storage@;
            assert forall|s: int| 0 <= s < slots.len() implies word_of((#[trigger] slots[s]).0)
                != key by {
                assert(accounts[accounts.len() - 1].1.storage@[s] == slots[s]);
                law_word_holds_integer(slots[s].0, key);
            }
            law_other_slots_stay(table, slots, key);
        }
    }
}

/// A storage word that a transaction set is overridden with the value that it was set to last,
/// both laid out with the most significant byte first.
pub proof fn law_set_word_is_overridden(
    overrides: Map<Address, AccountOverrideView>,
    accounts: Seq<(Address, Account)>,
    k: int,
    s: int,
    key: B256,
)
    requires
        0 <= k < accounts.len(),
        0 <= s < accounts[k].1.storage@.len(),
        key@ == be_bytes(accounts[k].1.storage@[s].0.value(), 32),
        forall|t: int|
            s < t < accounts[k].1.storage@.len() ==> key@ != be_bytes(
                (#[trigger] accounts[k].1.storage@[t]).0.value(),
                32,
            ),
        !sets_word(accounts.skip(k + 1), accounts[k].0, key),
    ensures
        overridden_word(with_accounts(overrides, accounts), accounts[k].0, key) is Some,
        overridden_word(with_accounts(overrides, accounts), accounts[k].0, key).unwrap()@
            == be_bytes(accounts[k].1.storage@[s].1.value(), 32),
{
    let (address, account) = accounts[k];
    let until = accounts.take(k + 1);
    let slots = account.storage@;
    let before = override_of(with_accounts(overrides, accounts.take(k)), address);
    let table = match before.state_diff {
        Some(table) => table,
        None => Map::empty(),
    };
    law_word_holds_integer(slots[s].0, key);
    law_word_holds_integer(slots[s].1, word_of(slots[s].1));
    assert forall|t: int| s < t < slots.len() implies word_of((#[trigger] slots[t]).0) != word_of(
        slots[s].0,
    ) by {
        assert(key@ != be_bytes(accounts[k].1.storage@[t].0.value(), 32));
        law_word_holds_integer(slots[t].0, key);
    }
    law_last_slot_counts(table, slots, s);
    assert(until.drop_last() =~= accounts.take(k));
    assert(until.last() == accounts[k]);
    assert(with_accounts(overrides, until)[address].state_diff == Some(with_slots(table, slots)));
    law_accounts_apply_in_turn(overrides, until, accounts.skip(k + 1));
    assert(until + accounts.skip(k + 1) =~= accounts);
    law_unset_word_stays(with_accounts(overrides, until), accounts.skip(k + 1), address, key);
}

/// To apply accounts, and more accounts after them, is to apply all of them in turn.
pub proof fn law_accounts_apply_in_turn(
    overrides: Map<Address, AccountOverrideView>,
    accounts: Seq<(Address, Account)>,
    more: Seq<(Address, Account)>,
)
    ensures
        with_accounts(overrides, accounts + more) == with_accounts(
            with_accounts(overrides, accounts),
            more,
        ),
    decreases more.len(),
{
    if more.len() == 0 {
        assert(accounts + more =~= accounts);
    } else {
        law_accounts_apply_in_turn(overrides, accounts, more.drop_last());
        assert((accounts + more).drop_last() =~= accounts + more.drop_last());
        assert((accounts + more).last() == more.last());
    }
}

/// An account that a transaction touched is overridden with the balance, the nonce and the code
/// that it was left with last, and has its storage overridden word by word. What the override
/// says of the storage as a whole and of precompiles stays.
pub proof fn law_last_touch_counts(
    overrides: Map<Address, AccountOverrideView>,
    accounts: Seq<(Address, Account)>,
    k: int,
)
    requires
        0 <= k < accounts.len(),
        !touches(accounts.skip(k + 1), accounts[k].0),
    ensures
        with_accounts(overrides, accounts).contains_key(accounts[k].0),
        ({
            let after = with_accounts(overrides, accounts)[accounts[k].0];
            let info = accounts[k].1.info;
            &&& after.balance == Some(info.balance)
            &&& after.nonce == Some(info.nonce)
            &&& after.code == info.code
            &&& after.state_diff is Some
            &&& overrides.contains_key(accounts[k].0) ==> {
                &&& after.state == overrides[accounts[k].0].state
                &&& after.move_precompile_to == overrides[accounts[k].0].move_precompile_to
            }
            &&& !overrides.contains_key(accounts[k].0) ==> {
                &&& after.state is None
                &&& after.move_precompile_to is None
            }
        }),
{
    let address = accounts[k].0;
    let until = accounts.take(k + 1);
    let later = accounts.skip(k + 1);
    assert(until.drop_last() =~= accounts.take(k));
    assert(until.last() == accounts[k]);
    lemma_rest_of_override_stays(overrides, accounts.take(k), address);
    law_accounts_apply_in_turn(overrides, until, later);
    assert(until + later =~= accounts);
    assert forall|j: int| 0 <= j < later.len() implies (#[trigger] later[j]).0 != address by {}
    law_untouched_account_stays(with_accounts(overrides, until), later, address);
}

/// What is overridden of an account besides its balance, nonce, code and single words stays.
proof fn lemma_rest_of_override_stays(
    overrides: Map<Address, AccountOverrideView>,
    accounts: Seq<(Address, Account)>,
    address: Address,
)
    ensures
        override_of(with_accounts(overrides, accounts), address).state == override_of(
            overrides,
            address,
        ).state,
        override_of(with_accounts(overrides, accounts), address).move_precompile_to == override_of(
            overrides,
            address,
        ).move_precompile_to,
    decreases accounts.len(),
{
    if accounts.len() > 0 {
        lemma_rest_of_override_stays(overrides, accounts.drop_last(), address);
    }
}

/// Whatever one transaction after the other does, a storage word that none of them set is
/// overridden as it was before them.
pub proof fn law_unset_word_stays_over_states(
    overrides: Map<Address, AccountOverrideView>,
    states: Seq<EvmState>,
    address: Address,
    key: B256,
)
    requires
        forall|m: int|
            0 <= m < states.len() ==> !sets_word((#[trigger] states[m]).accounts@, address, key),
    ensures
        overridden_word(with_states(overrides, states), address, key) == overridden_word(
            overrides,
            address,
            key,
        ),
    decreases states.len(),
{
    if states.len() > 0 {
        let fewer = states.drop_last();
        assert forall|m: int| 0 <= m < fewer.len() implies !sets_word(
            (#[trigger] fewer[m]).accounts@,
            address,
            key,
        ) by {
            assert(fewer[m] == states[m]);
        }
        assert(!sets_word(states[states.len() - 1].accounts@, address, key));
        law_unset_word_stays_over_states(overrides, fewer, address, key);
        law_unset_word_stays(
            with_states(overrides, fewer),
            states.last().accounts@,
            address,
            key,
        );
    }
}

/// Of several transactions, the last one that set a storage word decides what it is overridden
/// with.
pub proof fn law_last_write_counts(
    overrides: Map<Address, AccountOverrideView>,
    states: Seq<EvmState>,
    m: int,
    k: int,
    s: int,
    key: B256,
)
    requires
        0 <= m < states.len(),
        0 <= k < states[m].accounts@.len(),
        0 <= s < states[m].accounts@[k].1.storage@.len(),
        key@ == be_bytes(states[m].accounts@[k].1.storage@[s].0.value(), 32),
        forall|t: int|
            s < t < states[m].accounts@[k].1.storage@.len() ==> key@ != be_bytes(
                (#[trigger] states[m].accounts@[k].1.storage@[t]).0.value(),
                32,
            ),
        !sets_word(states[m].accounts@.skip(k + 1), states[m].accounts@[k].0, key),
        forall|n: int|
            m < n < states.len() ==> !sets_word(
                (#[trigger] states[n]).accounts@,
                states[m].accounts@[k].0,
                key,
            ),
    ensures
        ({
            let (address, account) = states[m].accounts@[k];
            let word = overridden_word(with_states(overrides, states), address, key);
            word is Some && word.unwrap()@ == be_bytes(account.storage@[s].1.value(), 32)
        }),
{
    let accounts = states[m].accounts@;
    let until = states.take(m + 1);
    let later = states.skip(m + 1);
    assert(until.drop_last() =~= states.take(m));
    assert(until.last() == states[m]);
    law_set_word_is_overridden(with_states(overrides, states.take(m)), accounts, k, s, key);
    assert forall|n: int| 0 <= n < later.len() implies !sets_word(
        (#[trigger] later[n]).accounts@,
        accounts[k].0,
        key,
    ) by {
        assert(later[n] == states[m + 1 + n]);
    }
    law_unset_word_stays_over_states(with_states(overrides, until), later, accounts[k].0, key);
    law_states_apply_in_turn(overrides, until, later);
    assert(until + later =~= states);
}

/// Of several transactions, the last one that touched an account decides what its balance, nonce
/// and code are overridden with.
pub proof fn law_last_state_counts(
    overrides: Map<Address, AccountOverrideView>,
    states: Seq<EvmState>,
    m: int,
    k: int,
)
    requires
        0 <= m < states.len(),
        0 <= k < states[m].accounts@.len(),
        !touches(states[m].accounts@.skip(k + 1), states[m].accounts@[k].0),
        forall|n: int|
            m < n < states.len() ==> !touches(
                (#[trigger] states[n]).accounts@,
                states[m].accounts@[k].0,
            ),
    ensures
        ({
            let (address, account) = states[m].accounts@[k];
            let after = with_states(overrides, states);
            &&& after.contains_key(address)
            &&& after[address].balance == Some(account.info.balance)
            &&& after[address].nonce == Some(account.info.nonce)
            &&& after[address].code == account.info.code
        }),
{
    let accounts = states[m].accounts@;
    let until = states.take(m + 1);
    let later = states.skip(m + 1);
    assert(until.drop_last() =~= states.take(m));
    assert(until.last() == states[m]);
    law_last_touch_counts(with_states(overrides, states.take(m)), accounts, k);
    assert forall|n: int| 0 <= n < later.len() implies !touches(
        (#[trigger] later[n]).accounts@,
        accounts[k].0,
    ) by {
        assert(later[n] == states[m + 1 + n]);
    }
    law_untouched_account_stays_over_states(with_states(overrides, until), later, accounts[k].0);
    law_states_apply_in_turn(overrides, until, later);
    assert(until + later =~= states);
}

/// An account that none of several transactions touched keeps its override, and gets none where it
/// has none.
pub proof fn law_untouched_account_stays_over_states(
    overrides: Map<Address, AccountOverrideView>,
    states: Seq<EvmState>,
    address: Address,
)
    requires
        forall|m: int|
            0 <= m < states.len() ==> !touches((#[trigger] states[m]).accounts@, address),
    ensures
        lookup(with_states(overrides, states), address) == lookup(overrides, address),
    decreases states.len(),
{
    if states.len() > 0 {
        let fewer = states.drop_last();
        assert forall|m: int| 0 <= m < fewer.len() implies !touches(
            (#[trigger] fewer[m]).accounts@,
            address,
        ) by {
            assert(fewer[m] == states[m]);
        }
        law_untouched_account_stays_over_states(overrides, fewer, address);
        let accounts = states[states.len() - 1].accounts@;
        assert(!touches(accounts, address));
        assert forall|k: int| 0 <= k < accounts.len() implies (#[trigger] accounts[k]).0
            != address by {}
        law_untouched_account_stays(with_states(overrides, fewer), accounts, address);
    }
}

/// The changes to each account.
#[derive(Debug)]
pub struct StateOverride {
    accounts: HashMap<Address, AccountOverride>,
}

impl StateOverride {
    /// The changes to each account that has any.
    pub closed spec fn view(&self) -> Map<Address, AccountOverrideView> {
        self.accounts@.map_values(|account: AccountOverride| account@)
    }

    /// The changes to the account at `address`.
    pub fn get(&self, address: &Address) -> (r: Option<&AccountOverride>)
        ensures
            match r {
                Some(account) => self@.contains_key(*address) && account@ == self@[*address],
                None => !self@.contains_key(*address),
            },
    {
        map_get(&self.accounts, address)
    }

    /// The accounts that have changes, each once and in no particular order.
    pub fn addresses(&self) -> (r: Vec<Address>)
        ensures
            r@.no_duplicates(),
            r@.to_set() == self@.dom(),
    {
        let r = map_keys(&self.accounts);
        assert(self@.dom() =~= self.accounts@.dom());
        r
    }

    /// Sets the changes to the account at `address`.
    pub fn insert(&mut self, address: Address, account: AccountOverride)
        ensures
            final(self)@ == old(self)@.insert(address, account@),
    {
        map_insert(&mut self.accounts, address, account);
        assert(self@ =~= old(self)@.insert(address, account@));
    }

    /// Adds what a transaction changed.
    pub fn apply_state(&mut self, state: &EvmState)
        ensures
            final(self)@ == with_accounts(old(self)@, state.accounts@),
    {
        let ghost start = self@;
        let mut i: usize = 0;
        assert(state.accounts@.take(0) =~= Seq::empty());
        while i < state.accounts.len()
            invariant
                i <= state.accounts.len(),
                self@ == with_accounts(start, state.accounts@.take(i as int)),
            decreases state.accounts.len() - i,
        {
            let ghost before = self@;
            let address = state.accounts[i].0;
            let account = &state.accounts[i].1;
            let existing = match map_remove(&mut self.accounts, &address) {
                Some(existing) => existing,
                None => AccountOverride::default(),
            };
            assert(existing@ == override_of(before, address));
            let mut table = match existing.state_diff {
                Some(table) => table,
                None => {
                    let table = map_new();
                    assert(table@ =~= Map::<B256, B256>::empty());
                    table
                },
            };
            let ghost table_start = table@;
            let mut k: usize = 0;
            assert(account.storage@.take(0) =~= Seq::empty());
            while k < account.storage.len()
                invariant
                    k <= account.storage.len(),
                    table@ == with_slots(table_start, account.storage@.take(k as int)),
                decreases account.storage.len() - k,
            {
                let slot = account.storage[k];
                map_insert(&mut table, word_from_u256(slot.0), word_from_u256(slot.1));
                k += 1;
                assert(account.storage@.take(k as int).drop_last() =~= account.storage@.take(
                    k - 1,
                ));
                assert(account.storage@.take(k as int).last() == slot);
            }
            assert(account.storage@.take(k as int) =~= account.storage@);
            let changed = AccountOverride {
                balance: Some(account.info.balance),
                nonce: Some(account.info.nonce),
                code: share_bytes(&account.info.code),
                state: existing.state,
                state_diff: Some(table),
                move_precompile_to: existing.move_precompile_to,
            };
            map_insert(&mut self.accounts, address, changed);
            i += 1;
            proof {
                assert(state.accounts@.take(i as int).drop_last() =~= state.accounts@.take(i - 1));
                assert(state.accounts@.take(i as int).last() == state.accounts@[i - 1]);
                assert(changed@ =~= with_account(override_of(before, address), *account));
                assert(self@ =~= before.insert(address, changed@));
            }
        }
        assert(state.accounts@.take(i as int) =~= state.accounts@);
    }
}

impl Default for StateOverride {
    /// No changes.
    fn default() -> (r: Self)
        ensures
            r@ == Map::<Address, AccountOverrideView>::empty(),
    {
        let r = StateOverride { accounts: map_new() };
        assert(r@ =~= Map::<Address, AccountOverrideView>::empty());
        r
    }
}

impl Clone for StateOverride {
    fn clone(&self) -> (r: Self)
        ensures
            r@ == self@,
    {
        let r = StateOverride { accounts: map_clone(&self.accounts) };
        proof {
            assert forall|key: Address| #[trigger] self.accounts@.contains_key(key) implies
                r.accounts@[key]@ == self.accounts@[key]@ by {
                assert(cloned::<AccountOverride>(self.accounts@[key], r.accounts@[key]));
            }
            assert(r@ =~= self@);
        }
        r
    }
}

/// Applying what a transaction changed keeps every storage word that was overridden before and that
/// the transaction did not set, and sets each word that it did, to the value that it set last.
/// Words and values are laid out with the most significant byte first.
pub proof fn law_applied_state_keeps_words(
    overrides: &mut StateOverride,
    state: &EvmState,
    address: Address,
    key: B256,
)
    requires
        call_ensures(StateOverride::apply_state, (overrides, state), ()),
    ensures
        !sets_word(state.accounts@, address, key) ==> overridden_word(
            final(overrides)@,
            address,
            key,
        ) == overridden_word(old(overrides)@, address, key),
        forall|k: int, s: int|
            0 <= k < state.accounts@.len() && 0 <= s < state.accounts@[k].1.storage@.len()
                && state.accounts@[k].0 == address && key@ == be_bytes(
                (#[trigger] state.accounts@[k].1.storage@[s]).0.value(),
                32,
            ) && (forall|t: int|
                s < t < state.accounts@[k].1.storage@.len() ==> key@ != be_bytes(
                    (#[trigger] state.accounts@[k].1.storage@[t]).0.value(),
                    32,
                )) && !sets_word(state.accounts@.skip(k + 1), address, key) ==> {
                let word = overridden_word(final(overrides)@, address, key);
                word is Some && word.unwrap()@ == be_bytes(
                    state.accounts@[k].1.storage@[s].1.value(),
                    32,
                )
            },
{
    let accounts = state.accounts@;
    if !sets_word(accounts, address, key) {
        law_unset_word_stays(old(overrides)@, accounts, address, key);
    }
    assert forall|k: int, s: int|
        0 <= k < accounts.len() && 0 <= s < accounts[k].1.storage@.len() && accounts[k].0 == address
            && key@ == be_bytes((#[trigger] accounts[k].1.storage@[s]).0.value(), 32) && (forall|
            t: int,
        |
            s < t < accounts[k].1.storage@.len() ==> key@ != be_bytes(
                (#[trigger] accounts[k].1.storage@[t]).0.value(),
                32,
            )) && !sets_word(accounts.skip(k + 1), address, key) implies {
        let word = overridden_word(with_accounts(old(overrides)@, accounts), address, key);
        word is Some && word.unwrap()@ == be_bytes(accounts[k].1.storage@[s].1.value(), 32)
    } by {
        law_set_word_is_overridden(old(overrides)@, accounts, k, s, key);
    }
}

/// Applying what a transaction changed sets the balance, the nonce and the code of each account
/// that it touched to those that it left the account with, keeps what else is overridden of the
/// account, and leaves every other account alone.
pub proof fn law_applied_state_sets_accounts(
    overrides: &mut StateOverride,
    state: &EvmState,
    address: Address,
    k: int,
)
    requires
        call_ensures(StateOverride::apply_state, (overrides, state), ()),
    ensures
        !touches(state.accounts@, address) ==> lookup(final(overrides)@, address) == lookup(
            old(overrides)@,
            address,
        ),
        0 <= k < state.accounts@.len() && state.accounts@[k].0 == address && !touches(
            state.accounts@.skip(k + 1),
            address,
        ) ==> {
            let after = final(overrides)@[address];
            let before = lookup(old(overrides)@, address);
            let info = state.accounts@[k].1.info;
            &&& final(overrides)@.contains_key(address)
            &&& after.balance == Some(info.balance)
            &&& after.nonce == Some(info.nonce)
            &&& after.code == info.code
            &&& before matches Some(before) ==> {
                &&& after.state == before.state
                &&& after.move_precompile_to == before.move_precompile_to
            }
            &&& before is None ==> after.state is None && after.move_precompile_to is None
        },
{
    let accounts = state.accounts@;
    if !touches(accounts, address) {
        assert forall|j: int| 0 <= j < accounts.len() implies (#[trigger] accounts[j]).0
            != address by {}
        law_untouched_account_stays(old(overrides)@, accounts, address);
    }
    if 0 <= k < accounts.len() && accounts[k].0 == address && !touches(
        accounts.skip(k + 1),
        address,
    ) {
        law_last_touch_counts(old(overrides)@, accounts, k);
    }
}

/// What was set for an account is read back, and what is overridden of others stays. The accounts
/// that are listed are those that have an override.
pub proof fn law_set_override_is_read(
    overrides: &mut StateOverride,
    address: Address,
    account: AccountOverride,
    other: Address,
)
    requires
        call_ensures(StateOverride::insert, (overrides, address, account), ()),
    ensures
        lookup(final(overrides)@, other) == if other == address {
            Some(account@)
        } else {
            lookup(old(overrides)@, other)
        },
{
}

/// What is read for an account is its override, where it has one, and each account that has one is
/// listed, once.
pub proof fn law_overrides_are_listed(
    overrides: &StateOverride,
    address: Address,
    found: Option<&AccountOverride>,
    listed: Vec<Address>,
)
    requires
        call_ensures(StateOverride::get, (overrides, &address), found),
        call_ensures(StateOverride::addresses, (overrides,), listed),
    ensures
        found is Some <==> overrides@.contains_key(address),
        found matches Some(account) ==> account@ == overrides@[address],
        listed@.contains(address) <==> found is Some,
        forall|i: int, j: int|
            0 <= i < j < listed@.len() ==> #[trigger] listed@[i] != #[trigger] listed@[j],
{
    assert(listed@.to_set().contains(address) <==> listed@.contains(address));
}

/// To begin with, nothing is overridden: of no account, and nothing of an account.
pub proof fn law_nothing_is_overridden_at_first(
    overrides: StateOverride,
    account: AccountOverride,
    address: Address,
)
    requires
        call_ensures(<StateOverride as Default>::default, (), overrides),
        call_ensures(<AccountOverride as Default>::default, (), account),
    ensures
        lookup(overrides@, address) is None,
        account.balance is None,
        account.nonce is None,
        account.code is None,
        account@.state is None,
        account@.state_diff is None,
        account.move_precompile_to is None,
{
}

} // verus!
