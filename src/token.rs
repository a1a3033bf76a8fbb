use crate::address::Address;
use crate::allowances::Allowances;
use crate::balances::{
    lemma_balance_absent, lemma_balance_at, lemma_balance_le_sum, sum_of, BalanceEntry, Balances,
};
use crate::uint::{u256_max, U256};
use vstd::prelude::*;

verus! {

/// A record appended to the event log by a successful operation.
#[derive(Clone, Copy, Debug, PartialEq, Eq)]
pub enum Event {
    /// `value` tokens went from `from` to `to`; minted tokens come from the
    /// zero address.
    Transfer { from: Address, to: Address, value: U256 },
    /// `owner` now lets `spender` move up to `value` of its tokens.
    Approval { owner: Address, spender: Address, value: U256 },
}

/// Why an operation was rejected. A rejected operation changes nothing.
#[derive(Clone, Copy, Debug, PartialEq, Eq)]
pub enum TokenError {
    /// The account to debit holds less than the amount.
    InsufficientBalance,
    /// The caller may spend less than the amount on the owner's behalf.
    InsufficientAllowance,
    /// The total supply would exceed 2^256 - 1.
    Overflow,
    /// `init` was already called on this ledger.
    AlreadyInitialized,
}

impl TokenError {
    /// The message the call is reverted with.
    pub fn message(&self) -> (r: &'static str)
        ensures
            *self == TokenError::InsufficientBalance ==> r@ == "Insufficient balance"@,
            *self == TokenError::InsufficientAllowance ==> r@ == "Insufficient allowance"@,
            *self == TokenError::Overflow ==> r@ == "Arithmetic overflow"@,
            *self == TokenError::AlreadyInitialized ==> r@ == "Already initialized"@,
    {
        match self {
            TokenError::InsufficientBalance => "Insufficient balance",
            TokenError::InsufficientAllowance => "Insufficient allowance",
            TokenError::Overflow => "Arithmetic overflow",
            TokenError::AlreadyInitialized => "Already initialized",
        }
    }
}

/// `e` is an `Approval` of `owner` for `spender` with value `v`.
pub open spec fn is_approval(e: Event, owner: Address, spender: Address, v: int) -> bool {
    match e {
        Event::Approval { owner: o, spender: s, value } => o == owner && s == spender
            && value.value() == v,
        _ => false,
    }
}

/// The ledger: balances, allowances, total supply, metadata and event log.
pub struct ERC20Token {
    balances: Balances,
    allowances: Allowances,
    total_supply: U256,
    name: String,
    symbol: String,
    decimals: u8,
    initialized: bool,
    log: Vec<Event>,
}

impl ERC20Token {
    /// The balance of `a`; an account never credited holds 0.
    pub closed spec fn spec_balance(&self, a: Address) -> nat {
        self.balances.get_spec(a)
    }

    /// What `owner` lets `spender` move; 0 unless approved.
    pub closed spec fn spec_allowance(&self, owner: Address, spender: Address) -> nat {
        self.allowances.get_spec(owner, spender)
    }

    pub closed spec fn spec_supply(&self) -> nat {
        self.total_supply.value()
    }

    pub closed spec fn spec_events(&self) -> Seq<Event> {
        self.log@
    }

    pub closed spec fn spec_name(&self) -> Seq<char> {
        self.name@
    }

    pub closed spec fn spec_symbol(&self) -> Seq<char> {
        self.symbol@
    }

    pub closed spec fn spec_decimals(&self) -> u8 {
        self.decimals
    }

    pub closed spec fn spec_initialized(&self) -> bool {
        self.initialized
    }

    /// The tables are well formed and the supply is the sum of all balances.
    pub closed spec fn wf(&self) -> bool {
        &&& self.balances.wf()
        &&& self.allowances.wf()
        &&& self.balances.sum() == self.total_supply.value()
    }

    /// Name, symbol, decimals and the init flag are as in `before`.
    pub open spec fn same_metadata(&self, before: &ERC20Token) -> bool {
        &&& self.spec_name() == before.spec_name()
        &&& self.spec_symbol() == before.spec_symbol()
        &&& self.spec_decimals() == before.spec_decimals()
        &&& self.spec_initialized() == before.spec_initialized()
    }

    pub open spec fn same_allowances(&self, before: &ERC20Token) -> bool {
        forall|o: Address, s: Address| self.spec_allowance(o, s) == before.spec_allowance(o, s)
    }

    /// Balances as in `before`, but `v` moved from `from` to `to`; a move to
    /// oneself changes nothing.
    pub open spec fn balances_moved(
        &self,
        before: &ERC20Token,
        from: Address,
        to: Address,
        v: nat,
    ) -> bool {
        forall|a: Address|
            #[trigger] self.spec_balance(a) == if from == to || (a != from && a != to) {
                before.spec_balance(a) as int
            } else if a == from {
                before.spec_balance(a) - v
            } else {
                (before.spec_balance(a) + v) as int
            }
    }

    /// The state after `from` successfully moved `amount` to `to`, starting
    /// from `before`: only those balances change, and one `Transfer` is logged.
    pub open spec fn transfer_effect(
        &self,
        before: &ERC20Token,
        from: Address,
        to: Address,
        amount: U256,
    ) -> bool {
        &&& self.balances_moved(before, from, to, amount.value())
        &&& self.same_allowances(before)
        &&& self.spec_supply() == before.spec_supply()
        &&& self.same_metadata(before)
        &&& self.spec_events() == before.spec_events().push(
            Event::Transfer { from, to, value: amount },
        )
    }

    /// The state after `spender` successfully moved `amount` from `from` to
    /// `to` against its allowance, starting from `before`: the allowance drops
    /// by `amount`, then `Approval` with the new allowance and `Transfer` are
    /// logged, in that order.
    pub open spec fn transfer_from_effect(
        &self,
        before: &ERC20Token,
        spender: Address,
        from: Address,
        to: Address,
        amount: U256,
    ) -> bool {
        let n = before.spec_events().len();
        &&& self.balances_moved(before, from, to, amount.value())
        &&& self.spec_allowance(from, spender) == before.spec_allowance(from, spender)
            - amount.value()
        &&& forall|o: Address, s: Address|
            !(o == from && s == spender) ==> #[trigger] self.spec_allowance(o, s)
                == before.spec_allowance(o, s)
        &&& self.spec_supply() == before.spec_supply()
        &&& self.same_metadata(before)
        &&& self.spec_events().len() == n + 2
        &&& self.spec_events().subrange(0, n as int) == before.spec_events()
        &&& is_approval(
            self.spec_events()[n as int],
            from,
            spender,
            before.spec_allowance(from, spender) - amount.value(),
        )
        &&& self.spec_events()[(n + 1) as int] == Event::Transfer { from, to, value: amount }
    }

    /// The state after `owner` set `spender`'s allowance to `amount`.
    pub open spec fn approve_effect(
        &self,
        before: &ERC20Token,
        owner: Address,
        spender: Address,
        amount: U256,
    ) -> bool {
        &&& forall|a: Address| #[trigger]
            self.spec_balance(a) == before.spec_balance(a)
        &&& self.spec_allowance(owner, spender) == amount.value()
        &&& forall|o: Address, s: Address|
            !(o == owner && s == spender) ==> #[trigger] self.spec_allowance(o, s)
                == before.spec_allowance(o, s)
        &&& self.spec_supply() == before.spec_supply()
        &&& self.same_metadata(before)
        &&& self.spec_events() == before.spec_events().push(
            Event::Approval { owner, spender, value: amount },
        )
    }

    /// The state after `amount` new tokens were credited to `to`.
    pub open spec fn mint_effect(&self, before: &ERC20Token, to: Address, amount: U256) -> bool {
        &&& forall|a: Address| #[trigger]
            self.spec_balance(a) == if a == to {
                before.spec_balance(a) + amount.value()
            } else {
                before.spec_balance(a)
            }
        &&& self.same_allowances(before)
        &&& self.spec_supply() == before.spec_supply() + amount.value()
        &&& self.same_metadata(before)
        &&& self.spec_events() == before.spec_events().push(
            Event::Transfer { from: Address::zero_spec(), to, value: amount },
        )
    }

    /// Moves `amount` from `from` to `to` and logs `Transfer`.
    fn move_tokens(&mut self, from: &Address, to: &Address, amount: U256) -> (r: Result<
        (),
        TokenError,
    >)
        requires
            old(self).wf(),
        ensures
            final(self).wf(),
            old(self).spec_balance(*from) < amount.value() <==> r == Err::<(), TokenError>(
                TokenError::InsufficientBalance,
            ),
            old(self).spec_balance(*from) >= amount.value() <==> r is Ok,
            r is Err ==> *final(self) == *old(self),
            r is Ok ==> final(self).transfer_effect(&*old(self), *from, *to, amount),
    {
        let ghost before = *self;
        let from_balance = self.balances.get(from);
        let new_from_balance = match from_balance.checked_sub(amount) {
            Some(v) => v,
            None => {
                return Err(TokenError::InsufficientBalance);
            },
        };
        self.balances.set(from, new_from_balance);
        let to_balance = self.balances.get(to);
        proof {
            lemma_balance_le_sum(self.balances.entries@, *to);
            self.total_supply.lemma_value_bound();
        }
        let new_to_balance = match to_balance.checked_add(amount) {
            Some(v) => v,
            None => {
                return Err(TokenError::Overflow);
            },
        };
        self.balances.set(to, new_to_balance);
        self.log.push(Event::Transfer { from: *from, to: *to, value: amount });
        proof {
            assert(self.balances_moved(&before, *from, *to, amount.value()));
            assert(self.same_allowances(&before));
        }
        Ok(())
    }

    /// The caller sends `amount` of its own tokens to `to`.
    pub fn transfer(&mut self, caller: Address, to: Address, amount: U256) -> (r: Result<
        bool,
        TokenError,
    >)
        requires
            old(self).wf(),
        ensures
            final(self).wf(),
            old(self).spec_balance(caller) < amount.value() <==> r == Err::<bool, TokenError>(
                TokenError::InsufficientBalance,
            ),
            old(self).spec_balance(caller) >= amount.value() <==> r == Ok::<bool, TokenError>(
                true,
            ),
            r is Err ==> *final(self) == *old(self),
            r is Ok ==> final(self).transfer_effect(&*old(self), caller, to, amount),
    {
        match self.move_tokens(&caller, &to, amount) {
            Ok(()) => Ok(true),
            Err(e) => Err(e),
        }
    }

    /// The caller moves `amount` from `from` to `to`, spending the allowance
    /// `from` gave it.
    pub fn transfer_from(
        &mut self,
        caller: Address,
        from: Address,
        to: Address,
        amount: U256,
    ) -> (r: Result<bool, TokenError>)
        requires
            old(self).wf(),
        ensures
            final(self).wf(),
            old(self).spec_allowance(from, caller) < amount.value() <==> r == Err::<
                bool,
                TokenError,
            >(TokenError::InsufficientAllowance),
            old(self).spec_allowance(from, caller) >= amount.value() && old(self).spec_balance(
                from,
            ) < amount.value() <==> r == Err::<bool, TokenError>(TokenError::InsufficientBalance),
            old(self).spec_allowance(from, caller) >= amount.value() && old(self).spec_balance(
                from,
            ) >= amount.value() <==> r == Ok::<bool, TokenError>(true),
            r is Err ==> *final(self) == *old(self),
            r is Ok ==> final(self).transfer_from_effect(&*old(self), caller, from, to, amount),
    {
        let ghost before = *self;
        let current_allowance = self.allowances.get(&from, &caller);
        let new_allowance = match current_allowance.checked_sub(amount) {
            Some(v) => v,
            None => {
                return Err(TokenError::InsufficientAllowance);
            },
        };
        let from_balance = self.balances.get(&from);
        if from_balance.checked_sub(amount).is_none() {
            return Err(TokenError::InsufficientBalance);
        }
        self.allowances.set(&from, &caller, new_allowance);
        self.log.push(Event::Approval { owner: from, spender: caller, value: new_allowance });
        match self.move_tokens(&from, &to, amount) {
            Ok(()) => {
                proof {
                    let n = before.spec_events().len();
                    assert(self.spec_events() == before.spec_events().push(
                        Event::Approval { owner: from, spender: caller, value: new_allowance },
                    ).push(Event::Transfer { from, to, value: amount }));
                    assert(self.spec_events().subrange(0, n as int) =~= before.spec_events());
                }
                Ok(true)
            },
            Err(e) => Err(e),
        }
    }

    /// Creates `amount` new tokens and credits them to `to`. Anyone may mint.
    pub fn mint(&mut self, to: Address, amount: U256) -> (r: Result<bool, TokenError>)
        requires
            old(self).wf(),
        ensures
            final(self).wf(),
            old(self).spec_supply() + amount.value() > u256_max() <==> r == Err::<
                bool,
                TokenError,
            >(TokenError::Overflow),
            old(self).spec_supply() + amount.value() <= u256_max() <==> r == Ok::<
                bool,
                TokenError,
            >(true),
            r is Err ==> *final(self) == *old(self),
            r is Ok ==> final(self).mint_effect(&*old(self), to, amount),
    {
        let ghost before = *self;
        let new_total_supply = match self.total_supply.checked_add(amount) {
            Some(v) => v,
            None => {
                return Err(TokenError::Overflow);
            },
        };
        let current_balance = self.balances.get(&to);
        proof {
            lemma_balance_le_sum(self.balances.entries@, to);
        }
        let new_balance = match current_balance.checked_add(amount) {
            Some(v) => v,
            None => {
                return Err(TokenError::Overflow);
            },
        };
        self.total_supply = new_total_supply;
        self.balances.set(&to, new_balance);
        self.log.push(Event::Transfer { from: Address::zero(), to, value: amount });
        Ok(true)
    }

    /// Sets what `spender` may move from the caller's balance to `amount`,
    /// whatever it was before, and logs `Approval`.
    pub fn approve(&mut self, caller: Address, spender: Address, amount: U256) -> (r: bool)
        requires
            old(self).wf(),
        ensures
            final(self).wf(),
            r,
            final(self).approve_effect(&*old(self), caller, spender, amount),
    {
        self.allowances.set(&caller, &spender, amount);
        self.log.push(Event::Approval { owner: caller, spender, value: amount });
        true
    }

    /// Sets the metadata, makes `initial_supply` the total supply and credits
    /// all of it to the caller, clearing any other balance and allowance, and
    /// logs `Transfer` from the zero address. Refused once the ledger is
    /// initialized.
    pub fn init(
        &mut self,
        caller: Address,
        name: String,
        symbol: String,
        decimals: u8,
        initial_supply: U256,
    ) -> (r: Result<(), TokenError>)
        requires
            old(self).wf(),
        ensures
            final(self).wf(),
            old(self).spec_initialized() <==> r == Err::<(), TokenError>(
                TokenError::AlreadyInitialized,
            ),
            !old(self).spec_initialized() <==> r is Ok,
            r is Err ==> *final(self) == *old(self),
            r is Ok ==> {
                &&& final(self).spec_initialized()
                &&& final(self).spec_name() == name@
                &&& final(self).spec_symbol() == symbol@
                &&& final(self).spec_decimals() == decimals
                &&& final(self).spec_supply() == initial_supply.value()
                &&& forall|a: Address| #[trigger]
                    final(self).spec_balance(a) == if a == caller {
                        initial_supply.value()
                    } else {
                        0
                    }
                &&& forall|o: Address, s: Address| #[trigger]
                    final(self).spec_allowance(o, s) == 0
                &&& final(self).spec_events() == old(self).spec_events().push(
                    Event::Transfer { from: Address::zero_spec(), to: caller, value: initial_supply },
                )
            },
    {
        if self.initialized {
            return Err(TokenError::AlreadyInitialized);
        }
        self.name = name;
        self.symbol = symbol;
        self.decimals = decimals;
        self.total_supply = initial_supply;
        let mut balances = Balances::new();
        balances.set(&caller, initial_supply);
        self.balances = balances;
        self.allowances = Allowances::new();
        self.initialized = true;
        self.log.push(Event::Transfer { from: Address::zero(), to: caller, value: initial_supply });
        Ok(())
    }

    pub fn name(&self) -> (r: String)
        ensures
            r@ == self.spec_name(),
    {
        self.name.clone()
    }

    pub fn symbol(&self) -> (r: String)
        ensures
            r@ == self.spec_symbol(),
    {
        self.symbol.clone()
    }

    pub fn decimals(&self) -> (r: u8)
        ensures
            r == self.spec_decimals(),
    {
        self.decimals
    }

    pub fn total_supply(&self) -> (r: U256)
        ensures
            r.value() == self.spec_supply(),
    {
        self.total_supply
    }

    pub fn balance_of(&self, account: Address) -> (r: U256)
        requires
            self.wf(),
        ensures
            r.value() == self.spec_balance(account),
    {
        self.balances.get(&account)
    }

    pub fn allowance(&self, owner: Address, spender: Address) -> (r: U256)
        requires
            self.wf(),
        ensures
            r.value() == self.spec_allowance(owner, spender),
    {
        self.allowances.get(&owner, &spender)
    }

    /// The events logged so far, oldest first.
    pub fn events(&self) -> (r: &Vec<Event>)
        ensures
            r@ == self.spec_events(),
    {
        &self.log
    }

    /// An empty ledger: no balances, no allowances, supply 0, not initialized.
    pub fn new() -> (r: ERC20Token)
        ensures
            r.wf(),
            forall|a: Address| r.spec_balance(a) == 0,
            forall|o: Address, s: Address| r.spec_allowance(o, s) == 0,
            r.spec_supply() == 0,
            r.spec_name().len() == 0,
            r.spec_symbol().len() == 0,
            r.spec_decimals() == 0,
            !r.spec_initialized(),
            r.spec_events().len() == 0,
    {
        ERC20Token {
            balances: Balances::new(),
            allowances: Allowances::new(),
            total_supply: U256::zero(),
            name: String::new(),
            symbol: String::new(),
            decimals: 0,
            initialized: false,
            log: Vec::new(),
        }
    }
}

impl Default for ERC20Token {
    fn default() -> (r: ERC20Token)
        ensures
            r.wf(),
            forall|a: Address| r.spec_balance(a) == 0,
            r.spec_supply() == 0,
            !r.spec_initialized(),
            r.spec_events().len() == 0,
    {
        ERC20Token::new()
    }
}

/// The sum of the balances of the accounts in `accounts`.
pub open spec fn balance_total(t: ERC20Token, accounts: Seq<Address>) -> nat
    decreases accounts.len(),
{
    if accounts.len() == 0 {
        0
    } else {
        balance_total(t, accounts.drop_last()) + t.spec_balance(accounts.last())
    }
}

proof fn lemma_balance_total_prefix(t: ERC20Token, k: int)
    requires
        t.wf(),
        0 <= k <= t.balances.entries@.len(),
    ensures
        balance_total(t, t.balances.entries@.map_values(|e: BalanceEntry| e.account).take(k))
            == sum_of(t.balances.entries@.take(k)),
    decreases k,
{
    let s = t.balances.entries@;
    let accounts = s.map_values(|e: BalanceEntry| e.account);
    if k > 0 {
        lemma_balance_total_prefix(t, k - 1);
        assert(accounts.take(k).drop_last() =~= accounts.take(k - 1));
        assert(s.take(k).drop_last() =~= s.take(k - 1));
        lemma_balance_at(s, k - 1);
    }
}

/// In every well-formed ledger (a new one, and whatever any sequence of
/// operations leaves) the total supply is the sum of all balances: there is
/// a list of distinct accounts outside which every balance is 0, and the
/// balances of the accounts in it add up to the total supply.
pub proof fn lemma_supply_is_sum_of_balances(t: ERC20Token) -> (accounts: Seq<Address>)
    requires
        t.wf(),
    ensures
        accounts.no_duplicates(),
        forall|a: Address| !accounts.contains(a) ==> t.spec_balance(a) == 0,
        balance_total(t, accounts) == t.spec_supply(),
{
    let s = t.balances.entries@;
    let accounts = s.map_values(|e: BalanceEntry| e.account);
    assert forall|i: int, j: int| 0 <= i < accounts.len() && 0 <= j < accounts.len() && i != j
        implies accounts[i] != accounts[j] by {
        if i < j {
            assert(s[i].account != s[j].account);
        } else {
            assert(s[j].account != s[i].account);
        }
    }
    assert forall|a: Address| !accounts.contains(a) implies t.spec_balance(a) == 0 by {
        assert forall|i: int| 0 <= i < s.len() implies #[trigger] s[i].account != a by {
            assert(accounts[i] == s[i].account);
        }
        lemma_balance_absent(s, a);
    }
    lemma_balance_total_prefix(t, s.len() as int);
    assert(accounts.take(s.len() as int) =~= accounts);
    assert(s.take(s.len() as int) =~= s);
    accounts
}

/// In every well-formed ledger no balance exceeds the total supply.
pub proof fn lemma_balance_at_most_supply(t: ERC20Token, a: Address)
    requires
        t.wf(),
    ensures
        t.spec_balance(a) <= t.spec_supply(),
{
    lemma_balance_le_sum(t.balances.entries@, a);
}

/// After `approve(spender, x)` by `owner`, `allowance(owner, spender)` is `x`,
/// whatever it was before.
pub proof fn lemma_approve_then_allowance(
    before: ERC20Token,
    after: ERC20Token,
    owner: Address,
    spender: Address,
    x: U256,
)
    requires
        after.approve_effect(&before, owner, spender, x),
    ensures
        after.spec_allowance(owner, spender) == x.value(),
{
}

/// A transfer of zero leaves every balance as it was and still logs its
/// `Transfer`.
pub proof fn lemma_zero_transfer(
    before: ERC20Token,
    after: ERC20Token,
    from: Address,
    to: Address,
    amount: U256,
)
    requires
        after.transfer_effect(&before, from, to, amount),
        amount.value() == 0,
    ensures
        forall|a: Address| after.spec_balance(a) == before.spec_balance(a),
        after.spec_events().len() == before.spec_events().len() + 1,
        after.spec_events().last() == (Event::Transfer { from, to, value: amount }),
{
    assert forall|a: Address| after.spec_balance(a) == before.spec_balance(a) by {
        assert(after.spec_balance(a) == before.spec_balance(a) as int);
    }
}

/// A delegated transfer of zero leaves every balance as it was and still
/// logs its `Approval` and `Transfer`.
pub proof fn lemma_zero_transfer_from(
    before: ERC20Token,
    after: ERC20Token,
    spender: Address,
    from: Address,
    to: Address,
    amount: U256,
)
    requires
        after.transfer_from_effect(&before, spender, from, to, amount),
        amount.value() == 0,
    ensures
        forall|a: Address| after.spec_balance(a) == before.spec_balance(a),
        after.spec_events().len() == before.spec_events().len() + 2,
        is_approval(
            after.spec_events()[before.spec_events().len() as int],
            from,
            spender,
            before.spec_allowance(from, spender) as int,
        ),
        after.spec_events().last() == (Event::Transfer { from, to, value: amount }),
{
    assert forall|a: Address| after.spec_balance(a) == before.spec_balance(a) by {
        assert(after.spec_balance(a) == before.spec_balance(a) as int);
    }
}

/// Sending tokens to oneself leaves one's balance as it was and logs
/// `Transfer` from and to oneself.
pub proof fn lemma_self_transfer(before: ERC20Token, after: ERC20Token, a: Address, amount: U256)
    requires
        after.transfer_effect(&before, a, a, amount),
    ensures
        after.spec_balance(a) == before.spec_balance(a),
        after.spec_events().last() == (Event::Transfer { from: a, to: a, value: amount }),
{
    assert(after.spec_balance(a) == before.spec_balance(a) as int);
}

/// Spending exactly the whole allowance leaves it at 0, and logs
/// `Approval` with value 0 followed by `Transfer`.
pub proof fn lemma_transfer_from_whole_allowance(
    before: ERC20Token,
    after: ERC20Token,
    spender: Address,
    from: Address,
    to: Address,
    amount: U256,
)
    requires
        after.transfer_from_effect(&before, spender, from, to, amount),
        before.spec_allowance(from, spender) == amount.value(),
    ensures
        after.spec_allowance(from, spender) == 0,
        after.spec_events().len() == before.spec_events().len() + 2,
        is_approval(after.spec_events()[before.spec_events().len() as int], from, spender, 0),
        after.spec_events().last() == (Event::Transfer { from, to, value: amount }),
{
}

} // verus!
