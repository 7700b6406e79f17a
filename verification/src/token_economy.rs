//! The reward-token ledger: balances per address, minted and moved in whole calls.
//!
//! An address without an entry has balance zero. Every sum and difference is
//! checked: a call that would pass the range of an amount is rejected and leaves
//! the ledger as it was.

use vstd::prelude::*;
use crate::chain::{Address, Amount, CallContext};
use crate::store::{Store, StoreKey};

verus! {

/// The balance of one address.
#[derive(Clone, Copy, Debug, PartialEq, Eq)]
pub struct TokenBalance {
    pub balance: Amount,
}

/// What a ledger is created with.
#[derive(Clone, Debug, PartialEq, Eq)]
pub struct InitParameter {
    pub name: String,
    pub symbol: String,
    pub decimals: u8,
}

/// The request to mint or to move an amount.
#[derive(Clone, Copy, Debug, PartialEq, Eq)]
pub struct TransferParams {
    pub to: Address,
    pub amount: Amount,
}

/// Why a call on the ledger was rejected.
#[derive(Clone, Copy, Debug, PartialEq, Eq, Structural)]
pub enum TokenError {
    /// The sender's balance is below the amount to move.
    InsufficientFunds,
    /// The request could not be read, or a balance would pass the range of an amount.
    ParseError,
}

/// The balances of a ledger, by address.
pub type Balances = Map<Address, Amount>;

impl StoreKey for Address {
    fn same_key(&self, other: &Self) -> (r: bool) {
        self.same(other)
    }
}

/// The balance of `address`: its entry, or zero where it has none.
pub open spec fn balance_in(balances: Balances, address: Address) -> Amount {
    if balances.contains_key(address) {
        balances[address]
    } else {
        Amount { micro_ccd: 0 }
    }
}

/// The balances once `amount` is minted to `to`; `None` where the new balance
/// would pass the range of an amount.
pub open spec fn minted(balances: Balances, to: Address, amount: Amount) -> Option<Balances> {
    match balance_in(balances, to).sum(amount) {
        Some(credited) => Some(balances.insert(to, credited)),
        None => None,
    }
}

/// The balances once `sender` has moved `amount` to `to`: the sender is debited,
/// then the receiver is credited. The error where the sender has less than
/// `amount`, or where the receiver's new balance would pass the range of an amount.
pub open spec fn transferred(
    balances: Balances,
    sender: Address,
    to: Address,
    amount: Amount,
) -> Result<Balances, TokenError> {
    match balance_in(balances, sender).difference(amount) {
        None => Err(TokenError::InsufficientFunds),
        Some(debited) => {
            let without = balances.insert(sender, debited);
            match balance_in(without, to).sum(amount) {
                None => Err(TokenError::ParseError),
                Some(credited) => Ok(without.insert(to, credited)),
            }
        },
    }
}

/// The state of a ledger.
pub struct State {
    name: String,
    symbol: String,
    decimals: u8,
    balances: Store<Address, Amount>,
}

/// A ledger's [`State`] as a mathematical value.
pub struct StateView {
    pub name: Seq<char>,
    pub symbol: Seq<char>,
    pub decimals: u8,
    pub balances: Balances,
}

impl View for State {
    type V = StateView;

    closed spec fn view(&self) -> StateView {
        StateView {
            name: self.name@,
            symbol: self.symbol@,
            decimals: self.decimals,
            balances: self.balances@,
        }
    }
}

impl State {
    /// A ledger with the given name, symbol and number of decimals, and no balances.
    pub fn new(name: String, symbol: String, decimals: u8) -> (state: State)
        ensures
            state@.name == name@,
            state@.symbol == symbol@,
            state@.decimals == decimals,
            state@.balances == Balances::empty(),
    {
        State { name, symbol, decimals, balances: Store::new() }
    }

    /// The token's name.
    pub fn name(&self) -> (name: &String)
        ensures
            name@ == self@.name,
    {
        &self.name
    }

    /// The token's symbol.
    pub fn symbol(&self) -> (symbol: &String)
        ensures
            symbol@ == self@.symbol,
    {
        &self.symbol
    }

    /// The number of decimals in which amounts of the token are shown.
    pub fn decimals(&self) -> (decimals: u8)
        ensures
            decimals == self@.decimals,
    {
        self.decimals
    }

    /// The balances as they are kept, for reading.
    pub fn balances(&self) -> (balances: &Store<Address, Amount>)
        ensures
            balances@ == self@.balances,
    {
        &self.balances
    }

    /// The balance kept for `address`, zero where none is kept.
    fn balance(&self, address: &Address) -> (balance: Amount)
        ensures
            balance == balance_in(self@.balances, *address),
    {
        match self.balances.get(address) {
            Some(amount) => *amount,
            None => Amount::from_micro_ccd(0),
        }
    }
}

/// Creates a ledger with the metadata of `params` and no balances.
pub fn contract_init(_ctx: &CallContext, params: InitParameter) -> (state: State)
    ensures
        state@.name == params.name@,
        state@.symbol == params.symbol@,
        state@.decimals == params.decimals,
        state@.balances == Balances::empty(),
{
    State::new(params.name, params.symbol, params.decimals)
}

/// Adds the amount of `params` to the balance of the address named there, whoever
/// calls. Where the new balance would pass the range of an amount, or the request
/// could not be read (`params` is `None`), the call is rejected with `ParseError`
/// and the ledger stays as it was.
pub fn mint(_ctx: &CallContext, state: &mut State, params: Option<TransferParams>) -> (r: Result<
    (),
    TokenError,
>)
    ensures
        final(state)@.name == old(state)@.name,
        final(state)@.symbol == old(state)@.symbol,
        final(state)@.decimals == old(state)@.decimals,
        match params {
            Some(p) => match minted(old(state)@.balances, p.to, p.amount) {
                Some(balances) => r == Ok::<(), TokenError>(()) && final(state)@.balances
                    == balances,
                None => r == Err::<(), TokenError>(TokenError::ParseError) && final(state)@
                    == old(state)@,
            },
            None => r == Err::<(), TokenError>(TokenError::ParseError) && final(state)@ == old(
                state,
            )@,
        },
{
    let params = match params {
        Some(params) => params,
        None => {
            return Err(TokenError::ParseError);
        },
    };
    let current_balance = state.balance(&params.to);
    let new_balance = match current_balance.checked_add(params.amount) {
        Some(new_balance) => new_balance,
        None => {
            return Err(TokenError::ParseError);
        },
    };
    state.balances.insert(params.to, new_balance);
    Ok(())
}

/// Moves the amount of `params` from the caller to the address named there. Where
/// the caller's balance is below the amount the call is rejected with
/// `InsufficientFunds`; where the receiver's balance would pass the range of an
/// amount, or the request could not be read, with `ParseError`. A rejected call
/// leaves the ledger as it was.
pub fn transfer(ctx: &CallContext, state: &mut State, params: Option<TransferParams>) -> (r:
    Result<(), TokenError>)
    ensures
        final(state)@.name == old(state)@.name,
        final(state)@.symbol == old(state)@.symbol,
        final(state)@.decimals == old(state)@.decimals,
        match params {
            Some(p) => match transferred(old(state)@.balances, ctx.caller, p.to, p.amount) {
                Ok(balances) => r == Ok::<(), TokenError>(()) && final(state)@.balances
                    == balances,
                Err(e) => r == Err::<(), TokenError>(e) && final(state)@ == old(state)@,
            },
            None => r == Err::<(), TokenError>(TokenError::ParseError) && final(state)@ == old(
                state,
            )@,
        },
{
    let params = match params {
        Some(params) => params,
        None => {
            return Err(TokenError::ParseError);
        },
    };
    let sender = ctx.caller;
    let sender_balance = state.balance(&sender);
    if sender_balance.less_than(params.amount) {
        return Err(TokenError::InsufficientFunds);
    }
    let new_sender_balance = match sender_balance.checked_sub(params.amount) {
        Some(new_sender_balance) => new_sender_balance,
        None => {
            return Err(TokenError::ParseError);
        },
    };
    let receiver_balance = if sender.same(&params.to) {
        new_sender_balance
    } else {
        state.balance(&params.to)
    };
    let new_receiver_balance = match receiver_balance.checked_add(params.amount) {
        Some(new_receiver_balance) => new_receiver_balance,
        None => {
            return Err(TokenError::ParseError);
        },
    };
    state.balances.insert(sender, new_sender_balance);
    state.balances.insert(params.to, new_receiver_balance);
    Ok(())
}

/// The balance of `address`, zero where the ledger keeps none for it. The call is
/// rejected only where the request could not be read (`address` is `None`).
pub fn balance_of(_ctx: &CallContext, state: &State, address: Option<Address>) -> (r: Result<
    Amount,
    TokenError,
>)
    ensures
        match address {
            Some(a) => r == Ok::<Amount, TokenError>(balance_in(state@.balances, a)),
            None => r == Err::<Amount, TokenError>(TokenError::ParseError),
        },
{
    match address {
        Some(address) => Ok(state.balance(&address)),
        None => Err(TokenError::ParseError),
    }
}

/// Minting succeeds exactly when the receiver's balance plus the amount is in
/// range. It then raises that balance by the amount and changes no other.
pub proof fn lemma_mint_adds(balances: Balances, to: Address, amount: Amount)
    ensures
        minted(balances, to, amount) is Some <==> balance_in(balances, to).micro_ccd
            + amount.micro_ccd <= u64::MAX,
        minted(balances, to, amount) matches Some(after) ==> {
            &&& balance_in(after, to).micro_ccd == balance_in(balances, to).micro_ccd
                + amount.micro_ccd
            &&& forall|other: Address|
                other != to ==> #[trigger] balance_in(after, other) == balance_in(balances, other)
        },
{
}

/// No call takes an entry out of the ledger: an address with an entry keeps one
/// through every mint and every transfer.
pub proof fn lemma_entries_stay(
    balances: Balances,
    sender: Address,
    to: Address,
    amount: Amount,
    address: Address,
)
    requires
        balances.contains_key(address),
    ensures
        minted(balances, to, amount) matches Some(after) ==> after.contains_key(address),
        transferred(balances, sender, to, amount) matches Ok(after) ==> after.contains_key(
            address,
        ),
{
}

/// A transfer of more than the sender has is rejected for want of funds,
/// whoever the receiver is.
pub proof fn lemma_transfer_needs_funds(
    balances: Balances,
    sender: Address,
    to: Address,
    amount: Amount,
)
    ensures
        balance_in(balances, sender).micro_ccd < amount.micro_ccd <==> transferred(
            balances,
            sender,
            to,
            amount,
        ) == Err::<Balances, TokenError>(TokenError::InsufficientFunds),
{
}

/// A transfer between two addresses that the sender can pay, and that keeps the
/// receiver's balance in range, succeeds: the sender has the amount less, the
/// receiver the amount more, their sum is as before, and no other balance changes.
pub proof fn lemma_transfer_moves(balances: Balances, sender: Address, to: Address, amount: Amount)
    requires
        sender != to,
        balance_in(balances, sender).micro_ccd >= amount.micro_ccd,
        balance_in(balances, to).micro_ccd + amount.micro_ccd <= u64::MAX,
    ensures
        transferred(balances, sender, to, amount) matches Ok(after) && {
            &&& balance_in(after, sender).micro_ccd == balance_in(balances, sender).micro_ccd
                - amount.micro_ccd
            &&& balance_in(after, to).micro_ccd == balance_in(balances, to).micro_ccd
                + amount.micro_ccd
            &&& balance_in(after, sender).micro_ccd + balance_in(after, to).micro_ccd
                == balance_in(balances, sender).micro_ccd + balance_in(balances, to).micro_ccd
            &&& forall|other: Address|
                other != sender && other != to ==> #[trigger] balance_in(after, other)
                    == balance_in(balances, other)
        },
{
}

/// A transfer between two addresses is rejected for passing the range exactly when
/// the sender can pay and the receiver's balance cannot take the amount.
pub proof fn lemma_transfer_overflow(
    balances: Balances,
    sender: Address,
    to: Address,
    amount: Amount,
)
    requires
        sender != to,
    ensures
        transferred(balances, sender, to, amount) == Err::<Balances, TokenError>(
            TokenError::ParseError,
        ) <==> balance_in(balances, sender).micro_ccd >= amount.micro_ccd && balance_in(
            balances,
            to,
        ).micro_ccd + amount.micro_ccd > u64::MAX,
{
}

/// A transfer to oneself that the sender can pay succeeds and leaves every
/// balance as it was.
pub proof fn lemma_transfer_to_self(balances: Balances, sender: Address, amount: Amount)
    requires
        balance_in(balances, sender).micro_ccd >= amount.micro_ccd,
    ensures
        transferred(balances, sender, sender, amount) matches Ok(after) && forall|
            other: Address,
        | #[trigger] balance_in(after, other) == balance_in(balances, other),
{
}

} // verus!
