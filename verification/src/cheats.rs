//! Shortcuts for common tasks: the menus of the shortcuts, and the calls
//! of the contracts that they make.
//!
//! A call names the account it goes to, the contract and the method, and
//! holds the arguments by name. Turning the arguments into bytes and
//! signing the transaction is left to the caller.

use crate::config::number_or;
use crate::console::{height_of, read_height};
use crate::message::{ticket_option_view, Ticket};
use crate::text::{chars_are, parse_unsigned, read_unsigned, to_chars};
use vstd::prelude::*;

verus! {

/// What a line of the menu of shortcuts asks for.
#[derive(Clone, Copy, Debug, PartialEq, Eq, Structural)]
pub enum CheatCommand {
    Register,
    Subscribe,
    AdvancedAsset,
    Bootstrap,
    Help,
    Quit,
    NotFound,
}

/// What a line of the menu of the advanced asset asks for.
#[derive(Clone, Copy, Debug, PartialEq, Eq, Structural)]
pub enum AssetCommand {
    Transfer,
    Init,
    Mint,
    Balance,
    Help,
    Quit,
    NotFound,
}

/// What the line `line` of the menu of shortcuts asks for: the whole line
/// is the command.
pub fn parse_cheat(line: &str) -> (c: CheatCommand)
    ensures
        c == if line@ == "register"@ {
            CheatCommand::Register
        } else if line@ == "subscribe"@ {
            CheatCommand::Subscribe
        } else if line@ == "bootstrap"@ {
            CheatCommand::Bootstrap
        } else if line@ == "quit"@ {
            CheatCommand::Quit
        } else if line@ == "help"@ {
            CheatCommand::Help
        } else if line@ == "adv-asset"@ {
            CheatCommand::AdvancedAsset
        } else {
            CheatCommand::NotFound
        },
{
    let chars = to_chars(line);
    if chars_are(&chars, "register") {
        CheatCommand::Register
    } else if chars_are(&chars, "subscribe") {
        CheatCommand::Subscribe
    } else if chars_are(&chars, "bootstrap") {
        CheatCommand::Bootstrap
    } else if chars_are(&chars, "quit") {
        CheatCommand::Quit
    } else if chars_are(&chars, "help") {
        CheatCommand::Help
    } else if chars_are(&chars, "adv-asset") {
        CheatCommand::AdvancedAsset
    } else {
        CheatCommand::NotFound
    }
}

/// What the line `line` of the menu of the advanced asset asks for.
pub fn parse_asset(line: &str) -> (c: AssetCommand)
    ensures
        c == if line@ == "init"@ {
            AssetCommand::Init
        } else if line@ == "mint"@ {
            AssetCommand::Mint
        } else if line@ == "balance"@ {
            AssetCommand::Balance
        } else if line@ == "transfer"@ {
            AssetCommand::Transfer
        } else if line@ == "quit"@ {
            AssetCommand::Quit
        } else if line@ == "help"@ {
            AssetCommand::Help
        } else {
            AssetCommand::NotFound
        },
{
    let chars = to_chars(line);
    if chars_are(&chars, "init") {
        AssetCommand::Init
    } else if chars_are(&chars, "mint") {
        AssetCommand::Mint
    } else if chars_are(&chars, "balance") {
        AssetCommand::Balance
    } else if chars_are(&chars, "transfer") {
        AssetCommand::Transfer
    } else if chars_are(&chars, "quit") {
        AssetCommand::Quit
    } else if chars_are(&chars, "help") {
        AssetCommand::Help
    } else {
        AssetCommand::NotFound
    }
}

/// The largest number of units that `input` names: `max`, in any case, is
/// the largest number there is, and what is no number counts as 0.
pub fn max_units_of(input: &str) -> (n: u64)
    ensures
        n == match height_of(input@) {
            Some(h) => h,
            None => 0,
        },
{
    match read_height(&to_chars(input)) {
        Some(h) => h,
        None => 0,
    }
}

/// The number that `input` names; what is no number counts as 0.
pub fn units_of(input: &str) -> (n: u64)
    ensures
        n == number_or(input@, u64::MAX as nat, 0),
{
    match read_unsigned(&to_chars(input), u64::MAX) {
        Some(n) => n,
        None => 0,
    }
}

/// The value of a named argument.
#[derive(Clone, Debug, PartialEq, Eq)]
pub enum ArgValue {
    Text(String),
    Number(u64),
    Bytes(Vec<u8>),
    Numbers(Vec<u64>),
    Texts(Vec<String>),
}

/// A named argument.
#[derive(Clone, Debug, PartialEq, Eq)]
pub struct Arg {
    pub name: String,
    pub value: ArgValue,
}

/// The arguments of a call.
#[derive(Clone, Debug, PartialEq, Eq)]
pub enum Args {
    /// Arguments by name, to be written as a map in this order.
    Named(Vec<Arg>),
    /// Bytes to be handed over as they are.
    Raw(Vec<u8>),
}

/// A call of a method of a contract on an account.
#[derive(Clone, Debug, PartialEq, Eq)]
pub struct Call {
    pub account: String,
    pub contract: Option<Ticket>,
    pub method: String,
    pub args: Args,
    pub fuel_limit: u64,
}

/// The fuel that the calls of the assets may burn.
pub const ASSET_FUEL_LIMIT: u64 = 1_000_000;

/// The fuel that the start of the service may burn.
pub const SERVICE_INIT_FUEL_LIMIT: u64 = 100_000;

/// `a` is the text `value` under the name `name`.
pub open spec fn is_text(a: Arg, name: Seq<char>, value: Seq<char>) -> bool {
    a.name@ == name && (a.value matches ArgValue::Text(s) && s@ == value)
}

/// `a` is the number `value` under the name `name`.
pub open spec fn is_number(a: Arg, name: Seq<char>, value: u64) -> bool {
    a.name@ == name && (a.value matches ArgValue::Number(n) && n == value)
}

/// `a` is the bytes `value` under the name `name`.
pub open spec fn is_bytes(a: Arg, name: Seq<char>, value: Seq<u8>) -> bool {
    a.name@ == name && (a.value matches ArgValue::Bytes(b) && b@ == value)
}

/// `a` is the numbers `value` under the name `name`.
pub open spec fn is_numbers(a: Arg, name: Seq<char>, value: Seq<u64>) -> bool {
    a.name@ == name && (a.value matches ArgValue::Numbers(v) && v@ == value)
}

/// `a` is an empty list of texts under the name `name`.
pub open spec fn is_no_texts(a: Arg, name: Seq<char>) -> bool {
    a.name@ == name && (a.value matches ArgValue::Texts(v) && v@.len() == 0)
}

/// The call goes to `account` for the method `method` of `contract`, with
/// `count` named arguments and the fuel limit `fuel_limit`.
pub open spec fn calls(
    c: Call,
    account: Seq<char>,
    contract: Option<Ticket>,
    method: Seq<char>,
    count: nat,
    fuel_limit: u64,
) -> bool {
    &&& c.account@ == account
    &&& ticket_option_view(c.contract) == ticket_option_view(contract)
    &&& c.method@ == method
    &&& c.fuel_limit == fuel_limit
    &&& (c.args matches Args::Named(v) && v@.len() == count)
}

/// The named arguments of a call.
pub open spec fn named(c: Call) -> Seq<Arg> {
    match c.args {
        Args::Named(v) => v@,
        Args::Raw(_) => Seq::empty(),
    }
}

fn text(name: &str, value: String) -> (a: Arg)
    ensures
        is_text(a, name@, value@),
{
    Arg { name: name.to_owned(), value: ArgValue::Text(value) }
}

fn number(name: &str, value: u64) -> (a: Arg)
    ensures
        is_number(a, name@, value),
{
    Arg { name: name.to_owned(), value: ArgValue::Number(value) }
}

/// The registration of a contract with the service.
pub fn register_contract_tx(
    service_account: String,
    service_contract: Option<Ticket>,
    name: String,
    version: String,
    description: String,
    url: String,
    bin: Vec<u8>,
    fuel_limit: u64,
) -> (c: Call)
    ensures
        calls(c, service_account@, service_contract, "contract_registration"@, 5, fuel_limit),
        is_text(named(c)[0], "name"@, name@),
        is_text(named(c)[1], "version"@, version@),
        is_text(named(c)[2], "description"@, description@),
        is_text(named(c)[3], "url"@, url@),
        is_bytes(named(c)[4], "bin"@, bin@),
{
    let mut args: Vec<Arg> = Vec::new();
    args.push(text("name", name));
    args.push(text("version", version));
    args.push(text("description", description));
    args.push(text("url", url));
    args.push(Arg { name: "bin".to_owned(), value: ArgValue::Bytes(bin) });
    Call {
        account: service_account,
        contract: service_contract,
        method: "contract_registration".to_owned(),
        args: Args::Named(args),
        fuel_limit,
    }
}

/// The start of the service: the contract with the hash `contract` is
/// started with its own binary as the argument.
pub fn create_service_init_tx(service_account: String, contract: Ticket, bin: Vec<u8>) -> (c: Call)
    ensures
        c.account@ == service_account@,
        c.contract matches Some(t) && t@ == contract@,
        c.method@ == "init"@,
        c.fuel_limit == SERVICE_INIT_FUEL_LIMIT,
        c.args matches Args::Raw(b) && b@ == bin@,
{
    Call {
        account: service_account,
        contract: Some(contract),
        method: "init".to_owned(),
        args: Args::Raw(bin),
        fuel_limit: SERVICE_INIT_FUEL_LIMIT,
    }
}

/// The transfer of `units` units of the asset of `asset_account` from the
/// account `from` to the account `to`.
pub fn transfer_asset_tx(from: String, asset_account: String, to: String, units: u64) -> (c: Call)
    ensures
        calls(c, asset_account@, None, "transfer"@, 3, ASSET_FUEL_LIMIT),
        is_text(named(c)[0], "from"@, from@),
        is_text(named(c)[1], "to"@, to@),
        is_number(named(c)[2], "units"@, units),
{
    let mut args: Vec<Arg> = Vec::new();
    args.push(text("from", from));
    args.push(text("to", to));
    args.push(number("units", units));
    Call {
        account: asset_account,
        contract: None,
        method: "transfer".to_owned(),
        args: Args::Named(args),
        fuel_limit: ASSET_FUEL_LIMIT,
    }
}

/// The start of an asset on `asset_account`, with nobody authorized yet.
pub fn asset_init_tx(
    asset_account: String,
    asset_contract: Option<Ticket>,
    name: String,
    desc: String,
    url: String,
    max_units: u64,
) -> (c: Call)
    ensures
        calls(c, asset_account@, asset_contract, "init"@, 5, ASSET_FUEL_LIMIT),
        is_text(named(c)[0], "name"@, name@),
        is_no_texts(named(c)[1], "authorized"@),
        is_text(named(c)[2], "description"@, desc@),
        is_text(named(c)[3], "url"@, url@),
        is_number(named(c)[4], "max_units"@, max_units),
{
    let mut args: Vec<Arg> = Vec::new();
    args.push(text("name", name));
    args.push(Arg { name: "authorized".to_owned(), value: ArgValue::Texts(Vec::new()) });
    args.push(text("description", desc));
    args.push(text("url", url));
    args.push(number("max_units", max_units));
    Call {
        account: asset_account,
        contract: asset_contract,
        method: "init".to_owned(),
        args: Args::Named(args),
        fuel_limit: ASSET_FUEL_LIMIT,
    }
}

/// The start of an advanced asset on `asset_account`. The fees are the
/// share `fees.0` of every `fees.1` units.
pub fn adv_asset_init_tx(
    asset_account: String,
    asset_contract: Option<Ticket>,
    name: String,
    desc: String,
    url: String,
    max_units: u64,
    fees: (u64, u64),
    fixed_fees: u64,
    fees_account: String,
) -> (c: Call)
    ensures
        calls(c, asset_account@, asset_contract, "init"@, 7, ASSET_FUEL_LIMIT),
        is_text(named(c)[0], "name"@, name@),
        is_text(named(c)[1], "description"@, desc@),
        is_text(named(c)[2], "url"@, url@),
        is_number(named(c)[3], "max_units"@, max_units),
        is_numbers(named(c)[4], "fees"@, seq![fees.0, fees.1]),
        is_number(named(c)[5], "fixed_fees"@, fixed_fees),
        is_text(named(c)[6], "fees_account"@, fees_account@),
{
    let mut parts: Vec<u64> = Vec::new();
    parts.push(fees.0);
    parts.push(fees.1);
    assert(parts@ =~= seq![fees.0, fees.1]);
    let mut args: Vec<Arg> = Vec::new();
    args.push(text("name", name));
    args.push(text("description", desc));
    args.push(text("url", url));
    args.push(number("max_units", max_units));
    args.push(Arg { name: "fees".to_owned(), value: ArgValue::Numbers(parts) });
    args.push(number("fixed_fees", fixed_fees));
    args.push(text("fees_account", fees_account));
    Call {
        account: asset_account,
        contract: asset_contract,
        method: "init".to_owned(),
        args: Args::Named(args),
        fuel_limit: ASSET_FUEL_LIMIT,
    }
}

/// The minting of `units` units of the asset of `asset_account` for the
/// account `destination_account`.
pub fn adv_asset_mint_tx(
    asset_account: String,
    asset_contract: Option<Ticket>,
    destination_account: String,
    units: u64,
) -> (c: Call)
    ensures
        calls(c, asset_account@, asset_contract, "mint"@, 2, ASSET_FUEL_LIMIT),
        is_text(named(c)[0], "to"@, destination_account@),
        is_number(named(c)[1], "units"@, units),
{
    let mut args: Vec<Arg> = Vec::new();
    args.push(text("to", destination_account));
    args.push(number("units", units));
    Call {
        account: asset_account,
        contract: asset_contract,
        method: "mint".to_owned(),
        args: Args::Named(args),
        fuel_limit: ASSET_FUEL_LIMIT,
    }
}

/// The question for the balance of `balance_account` in the asset of
/// `asset_account`; without an account it is the question for the balance
/// of the caller, and has no arguments at all.
pub fn adv_asset_balance_tx(
    asset_account: String,
    asset_contract: Option<Ticket>,
    balance_account: Option<String>,
) -> (c: Call)
    ensures
        c.account@ == asset_account@,
        ticket_option_view(c.contract) == ticket_option_view(asset_contract),
        c.method@ == "balance"@,
        c.fuel_limit == ASSET_FUEL_LIMIT,
        match balance_account {
            Some(account) => c.args matches Args::Named(v) && v@.len() == 1 && is_text(
                v@[0],
                "account"@,
                account@,
            ),
            None => c.args matches Args::Raw(b) && b@.len() == 0,
        },
{
    let args = match balance_account {
        Some(account) => {
            let mut v: Vec<Arg> = Vec::new();
            v.push(text("account", account));
            Args::Named(v)
        },
        None => Args::Raw(Vec::new()),
    };
    Call {
        account: asset_account,
        contract: asset_contract,
        method: "balance".to_owned(),
        args,
        fuel_limit: ASSET_FUEL_LIMIT,
    }
}

/// The choice of the contract for a minting: where the ticket that was
/// given is made of zero bytes only, the contract is still to be asked for.
pub fn contract_is_open(asset_contract: &Ticket) -> (open: bool)
    ensures
        open == (asset_contract@ == Seq::new(32, |i: int| 0u8)),
{
    let zero = Ticket::new([0u8; 32]);
    assert(zero@ =~= Seq::new(32, |i: int| 0u8));
    asset_contract.same(&zero)
}

/// Whether the file named `filename` in a directory of transactions is
/// loaded: one whose name starts with an underscore is not.
pub fn is_loaded(filename: &str) -> (b: bool)
    ensures
        b == !(filename@.len() > 0 && filename@[0] == '_'),
{
    let chars = to_chars(filename);
    !(chars.len() > 0 && chars[0] == '_')
}

} // verus!
