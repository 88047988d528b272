//! Reading balances and gas prices out of chain RPC answers, and what the
//! terminal shows of them.
use vstd::prelude::*;
use crate::amounts::{format_units_fixed, spec_format_units_fixed};
use crate::chains::ChainKind;
use crate::json::{Json, str_eq};
use crate::text::{
    parse_unsigned, spec_parse_unsigned, spec_strip_0x, strip_0x, split_colons,
    spec_split_colons, ends_with, spec_ends_with,
};

verus! {

pub open spec fn opt_u128(o: Option<nat>) -> Option<u128> {
    match o {
        Some(v) => Some(v as u128),
        None => None,
    }
}

pub open spec fn opt_u64(o: Option<nat>) -> Option<u64> {
    match o {
        Some(v) => Some(v as u64),
        None => None,
    }
}

/// A hex quantity as Ethereum writes it: every leading `0x` dropped, nothing
/// left meaning zero, else hex digits that fit 128 bits.
pub open spec fn spec_hex_quantity(s: Seq<char>) -> Option<nat> {
    let clean = spec_strip_0x(s);
    if clean.len() == 0 {
        Some(0)
    } else {
        spec_parse_unsigned(clean, 16, u128::MAX as nat)
    }
}

/// A hex quantity held by a JSON string; any other JSON value is none.
pub open spec fn spec_hex_of_json(result: Json) -> Option<u128> {
    match result.spec_as_str() {
        Some(s) => opt_u128(spec_hex_quantity(s)),
        None => None,
    }
}

fn hex_quantity(s: &str) -> (r: Option<u128>)
    ensures
        r == opt_u128(spec_hex_quantity(s@)),
{
    let clean = strip_0x(s);
    if clean.unicode_len() == 0 {
        return Some(0);
    }
    parse_unsigned(clean, 16, u128::MAX)
}

/// Reads Ethereum's `eth_getBalance` answer, a hex quantity, as wei.
pub fn eth_wei_from_rpc_result(result: &Json) -> (r: Option<u128>)
    ensures
        r == spec_hex_of_json(*result),
{
    match result.as_str() {
        Some(s) => hex_quantity(s),
        None => None,
    }
}

/// Reads Ethereum's `eth_gasPrice` answer, a hex quantity, as wei per gas.
pub fn eth_gas_price_wei_from_rpc_result(result: &Json) -> (r: Option<u128>)
    ensures
        r == spec_hex_of_json(*result),
{
    eth_wei_from_rpc_result(result)
}

/// Reads a gas price in hex, with or without `0x`, as wei.
pub fn ethereum_gas_wei(result: &Json) -> (r: Option<u128>)
    ensures
        r == spec_hex_of_json(*result),
{
    match result.as_str() {
        Some(s) => hex_quantity(s),
        None => None,
    }
}

/// Reads Solana's `getBalance` answer `{ "value": <lamports> }`.
pub fn sol_lamports_from_rpc_result(result: &Json) -> (r: Option<u64>)
    ensures
        r == match result.spec_get("value"@) {
            Some(v) => v.spec_as_u64(),
            None => None,
        },
{
    match result.get("value") {
        Some(v) => v.as_u64(),
        None => None,
    }
}

/// A decimal `u64` held by a JSON string.
pub open spec fn spec_decimal_u64_of(result: Json) -> Option<u64> {
    match result.spec_as_str() {
        Some(s) => opt_u64(spec_parse_unsigned(s, 10, u64::MAX as nat)),
        None => None,
    }
}

/// Sui's reference gas price in MIST: a decimal string's value, else a JSON number's.
pub open spec fn spec_sui_gas_mist(result: Json) -> Option<u64> {
    match spec_decimal_u64_of(result) {
        Some(v) => Some(v),
        None => result.spec_as_u64(),
    }
}

/// A price given as a JSON number is that many MIST, and one given as the
/// decimal text of a number is that number.
pub proof fn law_sui_gas_reads_numbers_and_text(n: u64, text: String)
    requires
        text@ == crate::text::spec_decimal(n as nat),
    ensures
        spec_sui_gas_mist(Json::Number(crate::json::JsonNumber::PosInt(n))) == Some(n),
        spec_sui_gas_mist(Json::String(text)) == Some(n),
{
    crate::text::law_decimal_parses_back(n as nat);
    assert(spec_parse_unsigned(text@, 10, u64::MAX as nat) == Some(n as nat));
}

/// Reads Sui's reference gas price, given as a decimal string or a number, in MIST.
pub fn sui_gas_mist(result: &Json) -> (r: Option<u64>)
    ensures
        r == spec_sui_gas_mist(*result),
{
    let parsed: Option<u64> = match result.as_str() {
        Some(s) => match parse_unsigned(s, 10, 0xffff_ffff_ffff_ffffu128) {
            Some(v) => Some(v as u64),
            None => None,
        },
        None => None,
    };
    match parsed {
        Some(v) => Some(v),
        None => result.as_u64(),
    }
}

// ───────────────────────── Aptos ─────────────────────────

pub open spec fn spec_is_aptos_coin_store(resource: Json) -> bool {
    match resource.spec_get("type"@) {
        Some(t) => t.spec_as_str() == Some(
            "0x1::coin::CoinStore<0x1::aptos_coin::AptosCoin>"@,
        ),
        None => false,
    }
}

/// The balance held by an AptosCoin store: `data.coin.value`, a decimal string.
pub open spec fn spec_coin_store_value(resource: Json) -> Option<u128> {
    match resource.spec_get("data"@) {
        Some(d) => match d.spec_get("coin"@) {
            Some(c) => match c.spec_get("value"@) {
                Some(v) => match v.spec_as_str() {
                    Some(s) => opt_u128(spec_parse_unsigned(s, 10, u128::MAX as nat)),
                    None => None,
                },
                None => None,
            },
            None => None,
        },
        None => None,
    }
}

/// The balance of the first AptosCoin store among `resources`.
pub open spec fn spec_aptos_octas_in(resources: Seq<Json>) -> Option<u128>
    decreases resources.len(),
{
    if resources.len() == 0 {
        None
    } else if spec_is_aptos_coin_store(resources[0]) {
        spec_coin_store_value(resources[0])
    } else {
        spec_aptos_octas_in(resources.drop_first())
    }
}

fn is_aptos_coin_store(resource: &Json) -> (r: bool)
    ensures
        r == spec_is_aptos_coin_store(*resource),
{
    match resource.get("type") {
        Some(t) => match t.as_str() {
            Some(s) => str_eq(s, "0x1::coin::CoinStore<0x1::aptos_coin::AptosCoin>"),
            None => false,
        },
        None => false,
    }
}

fn coin_store_value(resource: &Json) -> (r: Option<u128>)
    ensures
        r == spec_coin_store_value(*resource),
{
    match resource.get("data") {
        Some(d) => match d.get("coin") {
            Some(c) => match c.get("value") {
                Some(v) => match v.as_str() {
                    Some(s) => parse_unsigned(s, 10, u128::MAX),
                    None => None,
                },
                None => None,
            },
            None => None,
        },
        None => None,
    }
}

/// A resource is an AptosCoin store exactly when its `type` is the text
/// `0x1::coin::CoinStore<0x1::aptos_coin::AptosCoin>`.
pub proof fn law_aptos_coin_store_by_type(resource: Json, t: String)
    requires
        resource.spec_get("type"@) == Some(Json::String(t)),
    ensures
        spec_is_aptos_coin_store(resource) <==> t@ == "0x1::coin::CoinStore<0x1::aptos_coin::AptosCoin>"@,
{
}

/// A resource that is no AptosCoin store never changes the balance read:
/// prepending one leaves the result as it was.
pub proof fn law_aptos_skips_other_resources(first: Json, rest: Seq<Json>)
    requires
        !spec_is_aptos_coin_store(first),
    ensures
        spec_aptos_octas_in(seq![first] + rest) == spec_aptos_octas_in(rest),
{
    assert((seq![first] + rest).drop_first() =~= rest);
}

/// The balance is the coin value of the first AptosCoin store, wherever it
/// stands in the list; a list without one has no balance.
pub proof fn law_aptos_first_coin_store_anywhere(resources: Seq<Json>, j: int)
    requires
        0 <= j <= resources.len(),
        forall|i: int| 0 <= i < j ==> !spec_is_aptos_coin_store(#[trigger] resources[i]),
    ensures
        j < resources.len() && spec_is_aptos_coin_store(resources[j]) ==> spec_aptos_octas_in(
            resources,
        ) == spec_coin_store_value(resources[j]),
        j == resources.len() ==> spec_aptos_octas_in(resources) is None,
    decreases j,
{
    if j > 0 {
        let rest = resources.drop_first();
        assert forall|i: int| 0 <= i < j - 1 implies !spec_is_aptos_coin_store(#[trigger] rest[i]) by {
            assert(rest[i] == resources[i + 1]);
        }
        law_aptos_first_coin_store_anywhere(rest, j - 1);
        assert(!spec_is_aptos_coin_store(resources[0]));
        if j < resources.len() {
            assert(rest[j - 1] == resources[j]);
        }
    }
}

/// Reads the AptosCoin balance, in octas, from an account's resource list.
pub fn aptos_balance_octas(result: &Json) -> (r: Option<u128>)
    ensures
        r == match *result {
            Json::Array(items) => spec_aptos_octas_in(items@),
            _ => None,
        },
{
    match result {
        Json::Array(items) => {
            let mut i: usize = 0;
            assert(items@.skip(0) =~= items@);
            while i < items.len()
                invariant
                    i <= items@.len(),
                    *result == Json::Array(*items),
                    spec_aptos_octas_in(items@) == spec_aptos_octas_in(items@.skip(i as int)),
                decreases items.len() - i,
            {
                assert(items@.skip(i as int)[0] == items@[i as int]);
                assert(items@.skip(i as int).drop_first() =~= items@.skip(i + 1));
                if is_aptos_coin_store(&items[i]) {
                    return coin_store_value(&items[i]);
                }
                i = i + 1;
            }
            None
        },
        _ => None,
    }
}

// ───────────────────────── Sui ─────────────────────────

/// One Sui coin balance as the terminal lists it.
#[derive(Debug, Clone, PartialEq, Eq)]
pub struct SuiCoinBalanceRow {
    pub total_balance: String,
    pub coin_object_count: u64,
    pub coin_type: String,
}

pub open spec fn spec_str_or(v: Option<Json>, default: Seq<char>) -> Seq<char> {
    match v {
        Some(j) => match j.spec_as_str() {
            Some(s) => s,
            None => default,
        },
        None => default,
    }
}

/// The row read from one entry of `suix_getAllBalances`: missing or
/// mistyped fields read as "0", 0 and "Unknown".
pub open spec fn spec_row_of(item: Json, row: SuiCoinBalanceRow) -> bool {
    &&& row.total_balance@ == spec_item_total(item)
    &&& row.coin_object_count == spec_item_count(item)
    &&& row.coin_type@ == spec_item_coin_type(item)
}

pub open spec fn spec_item_total(item: Json) -> Seq<char> {
    spec_str_or(item.spec_get("totalBalance"@), "0"@)
}

pub open spec fn spec_item_count(item: Json) -> u64 {
    match item.spec_get("coinObjectCount"@) {
        Some(c) => match c.spec_as_u64() {
            Some(n) => n,
            None => 0,
        },
        None => 0,
    }
}

pub open spec fn spec_item_coin_type(item: Json) -> Seq<char> {
    spec_str_or(item.spec_get("coinType"@), "Unknown"@)
}

fn str_field_or(item: &Json, key: &str, default: &str) -> (r: String)
    ensures
        r@ == spec_str_or(item.spec_get(key@), default@),
{
    match item.get(key) {
        Some(j) => match j.as_str() {
            Some(s) => String::from_str(s),
            None => String::from_str(default),
        },
        None => String::from_str(default),
    }
}

/// Reads Sui's `suix_getAllBalances` answer, an array, into one row per entry.
pub fn sui_coin_rows_from_rpc_result(result: &Json) -> (r: Option<Vec<SuiCoinBalanceRow>>)
    ensures
        match *result {
            Json::Array(items) => (r matches Some(rows) && rows@.len() == items@.len() && (
            forall|i: int| 0 <= i < items@.len() ==> spec_row_of(items@[i], #[trigger] rows@[i]))),
            _ => r is None,
        },
{
    match result {
        Json::Array(items) => {
            let mut rows: Vec<SuiCoinBalanceRow> = Vec::new();
            let mut i: usize = 0;
            while i < items.len()
                invariant
                    i <= items@.len(),
                    rows@.len() == i,
                    forall|k: int| 0 <= k < i ==> spec_row_of(items@[k], #[trigger] rows@[k]),
                decreases items.len() - i,
            {
                let item = &items[i];
                let count = match item.get("coinObjectCount") {
                    Some(c) => match c.as_u64() {
                        Some(n) => n,
                        None => 0,
                    },
                    None => 0,
                };
                let row = SuiCoinBalanceRow {
                    total_balance: str_field_or(item, "totalBalance", "0"),
                    coin_object_count: count,
                    coin_type: str_field_or(item, "coinType", "Unknown"),
                };
                rows.push(row);
                i = i + 1;
            }
            Some(rows)
        },
        _ => None,
    }
}

/// How a Sui coin row's balance is shown: SUI amounts (9 decimals) to four
/// places with the unit, anything else as the raw balance string.
pub open spec fn spec_sui_balance_display(row: SuiCoinBalanceRow) -> Seq<char> {
    spec_sui_balance_text(row.coin_type@, row.total_balance@)
}

pub open spec fn spec_sui_balance_text(coin_type: Seq<char>, total: Seq<char>) -> Seq<char> {
    if coin_type == "0x2::sui::SUI"@ {
        match spec_parse_unsigned(total, 10, u128::MAX as nat) {
            Some(b) => spec_format_units_fixed(b, 9, 4) + " SUI"@,
            None => total,
        }
    } else {
        total
    }
}

pub fn format_sui_coin_balance_display(row: &SuiCoinBalanceRow) -> (r: String)
    ensures
        r@ == spec_sui_balance_display(*row),
{
    if str_eq(row.coin_type.as_str(), "0x2::sui::SUI") {
        match parse_unsigned(row.total_balance.as_str(), 10, u128::MAX) {
            Some(b) => {
                let mut s = format_units_fixed(b, 9, 4);
                s.append(" SUI");
                return s;
            },
            None => {},
        }
    }
    String::from_str(row.total_balance.as_str())
}

// ───────────────────────── display helpers ─────────────────────────

/// `input` unchanged when it has at most `prefix_len + suffix_len`
/// characters, else its first `prefix_len` and last `suffix_len` characters
/// around `...`.
pub open spec fn spec_truncate(input: Seq<char>, prefix_len: nat, suffix_len: nat) -> Seq<char> {
    if input.len() <= prefix_len + suffix_len {
        input
    } else {
        input.take(prefix_len as int) + "..."@ + input.skip(input.len() - suffix_len)
    }
}

/// Shortens long text for display, counting characters, not bytes.
pub fn truncate_utf8_for_display(input: &str, prefix_len: usize, suffix_len: usize) -> (r: String)
    requires
        prefix_len + suffix_len <= usize::MAX,
    ensures
        r@ == spec_truncate(input@, prefix_len as nat, suffix_len as nat),
{
    let n = input.unicode_len();
    if n <= prefix_len + suffix_len {
        return String::from_str(input);
    }
    let mut s = String::from_str(input.substring_char(0, prefix_len));
    s.append("...");
    s.append(input.substring_char(n - suffix_len, n));
    assert(input@.subrange(0, prefix_len as int) =~= input@.take(prefix_len as int));
    assert(input@.subrange(n - suffix_len, n as int) =~= input@.skip(n - suffix_len));
    s
}

/// Shortening keeps `prefix_len + suffix_len` characters and adds three dots.
pub proof fn law_truncation_length(input: Seq<char>, prefix_len: nat, suffix_len: nat)
    ensures
        input.len() > prefix_len + suffix_len ==> spec_truncate(input, prefix_len, suffix_len).len()
            == prefix_len + suffix_len + 3,
        input.len() <= prefix_len + suffix_len ==> spec_truncate(input, prefix_len, suffix_len)
            == input,
{
    reveal_strlit("...");
}

/// How a coin type is labelled in the balance table.
#[derive(Debug, PartialEq, Eq)]
pub enum CoinTypeLabel {
    /// A short type, shown whole.
    Whole(String),
    /// The module and name of a long `address::module::Name` type.
    ModuleAndName(String, String),
    /// A long type without three `::` pieces, shortened around `...`.
    Shortened(String),
}

/// The label of a coin type: types longer than thirty bytes show their
/// second and third `::` pieces, or are shortened to ten characters on
/// either side when they have fewer pieces.
pub open spec fn spec_coin_label(coin_type: Seq<char>, label: CoinTypeLabel) -> bool {
    if vstd::utf8::encode_utf8(coin_type).len() as usize <= 30 {
        label matches CoinTypeLabel::Whole(w) && w@ == coin_type
    } else if spec_split_colons(coin_type).len() >= 3 {
        label matches CoinTypeLabel::ModuleAndName(m, n) && m@ == spec_split_colons(coin_type)[1]
            && n@ == spec_split_colons(coin_type)[2]
    } else {
        label matches CoinTypeLabel::Shortened(s) && s@ == spec_truncate(coin_type, 10, 10)
    }
}

pub fn coin_type_label(coin_type: &str) -> (r: CoinTypeLabel)
    ensures
        spec_coin_label(coin_type@, r),
{
    if coin_type.len() <= 30 {
        return CoinTypeLabel::Whole(String::from_str(coin_type));
    }
    let parts = split_colons(coin_type);
    if parts.len() >= 3 {
        let m = String::from_str(parts[1].as_str());
        let n = String::from_str(parts[2].as_str());
        CoinTypeLabel::ModuleAndName(m, n)
    } else {
        CoinTypeLabel::Shortened(truncate_utf8_for_display(coin_type, 10, 10))
    }
}

/// Whether an address that no resolver turned into an address looks like
/// a `.sui` or `.eth` name, which the terminal warns about.
pub fn is_unresolved_name(address: &str) -> (r: bool)
    ensures
        r == (spec_ends_with(address@, ".sui"@) || spec_ends_with(address@, ".eth"@)),
{
    ends_with(address, ".sui") || ends_with(address, ".eth")
}

// ───────────────────────── reports ─────────────────────────

/// One line of the Sui balance table.
#[derive(Debug, PartialEq, Eq)]
pub struct SuiCoinLine {
    pub balance: String,
    pub objects: u64,
    pub coin: CoinTypeLabel,
}

/// What the balance command shows for a chain's answer.
#[derive(Debug, PartialEq, Eq)]
pub enum BalanceReport {
    /// Sui, with no coin at all.
    SuiNoCoins,
    /// Sui's coins, one line each.
    SuiCoins(Vec<SuiCoinLine>),
    /// An Ethereum balance in ETH (18 decimals, four places).
    Ether(String),
    /// An Ethereum answer that is a string but no hex quantity.
    WeiHex(String),
    /// A Solana balance in SOL (9 decimals, four places).
    Sol(String),
    /// An Aptos balance in APT (8 decimals, four places).
    Apt(String),
    /// The answer as JSON.
    Raw,
}

pub open spec fn spec_sui_line(row: SuiCoinBalanceRow, line: SuiCoinLine) -> bool {
    &&& line.balance@ == spec_sui_balance_display(row)
    &&& line.objects == row.coin_object_count
    &&& spec_coin_label(row.coin_type@, line.coin)
}

/// The table line for one entry of Sui's balance answer.
pub open spec fn spec_sui_line_of_item(item: Json, line: SuiCoinLine) -> bool {
    &&& line.balance@ == spec_sui_balance_text(spec_item_coin_type(item), spec_item_total(item))
    &&& line.objects == spec_item_count(item)
    &&& spec_coin_label(spec_item_coin_type(item), line.coin)
}

/// The report for one chain's balance answer.
pub open spec fn spec_balance_report(chain: ChainKind, result: Json, report: BalanceReport) -> bool {
    match chain {
        ChainKind::Sui => match result {
            Json::Array(items) => if items@.len() == 0 {
                report == BalanceReport::SuiNoCoins
            } else {
                report matches BalanceReport::SuiCoins(lines) && lines@.len() == items@.len() && (
                forall|i: int|
                    0 <= i < items@.len() ==> spec_sui_line_of_item(items@[i], #[trigger] lines@[i]))
            },
            _ => report == BalanceReport::Raw,
        },
        ChainKind::Ethereum => match spec_hex_of_json(result) {
            Some(wei) => report matches BalanceReport::Ether(e) && e@ == spec_format_units_fixed(
                wei as nat,
                18,
                4,
            ),
            None => match result.spec_as_str() {
                Some(s) => report matches BalanceReport::WeiHex(h) && h@ == s,
                None => report == BalanceReport::Raw,
            },
        },
        ChainKind::Solana => match result.spec_get("value"@) {
            Some(v) => match v.spec_as_u64() {
                Some(l) => report matches BalanceReport::Sol(s) && s@ == spec_format_units_fixed(
                    l as nat,
                    9,
                    4,
                ),
                None => report == BalanceReport::Raw,
            },
            None => report == BalanceReport::Raw,
        },
        ChainKind::Aptos => match result {
            Json::Array(items) => match spec_aptos_octas_in(items@) {
                Some(o) => report matches BalanceReport::Apt(a) && a@ == spec_format_units_fixed(
                    o as nat,
                    8,
                    4,
                ),
                None => report == BalanceReport::Raw,
            },
            _ => report == BalanceReport::Raw,
        },
        ChainKind::Soroban => report == BalanceReport::Raw,
    }
}

/// Decides what the balance command shows for `chain`'s answer `result`.
pub fn balance_report(chain: ChainKind, result: &Json) -> (r: BalanceReport)
    ensures
        spec_balance_report(chain, *result, r),
{
    match chain {
        ChainKind::Sui => match result {
            Json::Array(items) => {
                let rows = match sui_coin_rows_from_rpc_result(result) {
                    Some(rows) => rows,
                    None => {
                        return BalanceReport::Raw;
                    },
                };
                if rows.len() == 0 {
                    return BalanceReport::SuiNoCoins;
                }
                let mut lines: Vec<SuiCoinLine> = Vec::new();
                let mut i: usize = 0;
                while i < rows.len()
                    invariant
                        i <= rows@.len(),
                        *result == Json::Array(*items),
                        rows@.len() == items@.len(),
                        forall|k: int|
                            0 <= k < items@.len() ==> spec_row_of(items@[k], #[trigger] rows@[k]),
                        lines@.len() == i,
                        forall|k: int|
                            0 <= k < i ==> #[trigger] spec_sui_line(rows@[k], lines@[k]),
                    decreases rows.len() - i,
                {
                    let line = SuiCoinLine {
                        balance: format_sui_coin_balance_display(&rows[i]),
                        objects: rows[i].coin_object_count,
                        coin: coin_type_label(rows[i].coin_type.as_str()),
                    };
                    lines.push(line);
                    i = i + 1;
                }
                assert forall|k: int| 0 <= k < items@.len() implies spec_sui_line_of_item(
                    items@[k],
                    #[trigger] lines@[k],
                ) by {
                    assert(spec_row_of(items@[k], rows@[k]));
                    assert(spec_sui_line(rows@[k], lines@[k]));
                }
                BalanceReport::SuiCoins(lines)
            },
            _ => BalanceReport::Raw,
        },
        ChainKind::Ethereum => match eth_wei_from_rpc_result(result) {
            Some(wei) => BalanceReport::Ether(format_units_fixed(wei, 18, 4)),
            None => match result.as_str() {
                Some(s) => BalanceReport::WeiHex(String::from_str(s)),
                None => BalanceReport::Raw,
            },
        },
        ChainKind::Solana => match sol_lamports_from_rpc_result(result) {
            Some(l) => BalanceReport::Sol(format_units_fixed(l as u128, 9, 4)),
            None => BalanceReport::Raw,
        },
        ChainKind::Aptos => match aptos_balance_octas(result) {
            Some(o) => BalanceReport::Apt(format_units_fixed(o, 8, 4)),
            None => BalanceReport::Raw,
        },
        ChainKind::Soroban => BalanceReport::Raw,
    }
}

/// What the gas command shows for a chain's answer.
#[derive(Debug, PartialEq, Eq)]
pub enum GasReport {
    /// Sui's reference gas price in MIST, and per gas unit in SUI to nine places.
    Sui { mist: u64, sui: String },
    /// An Ethereum gas price in Gwei to four places, and in wei.
    Ethereum { gwei: String, wei: u128 },
    /// The answer as JSON.
    Raw,
}

pub open spec fn spec_gas_report(chain: ChainKind, result: Json, report: GasReport) -> bool {
    match chain {
        ChainKind::Sui => {
            let mist = match spec_sui_gas_mist(result) {
                Some(m) => m,
                None => 0,
            };
            report matches GasReport::Sui { mist: m, sui } && m == mist && sui@
                == spec_format_units_fixed(mist as nat, 9, 9)
        },
        ChainKind::Ethereum => match spec_hex_of_json(result) {
            Some(wei) => report matches GasReport::Ethereum { gwei, wei: w } && w == wei && gwei@
                == spec_format_units_fixed(wei as nat, 9, 4),
            None => report == GasReport::Raw,
        },
        _ => report == GasReport::Raw,
    }
}

/// The Sui gas report shows the MIST that `sui_gas_mist` reads, zero when
/// nothing can be read; a price given as a JSON number shows as that number.
pub proof fn law_sui_gas_report_shows_read_price(result: Json, report: GasReport)
    requires
        spec_gas_report(ChainKind::Sui, result, report),
    ensures
        report matches GasReport::Sui { mist, sui } && mist == match spec_sui_gas_mist(result) {
            Some(m) => m,
            None => 0,
        } && sui@ == spec_format_units_fixed(mist as nat, 9, 9),
        result matches Json::Number(crate::json::JsonNumber::PosInt(n)) ==> (report matches GasReport::Sui { mist, .. } && mist == n),
{
}

/// Decides what the gas command shows; a Sui price that cannot be read counts as zero.
pub fn gas_report(chain: ChainKind, result: &Json) -> (r: GasReport)
    ensures
        spec_gas_report(chain, *result, r),
{
    match chain {
        ChainKind::Sui => {
            let mist = match sui_gas_mist(result) {
                Some(m) => m,
                None => 0,
            };
            GasReport::Sui { mist, sui: format_units_fixed(mist as u128, 9, 9) }
        },
        ChainKind::Ethereum => match ethereum_gas_wei(result) {
            Some(wei) => GasReport::Ethereum { gwei: format_units_fixed(wei, 9, 4), wei },
            None => GasReport::Raw,
        },
        _ => GasReport::Raw,
    }
}

} // verus!
