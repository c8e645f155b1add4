//! The balance report: what the explorer said about a wallet, line by line.

use crate::amount::{amount_value, format_amount, format_converted, rate_mantissa, rate_scale};
use crate::decimal::{natural_text, scaled_text};
use crate::digits::{digits_of_u64, push_natural};
use crate::text::{upper_case, upper_case_is};
use vstd::prelude::*;
use vstd::string::StringExecFns;

verus! {

/// What the explorer knows about an address, as far as the report needs it.
/// `coin_balance` is in base units, `10^18` to the coin; `exchange_rate` is
/// the coin's price as decimal text.
#[derive(Clone, Debug)]
pub struct WalletBalance {
    pub block_number_balance_updated_at: u64,
    pub coin_balance: String,
    pub hash: String,
    pub is_contract: bool,
    pub exchange_rate: Option<String>,
}

/// One token that the wallet holds. `balance` is in base units, `10^decimals`
/// to the token.
#[derive(Clone, Debug)]
pub struct TokenInfo {
    pub balance: String,
    pub contract_address: String,
    pub decimals: u8,
    pub name: String,
    pub symbol: String,
    pub type_token: String,
}

/// The explorer's list of the tokens a wallet holds.
#[derive(Clone, Debug)]
pub struct TokenResponse {
    pub items: Vec<TokenInfo>,
}

/// A `WalletBalance` as plain values.
pub ghost struct WalletBalanceView {
    pub block_number_balance_updated_at: nat,
    pub coin_balance: Seq<char>,
    pub hash: Seq<char>,
    pub is_contract: bool,
    pub exchange_rate: Option<Seq<char>>,
}

/// A `TokenInfo` as plain values.
pub ghost struct TokenView {
    pub balance: Seq<char>,
    pub contract_address: Seq<char>,
    pub decimals: nat,
    pub name: Seq<char>,
    pub symbol: Seq<char>,
    pub type_token: Seq<char>,
}

impl View for WalletBalance {
    type V = WalletBalanceView;

    open spec fn view(&self) -> WalletBalanceView {
        WalletBalanceView {
            block_number_balance_updated_at: self.block_number_balance_updated_at as nat,
            coin_balance: self.coin_balance@,
            hash: self.hash@,
            is_contract: self.is_contract,
            exchange_rate: match self.exchange_rate {
                Some(rate) => Some(rate@),
                None => None,
            },
        }
    }
}

impl View for TokenInfo {
    type V = TokenView;

    open spec fn view(&self) -> TokenView {
        TokenView {
            balance: self.balance@,
            contract_address: self.contract_address@,
            decimals: self.decimals as nat,
            name: self.name@,
            symbol: self.symbol@,
            type_token: self.type_token@,
        }
    }
}

impl DeepView for TokenInfo {
    type V = TokenView;

    open spec fn deep_view(&self) -> TokenView {
        self@
    }
}

/// The plain values of an optional token list.
pub open spec fn holdings_view(tokens: Option<Vec<TokenInfo>>) -> Option<Seq<TokenView>> {
    match tokens {
        Some(list) => Some(list.deep_view()),
        None => None,
    }
}

/// The symbol of the platform's own token. A token is that token when its
/// symbol reads so in upper case.
pub const DISTINGUISHED_SYMBOL: &'static str = "UOMI";

/// The native coin has `10^18` base units.
pub const NATIVE_DECIMALS: u8 = 18;

/// Digits shown after the point of the native balance.
pub const NATIVE_PLACES: usize = 6;

/// Digits shown after the point of a fiat value and of a token balance.
pub const MONEY_PLACES: usize = 2;

pub open spec fn title_line(hash: Seq<char>) -> Seq<char> {
    "Wallet Balance for "@ + hash + ":"@
}

pub open spec fn native_line(coin_balance: Seq<char>) -> Seq<char> {
    "\nNative Balance: "@ + scaled_text(amount_value(coin_balance), 18, 6) + " UOMI"@
}

pub open spec fn fiat_line(coin_balance: Seq<char>, rate: Seq<char>) -> Seq<char> {
    "($"@ + scaled_text(
        amount_value(coin_balance) * rate_mantissa(rate),
        18 + rate_scale(rate),
        2,
    ) + " USD)"@
}

pub open spec fn tokens_header() -> Seq<char> {
    "\nToken Balances:"@
}

pub open spec fn no_distinguished_note() -> Seq<char> {
    "\nNote: No UOMI tokens found in this wallet"@
}

pub open spec fn block_line(block: nat) -> Seq<char> {
    "\nLast updated at block: "@ + natural_text(block)
}

pub open spec fn contract_note() -> Seq<char> {
    "\nNote: This is a smart contract address"@
}

/// `t` is the platform's own token.
pub open spec fn is_distinguished(t: TokenView) -> bool {
    upper_case(t.symbol) == "UOMI"@
}

/// The balance of `t` in whole tokens, with two digits after the point.
pub open spec fn token_amount(t: TokenView) -> Seq<char> {
    scaled_text(amount_value(t.balance), t.decimals, 2)
}

pub open spec fn distinguished_line(t: TokenView) -> Seq<char> {
    "\u{1F539} UOMI: "@ + token_amount(t) + " tokens"@
}

pub open spec fn other_line(t: TokenView) -> Seq<char> {
    "- "@ + t.name + " ("@ + t.symbol + "): "@ + token_amount(t)
}

/// One line for each of the platform's own tokens among `tokens`, in their
/// order.
pub open spec fn distinguished_lines(tokens: Seq<TokenView>) -> Seq<Seq<char>>
    decreases tokens.len(),
{
    if tokens.len() == 0 {
        Seq::empty()
    } else if is_distinguished(tokens.last()) {
        distinguished_lines(tokens.drop_last()).push(distinguished_line(tokens.last()))
    } else {
        distinguished_lines(tokens.drop_last())
    }
}

/// One line for each of the other tokens among `tokens`, in their order.
pub open spec fn other_lines(tokens: Seq<TokenView>) -> Seq<Seq<char>>
    decreases tokens.len(),
{
    if tokens.len() == 0 {
        Seq::empty()
    } else if is_distinguished(tokens.last()) {
        other_lines(tokens.drop_last())
    } else {
        other_lines(tokens.drop_last()).push(other_line(tokens.last()))
    }
}

/// The opening of the report: whose balance it is, the native balance, and
/// its fiat value where a rate is known.
pub open spec fn summary_lines(balance: WalletBalanceView) -> Seq<Seq<char>> {
    let head = seq![title_line(balance.hash), native_line(balance.coin_balance)];
    match balance.exchange_rate {
        Some(rate) => head.push(fiat_line(balance.coin_balance, rate)),
        None => head,
    }
}

/// The token section: its header, the platform's own tokens first, then the
/// others, and a note where the wallet holds none of the platform's own.
pub open spec fn token_lines(tokens: Seq<TokenView>) -> Seq<Seq<char>> {
    let listed = seq![tokens_header()] + distinguished_lines(tokens) + other_lines(tokens);
    if distinguished_lines(tokens).len() == 0 {
        listed.push(no_distinguished_note())
    } else {
        listed
    }
}

/// The close of the report: the block of the last update, and a note where
/// the address is a contract.
pub open spec fn closing_lines(balance: WalletBalanceView) -> Seq<Seq<char>> {
    if balance.is_contract {
        seq![block_line(balance.block_number_balance_updated_at), contract_note()]
    } else {
        seq![block_line(balance.block_number_balance_updated_at)]
    }
}

/// The lines of the report. Without a token list there is no token section.
pub open spec fn report_lines(balance: WalletBalanceView, tokens: Option<Seq<TokenView>>) -> Seq<
    Seq<char>,
> {
    match tokens {
        Some(list) => summary_lines(balance) + token_lines(list) + closing_lines(balance),
        None => summary_lines(balance) + closing_lines(balance),
    }
}

/// The lines with a line feed between each two.
pub open spec fn join_lines(lines: Seq<Seq<char>>) -> Seq<char>
    decreases lines.len(),
{
    if lines.len() == 0 {
        Seq::empty()
    } else if lines.len() == 1 {
        lines[0]
    } else {
        join_lines(lines.drop_last()) + "\n"@ + lines.last()
    }
}

/// The report as one text.
pub open spec fn report_text(balance: WalletBalanceView, tokens: Option<Seq<TokenView>>) -> Seq<
    char,
> {
    join_lines(report_lines(balance, tokens))
}

/// The lines with a line feed between each two.
pub fn join(lines: &Vec<String>) -> (out: String)
    ensures
        out@ == join_lines(lines.deep_view()),
{
    let ghost all = lines.deep_view();
    let mut out = String::new();
    let mut i: usize = 0;
    assert(all.subrange(0, 0) =~= Seq::<Seq<char>>::empty());
    while i < lines.len()
        invariant
            i <= lines.len(),
            all == lines.deep_view(),
            out@ == join_lines(all.subrange(0, i as int)),
        decreases lines.len() - i,
    {
        let ghost done = all.subrange(0, i as int);
        let ghost next = all.subrange(0, i + 1);
        if i > 0 {
            out.append("\n");
        }
        out.append(lines[i].as_str());
        proof {
            assert(next.drop_last() =~= done);
            assert(next.last() == lines[i as int]@);
            assert(out@ =~= join_lines(next));
        }
        i += 1;
    }
    assert(all.subrange(0, lines.len() as int) =~= all);
    out
}

/// Whether `token` is the platform's own.
pub fn distinguished(token: &TokenInfo) -> (b: bool)
    ensures
        b == is_distinguished(token@),
{
    upper_case_is(token.symbol.as_str(), DISTINGUISHED_SYMBOL)
}

/// The opening lines of the report.
pub fn summary(balance: &WalletBalance) -> (lines: Vec<String>)
    ensures
        lines.deep_view() == summary_lines(balance@),
{
    let mut lines: Vec<String> = Vec::new();
    let mut title = String::from_str("Wallet Balance for ");
    title.append(balance.hash.as_str());
    title.append(":");
    lines.push(title);
    let mut native = String::from_str("\nNative Balance: ");
    let shown = format_amount(balance.coin_balance.as_str(), NATIVE_DECIMALS, NATIVE_PLACES);
    native.append(shown.as_str());
    native.append(" UOMI");
    lines.push(native);
    match &balance.exchange_rate {
        Some(rate) => {
            let mut fiat = String::from_str("($");
            let worth = format_converted(
                balance.coin_balance.as_str(),
                NATIVE_DECIMALS,
                rate.as_str(),
                MONEY_PLACES,
            );
            fiat.append(worth.as_str());
            fiat.append(" USD)");
            lines.push(fiat);
        },
        None => {},
    }
    assert(lines.deep_view() =~= summary_lines(balance@));
    lines
}

/// The balance of `token` in whole tokens.
fn token_amount_string(token: &TokenInfo) -> (s: String)
    ensures
        s@ == token_amount(token@),
{
    format_amount(token.balance.as_str(), token.decimals, MONEY_PLACES)
}

/// The lines of the token section.
pub fn token_section(tokens: &Vec<TokenInfo>) -> (lines: Vec<String>)
    ensures
        lines.deep_view() == token_lines(tokens.deep_view()),
{
    let ghost all = tokens.deep_view();
    let ghost header = seq![tokens_header()];
    let mut lines: Vec<String> = Vec::new();
    lines.push(String::from_str("\nToken Balances:"));
    assert(lines.deep_view() =~= header);
    let mut found = false;
    let mut i: usize = 0;
    assert(all.subrange(0, 0) =~= Seq::<TokenView>::empty());
    while i < tokens.len()
        invariant
            i <= tokens.len(),
            all == tokens.deep_view(),
            header == seq![tokens_header()],
            lines.deep_view() == header + distinguished_lines(all.subrange(0, i as int)),
            found <==> distinguished_lines(all.subrange(0, i as int)).len() > 0,
        decreases tokens.len() - i,
    {
        let ghost done = all.subrange(0, i as int);
        let ghost next = all.subrange(0, i + 1);
        let token = &tokens[i];
        proof {
            assert(next.drop_last() =~= done);
            assert(next.last() == token@);
        }
        let ghost before = lines.deep_view();
        if distinguished(token) {
            found = true;
            let mut line = String::from_str("\u{1F539} UOMI: ");
            let shown = token_amount_string(token);
            line.append(shown.as_str());
            line.append(" tokens");
            assert(line@ =~= distinguished_line(token@));
            lines.push(line);
            assert(lines.deep_view() =~= before.push(distinguished_line(token@)));
            assert(distinguished_lines(next) =~= distinguished_lines(done).push(
                distinguished_line(token@),
            ));
        } else {
            assert(distinguished_lines(next) =~= distinguished_lines(done));
        }
        assert(lines.deep_view() =~= header + distinguished_lines(next));
        i += 1;
    }
    assert(all.subrange(0, tokens.len() as int) =~= all);
    let ghost first = lines.deep_view();
    let mut j: usize = 0;
    while j < tokens.len()
        invariant
            j <= tokens.len(),
            all == tokens.deep_view(),
            lines.deep_view() == first + other_lines(all.subrange(0, j as int)),
        decreases tokens.len() - j,
    {
        let ghost done = all.subrange(0, j as int);
        let ghost next = all.subrange(0, j + 1);
        let token = &tokens[j];
        proof {
            assert(next.drop_last() =~= done);
            assert(next.last() == token@);
        }
        let ghost before = lines.deep_view();
        if !distinguished(token) {
            let mut line = String::from_str("- ");
            line.append(token.name.as_str());
            line.append(" (");
            line.append(token.symbol.as_str());
            line.append("): ");
            let shown = token_amount_string(token);
            line.append(shown.as_str());
            assert(line@ =~= other_line(token@));
            lines.push(line);
            assert(lines.deep_view() =~= before.push(other_line(token@)));
            assert(other_lines(next) =~= other_lines(done).push(other_line(token@)));
        } else {
            assert(other_lines(next) =~= other_lines(done));
        }
        assert(lines.deep_view() =~= first + other_lines(next));
        j += 1;
    }
    if !found {
        lines.push(String::from_str("\nNote: No UOMI tokens found in this wallet"));
    }
    assert(lines.deep_view() =~= token_lines(all));
    lines
}

/// The closing lines of the report.
pub fn closing(balance: &WalletBalance) -> (lines: Vec<String>)
    ensures
        lines.deep_view() == closing_lines(balance@),
{
    let mut lines: Vec<String> = Vec::new();
    let mut block = String::from_str("\nLast updated at block: ");
    let digits = digits_of_u64(balance.block_number_balance_updated_at);
    assert(digits@.subrange(0, digits@.len() as int) =~= digits@);
    push_natural(&mut block, &digits, 0, digits.len());
    lines.push(block);
    if balance.is_contract {
        lines.push(String::from_str("\nNote: This is a smart contract address"));
    }
    assert(lines.deep_view() =~= closing_lines(balance@));
    lines
}

/// The report on `balance`, with a token section where `tokens` is known.
pub fn balance_report(balance: &WalletBalance, tokens: &Option<Vec<TokenInfo>>) -> (out: String)
    ensures
        out@ == report_text(balance@, holdings_view(*tokens)),
{
    let mut lines = summary(balance);
    let ghost opening = lines.deep_view();
    match tokens {
        Some(list) => {
            let mut section = token_section(list);
            let ghost middle = section.deep_view();
            lines.append(&mut section);
            assert(lines.deep_view() =~= opening + middle);
        },
        None => {},
    }
    let ghost body = lines.deep_view();
    let mut end = closing(balance);
    let ghost tail = end.deep_view();
    lines.append(&mut end);
    assert(lines.deep_view() =~= body + tail);
    join(&lines)
}

/// Every token has one line in the token section: the platform's own among
/// the first lines, the others among those that follow.
pub proof fn lemma_every_token_listed(tokens: Seq<TokenView>)
    ensures
        distinguished_lines(tokens).len() + other_lines(tokens).len() == tokens.len(),
        token_lines(tokens)[0] == tokens_header(),
        forall|i: int|
            0 <= i < distinguished_lines(tokens).len() ==> #[trigger] token_lines(tokens)[1 + i]
                == distinguished_lines(tokens)[i],
        forall|i: int|
            0 <= i < other_lines(tokens).len() ==> #[trigger] token_lines(tokens)[1
                + distinguished_lines(tokens).len() + i] == other_lines(tokens)[i],
        distinguished_lines(tokens).len() == 0 <==> token_lines(tokens).last()
            == no_distinguished_note() && token_lines(tokens).len() == tokens.len() + 2,
    decreases tokens.len(),
{
    if tokens.len() > 0 {
        lemma_every_token_listed(tokens.drop_last());
    }
}

/// A report without a token list has no line that reads as the header of the
/// token section.
pub proof fn lemma_no_token_header(balance: WalletBalanceView, i: int)
    requires
        0 <= i < report_lines(balance, None).len(),
    ensures
        report_lines(balance, None)[i] != tokens_header(),
{
    reveal_strlit("Wallet Balance for ");
    reveal_strlit("\nNative Balance: ");
    reveal_strlit("($");
    reveal_strlit("\nToken Balances:");
    reveal_strlit("\nLast updated at block: ");
    reveal_strlit("\nNote: This is a smart contract address");
    let header = tokens_header();
    let line = report_lines(balance, None)[i];
    let opening = summary_lines(balance);
    assert(title_line(balance.hash)[0] == 'W');
    assert(native_line(balance.coin_balance)[1] == 'N');
    assert(block_line(balance.block_number_balance_updated_at)[1] == 'L');
    assert(contract_note()[1] == 'N');
    assert(header[0] == '\n' && header[1] == 'T');
    if balance.exchange_rate is Some {
        assert(fiat_line(balance.coin_balance, balance.exchange_rate->0)[0] == '(');
    }
    if i < opening.len() {
        assert(line == opening[i]);
    } else {
        assert(line == closing_lines(balance)[i - opening.len()]);
    }
}

} // verus!
