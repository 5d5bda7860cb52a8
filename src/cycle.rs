//! One indexing cycle of a chain: where each contract's cursor starts, which
//! ranges it runs, what cursor is written afterwards, and whether the loop may
//! sleep before the next cycle.

use vstd::prelude::*;
use crate::schedule::{
    advance_cursor, leading_successes, plan, plan_batches, plan_shape, spans, BlockRange, BLOCK_BATCH_SIZE,
    PARALLEL_BATCHES,
};
use crate::text::push_str;

verus! {

pub const MAINNET_CHAIN_ID: i32 = 143;

pub const TESTNET_CHAIN_ID: i32 = 10143;

pub const MAINNET_IDENTITY: &'static str = "0x8004A169FB4a3325136EB29fA0ceB6D2e539a432";

pub const MAINNET_REPUTATION: &'static str = "0x8004BAa17C55a88189AE136b182e5fdA19dE9b63";

pub const TESTNET_IDENTITY: &'static str = "0x8004A818BFB912233c491871b3d84c89A494BD9e";

pub const TESTNET_REPUTATION: &'static str = "0x8004B663056A597Dffe9eCcC1965A193B7388713";

pub const MAINNET_START_BLOCK: u64 = 52_952_790;

pub const TESTNET_START_BLOCK: u64 = 10_391_697;

pub const DEFAULT_MAINNET_RPC: &'static str = "https://rpc.monad.xyz";

pub const DEFAULT_TESTNET_RPC: &'static str = "https://testnet-rpc.monad.xyz";

/// What is indexed on one chain.
#[derive(Debug)]
pub struct ChainConfig {
    pub chain_id: i32,
    pub rpc_url: String,
    pub identity_address: String,
    pub reputation_address: String,
    pub marketplace_address: Option<String>,
    /// Block the contracts were deployed at; indexing starts there.
    pub start_block: u64,
    /// Block the marketplace was deployed at, when it differs.
    pub marketplace_start_block: Option<u64>,
}

/// The three contracts indexed on each chain.
#[derive(Clone, Copy, Debug, PartialEq, Eq, Structural)]
pub enum ContractKind {
    Identity,
    Reputation,
    Marketplace,
}

/// The name a contract's cursor is stored under.
pub fn contract_label(kind: ContractKind) -> (r: &'static str)
    ensures
        r@ == match kind {
            ContractKind::Identity => "IdentityRegistry"@,
            ContractKind::Reputation => "ReputationRegistry"@,
            ContractKind::Marketplace => "MoltMarketplace"@,
        },
{
    match kind {
        ContractKind::Identity => "IdentityRegistry",
        ContractKind::Reputation => "ReputationRegistry",
        ContractKind::Marketplace => "MoltMarketplace",
    }
}

/// A contract's address on a chain; `None` for a marketplace that is not deployed there.
pub open spec fn address_of(c: ChainConfig, kind: ContractKind) -> Option<String> {
    match kind {
        ContractKind::Identity => Some(c.identity_address),
        ContractKind::Reputation => Some(c.reputation_address),
        ContractKind::Marketplace => c.marketplace_address,
    }
}

pub fn contract_address(c: &ChainConfig, kind: ContractKind) -> (r: Option<&String>)
    ensures
        r matches Some(a) ==> address_of(*c, kind) == Some(*a),
        r is None ==> address_of(*c, kind) is None,
{
    match kind {
        ContractKind::Identity => Some(&c.identity_address),
        ContractKind::Reputation => Some(&c.reputation_address),
        ContractKind::Marketplace => c.marketplace_address.as_ref(),
    }
}

/// The block a contract's indexing starts at.
pub open spec fn start_of(c: ChainConfig, kind: ContractKind) -> u64 {
    match (kind, c.marketplace_start_block) {
        (ContractKind::Marketplace, Some(b)) => b,
        _ => c.start_block,
    }
}

/// A contract's cursor at the start of a cycle: the stored one, else the block
/// before the contract's start block.
pub open spec fn cursor_of(c: ChainConfig, kind: ContractKind, stored: Option<i64>) -> int {
    match stored {
        Some(b) => b as int,
        None => start_of(c, kind) - 1,
    }
}

pub fn start_cursor(c: &ChainConfig, kind: ContractKind, stored: Option<i64>) -> (r: i64)
    requires
        c.start_block <= i64::MAX,
        c.marketplace_start_block matches Some(b) ==> b <= i64::MAX,
    ensures
        r == cursor_of(*c, kind, stored),
{
    match stored {
        Some(b) => b,
        None => {
            let start = match (kind, c.marketplace_start_block) {
                (ContractKind::Marketplace, Some(b)) => b,
                _ => c.start_block,
            };
            start as i64 - 1
        },
    }
}

/// Whether a contract still has blocks to index: it is deployed on the chain
/// and its cursor is below the tip.
pub open spec fn behind(c: ChainConfig, kind: ContractKind, cursor: int, tip: u64) -> bool {
    address_of(c, kind) is Some && cursor < tip
}

/// The ranges a contract runs this cycle.
pub fn contract_ranges(c: &ChainConfig, kind: ContractKind, cursor: i64, tip: u64) -> (r: Vec<BlockRange>)
    requires
        -1 <= cursor,
        tip <= i64::MAX,
    ensures
        !behind(*c, kind, cursor as int, tip) ==> r@.len() == 0,
        behind(*c, kind, cursor as int, tip) ==> spans(r@) == plan(
            cursor as int,
            tip as int,
            BLOCK_BATCH_SIZE as int,
            PARALLEL_BATCHES as nat,
        ),
        plan_shape(spans(r@), cursor + 1, tip as int, BLOCK_BATCH_SIZE as int, PARALLEL_BATCHES as nat) || r@.len() == 0,
{
    if contract_address(c, kind).is_none() || cursor >= tip as i64 {
        return Vec::new();
    }
    plan_batches(cursor, tip, BLOCK_BATCH_SIZE, PARALLEL_BATCHES)
}

/// The cursor a contract stores after its ranges ran, with its label: the end
/// of the unbroken run of applied ranges at the start of the plan; nothing when
/// not even the first range was applied.
pub fn cursor_write(kind: ContractKind, ranges: &Vec<BlockRange>, outcomes: &Vec<bool>) -> (r: Option<(i64, &'static str)>)
    requires
        outcomes.len() == ranges.len(),
        forall|i: int| 0 <= i < ranges.len() ==> #[trigger] ranges@[i].to <= i64::MAX,
    ensures
        r is None <==> leading_successes(outcomes@) == 0,
        r matches Some((b, label)) ==> b == ranges@[leading_successes(outcomes@) - 1].to && label@ == match kind {
            ContractKind::Identity => "IdentityRegistry"@,
            ContractKind::Reputation => "ReputationRegistry"@,
            ContractKind::Marketplace => "MoltMarketplace"@,
        },
{
    match advance_cursor(ranges, outcomes) {
        Some(to) => {
            assert(ranges@[leading_successes(outcomes@) - 1].to <= i64::MAX);
            Some((to as i64, contract_label(kind)))
        },
        None => None,
    }
}

/// Whether a chain was caught up at the start of a cycle: no deployed contract
/// had its cursor below the tip.
pub open spec fn caught_up(c: ChainConfig, cursors: (int, int, int), tip: u64) -> bool {
    &&& !behind(c, ContractKind::Identity, cursors.0, tip)
    &&& !behind(c, ContractKind::Reputation, cursors.1, tip)
    &&& !behind(c, ContractKind::Marketplace, cursors.2, tip)
}

pub fn chain_caught_up(c: &ChainConfig, identity: i64, reputation: i64, marketplace: i64, tip: u64) -> (r: bool)
    requires
        tip <= i64::MAX,
    ensures
        r == caught_up(*c, (identity as int, reputation as int, marketplace as int), tip),
{
    let t = tip as i64;
    let market_behind = c.marketplace_address.is_some() && marketplace < t;
    !(identity < t) && !(reputation < t) && !market_behind
}

/// Whether the loop sleeps before the next cycle: only when the cycle of every
/// chain succeeded and found it caught up (`Some(true)`). A chain still behind
/// (`Some(false)`) or whose cycle failed (`None`) starts the next cycle at once.
pub fn should_sleep(caught_up_by_chain: &Vec<Option<bool>>) -> (r: bool)
    ensures
        r == forall|i: int| 0 <= i < caught_up_by_chain@.len() ==> #[trigger] caught_up_by_chain@[i] == Some(true),
{
    let mut i: usize = 0;
    while i < caught_up_by_chain.len()
        invariant
            i <= caught_up_by_chain.len(),
            forall|j: int| 0 <= j < i ==> #[trigger] caught_up_by_chain@[j] == Some(true),
        decreases caught_up_by_chain.len() - i,
    {
        match caught_up_by_chain[i] {
            Some(true) => {},
            _ => {
                assert(caught_up_by_chain@[i as int] != Some(true));
                return false;
            },
        }
        i = i + 1;
    }
    true
}

/// Whether an indexing switch is on: anything but `false`, and on when unset.
pub fn index_flag(value: Option<&str>) -> (r: bool)
    ensures
        r == match value {
            Some(v) => v@ != "false"@,
            None => true,
        },
{
    proof {
        reveal_strlit("false");
    }
    match value {
        Some(v) => {
            let n = v.unicode_len();
            if n != 5 {
                return true;
            }
            let same = v.get_char(0) == 'f' && v.get_char(1) == 'a' && v.get_char(2) == 'l' && v.get_char(3) == 's'
                && v.get_char(4) == 'e';
            if same {
                assert(v@ =~= "false"@);
            } else {
                assert(v@ != "false"@);
            }
            !same
        },
        None => true,
    }
}

fn owned(s: &str) -> (r: String)
    ensures
        r@ == s@,
{
    let mut t = String::new();
    push_str(&mut t, s);
    assert(t@ =~= s@);
    t
}

/// The chains indexed by default: mainnet and testnet, each unless switched
/// off, with the given RPC endpoints.
pub fn default_chain_configs(index_mainnet: bool, index_testnet: bool, mainnet_rpc: String, testnet_rpc: String) -> (r: Vec<ChainConfig>)
    ensures
        r@.len() == (if index_mainnet { 1int } else { 0 }) + (if index_testnet { 1int } else { 0 }),
        index_mainnet ==> r@[0].chain_id == MAINNET_CHAIN_ID && r@[0].rpc_url == mainnet_rpc && r@[0].identity_address@
            == MAINNET_IDENTITY@ && r@[0].reputation_address@ == MAINNET_REPUTATION@ && r@[0].start_block
            == MAINNET_START_BLOCK && r@[0].marketplace_address is None && r@[0].marketplace_start_block is None,
        index_testnet ==> ({
            let t = r@[r@.len() - 1];
            t.chain_id == TESTNET_CHAIN_ID && t.rpc_url == testnet_rpc && t.identity_address@ == TESTNET_IDENTITY@
                && t.reputation_address@ == TESTNET_REPUTATION@ && t.start_block == TESTNET_START_BLOCK
                && t.marketplace_address is None && t.marketplace_start_block is None
        }),
{
    let mut v: Vec<ChainConfig> = Vec::new();
    if index_mainnet {
        v.push(
            ChainConfig {
                chain_id: MAINNET_CHAIN_ID,
                rpc_url: mainnet_rpc,
                identity_address: owned(MAINNET_IDENTITY),
                reputation_address: owned(MAINNET_REPUTATION),
                marketplace_address: None,
                start_block: MAINNET_START_BLOCK,
                marketplace_start_block: None,
            },
        );
    }
    if index_testnet {
        v.push(
            ChainConfig {
                chain_id: TESTNET_CHAIN_ID,
                rpc_url: testnet_rpc,
                identity_address: owned(TESTNET_IDENTITY),
                reputation_address: owned(TESTNET_REPUTATION),
                marketplace_address: None,
                start_block: TESTNET_START_BLOCK,
                marketplace_start_block: None,
            },
        );
    }
    v
}

pub open spec fn is_hex_digit(c: char) -> bool {
    ('0' <= c <= '9') || ('a' <= c <= 'f') || ('A' <= c <= 'F')
}

/// A contract address: `0x` followed by forty hex digits.
pub open spec fn is_address(s: Seq<char>) -> bool {
    &&& s.len() == 42
    &&& s[0] == '0'
    &&& s[1] == 'x'
    &&& forall|i: int| 2 <= i < 42 ==> #[trigger] is_hex_digit(s[i])
}

/// Whether a text is a contract address; a configuration with any other text
/// is rejected at startup.
pub fn is_valid_address(s: &str) -> (r: bool)
    ensures
        r == is_address(s@),
{
    let n = s.unicode_len();
    if n != 42 || s.get_char(0) != '0' || s.get_char(1) != 'x' {
        return false;
    }
    let mut i: usize = 2;
    while i < 42
        invariant
            2 <= i <= 42,
            n == s@.len(),
            n == 42,
            s@[0] == '0',
            s@[1] == 'x',
            forall|j: int| 2 <= j < i ==> #[trigger] is_hex_digit(s@[j]),
        decreases 42 - i,
    {
        let c = s.get_char(i);
        if !(('0' <= c && c <= '9') || ('a' <= c && c <= 'f') || ('A' <= c && c <= 'F')) {
            assert(!is_hex_digit(s@[i as int]));
            return false;
        }
        i = i + 1;
    }
    true
}

/// Why a chain configuration is rejected at startup.
#[derive(Clone, Copy, Debug, PartialEq, Eq, Structural)]
pub enum ConfigError {
    /// A contract address is not `0x` followed by forty hex digits.
    InvalidAddress,
    /// A start block does not fit the signed 64-bit cursor.
    StartBlockOutOfRange,
}

/// Whether every contract address of a configuration is well formed.
pub open spec fn addresses_valid(c: ChainConfig) -> bool {
    &&& is_address(c.identity_address@)
    &&& is_address(c.reputation_address@)
    &&& c.marketplace_address matches Some(m) ==> is_address(m@)
}

/// Whether every start block of a configuration fits the cursor.
pub open spec fn start_blocks_valid(c: ChainConfig) -> bool {
    &&& c.start_block <= i64::MAX
    &&& c.marketplace_start_block matches Some(b) ==> b <= i64::MAX
}

/// Checks a chain configuration: addresses first, then start blocks.
pub fn validate_chain_config(c: &ChainConfig) -> (r: Result<(), ConfigError>)
    ensures
        r is Ok <==> addresses_valid(*c) && start_blocks_valid(*c),
        r == Err::<(), ConfigError>(ConfigError::InvalidAddress) <==> !addresses_valid(*c),
        r == Err::<(), ConfigError>(ConfigError::StartBlockOutOfRange) <==> addresses_valid(*c) && !start_blocks_valid(*c),
{
    let market_ok = match &c.marketplace_address {
        Some(m) => is_valid_address(m.as_str()),
        None => true,
    };
    if !is_valid_address(c.identity_address.as_str()) || !is_valid_address(c.reputation_address.as_str()) || !market_ok {
        return Err(ConfigError::InvalidAddress);
    }
    let market_start_ok = match c.marketplace_start_block {
        Some(b) => b <= i64::MAX as u64,
        None => true,
    };
    if c.start_block > i64::MAX as u64 || !market_start_ok {
        return Err(ConfigError::StartBlockOutOfRange);
    }
    Ok(())
}

} // verus!
