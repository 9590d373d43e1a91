//! The block-hash check: block by block, the shadow and the block explorer
//! must give the same hash. One round at a time; whoever runs the rounds
//! fetches the two bodies, sends the alert and waits.
use vstd::prelude::*;
use crate::alert::{alert_view, block_hash_alert, hash_mismatch_alert, AlertEvent, AlertEventView};
use crate::error::{error_view, fetched, CheckError, CheckErrorView};
use crate::hash::{body_hash, extract_hash};
use crate::text::{decimal, decimal_text, hex_text, hexadecimal};

verus! {

/// Milliseconds to wait after a block whose hashes were compared.
pub const BLOCK_DELAY_MS: u64 = 500;

/// Milliseconds to wait after a block that could not be checked.
pub const BLOCK_ERROR_DELAY_MS: u64 = 10000;

/// The block explorer's request for a block, up to the block's hex number.
pub const EXPLORER_BLOCK_API: &'static str =
    "https://api.etherscan.io/api?module=proxy&action=eth_getBlockByNumber&tag=0x";

/// The block explorer's request for block `block`, with key `apikey`.
pub open spec fn explorer_block_url_text(apikey: Seq<char>, block: nat) -> Seq<char> {
    EXPLORER_BLOCK_API@ + hexadecimal(block) + "&boolean=true&apikey="@ + apikey
}

/// The shadow's request for block `block`.
pub open spec fn shadow_block_url_text(shadow: Seq<char>, block: nat) -> Seq<char> {
    shadow + "/ethereum/parcel/"@ + decimal(block)
}

/// The block explorer's request for block `block`, with key `apikey`.
pub fn explorer_block_url(apikey: &str, block: u64) -> (r: String)
    ensures
        r@ == explorer_block_url_text(apikey@, block as nat),
{
    let mut s = String::from_str(EXPLORER_BLOCK_API);
    let hex = hex_text(block);
    s.append(hex.as_str());
    s.append("&boolean=true&apikey=");
    s.append(apikey);
    s
}

/// The shadow's request for block `block`.
pub fn shadow_block_url(shadow_url: &str, block: u64) -> (r: String)
    ensures
        r@ == shadow_block_url_text(shadow_url@, block as nat),
{
    let mut s = String::from_str(shadow_url);
    s.append("/ethereum/parcel/");
    let dec = decimal_text(block);
    s.append(dec.as_str());
    s
}

/// Whether the explorer's body and the shadow's body give the same block
/// hash: the first failure, in that order, where a request failed or a body
/// held no hash.
pub open spec fn hashes_agree(
    explorer: Result<Seq<char>, Seq<char>>,
    shadow: Result<Seq<char>, Seq<char>>,
) -> Result<bool, CheckErrorView> {
    match explorer {
        Err(m) => Err(CheckErrorView::Fetch(m)),
        Ok(eb) => match body_hash(eb) {
            None => Err(CheckErrorView::MissingHash(eb)),
            Some(eh) => match shadow {
                Err(m) => Err(CheckErrorView::Fetch(m)),
                Ok(sb) => match body_hash(sb) {
                    None => Err(CheckErrorView::MissingHash(sb)),
                    Some(sh) => Ok(eh == sh),
                },
            },
        },
    }
}

/// The view of a comparison's result.
pub open spec fn agreement_view(r: Result<bool, CheckError>) -> Result<bool, CheckErrorView> {
    match r {
        Ok(b) => Ok(b),
        Err(e) => Err(e@),
    }
}

/// Compares the block hash in the explorer's body with the one in the
/// shadow's body, given what each request returned.
pub fn block_hash_is_same(explorer: Result<String, String>, shadow: Result<String, String>) -> (r:
    Result<bool, CheckError>)
    ensures
        agreement_view(r) == hashes_agree(fetched(explorer), fetched(shadow)),
{
    let eh = match explorer {
        Err(m) => return Err(CheckError::Fetch(m)),
        Ok(body) => match extract_hash(body.as_str()) {
            Ok(h) => h,
            Err(e) => return Err(CheckError::MissingHash(e.body)),
        },
    };
    let sh = match shadow {
        Err(m) => return Err(CheckError::Fetch(m)),
        Ok(body) => match extract_hash(body.as_str()) {
            Ok(h) => h,
            Err(e) => return Err(CheckError::MissingHash(e.body)),
        },
    };
    Ok(eh == sh)
}

/// What one round did with its block.
#[derive(Debug, Clone, PartialEq, Eq)]
pub struct BlockStep {
    /// The block that was checked.
    pub block: u64,
    /// The alert to send, where the hashes differ.
    pub alert: Option<AlertEvent>,
    /// Why the block could not be checked, where it could not.
    pub error: Option<CheckError>,
    /// How long to wait before the next round.
    pub delay_ms: u64,
}

pub struct BlockStepView {
    pub block: nat,
    pub alert: Option<AlertEventView>,
    pub error: Option<CheckErrorView>,
    pub delay_ms: nat,
}

impl View for BlockStep {
    type V = BlockStepView;

    open spec fn view(&self) -> BlockStepView {
        BlockStepView {
            block: self.block as nat,
            alert: alert_view(self.alert),
            error: error_view(self.error),
            delay_ms: self.delay_ms as nat,
        }
    }
}

/// The round on block `block` of the shadow at `shadow`: no alert where the
/// hashes agree, one alert where they differ, the error where either could
/// not be had; the long delay after an error only.
pub open spec fn block_round(
    shadow: Seq<char>,
    block: nat,
    explorer_body: Result<Seq<char>, Seq<char>>,
    shadow_body: Result<Seq<char>, Seq<char>>,
) -> BlockStepView {
    match hashes_agree(explorer_body, shadow_body) {
        Ok(true) => BlockStepView { block, alert: None, error: None, delay_ms: BLOCK_DELAY_MS as nat },
        Ok(false) => BlockStepView {
            block,
            alert: Some(hash_mismatch_alert(shadow, block)),
            error: None,
            delay_ms: BLOCK_DELAY_MS as nat,
        },
        Err(e) => BlockStepView {
            block,
            alert: None,
            error: Some(e),
            delay_ms: BLOCK_ERROR_DELAY_MS as nat,
        },
    }
}

/// The state of the block-hash check: the shadow it watches and the next
/// block to check.
#[derive(Debug, Clone, PartialEq, Eq)]
pub struct BlockHashChecker {
    pub shadow_url: String,
    pub block: u64,
}

impl BlockHashChecker {
    /// A check of the shadow at `shadow_url` that begins at `start_block`.
    pub fn new(shadow_url: &str, start_block: u64) -> (r: Self)
        ensures
            r.shadow_url@ == shadow_url@,
            r.block == start_block,
    {
        BlockHashChecker { shadow_url: shadow_url.to_owned(), block: start_block }
    }

    /// The block explorer's request for the next block.
    pub fn explorer_url(&self, apikey: &str) -> (r: String)
        ensures
            r@ == explorer_block_url_text(apikey@, self.block as nat),
    {
        explorer_block_url(apikey, self.block)
    }

    /// The shadow's request for the next block.
    pub fn shadow_url_for_block(&self) -> (r: String)
        ensures
            r@ == shadow_block_url_text(self.shadow_url@, self.block as nat),
    {
        shadow_block_url(self.shadow_url.as_str(), self.block)
    }

    /// One round: compares what the explorer and the shadow gave for the
    /// next block, and moves on to the block after it, whatever came back.
    pub fn step(&mut self, explorer: Result<String, String>, shadow: Result<String, String>) -> (r:
        BlockStep)
        requires
            old(self).block < u64::MAX,
        ensures
            block_advances(old(self).block as int, final(self).block as int),
            final(self).shadow_url == old(self).shadow_url,
            r@ == block_round(
                old(self).shadow_url@,
                old(self).block as nat,
                fetched(explorer),
                fetched(shadow),
            ),
    {
        let block = self.block;
        let r = match block_hash_is_same(explorer, shadow) {
            Ok(true) => BlockStep { block, alert: None, error: None, delay_ms: BLOCK_DELAY_MS },
            Ok(false) => BlockStep {
                block,
                alert: Some(block_hash_alert(self.shadow_url.as_str(), block)),
                error: None,
                delay_ms: BLOCK_DELAY_MS,
            },
            Err(err) => BlockStep {
                block,
                alert: None,
                error: Some(err),
                delay_ms: BLOCK_ERROR_DELAY_MS,
            },
        };
        self.block = block + 1;
        r
    }
}

/// How a round moves the next block on: by exactly one, whatever it met.
pub open spec fn block_advances(before: int, after: int) -> bool {
    after == before + 1
}

/// Whatever each round met, after `k` rounds from start block `s` the next
/// block to check is `s + k`, and the blocks come in increasing order: no
/// block is checked twice and none is retried. `trace[k]` is the checker's
/// next block after `k` rounds.
pub proof fn lemma_block_after_rounds(trace: Seq<int>, k: int)
    requires
        0 <= k < trace.len(),
        forall|j: int| 0 <= j < trace.len() - 1 ==> block_advances(trace[j], #[trigger] trace[j + 1]),
    ensures
        trace[k] == trace[0] + k,
        forall|j: int| 0 <= j < k ==> #[trigger] trace[j] < trace[k],
    decreases k,
{
    if k > 0 {
        lemma_block_after_rounds(trace, k - 1);
        assert(block_advances(trace[k - 1], trace[(k - 1) + 1]));
        assert forall|j: int| 0 <= j < k implies #[trigger] trace[j] < trace[k] by {
            if j < k - 1 {
                assert(trace[j] < trace[k - 1]);
            }
        }
    }
}

/// Where both bodies hold a block hash, a round sends no alert if the two
/// hashes are equal, and exactly one, naming the shadow and the block, if
/// they differ; either way the round does not fail.
pub proof fn lemma_alert_iff_hashes_differ(
    shadow: Seq<char>,
    block: nat,
    explorer_body: Seq<char>,
    shadow_body: Seq<char>,
)
    requires
        body_hash(explorer_body) is Some,
        body_hash(shadow_body) is Some,
    ensures
        ({
            let r = block_round(shadow, block, Ok(explorer_body), Ok(shadow_body));
            &&& r.error is None
            &&& r.delay_ms == BLOCK_DELAY_MS
            &&& body_hash(explorer_body) == body_hash(shadow_body) ==> r.alert is None
            &&& body_hash(explorer_body) != body_hash(shadow_body) ==> r.alert == Some(
                hash_mismatch_alert(shadow, block),
            )
        }),
{
}

} // verus!
