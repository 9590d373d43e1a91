use postman::alert::{GENERATOR_URL, HASH_MISMATCH_ALERT};
use postman::check_block_hash::{
    block_hash_is_same, explorer_block_url, shadow_block_url, BlockHashChecker, BLOCK_DELAY_MS,
    BLOCK_ERROR_DELAY_MS,
};
use postman::error::CheckError;

const SHADOW: &str = "http://shadow.example:3000";

fn hash_of(fill: char) -> String {
    format!("0x{}", fill.to_string().repeat(64))
}

fn body(hash: &str) -> String {
    format!("{{\"hash\":\"{}\"}}", hash)
}

#[test]
fn equal_hashes_no_alert_short_delay_next_block() {
    let h = format!("0xabc{}", "0".repeat(61));
    let mut c = BlockHashChecker::new(SHADOW, 100);
    let step = c.step(Ok(body(&h)), Ok(body(&h)));
    assert_eq!(step.block, 100);
    assert!(step.alert.is_none());
    assert!(step.error.is_none());
    assert_eq!(step.delay_ms, 500);
    assert_eq!(c.block, 101);
}

#[test]
fn differing_hashes_one_alert_with_shadow_and_block() {
    let mut c = BlockHashChecker::new(SHADOW, 12);
    let step = c.step(Ok(body(&hash_of('a'))), Ok(body(&hash_of('b'))));
    let alert = step.alert.expect("an alert");
    assert_eq!(alert.alert_name, HASH_MISMATCH_ALERT);
    assert_eq!(alert.alert_name, "ShadowBlockHashNotSameAsEtherscan");
    assert_eq!(
        alert.labels,
        vec![
            ("shadow".to_string(), SHADOW.to_string()),
            ("block".to_string(), "12".to_string())
        ]
    );
    assert_eq!(alert.generator_url, GENERATOR_URL);
    assert!(step.error.is_none());
    assert_eq!(step.delay_ms, BLOCK_DELAY_MS);
    assert_eq!(c.block, 13);
}

#[test]
fn shadow_transport_error_long_delay_still_next_block() {
    let mut c = BlockHashChecker::new(SHADOW, 7);
    let step = c.step(Ok(body(&hash_of('c'))), Err("connection refused".to_string()));
    assert_eq!(step.error, Some(CheckError::Fetch("connection refused".to_string())));
    assert!(step.alert.is_none());
    assert_eq!(step.delay_ms, 10_000);
    assert_eq!(step.delay_ms, BLOCK_ERROR_DELAY_MS);
    assert_eq!(c.block, 8);
}

#[test]
fn explorer_error_comes_first() {
    let r = block_hash_is_same(Err("timeout".to_string()), Err("refused".to_string()));
    assert_eq!(r, Err(CheckError::Fetch("timeout".to_string())));
}

#[test]
fn body_without_hash_is_missing_hash() {
    let r = block_hash_is_same(Ok(body(&hash_of('d'))), Ok("not found".to_string()));
    assert_eq!(r, Err(CheckError::MissingHash("not found".to_string())));
    let mut c = BlockHashChecker::new(SHADOW, 1);
    let step = c.step(Ok("{}".to_string()), Ok(body(&hash_of('d'))));
    assert_eq!(step.error, Some(CheckError::MissingHash("{}".to_string())));
    assert_eq!(step.delay_ms, 10_000);
    assert_eq!(c.block, 2);
}

#[test]
fn block_hash_is_same_compares_hashes_not_bodies() {
    let h = hash_of('f');
    let a = format!("{{\"id\":1,\"hash\":\"{}\"}}", h);
    let b = format!("{{\"hash\":\"{}\",\"count\":9}}", h);
    assert_eq!(block_hash_is_same(Ok(a), Ok(b)), Ok(true));
    assert_eq!(block_hash_is_same(Ok(body(&h)), Ok(body(&hash_of('e')))), Ok(false));
}

#[test]
fn counter_after_k_rounds_is_start_plus_k() {
    let mut c = BlockHashChecker::new(SHADOW, 1000);
    let h = hash_of('1');
    for k in 0..10u64 {
        assert_eq!(c.block, 1000 + k);
        let step = match k % 4 {
            0 => c.step(Ok(body(&h)), Ok(body(&h))),
            1 => c.step(Ok(body(&h)), Ok(body(&hash_of('2')))),
            2 => c.step(Err("down".to_string()), Ok(body(&h))),
            _ => c.step(Ok("garbage".to_string()), Ok(body(&h))),
        };
        assert_eq!(step.block, 1000 + k);
    }
    assert_eq!(c.block, 1010);
}

#[test]
fn block_urls() {
    assert_eq!(
        explorer_block_url("KEY", 10_500_000),
        "https://api.etherscan.io/api?module=proxy&action=eth_getBlockByNumber&tag=0xa037a0&boolean=true&apikey=KEY"
    );
    assert_eq!(shadow_block_url(SHADOW, 42), "http://shadow.example:3000/ethereum/parcel/42");
    let c = BlockHashChecker::new(SHADOW, 255);
    assert_eq!(c.shadow_url_for_block(), "http://shadow.example:3000/ethereum/parcel/255");
    assert!(c.explorer_url("k").contains("&tag=0xff&"));
}
