use vstd::prelude::*;
use vstd::utf8::is_ascii_chars;
use rand::Rng;
use crate::product::{lemma_ascii_str_bytes, Product};

verus! {

/// Relies on rand::random: an arbitrary 64-bit id drawn from the full
/// range; nothing is promised of the value.
#[verifier::external_body]
fn random_u64() -> u64 {
    rand::random::<u64>()
}

/// Relies on rand::random: a coin flip; nothing is promised of the value.
#[verifier::external_body]
fn random_flag() -> bool {
    rand::random::<bool>()
}

/// Relies on rand::Rng::gen_range: a value drawn uniformly from [lo, hi).
/// The call panics on an empty range, so one is ruled out here.
#[verifier::external_body]
fn random_in_range(lo: usize, hi: usize) -> (r: usize)
    requires
        lo < hi,
    ensures
        lo <= r < hi,
{
    rand::thread_rng().gen_range(lo..hi)
}

/// Relies on rand::distributions::Alphanumeric: every sample is one of the
/// ASCII characters a-z, A-Z, 0-9, so the collected string holds one
/// character per sample, each of them ASCII.
#[verifier::external_body]
fn random_string(len: usize) -> (r: String)
    ensures
        r@.len() == len,
        is_ascii_chars(r@),
{
    rand::thread_rng().sample_iter(&rand::distributions::Alphanumeric).take(len).map(
        char::from,
    ).collect()
}

/// Builds one synthetic record: an id drawn from the full 64-bit range, an
/// alphanumeric name whose length is drawn from [5, 10), a coin-flip stock
/// flag, the price bits handed in by the caller, and the fixed two tags.
pub fn generate_record(price_bits: u64) -> (r: Product)
    ensures
        r@.wf(),
        r@.price_bits == price_bits,
        5 <= r@.name.len() < 10,
        is_ascii_chars(r@.name),
        r@.tags[0] == "benchmark"@,
        r@.tags[1] == "test"@,
{
    let id = random_u64();
    let len = random_in_range(5, 10);
    let name = random_string(len);
    proof {
        lemma_ascii_str_bytes(name@);
    }
    let in_stock = random_flag();
    Product::new(id, name, price_bits, in_stock)
}

/// Materializes the whole dataset in memory, one record per given price, so
/// that no timing ever includes dataset construction. Every record comes out
/// well formed, with its price bits taken from the matching position.
pub fn generate_dataset(price_bits: &Vec<u64>) -> (r: Vec<Product>)
    ensures
        r@.len() == price_bits@.len(),
        forall|i: int| 0 <= i < r@.len() ==> (#[trigger] r@[i])@.wf(),
        forall|i: int| 0 <= i < r@.len() ==> (#[trigger] r@[i])@.price_bits == price_bits@[i],
        forall|i: int| 0 <= i < r@.len() ==> 5 <= (#[trigger] r@[i])@.name.len() < 10,
{
    let mut out: Vec<Product> = Vec::new();
    let mut i: usize = 0;
    while i < price_bits.len()
        invariant
            0 <= i <= price_bits@.len(),
            out@.len() == i,
            forall|k: int| 0 <= k < out@.len() ==> (#[trigger] out@[k])@.wf(),
            forall|k: int| 0 <= k < out@.len() ==> (#[trigger] out@[k])@.price_bits
                == price_bits@[k],
            forall|k: int| 0 <= k < out@.len() ==> 5 <= (#[trigger] out@[k])@.name.len() < 10,
        decreases price_bits@.len() - i,
    {
        let p = generate_record(price_bits[i]);
        out.push(p);
        i += 1;
    }
    out
}

} // verus!
