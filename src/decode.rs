use vstd::prelude::*;

verus! {

/// Why a stack fragment's payload could not be read as addresses.
#[derive(Clone, Copy, Debug, PartialEq, Eq, Structural)]
pub enum DecodeError {
    /// The payload's length is not a whole number of eight-byte words.
    PartialWord { len: usize },
}

/// The little-endian eight-byte word of `b` starting at `at`.
pub open spec fn word_at(b: Seq<u8>, at: int) -> int {
    b[at] + 256 * (b[at + 1] + 256 * (b[at + 2] + 256 * (b[at + 3] + 256 * (b[at + 4] + 256 * (
    b[at + 5] + 256 * (b[at + 6] + 256 * b[at + 7]))))))
}

/// The addresses that a well-formed payload `b` holds, in order.
pub open spec fn words(b: Seq<u8>) -> Seq<u64> {
    Seq::new((b.len() / 8) as nat, |k: int| word_at(b, 8 * k) as u64)
}

fn read_word(b: &[u8], at: usize) -> (r: u64)
    requires
        at + 8 <= b@.len(),
    ensures
        r as int == word_at(b@, at as int),
{
    let len = b.len();
    assert(at + 8 <= len);
    let w6 = b[at + 6] as u64 + 256 * b[at + 7] as u64;
    let w5 = b[at + 5] as u64 + 256 * w6;
    let w4 = b[at + 4] as u64 + 256 * w5;
    let w3 = b[at + 3] as u64 + 256 * w4;
    let w2 = b[at + 2] as u64 + 256 * w3;
    let w1 = b[at + 1] as u64 + 256 * w2;
    b[at] as u64 + 256 * w1
}

/// Reads a stack fragment's payload as consecutive little-endian eight-byte
/// addresses, leaf first; a payload with a partial word is refused.
pub fn decode_addresses(b: &[u8]) -> (r: Result<Vec<u64>, DecodeError>)
    ensures
        b@.len() % 8 != 0 ==> r == Err::<Vec<u64>, DecodeError>(
            DecodeError::PartialWord { len: b@.len() as usize },
        ),
        b@.len() % 8 == 0 ==> r is Ok && r->Ok_0@ == words(b@),
{
    let n = b.len();
    if n % 8 != 0 {
        return Err(DecodeError::PartialWord { len: n });
    }
    let mut out: Vec<u64> = Vec::new();
    let mut k: usize = 0;
    while k < n / 8
        invariant
            n == b@.len(),
            n % 8 == 0,
            k <= n / 8,
            out@ == words(b@).subrange(0, k as int),
        decreases n / 8 - k,
    {
        let w = read_word(b, 8 * k);
        out.push(w);
        k = k + 1;
        assert(out@ =~= words(b@).subrange(0, k as int));
    }
    assert(words(b@).subrange(0, (n / 8) as int) =~= words(b@));
    Ok(out)
}

} // verus!
