//! A timestamped attestation proof.

use vstd::prelude::*;
use risc0_zkvm::Receipt;

verus! {

/// The receipt of a zero-knowledge proof, `risc0_zkvm::Receipt`. The wallet
/// stores it and hands it back, and never looks inside.
#[verifier::external_type_specification]
#[verifier::external_body]
pub struct ExReceipt(risc0_zkvm::Receipt);

/// An attestation proof: an opaque receipt and the time of its creation.
#[derive(Debug)]
pub struct ZeroProof {
    pub timestamp: u64,
    pub proof: Receipt,
}

/// The character that writes the decimal digit `d`.
pub open spec fn digit_char(d: nat) -> char
    recommends
        d < 10,
{
    seq!['0', '1', '2', '3', '4', '5', '6', '7', '8', '9'][d as int]
}

/// The canonical decimal writing of `n`: no sign, no leading zero.
pub open spec fn decimal(n: nat) -> Seq<char>
    decreases n,
{
    if n < 10 {
        seq![digit_char(n)]
    } else {
        decimal(n / 10).push(digit_char(n % 10))
    }
}

/// `u64`'s `to_string`: the canonical decimal writing of the number, as
/// std's `Display` for the unsigned integers gives it.
#[verifier::external_body]
fn decimal_string(n: u64) -> (s: String)
    ensures
        s@ == decimal(n as nat),
{
    n.to_string()
}

impl ZeroProof {
    /// The key under which a wallet files this proof: its timestamp in decimal.
    pub open spec fn key_spec(&self) -> Seq<char> {
        decimal(self.timestamp as nat)
    }

    /// A proof is well-formed when its timestamp is positive.
    pub open spec fn is_valid_spec(&self) -> bool {
        self.timestamp > 0
    }

    /// The key under which a wallet files this proof.
    pub fn key(&self) -> (k: String)
        ensures
            k@ == self.key_spec(),
    {
        decimal_string(self.timestamp)
    }

    /// Tells whether the proof is well-formed.
    pub fn is_valid(&self) -> (r: bool)
        ensures
            r == self.is_valid_spec(),
    {
        self.timestamp > 0
    }
}

/// Different digits are written with different characters.
pub proof fn lemma_digit_injective(c: nat, d: nat)
    requires
        c < 10,
        d < 10,
        digit_char(c) == digit_char(d),
    ensures
        c == d,
{
    let digits = seq!['0', '1', '2', '3', '4', '5', '6', '7', '8', '9'];
    assert(digits[0] == '0' && digits[1] == '1' && digits[2] == '2' && digits[3] == '3'
        && digits[4] == '4');
    assert(digits[5] == '5' && digits[6] == '6' && digits[7] == '7' && digits[8] == '8'
        && digits[9] == '9');
}

/// The decimal writing of a number is one digit long below ten and longer
/// from ten on.
pub proof fn lemma_decimal_len(n: nat)
    ensures
        n < 10 ==> decimal(n).len() == 1,
        n >= 10 ==> decimal(n).len() >= 2,
    decreases n,
{
    if n >= 10 {
        lemma_decimal_len(n / 10);
    }
}

/// Two numbers with the same decimal writing are the same number: proofs
/// with different timestamps are filed under different keys.
pub proof fn lemma_decimal_injective(a: nat, b: nat)
    requires
        decimal(a) == decimal(b),
    ensures
        a == b,
    decreases a,
{
    lemma_decimal_len(a);
    lemma_decimal_len(b);
    if a < 10 && b < 10 {
        assert(decimal(a)[0] == digit_char(a));
        assert(decimal(b)[0] == digit_char(b));
        lemma_digit_injective(a, b);
    } else if a >= 10 && b >= 10 {
        let da = decimal(a / 10);
        let db = decimal(b / 10);
        assert(decimal(a).last() == digit_char(a % 10));
        assert(decimal(b).last() == digit_char(b % 10));
        lemma_digit_injective(a % 10, b % 10);
        assert(da =~= decimal(a).drop_last());
        assert(db =~= decimal(b).drop_last());
        lemma_decimal_injective(a / 10, b / 10);
    }
}

/// Filing two proofs with the same timestamp one after the other leaves what
/// filing the second alone leaves: the second, under their common key.
pub proof fn lemma_same_timestamp_overwrites(
    proofs: Map<Seq<char>, ZeroProof>,
    first: ZeroProof,
    second: ZeroProof,
)
    requires
        first.timestamp == second.timestamp,
    ensures
        first.key_spec() == second.key_spec(),
        proofs.insert(first.key_spec(), first).insert(second.key_spec(), second) == proofs.insert(
            second.key_spec(),
            second,
        ),
        proofs.insert(first.key_spec(), first).insert(second.key_spec(), second)[second.key_spec()]
            == second,
        proofs.dom().finite() ==> proofs.insert(first.key_spec(), first).insert(
            second.key_spec(),
            second,
        ).len() == proofs.insert(first.key_spec(), first).len(),
{
    let once = proofs.insert(first.key_spec(), first);
    let twice = once.insert(second.key_spec(), second);
    assert(twice =~= proofs.insert(second.key_spec(), second));
    assert(twice.dom() =~= once.dom());
}

} // verus!
