use vstd::prelude::*;
use ark_bls12_381::Fr;
use ark_ff::PrimeField;

verus! {

pub open spec fn hex_digit(d: u8) -> char {
    if d < 10 {
        (48 + d) as char
    } else {
        (87 + d) as char
    }
}

/// Two lower-case hexadecimal digits per byte, high nibble first.
pub open spec fn hex_of(b: Seq<u8>) -> Seq<char>
    decreases b.len(),
{
    if b.len() == 0 {
        Seq::empty()
    } else {
        hex_of(b.drop_last()) + seq![hex_digit(b.last() / 16), hex_digit(b.last() % 16)]
    }
}

fn push_hex_digit(s: &mut String, d: u8)
    requires
        d < 16,
    ensures
        final(s)@ == old(s)@.push(hex_digit(d)),
{
    let lit: &str = match d {
        0 => { proof { reveal_strlit("0"); } "0" },
        1 => { proof { reveal_strlit("1"); } "1" },
        2 => { proof { reveal_strlit("2"); } "2" },
        3 => { proof { reveal_strlit("3"); } "3" },
        4 => { proof { reveal_strlit("4"); } "4" },
        5 => { proof { reveal_strlit("5"); } "5" },
        6 => { proof { reveal_strlit("6"); } "6" },
        7 => { proof { reveal_strlit("7"); } "7" },
        8 => { proof { reveal_strlit("8"); } "8" },
        9 => { proof { reveal_strlit("9"); } "9" },
        10 => { proof { reveal_strlit("a"); } "a" },
        11 => { proof { reveal_strlit("b"); } "b" },
        12 => { proof { reveal_strlit("c"); } "c" },
        13 => { proof { reveal_strlit("d"); } "d" },
        14 => { proof { reveal_strlit("e"); } "e" },
        _ => { proof { reveal_strlit("f"); } "f" },
    };
    assert(lit@ =~= seq![hex_digit(d)]);
    s.append(lit);
}

/// The bytes in lower-case hexadecimal, two digits each.
pub fn hex_vec(v: &Vec<u8>) -> (r: String)
    ensures
        r@ == hex_of(v@),
{
    let mut s = String::new();
    let mut i: usize = 0;
    while i < v.len()
        invariant
            0 <= i <= v@.len(),
            s@ == hex_of(v@.take(i as int)),
        decreases v@.len() - i,
    {
        let b = v[i];
        push_hex_digit(&mut s, b / 16);
        push_hex_digit(&mut s, b % 16);
        assert(v@.take(i + 1).drop_last() =~= v@.take(i as int));
        assert(s@ =~= hex_of(v@.take(i + 1)));
        i = i + 1;
    }
    assert(v@.take(i as int) =~= v@);
    s
}


/// The convenience view of a verifying key: each curve point in compressed form,
/// in hexadecimal, with one input commitment per public input plus the constant one.
#[derive(Clone, Debug)]
pub struct VkHexed {
    pub alpha1: String,
    pub beta2: String,
    pub gamma2: String,
    pub delta2: String,
    pub abc: Vec<String>,
}

/// The convenience view of a proof: its three curve points, compressed, in hexadecimal.
#[derive(Clone, Debug)]
pub struct ProofHexed {
    pub a: String,
    pub b: String,
    pub c: String,
}

/// The public inputs file: the commitment as a decimal integer.
#[derive(Clone, Debug)]
pub struct PubInputs {
    pub pub1: String,
}

impl VkHexed {
    /// The hexadecimal view of a verifying key from the compressed encodings of its
    /// points, keeping every input commitment.
    pub fn from_parts(
        alpha_g1: &Vec<u8>,
        beta_g2: &Vec<u8>,
        gamma_g2: &Vec<u8>,
        delta_g2: &Vec<u8>,
        gamma_abc_g1: &Vec<Vec<u8>>,
    ) -> (r: VkHexed)
        ensures
            r.alpha1@ == hex_of(alpha_g1@),
            r.beta2@ == hex_of(beta_g2@),
            r.gamma2@ == hex_of(gamma_g2@),
            r.delta2@ == hex_of(delta_g2@),
            r.abc@.len() == gamma_abc_g1@.len(),
            forall|k: int| 0 <= k < r.abc@.len() ==> #[trigger] r.abc@[k]@ == hex_of(gamma_abc_g1@[k]@),
    {
        let mut abc: Vec<String> = Vec::new();
        let mut k: usize = 0;
        while k < gamma_abc_g1.len()
            invariant
                0 <= k <= gamma_abc_g1@.len(),
                abc@.len() == k,
                forall|m: int| 0 <= m < k ==> #[trigger] abc@[m]@ == hex_of(gamma_abc_g1@[m]@),
            decreases gamma_abc_g1@.len() - k,
        {
            abc.push(hex_vec(&gamma_abc_g1[k]));
            k = k + 1;
        }
        VkHexed {
            alpha1: hex_vec(alpha_g1),
            beta2: hex_vec(beta_g2),
            gamma2: hex_vec(gamma_g2),
            delta2: hex_vec(delta_g2),
            abc,
        }
    }
}

impl ProofHexed {
    /// The hexadecimal view of a proof from the compressed encodings of its points.
    pub fn from_parts(a: &Vec<u8>, b: &Vec<u8>, c: &Vec<u8>) -> (r: ProofHexed)
        ensures
            r.a@ == hex_of(a@),
            r.b@ == hex_of(b@),
            r.c@ == hex_of(c@),
    {
        ProofHexed { a: hex_vec(a), b: hex_vec(b), c: hex_vec(c) }
    }
}

/// The integer whose little-endian base-256 digits are `b`.
pub open spec fn le_value(b: Seq<u8>) -> nat
    decreases b.len(),
{
    if b.len() == 0 {
        0
    } else {
        b[0] as nat + 256 * le_value(b.drop_first())
    }
}

/// The order of the BLS12-381 scalar field.
pub open spec fn scalar_modulus() -> nat {
    52435875175126190479447740508185965837690552500527637822603658699938581184513nat
}

/// The decimal digits of `v` without leading zeros; zero has none.
pub open spec fn decimal(v: nat) -> Seq<char>
    decreases v,
{
    if v == 0 {
        Seq::empty()
    } else {
        decimal(v / 10).push((48 + v % 10) as char)
    }
}

/// The decimal form of a scalar-field element given by its little-endian bytes.
pub open spec fn field_decimal(bytes: Seq<u8>) -> Seq<char> {
    decimal(le_value(bytes) % scalar_modulus())
}

/// Relies on `PrimeField::from_le_bytes_mod_order`, which reads the bytes as a
/// little-endian integer reduced modulo the field order, and on the `Display` impl of
/// `Fp`, which writes that integer in decimal with leading zeros trimmed.
#[verifier::external_body]
fn field_to_decimal(bytes: &Vec<u8>) -> (r: String)
    ensures
        r@ == field_decimal(bytes@),
{
    Fr::from_le_bytes_mod_order(bytes).to_string()
}

impl PubInputs {
    /// The public inputs file for a commitment.
    pub fn from_hash(hash: &Vec<u8>) -> (r: PubInputs)
        ensures
            r.pub1@ == field_decimal(hash@),
    {
        PubInputs { pub1: field_to_decimal(hash) }
    }
}

} // verus!
