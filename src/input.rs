use vstd::prelude::*;
use vstd::string::StringSliceAdditionalSpecFns;
use crate::policy::MappingPolicy;

verus! {

/// Why a line of operator input was refused.
#[derive(Clone, Copy, Debug, PartialEq, Eq, Structural)]
pub enum InputError {
    /// The policy choice is not `1`, `2` or `3`.
    InvalidPolicy,
    /// A trace line is not a non-negative integer that fits in `usize`.
    MalformedAddress,
}

/// The policy that a choice line selects: `1` Direct, `2` SetAssociative,
/// `3` Associative.
pub open spec fn policy_of_choice(text: Seq<u8>) -> Option<MappingPolicy> {
    if text == seq![49u8] {
        Some(MappingPolicy::Direct)
    } else if text == seq![50u8] {
        Some(MappingPolicy::SetAssociative)
    } else if text == seq![51u8] {
        Some(MappingPolicy::Associative)
    } else {
        None
    }
}

/// Reads the policy choice from an already trimmed line.
pub fn parse_policy(choice: &str) -> (r: Result<MappingPolicy, InputError>)
    ensures
        match policy_of_choice(choice.spec_bytes()) {
            Some(p) => r == Ok::<MappingPolicy, InputError>(p),
            None => r == Err::<MappingPolicy, InputError>(InputError::InvalidPolicy),
        },
{
    let b = choice.as_bytes();
    if b.len() != 1 {
        assert(b@ != seq![49u8] && b@ != seq![50u8] && b@ != seq![51u8]);
        return Err(InputError::InvalidPolicy);
    }
    let c = b[0];
    if c == 49u8 {
        assert(b@ =~= seq![49u8]);
        Ok(MappingPolicy::Direct)
    } else if c == 50u8 {
        assert(b@ =~= seq![50u8]);
        Ok(MappingPolicy::SetAssociative)
    } else if c == 51u8 {
        assert(b@ =~= seq![51u8]);
        Ok(MappingPolicy::Associative)
    } else {
        assert(b@[0] != seq![49u8][0] && b@[0] != seq![50u8][0] && b@[0] != seq![51u8][0]);
        Err(InputError::InvalidPolicy)
    }
}

/// Whether `b` is an ASCII decimal digit.
pub open spec fn is_digit(b: u8) -> bool {
    48 <= b <= 57
}

/// The digits of an address line: the line without one leading `+`.
pub open spec fn digits_of(text: Seq<u8>) -> Seq<u8> {
    if text.len() > 0 && text[0] == 43u8 {
        text.skip(1)
    } else {
        text
    }
}

/// Whether a line is an optional `+` followed by at least one decimal digit.
pub open spec fn is_decimal(text: Seq<u8>) -> bool {
    let d = digits_of(text);
    &&& d.len() > 0
    &&& forall|i: int| 0 <= i < d.len() ==> is_digit(#[trigger] d[i])
}

/// The number that a sequence of decimal digits writes, most significant first.
pub open spec fn digits_value(d: Seq<u8>) -> nat
    decreases d.len(),
{
    if d.len() == 0 {
        0
    } else {
        digits_value(d.drop_last()) * 10 + (d.last() - 48) as nat
    }
}

proof fn lemma_digits_value_grows(d: Seq<u8>, j: int)
    requires
        0 <= j <= d.len(),
        forall|i: int| 0 <= i < d.len() ==> is_digit(#[trigger] d[i]),
    ensures
        digits_value(d.take(j)) <= digits_value(d),
    decreases d.len() - j,
{
    if j < d.len() {
        lemma_digits_value_grows(d, j + 1);
        assert(d.take(j + 1).drop_last() =~= d.take(j));
    } else {
        assert(d.take(j) =~= d);
    }
}

/// Reads one address of the trace from an already trimmed line: an optional
/// `+` and decimal digits whose value fits in `usize`.
pub fn parse_address(text: &str) -> (r: Result<usize, InputError>)
    ensures
        (r is Ok) <==> (is_decimal(text.spec_bytes()) && digits_value(digits_of(text.spec_bytes()))
            <= usize::MAX),
        match r {
            Ok(a) => a == digits_value(digits_of(text.spec_bytes())),
            Err(e) => e == InputError::MalformedAddress,
        },
{
    let b = text.as_bytes();
    let start: usize = if b.len() > 0 && b[0] == 43u8 {
        1
    } else {
        0
    };
    let ghost d = digits_of(b@);
    assert(d =~= b@.skip(start as int));
    if start >= b.len() {
        return Err(InputError::MalformedAddress);
    }
    let mut k: usize = start;
    while k < b.len()
        invariant
            start <= k <= b@.len(),
            d =~= b@.skip(start as int),
            d == digits_of(b@),
            b@ == text.spec_bytes(),
            forall|i: int| 0 <= i < k - start ==> is_digit(#[trigger] d[i]),
        decreases b@.len() - k,
    {
        assert(d[k - start] == b@[k as int]);
        if !(48u8 <= b[k] && b[k] <= 57u8) {
            assert(!is_digit(d[k - start]));
            return Err(InputError::MalformedAddress);
        }
        k = k + 1;
    }
    let mut acc: usize = 0;
    let mut k: usize = start;
    while k < b.len()
        invariant
            start <= k <= b@.len(),
            d =~= b@.skip(start as int),
            d == digits_of(b@),
            b@ == text.spec_bytes(),
            forall|i: int| 0 <= i < d.len() ==> is_digit(#[trigger] d[i]),
            acc == digits_value(d.take(k - start)),
        decreases b@.len() - k,
    {
        assert(d[k - start] == b@[k as int]);
        assert(is_digit(d[k - start]));
        let digit: usize = (b[k] - 48u8) as usize;
        assert(d.take(k - start + 1).drop_last() =~= d.take(k - start));
        if acc > (usize::MAX - digit) / 10 {
            assert(acc * 10 + digit > usize::MAX) by (nonlinear_arith)
                requires
                    acc > (usize::MAX - digit) / 10,
                    digit <= 9,
            ;
            proof {
                lemma_digits_value_grows(d, k - start + 1);
            }
            return Err(InputError::MalformedAddress);
        }
        assert(acc * 10 + digit <= usize::MAX) by (nonlinear_arith)
            requires
                acc <= (usize::MAX - digit) / 10,
                digit <= 9,
        ;
        acc = acc * 10 + digit;
        k = k + 1;
    }
    assert(d.take(k - start) =~= d);
    Ok(acc)
}

} // verus!
