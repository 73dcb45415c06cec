//! Verification functions: pure checks of a condition on a function's
//! input, with their parameters decoded from Borsh.

use vstd::prelude::*;
use vstd::bytes::{spec_u64_from_le_bytes, u64_from_le_bytes, spec_u32_from_le_bytes};
use vstd::utf8::{valid_utf8, decode_utf8};
use crate::error::FunctionError;
use crate::pubkey::Pubkey;
use crate::runtime::{pubkey_from_text, parse_pubkey};
use crate::text::{owned, views, contains_string, decimal, digit_char};
use crate::functions::types::{FunctionInput, FunctionOutput, FunctionResult, PureFunction};

verus! {

/// A registered verification function.
#[derive(Debug)]
pub struct VerificationFunction {
    pub function_id: String,
    pub function_type: String,
    pub program_id: Pubkey,
    pub entry_point: String,
    pub required_accounts: Vec<String>,
    pub parameters_schema: Vec<String>,
    pub description: String,
    pub version: String,
    pub is_active: bool,
    pub required_compute_units: u64,
    pub required_account_data: u64,
}

/// A pure function that verifies a condition on its input.
pub trait VerificationFunctionTrait: PureFunction {
    /// Whether the condition holds.
    fn verify(&self, input: &FunctionInput) -> FunctionResult<bool>;
    /// What the function checks.
    fn verification_description(&self) -> String;
    /// The context the function reads.
    fn required_context(&self) -> Vec<String>;
}

/// The parameters of a verification.
#[derive(Debug)]
pub struct VerificationInput {
    /// The condition to check.
    pub condition: String,
    pub constraint_parameters: Vec<u8>,
    pub target_objects: Vec<String>,
}

/// The outcome of a verification.
#[derive(Debug)]
pub struct VerificationOutput {
    pub verification: bool,
    pub reason: String,
    pub evidence: Vec<u8>,
}

/// Checks permissions and access.
pub struct BasicPermissionVerifier;

/// Checks parameters against constraints.
pub struct ParameterConstraintVerifier;

/// Checks signers and fees.
pub struct SystemAuthVerifier;

/// The abstract value of verification parameters.
pub type InputView = (Seq<char>, Seq<u8>, Seq<Seq<char>>);

/// The abstract value of verification parameters.
pub open spec fn input_view(v: VerificationInput) -> InputView {
    (v.condition@, v.constraint_parameters@, views(v.target_objects@))
}

/// The little-endian `u32` in the 4 bytes from `pos`.
pub open spec fn le_u32_at(b: Seq<u8>, pos: int) -> int {
    spec_u32_from_le_bytes(b.subrange(pos, pos + 4)) as int
}

/// A Borsh byte vector at `pos`: a `u32` length, then that many bytes; with
/// the position after it.
pub open spec fn borsh_bytes_at(b: Seq<u8>, pos: int) -> Option<(Seq<u8>, int)> {
    if 0 <= pos && pos + 4 <= b.len() && pos + 4 + le_u32_at(b, pos) <= b.len() {
        Some((b.subrange(pos + 4, pos + 4 + le_u32_at(b, pos)), pos + 4 + le_u32_at(b, pos)))
    } else {
        None
    }
}

/// A Borsh string at `pos`: a byte vector that is valid UTF-8, decoded.
pub open spec fn borsh_string_at(b: Seq<u8>, pos: int) -> Option<(Seq<char>, int)> {
    match borsh_bytes_at(b, pos) {
        Some((s, next)) => if valid_utf8(s) { Some((decode_utf8(s), next)) } else { None },
        None => None,
    }
}

/// `count` Borsh strings one after the other from `pos`.
pub open spec fn borsh_strings_at(b: Seq<u8>, pos: int, count: nat) -> Option<(Seq<Seq<char>>, int)>
    decreases count,
{
    if count == 0 {
        Some((seq![], pos))
    } else {
        match borsh_string_at(b, pos) {
            Some((s, next)) => match borsh_strings_at(b, next, (count - 1) as nat) {
                Some((rest, end)) => Some((seq![s] + rest, end)),
                None => None,
            },
            None => None,
        }
    }
}

/// What Borsh decodes from the bytes as a string, bytes and a list of
/// strings (the layout of `VerificationInput`: each string and vector a
/// little-endian `u32` length or count followed by its items, strings in
/// UTF-8), consuming them all; none where it cannot.
pub open spec fn borsh_verification_input(bytes: Seq<u8>) -> Option<(Seq<char>, Seq<u8>, Seq<Seq<char>>)> {
    match borsh_string_at(bytes, 0) {
        Some((condition, p1)) => match borsh_bytes_at(bytes, p1) {
            Some((params, p2)) => if p2 + 4 <= bytes.len() {
                match borsh_strings_at(bytes, p2 + 4, le_u32_at(bytes, p2) as nat) {
                    Some((targets, end)) => if end == bytes.len() { Some((condition, params, targets)) } else { None },
                    None => None,
                }
            } else {
                None
            },
            None => None,
        },
        None => None,
    }
}

/// What Borsh decodes from the bytes as a boolean (one byte, 0 or 1), a
/// string and bytes (the layout of `VerificationOutput`), consuming them
/// all; none where it cannot.
pub open spec fn borsh_verification_output(bytes: Seq<u8>) -> Option<(bool, Seq<char>, Seq<u8>)> {
    if bytes.len() >= 1 && (bytes[0] == 0 || bytes[0] == 1) {
        match borsh_string_at(bytes, 1) {
            Some((reason, p1)) => match borsh_bytes_at(bytes, p1) {
                Some((evidence, end)) => if end == bytes.len() { Some((bytes[0] == 1, reason, evidence)) } else { None },
                None => None,
            },
            None => None,
        }
    } else {
        None
    }
}

/// Decodes verification parameters with Borsh's `try_from_slice` for a
/// `(String, Vec<u8>, Vec<String>)`. The claim is that it decodes exactly
/// the layout `borsh_verification_input` writes out: strings checked as
/// UTF-8 by `String::from_utf8`, taken to accept what vstd's `valid_utf8`
/// accepts, and no byte left over.
#[verifier::external_body]
fn decode_verification_input(bytes: &Vec<u8>) -> (r: Option<VerificationInput>)
    ensures
        match r {
            Some(v) => borsh_verification_input(bytes@) == Some(input_view(v)),
            None => borsh_verification_input(bytes@) is None,
        },
{
    match <(String, Vec<u8>, Vec<String>) as anchor_lang::prelude::AnchorDeserialize>::try_from_slice(bytes.as_slice()) {
        Ok((condition, constraint_parameters, target_objects)) => Some(VerificationInput { condition, constraint_parameters, target_objects }),
        Err(_) => None,
    }
}

/// Decodes a verification outcome with Borsh's `try_from_slice` for a
/// `(bool, String, Vec<u8>)`. The claim is that it decodes exactly the
/// layout `borsh_verification_output` writes out, as for
/// `decode_verification_input`.
#[verifier::external_body]
fn decode_verification_output(bytes: &Vec<u8>) -> (r: Option<VerificationOutput>)
    ensures
        match r {
            Some(v) => borsh_verification_output(bytes@) == Some((v.verification, v.reason@, v.evidence@)),
            None => borsh_verification_output(bytes@) is None,
        },
{
    match <(bool, String, Vec<u8>) as anchor_lang::prelude::AnchorDeserialize>::try_from_slice(bytes.as_slice()) {
        Ok((verification, reason, evidence)) => Some(VerificationOutput { verification, reason, evidence }),
        Err(_) => None,
    }
}

/// The character is an ASCII digit.
pub open spec fn is_digit(c: char) -> bool {
    '0' <= c && c <= '9'
}

/// The number the digits write in decimal.
pub open spec fn digits_value(s: Seq<char>) -> int
    decreases s.len(),
{
    if s.len() == 0 {
        0
    } else {
        digits_value(s.drop_last()) * 10 + (s.last() as int - '0' as int)
    }
}

/// The text without a leading `+`.
pub open spec fn unsigned_part(s: Seq<char>) -> Seq<char> {
    if s.len() > 0 && s[0] == '+' { s.drop_first() } else { s }
}

/// Every character is an ASCII digit.
pub open spec fn all_digits(d: Seq<char>) -> bool {
    forall|i: int| 0 <= i < d.len() ==> is_digit(#[trigger] d[i])
}

/// The `u64` a text writes in decimal, as `u64::from_str` reads it: an
/// optional `+` and at least one digit, nothing else, within range.
pub open spec fn decimal_u64(s: Seq<char>) -> Option<u64> {
    let d = unsigned_part(s);
    if d.len() > 0 && all_digits(d) && digits_value(d) <= u64::MAX {
        Some(digits_value(d) as u64)
    } else {
        None
    }
}

/// The little-endian `u64` in the 8 bytes from `start`.
pub open spec fn le_u64_at(p: Seq<u8>, start: int) -> u64 {
    spec_u64_from_le_bytes(p.subrange(start, start + 8))
}

/// The value of a basic permission check: a namespace held, an object
/// named, or a block height reached (the first 8 parameter bytes, 0 where
/// there are fewer); any other condition fails.
pub open spec fn basic_permission_spec(input: FunctionInput, v: InputView) -> bool {
    let (cond, params, targets) = v;
    if cond == "has_namespace"@ {
        targets.len() > 0 && views(input.namespaces@).contains(targets[0])
    } else if cond == "can_access_object"@ {
        targets.len() > 0
    } else if cond == "block_height_check"@ {
        input.eval_context.block_height >= (if params.len() >= 8 { le_u64_at(params, 0) } else { 0 })
    } else {
        false
    }
}

/// The value of a parameter constraint check: an amount (the first target,
/// in decimal) between the bounds in the first 16 parameter bytes, or the
/// time between the bounds there; any other condition fails.
pub open spec fn parameter_constraint_spec(input: FunctionInput, v: InputView) -> bool {
    let (cond, params, targets) = v;
    if cond == "amount_within_range"@ {
        params.len() >= 16 && targets.len() > 0 && decimal_u64(targets[0]) is Some
            && le_u64_at(params, 0) <= decimal_u64(targets[0])->0 <= le_u64_at(params, 8)
    } else if cond == "time_window_check"@ {
        params.len() >= 16 && (le_u64_at(params, 0) as i64) <= input.eval_context.timestamp <= (le_u64_at(params, 8) as i64)
    } else {
        false
    }
}

/// The amount check holds exactly when the amount written in the first
/// target lies within the bounds: with 16 parameter bytes holding the
/// little-endian minimum and maximum, an amount above the maximum or below
/// the minimum fails, one between them passes; with fewer bytes, no target
/// or a target that is no decimal amount, it fails.
pub proof fn lemma_amount_within_bounds(input: FunctionInput, v: InputView)
    requires
        v.0 == "amount_within_range"@,
    ensures
        v.1.len() >= 16 && v.2.len() > 0 && decimal_u64(v.2[0]) is Some ==> (parameter_constraint_spec(input, v)
            <==> (le_u64_at(v.1, 0) <= decimal_u64(v.2[0]).unwrap() && decimal_u64(v.2[0]).unwrap() <= le_u64_at(v.1, 8))),
        v.1.len() >= 16 && v.2.len() > 0 && (decimal_u64(v.2[0]) matches Some(a) && a > le_u64_at(v.1, 8))
            ==> !parameter_constraint_spec(input, v),
        v.1.len() >= 16 && v.2.len() > 0 && (decimal_u64(v.2[0]) matches Some(a) && a < le_u64_at(v.1, 0))
            ==> !parameter_constraint_spec(input, v),
        v.1.len() < 16 || v.2.len() == 0 || decimal_u64(v.2[0]) is None ==> !parameter_constraint_spec(input, v),
{
}

/// The time check holds exactly when the context's time lies within the
/// window in the first 16 parameter bytes (read as signed times); with
/// fewer bytes it fails.
pub proof fn lemma_time_within_window(input: FunctionInput, v: InputView)
    requires
        v.0 == "time_window_check"@,
    ensures
        v.1.len() >= 16 ==> (parameter_constraint_spec(input, v)
            <==> ((le_u64_at(v.1, 0) as i64) <= input.eval_context.timestamp && input.eval_context.timestamp <= (le_u64_at(v.1, 8) as i64))),
        v.1.len() < 16 ==> !parameter_constraint_spec(input, v),
{
    reveal_strlit("amount_within_range");
    reveal_strlit("time_window_check");
    assert(v.0[0] != "amount_within_range"@[0]);
}

/// The value of a system authorization check: the address written in the
/// first target signed, or the fees reach the minimum in the first 8
/// parameter bytes; any other condition fails.
pub open spec fn system_auth_spec(input: FunctionInput, v: InputView) -> bool {
    let (cond, params, targets) = v;
    if cond == "signer_check"@ {
        targets.len() > 0 && pubkey_from_text(targets[0]) is Some
            && input.eval_context.signers@.map_values(|k: Pubkey| k.bytes@).contains(pubkey_from_text(targets[0])->0)
    } else if cond == "fee_check"@ {
        params.len() >= 8 && input.eval_context.fees.base_fee + input.eval_context.fees.priority_fee >= le_u64_at(params, 0)
    } else {
        false
    }
}

/// The fee check would add fees that do not fit in a `u64`.
pub open spec fn fee_sum_overflows(input: FunctionInput, v: InputView) -> bool {
    v.0 == "fee_check"@ && v.1.len() >= 8 && input.eval_context.fees.base_fee + input.eval_context.fees.priority_fee > u64::MAX
}

/// A longer digit string is worth at least as much as its prefix.
proof fn lemma_digits_prefix(d: Seq<char>, k: int)
    requires
        0 <= k <= d.len(),
        forall|i: int| 0 <= i < d.len() ==> is_digit(#[trigger] d[i]),
    ensures
        digits_value(d.take(k)) <= digits_value(d),
        0 <= digits_value(d.take(k)),
    decreases d.len() - k,
{
    if k < d.len() {
        lemma_digits_prefix(d, k + 1);
        assert(d.take(k + 1).drop_last() =~= d.take(k));
        assert(d.take(k + 1).last() == d[k]);
    } else {
        assert(d.take(k) =~= d);
        lemma_digits_nonneg(d);
    }
}

/// Digits are worth at least 0.
proof fn lemma_digits_nonneg(d: Seq<char>)
    requires
        forall|i: int| 0 <= i < d.len() ==> is_digit(#[trigger] d[i]),
    ensures
        0 <= digits_value(d),
    decreases d.len(),
{
    if d.len() > 0 {
        assert forall|i: int| 0 <= i < d.drop_last().len() implies is_digit(#[trigger] d.drop_last()[i]) by {
            assert(d.drop_last()[i] == d[i]);
        }
        lemma_digits_nonneg(d.drop_last());
    }
}

/// A decimal digit is worth the number it writes.
proof fn lemma_digit_char_value(d: nat)
    requires
        d < 10,
    ensures
        is_digit(digit_char(d)),
        digit_char(d) as int - '0' as int == d,
{
    assert('1' as int == '0' as int + 1 && '2' as int == '0' as int + 2 && '3' as int == '0' as int + 3);
    assert('4' as int == '0' as int + 4 && '5' as int == '0' as int + 5 && '6' as int == '0' as int + 6);
    assert('7' as int == '0' as int + 7 && '8' as int == '0' as int + 8 && '9' as int == '0' as int + 9);
}

/// The digits written for `n` are decimal digits worth `n`.
proof fn lemma_decimal_digits(n: nat)
    ensures
        all_digits(decimal(n)),
        digits_value(decimal(n)) == n,
        decimal(n).len() > 0,
        is_digit(decimal(n)[0]),
    decreases n,
{
    lemma_digit_char_value(n % 10);
    if n < 10 {
        assert(decimal(n) =~= seq![digit_char(n)]);
        assert(decimal(n).drop_last() =~= Seq::<char>::empty());
        assert(n % 10 == n);
        assert(digits_value(Seq::<char>::empty()) == 0);
        assert(decimal(n).last() == digit_char(n));
    } else {
        lemma_decimal_digits(n / 10);
        let d = decimal(n);
        assert(d == decimal(n / 10).push(digit_char(n % 10)));
        assert(d.drop_last() =~= decimal(n / 10));
        assert(d.last() == digit_char(n % 10));
        assert(n == (n / 10) * 10 + n % 10);
        assert(d[0] == decimal(n / 10)[0]);
        assert forall|i: int| 0 <= i < d.len() implies is_digit(#[trigger] d[i]) by {
            if i < d.len() - 1 {
                assert(d[i] == decimal(n / 10)[i]);
            }
        }
    }
}

/// What `push_decimal` writes for a `u64`, `parse_decimal_u64` reads back
/// as the same number.
pub proof fn lemma_decimal_round_trip(n: u64)
    ensures
        decimal_u64(decimal(n as nat)) == Some(n),
{
    lemma_decimal_digits(n as nat);
    assert(unsigned_part(decimal(n as nat)) == decimal(n as nat));
}

/// Reads a `u64` written in decimal, as `u64::from_str` does.
pub fn parse_decimal_u64(s: &String) -> (r: Option<u64>)
    ensures
        r == decimal_u64(s@),
{
    let text = s.as_str();
    let n = text.unicode_len();
    let start: usize = if n > 0 && text.get_char(0) == '+' { 1 } else { 0 };
    let ghost d = unsigned_part(s@);
    assert(d =~= s@.subrange(start as int, n as int));
    if start >= n {
        return None;
    }
    let mut v: u64 = 0;
    let mut i: usize = start;
    while i < n
        invariant
            start <= i <= n,
            n == s@.len(),
            text@ == s@,
            d == unsigned_part(s@),
            d =~= s@.subrange(start as int, n as int),
            forall|j: int| 0 <= j < i - start ==> is_digit(#[trigger] d[j]),
            v == digits_value(d.take(i - start)),
        decreases n - i,
    {
        let c = text.get_char(i);
        assert(c == d[i - start]);
        if !('0' <= c && c <= '9') {
            proof {
                assert(!is_digit(d[i - start]));
                assert(!all_digits(d));
                assert(decimal_u64(s@) is None);
            }
            return None;
        }
        let dg: u64 = (c as u32 - '0' as u32) as u64;
        assert(d.take(i + 1 - start).drop_last() =~= d.take(i - start));
        assert(d.take(i + 1 - start).last() == c);
        if v > (u64::MAX - dg) / 10 {
            proof {
                assert(digits_value(d.take(i + 1 - start)) == v * 10 + dg);
                assert(v * 10 + dg > u64::MAX) by (nonlinear_arith)
                    requires v > (u64::MAX - dg) / 10, dg <= 9;
                if all_digits(d) {
                    lemma_digits_prefix(d, i + 1 - start);
                    assert(digits_value(d) > u64::MAX);
                }
                assert(decimal_u64(s@) is None);
            }
            return None;
        }
        assert(v * 10 + dg <= u64::MAX) by (nonlinear_arith)
            requires v <= (u64::MAX - dg) / 10, dg <= 9;
        v = v * 10 + dg;
        i += 1;
    }
    assert(d.take(n - start) =~= d);
    Some(v)
}

/// The 8 bytes from `start`, as a `u64` in little-endian order.
fn le_u64(params: &Vec<u8>, start: usize) -> (r: u64)
    requires
        start + 8 <= params@.len(),
    ensures
        r == le_u64_at(params@, start as int),
{
    let len = params.len();
    let mut b: Vec<u8> = Vec::new();
    let mut i: usize = 0;
    while i < 8
        invariant
            i <= 8,
            len == params@.len(),
            start + 8 <= len,
            b@ == params@.subrange(start as int, start + i),
        decreases 8 - i,
    {
        b.push(params[start + i]);
        assert(b@ =~= params@.subrange(start as int, start + i + 1));
        i += 1;
    }
    u64_from_le_bytes(b.as_slice())
}

/// Evaluates a basic permission check: see `basic_permission_spec`.
pub fn basic_permission_holds(input: &FunctionInput, v: &VerificationInput) -> (r: bool)
    ensures
        r == basic_permission_spec(*input, input_view(*v)),
{
    let cond = &v.condition;
    if *cond == owned("has_namespace") {
        if v.target_objects.len() > 0 {
            input.has_namespace(&v.target_objects[0])
        } else {
            false
        }
    } else if *cond == owned("can_access_object") {
        if v.target_objects.len() > 0 {
            input.can_access_object(&v.target_objects[0])
        } else {
            false
        }
    } else if *cond == owned("block_height_check") {
        let min_height: u64 = if v.constraint_parameters.len() >= 8 { le_u64(&v.constraint_parameters, 0) } else { 0 };
        input.block_height() >= min_height
    } else {
        false
    }
}

/// Evaluates a parameter constraint check: see `parameter_constraint_spec`.
pub fn parameter_constraint_holds(input: &FunctionInput, v: &VerificationInput) -> (r: bool)
    ensures
        r == parameter_constraint_spec(*input, input_view(*v)),
        v.condition@ == "amount_within_range"@ && r ==> v.constraint_parameters@.len() >= 16 && v.target_objects@.len() > 0
            && (decimal_u64(v.target_objects@[0]@) matches Some(a)
                && le_u64_at(v.constraint_parameters@, 0) <= a && a <= le_u64_at(v.constraint_parameters@, 8)),
{
    let cond = &v.condition;
    if *cond == owned("amount_within_range") {
        if v.constraint_parameters.len() >= 16 {
            let min_amount = le_u64(&v.constraint_parameters, 0);
            let max_amount = le_u64(&v.constraint_parameters, 8);
            if v.target_objects.len() > 0 {
                match parse_decimal_u64(&v.target_objects[0]) {
                    Some(amount) => { return amount >= min_amount && amount <= max_amount; }
                    None => {}
                }
            }
        }
        false
    } else if *cond == owned("time_window_check") {
        if v.constraint_parameters.len() >= 16 {
            let start_time = le_u64(&v.constraint_parameters, 0) as i64;
            let end_time = le_u64(&v.constraint_parameters, 8) as i64;
            let current_time = input.timestamp();
            current_time >= start_time && current_time <= end_time
        } else {
            false
        }
    } else {
        false
    }
}

/// Whether the address is among the signers.
fn signed_by(signers: &[Pubkey], key: &Pubkey) -> (r: bool)
    ensures
        r == signers@.map_values(|k: Pubkey| k.bytes@).contains(key.bytes@),
{
    let mut i: usize = 0;
    while i < signers.len()
        invariant
            i <= signers@.len(),
            forall|j: int| 0 <= j < i ==> signers@[j].bytes@ != key.bytes@,
        decreases signers@.len() - i,
    {
        if signers[i] == *key {
            assert(signers@.map_values(|k: Pubkey| k.bytes@)[i as int] == key.bytes@);
            return true;
        }
        i += 1;
    }
    proof {
        let m = signers@.map_values(|k: Pubkey| k.bytes@);
        if m.contains(key.bytes@) {
            let j = choose|j: int| 0 <= j < m.len() && m[j] == key.bytes@;
            assert(signers@[j].bytes@ == key.bytes@);
        }
    }
    false
}

/// Evaluates a system authorization check: see `system_auth_spec`.
pub fn system_auth_holds(input: &FunctionInput, v: &VerificationInput) -> (r: bool)
    requires
        !fee_sum_overflows(*input, input_view(*v)),
    ensures
        r == system_auth_spec(*input, input_view(*v)),
{
    let cond = &v.condition;
    if *cond == owned("signer_check") {
        if v.target_objects.len() > 0 {
            match parse_pubkey(&v.target_objects[0]) {
                Some(required_signer) => { return signed_by(input.eval_context.transaction_signers(), &required_signer); }
                None => {}
            }
        }
        false
    } else if *cond == owned("fee_check") {
        if v.constraint_parameters.len() >= 8 {
            let min_fee = le_u64(&v.constraint_parameters, 0);
            let fees = input.eval_context.transaction_fees();
            let total_fee = fees.base_fee + fees.priority_fee;
            total_fee >= min_fee
        } else {
            false
        }
    } else {
        false
    }
}

impl VerificationOutput {
    /// A passed verification without evidence.
    pub fn success(reason: String) -> (r: VerificationOutput)
        ensures
            r.verification && r.reason == reason && r.evidence@.len() == 0,
    {
        VerificationOutput { verification: true, reason, evidence: Vec::new() }
    }

    /// A failed verification without evidence.
    pub fn failure(reason: String) -> (r: VerificationOutput)
        ensures
            !r.verification && r.reason == reason && r.evidence@.len() == 0,
    {
        VerificationOutput { verification: false, reason, evidence: Vec::new() }
    }

    /// A verification outcome with evidence.
    pub fn with_evidence(verification: bool, reason: String, evidence: Vec<u8>) -> (r: VerificationOutput)
        ensures
            r == (VerificationOutput { verification, reason, evidence }),
    {
        VerificationOutput { verification, reason, evidence }
    }
}

/// Checks that an input's parameters decode as verification parameters.
fn check_input(input: &FunctionInput) -> (r: FunctionResult<()>)
    ensures
        r is Ok <==> borsh_verification_input(input.parameters@) is Some,
        r is Err ==> r == Err::<(), FunctionError>(FunctionError::InvalidInput),
{
    match decode_verification_input(&input.parameters) {
        Some(_) => Ok(()),
        None => Err(FunctionError::InvalidInput),
    }
}

/// Checks that an output's data decodes as a verification outcome.
fn check_output(output: &FunctionOutput) -> (r: FunctionResult<()>)
    ensures
        r is Ok <==> borsh_verification_output(output.data@) is Some,
        r is Err ==> r == Err::<(), FunctionError>(FunctionError::InvalidOutput),
{
    match decode_verification_output(&output.data) {
        Some(_) => Ok(()),
        None => Err(FunctionError::InvalidOutput),
    }
}

impl PureFunction for BasicPermissionVerifier {
    fn function_type(&self) -> (r: String)
        ensures
            r@ == "basic_permission"@,
    {
        owned("basic_permission")
    }

    fn schema_version(&self) -> (r: String)
        ensures
            r@ == "1.0.0"@,
    {
        owned("1.0.0")
    }

    fn validate_input(&self, input: &FunctionInput) -> (r: FunctionResult<()>)
        ensures
            r is Ok <==> borsh_verification_input(input.parameters@) is Some,
            r is Err ==> r == Err::<(), FunctionError>(FunctionError::InvalidInput),
    {
        check_input(input)
    }

    fn validate_output(&self, output: &FunctionOutput) -> (r: FunctionResult<()>)
        ensures
            r is Ok <==> borsh_verification_output(output.data@) is Some,
            r is Err ==> r == Err::<(), FunctionError>(FunctionError::InvalidOutput),
    {
        check_output(output)
    }
}

impl VerificationFunctionTrait for BasicPermissionVerifier {
    fn verify(&self, input: &FunctionInput) -> (r: FunctionResult<bool>)
        ensures
            match borsh_verification_input(input.parameters@) {
                None => r == Err::<bool, FunctionError>(FunctionError::InvalidInput),
                Some(v) => r == Ok::<bool, FunctionError>(basic_permission_spec(*input, v)),
            },
    {
        match decode_verification_input(&input.parameters) {
            Some(v) => Ok(basic_permission_holds(input, &v)),
            None => Err(FunctionError::InvalidInput),
        }
    }

    fn verification_description(&self) -> (r: String)
        ensures
            r@ == "Basic permission and access verification"@,
    {
        owned("Basic permission and access verification")
    }

    fn required_context(&self) -> (r: Vec<String>)
        ensures
            views(r@) == seq!["namespaces"@, "block_height"@, "accessible_objects"@],
    {
        let mut r: Vec<String> = Vec::new();
        r.push(owned("namespaces"));
        r.push(owned("block_height"));
        r.push(owned("accessible_objects"));
        assert(views(r@) =~= seq!["namespaces"@, "block_height"@, "accessible_objects"@]);
        r
    }
}

impl PureFunction for ParameterConstraintVerifier {
    fn function_type(&self) -> (r: String)
        ensures
            r@ == "parameter_constraint"@,
    {
        owned("parameter_constraint")
    }

    fn schema_version(&self) -> (r: String)
        ensures
            r@ == "1.0.0"@,
    {
        owned("1.0.0")
    }

    fn validate_input(&self, input: &FunctionInput) -> (r: FunctionResult<()>)
        ensures
            r is Ok <==> borsh_verification_input(input.parameters@) is Some,
            r is Err ==> r == Err::<(), FunctionError>(FunctionError::InvalidInput),
    {
        check_input(input)
    }

    fn validate_output(&self, output: &FunctionOutput) -> (r: FunctionResult<()>)
        ensures
            r is Ok <==> borsh_verification_output(output.data@) is Some,
            r is Err ==> r == Err::<(), FunctionError>(FunctionError::InvalidOutput),
    {
        check_output(output)
    }
}

impl VerificationFunctionTrait for ParameterConstraintVerifier {
    fn verify(&self, input: &FunctionInput) -> (r: FunctionResult<bool>)
        ensures
            match borsh_verification_input(input.parameters@) {
                None => r == Err::<bool, FunctionError>(FunctionError::InvalidInput),
                Some(v) => r == Ok::<bool, FunctionError>(parameter_constraint_spec(*input, v)),
            },
    {
        match decode_verification_input(&input.parameters) {
            Some(v) => Ok(parameter_constraint_holds(input, &v)),
            None => Err(FunctionError::InvalidInput),
        }
    }

    fn verification_description(&self) -> (r: String)
        ensures
            r@ == "Parameter and constraint verification"@,
    {
        owned("Parameter and constraint verification")
    }

    fn required_context(&self) -> (r: Vec<String>)
        ensures
            views(r@) == seq!["timestamp"@, "parameters"@],
    {
        let mut r: Vec<String> = Vec::new();
        r.push(owned("timestamp"));
        r.push(owned("parameters"));
        assert(views(r@) =~= seq!["timestamp"@, "parameters"@]);
        r
    }
}

impl PureFunction for SystemAuthVerifier {
    fn function_type(&self) -> (r: String)
        ensures
            r@ == "system_auth"@,
    {
        owned("system_auth")
    }

    fn schema_version(&self) -> (r: String)
        ensures
            r@ == "1.0.0"@,
    {
        owned("1.0.0")
    }

    fn validate_input(&self, input: &FunctionInput) -> (r: FunctionResult<()>)
        ensures
            r is Ok <==> borsh_verification_input(input.parameters@) is Some,
            r is Err ==> r == Err::<(), FunctionError>(FunctionError::InvalidInput),
    {
        check_input(input)
    }

    fn validate_output(&self, output: &FunctionOutput) -> (r: FunctionResult<()>)
        ensures
            r is Ok <==> borsh_verification_output(output.data@) is Some,
            r is Err ==> r == Err::<(), FunctionError>(FunctionError::InvalidOutput),
    {
        check_output(output)
    }
}

impl VerificationFunctionTrait for SystemAuthVerifier {
    /// Evaluates the check; where the fee check would add fees that do not
    /// fit in a `u64`, fails with `ExecutionFailed`.
    fn verify(&self, input: &FunctionInput) -> (r: FunctionResult<bool>)
        ensures
            match borsh_verification_input(input.parameters@) {
                None => r == Err::<bool, FunctionError>(FunctionError::InvalidInput),
                Some(v) => if fee_sum_overflows(*input, v) {
                    r == Err::<bool, FunctionError>(FunctionError::ExecutionFailed)
                } else {
                    r == Ok::<bool, FunctionError>(system_auth_spec(*input, v))
                },
            },
    {
        match decode_verification_input(&input.parameters) {
            Some(v) => {
                let fees = input.eval_context.transaction_fees();
                if v.condition == owned("fee_check") && v.constraint_parameters.len() >= 8 && fees.base_fee > u64::MAX - fees.priority_fee {
                    return Err(FunctionError::ExecutionFailed);
                }
                Ok(system_auth_holds(input, &v))
            }
            None => Err(FunctionError::InvalidInput),
        }
    }

    fn verification_description(&self) -> (r: String)
        ensures
            r@ == "System authentication and authorization verification"@,
    {
        owned("System authentication and authorization verification")
    }

    fn required_context(&self) -> (r: Vec<String>)
        ensures
            views(r@) == seq!["transaction_signers"@, "transaction_fees"@],
    {
        let mut r: Vec<String> = Vec::new();
        r.push(owned("transaction_signers"));
        r.push(owned("transaction_fees"));
        assert(views(r@) =~= seq!["transaction_signers"@, "transaction_fees"@]);
        r
    }
}

} // verus!
