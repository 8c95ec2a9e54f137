//! Merge-patch bodies and the options they are sent with.
//!
//! A body is produced as the bytes of a compact JSON document; the caller
//! hands those bytes to the API client unchanged.
use vstd::prelude::*;
use vstd::string::StringSliceAdditionalSpecFns;

verus! {

/// Name recorded by the API server as the manager of the patched fields.
pub const FIELD_MANAGER: &'static str = "k8s-scale-app-rs";

/// Pod-template annotation whose change makes the Deployment roll its pods.
pub const RESTART_ANNOTATION: &'static str = "kubectl.kubernetes.io/restartedAt";

/// How strictly the server checks the fields of a patched object.
#[derive(Clone, Copy, Debug, PartialEq, Eq)]
pub enum FieldValidation {
    /// Fail the request on unknown or duplicate fields.
    Strict,
    /// Succeed, with a warning for each unknown or duplicate field.
    Warn,
    /// Drop unknown fields silently.
    Ignore,
}

/// Options of a patch request, as the API client takes them.
#[derive(Clone, Debug, PartialEq, Eq)]
pub struct PatchOptions {
    /// Ask the server for a dry run: validated, not persisted.
    pub dry_run: bool,
    /// Force ownership of conflicting fields (for server-side apply only).
    pub force: bool,
    /// Field manager recorded for the patched fields.
    pub field_manager: String,
    /// Field validation asked of the server; `None` leaves it to the server.
    pub field_validation: Option<FieldValidation>,
}

/// The options every request of this tool is sent with: the dry-run choice
/// of the caller and the tool's own field manager; no forced ownership (a
/// merge patch allows none) and the server's own field validation.
pub fn patch_params(dry_run: bool) -> (options: PatchOptions)
    ensures
        options.dry_run == dry_run,
        !options.force,
        options.field_manager@ == FIELD_MANAGER@,
        options.field_validation is None,
{
    PatchOptions {
        dry_run,
        force: false,
        field_manager: FIELD_MANAGER.to_owned(),
        field_validation: None,
    }
}

/// Digits of `n` in base ten, most significant first, without leading zeros.
pub open spec fn decimal_digits(n: nat) -> Seq<u8>
    decreases n,
{
    if n < 10 {
        seq![(48 + n) as u8]
    } else {
        decimal_digits(n / 10).push((48 + n % 10) as u8)
    }
}

/// A JSON number for the integer `i`.
pub open spec fn json_integer(i: int) -> Seq<u8> {
    if i < 0 {
        seq![45u8] + decimal_digits((-i) as nat)
    } else {
        decimal_digits(i as nat)
    }
}

/// Lower-case hexadecimal digit for `d < 16`.
pub open spec fn hex_digit(d: u8) -> u8 {
    if d < 10 {
        (48 + d) as u8
    } else {
        (87 + d) as u8
    }
}

/// How one byte stands inside a JSON string: the quote and the backslash are
/// escaped, control bytes are written as `\u00XX`, every other byte as is.
pub open spec fn json_escaped_byte(b: u8) -> Seq<u8> {
    if b == 34 {
        seq![92u8, 34u8]
    } else if b == 92 {
        seq![92u8, 92u8]
    } else if b < 32 {
        seq![92u8, 117u8, 48u8, 48u8, hex_digit(b / 16), hex_digit(b % 16)]
    } else {
        seq![b]
    }
}

/// The bytes of `s` escaped for a JSON string, byte by byte.
pub open spec fn json_escaped(s: Seq<u8>) -> Seq<u8>
    decreases s.len(),
{
    if s.len() == 0 {
        Seq::empty()
    } else {
        json_escaped(s.drop_last()) + json_escaped_byte(s.last())
    }
}

/// A JSON string whose content is the UTF-8 text `s`.
pub open spec fn json_string(s: Seq<u8>) -> Seq<u8> {
    seq![34u8] + json_escaped(s) + seq![34u8]
}

/// Body of the merge patch that sets the replica count of a Deployment's
/// scale subresource: `{"spec":{"replicas":N}}`.
pub open spec fn scale_patch(replicas: int) -> Seq<u8> {
    "{\"spec\":{\"replicas\":".spec_bytes() + json_integer(replicas) + "}}".spec_bytes()
}

/// Body of the merge patch that stamps the pod template's restart annotation
/// with `restarted_at`:
/// `{"spec":{"template":{"metadata":{"annotations":{KEY:TIME}}}}}`.
pub open spec fn restart_patch(restarted_at: Seq<u8>) -> Seq<u8> {
    "{\"spec\":{\"template\":{\"metadata\":{\"annotations\":{".spec_bytes() + json_string(
        RESTART_ANNOTATION.spec_bytes(),
    ) + ":".spec_bytes() + json_string(restarted_at) + "}}}}}".spec_bytes()
}

/// Whether `b` is one of the ASCII digits `0` to `9`.
pub open spec fn is_decimal_digit(b: u8) -> bool {
    48 <= b <= 57
}

/// The number that a sequence of decimal digits denotes.
pub open spec fn decimal_value(digits: Seq<u8>) -> nat
    decreases digits.len(),
{
    if digits.len() == 0 {
        0
    } else {
        decimal_value(digits.drop_last()) * 10 + (digits.last() - 48) as nat
    }
}

/// The digits written for `n` are decimal digits with no leading zero, and
/// they denote `n`: a replica count survives its rendering in a patch body.
pub proof fn lemma_decimal_digits_round_trip(n: nat)
    ensures
        decimal_digits(n).len() > 0,
        forall|i: int| 0 <= i < decimal_digits(n).len() ==> is_decimal_digit(#[trigger] decimal_digits(n)[i]),
        decimal_digits(n)[0] == 48 ==> n == 0,
        decimal_value(decimal_digits(n)) == n,
    decreases n,
{
    if n >= 10 {
        lemma_decimal_digits_round_trip(n / 10);
        let prefix = decimal_digits(n / 10);
        assert(decimal_digits(n).drop_last() =~= prefix);
        assert(decimal_digits(n).last() == (48 + n % 10) as u8);
        assert(decimal_value(decimal_digits(n)) == decimal_value(prefix) * 10 + n % 10);
        assert((n / 10) * 10 + n % 10 == n) by (nonlinear_arith);
        assert forall|i: int| 0 <= i < decimal_digits(n).len() implies is_decimal_digit(
            #[trigger] decimal_digits(n)[i],
        ) by {
            if i < prefix.len() {
                assert(decimal_digits(n)[i] == prefix[i]);
            }
        }
    } else {
        assert(decimal_digits(n).drop_last() =~= Seq::<u8>::empty());
        assert(decimal_value(Seq::<u8>::empty()) == 0);
    }
}

/// Whether `digits` is the base-ten notation of `n`: decimal digits only, no
/// leading zero, denoting `n`.
pub open spec fn is_decimal_notation(digits: Seq<u8>, n: nat) -> bool {
    &&& digits.len() > 0
    &&& forall|i: int| 0 <= i < digits.len() ==> is_decimal_digit(#[trigger] digits[i])
    &&& digits[0] == 48 ==> digits.len() == 1
    &&& decimal_value(digits) == n
}

/// The JSON number written for an integer denotes it: a non-negative one is
/// its base-ten notation, a negative one a `-` before the notation of its
/// magnitude.
pub proof fn lemma_json_integer_denotes(i: int)
    ensures
        i >= 0 ==> is_decimal_notation(json_integer(i), i as nat),
        i < 0 ==> json_integer(i)[0] == 45 && is_decimal_notation(
            json_integer(i).drop_first(),
            (-i) as nat,
        ),
{
    if i >= 0 {
        lemma_decimal_digits_round_trip(i as nat);
        if i == 0 {
            assert(decimal_digits(0) =~= seq![48u8]);
        }
    } else {
        lemma_decimal_digits_round_trip((-i) as nat);
        assert(json_integer(i).drop_first() =~= decimal_digits((-i) as nat));
    }
}

/// The scale patch for a replica count `n >= 0` is
/// `{"spec":{"replicas":` then the base-ten notation of `n` then `}}`.
pub proof fn lemma_scale_patch_denotes_count(replicas: int)
    requires
        replicas >= 0,
    ensures
        exists|digits: Seq<u8>|
            is_decimal_notation(digits, replicas as nat) && #[trigger] scale_patch(replicas)
                == "{\"spec\":{\"replicas\":".spec_bytes() + digits + "}}".spec_bytes(),
{
    lemma_json_integer_denotes(replicas);
    let digits = json_integer(replicas);
    assert(is_decimal_notation(digits, replicas as nat));
    assert(scale_patch(replicas) == "{\"spec\":{\"replicas\":".spec_bytes() + digits
        + "}}".spec_bytes());
}

/// Bytes that a JSON string holds as they are: no quote, no backslash, no
/// control byte.
pub open spec fn json_plain(s: Seq<u8>) -> bool {
    forall|i: int| 0 <= i < s.len() ==> #[trigger] s[i] != 34 && s[i] != 92 && s[i] >= 32
}

/// Text without quotes, backslashes or control bytes is written into a JSON
/// string unchanged.
pub proof fn lemma_plain_text_is_not_escaped(s: Seq<u8>)
    requires
        json_plain(s),
    ensures
        json_escaped(s) == s,
    decreases s.len(),
{
    if s.len() > 0 {
        let init = s.drop_last();
        assert forall|i: int| 0 <= i < init.len() implies #[trigger] init[i] != 34 && init[i] != 92
            && init[i] >= 32 by {
            assert(init[i] == s[i]);
        }
        lemma_plain_text_is_not_escaped(init);
        assert(s[s.len() - 1] != 34);
        assert(json_escaped(s) =~= s);
    }
}

fn push_bytes(out: &mut Vec<u8>, bytes: &[u8])
    ensures
        final(out)@ == old(out)@ + bytes@,
{
    let mut i: usize = 0;
    while i < bytes.len()
        invariant
            i <= bytes@.len(),
            out@ == old(out)@ + bytes@.take(i as int),
        decreases bytes@.len() - i,
    {
        out.push(bytes[i]);
        i += 1;
        assert(out@ =~= old(out)@ + bytes@.take(i as int));
    }
    assert(bytes@.take(bytes@.len() as int) =~= bytes@);
}

fn push_decimal(out: &mut Vec<u8>, n: u32)
    ensures
        final(out)@ == old(out)@ + decimal_digits(n as nat),
    decreases n,
{
    if n >= 10 {
        push_decimal(out, n / 10);
    }
    let digit: u8 = (n % 10) as u8;
    out.push(48u8 + digit);
    assert(out@ =~= old(out)@ + decimal_digits(n as nat));
}

fn push_json_integer(out: &mut Vec<u8>, i: i32)
    ensures
        final(out)@ == old(out)@ + json_integer(i as int),
{
    if i < 0 {
        out.push(45u8);
        let wide: i64 = i as i64;
        let magnitude: u32 = (-wide) as u32;
        push_decimal(out, magnitude);
        assert(out@ =~= old(out)@ + json_integer(i as int));
    } else {
        push_decimal(out, i as u32);
    }
}

fn hex_digit_exec(d: u8) -> (h: u8)
    requires
        d < 16,
    ensures
        h == hex_digit(d),
{
    if d < 10 {
        48u8 + d
    } else {
        87u8 + d
    }
}

fn push_escaped_byte(out: &mut Vec<u8>, b: u8)
    ensures
        final(out)@ == old(out)@ + json_escaped_byte(b),
{
    if b == 34u8 {
        out.push(92u8);
        out.push(34u8);
    } else if b == 92u8 {
        out.push(92u8);
        out.push(92u8);
    } else if b < 32u8 {
        out.push(92u8);
        out.push(117u8);
        out.push(48u8);
        out.push(48u8);
        out.push(hex_digit_exec(b / 16));
        out.push(hex_digit_exec(b % 16));
    } else {
        out.push(b);
    }
    assert(out@ =~= old(out)@ + json_escaped_byte(b));
}

fn push_json_string(out: &mut Vec<u8>, s: &[u8])
    ensures
        final(out)@ == old(out)@ + json_string(s@),
{
    out.push(34u8);
    let ghost opened = out@;
    let mut i: usize = 0;
    while i < s.len()
        invariant
            i <= s@.len(),
            out@ == opened + json_escaped(s@.take(i as int)),
        decreases s@.len() - i,
    {
        push_escaped_byte(out, s[i]);
        proof {
            assert(s@.take(i + 1).drop_last() =~= s@.take(i as int));
        }
        i += 1;
    }
    assert(s@.take(s@.len() as int) =~= s@);
    out.push(34u8);
    assert(out@ =~= old(out)@ + json_string(s@));
}

/// The merge-patch body that sets the scale subresource's replica count.
pub fn scale_patch_body(replicas: i32) -> (body: Vec<u8>)
    ensures
        body@ == scale_patch(replicas as int),
{
    let mut body: Vec<u8> = Vec::new();
    push_bytes(&mut body, "{\"spec\":{\"replicas\":".as_bytes());
    push_json_integer(&mut body, replicas);
    push_bytes(&mut body, "}}".as_bytes());
    assert(body@ =~= scale_patch(replicas as int));
    body
}

/// The merge-patch body that sets the pod template's restart annotation to
/// `restarted_at`.
pub fn restart_patch_body(restarted_at: &str) -> (body: Vec<u8>)
    ensures
        body@ == restart_patch(restarted_at.spec_bytes()),
{
    let mut body: Vec<u8> = Vec::new();
    push_bytes(&mut body, "{\"spec\":{\"template\":{\"metadata\":{\"annotations\":{".as_bytes());
    push_json_string(&mut body, RESTART_ANNOTATION.as_bytes());
    push_bytes(&mut body, ":".as_bytes());
    push_json_string(&mut body, restarted_at.as_bytes());
    push_bytes(&mut body, "}}}}}".as_bytes());
    assert(body@ =~= restart_patch(restarted_at.spec_bytes()));
    body
}

} // verus!
