//! The moment a restart is requested, as RFC 3339 text.
use vstd::prelude::*;
use vstd::string::StringSliceAdditionalSpecFns;

verus! {

/// A character that RFC 3339 text of a UTC time can hold: a digit or one of
/// `-`, `T`, `:`, `.`, `+`.
pub open spec fn is_timestamp_char(c: char) -> bool {
    ('0' <= c && c <= '9') || c == '-' || c == 'T' || c == ':' || c == '.' || c == '+'
}

/// Text made of timestamp characters only.
pub open spec fn is_timestamp_text(s: Seq<char>) -> bool {
    forall|i: int| 0 <= i < s.len() ==> is_timestamp_char(#[trigger] s[i])
}

/// The RFC 3339 text that `chrono` writes for the UTC time `secs` seconds and
/// `nanos` nanoseconds after the Unix epoch (`DateTime::from_timestamp`, then
/// `to_rfc3339`); `None` where `from_timestamp` finds the time out of range.
pub uninterp spec fn rfc3339_utc(secs: int, nanos: int) -> Option<Seq<char>>;

/// Reads the system clock: `std::time::UNIX_EPOCH.elapsed()`, handed out as
/// whole seconds and the nanoseconds below them; `None` where the clock
/// stands before the epoch. Claimed of every outcome: the nanoseconds are
/// below one second (`Duration::subsec_nanos`). Which moment is read is the
/// clock's and left unsaid.
#[verifier::external_body]
fn read_system_clock() -> (reading: Option<(u64, u32)>)
    ensures
        reading matches Some(r) ==> r.1 < 1_000_000_000,
{
    match std::time::UNIX_EPOCH.elapsed() {
        Ok(elapsed) => Some((elapsed.as_secs(), elapsed.subsec_nanos())),
        Err(_) => None,
    }
}

/// Calls `chrono::DateTime::<Utc>::from_timestamp(secs, nanos)` and renders
/// the time with `to_rfc3339`. Claimed: the outcome is a function of the
/// arguments, named `rfc3339_utc`, and rendered text is made of digits and
/// the separators `-`, `T`, `:`, `.`, `+` (years outside 0..=9999 get a sign,
/// the offset of UTC is written `+00:00`).
#[verifier::external_body]
fn utc_rfc3339(secs: i64, nanos: u32) -> (text: Option<String>)
    ensures
        match text {
            Some(t) => rfc3339_utc(secs as int, nanos as int) == Some(t@) && is_timestamp_text(t@),
            None => rfc3339_utc(secs as int, nanos as int) is None,
        },
{
    match chrono::DateTime::from_timestamp(secs, nanos) {
        Some(time) => Some(time.to_rfc3339()),
        None => None,
    }
}

/// The RFC 3339 text of a clock reading (seconds and nanoseconds since the
/// Unix epoch): `None` for no reading, for seconds beyond `i64::MAX`, and
/// where `chrono` finds the time out of range.
pub open spec fn reading_text(reading: Option<(u64, u32)>) -> Option<Seq<char>> {
    match reading {
        Some(r) => if r.0 <= i64::MAX {
            rfc3339_utc(r.0 as int, r.1 as int)
        } else {
            None
        },
        None => None,
    }
}

/// Renders a clock reading as RFC 3339 UTC text.
pub fn timestamp_of(reading: Option<(u64, u32)>) -> (text: Option<String>)
    ensures
        match text {
            Some(t) => reading_text(reading) == Some(t@) && is_timestamp_text(t@),
            None => reading_text(reading) is None,
        },
{
    match reading {
        Some((secs, nanos)) => {
            if secs <= i64::MAX as u64 {
                utc_rfc3339(secs as i64, nanos)
            } else {
                None
            }
        },
        None => None,
    }
}

/// The current time as RFC 3339 UTC text, read from the system clock;
/// `None` where the clock cannot be rendered (it stands before the Unix
/// epoch, or beyond what `chrono` represents). Which moment it holds is the
/// clock's.
pub fn restart_time() -> (now: Option<String>)
    ensures
        now matches Some(t) ==> is_timestamp_text(t@),
        now matches Some(t) ==> exists|reading: (u64, u32)|
            reading.1 < 1_000_000_000 && #[trigger] reading_text(Some(reading)) == Some(t@),
{
    let reading = read_system_clock();
    let now = timestamp_of(reading);
    proof {
        if now is Some {
            let r = reading->Some_0;
            assert(reading_text(Some(r)) == Some(now->Some_0@));
        }
    }
    now
}

/// Timestamp text needs no escape in a JSON string: its UTF-8 bytes are its
/// characters, none of them a quote, a backslash or a control byte.
pub proof fn lemma_timestamp_is_json_plain(s: Seq<char>)
    requires
        is_timestamp_text(s),
    ensures
        vstd::utf8::encode_utf8(s) == s.map_values(|c: char| c as u8),
        crate::patch::json_plain(vstd::utf8::encode_utf8(s)),
{
    assert(vstd::utf8::is_ascii_chars(s)) by {
        assert forall|i: int| 0 <= i < s.len() implies '\0' <= #[trigger] s[i] <= '\u{7f}' by {
            assert(is_timestamp_char(s[i]));
        }
    }
    vstd::utf8::is_ascii_chars_encode_utf8(s);
    let bytes = vstd::utf8::encode_utf8(s);
    assert(bytes =~= s.map_values(|c: char| c as u8));
    assert forall|i: int| 0 <= i < bytes.len() implies #[trigger] bytes[i] != 34 && bytes[i] != 92
        && bytes[i] >= 32 by {
        assert(is_timestamp_char(s[i]));
        assert(s[i] as u8 == bytes[i]);
    }
}

/// A restart patch stamped with timestamp text carries that text verbatim
/// as the annotation's value.
pub proof fn lemma_restart_patch_holds_timestamp(restarted_at: Seq<char>)
    requires
        is_timestamp_text(restarted_at),
    ensures
        crate::patch::restart_patch(vstd::utf8::encode_utf8(restarted_at))
            == "{\"spec\":{\"template\":{\"metadata\":{\"annotations\":{".spec_bytes()
            + crate::patch::json_string(crate::patch::RESTART_ANNOTATION.spec_bytes())
            + ":".spec_bytes() + seq![34u8] + restarted_at.map_values(|c: char| c as u8)
            + seq![34u8] + "}}}}}".spec_bytes(),
{
    lemma_timestamp_is_json_plain(restarted_at);
    let bytes = vstd::utf8::encode_utf8(restarted_at);
    crate::patch::lemma_plain_text_is_not_escaped(bytes);
    assert(crate::patch::json_string(bytes) =~= seq![34u8] + bytes + seq![34u8]);
}

/// Distinct timestamp texts give distinct restart patches: every restart
/// stamped at a new time changes the pod template.
pub proof fn lemma_restart_patch_distinguishes_times(first: Seq<char>, second: Seq<char>)
    requires
        is_timestamp_text(first),
        is_timestamp_text(second),
        first != second,
    ensures
        crate::patch::restart_patch(vstd::utf8::encode_utf8(first))
            != crate::patch::restart_patch(vstd::utf8::encode_utf8(second)),
{
    lemma_restart_patch_holds_timestamp(first);
    lemma_restart_patch_holds_timestamp(second);
    let prefix = "{\"spec\":{\"template\":{\"metadata\":{\"annotations\":{".spec_bytes()
        + crate::patch::json_string(crate::patch::RESTART_ANNOTATION.spec_bytes())
        + ":".spec_bytes() + seq![34u8];
    let suffix = seq![34u8] + "}}}}}".spec_bytes();
    let a = first.map_values(|c: char| c as u8);
    let b = second.map_values(|c: char| c as u8);
    assert(crate::patch::restart_patch(vstd::utf8::encode_utf8(first)) =~= prefix + a + suffix);
    assert(crate::patch::restart_patch(vstd::utf8::encode_utf8(second)) =~= prefix + b + suffix);
    if prefix + a + suffix == prefix + b + suffix {
        assert(a.len() == b.len());
        assert forall|i: int| 0 <= i < first.len() implies first[i] == second[i] by {
            assert((prefix + a + suffix)[prefix.len() + i] == a[i]);
            assert((prefix + b + suffix)[prefix.len() + i] == b[i]);
            assert(is_timestamp_char(first[i]));
            assert(is_timestamp_char(second[i]));
            assert((first[i] as u8) as int == first[i] as int);
            assert((second[i] as u8) as int == second[i] as int);
        }
        assert(first =~= second);
    }
}

} // verus!
