//! The text a user is shown when a run fails.
use crate::run::{Invocation, Operation, RunError};
use vstd::prelude::*;
use vstd::string::StringExecFns;

verus! {

/// Digits of `n` in base ten as characters, most significant first.
pub open spec fn decimal_text(n: nat) -> Seq<char>
    decreases n,
{
    if n < 10 {
        seq![(48 + n) as char]
    } else {
        decimal_text(n / 10).push((48 + n % 10) as char)
    }
}

/// The integer `i` in base ten, with a leading `-` when negative.
pub open spec fn integer_text(i: int) -> Seq<char> {
    if i < 0 {
        seq!['-'] + decimal_text((-i) as nat)
    } else {
        decimal_text(i as nat)
    }
}

/// The message for `error` in a run of `invocation`, where `ca_bundle`
/// names the extra CA bundle.
pub open spec fn run_error_message(error: RunError, invocation: Invocation, ca_bundle: Seq<char>) -> Seq<char> {
    match error {
        RunError::NegativeReplicas { replicas } => "--replicas must be >= 0, got "@ + integer_text(
            replicas as int,
        ),
        RunError::ConfigUnavailable => "failed to infer Kubernetes config (in-cluster or KUBECONFIG)"@,
        RunError::CaBundleUnreadable => "failed to read CA bundle "@ + ca_bundle,
        RunError::CaBundleMalformed { .. } => "failed to parse PEM in "@ + ca_bundle,
        RunError::CaBundleEmpty => "CA bundle "@ + ca_bundle + " contains no CERTIFICATE entries"@,
        RunError::ClientUnavailable => "failed to build Kubernetes client"@,
        RunError::PatchRejected => match invocation.operation {
            Operation::Scale { .. } => "failed to patch scale for "@ + invocation.namespace@ + "/"@
                + invocation.deployment@,
            Operation::Restart => "failed to patch deployment "@ + invocation.namespace@ + "/"@
                + invocation.deployment@,
        },
        RunError::ClockUnavailable => "system time before Unix epoch"@,
        RunError::OutOfOrder => "the run received an event it was not waiting for"@,
    }
}

fn digit_text(d: u32) -> (text: &'static str)
    requires
        d < 10,
    ensures
        text@ == seq![(48 + d) as char],
{
    proof {
        reveal_strlit("0");
        reveal_strlit("1");
        reveal_strlit("2");
        reveal_strlit("3");
        reveal_strlit("4");
        reveal_strlit("5");
        reveal_strlit("6");
        reveal_strlit("7");
        reveal_strlit("8");
        reveal_strlit("9");
    }
    if d == 0 {
        "0"
    } else if d == 1 {
        "1"
    } else if d == 2 {
        "2"
    } else if d == 3 {
        "3"
    } else if d == 4 {
        "4"
    } else if d == 5 {
        "5"
    } else if d == 6 {
        "6"
    } else if d == 7 {
        "7"
    } else if d == 8 {
        "8"
    } else {
        "9"
    }
}

fn append_decimal(text: &mut String, n: u32)
    ensures
        final(text)@ == old(text)@ + decimal_text(n as nat),
    decreases n,
{
    if n >= 10 {
        append_decimal(text, n / 10);
    }
    text.append(digit_text(n % 10));
    assert(text@ =~= old(text)@ + decimal_text(n as nat));
}

fn append_integer(text: &mut String, i: i32)
    ensures
        final(text)@ == old(text)@ + integer_text(i as int),
{
    if i < 0 {
        proof {
            reveal_strlit("-");
        }
        text.append("-");
        let wide: i64 = i as i64;
        append_decimal(text, (-wide) as u32);
        assert(text@ =~= old(text)@ + integer_text(i as int));
    } else {
        append_decimal(text, i as u32);
    }
}

impl RunError {
    /// The message shown for this failure in a run of `invocation`, where
    /// `ca_bundle` names the extra CA bundle.
    pub fn message(&self, invocation: &Invocation, ca_bundle: &str) -> (text: String)
        ensures
            text@ == run_error_message(*self, *invocation, ca_bundle@),
    {
        let mut text = String::new();
        match self {
            RunError::NegativeReplicas { replicas } => {
                text.append("--replicas must be >= 0, got ");
                append_integer(&mut text, *replicas);
            },
            RunError::ConfigUnavailable => {
                text.append("failed to infer Kubernetes config (in-cluster or KUBECONFIG)");
            },
            RunError::CaBundleUnreadable => {
                text.append("failed to read CA bundle ");
                text.append(ca_bundle);
            },
            RunError::CaBundleMalformed { .. } => {
                text.append("failed to parse PEM in ");
                text.append(ca_bundle);
            },
            RunError::CaBundleEmpty => {
                text.append("CA bundle ");
                text.append(ca_bundle);
                text.append(" contains no CERTIFICATE entries");
            },
            RunError::ClientUnavailable => {
                text.append("failed to build Kubernetes client");
            },
            RunError::PatchRejected => {
                match invocation.operation {
                    Operation::Scale { .. } => text.append("failed to patch scale for "),
                    Operation::Restart => text.append("failed to patch deployment "),
                }
                text.append(invocation.namespace.as_str());
                text.append("/");
                text.append(invocation.deployment.as_str());
            },
            RunError::ClockUnavailable => {
                text.append("system time before Unix epoch");
            },
            RunError::OutOfOrder => {
                text.append("the run received an event it was not waiting for");
            },
        }
        assert(text@ =~= run_error_message(*self, *invocation, ca_bundle@));
        text
    }
}

} // verus!
