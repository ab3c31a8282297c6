//! Locating and reporting on the external viewer process: the ordered
//! fallback chain of candidate executables, and the status message strings.
//! The host tries the candidates in order; the first success wins and only
//! the final failure is surfaced.

use vstd::prelude::*;
use vstd::string::*;

verus! {

/// The candidate executables, in the order they are tried: the environment
/// override (or, without one, the relative build output path), then the
/// working-directory name, then the bare name resolved via the process
/// search path.
pub open spec fn spec_candidates(override_path: Option<Seq<char>>) -> Seq<Seq<char>> {
    let first = match override_path {
        Some(p) => p,
        None => "./chart_viewer/target/release/chart_viewer"@,
    };
    seq![first, "./chart_viewer"@, "chart_viewer"@]
}

/// Builds the ordered candidate list for the viewer executable.
pub fn viewer_candidates(override_path: Option<String>) -> (out: Vec<String>)
    ensures
        out.deep_view() == spec_candidates(
            match override_path {
                Some(p) => Some(p@),
                None => None,
            },
        ),
{
    let ghost ov = match override_path {
        Some(ref p) => Some(p@),
        None => None,
    };
    let mut out: Vec<String> = Vec::new();
    match override_path {
        Some(p) => {
            out.push(p);
        },
        None => {
            out.push("./chart_viewer/target/release/chart_viewer".to_owned());
        },
    }
    out.push("./chart_viewer".to_owned());
    out.push("chart_viewer".to_owned());
    proof {
        assert(out.deep_view() =~= spec_candidates(ov));
    }
    out
}

/// The message reported when a typed viewer launch succeeds.
pub open spec fn spec_launch_success(selector: Seq<char>) -> Seq<char> {
    selector + " chart viewer launched"@
}

/// Builds the success message for a typed viewer launch.
pub fn launch_success_message(selector: &str) -> (m: String)
    ensures
        m@ == spec_launch_success(selector@),
{
    let mut m = selector.to_owned();
    m.append(" chart viewer launched");
    m
}

/// The message reported when every candidate fails for a typed launch.
pub open spec fn spec_launch_failure(selector: Seq<char>, err: Seq<char>) -> Seq<char> {
    "Failed to launch "@ + selector + " viewer: "@ + err
        + ". Set CHART_VIEWER_PATH environment variable."@
}

/// Builds the failure message for a typed viewer launch, from the error
/// text of the last candidate.
pub fn launch_failure_message(selector: &str, err: &str) -> (m: String)
    ensures
        m@ == spec_launch_failure(selector@, err@),
{
    let mut m = "Failed to launch ".to_owned();
    m.append(selector);
    m.append(" viewer: ");
    m.append(err);
    m.append(". Set CHART_VIEWER_PATH environment variable.");
    proof {
        assert(m@ =~= spec_launch_failure(selector@, err@));
    }
    m
}

/// The message reported when the untyped legacy launch succeeds.
pub open spec fn spec_legacy_success() -> Seq<char> {
    "Chart viewer launched"@
}

/// Builds the legacy success message.
pub fn legacy_success_message() -> (m: String)
    ensures
        m@ == spec_legacy_success(),
{
    "Chart viewer launched".to_owned()
}

/// The message reported when every candidate fails for the legacy launch.
pub open spec fn spec_legacy_failure(err: Seq<char>) -> Seq<char> {
    "Failed to launch chart viewer: "@ + err + ". Set CHART_VIEWER_PATH environment variable."@
}

/// Builds the legacy failure message from the error text of the last
/// candidate.
pub fn legacy_failure_message(err: &str) -> (m: String)
    ensures
        m@ == spec_legacy_failure(err@),
{
    let mut m = "Failed to launch chart viewer: ".to_owned();
    m.append(err);
    m.append(". Set CHART_VIEWER_PATH environment variable.");
    proof {
        assert(m@ =~= spec_legacy_failure(err@));
    }
    m
}

} // verus!
