//! The decisions behind the request handlers: symbol normalization, the
//! admission check of the synchronous test path, and the exact texts of the
//! JSON responses.  The handlers themselves (HTTP, files, threads) live
//! outside the library and only hand plain values in and out.

use vstd::prelude::*;

verus! {

/// A response body: a status word ("success" or "error") and a
/// human-readable message.
#[derive(Clone, Debug)]
pub struct GenericResponse {
    pub status: String,
    pub message: String,
}

/// What `str::to_uppercase` returns: a function of the characters alone.
pub uninterp spec fn spec_uppercase(s: Seq<char>) -> Seq<char>;

/// Relies on `str::to_uppercase`: the uppercase equivalent of the string,
/// which depends on its characters alone; an empty string stays empty.
#[verifier::external_body]
fn to_uppercase(s: &str) -> (r: String)
    ensures
        r@ == spec_uppercase(s@),
        s@.len() == 0 ==> r@.len() == 0,
{
    s.to_uppercase()
}

/// Case-normalize a market symbol to uppercase, as every handler does before
/// using it.  Interval strings are passed through unchanged by the handlers.
pub fn normalize_symbol(symbol: &str) -> (normalized: String)
    ensures
        normalized@ == spec_uppercase(symbol@),
{
    to_uppercase(symbol)
}

/// The fixed health-check response.
pub fn health_check_response() -> (r: GenericResponse)
    ensures
        r.status@ == "success"@,
        r.message@ == "Build Simple CRUD API with Rust and Rocket"@,
{
    GenericResponse {
        status: String::from_str("success"),
        message: String::from_str("Build Simple CRUD API with Rust and Rocket"),
    }
}

/// The admission decision of the synchronous test path: when a test run is
/// already in flight the request is rejected with an error response, and
/// otherwise it is admitted (`None`) -- the caller must claim the testing
/// state in the same atomic step that read it, or accept the advisory race.
pub fn admit_test(is_testing: bool) -> (rejection: Option<GenericResponse>)
    ensures
        is_testing <==> rejection is Some,
        match rejection {
            Some(r) => r.status@ == "error"@ && r.message@ == "Strategy is already testing"@,
            None => true,
        },
{
    if is_testing {
        Some(
            GenericResponse {
                status: String::from_str("error"),
                message: String::from_str("Strategy is already testing"),
            },
        )
    } else {
        None
    }
}

/// The error response of a test request whose symbol/interval pair has no
/// cached candle data yet.
pub fn missing_data_response(symbol: &str, interval: &str) -> (r: GenericResponse)
    ensures
        r.status@ == "error"@,
        r.message@ == "There is no data. Download the corresponding data before. You sent "@
            + symbol@ + " - "@ + interval@,
{
    let mut message = String::from_str(
        "There is no data. Download the corresponding data before. You sent ",
    );
    message.append(symbol);
    message.append(" - ");
    message.append(interval);
    proof {
        assert(message@ =~= "There is no data. Download the corresponding data before. You sent "@
            + symbol@ + " - "@ + interval@);
    }
    GenericResponse { status: String::from_str("error"), message }
}

/// The success response of a finished test run.
pub fn test_success_response(symbol: &str, interval: &str) -> (r: GenericResponse)
    ensures
        r.status@ == "success"@,
        r.message@ == "Strategy tested for "@ + symbol@ + " - "@ + interval@,
{
    let mut message = String::from_str("Strategy tested for ");
    message.append(symbol);
    message.append(" - ");
    message.append(interval);
    proof {
        assert(message@ =~= "Strategy tested for "@ + symbol@ + " - "@ + interval@);
    }
    GenericResponse { status: String::from_str("success"), message }
}

/// The response of a download request.  A download request is always
/// accepted; when a download is already in flight the message only says the
/// new one is queued behind it.
pub fn download_response(already_downloading: bool, symbol: &str, interval: &str) -> (r:
    GenericResponse)
    ensures
        r.status@ == "success"@,
        already_downloading ==> r.message@ == "Already downloading datas. Queuing : "@ + symbol@
            + "-"@ + interval@,
        !already_downloading ==> r.message@ == "Downloading kline datas : "@ + symbol@ + "-"@
            + interval@,
{
    let mut message = if already_downloading {
        String::from_str("Already downloading datas. Queuing : ")
    } else {
        String::from_str("Downloading kline datas : ")
    };
    message.append(symbol);
    message.append("-");
    message.append(interval);
    proof {
        if already_downloading {
            assert(message@ =~= "Already downloading datas. Queuing : "@ + symbol@ + "-"@
                + interval@);
        } else {
            assert(message@ =~= "Downloading kline datas : "@ + symbol@ + "-"@ + interval@);
        }
    }
    GenericResponse { status: String::from_str("success"), message }
}

} // verus!
