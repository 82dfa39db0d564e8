//! What it takes to reach a local `lomord`: the health URL, the judgement of
//! a health probe, and the order in which the server binary is searched for.

use vstd::prelude::*;

use crate::text::{
    decimal, is_decimal_digit, join_path, joined_path, lemma_decimal_is_base_ten, lemma_joined_path, numeral_value,
    push_decimal,
};

verus! {

/// The TCP port on which `lomord` serves its HTTP API.
pub const DEFAULT_LOMOR_PORT: u16 = 8080;

/// Name of the server binary looked up on `PATH`.
pub const LOMORD_BINARY_NAME: &'static str = "lomord";

// ── Health URL ─────────────────────────────────────────────────────────────

/// `http://localhost:{port}/health`.
pub open spec fn health_url_spec(port: nat) -> Seq<char> {
    "http://localhost:"@ + decimal(port) + "/health"@
}

/// The URL of the health endpoint of a server listening on `port` of the
/// loopback interface.
pub fn health_url(port: u16) -> (url: String)
    ensures
        url@ == health_url_spec(port as nat),
{
    let mut url = String::from_str("http://localhost:");
    push_decimal(&mut url, port as u32);
    url.append("/health");
    url
}

/// The health URL names the loopback host `localhost`, then the port as a
/// base-10 numeral that reads back as `port`, then the path `/health`.
pub proof fn lemma_health_url_names_port(port: nat)
    ensures
        health_url_spec(port).take(17) == seq!['h', 't', 't', 'p', ':', '/', '/', 'l', 'o', 'c', 'a', 'l', 'h', 'o', 's', 't', ':'],
        health_url_spec(port).skip(health_url_spec(port).len() - 7) == seq!['/', 'h', 'e', 'a', 'l', 't', 'h'],
        health_url_spec(port).len() >= 25,
        numeral_value(health_url_spec(port).subrange(17, health_url_spec(port).len() - 7)) == port,
        forall|i: int|
            17 <= i < health_url_spec(port).len() - 7 ==> is_decimal_digit(#[trigger] health_url_spec(port)[i]),
{
    reveal_strlit("http://localhost:");
    reveal_strlit("/health");
    lemma_decimal_is_base_ten(port);
    let u = health_url_spec(port);
    let digits = decimal(port);
    assert(u.take(17) =~= "http://localhost:"@);
    assert(u.skip(u.len() - 7) =~= "/health"@);
    assert(u.subrange(17, u.len() - 7) =~= digits);
    assert forall|i: int| 17 <= i < u.len() - 7 implies is_decimal_digit(#[trigger] u[i]) by {
        assert(u[i] == digits[i - 17]);
    }
}

/// Whether `GET /health` counts as passed: a response arrived (`Some`) and
/// its status is in the 2xx range.
pub open spec fn probe_passed_spec(status: Option<u16>) -> bool {
    match status {
        Some(code) => 200 <= code < 300,
        None => false,
    }
}

/// Calls `http::StatusCode::from_u16` (re-exported by `reqwest`) and then
/// `StatusCode::is_success`. The source of `is_success` is
/// `(200..300).contains(&code)`; `from_u16` accepts exactly `100..=999`, which
/// `requires` demands, so the error arm is never taken.
#[verifier::external_body]
fn status_is_success(code: u16) -> (success: bool)
    requires
        100 <= code <= 999,
    ensures
        success == (200 <= code < 300),
{
    match reqwest::StatusCode::from_u16(code) {
        Ok(status) => status.is_success(),
        Err(_) => false,
    }
}

/// A probe passes exactly on a response whose status is in 200..=299; no
/// response never passes.
pub proof fn lemma_probe_passes_exactly_on_2xx(code: u16)
    ensures
        probe_passed_spec(Some(code)) <==> (200 <= code && code <= 299),
        !probe_passed_spec(None),
{
}

/// Judges the outcome of one health probe: `None` when no response came
/// (the client could not be built or the request failed), otherwise the
/// response's status code.
pub fn probe_passed(status: Option<u16>) -> (passed: bool)
    ensures
        passed == probe_passed_spec(status),
        passed <==> (status matches Some(code) && 200 <= code && code <= 299),
{
    match status {
        Some(code) => {
            if 100 <= code && code <= 999 {
                status_is_success(code)
            } else {
                false
            }
        },
        None => false,
    }
}

// ── Locating the binary ────────────────────────────────────────────────────

/// The places searched after `PATH`, relative to the home directory: the
/// user-level install, then the development build.
pub open spec fn home_candidates_spec(home: Seq<char>) -> Seq<Seq<char>> {
    seq![
        joined_path(home, ".local/bin/lomord"@),
        joined_path(home, "projects/lomor/target/release/lomord"@),
    ]
}

/// The search under the home directory looks first at the user-level
/// install `.local/bin/lomord`, then at the development build
/// `projects/lomor/target/release/lomord`, both inside `home`.
pub proof fn lemma_home_search_order(home: Seq<char>)
    ensures
        home_candidates_spec(home).len() == 2,
        home_candidates_spec(home)[0].take(home.len() as int) == home,
        home_candidates_spec(home)[1].take(home.len() as int) == home,
        home_candidates_spec(home)[0].skip(home_candidates_spec(home)[0].len() - 17) == ".local/bin/lomord"@,
        home_candidates_spec(home)[1].skip(home_candidates_spec(home)[1].len() - 36)
            == "projects/lomor/target/release/lomord"@,
{
    reveal_strlit(".local/bin/lomord");
    reveal_strlit("projects/lomor/target/release/lomord");
    lemma_joined_path(home, ".local/bin/lomord"@);
    lemma_joined_path(home, "projects/lomor/target/release/lomord"@);
}

/// The candidate paths under the home directory, in search order; none when
/// the home directory is unknown.
pub fn home_candidates(home: Option<&str>) -> (candidates: Vec<String>)
    ensures
        candidates@.len() == (if home is Some { 2int } else { 0int }),
        home matches Some(h) ==> forall|i: int|
            0 <= i < 2 ==> #[trigger] candidates@[i]@ == home_candidates_spec(h@)[i],
{
    let mut candidates: Vec<String> = Vec::new();
    match home {
        Some(h) => {
            proof {
                reveal_strlit(".local/bin/lomord");
                reveal_strlit("projects/lomor/target/release/lomord");
            }
            candidates.push(join_path(h, ".local/bin/lomord"));
            candidates.push(join_path(h, "projects/lomor/target/release/lomord"));
        },
        None => {},
    }
    candidates
}

/// Index of the first present candidate at or after `from`, if any.
pub open spec fn first_present(present: Seq<bool>, from: int) -> Option<int>
    decreases present.len() - from,
{
    if from < 0 || from >= present.len() {
        None
    } else if present[from] {
        Some(from)
    } else {
        first_present(present, from + 1)
    }
}

/// `first_present` is the index of the first present entry: it is present
/// and every entry before it is absent; it is `None` exactly when no entry is
/// present.
pub proof fn lemma_first_present_is_first(present: Seq<bool>)
    ensures
        first_present(present, 0) matches Some(i) ==> 0 <= i < present.len() && present[i] && forall|j: int|
            0 <= j < i ==> !present[j],
        first_present(present, 0) is None <==> forall|j: int| 0 <= j < present.len() ==> !present[j],
{
    lemma_first_present_from(present, 0);
}

proof fn lemma_first_present_from(present: Seq<bool>, from: int)
    requires
        0 <= from <= present.len(),
    ensures
        first_present(present, from) matches Some(i) ==> from <= i < present.len() && present[i] && forall|j: int|
            from <= j < i ==> !present[j],
        first_present(present, from) is None <==> forall|j: int| from <= j < present.len() ==> !present[j],
    decreases present.len() - from,
{
    if from < present.len() {
        lemma_first_present_from(present, from + 1);
    }
}

/// Picks the server binary: the one found on `PATH` if any, otherwise the
/// first candidate (in search order) that exists on disk; `present[i]` says
/// whether `candidates[i]` exists.
pub fn choose_lomord_binary(on_path: Option<String>, candidates: Vec<String>, present: Vec<bool>) -> (binary: Option<String>)
    requires
        candidates@.len() == present@.len(),
    ensures
        on_path is Some ==> binary == on_path,
        on_path is None ==> match first_present(present@, 0) {
            Some(i) => binary == Some(candidates@[i]),
            None => binary is None,
        },
        on_path is None ==> (binary is None <==> forall|j: int| 0 <= j < present@.len() ==> !present@[j]),
        on_path is None && binary is Some ==> exists|i: int|
            0 <= i < present@.len() && present@[i] && binary == Some(candidates@[i]) && forall|j: int|
                0 <= j < i ==> !present@[j],
{
    proof {
        lemma_first_present_is_first(present@);
    }
    if on_path.is_some() {
        return on_path;
    }
    let n = present.len();
    let mut i: usize = 0;
    while i < n
        invariant
            n == present@.len(),
            candidates@.len() == n,
            i <= n,
            on_path is None,
            first_present(present@, 0) == first_present(present@, i as int),
        decreases n - i,
    {
        if present[i] {
            assert(first_present(present@, i as int) == Some(i as int));
            proof {
                lemma_first_present_is_first(present@);
            }
            assert(forall|j: int| 0 <= j < i ==> !present@[j]);
            let chosen = candidates[i].clone();
            assert(present@[i as int] && Some(chosen) == Some(candidates@[i as int]));
            return Some(chosen);
        }
        assert(first_present(present@, i as int) == first_present(present@, i + 1));
        i = i + 1;
    }
    assert(first_present(present@, n as int) is None);
    None
}

} // verus!
