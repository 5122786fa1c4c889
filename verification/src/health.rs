//! Readiness of the local service: where it listens and what its answers mean.

use vstd::prelude::*;
use vstd::utf8::{decode_utf8, valid_utf8};

use crate::json::{json_text, Document};
use crate::text::{
    join2, lines, lines_spec, option_is, same, split_once, split_once_spec, trim, trim_spec,
    view_option, views,
};
use crate::wording::{splitting_once, the_first_separator};

verus! {

broadcast use vstd::string::group_string_axioms;

/// Largest answer of a health endpoint.
pub const MAX_HEALTH_BYTES: usize = 65536;

/// Why the service does not count as ready.
#[derive(Clone, Copy, Debug, PartialEq, Eq, Structural)]
pub enum HealthError {
    NotOk,
    WrongVersion,
    NotReady,
    NotLocal,
    TooLarge,
    InvalidJson,
    EnvironmentNotUtf8,
    DuplicateBind,
    InvalidBind,
    NotLoopback,
}

/// The text of each reason.
pub open spec fn health_error_text(e: HealthError) -> Seq<char> {
    match e {
        HealthError::NotOk => "health endpoint did not report ok"@,
        HealthError::WrongVersion => "health endpoint reported the wrong application version"@,
        HealthError::NotReady => "readiness endpoint is not ready"@,
        HealthError::NotLocal => "health request escaped the fixed loopback policy"@,
        HealthError::TooLarge => "health response exceeded its size limit"@,
        HealthError::InvalidJson => "health endpoint returned invalid JSON"@,
        HealthError::EnvironmentNotUtf8 => "Vexa-VM environment is not UTF-8"@,
        HealthError::DuplicateBind =>
            "VEXA_BIND is duplicated in the root-owned environment"@,
        HealthError::InvalidBind => "VEXA_BIND is not a socket address"@,
        HealthError::NotLoopback =>
            "the update executor requires VEXA_BIND to use a loopback address"@,
    }
}

impl HealthError {
    /// The text shown to an operator.
    pub fn message(&self) -> (r: &'static str)
        ensures
            r@ == health_error_text(*self),
    {
        match self {
            HealthError::NotOk => "health endpoint did not report ok",
            HealthError::WrongVersion => "health endpoint reported the wrong application version",
            HealthError::NotReady => "readiness endpoint is not ready",
            HealthError::NotLocal => "health request escaped the fixed loopback policy",
            HealthError::TooLarge => "health response exceeded its size limit",
            HealthError::InvalidJson => "health endpoint returned invalid JSON",
            HealthError::EnvironmentNotUtf8 => "Vexa-VM environment is not UTF-8",
            HealthError::DuplicateBind =>
                "VEXA_BIND is duplicated in the root-owned environment",
            HealthError::InvalidBind => "VEXA_BIND is not a socket address",
            HealthError::NotLoopback =>
                "the update executor requires VEXA_BIND to use a loopback address",
        }
    }
}

/// The verdict on what the health endpoint reports.
pub open spec fn health_verdict(
    ok: Option<bool>,
    version: Option<Seq<char>>,
    expected: Option<Seq<char>>,
) -> Result<(), HealthError> {
    if ok != Some(true) {
        Err(HealthError::NotOk)
    } else if expected matches Some(e) && version != Some(e) {
        Err(HealthError::WrongVersion)
    } else {
        Ok(())
    }
}

/// Judges what the health endpoint reports: it is ok, and in the expected version where one
/// is expected.
pub fn judge_health(ok: Option<bool>, version: &Option<String>, expected: &Option<String>) -> (r:
    Result<(), HealthError>)
    ensures
        r == health_verdict(ok, view_option(*version), view_option(*expected)),
{
    let reported = match ok {
        Some(b) => b,
        None => false,
    };
    if !reported {
        return Err(HealthError::NotOk);
    }
    match expected {
        Some(e) => {
            if !option_is(version, e.as_str()) {
                return Err(HealthError::WrongVersion);
            }
        },
        None => {},
    }
    Ok(())
}

/// Judges the answer of the health endpoint.
pub fn check_health_once(body: &[u8], expected: &Option<String>) -> (r: Result<(), HealthError>)
    ensures
        r == match json_text(body@) {
            None => Err::<(), HealthError>(HealthError::InvalidJson),
            Some(j) => health_verdict(
                j.truth_member("ok"@),
                j.text_member("version"@),
                view_option(*expected),
            ),
        },
{
    match Document::parse(body) {
        None => Err(HealthError::InvalidJson),
        Some(d) => judge_health(d.truth_member("ok"), &d.text_member("version"), expected),
    }
}

/// Judges the answer of the readiness endpoint.
pub fn check_ready(body: &[u8]) -> (r: Result<(), HealthError>)
    ensures
        r == match json_text(body@) {
            None => Err::<(), HealthError>(HealthError::InvalidJson),
            Some(j) => if j.truth_member("ready"@) == Some(true) {
                Ok::<(), HealthError>(())
            } else {
                Err::<(), HealthError>(HealthError::NotReady)
            },
        },
{
    match Document::parse(body) {
        None => Err(HealthError::InvalidJson),
        Some(d) => {
            let ready = match d.truth_member("ready") {
                Some(b) => b,
                None => false,
            };
            if ready {
                Ok(())
            } else {
                Err(HealthError::NotReady)
            }
        },
    }
}

/// Whether a health request stays within its fixed targets.
pub fn fetch_local_json(path: &str, loopback: bool) -> (r: Result<(), HealthError>)
    ensures
        r == (if (path@ == "/healthz"@ || path@ == "/readyz"@) && loopback {
            Ok::<(), HealthError>(())
        } else {
            Err::<(), HealthError>(HealthError::NotLocal)
        }),
{
    if !(same(path, "/healthz") || same(path, "/readyz")) || !loopback {
        return Err(HealthError::NotLocal);
    }
    Ok(())
}

/// Whether the body of an answer may grow by another chunk.
pub fn check_body_growth(so_far: usize, chunk: usize) -> (r: Result<(), HealthError>)
    ensures
        r == (if so_far + chunk > MAX_HEALTH_BYTES {
            Err::<(), HealthError>(HealthError::TooLarge)
        } else {
            Ok::<(), HealthError>(())
        }),
{
    if so_far > MAX_HEALTH_BYTES || chunk > MAX_HEALTH_BYTES - so_far {
        return Err(HealthError::TooLarge);
    }
    Ok(())
}

/// The value that a line of the environment file gives to VEXA_BIND.
pub open spec fn bind_line(line: Seq<char>) -> Option<Seq<char>> {
    let text = trim_spec(line);
    if text.len() == 0 || text[0] == '#' {
        None
    } else {
        match split_once_spec(text, '=') {
            Some((name, value)) => if name == "VEXA_BIND"@ {
                Some(value)
            } else {
                None
            },
            None => None,
        }
    }
}

/// The value that the lines of the environment file give to VEXA_BIND.
pub open spec fn bind_lines(lines: Seq<Seq<char>>) -> Result<Option<Seq<char>>, HealthError>
    decreases lines.len(),
{
    if lines.len() == 0 {
        Ok(None)
    } else {
        match bind_lines(lines.drop_last()) {
            Err(e) => Err(e),
            Ok(front) => match bind_line(lines.last()) {
                None => Ok(front),
                Some(value) => if front is Some {
                    Err(HealthError::DuplicateBind)
                } else {
                    Ok(Some(value))
                },
            },
        }
    }
}

/// The address that the environment file sets, or the default.
pub open spec fn bind_setting(contents: Seq<u8>) -> Result<Seq<char>, HealthError> {
    if !valid_utf8(contents) {
        Err(HealthError::EnvironmentNotUtf8)
    } else {
        match bind_lines(lines_spec(decode_utf8(contents))) {
            Err(e) => Err(e),
            Ok(Some(value)) => Ok(value),
            Ok(None) => Ok("127.0.0.1:8080"@),
        }
    }
}

fn read_bind_line(line: &str) -> (r: Option<String>)
    ensures
        view_option(r) == bind_line(line@),
{
    let text = trim(line);
    let t = text.as_str();
    if t.unicode_len() == 0 || t.get_char(0) == '#' {
        return None;
    }
    match split_once(t, '=') {
        Some((name, value)) => {
            if same(name.as_str(), "VEXA_BIND") {
                Some(value)
            } else {
                None
            }
        },
        None => None,
    }
}

proof fn duplicate_stays(lines: Seq<Seq<char>>, n: int)
    requires
        0 <= n <= lines.len(),
        bind_lines(lines.take(n)) is Err,
    ensures
        bind_lines(lines) == bind_lines(lines.take(n)),
    decreases lines.len(),
{
    if n < lines.len() {
        assert(lines.drop_last().take(n) =~= lines.take(n));
        duplicate_stays(lines.drop_last(), n);
    } else {
        assert(lines.take(n) =~= lines);
    }
}

/// The address that the environment file sets, or the default.
#[verifier::loop_isolation(false)]
pub fn read_loopback_bind_address(contents: &[u8]) -> (r: Result<String, HealthError>)
    ensures
        match r {
            Ok(bind) => bind_setting(contents@) == Ok::<Seq<char>, HealthError>(bind@),
            Err(e) => bind_setting(contents@) == Err::<Seq<char>, HealthError>(e),
        },
{
    let text = match core::str::from_utf8(contents) {
        Ok(text) => text,
        Err(_) => {
            return Err(HealthError::EnvironmentNotUtf8);
        },
    };
    let all = lines(text);
    let ghost ls = views(all@);
    let mut bind: Option<String> = None;
    let mut i: usize = 0;
    proof {
        assert(ls.take(0) =~= Seq::<Seq<char>>::empty());
    }
    while i < all.len()
        invariant
            i <= all@.len(),
            bind_lines(ls.take(i as int)) == Ok::<Option<Seq<char>>, HealthError>(
                view_option(bind),
            ),
        decreases all@.len() - i,
    {
        proof {
            assert(ls.take(i as int + 1).drop_last() =~= ls.take(i as int));
            assert(ls.take(i as int + 1).last() == all@[i as int]@);
        }
        match read_bind_line(all[i].as_str()) {
            None => {},
            Some(value) => {
                if bind.is_some() {
                    proof {
                        duplicate_stays(ls, i as int + 1);
                    }
                    return Err(HealthError::DuplicateBind);
                }
                bind = Some(value);
            },
        }
        i = i + 1;
    }
    proof {
        assert(ls.take(ls.len() as int) =~= ls);
    }
    match bind {
        Some(value) => Ok(value),
        None => Ok("127.0.0.1:8080".to_owned()),
    }
}

/// Judges the address that the service listens on: `loopback` is nothing where the text
/// is no socket address.
pub fn check_bind(loopback: Option<bool>) -> (r: Result<(), HealthError>)
    ensures
        r == match loopback {
            None => Err::<(), HealthError>(HealthError::InvalidBind),
            Some(false) => Err::<(), HealthError>(HealthError::NotLoopback),
            Some(true) => Ok::<(), HealthError>(()),
        },
{
    match loopback {
        None => Err(HealthError::InvalidBind),
        Some(b) => {
            if b {
                Ok(())
            } else {
                Err(HealthError::NotLoopback)
            }
        },
    }
}

/// What to do next while the service is waited for.
pub enum HealthStep {
    /// The service is ready.
    Ready,
    /// Ask the service, then wait.
    Ask,
    /// The time is over.
    TimedOut(String),
}

/// The wait for the service, with what was wrong last.
pub struct HealthWait {
    pub last_error: String,
}

impl HealthWait {
    /// A wait in which nothing was heard yet.
    pub fn begin() -> (r: HealthWait)
        ensures
            r.last_error@ == "service did not answer"@,
    {
        HealthWait { last_error: "service did not answer".to_owned() }
    }

    /// Takes the last answer, where one came, and decides how to go on: the service is
    /// asked again as long as there is time and it is not ready.
    pub fn wait_for_health(&mut self, answer: Option<Result<(), String>>, time_left: bool) -> (r:
        HealthStep)
        ensures
            final(self).last_error@ == (match answer {
                Some(Err(text)) => text@,
                _ => old(self).last_error@,
            }),
            r is Ready <==> answer matches Some(Ok(_)),
            r is Ask <==> !(answer matches Some(Ok(_))) && time_left,
            r matches HealthStep::TimedOut(text) ==> text@ == "service readiness timed out: "@
                + final(self).last_error@,
    {
        match answer {
            Some(Ok(_)) => {
                return HealthStep::Ready;
            },
            Some(Err(text)) => {
                self.last_error = text;
            },
            None => {},
        }
        if time_left {
            return HealthStep::Ask;
        }
        HealthStep::TimedOut(
            join2("service readiness timed out: ", self.last_error.as_str()),
        )
    }
}

/// An answer counts as healthy exactly where it says so and names the version that is
/// expected, if one is.
pub proof fn what_is_healthy(
    ok: Option<bool>,
    version: Option<Seq<char>>,
    expected: Option<Seq<char>>,
)
    ensures
        health_verdict(ok, version, expected) is Ok <==> ok == Some(true) && (expected is None
            || version == expected),
        health_verdict(ok, version, expected) == Err::<(), HealthError>(HealthError::NotOk) <==> ok
            != Some(true),
{
}

/// A line sets the address exactly where, without surrounding white space, it is the name of
/// the setting, an equals sign and the address.
pub proof fn a_line_that_sets_the_address(line: Seq<char>, value: Seq<char>)
    ensures
        bind_line(line) == Some(value) <==> trim_spec(line) == "VEXA_BIND="@ + value,
{
    let text = trim_spec(line);
    let name = "VEXA_BIND"@;
    reveal_strlit("VEXA_BIND=");
    reveal_strlit("VEXA_BIND");
    assert("VEXA_BIND="@ =~= name.push('='));
    splitting_once(text, '=');
    if text == "VEXA_BIND="@ + value {
        assert(!name.contains('='));
        assert(text == name.push('=') + value);
        the_first_separator(name, '=', value);
        assert(text[0] == name[0]);
    }
}

/// Some line sets the address.
pub open spec fn sets_address(lines: Seq<Seq<char>>, k: int, value: Seq<char>) -> bool {
    0 <= k < lines.len() && trim_spec(lines[k]) == "VEXA_BIND="@ + value
}

/// The address is that of the one line that sets it; two such lines are refused, and without
/// any nothing is set.
pub proof fn one_line_sets_the_address(lines: Seq<Seq<char>>)
    ensures
        bind_lines(lines) is Err <==> exists|j: int, k: int, v: Seq<char>, w: Seq<char>|
            j < k && #[trigger] sets_address(lines, j, v) && #[trigger] sets_address(lines, k, w),
        bind_lines(lines) is Err ==> bind_lines(lines) == Err::<Option<Seq<char>>, HealthError>(
            HealthError::DuplicateBind,
        ),
        bind_lines(lines) matches Ok(Some(v)) ==> exists|k: int| #[trigger]
            sets_address(lines, k, v),
        bind_lines(lines) == Ok::<Option<Seq<char>>, HealthError>(None) ==> forall|
            k: int,
            v: Seq<char>,
        | !#[trigger] sets_address(lines, k, v),
    decreases lines.len(),
{
    if lines.len() > 0 {
        let front = lines.drop_last();
        let n = lines.len() - 1;
        one_line_sets_the_address(front);
        assert(lines[n] == lines.last());
        assert forall|k: int, v: Seq<char>| k < n implies (#[trigger] sets_address(lines, k, v)
            <==> sets_address(front, k, v)) by {
            if 0 <= k < n {
                assert(front[k] == lines[k]);
            }
        }
        assert forall|v: Seq<char>| #[trigger]
            sets_address(lines, n, v) <==> bind_line(lines.last()) == Some(v) by {
            a_line_that_sets_the_address(lines.last(), v);
        }
        if bind_lines(front) is Err {
            let (j, k, v, w) = choose|j: int, k: int, v: Seq<char>, w: Seq<char>|
                j < k && #[trigger] sets_address(front, j, v) && #[trigger] sets_address(
                    front,
                    k,
                    w,
                );
            assert(sets_address(lines, j, v) && sets_address(lines, k, w));
        } else {
            if bind_lines(front)->Ok_0 is Some {
                let v = bind_lines(front)->Ok_0->0;
                let k = choose|k: int| #[trigger] sets_address(front, k, v);
                assert(sets_address(lines, k, v));
                if bind_line(lines.last()) is Some {
                    assert(sets_address(lines, n, bind_line(lines.last())->0));
                }
            } else if bind_line(lines.last()) is Some {
                assert(sets_address(lines, n, bind_line(lines.last())->0));
            }
            if exists|j: int, k: int, v: Seq<char>, w: Seq<char>|
                j < k && #[trigger] sets_address(lines, j, v) && #[trigger] sets_address(
                    lines,
                    k,
                    w,
                ) {
                let (j, k, v, w) = choose|j: int, k: int, v: Seq<char>, w: Seq<char>|
                    j < k && #[trigger] sets_address(lines, j, v) && #[trigger] sets_address(
                        lines,
                        k,
                        w,
                    );
                assert(sets_address(front, j, v));
                if k < n {
                    assert(sets_address(front, k, w));
                }
            }
        }
    }
}

/// Where nothing is set, the service listens on the loopback address, port 8080.
pub proof fn the_address_without_a_setting(contents: Seq<u8>)
    requires
        valid_utf8(contents),
        forall|k: int, v: Seq<char>|
            !#[trigger] sets_address(lines_spec(decode_utf8(contents)), k, v),
    ensures
        bind_setting(contents) == Ok::<Seq<char>, HealthError>("127.0.0.1:8080"@),
{
    one_line_sets_the_address(lines_spec(decode_utf8(contents)));
}

} // verus!
