//! Why the canonical encoding tells manifests apart.
//!
//! The hash of a manifest is recorded so that it can later be shown which
//! manifest produced a verdict. What is hashed is the canonical encoding, so two
//! manifests must not share one. They do not: read from the front, every part of
//! an encoding says where it ends.

use vstd::prelude::*;

use crate::problem_format::Visibility;
use crate::protocol::{
    json_bool, json_char, json_chars, json_count, json_member, json_outcomes, json_string,
    visibility_text, ResultManifestView, TestOutcomeView,
};
use crate::text::dec;
use crate::verdict::Verdict;

verus! {

// ---------------------------------------------------------------------------
// Parts
// ---------------------------------------------------------------------------

proof fn lemma_assoc(a: Seq<char>, b: Seq<char>, c: Seq<char>)
    ensures
        (a + b) + c == a + (b + c),
{
    assert((a + b) + c == a + (b + c));
}

proof fn lemma_regroup(
    a: Seq<char>,
    b: Seq<char>,
    c: Seq<char>,
    d: Seq<char>,
    e: Seq<char>,
    f: Seq<char>,
    rest: Seq<char>,
)
    ensures
        (a + b + c + d + e + f) + rest == a + (b + (c + (d + (e + (f + rest))))),
{
    lemma_assoc(a + b + c + d + e, f, rest);
    lemma_assoc(a + b + c + d, e, f + rest);
    lemma_assoc(a + b + c, d, e + (f + rest));
    lemma_assoc(a + b, c, d + (e + (f + rest)));
    lemma_assoc(a, b, c + (d + (e + (f + rest))));
}

proof fn lemma_cut(head: Seq<char>, a: Seq<char>, b: Seq<char>)
    requires
        head + a == head + b,
    ensures
        a == b,
{
    assert((head + a).skip(head.len() as int) == a);
    assert((head + b).skip(head.len() as int) == b);
}

proof fn lemma_cut_char(c: char, d: char, a: Seq<char>, b: Seq<char>)
    requires
        json_char(c) + a == json_char(d) + b,
    ensures
        c == d,
        a == b,
{
    let x = json_char(c) + a;
    let y = json_char(d) + b;
    assert(x[0] == json_char(c)[0]);
    assert(y[0] == json_char(d)[0]);
    if json_char(c)[0] == '\\' {
        assert(x[1] == json_char(c)[1]);
        assert(y[1] == json_char(d)[1]);
        if json_char(c)[1] == 'u' {
            assert(x[4] == json_char(c)[4] && x[5] == json_char(c)[5]);
            assert(y[4] == json_char(d)[4] && y[5] == json_char(d)[5]);
        }
    }
    assert(c == d);
    lemma_cut(json_char(c), a, b);
}

proof fn lemma_cut_chars(s: Seq<char>, t: Seq<char>, a: Seq<char>, b: Seq<char>)
    requires
        json_chars(s) + (seq!['"'] + a) == json_chars(t) + (seq!['"'] + b),
    ensures
        s == t,
        a == b,
    decreases s.len(),
{
    let x = json_chars(s) + (seq!['"'] + a);
    let y = json_chars(t) + (seq!['"'] + b);
    if s.len() == 0 {
        assert(x[0] == '"');
        if t.len() > 0 {
            assert(y[0] == json_char(t[0])[0]);
        }
        assert(s == t);
        lemma_cut(seq!['"'], a, b);
        assert(x == seq!['"'] + a);
        assert(y == seq!['"'] + b);
    } else if t.len() == 0 {
        assert(y[0] == '"');
        assert(x[0] == json_char(s[0])[0]);
    } else {
        let rest_s = json_chars(s.drop_first()) + (seq!['"'] + a);
        let rest_t = json_chars(t.drop_first()) + (seq!['"'] + b);
        assert(x == json_char(s[0]) + rest_s);
        assert(y == json_char(t[0]) + rest_t);
        lemma_cut_char(s[0], t[0], rest_s, rest_t);
        lemma_cut_chars(s.drop_first(), t.drop_first(), a, b);
        assert(s == seq![s[0]] + s.drop_first());
        assert(t == seq![t[0]] + t.drop_first());
    }
}

/// A JSON string literal says where it ends, and which string it is.
pub proof fn string_literals_end_where_they_end(
    s: Seq<char>,
    t: Seq<char>,
    a: Seq<char>,
    b: Seq<char>,
)
    requires
        json_string(s) + a == json_string(t) + b,
    ensures
        s == t,
        a == b,
{
    let x = json_chars(s) + (seq!['"'] + a);
    let y = json_chars(t) + (seq!['"'] + b);
    assert(json_string(s) + a == seq!['"'] + x);
    assert(json_string(t) + b == seq!['"'] + y);
    lemma_cut(seq!['"'], x, y);
    lemma_cut_chars(s, t, a, b);
}

spec fn after_number(rest: Seq<char>) -> bool {
    rest.len() > 0 && !('0' <= rest[0] && rest[0] <= '9')
}

proof fn lemma_cut_dec(m: nat, n: nat, a: Seq<char>, b: Seq<char>)
    requires
        dec(m) + a == dec(n) + b,
        after_number(a),
        after_number(b),
    ensures
        m == n,
        a == b,
{
    crate::text::dec_reads_back(m);
    crate::text::dec_reads_back(n);
    let x = dec(m) + a;
    let y = dec(n) + b;
    if dec(m).len() < dec(n).len() {
        let i = dec(m).len() as int;
        assert(x[i] == a[0]);
        assert(y[i] == dec(n)[i]);
        assert(false);
    }
    if dec(n).len() < dec(m).len() {
        let i = dec(n).len() as int;
        assert(y[i] == b[0]);
        assert(x[i] == dec(m)[i]);
        assert(false);
    }
    assert(dec(m) == x.take(dec(m).len() as int));
    assert(dec(n) == y.take(dec(n).len() as int));
    crate::text::dec_is_injective(m, n);
    lemma_cut(dec(m), a, b);
}

proof fn lemma_cut_code(v: Verdict, w: Verdict, a: Seq<char>, b: Seq<char>)
    requires
        v.code_text() + a == w.code_text() + b,
    ensures
        v == w,
        a == b,
{
    let x = v.code_text() + a;
    let y = w.code_text() + b;
    if v != w {
        crate::verdict::codes_differ_at_once(v, w);
        assert(x[0] == v.code_text()[0]);
        assert(y[0] == w.code_text()[0]);
    }
    lemma_cut(v.code_text(), a, b);
}

proof fn lemma_cut_visibility(v: Visibility, w: Visibility, a: Seq<char>, b: Seq<char>)
    requires
        visibility_text(v) + a == visibility_text(w) + b,
    ensures
        v == w,
        a == b,
{
    reveal_strlit("public");
    reveal_strlit("hidden");
    let x = visibility_text(v) + a;
    let y = visibility_text(w) + b;
    assert(x[0] == visibility_text(v)[0]);
    assert(y[0] == visibility_text(w)[0]);
    lemma_cut(visibility_text(v), a, b);
}

/// Whether a member cannot be taken for what comes after it.
spec fn told_apart(name: Seq<char>, rest: Seq<char>, k: int) -> bool {
    0 <= k < name.len() && k < rest.len() && name[k] != rest[k]
}

proof fn lemma_cut_count(
    name: Seq<char>,
    m: Option<u64>,
    n: Option<u64>,
    a: Seq<char>,
    b: Seq<char>,
    k: int,
)
    requires
        json_count(name, m) + a == json_count(name, n) + b,
        after_number(a),
        after_number(b),
        told_apart(name, a, k),
        told_apart(name, b, k),
    ensures
        m == n,
        a == b,
{
    match (m, n) {
        (Some(x), Some(y)) => {
            assert(json_count(name, m) + a == name + (dec(x as nat) + a));
            assert(json_count(name, n) + b == name + (dec(y as nat) + b));
            lemma_cut(name, dec(x as nat) + a, dec(y as nat) + b);
            lemma_cut_dec(x as nat, y as nat, a, b);
        },
        (None, None) => {
            assert(Seq::<char>::empty() + a == a);
            assert(Seq::<char>::empty() + b == b);
        },
        (Some(_), None) => {
            assert((json_count(name, m) + a)[k] == name[k]);
            assert((json_count(name, n) + b)[k] == b[k]);
        },
        (None, Some(_)) => {
            assert((json_count(name, n) + b)[k] == name[k]);
            assert((json_count(name, m) + a)[k] == a[k]);
        },
    }
}

proof fn lemma_cut_member(
    name: Seq<char>,
    s: Option<Seq<char>>,
    t: Option<Seq<char>>,
    a: Seq<char>,
    b: Seq<char>,
    k: int,
)
    requires
        json_member(name, s) + a == json_member(name, t) + b,
        told_apart(name, a, k),
        told_apart(name, b, k),
    ensures
        s == t,
        a == b,
{
    match (s, t) {
        (Some(x), Some(y)) => {
            assert(json_member(name, s) + a == name + (json_string(x) + a));
            assert(json_member(name, t) + b == name + (json_string(y) + b));
            lemma_cut(name, json_string(x) + a, json_string(y) + b);
            string_literals_end_where_they_end(x, y, a, b);
        },
        (None, None) => {
            assert(Seq::<char>::empty() + a == a);
            assert(Seq::<char>::empty() + b == b);
        },
        (Some(_), None) => {
            assert((json_member(name, s) + a)[k] == name[k]);
            assert((json_member(name, t) + b)[k] == b[k]);
        },
        (None, Some(_)) => {
            assert((json_member(name, t) + b)[k] == name[k]);
            assert((json_member(name, s) + a)[k] == a[k]);
        },
    }
}

// ---------------------------------------------------------------------------
// Outcomes
// ---------------------------------------------------------------------------

/// An outcome and what follows it, from the memory on.
spec fn outcome_end(o: TestOutcomeView, rest: Seq<char>) -> Seq<char> {
    ",\"peak_memory_bytes\":"@ + (dec(o.peak_memory_bytes as nat) + (json_member(
        ",\"detail\":"@,
        o.detail,
    ) + ("}"@ + rest)))
}

/// An outcome and what follows it, from the time on.
spec fn outcome_times(o: TestOutcomeView, rest: Seq<char>) -> Seq<char> {
    "\",\"wall_ms\":"@ + (dec(o.wall_ms as nat) + (json_count(
        ",\"fuel_consumed\":"@,
        o.fuel_consumed,
    ) + outcome_end(o, rest)))
}

proof fn lemma_outcome_parts(o: TestOutcomeView, rest: Seq<char>)
    ensures
        o.json() + rest == "{\"test_id\":"@ + (json_string(o.test_id) + (",\"visibility\":\""@ + (
        visibility_text(o.visibility) + ("\",\"verdict\":\""@ + (o.verdict.code_text()
            + outcome_times(o, rest)))))),
{
    let head = "{\"test_id\":"@ + json_string(o.test_id) + ",\"visibility\":\""@ + visibility_text(
        o.visibility,
    ) + "\",\"verdict\":\""@ + o.verdict.code_text();
    let wall = "\",\"wall_ms\":"@;
    let wall_ms = dec(o.wall_ms as nat);
    let fuel = json_count(",\"fuel_consumed\":"@, o.fuel_consumed);
    let peak = ",\"peak_memory_bytes\":"@;
    let bytes = dec(o.peak_memory_bytes as nat);
    let detail = json_member(",\"detail\":"@, o.detail);
    let timed = head + wall + wall_ms + fuel;
    lemma_assoc(timed + peak + bytes + detail, "}"@, rest);
    lemma_assoc(timed + peak + bytes, detail, "}"@ + rest);
    lemma_assoc(timed + peak, bytes, detail + ("}"@ + rest));
    lemma_assoc(timed, peak, bytes + (detail + ("}"@ + rest)));
    lemma_assoc(head + wall + wall_ms, fuel, outcome_end(o, rest));
    lemma_assoc(head + wall, wall_ms, fuel + outcome_end(o, rest));
    lemma_assoc(head, wall, wall_ms + (fuel + outcome_end(o, rest)));
    lemma_regroup(
        "{\"test_id\":"@,
        json_string(o.test_id),
        ",\"visibility\":\""@,
        visibility_text(o.visibility),
        "\",\"verdict\":\""@,
        o.verdict.code_text(),
        outcome_times(o, rest),
    );
}

proof fn lemma_cut_outcome(o: TestOutcomeView, p: TestOutcomeView, a: Seq<char>, b: Seq<char>)
    requires
        o.json() + a == p.json() + b,
    ensures
        o == p,
        a == b,
{
    lemma_outcome_parts(o, a);
    lemma_outcome_parts(p, b);
    let o_times = outcome_times(o, a);
    let p_times = outcome_times(p, b);
    let o_code = o.verdict.code_text() + o_times;
    let p_code = p.verdict.code_text() + p_times;
    let o_seen = visibility_text(o.visibility) + ("\",\"verdict\":\""@ + o_code);
    let p_seen = visibility_text(p.visibility) + ("\",\"verdict\":\""@ + p_code);
    lemma_cut(
        "{\"test_id\":"@,
        json_string(o.test_id) + (",\"visibility\":\""@ + o_seen),
        json_string(p.test_id) + (",\"visibility\":\""@ + p_seen),
    );
    string_literals_end_where_they_end(
        o.test_id,
        p.test_id,
        ",\"visibility\":\""@ + o_seen,
        ",\"visibility\":\""@ + p_seen,
    );
    lemma_cut(",\"visibility\":\""@, o_seen, p_seen);
    lemma_cut_visibility(
        o.visibility,
        p.visibility,
        "\",\"verdict\":\""@ + o_code,
        "\",\"verdict\":\""@ + p_code,
    );
    lemma_cut("\",\"verdict\":\""@, o_code, p_code);
    lemma_cut_code(o.verdict, p.verdict, o_times, p_times);
    lemma_cut_times(o, p, a, b);
}

proof fn lemma_cut_times(o: TestOutcomeView, p: TestOutcomeView, a: Seq<char>, b: Seq<char>)
    requires
        outcome_times(o, a) == outcome_times(p, b),
    ensures
        o.wall_ms == p.wall_ms,
        o.fuel_consumed == p.fuel_consumed,
        o.peak_memory_bytes == p.peak_memory_bytes,
        o.detail == p.detail,
        a == b,
{
    reveal_strlit(",\"fuel_consumed\":");
    reveal_strlit(",\"peak_memory_bytes\":");
    reveal_strlit(",\"detail\":");
    reveal_strlit("}");
    let o_end = outcome_end(o, a);
    let p_end = outcome_end(p, b);
    let fuel = ",\"fuel_consumed\":"@;
    let o_fuel = json_count(fuel, o.fuel_consumed) + o_end;
    let p_fuel = json_count(fuel, p.fuel_consumed) + p_end;
    assert(o_end[0] == ',' && o_end[2] == 'p');
    assert(p_end[0] == ',' && p_end[2] == 'p');
    assert(o_fuel[0] == ',' && p_fuel[0] == ',');
    lemma_cut(
        "\",\"wall_ms\":"@,
        dec(o.wall_ms as nat) + o_fuel,
        dec(p.wall_ms as nat) + p_fuel,
    );
    lemma_cut_dec(o.wall_ms as nat, p.wall_ms as nat, o_fuel, p_fuel);
    lemma_cut_count(fuel, o.fuel_consumed, p.fuel_consumed, o_end, p_end, 2);
    let detail = ",\"detail\":"@;
    let o_detail = json_member(detail, o.detail) + ("}"@ + a);
    let p_detail = json_member(detail, p.detail) + ("}"@ + b);
    assert(("}"@ + a)[0] == '}' && ("}"@ + b)[0] == '}');
    assert(after_number(o_detail)) by {
        if o.detail is Some {
            assert(o_detail[0] == ',');
        } else {
            assert(o_detail[0] == '}');
        }
    }
    assert(after_number(p_detail)) by {
        if p.detail is Some {
            assert(p_detail[0] == ',');
        } else {
            assert(p_detail[0] == '}');
        }
    }
    lemma_cut(
        ",\"peak_memory_bytes\":"@,
        dec(o.peak_memory_bytes as nat) + o_detail,
        dec(p.peak_memory_bytes as nat) + p_detail,
    );
    lemma_cut_dec(o.peak_memory_bytes as nat, p.peak_memory_bytes as nat, o_detail, p_detail);
    lemma_cut_member(detail, o.detail, p.detail, "}"@ + a, "}"@ + b, 0);
    lemma_cut("}"@, a, b);
}

proof fn lemma_first_outcome(tests: Seq<TestOutcomeView>)
    requires
        tests.len() > 0,
    ensures
        json_outcomes(tests) == tests[0].json() + (if tests.len() == 1 {
            Seq::empty()
        } else {
            ","@ + json_outcomes(tests.drop_first())
        }),
    decreases tests.len(),
{
    if tests.len() == 1 {
        assert(tests[0].json() + Seq::<char>::empty() == tests[0].json());
    } else {
        let init = tests.drop_last();
        let rest = tests.drop_first();
        lemma_first_outcome(init);
        assert(init.drop_first() == rest.drop_last());
        assert(rest.last() == tests.last());
        if tests.len() == 2 {
            assert(rest[0] == tests.last());
            assert(json_outcomes(init) == tests[0].json());
            assert(json_outcomes(tests) == tests[0].json() + (","@ + json_outcomes(rest)));
        } else {
            assert(json_outcomes(tests) == tests[0].json() + (","@ + (json_outcomes(
                rest.drop_last(),
            ) + ","@ + tests.last().json())));
        }
    }
}

/// The list, closed by a bracket, from the first outcome on.
spec fn after_first(tests: Seq<TestOutcomeView>, rest: Seq<char>) -> Seq<char> {
    if tests.len() == 1 {
        "]"@ + rest
    } else {
        ","@ + (json_outcomes(tests.drop_first()) + ("]"@ + rest))
    }
}

proof fn lemma_closed_list(tests: Seq<TestOutcomeView>, rest: Seq<char>)
    ensures
        tests.len() == 0 ==> json_outcomes(tests) + ("]"@ + rest) == "]"@ + rest && ("]"@
            + rest)[0] == ']',
        tests.len() > 0 ==> {
            &&& json_outcomes(tests) + ("]"@ + rest) == tests[0].json() + after_first(tests, rest)
            &&& (tests[0].json() + after_first(tests, rest))[0] == '{'
            &&& after_first(tests, rest)[0] == if tests.len() == 1 {
                ']'
            } else {
                ','
            }
        },
{
    reveal_strlit("]");
    reveal_strlit(",");
    reveal_strlit("{\"test_id\":");
    let close = "]"@ + rest;
    if tests.len() == 0 {
        assert(json_outcomes(tests) + close == close);
    } else {
        lemma_first_outcome(tests);
        lemma_outcome_parts(tests[0], after_first(tests, rest));
        if tests.len() == 1 {
            assert(json_outcomes(tests) + close == tests[0].json() + close);
        } else {
            let more = json_outcomes(tests.drop_first());
            assert((tests[0].json() + (","@ + more)) + close == tests[0].json() + (","@ + (more
                + close)));
        }
    }
}

proof fn lemma_cut_outcomes(
    s: Seq<TestOutcomeView>,
    t: Seq<TestOutcomeView>,
    a: Seq<char>,
    b: Seq<char>,
)
    requires
        json_outcomes(s) + ("]"@ + a) == json_outcomes(t) + ("]"@ + b),
    ensures
        s == t,
        a == b,
    decreases s.len(),
{
    lemma_closed_list(s, a);
    lemma_closed_list(t, b);
    if s.len() == 0 || t.len() == 0 {
        assert(s.len() == 0 && t.len() == 0);
        assert(s == t);
        lemma_cut("]"@, a, b);
    } else {
        lemma_cut_outcome(s[0], t[0], after_first(s, a), after_first(t, b));
        if s.len() == 1 {
            lemma_cut("]"@, a, b);
        } else {
            lemma_cut(
                ","@,
                json_outcomes(s.drop_first()) + ("]"@ + a),
                json_outcomes(t.drop_first()) + ("]"@ + b),
            );
            lemma_cut_outcomes(s.drop_first(), t.drop_first(), a, b);
        }
        assert(s == seq![s[0]] + s.drop_first());
        assert(t == seq![t[0]] + t.drop_first());
    }
}

// ---------------------------------------------------------------------------
// Manifests
// ---------------------------------------------------------------------------

/// A manifest from its compilation time on.
spec fn manifest_end(m: ResultManifestView) -> Seq<char> {
    ",\"compile_ms\":"@ + (dec(m.compile_ms as nat) + (",\"execution_ms\":"@ + (dec(
        m.execution_ms as nat,
    ) + (",\"used_cached_artifact\":"@ + (json_bool(m.used_cached_artifact) + "}"@)))))
}

/// A manifest from the end of its verdict on.
spec fn manifest_middle(m: ResultManifestView) -> Seq<char> {
    "\",\"tests\":["@ + (json_outcomes(m.tests) + ("]"@ + (json_member(
        ",\"compiler_diagnostics\":"@,
        m.compiler_diagnostics,
    ) + manifest_end(m))))
}

/// A manifest from its version on.
spec fn manifest_version(m: ResultManifestView) -> Seq<char> {
    ",\"trial_version\":"@ + (dec(m.trial_version as nat) + (",\"environment_id\":"@ + (json_string(
        m.environment_id,
    ) + (",\"verdict\":\""@ + (m.verdict.code_text() + manifest_middle(m))))))
}

proof fn lemma_end_parts(m: ResultManifestView)
    ensures
        m.json_timings() + (json_bool(m.used_cached_artifact) + "}"@) == manifest_end(m),
{
    let compile = ",\"compile_ms\":"@;
    let compile_ms = dec(m.compile_ms as nat);
    let run = ",\"execution_ms\":"@;
    let run_ms = dec(m.execution_ms as nat);
    let used = ",\"used_cached_artifact\":"@;
    let flag = json_bool(m.used_cached_artifact) + "}"@;
    lemma_assoc(compile + compile_ms + run + run_ms, used, flag);
    lemma_assoc(compile + compile_ms + run, run_ms, used + flag);
    lemma_assoc(compile + compile_ms, run, run_ms + (used + flag));
    lemma_assoc(compile, compile_ms, run + (run_ms + (used + flag)));
}

proof fn lemma_middle_parts(m: ResultManifestView)
    ensures
        m.json_middle() + manifest_end(m) == manifest_middle(m),
{
    let tests = "\",\"tests\":["@;
    let outcomes = json_outcomes(m.tests);
    let said = json_member(",\"compiler_diagnostics\":"@, m.compiler_diagnostics);
    let end = manifest_end(m);
    lemma_assoc(tests + outcomes + "]"@, said, end);
    lemma_assoc(tests + outcomes, "]"@, said + end);
    lemma_assoc(tests, outcomes, "]"@ + (said + end));
}

/// A manifest from its first member on, up to `rest`.
spec fn manifest_first(m: ResultManifestView, rest: Seq<char>) -> Seq<char> {
    "{\"protocol_version\":"@ + (dec(m.protocol_version as nat) + (",\"job_id\":"@ + (json_string(
        m.job_id,
    ) + (",\"trial_package_cid\":"@ + (json_string(m.trial_package_cid) + rest)))))
}

proof fn lemma_head_parts(m: ResultManifestView)
    ensures
        m.json_head() + (m.verdict.code_text() + manifest_middle(m)) == manifest_first(
            m,
            manifest_version(m),
        ),
{
    let code = m.verdict.code_text() + manifest_middle(m);
    let first = "{\"protocol_version\":"@ + dec(m.protocol_version as nat) + ",\"job_id\":"@
        + json_string(m.job_id) + ",\"trial_package_cid\":"@ + json_string(m.trial_package_cid);
    lemma_regroup(
        first,
        ",\"trial_version\":"@,
        dec(m.trial_version as nat),
        ",\"environment_id\":"@,
        json_string(m.environment_id),
        ",\"verdict\":\""@,
        code,
    );
    lemma_regroup(
        "{\"protocol_version\":"@,
        dec(m.protocol_version as nat),
        ",\"job_id\":"@,
        json_string(m.job_id),
        ",\"trial_package_cid\":"@,
        json_string(m.trial_package_cid),
        manifest_version(m),
    );
}

proof fn lemma_manifest_parts(m: ResultManifestView)
    ensures
        m.json() == manifest_first(m, manifest_version(m)),
{
    let flag = json_bool(m.used_cached_artifact);
    let code = m.verdict.code_text();
    lemma_assoc(m.json_head() + code + m.json_middle() + m.json_timings(), flag, "}"@);
    lemma_assoc(m.json_head() + code + m.json_middle(), m.json_timings(), flag + "}"@);
    lemma_end_parts(m);
    lemma_assoc(m.json_head() + code, m.json_middle(), manifest_end(m));
    lemma_middle_parts(m);
    lemma_assoc(m.json_head(), code, manifest_middle(m));
    lemma_head_parts(m);
}

proof fn lemma_cut_end(m: ResultManifestView, n: ResultManifestView)
    requires
        manifest_end(m) == manifest_end(n),
    ensures
        m.compile_ms == n.compile_ms,
        m.execution_ms == n.execution_ms,
        m.used_cached_artifact == n.used_cached_artifact,
{
    reveal_strlit(",\"execution_ms\":");
    reveal_strlit(",\"used_cached_artifact\":");
    reveal_strlit("true");
    reveal_strlit("false");
    let m_flag = json_bool(m.used_cached_artifact) + "}"@;
    let n_flag = json_bool(n.used_cached_artifact) + "}"@;
    let m_used = ",\"used_cached_artifact\":"@ + m_flag;
    let n_used = ",\"used_cached_artifact\":"@ + n_flag;
    let m_ran = ",\"execution_ms\":"@ + (dec(m.execution_ms as nat) + m_used);
    let n_ran = ",\"execution_ms\":"@ + (dec(n.execution_ms as nat) + n_used);
    assert(m_used[0] == ',' && n_used[0] == ',' && m_ran[0] == ',' && n_ran[0] == ',');
    lemma_cut(
        ",\"compile_ms\":"@,
        dec(m.compile_ms as nat) + m_ran,
        dec(n.compile_ms as nat) + n_ran,
    );
    lemma_cut_dec(m.compile_ms as nat, n.compile_ms as nat, m_ran, n_ran);
    lemma_cut(
        ",\"execution_ms\":"@,
        dec(m.execution_ms as nat) + m_used,
        dec(n.execution_ms as nat) + n_used,
    );
    lemma_cut_dec(m.execution_ms as nat, n.execution_ms as nat, m_used, n_used);
    lemma_cut(",\"used_cached_artifact\":"@, m_flag, n_flag);
    assert(m_flag[0] == json_bool(m.used_cached_artifact)[0]);
    assert(n_flag[0] == json_bool(n.used_cached_artifact)[0]);
}

proof fn lemma_cut_middle(m: ResultManifestView, n: ResultManifestView)
    requires
        manifest_middle(m) == manifest_middle(n),
    ensures
        m.tests == n.tests,
        m.compiler_diagnostics == n.compiler_diagnostics,
        manifest_end(m) == manifest_end(n),
{
    let name = ",\"compiler_diagnostics\":"@;
    let m_said = json_member(name, m.compiler_diagnostics) + manifest_end(m);
    let n_said = json_member(name, n.compiler_diagnostics) + manifest_end(n);
    lemma_cut(
        "\",\"tests\":["@,
        json_outcomes(m.tests) + ("]"@ + m_said),
        json_outcomes(n.tests) + ("]"@ + n_said),
    );
    lemma_cut_outcomes(m.tests, n.tests, m_said, n_said);
    reveal_strlit(",\"compiler_diagnostics\":");
    reveal_strlit(",\"compile_ms\":");
    assert(manifest_end(m)[9] == '_' && manifest_end(n)[9] == '_');
    lemma_cut_member(
        name,
        m.compiler_diagnostics,
        n.compiler_diagnostics,
        manifest_end(m),
        manifest_end(n),
        9,
    );
}

proof fn lemma_cut_version(m: ResultManifestView, n: ResultManifestView)
    requires
        manifest_version(m) == manifest_version(n),
    ensures
        m.trial_version == n.trial_version,
        m.environment_id == n.environment_id,
        m.verdict == n.verdict,
        manifest_middle(m) == manifest_middle(n),
{
    reveal_strlit(",\"environment_id\":");
    let m_code = m.verdict.code_text() + manifest_middle(m);
    let n_code = n.verdict.code_text() + manifest_middle(n);
    let m_where = json_string(m.environment_id) + (",\"verdict\":\""@ + m_code);
    let n_where = json_string(n.environment_id) + (",\"verdict\":\""@ + n_code);
    let m_rest = ",\"environment_id\":"@ + m_where;
    let n_rest = ",\"environment_id\":"@ + n_where;
    assert(m_rest[0] == ',' && n_rest[0] == ',');
    lemma_cut(
        ",\"trial_version\":"@,
        dec(m.trial_version as nat) + m_rest,
        dec(n.trial_version as nat) + n_rest,
    );
    lemma_cut_dec(m.trial_version as nat, n.trial_version as nat, m_rest, n_rest);
    lemma_cut(",\"environment_id\":"@, m_where, n_where);
    string_literals_end_where_they_end(
        m.environment_id,
        n.environment_id,
        ",\"verdict\":\""@ + m_code,
        ",\"verdict\":\""@ + n_code,
    );
    lemma_cut(",\"verdict\":\""@, m_code, n_code);
    lemma_cut_code(m.verdict, n.verdict, manifest_middle(m), manifest_middle(n));
}

/// No two manifests share a canonical encoding, nor the bytes of one: what is
/// hashed says which manifest it is, in every part of it.
pub proof fn encodings_tell_manifests_apart(m: ResultManifestView, n: ResultManifestView)
    requires
        m.json() == n.json() || vstd::utf8::encode_utf8(m.json()) == vstd::utf8::encode_utf8(
            n.json(),
        ),
    ensures
        m == n,
{
    vstd::utf8::encode_utf8_decode_utf8(m.json());
    vstd::utf8::encode_utf8_decode_utf8(n.json());
    lemma_manifest_parts(m);
    lemma_manifest_parts(n);
    reveal_strlit(",\"job_id\":");
    let m_package = json_string(m.trial_package_cid) + manifest_version(m);
    let n_package = json_string(n.trial_package_cid) + manifest_version(n);
    let m_job = json_string(m.job_id) + (",\"trial_package_cid\":"@ + m_package);
    let n_job = json_string(n.job_id) + (",\"trial_package_cid\":"@ + n_package);
    let m_rest = ",\"job_id\":"@ + m_job;
    let n_rest = ",\"job_id\":"@ + n_job;
    assert(m_rest[0] == ',' && n_rest[0] == ',');
    lemma_cut(
        "{\"protocol_version\":"@,
        dec(m.protocol_version as nat) + m_rest,
        dec(n.protocol_version as nat) + n_rest,
    );
    lemma_cut_dec(m.protocol_version as nat, n.protocol_version as nat, m_rest, n_rest);
    lemma_cut(",\"job_id\":"@, m_job, n_job);
    string_literals_end_where_they_end(
        m.job_id,
        n.job_id,
        ",\"trial_package_cid\":"@ + m_package,
        ",\"trial_package_cid\":"@ + n_package,
    );
    lemma_cut(",\"trial_package_cid\":"@, m_package, n_package);
    string_literals_end_where_they_end(
        m.trial_package_cid,
        n.trial_package_cid,
        manifest_version(m),
        manifest_version(n),
    );
    lemma_cut_version(m, n);
    lemma_cut_middle(m, n);
    lemma_cut_end(m, n);
}

/// The members of an encoding, in the order in which a manifest declares them:
/// compact, each name before its value, texts as string literals, and no member
/// for diagnostics that there are none of.
pub proof fn members_of_a_manifest_in_order(m: ResultManifestView)
    ensures
        m.json() == "{\"protocol_version\":"@ + (dec(m.protocol_version as nat) + (
        ",\"job_id\":"@ + (json_string(m.job_id) + (",\"trial_package_cid\":"@ + (json_string(
            m.trial_package_cid,
        ) + (",\"trial_version\":"@ + (dec(m.trial_version as nat) + (",\"environment_id\":"@ + (
        json_string(m.environment_id) + (",\"verdict\":\""@ + (m.verdict.code_text() + (
        "\",\"tests\":["@ + (json_outcomes(m.tests) + ("]"@ + ((match m.compiler_diagnostics {
            Some(said) => ",\"compiler_diagnostics\":"@ + json_string(said),
            None => Seq::empty(),
        }) + (",\"compile_ms\":"@ + (dec(m.compile_ms as nat) + (",\"execution_ms\":"@ + (dec(
            m.execution_ms as nat,
        ) + (",\"used_cached_artifact\":"@ + ((if m.used_cached_artifact {
            "true"@
        } else {
            "false"@
        }) + "}"@))))))))))))))))))))),
{
    lemma_manifest_parts(m);
}

/// The members of an outcome, in the order in which it declares them, and no
/// member for what there is none of; and the outcomes of a list, with commas
/// between them.
pub proof fn members_of_an_outcome_in_order(o: TestOutcomeView, before: Seq<TestOutcomeView>)
    ensures
        o.json() == "{\"test_id\":"@ + (json_string(o.test_id) + (",\"visibility\":\""@ + ((
        if o.visibility == Visibility::Public {
            "public"@
        } else {
            "hidden"@
        }) + ("\",\"verdict\":\""@ + (o.verdict.code_text() + ("\",\"wall_ms\":"@ + (dec(
            o.wall_ms as nat,
        ) + ((match o.fuel_consumed {
            Some(fuel) => ",\"fuel_consumed\":"@ + dec(fuel as nat),
            None => Seq::empty(),
        }) + (",\"peak_memory_bytes\":"@ + (dec(o.peak_memory_bytes as nat) + ((match o.detail {
            Some(detail) => ",\"detail\":"@ + json_string(detail),
            None => Seq::empty(),
        }) + "}"@))))))))))),
        json_outcomes(Seq::empty()) == Seq::<char>::empty(),
        json_outcomes(seq![o]) == o.json(),
        before.len() > 0 ==> json_outcomes(before.push(o)) == json_outcomes(before) + ","@
            + o.json(),
{
    lemma_outcome_parts(o, Seq::empty());
    assert(o.json() + Seq::<char>::empty() == o.json());
    assert("}"@ + Seq::<char>::empty() == "}"@);
    assert(before.push(o).drop_last() == before);
}

} // verus!
