//! The decisions of a load-test run: which scenario each virtual user
//! replays, how a configured step becomes an HTTP request, and how the
//! outcome of a request is classified and counted.

use vstd::prelude::*;

use crate::config::{Scenario, Step};
use crate::error::HttpError;
use crate::metrics::{Counters, Measurement};
use crate::text::{chars_of, is_white_space, trim, trimmed_string};

verus! {

// ─── Header lines ────────────────────────────────────────────────────────────

/// A "Key: Value" header line split at its first colon, both halves trimmed;
/// `None` when the line holds no colon.
pub open spec fn spec_parse_header(h: Seq<char>) -> Option<(Seq<char>, Seq<char>)> {
    if exists|i: int| 0 <= i < h.len() && h[i] == ':' {
        let k = choose|k: int|
            0 <= k < h.len() && h[k] == ':' && forall|j: int| 0 <= j < k ==> h[j] != ':';
        Some((trim(h.take(k)), trim(h.skip(k + 1))))
    } else {
        None
    }
}

/// Splits a "Key: Value" header line at its first colon and trims both
/// halves; `None` when there is no colon.
pub fn parse_header(h: &str) -> (r: Option<(String, String)>)
    ensures
        match r {
            Some((k, v)) => spec_parse_header(h@) == Some((k@, v@)),
            None => spec_parse_header(h@) is None,
        },
{
    let cs = chars_of(h);
    let n = cs.len();
    let mut i: usize = 0;
    while i < n && cs[i] != ':'
        invariant
            i <= n == cs@.len(),
            cs@ == h@,
            forall|j: int| 0 <= j < i ==> cs@[j] != ':',
        decreases n - i,
    {
        i = i + 1;
    }
    if i == n {
        return None;
    }
    let key = trimmed_string(&cs, 0, i);
    let value = trimmed_string(&cs, i + 1, n);
    proof {
        let hs = h@;
        assert(exists|x: int| 0 <= x < hs.len() && hs[x] == ':') by {
            assert(hs[i as int] == ':');
        }
        let k = choose|k: int|
            0 <= k < hs.len() && hs[k] == ':' && forall|j: int| 0 <= j < k ==> hs[j] != ':';
        assert(0 <= i < hs.len() && hs[i as int] == ':' && forall|j: int|
            0 <= j < i ==> hs[j] != ':');
        if k < i {
            assert(hs[k] != ':');
        }
        if k > i {
            assert(hs[i as int] != ':');
        }
        assert(k == i);
        assert(cs@.subrange(0, i as int) =~= hs.take(k));
        assert(cs@.subrange(i + 1, n as int) =~= hs.skip(k + 1));
    }
    Some((key, value))
}

/// Reading back a written header line: for a name without a colon and
/// without surrounding whitespace, and a value without surrounding
/// whitespace, the line "name: value" parses to exactly (name, value).
pub proof fn lemma_header_roundtrip(name: Seq<char>, value: Seq<char>)
    requires
        !name.contains(':'),
        trim(name) == name,
        trim(value) == value,
    ensures
        spec_parse_header(name + seq![':', ' '] + value) == Some((name, value)),
{
    let h = name + seq![':', ' '] + value;
    let k = name.len() as int;
    assert(h[k] == ':');
    assert forall|j: int| 0 <= j < k implies h[j] != ':' by {
        assert(h[j] == name[j]);
    }
    let c = choose|c: int|
        0 <= c < h.len() && h[c] == ':' && forall|j: int| 0 <= j < c ==> h[j] != ':';
    if c < k {
        assert(h[c] == name[c]);
    }
    if c > k {
        assert(h[k] != ':');
    }
    assert(h.take(k) =~= name);
    let rest = h.skip(k + 1);
    assert(rest =~= seq![' '] + value);
    assert(is_white_space(' '));
    assert(rest.drop_first() =~= value);
    assert(crate::text::trim_start(rest) == crate::text::trim_start(value));
}

/// A header value keeps its last character when that character is not
/// whitespace (e.g. the `=` padding of base64 credentials), and the name
/// keeps its first character when that is not whitespace.
pub proof fn lemma_header_keeps_ends(h: Seq<char>)
    requires
        exists|i: int| 0 <= i < h.len() && h[i] == ':',
    ensures
        h.last() != ':' && !is_white_space(h.last()) ==> spec_parse_header(h).unwrap().1.len() > 0
            && spec_parse_header(h).unwrap().1.last() == h.last(),
        h[0] != ':' && !is_white_space(h[0]) ==> spec_parse_header(h).unwrap().0.len() > 0
            && spec_parse_header(h).unwrap().0[0] == h[0],
{
    let k = choose|k: int|
        0 <= k < h.len() && h[k] == ':' && forall|j: int| 0 <= j < k ==> h[j] != ':';
    let w = choose|i: int| 0 <= i < h.len() && h[i] == ':';
    assert(0 <= k < h.len() && h[k] == ':' && forall|j: int| 0 <= j < k ==> h[j] != ':') by {
        lemma_first_colon_exists(h, w);
    }
    let value = h.skip(k + 1);
    let name = h.take(k);
    if h.last() != ':' && !is_white_space(h.last()) {
        assert(k < h.len() - 1);
        assert(value.last() == h.last());
        crate::text::lemma_trim_keeps_ends(value);
    }
    if h[0] != ':' && !is_white_space(h[0]) {
        assert(k > 0);
        assert(name[0] == h[0]);
        crate::text::lemma_trim_keeps_ends(name);
    }
}

/// If `h` holds a colon at `w`, it holds a first colon.
proof fn lemma_first_colon_exists(h: Seq<char>, w: int)
    requires
        0 <= w < h.len(),
        h[w] == ':',
    ensures
        exists|k: int| 0 <= k < h.len() && h[k] == ':' && forall|j: int| 0 <= j < k ==> h[j] != ':',
    decreases w,
{
    if exists|j: int| 0 <= j < w && h[j] == ':' {
        let j = choose|j: int| 0 <= j < w && h[j] == ':';
        lemma_first_colon_exists(h, j);
    } else {
        assert(0 <= w < h.len() && h[w] == ':' && forall|j: int| 0 <= j < w ==> h[j] != ':');
    }
}

// ─── Owned steps ─────────────────────────────────────────────────────────────

/// A configured step with owned strings, so that a worker can hold it for the
/// whole run without borrowing the configuration buffer.
#[derive(Debug)]
pub struct StepOwned {
    pub method: String,
    pub url: String,
    pub body: Option<String>,
    /// Each entry is a "Header-Name: value" line.
    pub headers: Vec<String>,
}

/// The characters of an optional borrowed string.
pub open spec fn opt_str_view(o: Option<&str>) -> Option<Seq<char>> {
    match o {
        Some(s) => Some(s@),
        None => None,
    }
}

/// The characters of an optional owned string.
pub open spec fn opt_string_view(o: Option<String>) -> Option<Seq<char>> {
    match o {
        Some(s) => Some(s@),
        None => None,
    }
}

/// The characters of each borrowed string.
pub open spec fn str_views(v: Seq<&str>) -> Seq<Seq<char>> {
    v.map_values(|s: &str| s@)
}

/// The characters of each owned string.
pub open spec fn string_views(v: Seq<String>) -> Seq<Seq<char>> {
    v.map_values(|s: String| s@)
}

/// `o` holds the same text as `s`.
pub open spec fn owns_step(o: StepOwned, s: Step) -> bool {
    &&& o.method@ == s.method@
    &&& o.url@ == s.url@
    &&& opt_string_view(o.body) == opt_str_view(s.body)
    &&& string_views(o.headers@) == str_views(s.headers@)
}

/// Copies a borrowed step into owned strings.
pub fn own_step(step: &Step) -> (o: StepOwned)
    ensures
        owns_step(o, *step),
{
    let body = match step.body {
        Some(b) => Some(b.to_owned()),
        None => None,
    };
    let mut headers: Vec<String> = Vec::new();
    let mut i: usize = 0;
    while i < step.headers.len()
        invariant
            i <= step.headers@.len(),
            headers@.len() == i,
            string_views(headers@) == str_views(step.headers@.take(i as int)),
        decreases step.headers.len() - i,
    {
        let h: &str = step.headers[i];
        let ghost old_headers = headers@;
        headers.push(h.to_owned());
        assert forall|j: int| 0 <= j < i + 1 implies #[trigger] string_views(headers@)[j]
            == str_views(step.headers@.take(i + 1))[j] by {
            if j < i {
                assert(headers@[j] == old_headers[j]);
                assert(string_views(old_headers)[j] == str_views(step.headers@.take(i as int))[j]);
            }
        }
        assert(string_views(headers@) =~= str_views(step.headers@.take(i + 1)));
        i = i + 1;
    }
    assert(step.headers@.take(i as int) =~= step.headers@);
    StepOwned { method: step.method.to_owned(), url: step.url.to_owned(), body, headers }
}

/// Copies every step of a scenario into owned strings, in order.
pub fn own_steps(scenario: &Scenario) -> (v: Vec<StepOwned>)
    ensures
        v@.len() == scenario.steps@.len(),
        forall|i: int| 0 <= i < v@.len() ==> owns_step(#[trigger] v@[i], scenario.steps@[i]),
{
    let mut v: Vec<StepOwned> = Vec::new();
    let mut i: usize = 0;
    while i < scenario.steps.len()
        invariant
            i <= scenario.steps@.len(),
            v@.len() == i,
            forall|j: int| 0 <= j < i ==> owns_step(#[trigger] v@[j], scenario.steps@[j]),
        decreases scenario.steps.len() - i,
    {
        v.push(own_step(&scenario.steps[i]));
        i = i + 1;
    }
    v
}

// ─── Scenario assignment ─────────────────────────────────────────────────────

/// The scenario that virtual user `user_id` replays: round-robin over the
/// configured scenarios.
pub fn scenario_index(user_id: usize, scenario_count: usize) -> (k: usize)
    requires
        scenario_count > 0,
    ensures
        k == user_id % scenario_count,
{
    user_id % scenario_count
}

/// Round-robin assignment: every user gets an existing scenario, the first
/// `n` users get scenarios `0..n` in order, and users `n` apart replay the
/// same scenario.
pub proof fn lemma_round_robin(user_id: nat, n: nat)
    requires
        n > 0,
    ensures
        user_id % n < n,
        user_id < n ==> user_id % n == user_id,
        (user_id + n) % n == user_id % n,
{
    vstd::arithmetic::div_mod::lemma_mod_add_multiples_vanish(user_id as int, n as int);
    if user_id < n {
        vstd::arithmetic::div_mod::lemma_small_mod(user_id, n);
    }
}

// ─── Worker loop ─────────────────────────────────────────────────────────────

/// What a virtual user does next.
#[derive(Debug, Clone, Copy, PartialEq, Eq, Structural)]
pub enum WorkerAction {
    /// Send the request of the step with this index.
    RunStep(usize),
    /// The scenario has no step: nothing to send until shutdown.
    WaitForShutdown,
    /// Shutdown was requested and the current pass is over: the worker exits.
    Stop,
}

/// The next action of a virtual user that is about to start step
/// `next_step` of a scenario with `step_count` steps. A requested shutdown
/// is honoured only between passes over the scenario (when the next step is
/// the first one): a worker always finishes the pass it is in.
pub fn next_action(shutdown_requested: bool, next_step: usize, step_count: usize) -> (a:
    WorkerAction)
    requires
        step_count == 0 || next_step < step_count,
    ensures
        step_count == 0 && shutdown_requested ==> a == WorkerAction::Stop,
        step_count == 0 && !shutdown_requested ==> a == WorkerAction::WaitForShutdown,
        step_count > 0 && shutdown_requested && next_step == 0 ==> a == WorkerAction::Stop,
        step_count > 0 && !(shutdown_requested && next_step == 0) ==> a == WorkerAction::RunStep(
            next_step,
        ),
{
    if step_count == 0 {
        if shutdown_requested {
            WorkerAction::Stop
        } else {
            WorkerAction::WaitForShutdown
        }
    } else if shutdown_requested && next_step == 0 {
        WorkerAction::Stop
    } else {
        WorkerAction::RunStep(next_step)
    }
}

/// The step that follows step `current`: the scenario is replayed in a loop.
pub fn step_after(current: usize, step_count: usize) -> (next: usize)
    requires
        current < step_count,
    ensures
        next == (current + 1) % (step_count as int),
        next < step_count,
{
    proof {
        if current + 1 == step_count {
            vstd::arithmetic::div_mod::lemma_mod_self_0(step_count as int);
        } else {
            vstd::arithmetic::div_mod::lemma_small_mod((current + 1) as nat, step_count as nat);
        }
    }
    if current + 1 == step_count {
        0
    } else {
        current + 1
    }
}

/// The index of the step a virtual user runs after `k` completed steps of a
/// scenario with `n` steps, starting from the first step.
pub open spec fn replay_position(k: nat, n: nat) -> nat
    decreases k,
{
    if k == 0 {
        0
    } else {
        ((replay_position((k - 1) as nat, n) + 1) % n) as nat
    }
}

/// Replaying the scenario in a loop visits its steps in order: after `k`
/// steps the user is at step `k mod n`.
pub proof fn lemma_replay_in_order(k: nat, n: nat)
    requires
        n > 0,
    ensures
        replay_position(k, n) == k % n,
    decreases k,
{
    if k == 0 {
        vstd::arithmetic::div_mod::lemma_small_mod(0, n);
    } else {
        lemma_replay_in_order((k - 1) as nat, n);
        let r = replay_position((k - 1) as nat, n);
        assert(r == (k - 1) % (n as int));
        vstd::arithmetic::div_mod::lemma_add_mod_noop((k - 1) as int, 1, n as int);
        if n == 1 {
            vstd::arithmetic::div_mod::lemma_mod_self_0(1);
            vstd::arithmetic::div_mod::lemma_small_mod(0, 1);
            assert(((r + 1) % 1) == ((k - 1) % 1 + 0) % 1);
        } else {
            vstd::arithmetic::div_mod::lemma_small_mod(1, n);
        }
        assert((r + 1) % n == k % n);
    }
}

// ─── HTTP method ─────────────────────────────────────────────────────────────

/// The HTTP methods a step can use.
#[derive(Debug, Clone, Copy, PartialEq, Eq, Structural)]
pub enum Method {
    Get,
    Post,
    Put,
    Delete,
}

/// What `str::to_uppercase` returns for a string with the characters `s`:
/// the Unicode uppercase mapping of each character, concatenated.
pub uninterp spec fn uppercase(s: Seq<char>) -> Seq<char>;

/// The code of `c` with an ASCII lowercase letter mapped to its uppercase.
pub open spec fn upper_code(c: char) -> u32 {
    if 'a' <= c <= 'z' {
        ((c as u32) - 32) as u32
    } else {
        c as u32
    }
}

/// `r` is `s` with the ASCII letters `a..=z` mapped to `A..=Z`.
pub open spec fn is_ascii_uppercase_of(r: Seq<char>, s: Seq<char>) -> bool {
    &&& r.len() == s.len()
    &&& forall|i: int| 0 <= i < s.len() ==> #[trigger] (r[i] as u32) == upper_code(s[i])
}

/// `a` and `b` are equal up to the case of ASCII letters.
pub open spec fn eq_ignore_ascii_case(a: Seq<char>, b: Seq<char>) -> bool {
    &&& a.len() == b.len()
    &&& forall|i: int| 0 <= i < a.len() ==> #[trigger] upper_code(a[i]) == upper_code(b[i])
}

/// Two characters compare equal without regard to case exactly when they are
/// equal, or one is an ASCII lowercase letter and the other its uppercase.
pub proof fn lemma_upper_code_same(c: char, d: char)
    ensures
        upper_code(c) == upper_code(d) <==> (c == d || ('a' <= c <= 'z' && d as u32 == (c as u32)
            - 32) || ('a' <= d <= 'z' && c as u32 == (d as u32) - 32)),
{
    vstd::utf8::char_u32_cast(c, c as u32);
    vstd::utf8::char_u32_cast(d, d as u32);
}

/// `w` holds no ASCII lowercase letter.
pub open spec fn has_no_ascii_lowercase(w: Seq<char>) -> bool {
    forall|i: int| 0 <= i < w.len() ==> !('a' <= #[trigger] w[i] <= 'z')
}

/// If `u` is the ASCII uppercase of `m`, then `u` equals a word without
/// lowercase letters exactly when `m` equals it up to case.
proof fn lemma_uppercase_matches(u: Seq<char>, m: Seq<char>, w: Seq<char>)
    requires
        is_ascii_uppercase_of(u, m),
        has_no_ascii_lowercase(w),
    ensures
        (u == w) <==> eq_ignore_ascii_case(m, w),
{
    if u == w {
        assert forall|i: int| 0 <= i < m.len() implies #[trigger] upper_code(m[i]) == upper_code(
            w[i],
        ) by {
            assert(u[i] as u32 == upper_code(m[i]));
            assert(!('a' <= w[i] <= 'z'));
        }
    }
    if eq_ignore_ascii_case(m, w) {
        assert forall|i: int| 0 <= i < u.len() implies u[i] == w[i] by {
            assert(upper_code(m[i]) == upper_code(w[i]));
            assert(u[i] as u32 == upper_code(m[i]));
            assert(!('a' <= w[i] <= 'z'));
            assert(u[i] as u32 == w[i] as u32);
            vstd::utf8::char_u32_cast(u[i], u[i] as u32);
            vstd::utf8::char_u32_cast(w[i], w[i] as u32);
        }
        assert(u =~= w);
    }
}

/// The code of `c`, with an ASCII lowercase letter mapped to its uppercase.
fn ascii_upper_code(c: char) -> (u: u32)
    ensures
        u == upper_code(c),
{
    let v = c as u32;
    if 97 <= v && v <= 122 {
        v - 32
    } else {
        v
    }
}

/// Whether `a` and `b` are equal up to the case of ASCII letters.
fn chars_eq_ignore_ascii_case(a: &Vec<char>, b: &Vec<char>) -> (r: bool)
    ensures
        r == eq_ignore_ascii_case(a@, b@),
{
    if a.len() != b.len() {
        return false;
    }
    let mut i: usize = 0;
    while i < a.len()
        invariant
            a.len() == b.len(),
            i <= a.len(),
            forall|j: int| 0 <= j < i ==> #[trigger] upper_code(a@[j]) == upper_code(b@[j]),
        decreases a.len() - i,
    {
        if ascii_upper_code(a[i]) != ascii_upper_code(b[i]) {
            return false;
        }
        i = i + 1;
    }
    true
}

/// `str::to_uppercase`: the uppercase equivalent of `s` under Unicode's
/// case mapping. The contract names that result `uppercase(s@)` and states
/// one fact of it: on ASCII text it uppercases exactly the ASCII letters.
#[verifier::external_body]
fn to_uppercase(s: &str) -> (r: String)
    ensures
        r@ == uppercase(s@),
        vstd::utf8::is_ascii_chars(s@) ==> is_ascii_uppercase_of(r@, s@),
{
    s.to_uppercase()
}

/// The method named by an uppercased method string: POST, PUT and DELETE
/// are recognised, anything else means GET.
pub open spec fn method_of(upper: Seq<char>) -> Method {
    if upper == seq!['P', 'O', 'S', 'T'] {
        Method::Post
    } else if upper == seq!['P', 'U', 'T'] {
        Method::Put
    } else if upper == seq!['D', 'E', 'L', 'E', 'T', 'E'] {
        Method::Delete
    } else {
        Method::Get
    }
}

/// Picks the method from an already uppercased method string.
pub fn method_from_uppercase(upper: &String) -> (m: Method)
    ensures
        m == method_of(upper@),
        m == Method::Post <==> upper@ == seq!['P', 'O', 'S', 'T'],
        m == Method::Put <==> upper@ == seq!['P', 'U', 'T'],
        m == Method::Delete <==> upper@ == seq!['D', 'E', 'L', 'E', 'T', 'E'],
{
    let post = "POST".to_owned();
    let put = "PUT".to_owned();
    let delete = "DELETE".to_owned();
    proof {
        reveal_strlit("POST");
        reveal_strlit("PUT");
        reveal_strlit("DELETE");
        assert(post@ =~= seq!['P', 'O', 'S', 'T']);
        assert(put@ =~= seq!['P', 'U', 'T']);
        assert(delete@ =~= seq!['D', 'E', 'L', 'E', 'T', 'E']);
    }
    if *upper == post {
        Method::Post
    } else if *upper == put {
        Method::Put
    } else if *upper == delete {
        Method::Delete
    } else {
        Method::Get
    }
}

/// Each method is chosen by exactly one uppercased name: POST, PUT or
/// DELETE; every other string (HEAD, OPTIONS, PATCH, ...) chooses GET.
pub proof fn lemma_method_exact(u: Seq<char>)
    ensures
        method_of(u) == Method::Post <==> u == seq!['P', 'O', 'S', 'T'],
        method_of(u) == Method::Put <==> u == seq!['P', 'U', 'T'],
        method_of(u) == Method::Delete <==> u == seq!['D', 'E', 'L', 'E', 'T', 'E'],
        method_of(u) == Method::Get <==> (u != seq!['P', 'O', 'S', 'T'] && u != seq!['P', 'U', 'T']
            && u != seq!['D', 'E', 'L', 'E', 'T', 'E']),
{
    assert(seq!['P', 'O', 'S', 'T'] != seq!['P', 'U', 'T']) by {
        assert(seq!['P', 'O', 'S', 'T'].len() != seq!['P', 'U', 'T'].len());
    }
    assert(seq!['P', 'O', 'S', 'T'] != seq!['D', 'E', 'L', 'E', 'T', 'E']) by {
        assert(seq!['P', 'O', 'S', 'T'].len() != seq!['D', 'E', 'L', 'E', 'T', 'E'].len());
    }
    assert(seq!['P', 'U', 'T'] != seq!['D', 'E', 'L', 'E', 'T', 'E']) by {
        assert(seq!['P', 'U', 'T'].len() != seq!['D', 'E', 'L', 'E', 'T', 'E'].len());
    }
}

/// On ASCII method strings: a string names POST, PUT or DELETE exactly when
/// it equals that name up to case; every other string names GET.
pub proof fn lemma_method_named_exact(m: Seq<char>)
    ensures
        method_named(m) == Method::Post <==> eq_ignore_ascii_case(m, seq!['P', 'O', 'S', 'T']),
        method_named(m) == Method::Put <==> eq_ignore_ascii_case(m, seq!['P', 'U', 'T']),
        method_named(m) == Method::Delete <==> eq_ignore_ascii_case(
            m,
            seq!['D', 'E', 'L', 'E', 'T', 'E'],
        ),
        method_named(m) == Method::Get <==> (!eq_ignore_ascii_case(m, seq!['P', 'O', 'S', 'T'])
            && !eq_ignore_ascii_case(m, seq!['P', 'U', 'T']) && !eq_ignore_ascii_case(
            m,
            seq!['D', 'E', 'L', 'E', 'T', 'E'],
        )),
{
    if eq_ignore_ascii_case(m, seq!['P', 'O', 'S', 'T']) {
        assert(m.len() == 4);
    }
    if eq_ignore_ascii_case(m, seq!['P', 'U', 'T']) {
        assert(m.len() == 3);
    }
}

/// The method that an ASCII method string names, compared without regard
/// to case: POST, PUT or DELETE, and GET for anything else.
pub open spec fn method_named(m: Seq<char>) -> Method {
    if eq_ignore_ascii_case(m, seq!['P', 'O', 'S', 'T']) {
        Method::Post
    } else if eq_ignore_ascii_case(m, seq!['P', 'U', 'T']) {
        Method::Put
    } else if eq_ignore_ascii_case(m, seq!['D', 'E', 'L', 'E', 'T', 'E']) {
        Method::Delete
    } else {
        Method::Get
    }
}

/// Choosing the method from the ASCII uppercase of a string is choosing it
/// from the string without regard to case.
pub proof fn lemma_method_case_insensitive(u: Seq<char>, m: Seq<char>)
    requires
        is_ascii_uppercase_of(u, m),
    ensures
        method_of(u) == method_named(m),
{
    let post = seq!['P', 'O', 'S', 'T'];
    let put = seq!['P', 'U', 'T'];
    let delete = seq!['D', 'E', 'L', 'E', 'T', 'E'];
    assert(has_no_ascii_lowercase(post));
    assert(has_no_ascii_lowercase(put));
    assert(has_no_ascii_lowercase(delete));
    lemma_uppercase_matches(u, m, post);
    lemma_uppercase_matches(u, m, put);
    lemma_uppercase_matches(u, m, delete);
}

/// The method of a configured step: matched case-insensitively (after
/// Unicode uppercasing); anything but POST, PUT and DELETE means GET.
pub fn parse_method(method: &str) -> (m: Method)
    ensures
        m == method_of(uppercase(method@)),
        vstd::utf8::is_ascii_chars(method@) ==> m == method_named(method@),
{
    let upper = to_uppercase(method);
    proof {
        if vstd::utf8::is_ascii_chars(method@) {
            lemma_method_case_insensitive(upper@, method@);
        }
    }
    method_from_uppercase(&upper)
}

// ─── Request plan ────────────────────────────────────────────────────────────

/// Everything needed to send the request of one step.
#[derive(Debug)]
pub struct RequestPlan {
    pub method: Method,
    pub url: String,
    /// (name, value) pairs, added in this order.
    pub headers: Vec<(String, String)>,
    pub body: Option<String>,
}

/// The characters of each (name, value) pair.
pub open spec fn pair_views(v: Seq<(String, String)>) -> Seq<(Seq<char>, Seq<char>)> {
    v.map_values(|p: (String, String)| (p.0@, p.1@))
}

/// The headers that the header lines give, in order; lines without a colon
/// are skipped.
pub open spec fn parsed_headers(lines: Seq<Seq<char>>) -> Seq<(Seq<char>, Seq<char>)>
    decreases lines.len(),
{
    if lines.len() == 0 {
        Seq::empty()
    } else {
        let rest = parsed_headers(lines.drop_last());
        match spec_parse_header(lines.last()) {
            Some(p) => rest.push(p),
            None => rest,
        }
    }
}

/// The header that marks a body as JSON.
pub open spec fn json_content_type() -> (Seq<char>, Seq<char>) {
    (
        seq!['C', 'o', 'n', 't', 'e', 'n', 't', '-', 'T', 'y', 'p', 'e'],
        seq!['a', 'p', 'p', 'l', 'i', 'c', 'a', 't', 'i', 'o', 'n', '/', 'j', 's', 'o', 'n'],
    )
}

/// Some header is named Content-Type (header names ignore ASCII case).
pub open spec fn has_content_type(headers: Seq<(Seq<char>, Seq<char>)>) -> bool {
    exists|i: int|
        0 <= i < headers.len() && eq_ignore_ascii_case(
            #[trigger] headers[i].0,
            json_content_type().0,
        )
}

/// Whether some header is named Content-Type, in any ASCII case.
fn has_content_type_header(headers: &Vec<(String, String)>) -> (b: bool)
    ensures
        b == has_content_type(pair_views(headers@)),
        b <==> exists|i: int|
            0 <= i < headers@.len() && eq_ignore_ascii_case(
                #[trigger] headers@[i].0@,
                seq!['C', 'o', 'n', 't', 'e', 'n', 't', '-', 'T', 'y', 'p', 'e'],
            ),
{
    let target = chars_of("Content-Type");
    proof {
        reveal_strlit("Content-Type");
        assert(target@ =~= json_content_type().0);
    }
    let mut k: usize = 0;
    while k < headers.len()
        invariant
            k <= headers@.len(),
            target@ == json_content_type().0,
            forall|j: int|
                0 <= j < k ==> !eq_ignore_ascii_case(
                    #[trigger] pair_views(headers@)[j].0,
                    json_content_type().0,
                ),
            forall|j: int|
                0 <= j < k ==> !eq_ignore_ascii_case(
                    #[trigger] headers@[j].0@,
                    json_content_type().0,
                ),
        decreases headers.len() - k,
    {
        let name = chars_of(headers[k].0.as_str());
        if chars_eq_ignore_ascii_case(&name, &target) {
            assert(pair_views(headers@)[k as int].0 == name@);
            assert(headers@[k as int].0@ == name@);
            assert(eq_ignore_ascii_case(headers@[k as int].0@, json_content_type().0));
            return true;
        }
        assert(pair_views(headers@)[k as int].0 == name@);
        assert(headers@[k as int].0@ == name@);
        k = k + 1;
    }
    false
}

/// No header name equals Content-Type, ignoring ASCII case.
pub open spec fn names_no_content_type(headers: Seq<(Seq<char>, Seq<char>)>) -> bool {
    forall|i: int|
        0 <= i < headers.len() ==> !eq_ignore_ascii_case(
            #[trigger] headers[i].0,
            seq!['C', 'o', 'n', 't', 'e', 'n', 't', '-', 'T', 'y', 'p', 'e'],
        )
}

/// A body gets the JSON content type exactly when no header line already
/// names a Content-Type (in any ASCII case): then the planned headers are
/// the parsed lines followed by `Content-Type: application/json`, whatever
/// their number; otherwise, and without a body, they are the parsed lines.
pub proof fn lemma_content_type_added(lines: Seq<Seq<char>>, has_body: bool)
    ensures
        has_content_type(parsed_headers(lines)) <==> !names_no_content_type(parsed_headers(lines)),
        has_body && names_no_content_type(parsed_headers(lines)) ==> planned_headers(lines, has_body)
            == parsed_headers(lines).push(
            (
                seq!['C', 'o', 'n', 't', 'e', 'n', 't', '-', 'T', 'y', 'p', 'e'],
                seq![
                    'a', 'p', 'p', 'l', 'i', 'c', 'a', 't', 'i', 'o', 'n', '/', 'j', 's', 'o', 'n'
                ],
            ),
        ),
        !(has_body && names_no_content_type(parsed_headers(lines))) ==> planned_headers(
            lines,
            has_body,
        ) == parsed_headers(lines),
{
}

/// All headers of a step's request: the parsed header lines, then, when the
/// step has a body and no header line already names a Content-Type,
/// `Content-Type: application/json`.
pub open spec fn planned_headers(lines: Seq<Seq<char>>, has_body: bool) -> Seq<
    (Seq<char>, Seq<char>),
> {
    if has_body && !has_content_type(parsed_headers(lines)) {
        parsed_headers(lines).push(json_content_type())
    } else {
        parsed_headers(lines)
    }
}

/// Builds the request of a step: its method, its URL, its parsed headers
/// (plus the JSON content type when there is a body and the step does not
/// set a Content-Type itself) and its body.
pub fn plan_request(step: &StepOwned) -> (p: RequestPlan)
    ensures
        p.method == method_of(uppercase(step.method@)),
        vstd::utf8::is_ascii_chars(step.method@) ==> p.method == method_named(step.method@),
        p.url@ == step.url@,
        pair_views(p.headers@) == planned_headers(string_views(step.headers@), step.body is Some),
        opt_string_view(p.body) == opt_string_view(step.body),
        step.body is None ==> pair_views(p.headers@) == parsed_headers(string_views(step.headers@)),
        step.body is Some && names_no_content_type(parsed_headers(string_views(step.headers@)))
            ==> pair_views(p.headers@) == parsed_headers(string_views(step.headers@)).push(
            (
                seq!['C', 'o', 'n', 't', 'e', 'n', 't', '-', 'T', 'y', 'p', 'e'],
                seq![
                    'a', 'p', 'p', 'l', 'i', 'c', 'a', 't', 'i', 'o', 'n', '/', 'j', 's', 'o', 'n'
                ],
            ),
        ),
        step.body is Some && !names_no_content_type(parsed_headers(string_views(step.headers@)))
            ==> pair_views(p.headers@) == parsed_headers(string_views(step.headers@)),
{
    proof {
        lemma_content_type_added(string_views(step.headers@), step.body is Some);
    }
    let method = parse_method(step.method.as_str());
    let mut headers: Vec<(String, String)> = Vec::new();
    let mut i: usize = 0;
    while i < step.headers.len()
        invariant
            i <= step.headers@.len(),
            pair_views(headers@) == parsed_headers(string_views(step.headers@.take(i as int))),
        decreases step.headers.len() - i,
    {
        let ghost old_headers = headers@;
        let parsed = parse_header(step.headers[i].as_str());
        let ghost lines = string_views(step.headers@.take(i + 1));
        assert(lines.drop_last() =~= string_views(step.headers@.take(i as int)));
        assert(lines.last() == step.headers@[i as int]@);
        match parsed {
            Some(pair) => {
                headers.push(pair);
                assert(pair_views(headers@) =~= pair_views(old_headers).push(
                    (pair.0@, pair.1@),
                ));
            },
            None => {},
        }
        i = i + 1;
    }
    assert(step.headers@.take(i as int) =~= step.headers@);
    let body = match &step.body {
        Some(b) => {
            if !has_content_type_header(&headers) {
                let name = "Content-Type".to_owned();
                let value = "application/json".to_owned();
                proof {
                    reveal_strlit("Content-Type");
                    reveal_strlit("application/json");
                    assert(name@ =~= json_content_type().0);
                    assert(value@ =~= json_content_type().1);
                }
                let ghost old_headers = headers@;
                headers.push((name, value));
                assert(pair_views(headers@) =~= pair_views(old_headers).push(
                    json_content_type(),
                ));
            }
            Some(b.clone())
        },
        None => None,
    };
    RequestPlan { method, url: step.url.clone(), headers, body }
}

// ─── Outcome of a step ───────────────────────────────────────────────────────

/// A status in 200..=299, the success class (`StatusCode::is_success`).
pub open spec fn is_success_status(status: u16) -> bool {
    200 <= status < 300
}

/// Exactly the statuses 200..=299 are successes; every informational,
/// redirect, client-error and server-error status is a failure.
pub proof fn lemma_success_class(status: u16)
    ensures
        is_success_status(status) <==> 200 <= status <= 299,
        status < 200 ==> !is_success_status(status),
        300 <= status ==> !is_success_status(status),
{
}

/// Whether a status is in the success class 200..=299.
pub fn status_is_success(status: u16) -> (b: bool)
    ensures
        b == is_success_status(status),
        b <==> 200 <= status && status <= 299,
{
    200 <= status && status < 300
}

/// Classifies what sending a step's request gave: the status when it is a
/// success, `BadStatus` with the status and the step's URL for any other
/// status, and `Request` when no response came back.
pub fn finish_step(sent: Result<u16, reqwest::Error>, url: &String) -> (r: Result<u16, HttpError>)
    ensures
        sent is Ok && is_success_status(sent->Ok_0) ==> r == Ok::<u16, HttpError>(sent->Ok_0),
        sent is Ok && !is_success_status(sent->Ok_0) ==> (r matches Err(
            HttpError::BadStatus { status, url: u },
        ) && status == sent->Ok_0 && u@ == url@),
        sent is Err ==> r == Err::<u16, HttpError>(HttpError::Request(sent->Err_0)),
        sent is Ok && 200 <= sent->Ok_0 <= 299 ==> r == Ok::<u16, HttpError>(sent->Ok_0),
        sent is Ok && (sent->Ok_0 < 200 || sent->Ok_0 > 299) ==> (r matches Err(
            HttpError::BadStatus { status, url: u },
        ) && status == sent->Ok_0 && u@ == url@),
{
    match sent {
        Ok(status) => {
            if status_is_success(status) {
                Ok(status)
            } else {
                Err(HttpError::BadStatus { status, url: url.clone() })
            }
        },
        Err(e) => Err(HttpError::Request(e)),
    }
}

/// `after` is `before` with one request counted, a success or a failure.
pub open spec fn counted(before: Counters, after: Counters, success: bool) -> bool {
    &&& after.total as int == (before.total + 1) % crate::metrics::counter_modulus()
    &&& success ==> after.success as int == (before.success + 1)
        % crate::metrics::counter_modulus() && after.failed == before.failed
    &&& !success ==> after.failed as int == (before.failed + 1)
        % crate::metrics::counter_modulus() && after.success == before.success
    &&& before.wf() ==> after.wf()
}

/// The HTTP status a step's outcome carries: the reply's status, whether it
/// was a success or a bad status, and 0 when no reply came back.
pub open spec fn outcome_status(outcome: Result<u16, HttpError>) -> u16 {
    match outcome {
        Ok(status) => status,
        Err(HttpError::BadStatus { status, .. }) => status,
        Err(HttpError::Request(_)) => 0,
    }
}

/// Counts a finished step and makes its measurement: it carries the reply's
/// HTTP status (also for a bad status), or 0 when no reply came back.
pub fn record_outcome(
    counters: &mut Counters,
    duration_ms: u64,
    outcome: &Result<u16, HttpError>,
) -> (m: Measurement)
    ensures
        m.duration_ms == duration_ms,
        m.success == outcome is Ok,
        m.status == outcome_status(*outcome),
        counted(*old(counters), *final(counters), outcome is Ok),
{
    let (success, status) = match outcome {
        Ok(s) => (true, *s),
        Err(HttpError::BadStatus { status, .. }) => (false, *status),
        Err(HttpError::Request(_)) => (false, 0u16),
    };
    counters.record(success);
    Measurement { duration_ms, status, success }
}

} // verus!
