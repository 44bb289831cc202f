//! Setup mode's rules: the one-time code, its attempt budget, and how a
//! credentials submission is checked and answered.
//!
//! The page is gated by a one-time setup code printed to the logs. After
//! `MAX_ATTEMPTS` wrong codes the flow locks until the process restarts;
//! after a successful submission it is closed for good.

use rand::Rng;
use vstd::prelude::*;

use crate::config::{ConfigError, R2Config, Tier1Config, config_error_text, validate_spec};
use crate::text::{
    chars_of, lower_seq, nat_dec, push_char, push_str, push_u64_dec, string_of, trim, trim_chars,
    upper_chars, upper_seq,
};
use crate::admin::trim_end_slashes;

verus! {

/// Wrong-code attempts allowed before the flow locks until restart.
pub const MAX_ATTEMPTS: u32 = 10;

/// Alphabet for setup codes: unambiguous uppercase and digits (no 0/O/1/I).
pub const CODE_ALPHABET: &'static str = "ABCDEFGHJKLMNPQRSTUVWXYZ23456789";

/// A character setup codes are drawn from.
pub open spec fn in_code_alphabet(c: char) -> bool {
    CODE_ALPHABET@.contains(c)
}

/// Draws a uniformly random index below `n` from the thread-local
/// generator (`rand::rng().random_range(0..n)`). Claimed: the index is
/// below `n`; the range is never empty.
#[verifier::external_body]
fn random_below(n: usize) -> (r: usize)
    requires
        n > 0,
    ensures
        r < n,
{
    rand::rng().random_range(0..n)
}

/// The code spelled by eight draws: the alphabet letters they index, with a
/// dash after the fourth.
pub open spec fn code_from_draws_spec(draws: Seq<usize>) -> Seq<char> {
    Seq::new(4, |i: int| CODE_ALPHABET@[draws[i] as int]) + seq!['-'] + Seq::new(
        4,
        |i: int| CODE_ALPHABET@[draws[i + 4] as int],
    )
}

/// Spells the setup code for eight draws, each an index into the code
/// alphabet: `XXXX-XXXX`.
pub fn code_from_draws(draws: &[usize; 8]) -> (r: String)
    requires
        forall|i: int| 0 <= i < 8 ==> #[trigger] draws@[i] < CODE_ALPHABET@.len(),
    ensures
        r@ == code_from_draws_spec(draws@),
{
    let alphabet = chars_of(CODE_ALPHABET);
    let mut s = String::new();
    let mut k: usize = 0;
    while k < 8
        invariant
            k <= 8,
            alphabet@ == CODE_ALPHABET@,
            forall|i: int| 0 <= i < 8 ==> #[trigger] draws@[i] < CODE_ALPHABET@.len(),
            s@ =~= code_from_draws_spec(draws@).take(if k <= 4 { k as int } else { k + 1 }),
        decreases 8 - k,
    {
        if k == 4 {
            push_char(&mut s, '-');
        }
        let d = draws[k];
        assert(d < CODE_ALPHABET@.len());
        push_char(&mut s, alphabet[d]);
        k = k + 1;
        assert(s@ =~= code_from_draws_spec(draws@).take(if k <= 4 { k as int } else { k + 1 }));
    }
    assert(code_from_draws_spec(draws@).len() == 9);
    s
}

/// Generates a setup code of the form `XXXX-XXXX` from the code alphabet,
/// each letter drawn uniformly at random.
pub fn generate_code() -> (r: String)
    ensures
        r@.len() == 9,
        r@[4] == '-',
        forall|i: int| 0 <= i < 9 && i != 4 ==> in_code_alphabet(#[trigger] r@[i]),
        exists|draws: Seq<usize>| r@ == code_from_draws_spec(draws),
{
    let n = chars_of(CODE_ALPHABET).len();
    proof {
        reveal_strlit("ABCDEFGHJKLMNPQRSTUVWXYZ23456789");
    }
    let mut draws: [usize; 8] = [0; 8];
    let mut k: usize = 0;
    while k < 8
        invariant
            k <= 8,
            n == CODE_ALPHABET@.len(),
            n > 0,
            draws@.len() == 8,
            forall|i: int| 0 <= i < k ==> #[trigger] draws@[i] < n,
        decreases 8 - k,
    {
        let d = random_below(n);
        draws.set(k, d);
        k = k + 1;
    }
    let r = code_from_draws(&draws);
    proof {
        let c = code_from_draws_spec(draws@);
        assert(c[4] == '-');
        assert forall|i: int| 0 <= i < 9 && i != 4 implies in_code_alphabet(#[trigger] c[i]) by {
            let d: int = if i < 4 { draws@[i] as int } else { draws@[i - 1] as int };
            if i < 4 {
                assert(c[i] == CODE_ALPHABET@[d]);
            } else {
                assert(c[i] == CODE_ALPHABET@[d]);
            }
            assert(CODE_ALPHABET@.contains(CODE_ALPHABET@[d]));
        }
    }
    r
}

/// A code as typed, made comparable: trimmed, uppercased, dashes dropped.
pub open spec fn normalize_spec(raw: Seq<char>) -> Seq<char> {
    upper_seq(trim(raw)).filter(|c: char| c != '-')
}

/// Normalizes user input for comparison against the generated code.
pub fn normalize_code(raw: &str) -> (r: String)
    ensures
        r@ == normalize_spec(raw@),
{
    let t = trim_chars(chars_of(raw).as_slice());
    let u = upper_chars(t.as_slice());
    let mut out: Vec<char> = Vec::new();
    let mut i: usize = 0;
    while i < u.len()
        invariant
            i <= u.len(),
            u@ == upper_seq(trim(raw@)),
            out@ == u@.take(i as int).filter(|c: char| c != '-'),
        decreases u.len() - i,
    {
        let c = u[i];
        assert(u@.take(i + 1) == u@.take(i as int).push(c));
        proof {
            u@.take(i as int).lemma_filter_push(c, |c: char| c != '-');
        }
        if c != '-' {
            out.push(c);
        }
        i = i + 1;
    }
    assert(u@.take(u.len() as int) == u@);
    string_of(out.as_slice())
}

/// The submit payload (field names mirror the form).
#[derive(Debug, Clone)]
pub struct SubmitRequest {
    /// One-time code from the logs.
    pub setup_code: String,
    /// Discord bot token.
    pub discord_token: String,
    /// Discord application id.
    pub client_id: String,
    /// Discord OAuth client secret.
    pub client_secret: String,
    /// Public origin for the embedded app.
    pub public_url: String,
    /// R2 endpoint URL.
    pub r2_endpoint: String,
    /// R2 bucket.
    pub r2_bucket: String,
    /// R2 access key id.
    pub r2_access_key_id: String,
    /// R2 secret access key.
    pub r2_secret_access_key: String,
}

/// One field-scoped validation error.
#[derive(Debug, Clone, PartialEq, Eq)]
pub struct FieldError {
    /// Form field name.
    pub field: &'static str,
    /// Human-readable message.
    pub message: String,
}

/// Submit outcome.
#[derive(Debug, Clone)]
pub struct SubmitResponse {
    /// True when config was validated and written.
    pub ok: bool,
    /// Field errors when `ok` is false.
    pub errors: Vec<FieldError>,
}

/// A field error.
pub fn err(field: &'static str, message: String) -> (r: FieldError)
    ensures
        r.field == field,
        r.message == message,
{
    FieldError { field, message }
}

/// A failed answer carrying one field error.
pub fn fail(status: u16, error: FieldError) -> (r: (u16, SubmitResponse))
    ensures
        r.0 == status,
        !r.1.ok,
        r.1.errors@ == seq![error],
{
    let mut errors: Vec<FieldError> = Vec::new();
    errors.push(error);
    (status, SubmitResponse { ok: false, errors })
}

/// A successful answer.
pub fn ok_response() -> (r: SubmitResponse)
    ensures
        r.ok,
        r.errors@.len() == 0,
{
    SubmitResponse { ok: true, errors: Vec::new() }
}

/// The candidate config: every field trimmed, the public URL also without
/// trailing slashes.
pub fn config_from(req: &SubmitRequest) -> (r: Tier1Config)
    ensures
        r.discord_token@ == trim(req.discord_token@),
        r.client_id@ == trim(req.client_id@),
        r.client_secret@ == trim(req.client_secret@),
        r.public_url@ == trim_end_slashes(trim(req.public_url@)),
        r.r2.endpoint@ == trim(req.r2_endpoint@),
        r.r2.bucket@ == trim(req.r2_bucket@),
        r.r2.access_key_id@ == trim(req.r2_access_key_id@),
        r.r2.secret_access_key@ == trim(req.r2_secret_access_key@),
{
    let url = trimmed(&req.public_url);
    Tier1Config {
        discord_token: trimmed(&req.discord_token),
        client_id: trimmed(&req.client_id),
        client_secret: trimmed(&req.client_secret),
        public_url: without_trailing_slashes(&url),
        r2: R2Config {
            endpoint: trimmed(&req.r2_endpoint),
            bucket: trimmed(&req.r2_bucket),
            access_key_id: trimmed(&req.r2_access_key_id),
            secret_access_key: trimmed(&req.r2_secret_access_key),
        },
    }
}

fn trimmed(s: &String) -> (r: String)
    ensures
        r@ == trim(s@),
{
    string_of(crate::text::trim_str(s.as_str()).as_slice())
}

fn without_trailing_slashes(s: &String) -> (r: String)
    ensures
        r@ == trim_end_slashes(s@),
{
    let v = chars_of(s.as_str());
    let mut n = v.len();
    assert(v@.take(n as int) == v@);
    while n > 0 && v[n - 1] == '/'
        invariant
            n <= v.len(),
            v@ == s@,
            trim_end_slashes(s@) == trim_end_slashes(v@.take(n as int)),
        decreases n,
    {
        assert(v@.take(n as int).drop_last() == v@.take(n - 1));
        n = n - 1;
    }
    let out = string_of(crate::text::slice_chars(v.as_slice(), 0, n).as_slice());
    assert(trim_end_slashes(v@.take(n as int)) == v@.take(n as int));
    out
}

// ---------------------------------------------------------------------
// The code gate
// ---------------------------------------------------------------------

/// How a code check ends.
#[derive(Debug, Clone, Copy, PartialEq, Eq, Structural)]
pub enum GateOutcome {
    /// The code matched; nothing is consumed.
    Passed,
    /// Setup already completed (410).
    Completed,
    /// The attempt budget is used up (429).
    Locked,
    /// Wrong code; one attempt consumed (401).
    Wrong,
}

/// The code check as a state machine over the attempt counter (`None` once setup
/// completed): the outcome and the counter after one check.
pub open spec fn gate_spec(attempts: Option<u32>, expected: Seq<char>, raw: Seq<char>) -> (GateOutcome, Option<u32>) {
    match attempts {
        None => (GateOutcome::Completed, None),
        Some(c) => if c >= MAX_ATTEMPTS {
            (GateOutcome::Locked, attempts)
        } else if normalize_spec(raw) != expected {
            (GateOutcome::Wrong, Some((c + 1) as u32))
        } else {
            (GateOutcome::Passed, attempts)
        },
    }
}

/// The status of a gate rejection.
pub open spec fn gate_status(o: GateOutcome) -> u16 {
    match o {
        GateOutcome::Completed => 410,
        GateOutcome::Locked => 429,
        _ => 401,
    }
}

/// The message of a gate rejection, given the attempts left.
pub open spec fn gate_message(o: GateOutcome, remaining: nat) -> Seq<char> {
    match o {
        GateOutcome::Completed => "setup already completed"@,
        GateOutcome::Locked => "too many attempts; restart leaf to get a new code"@,
        _ => "wrong code ("@ + nat_dec(remaining) + " attempts left)"@,
    }
}

/// Checks the setup code against the shared attempt budget. Single source
/// of the code-check semantics for both code verification and submission:
/// completed → 410, locked → 429, wrong → 401 and one attempt consumed.
pub fn gate_code(attempts: &mut Option<u32>, expected: &str, raw: &str) -> (r: Result<(), (u16, SubmitResponse)>)
    ensures
        *final(attempts) == gate_spec(*old(attempts), expected@, raw@).1,
        gate_spec(*old(attempts), expected@, raw@).0 == GateOutcome::Passed <==> r is Ok,
        r matches Err((status, resp)) ==> {
            let o = gate_spec(*old(attempts), expected@, raw@).0;
            let left = match *final(attempts) {
                Some(c) => MAX_ATTEMPTS - c,
                None => 0,
            };
            &&& status == gate_status(o)
            &&& !resp.ok
            &&& resp.errors@.len() == 1
            &&& resp.errors@[0].field@ == "setup_code"@
            &&& resp.errors@[0].message@ == gate_message(o, left as nat)
        },
{
    let count = match *attempts {
        None => {
            return Err(fail(410, err("setup_code", "setup already completed".to_owned())));
        },
        Some(c) => c,
    };
    if count >= MAX_ATTEMPTS {
        return Err(
            fail(429, err("setup_code", "too many attempts; restart leaf to get a new code".to_owned())),
        );
    }
    let given = normalize_code(raw);
    if !crate::text::str_eq(given.as_str(), expected) {
        let now = count + 1;
        *attempts = Some(now);
        let remaining = MAX_ATTEMPTS - now;
        let mut msg = String::new();
        push_str(&mut msg, "wrong code (");
        push_u64_dec(&mut msg, remaining as u64);
        push_str(&mut msg, " attempts left)");
        assert(msg@ =~= gate_message(GateOutcome::Wrong, remaining as nat));
        return Err(fail(401, err("setup_code", msg)));
    }
    Ok(())
}

/// The attempt counter never decreases and, once within the budget, stays
/// within it; a completed setup stays completed and answers 410; a gate at
/// or past the budget stays as it is and answers 429 whatever code is
/// given; a passing check consumes nothing.
pub proof fn lemma_gate_laws(attempts: Option<u32>, expected: Seq<char>, raw: Seq<char>)
    ensures
        ({
            let (o, next) = gate_spec(attempts, expected, raw);
            &&& attempts is None ==> o == GateOutcome::Completed && next is None
            &&& attempts matches Some(c) ==> next matches Some(d) && c <= d && (c <= MAX_ATTEMPTS ==> d
                <= MAX_ATTEMPTS)
            &&& attempts is Some && attempts->0 >= MAX_ATTEMPTS ==> o == GateOutcome::Locked && next == attempts
            &&& o == GateOutcome::Passed ==> next == attempts
            &&& o == GateOutcome::Wrong ==> next == Some((attempts->0 + 1) as u32)
        }),
{
}

/// The counter after a sequence of checks, starting from `attempts`.
pub open spec fn gate_run(attempts: Option<u32>, expected: Seq<char>, raws: Seq<Seq<char>>) -> Option<u32>
    decreases raws.len(),
{
    if raws.len() == 0 {
        attempts
    } else {
        gate_spec(gate_run(attempts, expected, raws.drop_last()), expected, raws.last()).1
    }
}

/// Verification and submission share one budget: after `MAX_ATTEMPTS`
/// wrong codes from a fresh start, the check is locked, so even the right
/// code is refused.
pub proof fn lemma_budget_exhausts(expected: Seq<char>, raws: Seq<Seq<char>>, right: Seq<char>)
    requires
        raws.len() == MAX_ATTEMPTS,
        forall|i: int| 0 <= i < raws.len() ==> normalize_spec(#[trigger] raws[i]) != expected,
    ensures
        gate_run(Some(0), expected, raws) == Some(MAX_ATTEMPTS),
        gate_spec(gate_run(Some(0), expected, raws), expected, right).0 == GateOutcome::Locked,
{
    lemma_wrong_codes_count(expected, raws);
}

proof fn lemma_wrong_codes_count(expected: Seq<char>, raws: Seq<Seq<char>>)
    requires
        raws.len() <= MAX_ATTEMPTS,
        forall|i: int| 0 <= i < raws.len() ==> normalize_spec(#[trigger] raws[i]) != expected,
    ensures
        gate_run(Some(0), expected, raws) == Some(raws.len() as u32),
    decreases raws.len(),
{
    if raws.len() > 0 {
        let prefix = raws.drop_last();
        assert forall|i: int| 0 <= i < prefix.len() implies normalize_spec(#[trigger] prefix[i]) != expected by {
            assert(prefix[i] == raws[i]);
        }
        lemma_wrong_codes_count(expected, prefix);
        assert(normalize_spec(raws[raws.len() - 1]) != expected);
    }
}

// ---------------------------------------------------------------------
// Submission
// ---------------------------------------------------------------------

/// The form field a shape-validation error belongs to.
pub open spec fn shape_field_spec(e: ConfigError) -> Seq<char> {
    match e {
        ConfigError::EmptyField(name) => if name@ == "discord_token"@ {
            "discord_token"@
        } else if name@ == "client_id"@ {
            "client_id"@
        } else if name@ == "client_secret"@ {
            "client_secret"@
        } else if name@ == "public_url"@ {
            "public_url"@
        } else if name@ == "r2.endpoint"@ {
            "r2_endpoint"@
        } else if name@ == "r2.bucket"@ {
            "r2_bucket"@
        } else if name@ == "r2.access_key_id"@ {
            "r2_access_key_id"@
        } else {
            "r2_secret_access_key"@
        },
        _ => "public_url"@,
    }
}

/// Maps a shape-validation error to the form field it belongs to.
pub fn shape_error_field(e: &ConfigError) -> (r: &'static str)
    ensures
        r@ == shape_field_spec(*e),
{
    match e {
        ConfigError::EmptyField(name) => {
            if crate::text::str_eq(name, "discord_token") {
                "discord_token"
            } else if crate::text::str_eq(name, "client_id") {
                "client_id"
            } else if crate::text::str_eq(name, "client_secret") {
                "client_secret"
            } else if crate::text::str_eq(name, "public_url") {
                "public_url"
            } else if crate::text::str_eq(name, "r2.endpoint") {
                "r2_endpoint"
            } else if crate::text::str_eq(name, "r2.bucket") {
                "r2_bucket"
            } else if crate::text::str_eq(name, "r2.access_key_id") {
                "r2_access_key_id"
            } else {
                "r2_secret_access_key"
            }
        },
        _ => "public_url",
    }
}

/// Shape validation of a submission: the trimmed config, or a 422 naming
/// the first offending field with the validation message.
pub fn shape_check(req: &SubmitRequest) -> (r: Result<Tier1Config, (u16, SubmitResponse)>)
    ensures
        match r {
            Ok(c) => validate_spec(c) is Ok,
            Err((status, resp)) => status == 422 && !resp.ok && resp.errors@.len() == 1,
        },
{
    let cfg = config_from(req);
    match cfg.validate() {
        Ok(()) => Ok(cfg),
        Err(e) => {
            let field = shape_error_field(&e);
            Err(fail(422, err(field, e.message())))
        },
    }
}

/// The liveness outcome: a 422 listing each failed service check (the bot
/// token check under `discord_token`, the storage check under
/// `r2_endpoint`), or `None` when both passed.
pub fn liveness_outcome(discord: Result<(), String>, r2: Result<(), String>) -> (r: Option<(u16, SubmitResponse)>)
    ensures
        (discord is Ok && r2 is Ok) <==> r is None,
        r matches Some((status, resp)) ==> {
            &&& status == 422
            &&& !resp.ok
            &&& resp.errors@.len() == (if discord is Err { 1int } else { 0int }) + (if r2 is Err { 1int } else { 0int })
            &&& discord matches Err(m) ==> resp.errors@[0].field@ == "discord_token"@ && resp.errors@[0].message == m
            &&& r2 matches Err(m) ==> resp.errors@.last().field@ == "r2_endpoint"@ && resp.errors@.last().message == m
        },
{
    let mut errors: Vec<FieldError> = Vec::new();
    if let Err(msg) = discord {
        errors.push(err("discord_token", msg));
    }
    if let Err(msg) = r2 {
        errors.push(err("r2_endpoint", msg));
    }
    if errors.len() == 0 {
        None
    } else {
        Some((422, SubmitResponse { ok: false, errors }))
    }
}

/// The verdict of the bot-token check (`GET /users/@me`) from its HTTP
/// status and that status as text (e.g. `403 Forbidden`): a success status
/// passes, 401 means the token was rejected, anything else is reported
/// with its status. The token itself never appears.
pub open spec fn bot_token_verdict_spec(status: u16, status_text: Seq<char>) -> Result<(), Seq<char>> {
    if 200 <= status && status < 300 {
        Ok(())
    } else if status == 401 {
        Err("Discord rejected the bot token"@)
    } else {
        Err("Discord returned "@ + status_text + " for the bot token check"@)
    }
}

/// The verdict of the bot-token check.
pub fn bot_token_verdict(status: u16, status_text: &str) -> (r: Result<(), String>)
    ensures
        match r {
            Ok(()) => bot_token_verdict_spec(status, status_text@) == Ok::<(), Seq<char>>(()),
            Err(m) => bot_token_verdict_spec(status, status_text@) == Err::<(), Seq<char>>(m@),
        },
{
    if 200 <= status && status < 300 {
        Ok(())
    } else if status == 401 {
        Err("Discord rejected the bot token".to_owned())
    } else {
        let mut m = String::new();
        push_str(&mut m, "Discord returned ");
        push_str(&mut m, status_text);
        push_str(&mut m, " for the bot token check");
        Err(m)
    }
}

/// The verdict of the client id / secret check (a client-credentials
/// grant): it passes exactly when the grant succeeded.
pub fn client_pair_verdict(granted: bool) -> (r: Result<(), String>)
    ensures
        granted <==> r is Ok,
        r matches Err(m) ==> m@ == "Discord rejected the client ID / client secret pair"@,
{
    if granted {
        Ok(())
    } else {
        Err("Discord rejected the client ID / client secret pair".to_owned())
    }
}

/// The answer when the validated config could not be written (500).
pub fn save_failed(detail: &str) -> (r: (u16, SubmitResponse))
    ensures
        r.0 == 500,
        !r.1.ok,
        r.1.errors@.len() == 1,
        r.1.errors@[0].field@ == "setup_code"@,
        r.1.errors@[0].message@ == "could not write config: "@ + detail@,
{
    let mut msg = String::new();
    push_str(&mut msg, "could not write config: ");
    push_str(&mut msg, detail);
    fail(500, err("setup_code", msg))
}

/// Closes the flow after a successful submission: no further submissions
/// are accepted.
pub fn complete(attempts: &mut Option<u32>) -> (r: (u16, SubmitResponse))
    ensures
        *final(attempts) is None,
        r.0 == 200,
        r.1.ok,
        r.1.errors@.len() == 0,
{
    *attempts = None;
    (200, ok_response())
}

} // verus!
