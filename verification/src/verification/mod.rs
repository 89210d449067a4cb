use vstd::prelude::*;
use crate::error::{EpistemError, ErrorView};
use crate::manifest::models::TestSuitePaths;
use crate::text::{opt_view, trim};
use crate::utils::paths::{joined_path, plain_join};

verus! {

/// A verification suite a provider ships: named steps, each an operation and the status it
/// must answer with.
#[derive(Debug, Clone, PartialEq, Eq)]
pub struct VerificationSuite {
    pub name: String,
    pub steps: Vec<VerificationStep>,
}

/// One step of a suite.
#[derive(Debug, Clone, PartialEq, Eq)]
pub struct VerificationStep {
    pub operation: String,
    pub expect: VerificationExpectation,
}

/// What a step expects back.
#[derive(Debug, Clone, PartialEq, Eq)]
pub struct VerificationExpectation {
    pub status: String,
}

/// Runs verification suites against a provider. The exchange with the provider happens
/// elsewhere; this decides which suites run and what the answers mean.
#[derive(Debug, Default, Clone, Copy)]
pub struct VerificationRunner;

/// The suites of a provider rooted at `root`: the startup suite, then the smoke suite.
pub open spec fn suite_paths_of(root: Seq<char>, tests: TestSuitePaths) -> Seq<Seq<char>> {
    (match tests.startup {
        Some(s) => seq![joined_path(root, s@)],
        None => Seq::empty(),
    }) + (match tests.smoke {
        Some(s) => seq![joined_path(root, s@)],
        None => Seq::empty(),
    })
}

/// The suites of a provider rooted at a non-empty `root`, as joined text.
pub open spec fn plain_suite_paths(root: Seq<char>, tests: TestSuitePaths) -> Seq<Seq<char>> {
    (match tests.startup {
        Some(s) => seq![plain_join(root, s@)],
        None => Seq::empty(),
    }) + (match tests.smoke {
        Some(s) => seq![plain_join(root, s@)],
        None => Seq::empty(),
    })
}

/// Where the suites of a provider rooted at `provider_root` are, in the order they run.
pub fn suite_paths(provider_root: &str, tests: &TestSuitePaths) -> (r: Vec<String>)
    ensures
        r.deep_view() == suite_paths_of(provider_root@, *tests),
        provider_root@.len() > 0 ==> r.deep_view() == plain_suite_paths(provider_root@, *tests),
{
    let mut r: Vec<String> = Vec::new();
    if let Some(startup) = &tests.startup {
        r.push(crate::utils::paths::path_join(provider_root, startup.as_str()));
    }
    if let Some(smoke) = &tests.smoke {
        r.push(crate::utils::paths::path_join(provider_root, smoke.as_str()));
    }
    assert(r.deep_view() =~= suite_paths_of(provider_root@, *tests));
    assert(provider_root@.len() > 0 ==> r.deep_view() =~= plain_suite_paths(provider_root@, *tests));
    r
}


/// The hexadecimal digit of a number below sixteen, in lower case.
pub open spec fn hex_digit(n: int) -> char {
    if n < 10 {
        (('0' as int) + n) as char
    } else {
        (('a' as int) + n - 10) as char
    }
}

/// How a character is written inside a JSON string: `"` and `\` behind a backslash, the
/// control characters backspace, tab, line feed, form feed and carriage return as `\b`,
/// `\t`, `\n`, `\f` and `\r`, the other characters below U+0020 as `\u00` and two
/// lower-case hexadecimal digits, and every other character as itself.
pub open spec fn json_escaped_char(c: char) -> Seq<char> {
    if c == '"' {
        seq!['\\', '"']
    } else if c == '\\' {
        seq!['\\', '\\']
    } else if c == '\u{8}' {
        seq!['\\', 'b']
    } else if c == '\t' {
        seq!['\\', 't']
    } else if c == '\n' {
        seq!['\\', 'n']
    } else if c == '\u{c}' {
        seq!['\\', 'f']
    } else if c == '\r' {
        seq!['\\', 'r']
    } else if (c as int) < 0x20 {
        seq!['\\', 'u', '0', '0', hex_digit((c as int) / 16), hex_digit((c as int) % 16)]
    } else {
        seq![c]
    }
}

/// The characters of a text as written inside a JSON string.
pub open spec fn json_escaped(s: Seq<char>) -> Seq<char>
    decreases s.len(),
{
    if s.len() == 0 {
        Seq::empty()
    } else {
        json_escaped(s.drop_last()) + json_escaped_char(s.last())
    }
}

/// A text written as a JSON string.
pub open spec fn json_quoted(s: Seq<char>) -> Seq<char> {
    seq!['"'] + json_escaped(s) + seq!['"']
}

/// The compact JSON text of an object with one member whose value is a string.
pub open spec fn json_object_text(key: Seq<char>, value: Seq<char>) -> Seq<char> {
    seq!['{'] + json_quoted(key) + seq![':'] + json_quoted(value) + seq!['}']
}

/// Names what reading a JSON text gives for one member: the parser's error message when the
/// text is not JSON; otherwise the member's text when the text is an object whose member
/// `key` is a string, and none when it is not.
pub uninterp spec fn json_str_member(text: Seq<char>, key: Seq<char>) -> Result<
    Option<Seq<char>>,
    Seq<char>,
>;

/// `serde_json::Value`'s compact display of the object `{key: value}`. As the source of
/// `serde_json::ser` shows, the key and the value are written as JSON strings, escaped as
/// `json_escaped_char` says.
#[verifier::external_body]
fn encode_object(key: &str, value: &str) -> (r: String)
    ensures
        r@ == json_object_text(key@, value@),
{
    let mut object = serde_json::Map::new();
    object.insert(key.to_string(), serde_json::Value::String(value.to_string()));
    serde_json::Value::Object(object).to_string()
}

/// `serde_json::from_str` into a `serde_json::Value`, then the member `key` of the value
/// when it is a string (`Value::get`, `Value::as_str`). Its result is named
/// `json_str_member`; which texts parse, and the wording of the parser's errors, are left
/// unsaid here.
#[verifier::external_body]
fn decode_str_member(text: &str, key: &str) -> (r: Result<Option<String>, String>)
    ensures
        match r {
            Ok(o) => json_str_member(text@, key@) == Ok::<Option<Seq<char>>, Seq<char>>(
                opt_view(o),
            ),
            Err(m) => json_str_member(text@, key@) == Err::<Option<Seq<char>>, Seq<char>>(m@),
        },
{
    match serde_json::from_str::<serde_json::Value>(text) {
        Ok(value) => Ok(value.get(key).and_then(|v| v.as_str()).map(|s| s.to_string())),
        Err(e) => Err(e.to_string()),
    }
}

/// The line sent to a provider for a step: the JSON object `{"operation": ...}`.
pub fn request_line(step: &VerificationStep) -> (r: String)
    ensures
        r@ == json_object_text("operation"@, step.operation@),
{
    encode_object("operation", step.operation.as_str())
}

/// The failure of a step that was answered with `status`.
pub open spec fn step_failure(suite: Seq<char>, expected: Seq<char>, status: Seq<char>) -> ErrorView {
    ErrorView::Registry(
        "verification "@ + suite + " failed: expected status "@ + expected + ", got "@ + status,
    )
}

/// What a step comes to given what reading the reply's `status` member gave: a reply that
/// is not JSON is a JSON error; otherwise the status (empty when the reply has no string
/// `status`) must be the expected one.
pub open spec fn reply_outcome_of(
    suite: Seq<char>,
    expected: Seq<char>,
    decoded: Result<Option<Seq<char>>, Seq<char>>,
) -> Result<(), ErrorView> {
    match decoded {
        Err(m) => Err(ErrorView::Json(m)),
        Ok(o) => {
            let status = match o {
                Some(s) => s,
                None => Seq::empty(),
            };
            if status == expected {
                Ok(())
            } else {
                Err(step_failure(suite, expected, status))
            }
        },
    }
}

/// What a provider's reply line comes to for a step: a blank reply is an error; otherwise
/// its trimmed text is read as JSON and its `status` checked.
pub open spec fn reply_line_outcome(suite: Seq<char>, expected: Seq<char>, line: Seq<char>) -> Result<
    (),
    ErrorView,
> {
    if trim(line).len() == 0 {
        Err(ErrorView::Registry("provider returned an empty response"@))
    } else {
        reply_outcome_of(suite, expected, json_str_member(trim(line), "status"@))
    }
}

/// A result with the error seen through its texts.
pub open spec fn unit_result_view(r: Result<(), EpistemError>) -> Result<(), ErrorView> {
    match r {
        Ok(()) => Ok(()),
        Err(e) => Err(e@),
    }
}

impl VerificationRunner {
    /// What the status a provider answered a step with comes to: the step passes when it is
    /// the expected one.
    pub fn check_step(&self, suite: &VerificationSuite, step: &VerificationStep, status: &str) -> (r:
        Result<(), EpistemError>)
        ensures
            status@ == step.expect.status@ ==> r is Ok,
            status@ != step.expect.status@ ==> (r matches Err(e) && e@ == ErrorView::Registry(
                "verification "@ + suite.name@ + " failed: expected status "@
                    + step.expect.status@ + ", got "@ + status@,
            )),
    {
        if crate::text::str_eq(status, step.expect.status.as_str()) {
            Ok(())
        } else {
            let mut m = crate::text::concat3("verification ", suite.name.as_str(), " failed: expected status ");
            m.append(step.expect.status.as_str());
            m.append(", got ");
            m.append(status);
            Err(EpistemError::Registry(m))
        }
    }

    /// What a step comes to given what reading the reply's `status` member gave.
    pub fn reply_outcome(
        &self,
        suite: &VerificationSuite,
        step: &VerificationStep,
        decoded: Result<Option<String>, String>,
    ) -> (r: Result<(), EpistemError>)
        ensures
            unit_result_view(r) == reply_outcome_of(
                suite.name@,
                step.expect.status@,
                match decoded {
                    Ok(o) => Ok::<Option<Seq<char>>, Seq<char>>(opt_view(o)),
                    Err(m) => Err::<Option<Seq<char>>, Seq<char>>(m@),
                },
            ),
    {
        match decoded {
            Err(m) => Err(EpistemError::Json(m)),
            Ok(o) => {
                let status = match o {
                    Some(s) => s,
                    None => String::new(),
                };
                self.check_step(suite, step, status.as_str())
            },
        }
    }

    /// What a provider's reply line comes to for a step.
    pub fn check_reply(&self, suite: &VerificationSuite, step: &VerificationStep, line: &str) -> (r:
        Result<(), EpistemError>)
        ensures
            unit_result_view(r) == reply_line_outcome(suite.name@, step.expect.status@, line@),
    {
        let text = match crate::runtime::RuntimeController.reply_text(line) {
            Ok(t) => t,
            Err(e) => return Err(e),
        };
        let decoded = decode_str_member(text.as_str(), "status");
        self.reply_outcome(suite, step, decoded)
    }
}

} // verus!
