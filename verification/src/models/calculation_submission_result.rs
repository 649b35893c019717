//! The answer to a submitted calculation: a status code and, when a task
//! was created, its id.
use vstd::prelude::*;
use crate::text::{ascii_upper, is_ascii_text, push_str, starts_with_char, str_eq, to_uppercase, uppercase_of};

verus! {

/// Result of submitting a calculation request.
#[derive(Debug, Clone, PartialEq, Eq, Hash)]
pub struct CalculationSubmissionResult {
    pub status_code: String,
    pub task_id: Option<String>,
}

/// The contents of an optional string.
pub open spec fn opt_view(o: Option<String>) -> Option<Seq<char>> {
    match o {
        Some(s) => Some(s@),
        None => None,
    }
}

/// A status means success when its uppercase form is `SUCCESS` or `OK`, or
/// when it is an HTTP 2xx-style code (starts with `2`).
pub open spec fn success_status(upper: Seq<char>, code: Seq<char>) -> bool {
    upper == "SUCCESS"@ || upper == "OK"@ || (code.len() > 0 && code[0] == '2')
}

/// A status means an error when its uppercase form is `ERROR`, or when it
/// is an HTTP 4xx/5xx-style code (starts with `4` or `5`).
pub open spec fn error_status(upper: Seq<char>, code: Seq<char>) -> bool {
    upper == "ERROR"@ || (code.len() > 0 && (code[0] == '4' || code[0] == '5'))
}

/// Decides success from a status code and its uppercase form.
pub fn is_success_status(uppercased: &str, status_code: &str) -> (r: bool)
    ensures
        r == success_status(uppercased@, status_code@),
{
    str_eq(uppercased, "SUCCESS") || str_eq(uppercased, "OK") || starts_with_char(status_code, '2')
}

/// Decides failure from a status code and its uppercase form.
pub fn is_error_status(uppercased: &str, status_code: &str) -> (r: bool)
    ensures
        r == error_status(uppercased@, status_code@),
{
    str_eq(uppercased, "ERROR") || starts_with_char(status_code, '4') || starts_with_char(status_code, '5')
}

impl CalculationSubmissionResult {
    /// The text form: `CalculationSubmissionResult { status: S, task_id: T }`,
    /// without the task part when there is no task id.
    pub open spec fn text_spec(self) -> Seq<char> {
        match self.task_id {
            Some(t) => "CalculationSubmissionResult { status: "@ + self.status_code@ + ", task_id: "@ + t@ + " }"@,
            None => "CalculationSubmissionResult { status: "@ + self.status_code@ + " }"@,
        }
    }

    pub fn new(status_code: String, task_id: Option<String>) -> (r: Self)
        ensures
            r.status_code == status_code,
            r.task_id == task_id,
    {
        CalculationSubmissionResult { status_code, task_id }
    }

    pub fn with_status_code(status_code: String) -> (r: Self)
        ensures
            r.status_code == status_code,
            r.task_id is None,
    {
        CalculationSubmissionResult { status_code, task_id: None }
    }

    pub fn status_code(&self) -> (r: &str)
        ensures
            r@ == self.status_code@,
    {
        self.status_code.as_str()
    }

    pub fn set_status_code(&mut self, status_code: String)
        ensures
            final(self).status_code == status_code,
            final(self).task_id == old(self).task_id,
    {
        self.status_code = status_code;
    }

    pub fn task_id(&self) -> (r: Option<&str>)
        ensures
            match r {
                Some(t) => self.task_id matches Some(s) && t@ == s@,
                None => self.task_id is None,
            },
    {
        match &self.task_id {
            Some(t) => Some(t.as_str()),
            None => None,
        }
    }

    pub fn set_task_id(&mut self, task_id: Option<String>)
        ensures
            final(self).task_id == task_id,
            final(self).status_code == old(self).status_code,
    {
        self.task_id = task_id;
    }

    /// Whether the status reports success (see `success_status`).
    pub fn is_success(&self) -> (r: bool)
        ensures
            r == success_status(uppercase_of(self.status_code@), self.status_code@),
            is_ascii_text(self.status_code@) ==> r == success_status(
                self.status_code@.map_values(|c: char| ascii_upper(c)),
                self.status_code@,
            ),
            r ==> !error_status(uppercase_of(self.status_code@), self.status_code@),
    {
        let upper = to_uppercase(self.status_code.as_str());
        proof {
            law_success_and_error_exclusive(self.status_code@, upper@);
        }
        is_success_status(upper.as_str(), self.status_code.as_str())
    }

    /// Whether the status reports an error (see `error_status`).
    pub fn is_error(&self) -> (r: bool)
        ensures
            r == error_status(uppercase_of(self.status_code@), self.status_code@),
            is_ascii_text(self.status_code@) ==> r == error_status(
                self.status_code@.map_values(|c: char| ascii_upper(c)),
                self.status_code@,
            ),
            r ==> !success_status(uppercase_of(self.status_code@), self.status_code@),
    {
        let upper = to_uppercase(self.status_code.as_str());
        proof {
            law_success_and_error_exclusive(self.status_code@, upper@);
        }
        is_error_status(upper.as_str(), self.status_code.as_str())
    }

    pub fn has_task_id(&self) -> (r: bool)
        ensures
            r == self.task_id is Some,
    {
        self.task_id.is_some()
    }

    pub fn into_task_id(self) -> (r: Option<String>)
        ensures
            r == self.task_id,
    {
        self.task_id
    }

    pub fn builder() -> (b: CalculationSubmissionResultBuilder)
        ensures
            b.status_code is None,
            b.task_id is None,
    {
        CalculationSubmissionResultBuilder::new()
    }

    /// Status `SUCCESS` with the given task.
    pub fn success(task_id: String) -> (r: Self)
        ensures
            r.status_code@ == "SUCCESS"@,
            r.task_id == Some(task_id),
    {
        Self::new(String::from_str("SUCCESS"), Some(task_id))
    }

    /// Status `SUCCESS` without a task.
    pub fn success_no_task() -> (r: Self)
        ensures
            r.status_code@ == "SUCCESS"@,
            r.task_id is None,
    {
        Self::with_status_code(String::from_str("SUCCESS"))
    }

    /// The given error code as status, without a task.
    pub fn error(error_code: String) -> (r: Self)
        ensures
            r.status_code == error_code,
            r.task_id is None,
    {
        Self::with_status_code(error_code)
    }

    /// Status `PENDING` with the given task.
    pub fn pending(task_id: String) -> (r: Self)
        ensures
            r.status_code@ == "PENDING"@,
            r.task_id == Some(task_id),
    {
        Self::new(String::from_str("PENDING"), Some(task_id))
    }

    /// Status `REJECTED` without a task.
    pub fn rejected() -> (r: Self)
        ensures
            r.status_code@ == "REJECTED"@,
            r.task_id is None,
    {
        Self::with_status_code(String::from_str("REJECTED"))
    }

    /// The text form (see `text_spec`).
    pub fn to_string(&self) -> (s: String)
        ensures
            s@ == self.text_spec(),
    {
        let mut s = String::from_str("CalculationSubmissionResult { status: ");
        push_str(&mut s, self.status_code.as_str());
        match &self.task_id {
            Some(t) => {
                push_str(&mut s, ", task_id: ");
                push_str(&mut s, t.as_str());
                push_str(&mut s, " }");
            },
            None => {
                push_str(&mut s, " }");
            },
        }
        s
    }
}

impl Default for CalculationSubmissionResult {
    /// Status `UNKNOWN` without a task.
    fn default() -> (r: Self)
        ensures
            r.status_code@ == "UNKNOWN"@,
            r.task_id is None,
    {
        CalculationSubmissionResult { status_code: String::from_str("UNKNOWN"), task_id: None }
    }
}

/// Step-by-step construction of a `CalculationSubmissionResult`.
#[derive(Debug)]
pub struct CalculationSubmissionResultBuilder {
    pub status_code: Option<String>,
    pub task_id: Option<String>,
}

impl CalculationSubmissionResultBuilder {
    pub fn new() -> (b: Self)
        ensures
            b.status_code is None,
            b.task_id is None,
    {
        CalculationSubmissionResultBuilder { status_code: None, task_id: None }
    }

    pub fn status_code(self, status_code: &str) -> (b: Self)
        ensures
            opt_view(b.status_code) == Some(status_code@),
            b.task_id == self.task_id,
    {
        CalculationSubmissionResultBuilder { status_code: Some(String::from_str(status_code)), task_id: self.task_id }
    }

    pub fn task_id(self, task_id: &str) -> (b: Self)
        ensures
            opt_view(b.task_id) == Some(task_id@),
            b.status_code == self.status_code,
    {
        CalculationSubmissionResultBuilder { status_code: self.status_code, task_id: Some(String::from_str(task_id)) }
    }

    pub fn no_task_id(self) -> (b: Self)
        ensures
            b.task_id is None,
            b.status_code == self.status_code,
    {
        CalculationSubmissionResultBuilder { status_code: self.status_code, task_id: None }
    }

    /// The result, or an error when no status code was given.
    pub fn build(self) -> (r: Result<CalculationSubmissionResult, &'static str>)
        ensures
            r is Ok <==> self.status_code is Some,
            r matches Ok(v) ==> Some(v.status_code) == self.status_code && v.task_id == self.task_id,
            r matches Err(e) ==> e@ == "status_code is required"@,
    {
        match self.status_code {
            Some(status_code) => Ok(CalculationSubmissionResult { status_code, task_id: self.task_id }),
            None => Err("status_code is required"),
        }
    }
}

impl Default for CalculationSubmissionResultBuilder {
    fn default() -> (b: Self)
        ensures
            b.status_code is None,
            b.task_id is None,
    {
        Self::new()
    }
}

/// No status code reads as both success and error: the tests compare the
/// uppercase form with words of different first letters and the code's
/// first character with different digits, and a leading ASCII character
/// keeps its place in the uppercase form (see `to_uppercase`).
pub proof fn law_success_and_error_exclusive(code: Seq<char>, upper: Seq<char>)
    requires
        code.len() > 0 && (code[0] as int) < 128 ==> upper.len() > 0 && upper[0] == ascii_upper(code[0]),
    ensures
        !(success_status(upper, code) && error_status(upper, code)),
{
    reveal_strlit("SUCCESS");
    reveal_strlit("OK");
    reveal_strlit("ERROR");
    assert("SUCCESS"@.len() == 7 && "SUCCESS"@[0] == 'S');
    assert("OK"@.len() == 2 && "OK"@[0] == 'O');
    assert("ERROR"@.len() == 5 && "ERROR"@[0] == 'E');
    if code.len() > 0 {
        let c = code[0];
        if c == '2' || c == '4' || c == '5' {
            assert(ascii_upper(c) == c);
            assert(upper[0] == c);
        }
    }
}

} // verus!
