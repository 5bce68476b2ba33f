//! Decisions of the login and registration exchanges with the server: what
//! is sent, and what each answer means.

use vstd::prelude::*;
use crate::distro::{trim_ws, trim_whitespace};
use crate::models::{ApiResponse, LoginRequest, LoginResponse, RegisterRequest, SecurityQuestion, UserInfoResponse};
use crate::nav::LoginResult;
use crate::text::{chars_of, str_eq, string_from_chars};

verus! {

/// Why a login did not go through.
#[derive(Debug, Clone, Copy, PartialEq, Eq, Structural)]
pub enum LoginFailure {
    /// The login answer carried no token.
    MissingToken,
    /// The user information could not be read.
    NoUserInfo,
    /// The account is banned (status "0").
    Banned,
}

impl LoginFailure {
    /// The message shown on the login page.
    pub fn message(&self) -> (r: &'static str)
        ensures
            r@ == match *self {
                LoginFailure::MissingToken => "登录响应缺少 token"@,
                LoginFailure::NoUserInfo => "获取用户信息失败"@,
                LoginFailure::Banned => "账号已被封禁，无法登录"@,
            },
    {
        match self {
            LoginFailure::MissingToken => "登录响应缺少 token",
            LoginFailure::NoUserInfo => "获取用户信息失败",
            LoginFailure::Banned => "账号已被封禁，无法登录",
        }
    }
}

/// The captcha fields of a request: sent only when the captcha is on.
pub open spec fn captcha_field(enabled: bool, value: Seq<char>) -> Option<Seq<char>> {
    if enabled {
        Some(value)
    } else {
        None
    }
}

/// Mathematical form of an optional text.
pub open spec fn opt_seq(o: Option<String>) -> Option<Seq<char>> {
    match o {
        Some(s) => Some(s@),
        None => None,
    }
}

fn captcha_value(enabled: bool, value: &str) -> (r: Option<String>)
    ensures
        opt_seq(r) == captcha_field(enabled, value@),
{
    if enabled {
        Some(value.to_string())
    } else {
        None
    }
}

/// The login request body.
pub fn login_request(username: &str, password: &str, captcha_enabled: bool, captcha: &str, uuid: &str) -> (r: LoginRequest)
    ensures
        r.username@ == username@,
        r.password@ == password@,
        opt_seq(r.code) == captcha_field(captcha_enabled, captcha@),
        opt_seq(r.uuid) == captcha_field(captcha_enabled, uuid@),
{
    LoginRequest {
        username: username.to_string(),
        password: password.to_string(),
        code: captcha_value(captcha_enabled, captcha),
        uuid: captcha_value(captcha_enabled, uuid),
    }
}

/// The token of a login answer: empty when the answer has no data.
pub open spec fn answer_token(resp: ApiResponse<LoginResponse>) -> Seq<char> {
    match resp.data {
        Some(d) => d.token@,
        None => seq![],
    }
}

/// The session token from the login answer; a missing or empty one fails the login.
pub fn login_token(resp: &ApiResponse<LoginResponse>) -> (r: Result<String, LoginFailure>)
    ensures
        answer_token(*resp).len() == 0 ==> r == Err::<String, LoginFailure>(LoginFailure::MissingToken),
        answer_token(*resp).len() > 0 ==> (r matches Ok(t) && t@ == answer_token(*resp)),
{
    let token = match &resp.data {
        Some(d) => d.token.clone(),
        None => String::new(),
    };
    if token.as_str().is_empty() {
        Err(LoginFailure::MissingToken)
    } else {
        Ok(token)
    }
}

/// The outcome of a login once the user information arrived: the session,
/// or why it is refused.
pub fn login_result(token: String, info: ApiResponse<UserInfoResponse>) -> (r: Result<LoginResult, LoginFailure>)
    ensures
        match info.data {
            None => r == Err::<LoginResult, LoginFailure>(LoginFailure::NoUserInfo),
            Some(d) => if d.user.status@ == "0"@ {
                r == Err::<LoginResult, LoginFailure>(LoginFailure::Banned)
            } else {
                r matches Ok(res) && res.token@ == token@ && res.user == d.user
            },
        },
{
    match info.data {
        None => Err(LoginFailure::NoUserInfo),
        Some(d) => {
            if str_eq(d.user.status.as_str(), "0") {
                Err(LoginFailure::Banned)
            } else {
                Ok(LoginResult { token, user: d.user })
            }
        },
    }
}

/// Mathematical form of a list of security questions.
pub open spec fn questions_view(qs: Seq<SecurityQuestion>) -> Seq<(Seq<char>, Seq<char>)> {
    qs.map_values(|q: SecurityQuestion| (q.question@, q.answer@))
}

fn trimmed(s: &str) -> (r: String)
    ensures
        r@ == trim_ws(s@),
{
    string_from_chars(trim_whitespace(chars_of(s).as_slice()).as_slice())
}

/// The registration request: the nickname defaults to the user name, the
/// three security questions and answers are sent trimmed.
pub fn register_request(
    username: &str,
    password: &str,
    nickname: &str,
    captcha_enabled: bool,
    captcha: &str,
    uuid: &str,
    questions: &[SecurityQuestion],
) -> (r: RegisterRequest)
    requires
        questions@.len() >= 3,
    ensures
        r.username@ == username@,
        r.password@ == password@,
        r.nickname@ == (if nickname@.len() == 0 { username@ } else { nickname@ }),
        opt_seq(r.code) == captcha_field(captcha_enabled, captcha@),
        opt_seq(r.uuid) == captcha_field(captcha_enabled, uuid@),
        questions_view(r.security_questions@) == Seq::new(3, |i: int|
            (trim_ws(questions@[i].question@), trim_ws(questions@[i].answer@))),
{
    let mut qs: Vec<SecurityQuestion> = Vec::new();
    let mut i: usize = 0;
    while i < 3
        invariant
            0 <= i <= 3,
            questions@.len() >= 3,
            questions_view(qs@) == Seq::new(i as nat, |k: int|
                (trim_ws(questions@[k].question@), trim_ws(questions@[k].answer@))),
        decreases 3 - i,
    {
        let q = SecurityQuestion {
            question: trimmed(questions[i].question.as_str()),
            answer: trimmed(questions[i].answer.as_str()),
        };
        let ghost before = qs@;
        let ghost entry = (q.question@, q.answer@);
        assert(entry == (trim_ws(questions@[i as int].question@), trim_ws(questions@[i as int].answer@)));
        qs.push(q);
        assert(questions_view(qs@) =~= questions_view(before).push(entry));
        assert(questions_view(qs@) =~= Seq::new((i + 1) as nat, |k: int|
            (trim_ws(questions@[k].question@), trim_ws(questions@[k].answer@))));
        i = i + 1;
    }
    RegisterRequest {
        username: username.to_string(),
        password: password.to_string(),
        nickname: if nickname.is_empty() { username.to_string() } else { nickname.to_string() },
        code: captcha_value(captcha_enabled, captcha),
        uuid: captcha_value(captcha_enabled, uuid),
        security_questions: qs,
    }
}

/// The outcome of a registration answer: accepted on code 200, otherwise the
/// server's message.
pub fn register_outcome(code: i32, msg: String) -> (r: Result<(), String>)
    ensures
        code == 200 ==> r is Ok,
        code != 200 ==> (r matches Err(m) && m@ == msg@),
{
    if code == 200 {
        Ok(())
    } else {
        Err(msg)
    }
}

} // verus!
