//! Checks of the login, registration and password-recovery forms before a
//! request is sent.

use vstd::prelude::*;
use crate::distro::{trim_ws, trim_whitespace};
use crate::text::{chars_of, str_eq};

verus! {

/// Why a form was refused.
#[derive(Debug, Clone, Copy, PartialEq, Eq, Structural)]
pub enum FormError {
    /// Login without user name or password.
    MissingCredentials,
    /// Captcha required but empty.
    MissingCaptcha,
    /// Trimmed user name not 2 to 20 characters long.
    UsernameLength,
    /// Password shorter than 6.
    PasswordTooShort,
    /// Password and confirmation differ.
    PasswordMismatch,
    /// A security question or its answer is blank.
    SecurityBlank,
    /// Recovery without a user name.
    MissingUsername,
    /// Not every security question answered.
    AnswersMissing,
}

impl FormError {
    /// The message shown under the form.
    pub fn message(&self) -> (r: &'static str)
        ensures
            r@ == form_message(*self),
    {
        match self {
            FormError::MissingCredentials => "请输入用户名和密码",
            FormError::MissingCaptcha => "请输入验证码",
            FormError::UsernameLength => "用户名长度需在 2-20 位",
            FormError::PasswordTooShort => "密码至少 6 位",
            FormError::PasswordMismatch => "两次输入的密码不一致",
            FormError::SecurityBlank => "问题与答案均不能为空",
            FormError::MissingUsername => "请输入用户名",
            FormError::AnswersMissing => "请回答全部 3 个密保问题",
        }
    }
}

/// The message of each form error.
pub open spec fn form_message(e: FormError) -> Seq<char> {
    match e {
        FormError::MissingCredentials => "请输入用户名和密码"@,
        FormError::MissingCaptcha => "请输入验证码"@,
        FormError::UsernameLength => "用户名长度需在 2-20 位"@,
        FormError::PasswordTooShort => "密码至少 6 位"@,
        FormError::PasswordMismatch => "两次输入的密码不一致"@,
        FormError::SecurityBlank => "问题与答案均不能为空"@,
        FormError::MissingUsername => "请输入用户名"@,
        FormError::AnswersMissing => "请回答全部 3 个密保问题"@,
    }
}

/// Login form check.
pub open spec fn login_check(username: Seq<char>, password: Seq<char>, captcha_enabled: bool, captcha: Seq<char>) -> Result<(), FormError> {
    if username.len() == 0 || password.len() == 0 {
        Err(FormError::MissingCredentials)
    } else if captcha_enabled && captcha.len() == 0 {
        Err(FormError::MissingCaptcha)
    } else {
        Ok(())
    }
}

/// Check the login form: user name and password present, captcha when required.
pub fn validate_login(username: &str, password: &str, captcha_enabled: bool, captcha: &str) -> (r: Result<(), FormError>)
    ensures
        r == login_check(username@, password@, captcha_enabled, captcha@),
{
    if username.is_empty() || password.is_empty() {
        Err(FormError::MissingCredentials)
    } else if captcha_enabled && captcha.is_empty() {
        Err(FormError::MissingCaptcha)
    } else {
        Ok(())
    }
}

/// First registration step check.
pub open spec fn account_check(username: Seq<char>, password: Seq<char>, confirm: Seq<char>) -> Result<(), FormError> {
    let u = trim_ws(username).len();
    if u < 2 || u > 20 {
        Err(FormError::UsernameLength)
    } else if password.len() < 6 {
        Err(FormError::PasswordTooShort)
    } else if password != confirm {
        Err(FormError::PasswordMismatch)
    } else {
        Ok(())
    }
}

/// Check the account step of registration: the trimmed user name is 2 to 20
/// characters, the password at least 6 characters and confirmed.
pub fn validate_account(username: &str, password: &str, confirm: &str) -> (r: Result<(), FormError>)
    ensures
        r == account_check(username@, password@, confirm@),
{
    let trimmed = trim_whitespace(chars_of(username).as_slice());
    if trimmed.len() < 2 || trimmed.len() > 20 {
        return Err(FormError::UsernameLength);
    }
    if chars_of(password).len() < 6 {
        return Err(FormError::PasswordTooShort);
    }
    if !str_eq(password, confirm) {
        return Err(FormError::PasswordMismatch);
    }
    Ok(())
}

/// Check of one security question of registration.
pub open spec fn security_check(question: Seq<char>, answer: Seq<char>) -> Result<(), FormError> {
    if trim_ws(question).len() == 0 || trim_ws(answer).len() == 0 {
        Err(FormError::SecurityBlank)
    } else {
        Ok(())
    }
}

/// Check a security question of registration: neither it nor its answer blank.
pub fn validate_security(question: &str, answer: &str) -> (r: Result<(), FormError>)
    ensures
        r == security_check(question@, answer@),
{
    let q = trim_whitespace(chars_of(question).as_slice());
    let a = trim_whitespace(chars_of(answer).as_slice());
    if q.len() == 0 || a.len() == 0 {
        Err(FormError::SecurityBlank)
    } else {
        Ok(())
    }
}

/// Check of the last registration step: its security question, then the captcha.
pub open spec fn final_check(question: Seq<char>, answer: Seq<char>, captcha_enabled: bool, captcha: Seq<char>) -> Result<(), FormError> {
    if security_check(question, answer) is Err {
        security_check(question, answer)
    } else if captcha_enabled && trim_ws(captcha).len() == 0 {
        Err(FormError::MissingCaptcha)
    } else {
        Ok(())
    }
}

/// Check the last registration step.
pub fn validate_final(question: &str, answer: &str, captcha_enabled: bool, captcha: &str) -> (r: Result<(), FormError>)
    ensures
        r == final_check(question@, answer@, captcha_enabled, captcha@),
{
    let s = validate_security(question, answer);
    if s.is_err() {
        return s;
    }
    if captcha_enabled && trim_whitespace(chars_of(captcha).as_slice()).len() == 0 {
        return Err(FormError::MissingCaptcha);
    }
    Ok(())
}

/// Check of the first recovery step.
pub open spec fn recovery_user_check(username: Seq<char>, captcha_enabled: bool, captcha: Seq<char>) -> Result<(), FormError> {
    if trim_ws(username).len() == 0 {
        Err(FormError::MissingUsername)
    } else if captcha_enabled && trim_ws(captcha).len() == 0 {
        Err(FormError::MissingCaptcha)
    } else {
        Ok(())
    }
}

/// Check the first step of password recovery: a user name, and the captcha when required.
pub fn validate_recovery_user(username: &str, captcha_enabled: bool, captcha: &str) -> (r: Result<(), FormError>)
    ensures
        r == recovery_user_check(username@, captcha_enabled, captcha@),
{
    if trim_whitespace(chars_of(username).as_slice()).len() == 0 {
        Err(FormError::MissingUsername)
    } else if captcha_enabled && trim_whitespace(chars_of(captcha).as_slice()).len() == 0 {
        Err(FormError::MissingCaptcha)
    } else {
        Ok(())
    }
}

/// Check of the answers of password recovery.
pub open spec fn answers_check(answers: Seq<Seq<char>>) -> Result<(), FormError> {
    if exists|k: int| 0 <= k < answers.len() && trim_ws(#[trigger] answers[k]).len() == 0 {
        Err(FormError::AnswersMissing)
    } else {
        Ok(())
    }
}

/// Mathematical form of a list of texts.
pub open spec fn texts_view(v: Seq<String>) -> Seq<Seq<char>> {
    v.map_values(|s: String| s@)
}

/// Check that every security question of password recovery is answered.
pub fn validate_answers(answers: &[String]) -> (r: Result<(), FormError>)
    ensures
        r == answers_check(texts_view(answers@)),
{
    let ghost tv = texts_view(answers@);
    let mut i: usize = 0;
    while i < answers.len()
        invariant
            0 <= i <= answers@.len(),
            tv == texts_view(answers@),
            forall|k: int| 0 <= k < i ==> trim_ws(#[trigger] tv[k]).len() > 0,
        decreases answers.len() - i,
    {
        if trim_whitespace(chars_of(answers[i].as_str()).as_slice()).len() == 0 {
            assert(trim_ws(tv[i as int]).len() == 0);
            return Err(FormError::AnswersMissing);
        }
        i = i + 1;
    }
    Ok(())
}

/// Check of the new password of password recovery (both trimmed first).
pub open spec fn new_password_check(password: Seq<char>, confirm: Seq<char>) -> Result<(), FormError> {
    if trim_ws(password).len() < 6 {
        Err(FormError::PasswordTooShort)
    } else if trim_ws(password) != trim_ws(confirm) {
        Err(FormError::PasswordMismatch)
    } else {
        Ok(())
    }
}

/// Check the new password of password recovery: at least 6 characters once
/// trimmed, and equal to the trimmed confirmation.
pub fn validate_new_password(password: &str, confirm: &str) -> (r: Result<(), FormError>)
    ensures
        r == new_password_check(password@, confirm@),
{
    let p = trim_whitespace(chars_of(password).as_slice());
    let c = trim_whitespace(chars_of(confirm).as_slice());
    if p.len() < 6 {
        return Err(FormError::PasswordTooShort);
    }
    if p.len() != c.len() {
        assert(p@ != c@);
        return Err(FormError::PasswordMismatch);
    }
    let mut i: usize = 0;
    while i < p.len()
        invariant
            0 <= i <= p@.len(),
            p@.len() == c@.len(),
            p@ == trim_ws(password@),
            c@ == trim_ws(confirm@),
            p@.len() >= 6,
            forall|k: int| 0 <= k < i ==> p@[k] == c@[k],
        decreases p.len() - i,
    {
        if p[i] != c[i] {
            assert(p@[i as int] != c@[i as int]);
            return Err(FormError::PasswordMismatch);
        }
        i = i + 1;
    }
    assert(p@ =~= c@);
    Ok(())
}


/// The login check refuses a missing user name or password, whatever the
/// captcha; with both present it asks for the captcha only when the captcha
/// is on, and lets everything else through. The captcha text is ignored when
/// the captcha is off.
pub proof fn lemma_login_rules(username: Seq<char>, password: Seq<char>, captcha_enabled: bool, captcha: Seq<char>, other: Seq<char>)
    ensures
        (username.len() == 0 || password.len() == 0) ==> login_check(username, password, captcha_enabled, captcha)
            == Err::<(), FormError>(FormError::MissingCredentials),
        (username.len() > 0 && password.len() > 0 && captcha_enabled && captcha.len() == 0)
            ==> login_check(username, password, captcha_enabled, captcha) == Err::<(), FormError>(FormError::MissingCaptcha),
        login_check(username, password, captcha_enabled, captcha) is Ok <==> (username.len() > 0 && password.len() > 0
            && (captcha_enabled ==> captcha.len() > 0)),
        login_check(username, password, false, captcha) == login_check(username, password, false, other),
{
}

/// The account step accepts exactly a trimmed user name of 2 to 20
/// characters with a password of at least 6 characters that the
/// confirmation repeats; a bad name is reported before the password.
pub proof fn lemma_account_rules(username: Seq<char>, password: Seq<char>, confirm: Seq<char>)
    ensures
        account_check(username, password, confirm) is Ok <==> (2 <= trim_ws(username).len() <= 20
            && password.len() >= 6 && password == confirm),
        (trim_ws(username).len() < 2 || trim_ws(username).len() > 20)
            ==> account_check(username, password, confirm) == Err::<(), FormError>(FormError::UsernameLength),
        (2 <= trim_ws(username).len() <= 20 && password.len() < 6)
            ==> account_check(username, password, confirm) == Err::<(), FormError>(FormError::PasswordTooShort),
        (2 <= trim_ws(username).len() <= 20 && password.len() >= 6 && password != confirm)
            ==> account_check(username, password, confirm) == Err::<(), FormError>(FormError::PasswordMismatch),
{
}

/// Recovery: a blank user name is refused first, then a blank captcha when
/// the captcha is on; answers must all be non-blank; the new password must
/// have at least 6 characters once trimmed and match the trimmed confirmation.
pub proof fn lemma_recovery_rules(username: Seq<char>, captcha_enabled: bool, captcha: Seq<char>,
    answers: Seq<Seq<char>>, password: Seq<char>, confirm: Seq<char>)
    ensures
        trim_ws(username).len() == 0 ==> recovery_user_check(username, captcha_enabled, captcha)
            == Err::<(), FormError>(FormError::MissingUsername),
        recovery_user_check(username, captcha_enabled, captcha) is Ok <==> (trim_ws(username).len() > 0
            && (captcha_enabled ==> trim_ws(captcha).len() > 0)),
        answers_check(answers) is Ok <==> (forall|k: int| 0 <= k < answers.len() ==> trim_ws(#[trigger] answers[k]).len() > 0),
        answers_check(answers) is Err ==> answers_check(answers) == Err::<(), FormError>(FormError::AnswersMissing),
        new_password_check(password, confirm) is Ok <==> (trim_ws(password).len() >= 6 && trim_ws(password) == trim_ws(confirm)),
        trim_ws(password).len() < 6 ==> new_password_check(password, confirm) == Err::<(), FormError>(FormError::PasswordTooShort),
{
}

/// A security question is accepted exactly when neither it nor its answer
/// is blank; the last registration step also needs a non-blank captcha when
/// the captcha is on, and reports a blank question first.
pub proof fn lemma_security_rules(question: Seq<char>, answer: Seq<char>, captcha_enabled: bool, captcha: Seq<char>)
    ensures
        security_check(question, answer) is Ok <==> (trim_ws(question).len() > 0 && trim_ws(answer).len() > 0),
        security_check(question, answer) is Err ==> security_check(question, answer) == Err::<(), FormError>(FormError::SecurityBlank),
        final_check(question, answer, captcha_enabled, captcha) is Ok <==> (trim_ws(question).len() > 0
            && trim_ws(answer).len() > 0 && (captcha_enabled ==> trim_ws(captcha).len() > 0)),
        (trim_ws(question).len() == 0 || trim_ws(answer).len() == 0)
            ==> final_check(question, answer, captcha_enabled, captcha) == Err::<(), FormError>(FormError::SecurityBlank),
{
}

} // verus!
