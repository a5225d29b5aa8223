//! Passwords: how they are stored, and the rules for changing one.

use crate::admin::model::{PasswordUpdateParam, SysError};
use vstd::prelude::*;
use vstd::string::StringSliceAdditionalSpecFns;
use vstd::utf8::encode_utf8;

verus! {

/// Fewest bytes that a new password may have.
pub const MIN_PASSWORD_LEN: usize = 8;

/// The MD5 digest of some bytes, in lower-case hexadecimal digits.
pub uninterp spec fn md5_hex_of(data: Seq<u8>) -> Seq<char>;

/// Trusted: `md5::compute` is a function of the bytes alone, and `LowerHex`
/// writes its digest in hexadecimal digits; `md5_hex_of` names the text.
#[verifier::external_body]
fn md5_hex(data: &[u8]) -> (hex: String)
    ensures
        hex@ == md5_hex_of(data@),
{
    format!("{:x}", md5::compute(data))
}

/// The stored form of a password with its salt.
pub open spec fn encoded(plain_text: Seq<char>, salt: Seq<char>) -> Seq<char> {
    md5_hex_of(encode_utf8(plain_text + salt))
}

/// The stored form of a password: the digest of the password followed by its
/// salt.
pub fn encode(plain_text: String, salt: String) -> (r: Result<String, SysError>)
    ensures
        r matches Ok(text) && text@ == encoded(plain_text@, salt@),
{
    let mut salted = plain_text;
    salted.append(salt.as_str());
    Ok(md5_hex(salted.as_str().as_bytes()))
}

/// Whether a password is the one that is stored with the given salt.
pub fn password_matches(stored: &str, plain_text: String, salt: String) -> (b: bool)
    ensures
        b == (stored@ == encoded(plain_text@, salt@)),
{
    match encode(plain_text, salt) {
        Ok(text) => {
            let stored = stored.to_owned();
            stored == text
        },
        Err(_) => false,
    }
}

/// Whether a failure is a broken rule with the given message.
pub open spec fn is_biz(e: SysError, message: Seq<char>) -> bool {
    e matches SysError::BIZ(m) && m@ == message
}

/// Checks the length of a new password, before anything is looked up.
pub fn check_new_password(param: &PasswordUpdateParam) -> (r: Result<(), SysError>)
    ensures
        r is Err <==> encode_utf8(param.new_password@).len() < MIN_PASSWORD_LEN,
        r matches Err(e) ==> is_biz(e, "密码长度过短，至少需要8个字符"@),
{
    if param.new_password.as_str().as_bytes().len() < MIN_PASSWORD_LEN {
        Err(SysError::BIZ(String::from_str("密码长度过短，至少需要8个字符")))
    } else {
        Ok(())
    }
}

/// Checks a change of password against what is stored of the user: the new
/// password has to be given twice alike, and the current one has to be right.
pub fn check_password_change(
    param: &PasswordUpdateParam,
    user_password: &str,
    user_salt: String,
) -> (r: Result<(), SysError>)
    ensures
        r is Ok <==> param.new_password@ == param.new_password_confirm@ && user_password@
            == encoded(param.current_password@, user_salt@),
        r matches Err(e) ==> if param.new_password@ != param.new_password_confirm@ {
            is_biz(e, "新密码和确认密码不一致"@)
        } else {
            is_biz(e, "旧密码错误"@)
        },
{
    if param.new_password != param.new_password_confirm {
        return Err(SysError::BIZ(String::from_str("新密码和确认密码不一致")));
    }
    if !password_matches(user_password, param.current_password.clone(), user_salt) {
        return Err(SysError::BIZ(String::from_str("旧密码错误")));
    }
    Ok(())
}

} // verus!
