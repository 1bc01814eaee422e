//! Accounts: sign-up by phone verification code, log-in, password reset, sessions, and the
//! input rules and rate limits in front of them.

use vstd::prelude::*;
use crate::sms::{prefix_of, Purpose};
use vstd::string::StringSliceAdditionalSpecFns;
use crate::crypto::{base64_url_encode, base64_url_nopad, hmac_sha256, hmac_sha256_tag, random_token};
use crate::ledger::{accounts_of, account_key, account_key_spec, Account, AccountView, WELCOME_BALANCE};
use crate::store::{now_secs, Persisted, Store, Table};
use crate::text::{char_count, char_is_control, char_is_whitespace, char_lowercase, char_to_lowercase, chars_of,
    contains_seq, decimal_digits, is_control, is_white_space, push_all, push_char, push_str, push_u64, str_contains, str_eq,
    str_lowercase, str_to_lowercase, string_from, string_of, strip_prefix, strip_prefix_spec, trim, trim_spec,
};

verus! {

/// How long a session lasts, in seconds.
pub const SESSION_TTL_SECS: u64 = 30 * 24 * 3600;
/// How long a pending verification lives, in seconds (a little longer than the code itself,
/// so an expired code gets a precise message).
pub const PENDING_TTL_SECS: u64 = 15 * 60;
/// Wrong codes allowed per pending verification.
pub const MAX_VERIFY_ATTEMPTS: u32 = 8;

/// A registered user.
#[derive(Clone, Debug)]
pub struct User {
    pub id: String,
    pub username: String,
    /// Normalised form used for uniqueness (full-width folded, lower-cased).
    pub username_key: String,
    pub phone: String,
    pub password_hash: Vec<u8>,
    pub password_salt: Vec<u8>,
    /// Stored per user so a later increase can be applied at the next successful log-in.
    pub pbkdf2_iterations: u32,
    pub created_at: u64,
    pub last_login_at: u64,
}

/// A log-in session; the table key is the HMAC of the token.
#[derive(Clone, Debug)]
pub struct Session {
    pub user_id: String,
    pub created_at: u64,
    pub expires_at: u64,
}

/// A verification code in flight for one phone and one purpose.
#[derive(Clone, Debug)]
pub struct PendingVerification {
    pub kind: String,
    pub phone: String,
    pub created_at: u64,
    pub expires_at: u64,
    pub attempts: u32,
    /// Sign-up only: the account is created from these once the code checks out.
    pub username: Option<String>,
    pub username_key: Option<String>,
    pub password_hash: Option<Vec<u8>>,
    pub password_salt: Option<Vec<u8>>,
    pub pbkdf2_iterations: Option<u32>,
    /// Set only with the log sender, which generates codes itself: the HMAC of the code.
    pub local_code_hmac: Option<Vec<u8>>,
}

/// The pending-table key for a purpose and a phone: `"<prefix>:<phone>"`.
pub open spec fn pending_key_spec(purpose: Purpose, phone: Seq<char>) -> Seq<char> {
    prefix_of(purpose) + seq![':'] + phone
}

/// The pending-table key for a purpose and a phone. The purpose is part of the key, so a
/// sign-up and a reset for the same phone never share a slot.
pub fn pending_key(purpose: Purpose, phone: &str) -> (k: String)
    ensures
        k@ == pending_key_spec(purpose, phone@),
{
    let mut k = string_from(purpose.key_prefix());
    push_char(&mut k, ':');
    push_str(&mut k, phone);
    k
}

// ---------------------------------------------------------------- usernames and passwords

/// Full-width ASCII (U+FF01..=U+FF5E) folded to half-width, and the ideographic space
/// U+3000 to an ordinary space; other characters unchanged.
pub open spec fn fold_width(c: char) -> char {
    let u = c as u32;
    if 0xFF01 <= u && u <= 0xFF5E {
        ((u - 0xFEE0) as u32) as char
    } else if u == 0x3000 {
        ' '
    } else {
        c
    }
}

/// The uniqueness key of a user name: each character width-folded, then lower-cased.
pub open spec fn username_key_spec(name: Seq<char>) -> Seq<char>
    decreases name.len(),
{
    if name.len() == 0 {
        seq![]
    } else {
        username_key_spec(name.drop_last()) + char_lowercase(fold_width(name.last()))
    }
}

fn fold_width_char(c: char) -> (r: char)
    ensures
        r == fold_width(c),
{
    let u = c as u32;
    if 0xFF01 <= u && u <= 0xFF5E {
        let h = (u - 0xFEE0) as u8;
        h as char
    } else if u == 0x3000 {
        ' '
    } else {
        c
    }
}

/// The normalised form used to compare user names: full-width ASCII folded to half-width
/// (so `ＡＤＭＩＮ` and `admin` collide), then Unicode lower-casing.
pub fn normalize_username_key(name: &str) -> (key: String)
    ensures
        key@ == username_key_spec(name@),
{
    let v = chars_of(name);
    let mut key = String::new();
    let mut i: usize = 0;
    while i < v.len()
        invariant
            v@ == name@,
            i <= v@.len(),
            key@ == username_key_spec(v@.subrange(0, i as int)),
        decreases v@.len() - i,
    {
        let folded = fold_width_char(v[i]);
        let low = char_to_lowercase(folded);
        push_all(&mut key, &low);
        proof {
            let pre = v@.subrange(0, i as int);
            let next = v@.subrange(0, i + 1);
            assert(next.drop_last() =~= pre);
            assert(next.last() == v@[i as int]);
        }
        i = i + 1;
    }
    assert(v@.subrange(0, v@.len() as int) =~= v@);
    key
}

/// Zero-width characters and bidirectional controls: invisible, and usable to impersonate
/// another user name.
pub open spec fn is_invisible(c: char) -> bool {
    let u = c as u32;
    ||| (0x200B <= u && u <= 0x200F)
    ||| (0x202A <= u && u <= 0x202E)
    ||| (0x2060 <= u && u <= 0x2064)
    ||| u == 0xFEFF
}

/// Index of the first character of `s` that a user name may not contain, or `s.len()`.
pub open spec fn first_bad_name_char(s: Seq<char>) -> int
    decreases s.len(),
{
    if s.len() == 0 {
        0
    } else {
        let c = s[0];
        if is_white_space(c) || is_control(c) || is_invisible(c) {
            0
        } else {
            1 + first_bad_name_char(s.drop_first())
        }
    }
}

/// The verdict on a user name: `None` when accepted, otherwise the message.
pub open spec fn username_error(name: Seq<char>) -> Option<Seq<char>> {
    let n = name.len();
    if n < 2 || n > 24 {
        Some("用户名需要 2~24 个字符。"@)
    } else {
        let i = first_bad_name_char(name);
        if i >= n {
            None
        } else if is_white_space(name[i]) {
            Some("用户名里不能有空格。"@)
        } else if is_control(name[i]) {
            Some("用户名里有不可见的控制字符，请重新输入。"@)
        } else {
            Some("用户名里有不可见字符，请重新输入。"@)
        }
    }
}

proof fn lemma_first_bad_name_char(s: Seq<char>, i: int)
    requires
        0 <= i <= s.len(),
        forall|j: int| 0 <= j < i ==> !(is_white_space(#[trigger] s[j]) || is_control(s[j]) || is_invisible(s[j])),
    ensures
        i <= first_bad_name_char(s) <= s.len(),
        i < s.len() && (is_white_space(s[i]) || is_control(s[i]) || is_invisible(s[i])) ==> first_bad_name_char(s) == i,
    decreases i,
{
    if s.len() > 0 && i > 0 {
        lemma_first_bad_name_char(s.drop_first(), i - 1);
    } else if s.len() > 0 {
        lemma_first_bad_name_char_le(s.drop_first());
    }
}

proof fn lemma_first_bad_name_char_le(s: Seq<char>)
    ensures
        0 <= first_bad_name_char(s) <= s.len(),
    decreases s.len(),
{
    if s.len() > 0 {
        lemma_first_bad_name_char_le(s.drop_first());
    }
}

/// User names of 2 to 24 characters, Chinese allowed; no white space, no control
/// characters, no zero-width or bidirectional marks. Checked in that order, character by
/// character; the first offending character decides the message.
pub fn validate_username(name: &str) -> (r: Result<(), String>)
    ensures
        match username_error(name@) {
            None => r is Ok,
            Some(m) => r is Err && r->Err_0@ == m,
        },
{
    let n = char_count(name);
    if n < 2 || n > 24 {
        return Err(string_from("用户名需要 2~24 个字符。"));
    }
    let v = chars_of(name);
    let mut i: usize = 0;
    while i < v.len()
        invariant
            v@ == name@,
            2 <= name@.len() <= 24,
            i <= v@.len(),
            forall|j: int| 0 <= j < i ==> !(is_white_space(#[trigger] v@[j]) || is_control(v@[j]) || is_invisible(v@[j])),
        decreases v@.len() - i,
    {
        let c = v[i];
        let u = c as u32;
        let bad = char_is_whitespace(c) || char_is_control(c) || (0x200B <= u && u <= 0x200F) || (0x202A <= u
            && u <= 0x202E) || (0x2060 <= u && u <= 0x2064) || u == 0xFEFF;
        if bad {
            proof {
                lemma_first_bad_name_char(name@, i as int);
            }
            if char_is_whitespace(c) {
                return Err(string_from("用户名里不能有空格。"));
            }
            if char_is_control(c) {
                return Err(string_from("用户名里有不可见的控制字符，请重新输入。"));
            }
            return Err(string_from("用户名里有不可见字符，请重新输入。"));
        }
        i = i + 1;
    }
    proof {
        lemma_first_bad_name_char(name@, name@.len() as int);
    }
    Ok(())
}

/// Common weak passwords, chosen after Chinese habits (pinyin, birthdays, keyboard runs,
/// "I love you" numbers) rather than copied from English lists.
pub open spec fn weak_password_list() -> Seq<&'static str> {
    seq![
        "12345678", "123456789", "1234567890", "123123123", "111111111", "000000000",
        "88888888", "66666666", "11111111", "00000000", "12341234", "12121212",
        "abcd1234", "abc12345", "a1234567", "1qaz2wsx", "qwertyui", "qwerty123",
        "asdfghjk", "zxcvbnm123", "1q2w3e4r", "1qazxsw2", "q1w2e3r4", "1a2b3c4d",
        "password", "password1", "password123", "passw0rd", "p@ssw0rd", "admin123",
        "administrator", "root1234", "toor1234", "letmein1", "welcome1", "iloveyou",
        "sunshine1", "princess1", "football1", "baseball1", "dragon123", "monkey123",
        "woaini1314", "woaini520", "woaini123", "5201314520", "1314520520", "520520520",
        "wangyifan", "zhangwei123", "liwei1234", "wangfang123", "aizhenzhu",
        "woshishui", "nihaoma123", "zhongguo123", "beijing123", "shanghai123",
        "chenxiaoming", "xiaoming123", "xiaohong123", "zhangsan123", "lisi1234",
        "qq123456", "qq1234567", "wechat123", "weixin123", "taobao123", "alipay123",
        "minecraft", "minecraft1", "minecraft123", "mojang123", "notch123",
        "steve1234", "herobrine", "creeper123", "diamond123", "redstone1",
        "lingdeng123", "soullantern", "hunling123", "denglong123",
        "asdasdasd", "qweqweqwe", "zxczxczxc", "aaaaaaaa", "aaaa1111", "abcabcabc",
        "19900101", "19951231", "20001231", "20080808", "19891989", "20202020"
    ]
}

/// `s` is one of the weak passwords.
pub open spec fn is_weak_password(s: Seq<char>) -> bool {
    exists|i: int| 0 <= i < weak_password_list().len() && (#[trigger] weak_password_list()[i])@ == s
}

fn weak_passwords() -> (v: Vec<&'static str>)
    ensures
        v@ == weak_password_list(),
{
    let v = vec![
        "12345678", "123456789", "1234567890", "123123123", "111111111", "000000000",
        "88888888", "66666666", "11111111", "00000000", "12341234", "12121212",
        "abcd1234", "abc12345", "a1234567", "1qaz2wsx", "qwertyui", "qwerty123",
        "asdfghjk", "zxcvbnm123", "1q2w3e4r", "1qazxsw2", "q1w2e3r4", "1a2b3c4d",
        "password", "password1", "password123", "passw0rd", "p@ssw0rd", "admin123",
        "administrator", "root1234", "toor1234", "letmein1", "welcome1", "iloveyou",
        "sunshine1", "princess1", "football1", "baseball1", "dragon123", "monkey123",
        "woaini1314", "woaini520", "woaini123", "5201314520", "1314520520", "520520520",
        "wangyifan", "zhangwei123", "liwei1234", "wangfang123", "aizhenzhu",
        "woshishui", "nihaoma123", "zhongguo123", "beijing123", "shanghai123",
        "chenxiaoming", "xiaoming123", "xiaohong123", "zhangsan123", "lisi1234",
        "qq123456", "qq1234567", "wechat123", "weixin123", "taobao123", "alipay123",
        "minecraft", "minecraft1", "minecraft123", "mojang123", "notch123",
        "steve1234", "herobrine", "creeper123", "diamond123", "redstone1",
        "lingdeng123", "soullantern", "hunling123", "denglong123",
        "asdasdasd", "qweqweqwe", "zxczxczxc", "aaaaaaaa", "aaaa1111", "abcabcabc",
        "19900101", "19951231", "20001231", "20080808", "19891989", "20202020",
    ];
    assert(v@ =~= weak_password_list());
    v
}

fn is_weak(lower: &str) -> (b: bool)
    ensures
        b == is_weak_password(lower@),
{
    let list = weak_passwords();
    let mut i: usize = 0;
    while i < list.len()
        invariant
            list@ == weak_password_list(),
            i <= list@.len(),
            forall|j: int| 0 <= j < i ==> (#[trigger] weak_password_list()[j])@ != lower@,
        decreases list@.len() - i,
    {
        if str_eq(list[i], lower) {
            return true;
        }
        i = i + 1;
    }
    false
}

/// The common passwords are refused in any letter case: a password of 8 to 128 characters
/// whose lower-case form is one of them gets the too-common message, whatever the user name
/// and the phone.
pub proof fn lemma_common_passwords_refused(password: Seq<char>, username: Seq<char>, phone: Seq<char>)
    requires
        8 <= password.len() <= 128,
        ({
            let l = str_lowercase(password);
            l == "12345678"@ || l == "123456789"@ || l == "1234567890"@ || l == "123123123"@ || l == "111111111"@ ||
                l == "000000000"@ || l == "88888888"@ || l == "66666666"@ || l == "11111111"@ || l == "00000000"@ ||
                l == "12341234"@ || l == "12121212"@ || l == "abcd1234"@ || l == "abc12345"@ || l == "a1234567"@ ||
                l == "1qaz2wsx"@ || l == "qwertyui"@ || l == "qwerty123"@ || l == "asdfghjk"@ ||
                l == "zxcvbnm123"@ || l == "1q2w3e4r"@ || l == "1qazxsw2"@ || l == "q1w2e3r4"@ || l == "1a2b3c4d"@ ||
                l == "password"@ || l == "password1"@ || l == "password123"@ || l == "passw0rd"@ ||
                l == "p@ssw0rd"@ || l == "admin123"@ || l == "administrator"@ || l == "root1234"@ ||
                l == "toor1234"@ || l == "letmein1"@ || l == "welcome1"@ || l == "iloveyou"@ || l == "sunshine1"@ ||
                l == "princess1"@ || l == "football1"@ || l == "baseball1"@ || l == "dragon123"@ ||
                l == "monkey123"@ || l == "woaini1314"@ || l == "woaini520"@ || l == "woaini123"@ ||
                l == "5201314520"@ || l == "1314520520"@ || l == "520520520"@ || l == "wangyifan"@ ||
                l == "zhangwei123"@ || l == "liwei1234"@ || l == "wangfang123"@ || l == "aizhenzhu"@ ||
                l == "woshishui"@ || l == "nihaoma123"@ || l == "zhongguo123"@ || l == "beijing123"@ ||
                l == "shanghai123"@ || l == "chenxiaoming"@ || l == "xiaoming123"@ || l == "xiaohong123"@ ||
                l == "zhangsan123"@ || l == "lisi1234"@ || l == "qq123456"@ || l == "qq1234567"@ ||
                l == "wechat123"@ || l == "weixin123"@ || l == "taobao123"@ || l == "alipay123"@ ||
                l == "minecraft"@ || l == "minecraft1"@ || l == "minecraft123"@ || l == "mojang123"@ ||
                l == "notch123"@ || l == "steve1234"@ || l == "herobrine"@ || l == "creeper123"@ ||
                l == "diamond123"@ || l == "redstone1"@ || l == "lingdeng123"@ || l == "soullantern"@ ||
                l == "hunling123"@ || l == "denglong123"@ || l == "asdasdasd"@ || l == "qweqweqwe"@ ||
                l == "zxczxczxc"@ || l == "aaaaaaaa"@ || l == "aaaa1111"@ || l == "abcabcabc"@ || l == "19900101"@ ||
                l == "19951231"@ || l == "20001231"@ || l == "20080808"@ || l == "19891989"@ || l == "20202020"@
        }),
    ensures
        password_error(password, username, phone) == Some("这个密码太常见了，换一个不容易被猜到的。"@),
{
    let l = str_lowercase(password);
    if l == "12345678"@ {
        assert(weak_password_list()[0]@ == l);
    } else if l == "123456789"@ {
        assert(weak_password_list()[1]@ == l);
    } else if l == "1234567890"@ {
        assert(weak_password_list()[2]@ == l);
    } else if l == "123123123"@ {
        assert(weak_password_list()[3]@ == l);
    } else if l == "111111111"@ {
        assert(weak_password_list()[4]@ == l);
    } else if l == "000000000"@ {
        assert(weak_password_list()[5]@ == l);
    } else if l == "88888888"@ {
        assert(weak_password_list()[6]@ == l);
    } else if l == "66666666"@ {
        assert(weak_password_list()[7]@ == l);
    } else if l == "11111111"@ {
        assert(weak_password_list()[8]@ == l);
    } else if l == "00000000"@ {
        assert(weak_password_list()[9]@ == l);
    } else if l == "12341234"@ {
        assert(weak_password_list()[10]@ == l);
    } else if l == "12121212"@ {
        assert(weak_password_list()[11]@ == l);
    } else if l == "abcd1234"@ {
        assert(weak_password_list()[12]@ == l);
    } else if l == "abc12345"@ {
        assert(weak_password_list()[13]@ == l);
    } else if l == "a1234567"@ {
        assert(weak_password_list()[14]@ == l);
    } else if l == "1qaz2wsx"@ {
        assert(weak_password_list()[15]@ == l);
    } else if l == "qwertyui"@ {
        assert(weak_password_list()[16]@ == l);
    } else if l == "qwerty123"@ {
        assert(weak_password_list()[17]@ == l);
    } else if l == "asdfghjk"@ {
        assert(weak_password_list()[18]@ == l);
    } else if l == "zxcvbnm123"@ {
        assert(weak_password_list()[19]@ == l);
    } else if l == "1q2w3e4r"@ {
        assert(weak_password_list()[20]@ == l);
    } else if l == "1qazxsw2"@ {
        assert(weak_password_list()[21]@ == l);
    } else if l == "q1w2e3r4"@ {
        assert(weak_password_list()[22]@ == l);
    } else if l == "1a2b3c4d"@ {
        assert(weak_password_list()[23]@ == l);
    } else if l == "password"@ {
        assert(weak_password_list()[24]@ == l);
    } else if l == "password1"@ {
        assert(weak_password_list()[25]@ == l);
    } else if l == "password123"@ {
        assert(weak_password_list()[26]@ == l);
    } else if l == "passw0rd"@ {
        assert(weak_password_list()[27]@ == l);
    } else if l == "p@ssw0rd"@ {
        assert(weak_password_list()[28]@ == l);
    } else if l == "admin123"@ {
        assert(weak_password_list()[29]@ == l);
    } else if l == "administrator"@ {
        assert(weak_password_list()[30]@ == l);
    } else if l == "root1234"@ {
        assert(weak_password_list()[31]@ == l);
    } else if l == "toor1234"@ {
        assert(weak_password_list()[32]@ == l);
    } else if l == "letmein1"@ {
        assert(weak_password_list()[33]@ == l);
    } else if l == "welcome1"@ {
        assert(weak_password_list()[34]@ == l);
    } else if l == "iloveyou"@ {
        assert(weak_password_list()[35]@ == l);
    } else if l == "sunshine1"@ {
        assert(weak_password_list()[36]@ == l);
    } else if l == "princess1"@ {
        assert(weak_password_list()[37]@ == l);
    } else if l == "football1"@ {
        assert(weak_password_list()[38]@ == l);
    } else if l == "baseball1"@ {
        assert(weak_password_list()[39]@ == l);
    } else if l == "dragon123"@ {
        assert(weak_password_list()[40]@ == l);
    } else if l == "monkey123"@ {
        assert(weak_password_list()[41]@ == l);
    } else if l == "woaini1314"@ {
        assert(weak_password_list()[42]@ == l);
    } else if l == "woaini520"@ {
        assert(weak_password_list()[43]@ == l);
    } else if l == "woaini123"@ {
        assert(weak_password_list()[44]@ == l);
    } else if l == "5201314520"@ {
        assert(weak_password_list()[45]@ == l);
    } else if l == "1314520520"@ {
        assert(weak_password_list()[46]@ == l);
    } else if l == "520520520"@ {
        assert(weak_password_list()[47]@ == l);
    } else if l == "wangyifan"@ {
        assert(weak_password_list()[48]@ == l);
    } else if l == "zhangwei123"@ {
        assert(weak_password_list()[49]@ == l);
    } else if l == "liwei1234"@ {
        assert(weak_password_list()[50]@ == l);
    } else if l == "wangfang123"@ {
        assert(weak_password_list()[51]@ == l);
    } else if l == "aizhenzhu"@ {
        assert(weak_password_list()[52]@ == l);
    } else if l == "woshishui"@ {
        assert(weak_password_list()[53]@ == l);
    } else if l == "nihaoma123"@ {
        assert(weak_password_list()[54]@ == l);
    } else if l == "zhongguo123"@ {
        assert(weak_password_list()[55]@ == l);
    } else if l == "beijing123"@ {
        assert(weak_password_list()[56]@ == l);
    } else if l == "shanghai123"@ {
        assert(weak_password_list()[57]@ == l);
    } else if l == "chenxiaoming"@ {
        assert(weak_password_list()[58]@ == l);
    } else if l == "xiaoming123"@ {
        assert(weak_password_list()[59]@ == l);
    } else if l == "xiaohong123"@ {
        assert(weak_password_list()[60]@ == l);
    } else if l == "zhangsan123"@ {
        assert(weak_password_list()[61]@ == l);
    } else if l == "lisi1234"@ {
        assert(weak_password_list()[62]@ == l);
    } else if l == "qq123456"@ {
        assert(weak_password_list()[63]@ == l);
    } else if l == "qq1234567"@ {
        assert(weak_password_list()[64]@ == l);
    } else if l == "wechat123"@ {
        assert(weak_password_list()[65]@ == l);
    } else if l == "weixin123"@ {
        assert(weak_password_list()[66]@ == l);
    } else if l == "taobao123"@ {
        assert(weak_password_list()[67]@ == l);
    } else if l == "alipay123"@ {
        assert(weak_password_list()[68]@ == l);
    } else if l == "minecraft"@ {
        assert(weak_password_list()[69]@ == l);
    } else if l == "minecraft1"@ {
        assert(weak_password_list()[70]@ == l);
    } else if l == "minecraft123"@ {
        assert(weak_password_list()[71]@ == l);
    } else if l == "mojang123"@ {
        assert(weak_password_list()[72]@ == l);
    } else if l == "notch123"@ {
        assert(weak_password_list()[73]@ == l);
    } else if l == "steve1234"@ {
        assert(weak_password_list()[74]@ == l);
    } else if l == "herobrine"@ {
        assert(weak_password_list()[75]@ == l);
    } else if l == "creeper123"@ {
        assert(weak_password_list()[76]@ == l);
    } else if l == "diamond123"@ {
        assert(weak_password_list()[77]@ == l);
    } else if l == "redstone1"@ {
        assert(weak_password_list()[78]@ == l);
    } else if l == "lingdeng123"@ {
        assert(weak_password_list()[79]@ == l);
    } else if l == "soullantern"@ {
        assert(weak_password_list()[80]@ == l);
    } else if l == "hunling123"@ {
        assert(weak_password_list()[81]@ == l);
    } else if l == "denglong123"@ {
        assert(weak_password_list()[82]@ == l);
    } else if l == "asdasdasd"@ {
        assert(weak_password_list()[83]@ == l);
    } else if l == "qweqweqwe"@ {
        assert(weak_password_list()[84]@ == l);
    } else if l == "zxczxczxc"@ {
        assert(weak_password_list()[85]@ == l);
    } else if l == "aaaaaaaa"@ {
        assert(weak_password_list()[86]@ == l);
    } else if l == "aaaa1111"@ {
        assert(weak_password_list()[87]@ == l);
    } else if l == "abcabcabc"@ {
        assert(weak_password_list()[88]@ == l);
    } else if l == "19900101"@ {
        assert(weak_password_list()[89]@ == l);
    } else if l == "19951231"@ {
        assert(weak_password_list()[90]@ == l);
    } else if l == "20001231"@ {
        assert(weak_password_list()[91]@ == l);
    } else if l == "20080808"@ {
        assert(weak_password_list()[92]@ == l);
    } else if l == "19891989"@ {
        assert(weak_password_list()[93]@ == l);
    } else if l == "20202020"@ {
        assert(weak_password_list()[94]@ == l);
    }
}

/// Password length: fewer than 8 characters or more than 128 is refused with its own message,
/// and a password of 8 to 128 characters is never refused for its length.
pub proof fn lemma_password_length(password: Seq<char>, username: Seq<char>, phone: Seq<char>)
    ensures
        password.len() < 8 ==> password_error(password, username, phone) == Some("密码至少 8 个字符。"@),
        password.len() > 128 ==> password_error(password, username, phone) == Some("密码太长了（最多 128 个字符）。"@),
        8 <= password.len() <= 128 ==> password_error(password, username, phone) != Some("密码至少 8 个字符。"@)
            && password_error(password, username, phone) != Some("密码太长了（最多 128 个字符）。"@),
{
    let msgs = seq![
        "密码至少 8 个字符。"@,
        "密码太长了（最多 128 个字符）。"@,
        "这个密码太常见了，换一个不容易被猜到的。"@,
        "密码不能是同一个字符重复。"@,
        "密码不能和用户名一样。"@,
        "密码不能包含手机号。"@,
    ];
    reveal_strlit("密码至少 8 个字符。");
    reveal_strlit("密码太长了（最多 128 个字符）。");
    reveal_strlit("这个密码太常见了，换一个不容易被猜到的。");
    reveal_strlit("密码不能是同一个字符重复。");
    reveal_strlit("密码不能和用户名一样。");
    reveal_strlit("密码不能包含手机号。");
    assert(msgs[0][0] == '密' && msgs[0][2] == '至');
    assert(msgs[1][2] == '太');
    assert(msgs[2][0] == '这');
    assert(msgs[3][2] == '不');
    assert(msgs[4][2] == '不');
    assert(msgs[5][2] == '不');
    assert(msgs[0] != msgs[1] && msgs[0] != msgs[2] && msgs[0] != msgs[3] && msgs[0] != msgs[4] && msgs[0] != msgs[5]);
    assert(msgs[1] != msgs[2] && msgs[1] != msgs[3] && msgs[1] != msgs[4] && msgs[1] != msgs[5]);
}

/// Every character of `s` is the same.
pub open spec fn all_same(s: Seq<char>) -> bool {
    forall|i: int| 0 <= i < s.len() ==> #[trigger] s[i] == s[0]
}

/// The verdict on a password, given the user name and phone it must not repeat:
/// `None` when accepted, otherwise the message. Checked in this order: length 8..=128
/// characters, the weak list (after lower-casing), one repeated character, equal to the user
/// name up to case, containing or contained in the phone number.
pub open spec fn password_error(password: Seq<char>, username: Seq<char>, phone: Seq<char>) -> Option<Seq<char>> {
    let n = password.len();
    let lower = str_lowercase(password);
    if n < 8 {
        Some("密码至少 8 个字符。"@)
    } else if n > 128 {
        Some("密码太长了（最多 128 个字符）。"@)
    } else if is_weak_password(lower) {
        Some("这个密码太常见了，换一个不容易被猜到的。"@)
    } else if all_same(password) {
        Some("密码不能是同一个字符重复。"@)
    } else if username.len() > 0 && lower == str_lowercase(username) {
        Some("密码不能和用户名一样。"@)
    } else if phone.len() > 0 && (contains_seq(lower, phone) || contains_seq(phone, lower)) {
        Some("密码不能包含手机号。"@)
    } else {
        None
    }
}

/// Password policy: 8 to 128 characters, not a common weak password, not one character
/// repeated, not the user name, not containing (or contained in) the phone number.
pub fn validate_password(password: &str, username: &str, phone: &str) -> (r: Result<(), String>)
    ensures
        match password_error(password@, username@, phone@) {
            None => r is Ok,
            Some(m) => r is Err && r->Err_0@ == m,
        },
{
    let n = char_count(password);
    if n < 8 {
        return Err(string_from("密码至少 8 个字符。"));
    }
    if n > 128 {
        return Err(string_from("密码太长了（最多 128 个字符）。"));
    }
    let lower = str_to_lowercase(password);
    if is_weak(lower.as_str()) {
        return Err(string_from("这个密码太常见了，换一个不容易被猜到的。"));
    }
    let v = chars_of(password);
    let first = v[0];
    let mut same = true;
    let mut i: usize = 1;
    while i < v.len()
        invariant
            v@ == password@,
            v@.len() >= 8,
            first == v@[0],
            1 <= i <= v@.len(),
            same == (forall|j: int| 0 <= j < i ==> #[trigger] v@[j] == first),
        decreases v@.len() - i,
    {
        if v[i] != first {
            same = false;
        }
        i = i + 1;
    }
    if same {
        return Err(string_from("密码不能是同一个字符重复。"));
    }
    if username.unicode_len() > 0 {
        let ulower = str_to_lowercase(username);
        if str_eq(lower.as_str(), ulower.as_str()) {
            return Err(string_from("密码不能和用户名一样。"));
        }
    }
    if phone.unicode_len() > 0 && (str_contains(lower.as_str(), phone) || str_contains(phone, lower.as_str())) {
        return Err(string_from("密码不能包含手机号。"));
    }
    Ok(())
}

// ---------------------------------------------------------------- rate limiting

/// `a - b`, or zero when `b >= a` (`u64::saturating_sub`).
pub open spec fn sat_sub(a: int, b: int) -> int {
    if a > b {
        a - b
    } else {
        0
    }
}

/// The hits of `hits` still inside a window of `window` seconds at time `now`, in order.
pub open spec fn recent(hits: Seq<u64>, now: u64, window: u64) -> Seq<u64>
    decreases hits.len(),
{
    if hits.len() == 0 {
        seq![]
    } else {
        let r = recent(hits.drop_last(), now, window);
        if sat_sub(now as int, hits.last() as int) < window {
            r.push(hits.last())
        } else {
            r
        }
    }
}

/// The hits recorded under `key` (none when the key is absent).
pub open spec fn hits_of(m: Map<Seq<char>, Seq<u64>>, key: Seq<char>) -> Seq<u64> {
    if m.dom().contains(key) {
        m[key]
    } else {
        seq![]
    }
}

/// The outcome of `check` at time `now`: the key's hits outside the window are dropped;
/// with `limit` or more left the check is refused with the seconds to wait (at least 1),
/// otherwise `now` is recorded.
pub open spec fn check_outcome(m: Map<Seq<char>, Seq<u64>>, key: Seq<char>, limit: usize, window: u64, now: u64) -> (
    Map<Seq<char>, Seq<u64>>,
    Result<(), u64>,
) {
    let kept = recent(hits_of(m, key), now, window);
    if kept.len() >= limit {
        let oldest = if kept.len() > 0 { kept[0] } else { now };
        let wait = sat_sub(window as int, sat_sub(now as int, oldest as int));
        (m.insert(key, kept), Err((if wait > 1 { wait } else { 1 }) as u64))
    } else {
        (m.insert(key, kept.push(now)), Ok(()))
    }
}

/// The state after `refund`: the key's most recent hit is taken back, if it has one.
pub open spec fn refund_outcome(m: Map<Seq<char>, Seq<u64>>, key: Seq<char>) -> Map<Seq<char>, Seq<u64>> {
    if m.dom().contains(key) && m[key].len() > 0 {
        m.insert(key, m[key].drop_last())
    } else {
        m
    }
}

/// The state after `sweep` at time `now`: every key keeps its hits inside the window, and
/// keys left with none are dropped.
pub open spec fn sweep_outcome(m: Map<Seq<char>, Seq<u64>>, max_window: u64, now: u64) -> Map<Seq<char>, Seq<u64>> {
    Map::new(
        |k: Seq<char>| m.dom().contains(k) && recent(m[k], now, max_window).len() > 0,
        |k: Seq<char>| recent(m[k], now, max_window),
    )
}

/// Key `q` is among the first `i` rows of `t`.
pub open spec fn in_prefix(t: Table<Vec<u64>>, i: int, q: Seq<char>) -> bool {
    exists|j: int| 0 <= j < i && #[trigger] t.key_at(j) == q
}

/// A sliding-window counter per key, in memory only.
pub struct RateLimiter {
    hits: Table<Vec<u64>>,
}

impl View for RateLimiter {
    type V = Map<Seq<char>, Seq<u64>>;

    closed spec fn view(&self) -> Map<Seq<char>, Seq<u64>> {
        self.hits.view().map_values(|v: Vec<u64>| v@)
    }
}

impl Default for RateLimiter {
    fn default() -> (r: Self)
        ensures
            r.wf(),
            r@ == Map::<Seq<char>, Seq<u64>>::empty(),
    {
        let r = RateLimiter { hits: Table::new() };
        assert(r@ =~= Map::<Seq<char>, Seq<u64>>::empty());
        r
    }
}

fn copy_hits(v: &Vec<u64>) -> (r: Vec<u64>)
    ensures
        r@ == v@,
{
    let mut r: Vec<u64> = Vec::new();
    let mut i: usize = 0;
    while i < v.len()
        invariant
            i <= v@.len(),
            r@ == v@.subrange(0, i as int),
        decreases v@.len() - i,
    {
        r.push(v[i]);
        i = i + 1;
        assert(r@ =~= v@.subrange(0, i as int));
    }
    assert(v@.subrange(0, v@.len() as int) =~= v@);
    r
}

proof fn lemma_view_insert(m: Map<Seq<char>, Vec<u64>>, k: Seq<char>, v: Vec<u64>)
    ensures
        m.insert(k, v).map_values(|x: Vec<u64>| x@) == m.map_values(|x: Vec<u64>| x@).insert(k, v@),
{
    assert(m.insert(k, v).map_values(|x: Vec<u64>| x@) =~= m.map_values(|x: Vec<u64>| x@).insert(k, v@));
}

fn recent_hits(hits: &Vec<u64>, now: u64, window: u64) -> (r: Vec<u64>)
    ensures
        r@ == recent(hits@, now, window),
{
    let mut r: Vec<u64> = Vec::new();
    let mut i: usize = 0;
    while i < hits.len()
        invariant
            i <= hits@.len(),
            r@ == recent(hits@.subrange(0, i as int), now, window),
        decreases hits@.len() - i,
    {
        let t = hits[i];
        let age: u64 = if now > t { now - t } else { 0 };
        proof {
            let pre = hits@.subrange(0, i as int);
            let next = hits@.subrange(0, i + 1);
            assert(next.drop_last() =~= pre);
        }
        if age < window {
            r.push(t);
        }
        i = i + 1;
    }
    assert(hits@.subrange(0, hits@.len() as int) =~= hits@);
    r
}

impl RateLimiter {
    /// The counter table is well formed.
    pub closed spec fn wf(&self) -> bool {
        self.hits.wf()
    }

    proof fn lemma_insert_view(&self, before: Self, key: Seq<char>, v: Vec<u64>)
        requires
            self.hits.view() == before.hits.view().insert(key, v),
        ensures
            self@ == before@.insert(key, v@),
    {
        assert(self@ =~= before@.insert(key, v@));
    }

    /// The key's hits still inside the window, with the pruned list stored back.
    fn prune(&mut self, key: &str, window: u64, now: u64) -> (kept: Vec<u64>)
        requires
            old(self).wf(),
        ensures
            final(self).wf(),
            kept@ == recent(hits_of(old(self)@, key@), now, window),
            final(self)@ == old(self)@.insert(key@, kept@),
    {
        let kept = match self.hits.get(key) {
            Some(h) => recent_hits(h, now, window),
            None => {
                let empty: Vec<u64> = Vec::new();
                recent_hits(&empty, now, window)
            },
        };
        let ghost before = *self;
        let stored = copy_hits(&kept);
        self.hits.insert(string_from(key), stored);
        proof {
            self.lemma_insert_view(before, key@, stored);
            if before.hits.view().dom().contains(key@) {
                assert(hits_of(before@, key@) == before.hits.view()[key@]@);
            } else {
                assert(hits_of(before@, key@) == Seq::<u64>::empty());
            }
        }
        kept
    }

    /// Checks and records one hit at time `now`: refused with the seconds to wait when
    /// `limit` hits of `key` already lie in the last `window_secs` seconds.
    pub fn check_at(&mut self, key: &str, limit: usize, window_secs: u64, now: u64) -> (r: Result<(), u64>)
        requires
            old(self).wf(),
        ensures
            final(self).wf(),
            (final(self)@, r) == check_outcome(old(self)@, key@, limit, window_secs, now),
    {
        let mut kept = self.prune(key, window_secs, now);
        if kept.len() >= limit {
            let oldest = if kept.len() > 0 { kept[0] } else { now };
            let age: u64 = if now > oldest { now - oldest } else { 0 };
            let wait: u64 = if window_secs > age { window_secs - age } else { 0 };
            return Err(if wait > 1 { wait } else { 1 });
        }
        kept.push(now);
        let ghost before = *self;
        self.hits.insert(string_from(key), kept);
        proof {
            self.lemma_insert_view(before, key@, kept);
            assert(self@ =~= old(self)@.insert(key@, kept@));
        }
        Ok(())
    }

    /// Checks and records one hit now (`now_secs`): whatever the clock read, the outcome is
    /// that of `check_at` at that time.
    pub fn check(&mut self, key: &str, limit: usize, window_secs: u64) -> (r: Result<(), u64>)
        requires
            old(self).wf(),
        ensures
            final(self).wf(),
            exists|now: u64| (final(self)@, r) == check_outcome(old(self)@, key@, limit, window_secs, now),
    {
        let now = now_secs();
        self.check_at(key, limit, window_secs, now)
    }

    /// Whether one more hit at time `now` would pass, without recording it (expired hits
    /// of `key` are dropped all the same).
    pub fn peek_at(&mut self, key: &str, limit: usize, window_secs: u64, now: u64) -> (b: bool)
        requires
            old(self).wf(),
        ensures
            final(self).wf(),
            b == (recent(hits_of(old(self)@, key@), now, window_secs).len() < limit),
            final(self)@ == old(self)@.insert(key@, recent(hits_of(old(self)@, key@), now, window_secs)),
    {
        let kept = self.prune(key, window_secs, now);
        kept.len() < limit
    }

    /// `peek_at` at the current time.
    pub fn peek(&mut self, key: &str, limit: usize, window_secs: u64) -> (b: bool)
        requires
            old(self).wf(),
        ensures
            final(self).wf(),
            exists|now: u64|
                b == (recent(hits_of(old(self)@, key@), now, window_secs).len() < limit) && final(self)@ == old(
                    self,
                )@.insert(key@, recent(hits_of(old(self)@, key@), now, window_secs)),
    {
        let now = now_secs();
        self.peek_at(key, limit, window_secs, now)
    }

    /// Takes back the most recent hit of `key`, for a check that was recorded but should not
    /// count because a later step failed.
    pub fn refund(&mut self, key: &str)
        requires
            old(self).wf(),
        ensures
            final(self).wf(),
            final(self)@ == refund_outcome(old(self)@, key@),
    {
        match self.hits.find(key) {
            Some(i) => {
                let mut h = self.hits.value(i).clone();
                proof {
                    assert(h@ == self.hits.value_at(i as int)@);
                }
                let ghost before = *self;
                let popped = h.pop();
                self.hits.set_value(i, h);
                proof {
                    self.lemma_insert_view(before, key@, h);
                    assert(before@[key@] == before.hits.view()[key@]@);
                    if before@[key@].len() == 0 {
                        assert(self@ =~= before@);
                    }
                }
            },
            None => {
                assert(!self@.dom().contains(key@));
            },
        }
    }

    /// Hits of `key` inside the window at time `now` (expired ones are dropped).
    pub fn count_at(&mut self, key: &str, window_secs: u64, now: u64) -> (n: usize)
        requires
            old(self).wf(),
        ensures
            final(self).wf(),
            n == recent(hits_of(old(self)@, key@), now, window_secs).len(),
            final(self)@ == old(self)@.insert(key@, recent(hits_of(old(self)@, key@), now, window_secs)),
    {
        let kept = self.prune(key, window_secs, now);
        kept.len()
    }

    /// `count_at` at the current time.
    pub fn count(&mut self, key: &str, window_secs: u64) -> (n: usize)
        requires
            old(self).wf(),
        ensures
            final(self).wf(),
            exists|now: u64|
                n == recent(hits_of(old(self)@, key@), now, window_secs).len() && final(self)@ == old(self)@.insert(
                    key@,
                    recent(hits_of(old(self)@, key@), now, window_secs),
                ),
    {
        let now = now_secs();
        self.count_at(key, window_secs, now)
    }

    /// Drops the hits older than `max_window_secs` at time `now`, and the keys left empty, so
    /// that changing keys cannot grow the table without bound.
    pub fn sweep_at(&mut self, max_window_secs: u64, now: u64)
        requires
            old(self).wf(),
        ensures
            final(self).wf(),
            final(self)@ == sweep_outcome(old(self)@, max_window_secs, now),
    {
        let mut fresh: Table<Vec<u64>> = Table::new();
        let n = self.hits.len();
        let mut i: usize = 0;
        while i < n
            invariant
                self.hits.wf(),
                fresh.wf(),
                n == self.hits.rows().len(),
                i <= n,
                fresh.view().map_values(|v: Vec<u64>| v@) == Map::new(
                    |k: Seq<char>|
                        in_prefix(self.hits, i as int, k) && recent(
                            self@[k],
                            now,
                            max_window_secs,
                        ).len() > 0,
                    |k: Seq<char>| recent(self@[k], now, max_window_secs),
                ),
            decreases n - i,
        {
            let kept = recent_hits(self.hits.value(i), now, max_window_secs);
            let ghost prev = fresh.view().map_values(|v: Vec<u64>| v@);
            let ghost k = self.hits.key_at(i as int);
            proof {
                self.hits.lemma_row(i as int);
                assert(self@[k] == self.hits.value_at(i as int)@);
            }
            let ghost kv = kept@;
            if kept.len() > 0 {
                let ghost fbefore = fresh.view();
                fresh.insert(self.hits.key(i).clone(), kept);
                proof {
                    lemma_view_insert(fbefore, k, kept);
                }
            }
            proof {
                assert(kv == recent(self@[k], now, max_window_secs));
                let target = Map::new(
                    |q: Seq<char>|
                        in_prefix(self.hits, i + 1, q) && recent(
                            self@[q],
                            now,
                            max_window_secs,
                        ).len() > 0,
                    |q: Seq<char>| recent(self@[q], now, max_window_secs),
                );
                assert forall|q: Seq<char>|
                    #[trigger] in_prefix(self.hits, i + 1, q) == (in_prefix(self.hits, i as int, q) || q == k) by {
                    if q == k {
                        assert(self.hits.key_at(i as int) == q);
                    }
                    if in_prefix(self.hits, i + 1, q) && q != k {
                        let j = choose|j: int| 0 <= j < i + 1 && #[trigger] self.hits.key_at(j) == q;
                        assert(j != i);
                    }
                }
                assert(fresh.view().map_values(|v: Vec<u64>| v@) =~= target);
            }
            i = i + 1;
        }
        proof {
            let target = sweep_outcome(self@, max_window_secs, now);
            assert forall|q: Seq<char>| #[trigger] in_prefix(self.hits, n as int, q) == self@.dom().contains(q) by {
                if self@.dom().contains(q) {
                    let j = self.hits.row_of(q);
                    assert(self.hits.key_at(j) == q);
                }
            }
            assert(fresh.view().map_values(|v: Vec<u64>| v@) =~= target);
        }
        self.hits = fresh;
        proof {
            assert(self@ =~= sweep_outcome(old(self)@, max_window_secs, now));
        }
    }

    /// `sweep_at` at the current time.
    pub fn sweep(&mut self, max_window_secs: u64)
        requires
            old(self).wf(),
        ensures
            final(self).wf(),
            exists|now: u64| final(self)@ == sweep_outcome(old(self)@, max_window_secs, now),
    {
        let now = now_secs();
        self.sweep_at(max_window_secs, now)
    }
}

/// Seconds in a day.
pub const DAY: u64 = 24 * 3600;
/// Seconds in an hour.
pub const HOUR: u64 = 3600;

/// The rate-limit key `prefix + id`.
pub open spec fn quota_key(prefix: Seq<char>, id: Seq<char>) -> Seq<char> {
    prefix + id
}

/// The daily budget of codes to numbers not yet known: the three fifths of `cap` left after
/// the reserve kept for resends and password resets.
pub open spec fn new_phone_budget(cap: usize) -> int {
    cap as int * 3 / 5
}

/// The outcome of the SMS quota checks at time `now`, in order: per phone (one code per
/// `interval` seconds when `interval > 0`, five a day), per IP (five an hour, ten a day), then
/// the global daily budget (`cap` for known numbers, `new_phone_budget(cap)` otherwise). A
/// refused step takes back the hits the earlier steps recorded.
pub open spec fn sms_quota_outcome(
    m: Map<Seq<char>, Seq<u64>>,
    phone: Seq<char>,
    ip: Seq<char>,
    known: bool,
    interval: u64,
    cap: usize,
    now: u64,
) -> (Map<Seq<char>, Seq<u64>>, Result<(), Seq<char>>) {
    let kp = quota_key("sms:phone:"@, phone);
    let kp24 = quota_key("sms:phone24:"@, phone);
    let ki = quota_key("sms:ip:"@, ip);
    let ki24 = quota_key("sms:ip24:"@, ip);
    let s1 = if interval > 0 { check_outcome(m, kp, 1, interval, now) } else { (m, Ok(())) };
    if s1.1 is Err {
        (s1.0, Err("验证码刚发过，请 "@ + decimal_digits(s1.1->Err_0 as nat) + " 秒后再试。"@))
    } else {
        let s2 = check_outcome(s1.0, kp24, 5, DAY, now);
        if s2.1 is Err {
            (refund_outcome(s2.0, kp), Err("这个手机号今天的验证码次数用完了，请明天再试。"@))
        } else {
            let s3 = check_outcome(s2.0, ki, 5, HOUR, now);
            if s3.1 is Err {
                (refund_outcome(refund_outcome(s3.0, kp), kp24), Err("操作太频繁了，请稍后再试。"@))
            } else {
                let s4 = check_outcome(s3.0, ki24, 10, DAY, now);
                if s4.1 is Err {
                    (refund_outcome(refund_outcome(refund_outcome(s4.0, kp), kp24), ki), Err("操作太频繁了，请明天再试。"@))
                } else {
                    let budget = if known { cap as int } else { new_phone_budget(cap) };
                    let s5 = check_outcome(s4.0, "sms:global"@, budget as usize, DAY, now);
                    if s5.1 is Err {
                        (
                            refund_outcome(refund_outcome(refund_outcome(refund_outcome(s5.0, kp), kp24), ki), ki24),
                            Err("今天的验证码发送量已达上限，请明天再试。"@),
                        )
                    } else {
                        (s5.0, Ok(()))
                    }
                }
            }
        }
    }
}

fn quota_key_of(prefix: &str, id: &str) -> (k: String)
    ensures
        k@ == quota_key(prefix@, id@),
{
    let mut k = string_from(prefix);
    push_str(&mut k, id);
    k
}

/// The SMS quota checks before a code is sent, at time `now`, with the per-phone interval
/// and the daily cap from the configuration.
pub fn check_sms_quota_at(
    rl: &mut RateLimiter,
    phone: &str,
    ip: &str,
    is_known_phone: bool,
    interval: u64,
    cap: usize,
    now: u64,
) -> (r: Result<(), String>)
    requires
        old(rl).wf(),
    ensures
        final(rl).wf(),
        ({
            let (m, res) = sms_quota_outcome(old(rl)@, phone@, ip@, is_known_phone, interval, cap, now);
            &&& final(rl)@ == m
            &&& (res is Ok <==> r is Ok)
            &&& (res is Err ==> r is Err && r->Err_0@ == res->Err_0)
        }),
{
    let kp = quota_key_of("sms:phone:", phone);
    let kp24 = quota_key_of("sms:phone24:", phone);
    let ki = quota_key_of("sms:ip:", ip);
    let ki24 = quota_key_of("sms:ip24:", ip);
    if interval > 0 {
        match rl.check_at(kp.as_str(), 1, interval, now) {
            Err(wait) => {
                let mut msg = string_from("验证码刚发过，请 ");
                push_u64(&mut msg, wait);
                push_str(&mut msg, " 秒后再试。");
                return Err(msg);
            },
            Ok(()) => {},
        }
    }
    if rl.check_at(kp24.as_str(), 5, DAY, now).is_err() {
        rl.refund(kp.as_str());
        return Err(string_from("这个手机号今天的验证码次数用完了，请明天再试。"));
    }
    if rl.check_at(ki.as_str(), 5, HOUR, now).is_err() {
        rl.refund(kp.as_str());
        rl.refund(kp24.as_str());
        return Err(string_from("操作太频繁了，请稍后再试。"));
    }
    if rl.check_at(ki24.as_str(), 10, DAY, now).is_err() {
        rl.refund(kp.as_str());
        rl.refund(kp24.as_str());
        rl.refund(ki.as_str());
        return Err(string_from("操作太频繁了，请明天再试。"));
    }
    let new_budget: usize = cap / 5 * 3 + cap % 5 * 3 / 5;
    assert(new_budget == new_phone_budget(cap)) by (nonlinear_arith)
        requires
            new_budget == cap / 5 * 3 + cap % 5 * 3 / 5,
    ;
    let budget = if is_known_phone { cap } else { new_budget };
    if rl.check_at("sms:global", budget, DAY, now).is_err() {
        rl.refund(kp.as_str());
        rl.refund(kp24.as_str());
        rl.refund(ki.as_str());
        rl.refund(ki24.as_str());
        return Err(string_from("今天的验证码发送量已达上限，请明天再试。"));
    }
    Ok(())
}

/// The SMS quota checks at the current time: whatever the clock read, the outcome is that of
/// `check_sms_quota_at` at that time.
pub fn check_sms_quota(
    rl: &mut RateLimiter,
    phone: &str,
    ip: &str,
    is_known_phone: bool,
    interval: u64,
    cap: usize,
) -> (r: Result<(), String>)
    requires
        old(rl).wf(),
    ensures
        final(rl).wf(),
        exists|now: u64|
            {
                let (m, res) = #[trigger] sms_quota_outcome(old(rl)@, phone@, ip@, is_known_phone, interval, cap, now);
                &&& final(rl)@ == m
                &&& (res is Ok <==> r is Ok)
                &&& (res is Err ==> r is Err && r->Err_0@ == res->Err_0)
            },
{
    let now = now_secs();
    check_sms_quota_at(rl, phone, ip, is_known_phone, interval, cap, now)
}

/// Failed log-ins allowed per account key, and per IP, in `LOGIN_WINDOW_SECS`.
pub const LOGIN_ACCOUNT_LIMIT: usize = 5;
/// Failed log-ins allowed per IP in `LOGIN_WINDOW_SECS`.
pub const LOGIN_IP_LIMIT: usize = 30;
/// The log-in lockout window, in seconds.
pub const LOGIN_WINDOW_SECS: u64 = 15 * 60;

/// Whether a log-in attempt at `now` is locked out: the per-account check runs first, and the
/// per-IP check only when it passes. The limiter keys are returned so that a successful log-in
/// can refund both.
pub fn login_locked_at(rl: &mut RateLimiter, account_key: &str, ip: &str, now: u64) -> (r: (bool, String, String))
    requires
        old(rl).wf(),
    ensures
        final(rl).wf(),
        r.1@ == quota_key("login:acct:"@, account_key@),
        r.2@ == quota_key("login:ip:"@, ip@),
        ({
            let a = check_outcome(old(rl)@, r.1@, LOGIN_ACCOUNT_LIMIT, LOGIN_WINDOW_SECS, now);
            let b = check_outcome(a.0, r.2@, LOGIN_IP_LIMIT, LOGIN_WINDOW_SECS, now);
            if a.1 is Err {
                r.0 && final(rl)@ == a.0
            } else {
                r.0 == (b.1 is Err) && final(rl)@ == b.0
            }
        }),
{
    let acct = quota_key_of("login:acct:", account_key);
    let ipk = quota_key_of("login:ip:", ip);
    let locked = rl.check_at(acct.as_str(), LOGIN_ACCOUNT_LIMIT, LOGIN_WINDOW_SECS, now).is_err()
        || rl.check_at(ipk.as_str(), LOGIN_IP_LIMIT, LOGIN_WINDOW_SECS, now).is_err();
    (locked, acct, ipk)
}

/// The token of an `Authorization` header value: the text after `Bearer `, trimmed, when
/// there is any.
pub open spec fn bearer_spec(header: Seq<char>) -> Option<Seq<char>> {
    match strip_prefix_spec(header, "Bearer "@) {
        Some(rest) => if trim_spec(rest).len() > 0 {
            Some(trim_spec(rest))
        } else {
            None
        },
        None => None,
    }
}

/// Reads the bearer token out of an `Authorization` header value.
pub fn bearer_token_from(header: &str) -> (r: Option<String>)
    ensures
        match r {
            Some(t) => bearer_spec(header@) == Some(t@),
            None => bearer_spec(header@) is None,
        },
{
    match strip_prefix(header, "Bearer ") {
        Some(rest) => {
            let t = trim(rest.as_str());
            if t.unicode_len() > 0 {
                Some(t)
            } else {
                None
            }
        },
        None => None,
    }
}

/// A refusal: the HTTP status and the message shown to the user.
pub type ApiError = (u16, String);

/// Whether a pending verification may be checked at `now`: it must exist and not have
/// expired (400 otherwise, the same message either way), and must have attempts left (429).
pub fn pending_gate(pending: Option<&PendingVerification>, now: u64) -> (r: Result<(), ApiError>)
    ensures
        match pending {
            None => r is Err && r->Err_0.0 == 400 && r->Err_0.1@ == "验证码已过期，请重新获取。"@,
            Some(p) => if p.expires_at <= now {
                r is Err && r->Err_0.0 == 400 && r->Err_0.1@ == "验证码已过期，请重新获取。"@
            } else if p.attempts >= MAX_VERIFY_ATTEMPTS {
                r is Err && r->Err_0.0 == 429 && r->Err_0.1@ == "验证码错误次数过多，请重新获取。"@
            } else {
                r is Ok
            },
        },
{
    match pending {
        None => Err((400, string_from("验证码已过期，请重新获取。"))),
        Some(p) => {
            if p.expires_at <= now {
                Err((400, string_from("验证码已过期，请重新获取。")))
            } else if p.attempts >= MAX_VERIFY_ATTEMPTS {
                Err((429, string_from("验证码错误次数过多，请重新获取。")))
            } else {
                Ok(())
            }
        },
    }
}

/// The digits of a code as typed (spaces and dashes dropped).
pub fn normalize_code(code: &str) -> (d: String)
    ensures
        d@ == crate::crypto::digits_of(code@),
{
    let v = chars_of(code);
    let mut out: Vec<char> = Vec::new();
    let mut i: usize = 0;
    while i < v.len()
        invariant
            v@ == code@,
            i <= v@.len(),
            out@ == crate::crypto::digits_of(v@.subrange(0, i as int)),
        decreases v@.len() - i,
    {
        let c = v[i];
        proof {
            let next = v@.subrange(0, i + 1);
            assert(next.drop_last() =~= v@.subrange(0, i as int));
        }
        if '0' <= c && c <= '9' {
            out.push(c);
        }
        i = i + 1;
    }
    assert(v@.subrange(0, v@.len() as int) =~= v@);
    string_of(&out)
}

/// Checks a code against the digest stored for a locally generated one: the HMAC of the code
/// under the pepper, compared in constant time.
pub fn local_code_matches(pepper: &[u8], code: &str, expected: &[u8]) -> (ok: bool)
    ensures
        ok == (hmac_sha256_tag(pepper@, code.spec_bytes()) == expected@),
{
    let given = hmac_sha256(pepper, code.as_bytes());
    crate::crypto::constant_time_eq(given.as_slice(), expected)
}

/// A sign-up and a password reset for the same phone never share a pending slot.
pub proof fn lemma_pending_keys_distinct(phone: Seq<char>)
    ensures
        pending_key_spec(Purpose::Register, phone) != pending_key_spec(Purpose::Reset, phone),
{
    reveal_strlit("register");
    reveal_strlit("reset");
    let a = pending_key_spec(Purpose::Register, phone);
    let b = pending_key_spec(Purpose::Reset, phone);
    assert(a[5] == 't');
    assert(b[5] == ':');
}

/// Names that differ only in character width (full-width against half-width ASCII) have the
/// same uniqueness key, so one cannot register a look-alike of another.
pub proof fn lemma_username_key_ignores_width(a: Seq<char>, b: Seq<char>)
    requires
        a.len() == b.len(),
        forall|i: int| 0 <= i < a.len() ==> fold_width(#[trigger] a[i]) == fold_width(b[i]),
    ensures
        username_key_spec(a) == username_key_spec(b),
    decreases a.len(),
{
    if a.len() > 0 {
        lemma_username_key_ignores_width(a.drop_last(), b.drop_last());
        assert(fold_width(a.last()) == fold_width(b.last()));
    }
}

/// A refund right after an accepted check takes back exactly the hit that check recorded:
/// the key is left with its in-window hits, as if only the expiry had run.
pub proof fn lemma_refund_undoes_check(
    m: Map<Seq<char>, Seq<u64>>,
    key: Seq<char>,
    limit: usize,
    window: u64,
    now: u64,
)
    requires
        check_outcome(m, key, limit, window, now).1 is Ok,
    ensures
        refund_outcome(check_outcome(m, key, limit, window, now).0, key) == m.insert(
            key,
            recent(hits_of(m, key), now, window),
        ),
{
    let kept = recent(hits_of(m, key), now, window);
    assert(kept.push(now).drop_last() =~= kept);
    assert(refund_outcome(check_outcome(m, key, limit, window, now).0, key) =~= m.insert(key, kept));
}

/// A refund takes one hit off the key's count at any time that hit still counts; a key with
/// no hits is left as it was.
pub proof fn lemma_refund_lowers_count(m: Map<Seq<char>, Seq<u64>>, key: Seq<char>, now: u64, window: u64)
    ensures
        hits_of(m, key).len() > 0 && sat_sub(now as int, hits_of(m, key).last() as int) < window ==> recent(
            hits_of(refund_outcome(m, key), key),
            now,
            window,
        ).len() == recent(hits_of(m, key), now, window).len() - 1,
        hits_of(m, key).len() == 0 ==> refund_outcome(m, key) == m,
{
}

/// An accepted check leaves at most `limit` hits of the key inside the window.
pub proof fn lemma_check_respects_limit(
    m: Map<Seq<char>, Seq<u64>>,
    key: Seq<char>,
    limit: usize,
    window: u64,
    now: u64,
)
    requires
        check_outcome(m, key, limit, window, now).1 is Ok,
    ensures
        check_outcome(m, key, limit, window, now).0[key].len() <= limit,
{
}

// ---------------------------------------------------------------- sessions and accounts

/// The sessions table key of a token: URL-safe base64 of its HMAC under the server pepper, so
/// the stored key cannot be used to log in.
pub open spec fn session_key_spec(pepper: Seq<u8>, token: Seq<u8>) -> Seq<char> {
    base64_url_nopad(hmac_sha256_tag(pepper, token))
}

/// The sessions table key of a token.
pub fn session_key(pepper: &[u8], token: &str) -> (k: String)
    ensures
        k@ == session_key_spec(pepper@, token.spec_bytes()),
{
    let mac = hmac_sha256(pepper, token.as_bytes());
    base64_url_encode(mac.as_slice())
}

/// The sessions of `m` that are still valid at `now`.
pub open spec fn live_sessions(m: Map<Seq<char>, Session>, now: u64) -> Map<Seq<char>, Session> {
    Map::new(|k: Seq<char>| m.dom().contains(k) && m[k].expires_at > now, |k: Seq<char>| m[k])
}

/// The pending verifications of `m` that are still valid at `now`.
pub open spec fn live_pending(m: Map<Seq<char>, PendingVerification>, now: u64) -> Map<Seq<char>, PendingVerification> {
    Map::new(|k: Seq<char>| m.dom().contains(k) && m[k].expires_at > now, |k: Seq<char>| m[k])
}

/// The sessions of `m` that do not belong to `user_id`.
pub open spec fn sessions_not_of(m: Map<Seq<char>, Session>, user_id: Seq<char>) -> Map<Seq<char>, Session> {
    Map::new(|k: Seq<char>| m.dom().contains(k) && m[k].user_id@ != user_id, |k: Seq<char>| m[k])
}

/// Some user of `p` has the uniqueness key `key`.
pub open spec fn username_taken(p: Persisted, key: Seq<char>) -> bool {
    exists|k: Seq<char>| #[trigger] p.users.view().dom().contains(k) && p.users.view()[k].username_key@ == key
}

/// Some user of `p` has the phone number `phone`.
pub open spec fn phone_taken(p: Persisted, phone: Seq<char>) -> bool {
    exists|k: Seq<char>| #[trigger] p.users.view().dom().contains(k) && p.users.view()[k].phone@ == phone
}

/// The account every user starts with: the welcome balance, nothing else.
pub open spec fn welcome_account() -> AccountView {
    AccountView { balance: WELCOME_BALANCE as int, activated: false, redeemed: Seq::empty() }
}

/// `q` differs from `p` only in its sessions.
pub open spec fn only_sessions_changed(p: Persisted, q: Persisted) -> bool {
    q.accounts == p.accounts && q.users == p.users && q.pending == p.pending && q.schema_version == p.schema_version
}

/// `q` differs from `p` only in its pending verifications.
pub open spec fn only_pending_changed(p: Persisted, q: Persisted) -> bool {
    q.accounts == p.accounts && q.users == p.users && q.sessions == p.sessions && q.schema_version == p.schema_version
}

/// `q` differs from `p` only in its users.
pub open spec fn only_users_changed(p: Persisted, q: Persisted) -> bool {
    q.accounts == p.accounts && q.pending == p.pending && q.sessions == p.sessions && q.schema_version == p.schema_version
}

fn session_keep_live(t: &Table<Session>, now: u64) -> (keep: Vec<bool>)
    requires
        t.wf(),
    ensures
        keep@.len() == t.rows().len(),
        forall|i: int| 0 <= i < keep@.len() ==> keep@[i] == (t.value_at(i).expires_at > now),
{
    let mut keep: Vec<bool> = Vec::new();
    let mut i: usize = 0;
    while i < t.len()
        invariant
            i <= t.rows().len(),
            keep@.len() == i,
            forall|j: int| 0 <= j < i ==> keep@[j] == (t.value_at(j).expires_at > now),
        decreases t.rows().len() - i,
    {
        keep.push(t.value(i).expires_at > now);
        i = i + 1;
    }
    keep
}

fn pending_keep_live(t: &Table<PendingVerification>, now: u64) -> (keep: Vec<bool>)
    requires
        t.wf(),
    ensures
        keep@.len() == t.rows().len(),
        forall|i: int| 0 <= i < keep@.len() ==> keep@[i] == (t.value_at(i).expires_at > now),
{
    let mut keep: Vec<bool> = Vec::new();
    let mut i: usize = 0;
    while i < t.len()
        invariant
            i <= t.rows().len(),
            keep@.len() == i,
            forall|j: int| 0 <= j < i ==> keep@[j] == (t.value_at(j).expires_at > now),
        decreases t.rows().len() - i,
    {
        keep.push(t.value(i).expires_at > now);
        i = i + 1;
    }
    keep
}

impl Store {
    /// Starts a session for `user_id` at `now`: expired sessions are dropped, and the new one
    /// is stored under the HMAC of a fresh random token. Returns the token and its expiry.
    pub fn issue_session(&mut self, pepper: &[u8], user_id: &str, now: u64) -> (r: (String, u64))
        requires
            old(self).wf(),
            now + SESSION_TTL_SECS <= u64::MAX,
        ensures
            final(self).wf(),
            final(self).health() == old(self).health(),
            r.1 == now + SESSION_TTL_SECS,
            only_sessions_changed(old(self).state(), final(self).state()),
            ({
                let k = session_key_spec(pepper@, vstd::utf8::encode_utf8(r.0@));
                let m = final(self).state().sessions.view();
                &&& m.dom().contains(k)
                &&& m[k].user_id@ == user_id@
                &&& m[k].created_at == now
                &&& m[k].expires_at == r.1
                &&& m.remove(k) == live_sessions(old(self).state().sessions.view(), now).remove(k)
            }),
    {
        let token = random_token();
        let key = session_key(pepper, token.as_str());
        let expires_at = now + SESSION_TTL_SECS;
        let st = self.state_mut();
        let keep = session_keep_live(&st.sessions, now);
        let ghost before = st.sessions.view();
        st.sessions.keep_rows(&keep);
        proof {
            let live = live_sessions(before, now);
            assert forall|k: Seq<char>| #[trigger] st.sessions.view().dom().contains(k) == live.dom().contains(k) by {
                if before.dom().contains(k) {
                    let t = old(self).state().sessions;
                    t.lemma_row(t.row_of(k));
                }
            }
            assert(st.sessions.view() =~= live);
        }
        let ghost mid = st.sessions.view();
        let session = Session { user_id: string_from(user_id), created_at: now, expires_at };
        st.sessions.insert(key, session);
        proof {
            assert(st.sessions.view().remove(key@) =~= mid.remove(key@));
        }
        (token, expires_at)
    }

    /// Ends every session of `user_id` (after a password change or reset).
    pub fn revoke_all_sessions(&mut self, user_id: &str) -> (r: Result<(), String>)
        requires
            old(self).wf(),
        ensures
            final(self).wf(),
            final(self).health() == old(self).health(),
            r is Ok,
            only_sessions_changed(old(self).state(), final(self).state()),
            final(self).state().sessions.view() == sessions_not_of(old(self).state().sessions.view(), user_id@),
    {
        let st = self.state_mut();
        let mut keep: Vec<bool> = Vec::new();
        let mut i: usize = 0;
        while i < st.sessions.len()
            invariant
                st.sessions.wf(),
                i <= st.sessions.rows().len(),
                keep@.len() == i,
                forall|j: int| 0 <= j < i ==> keep@[j] == (st.sessions.value_at(j).user_id@ != user_id@),
            decreases st.sessions.rows().len() - i,
        {
            let other = !str_eq(st.sessions.value(i).user_id.as_str(), user_id);
            keep.push(other);
            i = i + 1;
        }
        let ghost before = st.sessions;
        st.sessions.keep_rows(&keep);
        proof {
            let want = sessions_not_of(before.view(), user_id@);
            assert forall|k: Seq<char>| #[trigger] st.sessions.view().dom().contains(k) == want.dom().contains(k) by {
                if before.view().dom().contains(k) {
                    before.lemma_row(before.row_of(k));
                }
            }
            assert(st.sessions.view() =~= want);
        }
        Ok(())
    }

    /// Ends the one session stored under `key` (a log-out); other sessions stay.
    pub fn remove_session(&mut self, key: &str) -> (r: Result<(), String>)
        requires
            old(self).wf(),
        ensures
            final(self).wf(),
            final(self).health() == old(self).health(),
            r is Ok,
            only_sessions_changed(old(self).state(), final(self).state()),
            final(self).state().sessions.view() == old(self).state().sessions.view().remove(key@),
    {
        let st = self.state_mut();
        let _ = st.sessions.remove(key);
        Ok(())
    }

    /// The user id behind a session key, if the session exists and is still valid at `now`.
    pub fn session_user(&self, key: &str, now: u64) -> (r: Option<String>)
        requires
            self.wf(),
        ensures
            match r {
                Some(u) => self.state().sessions.view().dom().contains(key@)
                    && self.state().sessions.view()[key@].expires_at > now
                    && u@ == self.state().sessions.view()[key@].user_id@,
                None => !(self.state().sessions.view().dom().contains(key@)
                    && self.state().sessions.view()[key@].expires_at > now),
            },
    {
        match self.snapshot().sessions.get(key) {
            Some(s) => if s.expires_at > now {
                Some(s.user_id.clone())
            } else {
                None
            },
            None => None,
        }
    }

    /// Stores a pending verification under `key`, dropping the ones expired at `now`.
    pub fn put_pending(&mut self, key: String, pending: PendingVerification, now: u64) -> (r: Result<(), String>)
        requires
            old(self).wf(),
        ensures
            final(self).wf(),
            final(self).health() == old(self).health(),
            r is Ok,
            only_pending_changed(old(self).state(), final(self).state()),
            final(self).state().pending.view() == live_pending(old(self).state().pending.view(), now).insert(
                key@,
                pending,
            ),
    {
        let st = self.state_mut();
        let keep = pending_keep_live(&st.pending, now);
        let ghost before = st.pending;
        st.pending.keep_rows(&keep);
        proof {
            let live = live_pending(before.view(), now);
            assert forall|k: Seq<char>| #[trigger] st.pending.view().dom().contains(k) == live.dom().contains(k) by {
                if before.view().dom().contains(k) {
                    before.lemma_row(before.row_of(k));
                }
            }
            assert(st.pending.view() =~= live);
        }
        st.pending.insert(key, pending);
        Ok(())
    }

    /// The pending verification stored under `key`, if any.
    pub fn pending(&self, key: &str) -> (r: Option<&PendingVerification>)
        requires
            self.wf(),
        ensures
            match r {
                Some(p) => self.state().pending.view().dom().contains(key@) && *p == self.state().pending.view()[key@],
                None => !self.state().pending.view().dom().contains(key@),
            },
    {
        self.snapshot().pending.get(key)
    }

    /// Counts one wrong code against the pending verification under `key`, if it still exists.
    pub fn note_failed_attempt(&mut self, key: &str) -> (r: Result<(), String>)
        requires
            old(self).wf(),
            old(self).state().pending.view().dom().contains(key@) ==> old(self).state().pending.view()[key@].attempts
                < u32::MAX,
        ensures
            final(self).wf(),
            final(self).health() == old(self).health(),
            r is Ok,
            only_pending_changed(old(self).state(), final(self).state()),
            old(self).state().pending.view().dom().contains(key@) ==> final(self).state().pending.view()
                == old(self).state().pending.view().insert(
                key@,
                PendingVerification {
                    attempts: (old(self).state().pending.view()[key@].attempts + 1) as u32,
                    ..old(self).state().pending.view()[key@]
                },
            ),
            !old(self).state().pending.view().dom().contains(key@) ==> final(self).state() == old(self).state(),
    {
        let st = self.state_mut();
        match st.pending.find(key) {
            Some(i) => {
                let mut p = st.pending.swap_value(i, blank_pending());
                p.attempts = p.attempts + 1;
                st.pending.set_value(i, p);
            },
            None => {},
        }
        Ok(())
    }

    /// Renews the pending verification under `key` after a resend: new expiry, no attempts,
    /// the new local code digest.
    pub fn renew_pending(&mut self, key: &str, expires_at: u64, local_code_hmac: Option<Vec<u8>>) -> (r: Result<(), String>)
        requires
            old(self).wf(),
        ensures
            final(self).wf(),
            final(self).health() == old(self).health(),
            r is Ok,
            only_pending_changed(old(self).state(), final(self).state()),
            old(self).state().pending.view().dom().contains(key@) ==> final(self).state().pending.view()
                == old(self).state().pending.view().insert(
                key@,
                PendingVerification {
                    expires_at,
                    attempts: 0,
                    local_code_hmac,
                    ..old(self).state().pending.view()[key@]
                },
            ),
            !old(self).state().pending.view().dom().contains(key@) ==> final(self).state() == old(self).state(),
    {
        let st = self.state_mut();
        match st.pending.find(key) {
            Some(i) => {
                let mut p = st.pending.swap_value(i, blank_pending());
                p.expires_at = expires_at;
                p.attempts = 0;
                p.local_code_hmac = local_code_hmac;
                st.pending.set_value(i, p);
            },
            None => {},
        }
        Ok(())
    }

    /// Removes the pending verification under `key` once its code has been used.
    pub fn remove_pending(&mut self, key: &str) -> (r: Result<(), String>)
        requires
            old(self).wf(),
        ensures
            final(self).wf(),
            final(self).health() == old(self).health(),
            r is Ok,
            only_pending_changed(old(self).state(), final(self).state()),
            final(self).state().pending.view() == old(self).state().pending.view().remove(key@),
    {
        let st = self.state_mut();
        let _ = st.pending.remove(key);
        Ok(())
    }

    /// The user registered with `phone`, if any.
    pub fn find_user_by_phone(&self, phone: &str) -> (r: Option<&User>)
        requires
            self.wf(),
        ensures
            r is None <==> !phone_taken(self.state(), phone@),
            r matches Some(u) ==> u.phone@ == phone@ && exists|k: Seq<char>|
                #[trigger] self.state().users.view().dom().contains(k) && self.state().users.view()[k] == *u,
    {
        let t = &self.snapshot().users;
        let mut i: usize = 0;
        while i < t.len()
            invariant
                t.wf(),
                *t == self.state().users,
                i <= t.rows().len(),
                forall|j: int| 0 <= j < i ==> t.value_at(j).phone@ != phone@,
            decreases t.rows().len() - i,
        {
            if str_eq(t.value(i).phone.as_str(), phone) {
                proof {
                    t.lemma_row(i as int);
                }
                return Some(t.value(i));
            }
            i = i + 1;
        }
        proof {
            if phone_taken(self.state(), phone@) {
                let k = choose|k: Seq<char>| #[trigger] t.view().dom().contains(k) && t.view()[k].phone@ == phone@;
                t.lemma_row(t.row_of(k));
            }
        }
        None
    }

    /// The user an account name refers to: by user name (compared by `normalize_username_key`)
    /// or by phone number (compared after `normalize_phone`), the first row that matches.
    pub fn find_user_by_account(&self, account: &str) -> (r: Option<&User>)
        requires
            self.wf(),
        ensures
            r is None <==> !(username_taken(self.state(), username_key_spec(account@)) || (
            crate::crypto::normalize_phone_spec(account@) matches Some(p) && phone_taken(self.state(), p))),
            r matches Some(u) ==> (u.username_key@ == username_key_spec(account@) || crate::crypto::normalize_phone_spec(
                account@,
            ) == Some(u.phone@)) && exists|k: Seq<char>|
                #[trigger] self.state().users.view().dom().contains(k) && self.state().users.view()[k] == *u,
    {
        let key = normalize_username_key(account);
        let phone = crate::crypto::normalize_phone(account);
        let t = &self.snapshot().users;
        let mut i: usize = 0;
        while i < t.len()
            invariant
                t.wf(),
                *t == self.state().users,
                key@ == username_key_spec(account@),
                match phone {
                    Some(p) => crate::crypto::normalize_phone_spec(account@) == Some(p@),
                    None => crate::crypto::normalize_phone_spec(account@) is None,
                },
                i <= t.rows().len(),
                forall|j: int|
                    0 <= j < i ==> t.value_at(j).username_key@ != key@ && !(phone matches Some(p) && t.value_at(
                        j,
                    ).phone@ == p@),
            decreases t.rows().len() - i,
        {
            let u = t.value(i);
            let by_phone = match &phone {
                Some(p) => str_eq(u.phone.as_str(), p.as_str()),
                None => false,
            };
            if str_eq(u.username_key.as_str(), key.as_str()) || by_phone {
                proof {
                    t.lemma_row(i as int);
                }
                return Some(u);
            }
            i = i + 1;
        }
        proof {
            if username_taken(self.state(), key@) {
                let k = choose|k: Seq<char>| #[trigger] t.view().dom().contains(k) && t.view()[k].username_key@ == key@;
                t.lemma_row(t.row_of(k));
            }
            if let Some(p) = crate::crypto::normalize_phone_spec(account@) {
                if phone_taken(self.state(), p) {
                    let k = choose|k: Seq<char>| #[trigger] t.view().dom().contains(k) && t.view()[k].phone@ == p;
                    t.lemma_row(t.row_of(k));
                }
            }
        }
        None
    }

    /// The user with id `user_id`, if any.
    pub fn user(&self, user_id: &str) -> (r: Option<&User>)
        requires
            self.wf(),
        ensures
            match r {
                Some(u) => self.state().users.view().dom().contains(user_id@) && *u == self.state().users.view()[user_id@],
                None => !self.state().users.view().dom().contains(user_id@),
            },
    {
        self.snapshot().users.get(user_id)
    }

    /// Completes a registration: refuses a taken user name (by uniqueness key) or a taken
    /// phone, otherwise stores the user and grants the welcome balance, the one place coins
    /// are minted for a new account.
    pub fn finish_registration(&mut self, user: User) -> (r: Result<(), String>)
        requires
            old(self).wf(),
        ensures
            final(self).wf(),
            final(self).health() == old(self).health(),
            username_taken(old(self).state(), user.username_key@) ==> r is Err && r->Err_0@
                == "这个用户名刚刚被别人注册了，换一个吧。"@ && final(self).state() == old(self).state(),
            !username_taken(old(self).state(), user.username_key@) && phone_taken(old(self).state(), user.phone@)
                ==> r is Err && r->Err_0@ == "这个手机号已经注册过了，直接登录或找回密码吧。"@ && final(self).state() == old(
                self,
            ).state(),
            !username_taken(old(self).state(), user.username_key@) && !phone_taken(old(self).state(), user.phone@)
                ==> r is Ok && final(self).state().users.view() == old(self).state().users.view().insert(user.id@, user)
                && accounts_of(final(self).state()) == accounts_of(old(self).state()).insert(
                account_key_spec(user.id@),
                welcome_account(),
            ) && final(self).state().sessions == old(self).state().sessions && final(self).state().pending == old(
                self,
            ).state().pending,
    {
        let t = &self.snapshot().users;
        let mut name_taken = false;
        let mut phone_used = false;
        let mut i: usize = 0;
        while i < t.len()
            invariant
                t.wf(),
                *t == self.state().users,
                i <= t.rows().len(),
                name_taken == (exists|j: int| 0 <= j < i && (#[trigger] t.value_at(j)).username_key@ == user.username_key@),
                phone_used == (exists|j: int| 0 <= j < i && (#[trigger] t.value_at(j)).phone@ == user.phone@),
            decreases t.rows().len() - i,
        {
            let u = t.value(i);
            if str_eq(u.username_key.as_str(), user.username_key.as_str()) {
                name_taken = true;
            }
            if str_eq(u.phone.as_str(), user.phone.as_str()) {
                phone_used = true;
            }
            i = i + 1;
        }
        proof {
            if name_taken {
                let j = choose|j: int| 0 <= j < t.rows().len() && (#[trigger] t.value_at(j)).username_key@ == user.username_key@;
                t.lemma_row(j);
                assert(t.view().dom().contains(t.key_at(j)));
            }
            if username_taken(self.state(), user.username_key@) {
                let k = choose|k: Seq<char>| #[trigger] t.view().dom().contains(k) && t.view()[k].username_key@ == user.username_key@;
                t.lemma_row(t.row_of(k));
            }
            if phone_used {
                let j = choose|j: int| 0 <= j < t.rows().len() && (#[trigger] t.value_at(j)).phone@ == user.phone@;
                t.lemma_row(j);
                assert(t.view().dom().contains(t.key_at(j)));
            }
            if phone_taken(self.state(), user.phone@) {
                let k = choose|k: Seq<char>| #[trigger] t.view().dom().contains(k) && t.view()[k].phone@ == user.phone@;
                t.lemma_row(t.row_of(k));
            }
        }
        if name_taken {
            return Err(string_from("这个用户名刚刚被别人注册了，换一个吧。"));
        }
        if phone_used {
            return Err(string_from("这个手机号已经注册过了，直接登录或找回密码吧。"));
        }
        let akey = account_key(user.id.as_str());
        let id = user.id.clone();
        let st = self.state_mut();
        let ghost before = *st;
        st.users.insert(id, user);
        let acc = Account { balance: WELCOME_BALANCE, activated: false, redeemed_keys: Vec::new() };
        let ghost accv = acc@;
        st.accounts.insert(akey, acc);
        proof {
            assert(accv.redeemed =~= Seq::<Seq<char>>::empty());
            assert(accounts_of(*st) =~= accounts_of(before).insert(account_key_spec(user.id@), welcome_account()));
            assert forall|k: Seq<char>| #[trigger] st.accounts.view().dom().contains(k) implies st.accounts.view()[k].balance
                >= 0 by {
                if k != account_key_spec(user.id@) {
                    assert(before.accounts.view().dom().contains(k));
                }
            }
        }
        Ok(())
    }

    /// Replaces the password hash, salt and iteration count of `user_id`.
    pub fn set_password(&mut self, user_id: &str, hash: Vec<u8>, salt: Vec<u8>, iterations: u32) -> (r: Result<(), String>)
        requires
            old(self).wf(),
        ensures
            final(self).wf(),
            final(self).health() == old(self).health(),
            !old(self).state().users.view().dom().contains(user_id@) ==> r is Err && r->Err_0@ == "用户不存在。"@
                && final(self).state() == old(self).state(),
            old(self).state().users.view().dom().contains(user_id@) ==> r is Ok && only_users_changed(
                old(self).state(),
                final(self).state(),
            ) && final(self).state().users.view() == old(self).state().users.view().insert(
                user_id@,
                User {
                    password_hash: hash,
                    password_salt: salt,
                    pbkdf2_iterations: iterations,
                    ..old(self).state().users.view()[user_id@]
                },
            ),
    {
        let st = self.state_mut();
        match st.users.find(user_id) {
            Some(i) => {
                let mut u = st.users.swap_value(i, blank_user());
                u.password_hash = hash;
                u.password_salt = salt;
                u.pbkdf2_iterations = iterations;
                st.users.set_value(i, u);
                Ok(())
            },
            None => Err(string_from("用户不存在。")),
        }
    }

    /// Records a successful log-in time for `user_id`, if the user exists.
    pub fn touch_login(&mut self, user_id: &str, now: u64) -> (r: Result<(), String>)
        requires
            old(self).wf(),
        ensures
            final(self).wf(),
            final(self).health() == old(self).health(),
            r is Ok,
            old(self).state().users.view().dom().contains(user_id@) ==> only_users_changed(
                old(self).state(),
                final(self).state(),
            ) && final(self).state().users.view() == old(self).state().users.view().insert(
                user_id@,
                User { last_login_at: now, ..old(self).state().users.view()[user_id@] },
            ),
            !old(self).state().users.view().dom().contains(user_id@) ==> final(self).state() == old(self).state(),
    {
        let st = self.state_mut();
        match st.users.find(user_id) {
            Some(i) => {
                let mut u = st.users.swap_value(i, blank_user());
                u.last_login_at = now;
                st.users.set_value(i, u);
            },
            None => {},
        }
        Ok(())
    }
}

// ---------------------------------------------------------------- replies and requests

/// What a client may see of a user: the name, the masked phone, the creation time.
pub struct UserView {
    pub username: String,
    pub phone_masked: String,
    pub created_at: u64,
}

impl UserView {
    /// The client-facing view of `u` (the phone is masked as `mask_phone` does).
    pub fn of(u: &User) -> (v: UserView)
        requires
            encode_len_11(u.phone@) ==> vstd::utf8::is_char_boundary(vstd::utf8::encode_utf8(u.phone@), 3)
                && vstd::utf8::is_char_boundary(vstd::utf8::encode_utf8(u.phone@), 7),
        ensures
            v.username@ == u.username@,
            v.created_at == u.created_at,
            encode_len_11(u.phone@) ==> vstd::utf8::encode_utf8(v.phone_masked@) == vstd::utf8::encode_utf8(
                u.phone@,
            ).subrange(0, 3) + seq![42u8, 42u8, 42u8, 42u8] + vstd::utf8::encode_utf8(u.phone@).subrange(7, 11),
            !encode_len_11(u.phone@) ==> v.phone_masked@ == seq!['*', '*', '*'],
    {
        UserView {
            username: u.username.clone(),
            phone_masked: crate::crypto::mask_phone(u.phone.as_str()),
            created_at: u.created_at,
        }
    }
}

/// The UTF-8 form of `s` is eleven bytes long.
pub open spec fn encode_len_11(s: Seq<char>) -> bool {
    vstd::utf8::encode_utf8(s).len() == 11
}

/// The reply to a successful log-in or registration.
pub struct SessionView {
    pub ok: bool,
    pub token: String,
    pub expires_at: u64,
    pub user: UserView,
    pub balance: i64,
    pub activated: bool,
}

/// The reply after a code was (or, for unknown numbers, seemed to be) sent.
pub struct CodeSentView {
    pub ok: bool,
    pub phone_masked: String,
    pub expires_in_secs: u32,
    /// Set when codes are only written to the log.
    pub log_mode: bool,
}

/// A bare acknowledgement.
pub struct OkView {
    pub ok: bool,
}

/// The reply to `me`: the user, the balance and the activation flag.
pub struct MeView {
    pub ok: bool,
    pub user: UserView,
    pub balance: i64,
    pub activated: bool,
}

/// Sign-up, first step.
pub struct RegisterBeginReq {
    pub username: String,
    pub password: String,
    pub phone: String,
}

/// A request naming only a phone number.
pub struct PhoneOnlyReq {
    pub phone: String,
}

/// Sign-up, second step.
pub struct RegisterVerifyReq {
    pub phone: String,
    pub code: String,
}

/// Log-in by user name or phone number.
pub struct LoginReq {
    pub account: String,
    pub password: String,
}

/// Password reset, second step.
pub struct ResetConfirmReq {
    pub phone: String,
    pub code: String,
    pub new_password: String,
}

/// Password change while logged in.
pub struct ChangePasswordReq {
    pub old_password: String,
    pub new_password: String,
}

/// A user with every field empty or zero, left in a table row while its value is edited.
fn blank_user() -> (u: User)
    ensures
        u.id@.len() == 0,
        u.username@.len() == 0,
        u.username_key@.len() == 0,
        u.phone@.len() == 0,
        u.password_hash@.len() == 0,
        u.password_salt@.len() == 0,
        u.pbkdf2_iterations == 0,
        u.created_at == 0,
        u.last_login_at == 0,
{
    User {
        id: String::new(),
        username: String::new(),
        username_key: String::new(),
        phone: String::new(),
        password_hash: Vec::new(),
        password_salt: Vec::new(),
        pbkdf2_iterations: 0,
        created_at: 0,
        last_login_at: 0,
    }
}

/// A pending verification with every field empty, zero or absent, left in a table row while
/// its value is edited.
fn blank_pending() -> (p: PendingVerification)
    ensures
        p.kind@.len() == 0,
        p.phone@.len() == 0,
        p.created_at == 0,
        p.expires_at == 0,
        p.attempts == 0,
        p.username is None,
        p.username_key is None,
        p.password_hash is None,
        p.password_salt is None,
        p.pbkdf2_iterations is None,
        p.local_code_hmac is None,
{
    PendingVerification {
        kind: String::new(),
        phone: String::new(),
        created_at: 0,
        expires_at: 0,
        attempts: 0,
        username: None,
        username_key: None,
        password_hash: None,
        password_salt: None,
        pbkdf2_iterations: None,
        local_code_hmac: None,
    }
}

} // verus!
