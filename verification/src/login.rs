//! Login rules shared by the auth and channel roles: login-string
//! validation and normalisation, the language tag of the auth `LOGIN3`.

use vstd::prelude::*;
use vstd::utf8::*;
use vstd::string::StringSliceAdditionalSpecFns;
use crate::text::{
    ascii_chars, ascii_lower, ascii_lower_byte, cstr_bytes, first_nul, is_ascii_alnum_byte,
    is_ascii_alpha_byte, str_from_utf8, str_to_ascii_lowercase, string_from_ascii, trim_string,
    trim_seq,
};

verus! {

/// A login is valid when it has at least two bytes, all ASCII letters or digits.
pub open spec fn valid_login_spec(b: Seq<u8>) -> bool {
    &&& b.len() >= 2
    &&& forall|i: int| 0 <= i < b.len() ==> is_ascii_alnum_byte(#[trigger] b[i])
}

/// Login-string check of the auth: at least two characters, only ASCII
/// letters and digits.
pub fn is_valid_login_string(login: &str) -> (ok: bool)
    ensures
        ok == valid_login_spec(login.spec_bytes()),
{
    let b = login.as_bytes();
    if b.len() < 2 {
        return false;
    }
    let mut i: usize = 0;
    while i < b.len()
        invariant
            b@ == login.spec_bytes(),
            i <= b@.len(),
            forall|k: int| 0 <= k < i ==> is_ascii_alnum_byte(#[trigger] b@[k]),
        decreases b@.len() - i,
    {
        let c = b[i];
        if !((c >= 65 && c <= 90) || (c >= 97 && c <= 122) || (c >= 48 && c <= 57)) {
            return false;
        }
        i = i + 1;
    }
    true
}

/// What `normalize_login` yields: the C-string of the field, decoded as
/// UTF-8 (empty when it is not valid UTF-8), trimmed and ASCII-lowercased.
pub open spec fn normalized_login(raw: Seq<u8>) -> Seq<char> {
    let p = cstr_bytes(raw);
    if valid_utf8(p) {
        trim_seq(decode_utf8(p)).map_values(|c: char| ascii_lower(c))
    } else {
        Seq::empty()
    }
}

/// The login field of `LOGIN3` turned into the account name: C-string,
/// trimmed, lowercased.
pub fn normalize_login(raw: &[u8; 31]) -> (s: String)
    ensures
        s@ == normalized_login(raw@),
{
    let bytes = raw.as_slice();
    let end = first_nul(bytes);
    let prefix = vstd::slice::slice_subrange(bytes, 0, end);
    assert(prefix@ == cstr_bytes(raw@));
    match str_from_utf8(prefix) {
        Some(st) => {
            let t = trim_string(st);
            str_to_ascii_lowercase(t.as_str())
        },
        None => String::new(),
    }
}

/// The language tag of the auth `LOGIN3`: two ASCII letters and a NUL,
/// lowercased.
pub open spec fn lang_tag(sz: Seq<u8>) -> Option<Seq<char>> {
    if sz.len() == 3 && is_ascii_alpha_byte(sz[0]) && is_ascii_alpha_byte(sz[1]) && sz[2] == 0 {
        Some(seq![ascii_lower_byte(sz[0]) as char, ascii_lower_byte(sz[1]) as char])
    } else {
        None
    }
}

/// `szLanguage[3]` of the auth `LOGIN3`: `Some` of the two lowercase letters
/// when it is two ASCII letters followed by NUL, `None` otherwise.
pub fn extract_lang(sz_language: &[u8; 3]) -> (r: Option<String>)
    ensures
        match r {
            Some(s) => lang_tag(sz_language@) == Some(s@),
            None => lang_tag(sz_language@) is None,
        },
{
    let a0 = sz_language[0];
    let a1 = sz_language[1];
    let alpha0 = (a0 >= 65 && a0 <= 90) || (a0 >= 97 && a0 <= 122);
    let alpha1 = (a1 >= 65 && a1 <= 90) || (a1 >= 97 && a1 <= 122);
    if alpha0 && alpha1 && sz_language[2] == 0 {
        let l0 = if a0 <= 90 { a0 + 32 } else { a0 };
        let l1 = if a1 <= 90 { a1 + 32 } else { a1 };
        let mut v: Vec<u8> = Vec::new();
        v.push(l0);
        v.push(l1);
        let s = string_from_ascii(v);
        assert(s@ =~= seq![ascii_lower_byte(a0) as char, ascii_lower_byte(a1) as char]);
        Some(s)
    } else {
        None
    }
}

/// What the account store answered for the credentials of a channel login.
#[derive(Debug, Clone)]
pub enum AccountLookup {
    /// The account exists and the password matches; its status text.
    Found(String),
    /// No account with these credentials.
    NotFound,
    /// The store could not answer.
    StoreDown,
}

/// Why a channel login is refused after the credentials are checked.
#[derive(Debug, Clone)]
pub enum ChannelLoginRefusal {
    /// Unknown account or wrong password.
    NoId,
    /// The store is down.
    NotAvailable,
    /// The account's own status is not `OK` (blocked and the like).
    Status(String),
}

impl ChannelLoginRefusal {
    /// The status text of the `GC_LOGIN_FAILURE` that answers it.
    pub fn status(&self) -> (s: &str)
        ensures
            s@ == match *self {
                ChannelLoginRefusal::NoId => "NOID"@,
                ChannelLoginRefusal::NotAvailable => "NOTAVAIL"@,
                ChannelLoginRefusal::Status(st) => st@,
            },
    {
        match self {
            ChannelLoginRefusal::NoId => "NOID",
            ChannelLoginRefusal::NotAvailable => "NOTAVAIL",
            ChannelLoginRefusal::Status(s) => s.as_str(),
        }
    }
}

/// The credentials step of a channel login: an account whose status is
/// `OK` is admitted; any other status is sent back as the failure; an
/// unknown account is `NOID` and an unavailable store `NOTAVAIL`.
pub fn check_account(l: AccountLookup) -> (r: Result<(), ChannelLoginRefusal>)
    ensures
        match l {
            AccountLookup::Found(st) => if st@ == seq!['O', 'K'] {
                r is Ok
            } else {
                r matches Err(ChannelLoginRefusal::Status(s)) && s@ == st@
            },
            AccountLookup::NotFound => r matches Err(ChannelLoginRefusal::NoId),
            AccountLookup::StoreDown => r matches Err(ChannelLoginRefusal::NotAvailable),
        },
{
    match l {
        AccountLookup::Found(st) => {
            let ok = "OK".to_owned();
            proof {
                reveal_strlit("OK");
                assert(ok@ =~= seq!['O', 'K']);
            }
            if st == ok {
                Ok(())
            } else {
                Err(ChannelLoginRefusal::Status(st))
            }
        },
        AccountLookup::NotFound => Err(ChannelLoginRefusal::NoId),
        AccountLookup::StoreDown => Err(ChannelLoginRefusal::NotAvailable),
    }
}

} // verus!
