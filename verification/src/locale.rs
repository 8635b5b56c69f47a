//! Language of a player: the index of a language name in the table of the
//! sixteen client languages, and the decision of a `CG_LOCALE_REQUEST`.

use vstd::prelude::*;
use vstd::string::StringSliceAdditionalSpecFns;
use crate::login::{extract_lang, lang_tag};
use crate::text::{ascii_lower_byte, eq_ignore_ascii_case_bytes};

verus! {

/// Header of `CG_LOCALE_REQUEST` (header and a three-byte language field).
pub const CG_LOCALE_REQUEST: u8 = 132;
/// Index of the default language (ES).
pub const DEFAULT_LANG_INDEX: u8 = 5;

/// The two letters of language `i`: AE CZ DE DK EN ES FR GR HU IT NL PL PT
/// RO RU TR.
pub open spec fn lang_name(i: int) -> Seq<u8> {
    if i == 0 {
        seq![65u8, 69u8]
    } else if i == 1 {
        seq![67u8, 90u8]
    } else if i == 2 {
        seq![68u8, 69u8]
    } else if i == 3 {
        seq![68u8, 75u8]
    } else if i == 4 {
        seq![69u8, 78u8]
    } else if i == 5 {
        seq![69u8, 83u8]
    } else if i == 6 {
        seq![70u8, 82u8]
    } else if i == 7 {
        seq![71u8, 82u8]
    } else if i == 8 {
        seq![72u8, 85u8]
    } else if i == 9 {
        seq![73u8, 84u8]
    } else if i == 10 {
        seq![78u8, 76u8]
    } else if i == 11 {
        seq![80u8, 76u8]
    } else if i == 12 {
        seq![80u8, 84u8]
    } else if i == 13 {
        seq![82u8, 79u8]
    } else if i == 14 {
        seq![82u8, 85u8]
    } else {
        seq![84u8, 82u8]
    }
}

/// The index of the language named `lang` (ignoring ASCII case); unknown
/// names give ES.
pub open spec fn lang_index_spec(lang: Seq<u8>) -> u8 {
    if exists|i: int| 0 <= i < 16 && eq_ignore_ascii_case_bytes(lang_name(i), lang) {
        (choose|i: int| 0 <= i < 16 && eq_ignore_ascii_case_bytes(lang_name(i), lang)) as u8
    } else {
        DEFAULT_LANG_INDEX
    }
}

/// No two language names are equal ignoring case.
proof fn lemma_lang_names_distinct(i: int, j: int, lang: Seq<u8>)
    requires
        0 <= i < 16,
        0 <= j < 16,
        eq_ignore_ascii_case_bytes(lang_name(i), lang),
        eq_ignore_ascii_case_bytes(lang_name(j), lang),
    ensures
        i == j,
{
    assert(ascii_lower_byte(lang_name(i)[0]) == ascii_lower_byte(lang[0]));
    assert(ascii_lower_byte(lang_name(i)[1]) == ascii_lower_byte(lang[1]));
    assert(ascii_lower_byte(lang_name(j)[0]) == ascii_lower_byte(lang[0]));
    assert(ascii_lower_byte(lang_name(j)[1]) == ascii_lower_byte(lang[1]));
}

/// Index of a language name; unknown names give ES (5).
pub fn lang_index(lang: &str) -> (r: u8)
    ensures
        r == lang_index_spec(lang.spec_bytes()),
        r < 16,
{
    let names: [[u8; 2]; 16] = [
        [65u8, 69u8],
        [67u8, 90u8],
        [68u8, 69u8],
        [68u8, 75u8],
        [69u8, 78u8],
        [69u8, 83u8],
        [70u8, 82u8],
        [71u8, 82u8],
        [72u8, 85u8],
        [73u8, 84u8],
        [78u8, 76u8],
        [80u8, 76u8],
        [80u8, 84u8],
        [82u8, 79u8],
        [82u8, 85u8],
        [84u8, 82u8],
    ];
    let lb = lang.as_bytes();
    let ghost lg = lang.spec_bytes();
    let mut i: usize = 0;
    while i < 16
        invariant
            lb@ == lg,
            lg == lang.spec_bytes(),
            i <= 16,
            forall|k: int| 0 <= k < 16 ==> #[trigger] names@[k]@ == lang_name(k),
            forall|k: int| 0 <= k < i ==> !eq_ignore_ascii_case_bytes(#[trigger] lang_name(k), lg),
        decreases 16 - i,
    {
        let n = names[i];
        assert(n@ == lang_name(i as int));
        if lb.len() == 2 {
            let a = if n[0] >= 65 && n[0] <= 90 { n[0] + 32 } else { n[0] };
            let b = if lb[0] >= 65 && lb[0] <= 90 { lb[0] + 32 } else { lb[0] };
            let c = if n[1] >= 65 && n[1] <= 90 { n[1] + 32 } else { n[1] };
            let d = if lb[1] >= 65 && lb[1] <= 90 { lb[1] + 32 } else { lb[1] };
            if a == b && c == d {
                proof {
                    assert(eq_ignore_ascii_case_bytes(lang_name(i as int), lg));
                    assert(exists|k: int| 0 <= k < 16 && eq_ignore_ascii_case_bytes(lang_name(k), lg));
                    let w = choose|w: int| 0 <= w < 16 && eq_ignore_ascii_case_bytes(lang_name(w), lg);
                    lemma_lang_names_distinct(i as int, w, lg);
                    assert(lang_index_spec(lg) == w as u8);
                }
                return i as u8;
            }
        }
        assert(!eq_ignore_ascii_case_bytes(lang_name(i as int), lg));
        i = i + 1;
    }
    DEFAULT_LANG_INDEX
}

/// The language a `CG_LOCALE_REQUEST` asks for: `None` when the packet is
/// short or its field is not two letters and a NUL.
pub fn locale_request_lang(pkt: &[u8]) -> (r: Option<String>)
    ensures
        pkt@.len() < 4 ==> r is None,
        pkt@.len() >= 4 ==> match lang_tag(pkt@.subrange(1, 4)) {
            Some(t) => r matches Some(s) && s@ == t,
            None => r is None,
        },
{
    if pkt.len() < 4 {
        return None;
    }
    let field: [u8; 3] = [pkt[1], pkt[2], pkt[3]];
    assert(field@ =~= pkt@.subrange(1, 4));
    extract_lang(&field)
}

/// Whether a `CG_LOCALE_REQUEST` is answered with `GC_LOCALE`: the locale
/// is served by the auth and during the channel's login and loading, never
/// once a channel connection is in the game.
pub fn answers_locale_request(phase: crate::entry::ChannelPhase, auth_role: bool) -> (r: bool)
    ensures
        r == (auth_role || phase != crate::entry::ChannelPhase::Game),
{
    auth_role || !matches!(phase, crate::entry::ChannelPhase::Game)
}

} // verus!
