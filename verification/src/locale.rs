//! The language of the menu.

use vstd::prelude::*;
use vstd::string::StrSliceExecFns;
use vstd::utf8::is_ascii_chars;

verus! {

/// The lower case of a text, by the rules of Unicode.
pub uninterp spec fn lowercase(text: Seq<char>) -> Seq<char>;

/// The lower case of an ASCII character.
pub open spec fn ascii_lower(c: char) -> char {
    if 'A' <= c <= 'Z' {
        (c as u32 + 32) as char
    } else {
        c
    }
}

/// `str::to_lowercase` of the standard library: what comes out depends on the text alone, and of
/// an ASCII text each capital letter is replaced by its small one. Of other texts nothing more
/// is claimed.
pub assume_specification[ str::to_lowercase ](text: &str) -> (lower: String)
    ensures
        lower@ == lowercase(text@),
        is_ascii_chars(text@) ==> lower@ == text@.map_values(|c: char| ascii_lower(c)),
;

/// `sys_locale::get_locale`: the language tag that the system prefers, if it tells one. It rests
/// on the environment of the process, so nothing is claimed of it.
#[verifier::external_body]
fn system_locale() -> (tag: Option<String>) {
    sys_locale::get_locale()
}

/// The contents of a language tag that may be missing.
pub open spec fn tag_view(tag: Option<String>) -> Option<Seq<char>> {
    match tag {
        Some(text) => Some(text@),
        None => None,
    }
}

/// The language tag of a system: what it tells, or American English.
pub open spec fn tag_or_default(tag: Option<Seq<char>>) -> Seq<char> {
    match tag {
        Some(text) => text,
        None => "en-US"@,
    }
}

/// Whether a language tag names Chinese: in lower case it begins with `zh`.
pub open spec fn names_chinese(tag: Seq<char>) -> bool {
    let lower = lowercase(tag);
    lower.len() >= 2 && lower[0] == 'z' && lower[1] == 'h'
}

/// Chinese is told by the beginning of a tag in lower case and by nothing else: a tag names it if
/// and only if its lower case is `zh` and any text behind that.
pub proof fn law_chinese_is_told_by_the_beginning(tag: Seq<char>)
    ensures
        names_chinese(tag) <==> exists|rest: Seq<char>| lowercase(tag) == #[trigger] ("zh"@ + rest),
        names_chinese(tag) <==> "zh"@.is_prefix_of(lowercase(tag)),
{
    reveal_strlit("zh");
    let lower = lowercase(tag);
    if names_chinese(tag) {
        assert(lower =~= "zh"@ + lower.skip(2));
    }
    if "zh"@.is_prefix_of(lower) {
        assert(lower.subrange(0, 2)[0] == lower[0] && lower.subrange(0, 2)[1] == lower[1]);
    }
}

/// Whether a text begins with the letters `zh`, small or capital.
pub open spec fn begins_with_zh(text: Seq<char>) -> bool {
    text.len() >= 2 && (text[0] == 'z' || text[0] == 'Z') && (text[1] == 'h' || text[1] == 'H')
}

/// Decides whether the menu of a system with the given language tag is in Chinese. It is not
/// where the system tells no tag; by a tag in ASCII it is where the tag begins with the letters
/// `zh`, small or capital.
pub fn is_zh_tag(tag: Option<String>) -> (zh: bool)
    ensures
        zh == names_chinese(tag_or_default(tag_view(tag))),
        tag is None ==> !zh,
        tag matches Some(text) ==> zh == "zh"@.is_prefix_of(lowercase(text@)),
        tag matches Some(text) ==> is_ascii_chars(text@) ==> zh == begins_with_zh(text@),
        tag matches Some(text) ==> is_ascii_chars(text@) ==> zh == (text@.len() >= 2 && (text@[0]
            == 'z' || text@[0] == 'Z') && (text@[1] == 'h' || text@[1] == 'H')),
{
    proof {
        reveal_strlit("en-US");
        law_chinese_is_told_by_the_beginning(tag_or_default(tag_view(tag)));
    }
    let text = match tag {
        Some(text) => text,
        None => "en-US".to_owned(),
    };
    let lower = text.as_str().to_lowercase();
    let lower = lower.as_str();
    lower.unicode_len() >= 2 && lower.get_char(0) == 'z' && lower.get_char(1) == 'h'
}

/// Whether a call that asked the system for its language tag was told this one, or none.
pub closed spec fn told_by_system(tag: Option<String>) -> bool {
    call_ensures(system_locale, (), tag)
}

/// A tag was told by the system if and only if a call that asked for it can have returned it.
proof fn lemma_told_by_system(tag: Option<String>)
    ensures
        told_by_system(tag) <==> call_ensures(system_locale, (), tag),
{
}

/// Decides whether the menu is in Chinese: by the language tag that the system tells at the call.
pub fn is_zh() -> (zh: bool)
    ensures
        exists|tag: Option<String>| #[trigger]
            told_by_system(tag) && zh == names_chinese(tag_or_default(tag_view(tag))) && match tag {
                Some(text) => zh == "zh"@.is_prefix_of(lowercase(text@)),
                None => !zh,
            },
{
    let tag = system_locale();
    let ghost told = tag;
    let zh = is_zh_tag(tag);
    proof {
        lemma_told_by_system(told);
    }
    zh
}

/// Picks the text for the language of the menu.
pub fn lang_text<'a>(is_zh: bool, zh: &'a str, en: &'a str) -> (text: &'a str)
    ensures
        text == (if is_zh {
            zh
        } else {
            en
        }),
{
    if is_zh {
        zh
    } else {
        en
    }
}

} // verus!
