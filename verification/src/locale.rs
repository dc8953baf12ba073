//! The interface language: Chinese or English.
use vstd::prelude::*;

use crate::text;

verus! {

/// The locale a UTC offset suggests: only UTC+8 defaults to Chinese.
pub fn locale_for_utc_offset(offset_seconds: i32) -> (res: &'static str)
    ensures
        res@ == (if offset_seconds == 8 * 60 * 60 {
            "zh-CN"@
        } else {
            "en"@
        }),
{
    if offset_seconds == 8 * 60 * 60 {
        "zh-CN"
    } else {
        "en"
    }
}

/// The current interface language.
#[derive(Debug, Clone, Copy)]
pub struct LocaleSetting {
    pub chinese: bool,
}

/// The language at start-up: Chinese exactly when the local clock runs at
/// UTC+8 (`offset_seconds` east of UTC).
pub fn init_from_timezone(offset_seconds: i32) -> (res: LocaleSetting)
    ensures
        res.chinese == (offset_seconds == 8 * 60 * 60),
{
    let locale = locale_for_utc_offset(offset_seconds);
    proof {
        reveal_strlit("zh-CN");
        reveal_strlit("en");
        assert("zh-CN"@.len() != "en"@.len());
    }
    LocaleSetting { chinese: text::str_eq(locale, "zh-CN") }
}

/// Switches the language; only `en` and `zh-CN` are supported.
pub fn set(setting: &mut LocaleSetting, locale: &str) -> (res: Result<(), String>)
    ensures
        locale@ == "en"@ ==> res.is_ok() && !final(setting).chinese,
        locale@ == "zh-CN"@ ==> res.is_ok() && final(setting).chinese,
        locale@ != "en"@ && locale@ != "zh-CN"@ ==> {
            &&& res matches Err(e) && e@ == "Unsupported locale"@
            &&& *final(setting) == *old(setting)
        },
{
    let v = text::chars_of(locale);
    proof {
        reveal_strlit("en");
        reveal_strlit("zh-CN");
        assert("zh-CN"@.len() == 5);
        assert("en"@.len() == 2);
        assert("zh-CN"@ != "en"@);
    }
    if text::eq_str(&v, "en") {
        setting.chinese = false;
        Ok(())
    } else if text::eq_str(&v, "zh-CN") {
        setting.chinese = true;
        Ok(())
    } else {
        Err(text::string_from("Unsupported locale"))
    }
}

/// The text in the current language.
pub fn text(setting: &LocaleSetting, english: &str, chinese: &str) -> (res: String)
    ensures
        res@ == (if setting.chinese {
            chinese@
        } else {
            english@
        }),
{
    if is_chinese(setting) {
        text::string_from(chinese)
    } else {
        text::string_from(english)
    }
}

pub fn is_chinese(setting: &LocaleSetting) -> (res: bool)
    ensures
        res == setting.chinese,
{
    setting.chinese
}

} // verus!
