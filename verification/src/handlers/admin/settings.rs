//! Admin site settings.

use vstd::prelude::*;
use crate::domain::{posts_per_page_setting, setting_value, text_setting, SiteSettings};
use crate::text::{
    all_digits, digit_char, digits_value, i64_to_string, int_decimal, nat_decimal, parse_u32,
    parse_u32_spec, trim, trimmed,
};

verus! {

broadcast use vstd::string::group_string_axioms;

/// The settings form.
#[derive(Debug, Clone)]
pub struct SettingsForm {
    pub site_name: String,
    pub site_subtitle: String,
    pub site_description: String,
    pub footer_copyright: String,
    pub about_content: String,
    pub posts_per_page: String,
    pub seo_title_template: String,
    pub csrf_token: String,
}

/// Posts per page as saved: the trimmed field as a `u32`, 10 when it does not parse,
/// clamped to `1..=100`.
pub open spec fn saved_posts_per_page(raw: Seq<char>) -> u32 {
    let n = match parse_u32_spec(trim(raw)) {
        Some(n) => n,
        None => 10,
    };
    if n < 1 {
        1
    } else if n > 100 {
        100
    } else {
        n
    }
}

/// Posts per page as saved.
pub fn posts_per_page_value(raw: &str) -> (r: u32)
    ensures
        r == saved_posts_per_page(raw@),
        1 <= r <= 100,
{
    let n = match parse_u32(trimmed(raw)) {
        Some(n) => n,
        None => 10,
    };
    if n < 1 {
        1
    } else if n > 100 {
        100
    } else {
        n
    }
}

/// The rows saved for a submitted settings form: text fields trimmed (the about page as
/// typed), posts per page as a decimal number.
pub open spec fn settings_rows(form: SettingsForm) -> Seq<(Seq<char>, Seq<char>)> {
    seq![
        ("site_name"@, trim(form.site_name@)),
        ("site_subtitle"@, trim(form.site_subtitle@)),
        ("site_description"@, trim(form.site_description@)),
        ("footer_copyright"@, trim(form.footer_copyright@)),
        ("about_content"@, form.about_content@),
        ("posts_per_page"@, int_decimal(saved_posts_per_page(form.posts_per_page@) as int)),
        ("seo_title_template"@, trim(form.seo_title_template@)),
    ]
}

/// The `(key, value)` rows that saving the settings form writes, in order.
pub fn settings_pairs(form: &SettingsForm) -> (r: Vec<(String, String)>)
    ensures
        r@.map_values(|p: (String, String)| (p.0@, p.1@)) == settings_rows(*form),
{
    let per_page = posts_per_page_value(form.posts_per_page.as_str());
    let mut rows: Vec<(String, String)> = Vec::new();
    rows.push((String::from_str("site_name"), String::from_str(trimmed(form.site_name.as_str()))));
    rows.push(
        (String::from_str("site_subtitle"), String::from_str(trimmed(form.site_subtitle.as_str()))),
    );
    rows.push(
        (
            String::from_str("site_description"),
            String::from_str(trimmed(form.site_description.as_str())),
        ),
    );
    rows.push(
        (
            String::from_str("footer_copyright"),
            String::from_str(trimmed(form.footer_copyright.as_str())),
        ),
    );
    rows.push((String::from_str("about_content"), form.about_content.clone()));
    rows.push((String::from_str("posts_per_page"), i64_to_string(per_page as i64)));
    rows.push(
        (
            String::from_str("seo_title_template"),
            String::from_str(trimmed(form.seo_title_template.as_str())),
        ),
    );
    assert(rows@.map_values(|p: (String, String)| (p.0@, p.1@)) =~= settings_rows(*form));
    rows
}

proof fn lemma_decimal_digits(n: nat)
    ensures
        nat_decimal(n).len() > 0,
        all_digits(nat_decimal(n)),
        digits_value(nat_decimal(n)) == n,
    decreases n,
{
    let d = digit_char(n % 10);
    assert(d as nat == '0' as nat + n % 10);
    let s = nat_decimal(n);
    assert((s.last() as nat - '0' as nat) as nat == n % 10) by {
        assert(s.last() == d);
    }
    assert(digits_value(s) == digits_value(s.drop_last()) * 10 + n % 10);
    if n >= 10 {
        lemma_decimal_digits(n / 10);
        assert(s.drop_last() =~= nat_decimal(n / 10));
        assert((n / 10) * 10 + n % 10 == n);
    } else {
        assert(s.drop_last() =~= Seq::<char>::empty());
        assert(digits_value(Seq::<char>::empty()) == 0);
    }
}

/// The decimal form of a number reads back as that number.
pub proof fn law_decimal_parses_back(n: u32)
    ensures
        parse_u32_spec(nat_decimal(n as nat)) == Some(n),
{
    lemma_decimal_digits(n as nat);
    assert(nat_decimal(n as nat)[0] != '+') by {
        assert(crate::text::is_digit(nat_decimal(n as nat)[0]));
    }
}

} // verus!
