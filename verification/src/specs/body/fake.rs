//! The generators of fake values.
//!
//! A placeholder `${fake.attr}` names one generator of a fixed catalogue.
//! Each generator hands out a freshly generated text on every call. Which
//! text that is cannot be said; what can be said of every text is said here.
use crate::server::url::var::UrlVar;
use crate::text::is_ascii_digit;
use vstd::prelude::*;

verus! {

/// The least number of characters of a generated password.
pub const PASSWORD_MIN: usize = 8;

/// The number of characters that a generated password stays under.
pub const PASSWORD_MAX: usize = 20;

/// Calls the generator `number::Digit` of the crate `fake` with the English
/// locale. The text is one decimal digit: the generator picks an entry of the
/// table `"0"` to `"9"`.
#[verifier::external_body]
fn fake_digit() -> (text: String)
    ensures
        text@.len() == 1,
        is_ascii_digit(text@[0]),
{
    fake::Fake::fake(&fake::faker::number::raw::Digit(fake::locales::EN))
}

/// Calls the generator `internet::Password` of the crate `fake` with the
/// English locale for a length from `min` up to, but not including, `max`. The
/// text has that many characters: the generator draws the length from the
/// range and then one character of a table for each place. It panics on an
/// empty range.
#[verifier::external_body]
fn fake_password(min: usize, max: usize) -> (text: String)
    requires
        min < max,
    ensures
        min <= text@.len() < max,
{
    fake::Fake::fake(&fake::faker::internet::raw::Password(fake::locales::EN, min..max))
}

/// Calls the generator `address::BuildingNumber` of the crate `fake` with the
/// English locale. The text is never empty: it writes digits into a format
/// that is not empty. Nothing else is claimed of it.
#[verifier::external_body]
fn fake_building_number() -> (text: String)
    ensures
        text@.len() > 0,
{
    fake::Fake::fake(&fake::faker::address::raw::BuildingNumber(fake::locales::EN))
}

/// Calls the generator `address::CityName` of the crate `fake` with the
/// English locale. The text is never empty: it fills the places of a template
/// that is not empty. Nothing else is claimed of it.
#[verifier::external_body]
fn fake_city_name() -> (text: String)
    ensures
        text@.len() > 0,
{
    fake::Fake::fake(&fake::faker::address::raw::CityName(fake::locales::EN))
}

/// Calls the generator `address::CityPrefix` of the crate `fake` with the
/// English locale. The text is never empty: it picks an entry of a table of
/// the crate, and no entry is empty. Nothing else is claimed of it.
#[verifier::external_body]
fn fake_city_prefix() -> (text: String)
    ensures
        text@.len() > 0,
{
    fake::Fake::fake(&fake::faker::address::raw::CityPrefix(fake::locales::EN))
}

/// Calls the generator `address::CitySuffix` of the crate `fake` with the
/// English locale. The text is never empty: it picks an entry of a table of
/// the crate, and no entry is empty. Nothing else is claimed of it.
#[verifier::external_body]
fn fake_city_suffix() -> (text: String)
    ensures
        text@.len() > 0,
{
    fake::Fake::fake(&fake::faker::address::raw::CitySuffix(fake::locales::EN))
}

/// Calls the generator `address::CountryCode` of the crate `fake` with the
/// English locale. The text is never empty: it picks an entry of a table of
/// the crate, and no entry is empty. Nothing else is claimed of it.
#[verifier::external_body]
fn fake_country_code() -> (text: String)
    ensures
        text@.len() > 0,
{
    fake::Fake::fake(&fake::faker::address::raw::CountryCode(fake::locales::EN))
}

/// Calls the generator `address::Latitude` of the crate `fake` with the
/// English locale. The text is never empty: it writes a floating-point number.
/// Nothing else is claimed of it.
#[verifier::external_body]
fn fake_latitude() -> (text: String)
    ensures
        text@.len() > 0,
{
    fake::Fake::fake(&fake::faker::address::raw::Latitude(fake::locales::EN))
}

/// Calls the generator `address::Longitude` of the crate `fake` with the
/// English locale. The text is never empty: it writes a floating-point number.
/// Nothing else is claimed of it.
#[verifier::external_body]
fn fake_longitude() -> (text: String)
    ensures
        text@.len() > 0,
{
    fake::Fake::fake(&fake::faker::address::raw::Longitude(fake::locales::EN))
}

/// Calls the generator `address::PostCode` of the crate `fake` with the
/// English locale. The text is never empty: it writes digits into a format
/// that is not empty. Nothing else is claimed of it.
#[verifier::external_body]
fn fake_post_code() -> (text: String)
    ensures
        text@.len() > 0,
{
    fake::Fake::fake(&fake::faker::address::raw::PostCode(fake::locales::EN))
}

/// Calls the generator `address::SecondaryAddress` of the crate `fake` with
/// the English locale. The text is never empty: it fills the places of a
/// template that is not empty. Nothing else is claimed of it.
#[verifier::external_body]
fn fake_secondary_address() -> (text: String)
    ensures
        text@.len() > 0,
{
    fake::Fake::fake(&fake::faker::address::raw::SecondaryAddress(fake::locales::EN))
}

/// Calls the generator `address::SecondaryAddressType` of the crate `fake`
/// with the English locale. The text is never empty: it picks an entry of a
/// table of the crate, and no entry is empty. Nothing else is claimed of it.
#[verifier::external_body]
fn fake_secondary_address_type() -> (text: String)
    ensures
        text@.len() > 0,
{
    fake::Fake::fake(&fake::faker::address::raw::SecondaryAddressType(fake::locales::EN))
}

/// Calls the generator `address::StateAbbr` of the crate `fake` with the
/// English locale. The text is never empty: it picks an entry of a table of
/// the crate, and no entry is empty. Nothing else is claimed of it.
#[verifier::external_body]
fn fake_state_abbr() -> (text: String)
    ensures
        text@.len() > 0,
{
    fake::Fake::fake(&fake::faker::address::raw::StateAbbr(fake::locales::EN))
}

/// Calls the generator `address::StateName` of the crate `fake` with the
/// English locale. The text is never empty: it picks an entry of a table of
/// the crate, and no entry is empty. Nothing else is claimed of it.
#[verifier::external_body]
fn fake_state_name() -> (text: String)
    ensures
        text@.len() > 0,
{
    fake::Fake::fake(&fake::faker::address::raw::StateName(fake::locales::EN))
}

/// Calls the generator `address::StreetName` of the crate `fake` with the
/// English locale. The text is never empty: it fills the places of a template
/// that is not empty. Nothing else is claimed of it.
#[verifier::external_body]
fn fake_street_name() -> (text: String)
    ensures
        text@.len() > 0,
{
    fake::Fake::fake(&fake::faker::address::raw::StreetName(fake::locales::EN))
}

/// Calls the generator `address::StreetSuffix` of the crate `fake` with the
/// English locale. The text is never empty: it picks an entry of a table of
/// the crate, and no entry is empty. Nothing else is claimed of it.
#[verifier::external_body]
fn fake_street_suffix() -> (text: String)
    ensures
        text@.len() > 0,
{
    fake::Fake::fake(&fake::faker::address::raw::StreetSuffix(fake::locales::EN))
}

/// Calls the generator `address::TimeZone` of the crate `fake` with the
/// English locale. The text is never empty: it picks an entry of a table of
/// the crate, and no entry is empty. Nothing else is claimed of it.
#[verifier::external_body]
fn fake_time_zone() -> (text: String)
    ensures
        text@.len() > 0,
{
    fake::Fake::fake(&fake::faker::address::raw::TimeZone(fake::locales::EN))
}

/// Calls the generator `address::ZipCode` of the crate `fake` with the English
/// locale. The text is never empty: it writes digits into a format that is not
/// empty. Nothing else is claimed of it.
#[verifier::external_body]
fn fake_zip_code() -> (text: String)
    ensures
        text@.len() > 0,
{
    fake::Fake::fake(&fake::faker::address::raw::ZipCode(fake::locales::EN))
}

/// Calls the generator `barcode::Isbn` of the crate `fake` with the English
/// locale. The text is never empty: it writes the parts of an ISBN with `-`
/// between them. Nothing else is claimed of it.
#[verifier::external_body]
fn fake_isbn() -> (text: String)
    ensures
        text@.len() > 0,
{
    fake::Fake::fake(&fake::faker::barcode::raw::Isbn(fake::locales::EN))
}

/// Calls the generator `barcode::Isbn10` of the crate `fake` with the English
/// locale. The text is never empty: it writes the parts of an ISBN with `-`
/// between them. Nothing else is claimed of it.
#[verifier::external_body]
fn fake_isbn10() -> (text: String)
    ensures
        text@.len() > 0,
{
    fake::Fake::fake(&fake::faker::barcode::raw::Isbn10(fake::locales::EN))
}

/// Calls the generator `barcode::Isbn13` of the crate `fake` with the English
/// locale. The text is never empty: it writes the parts of an ISBN with `-`
/// between them. Nothing else is claimed of it.
#[verifier::external_body]
fn fake_isbn13() -> (text: String)
    ensures
        text@.len() > 0,
{
    fake::Fake::fake(&fake::faker::barcode::raw::Isbn13(fake::locales::EN))
}

/// Calls the generator `company::Bs` of the crate `fake` with the English
/// locale. The text is never empty: it fills the places of a template that is
/// not empty. Nothing else is claimed of it.
#[verifier::external_body]
fn fake_bs() -> (text: String)
    ensures
        text@.len() > 0,
{
    fake::Fake::fake(&fake::faker::company::raw::Bs(fake::locales::EN))
}

/// Calls the generator `company::BsAdj` of the crate `fake` with the English
/// locale. The text is never empty: it picks an entry of a table of the crate,
/// and no entry is empty. Nothing else is claimed of it.
#[verifier::external_body]
fn fake_bs_adj() -> (text: String)
    ensures
        text@.len() > 0,
{
    fake::Fake::fake(&fake::faker::company::raw::BsAdj(fake::locales::EN))
}

/// Calls the generator `company::BsNoun` of the crate `fake` with the English
/// locale. The text is never empty: it picks an entry of a table of the crate,
/// and no entry is empty. Nothing else is claimed of it.
#[verifier::external_body]
fn fake_bs_noun() -> (text: String)
    ensures
        text@.len() > 0,
{
    fake::Fake::fake(&fake::faker::company::raw::BsNoun(fake::locales::EN))
}

/// Calls the generator `company::BsVerb` of the crate `fake` with the English
/// locale. The text is never empty: it picks an entry of a table of the crate,
/// and no entry is empty. Nothing else is claimed of it.
#[verifier::external_body]
fn fake_bs_verb() -> (text: String)
    ensures
        text@.len() > 0,
{
    fake::Fake::fake(&fake::faker::company::raw::BsVerb(fake::locales::EN))
}

/// Calls the generator `company::Buzzword` of the crate `fake` with the
/// English locale. The text is never empty: it picks an entry of a table of
/// the crate, and no entry is empty. Nothing else is claimed of it.
#[verifier::external_body]
fn fake_buzzword() -> (text: String)
    ensures
        text@.len() > 0,
{
    fake::Fake::fake(&fake::faker::company::raw::Buzzword(fake::locales::EN))
}

/// Calls the generator `company::BuzzwordMiddle` of the crate `fake` with the
/// English locale. The text is never empty: it picks an entry of a table of
/// the crate, and no entry is empty. Nothing else is claimed of it.
#[verifier::external_body]
fn fake_buzzword_middle() -> (text: String)
    ensures
        text@.len() > 0,
{
    fake::Fake::fake(&fake::faker::company::raw::BuzzwordMiddle(fake::locales::EN))
}

/// Calls the generator `company::BuzzwordTail` of the crate `fake` with the
/// English locale. The text is never empty: it picks an entry of a table of
/// the crate, and no entry is empty. Nothing else is claimed of it.
#[verifier::external_body]
fn fake_buzzword_tail() -> (text: String)
    ensures
        text@.len() > 0,
{
    fake::Fake::fake(&fake::faker::company::raw::BuzzwordTail(fake::locales::EN))
}

/// Calls the generator `company::CatchPhrase` of the crate `fake` with the
/// English locale. The text is never empty: it fills the places of a template
/// that is not empty. Nothing else is claimed of it.
#[verifier::external_body]
fn fake_catch_phrase() -> (text: String)
    ensures
        text@.len() > 0,
{
    fake::Fake::fake(&fake::faker::company::raw::CatchPhrase(fake::locales::EN))
}

/// Calls the generator `company::CompanyName` of the crate `fake` with the
/// English locale. The text is never empty: it fills the places of a template
/// that is not empty. Nothing else is claimed of it.
#[verifier::external_body]
fn fake_company_name() -> (text: String)
    ensures
        text@.len() > 0,
{
    fake::Fake::fake(&fake::faker::company::raw::CompanyName(fake::locales::EN))
}

/// Calls the generator `company::CompanySuffix` of the crate `fake` with the
/// English locale. The text is never empty: it picks an entry of a table of
/// the crate, and no entry is empty. Nothing else is claimed of it.
#[verifier::external_body]
fn fake_company_suffix() -> (text: String)
    ensures
        text@.len() > 0,
{
    fake::Fake::fake(&fake::faker::company::raw::CompanySuffix(fake::locales::EN))
}

/// Calls the generator `company::Industry` of the crate `fake` with the
/// English locale. The text is never empty: it picks an entry of a table of
/// the crate, and no entry is empty. Nothing else is claimed of it.
#[verifier::external_body]
fn fake_industry() -> (text: String)
    ensures
        text@.len() > 0,
{
    fake::Fake::fake(&fake::faker::company::raw::Industry(fake::locales::EN))
}

/// Calls the generator `company::Profession` of the crate `fake` with the
/// English locale. The text is never empty: it picks an entry of a table of
/// the crate, and no entry is empty. Nothing else is claimed of it.
#[verifier::external_body]
fn fake_profession() -> (text: String)
    ensures
        text@.len() > 0,
{
    fake::Fake::fake(&fake::faker::company::raw::Profession(fake::locales::EN))
}

/// Calls the generator `creditcard::CreditCardNumber` of the crate `fake` with
/// the English locale. The text is never empty: it writes a prefix, digits and
/// a check digit. Nothing else is claimed of it.
#[verifier::external_body]
fn fake_credit_card_number() -> (text: String)
    ensures
        text@.len() > 0,
{
    fake::Fake::fake(&fake::faker::creditcard::raw::CreditCardNumber(fake::locales::EN))
}

/// Calls the generator `currency::CurrencyCode` of the crate `fake` with the
/// English locale. The text is never empty: it picks an entry of a table of
/// the crate, and no entry is empty. Nothing else is claimed of it.
#[verifier::external_body]
fn fake_currency_code() -> (text: String)
    ensures
        text@.len() > 0,
{
    fake::Fake::fake(&fake::faker::currency::raw::CurrencyCode(fake::locales::EN))
}

/// Calls the generator `currency::CurrencyName` of the crate `fake` with the
/// English locale. The text is never empty: it picks an entry of a table of
/// the crate, and no entry is empty. Nothing else is claimed of it.
#[verifier::external_body]
fn fake_currency_name() -> (text: String)
    ensures
        text@.len() > 0,
{
    fake::Fake::fake(&fake::faker::currency::raw::CurrencyName(fake::locales::EN))
}

/// Calls the generator `currency::CurrencySymbol` of the crate `fake` with the
/// English locale. The text is never empty: it picks an entry of a table of
/// the crate, and no entry is empty. Nothing else is claimed of it.
#[verifier::external_body]
fn fake_currency_symbol() -> (text: String)
    ensures
        text@.len() > 0,
{
    fake::Fake::fake(&fake::faker::currency::raw::CurrencySymbol(fake::locales::EN))
}

/// Calls the generator `filesystem::DirPath` of the crate `fake` with the
/// English locale. The text is never empty: it starts the path with a root
/// directory of a table without an empty entry. Nothing else is claimed of it.
#[verifier::external_body]
fn fake_dir_path() -> (text: String)
    ensures
        text@.len() > 0,
{
    fake::Fake::fake(&fake::faker::filesystem::raw::DirPath(fake::locales::EN))
}

/// Calls the generator `filesystem::FileExtension` of the crate `fake` with
/// the English locale. The text is never empty: it picks an entry of a table
/// of the crate, and no entry is empty. Nothing else is claimed of it.
#[verifier::external_body]
fn fake_file_extension() -> (text: String)
    ensures
        text@.len() > 0,
{
    fake::Fake::fake(&fake::faker::filesystem::raw::FileExtension(fake::locales::EN))
}

/// Calls the generator `filesystem::FileName` of the crate `fake` with the
/// English locale. The text is never empty: it writes a name, a `.` and an
/// extension. Nothing else is claimed of it.
#[verifier::external_body]
fn fake_file_name() -> (text: String)
    ensures
        text@.len() > 0,
{
    fake::Fake::fake(&fake::faker::filesystem::raw::FileName(fake::locales::EN))
}

/// Calls the generator `filesystem::FilePath` of the crate `fake` with the
/// English locale. The text is never empty: it starts the path with a root
/// directory of a table without an empty entry. Nothing else is claimed of it.
#[verifier::external_body]
fn fake_file_path() -> (text: String)
    ensures
        text@.len() > 0,
{
    fake::Fake::fake(&fake::faker::filesystem::raw::FilePath(fake::locales::EN))
}

/// Calls the generator `filesystem::MimeType` of the crate `fake` with the
/// English locale. The text is never empty: it picks an entry of a table of
/// the crate, and no entry is empty. Nothing else is claimed of it.
#[verifier::external_body]
fn fake_mime_type() -> (text: String)
    ensures
        text@.len() > 0,
{
    fake::Fake::fake(&fake::faker::filesystem::raw::MimeType(fake::locales::EN))
}

/// Calls the generator `filesystem::Semver` of the crate `fake` with the
/// English locale. The text is never empty: it writes numbers with `.` between
/// them. Nothing else is claimed of it.
#[verifier::external_body]
fn fake_semver() -> (text: String)
    ensures
        text@.len() > 0,
{
    fake::Fake::fake(&fake::faker::filesystem::raw::Semver(fake::locales::EN))
}

/// Calls the generator `filesystem::SemverStable` of the crate `fake` with the
/// English locale. The text is never empty: it writes numbers with `.` between
/// them. Nothing else is claimed of it.
#[verifier::external_body]
fn fake_semver_stable() -> (text: String)
    ensures
        text@.len() > 0,
{
    fake::Fake::fake(&fake::faker::filesystem::raw::SemverStable(fake::locales::EN))
}

/// Calls the generator `filesystem::SemverUnstable` of the crate `fake` with
/// the English locale. The text is never empty: it writes numbers with `.`
/// between them. Nothing else is claimed of it.
#[verifier::external_body]
fn fake_semver_unstable() -> (text: String)
    ensures
        text@.len() > 0,
{
    fake::Fake::fake(&fake::faker::filesystem::raw::SemverUnstable(fake::locales::EN))
}

/// Calls the generator `finance::Bic` of the crate `fake` with the English
/// locale. The text is never empty: it writes letters and a `1`. Nothing else
/// is claimed of it.
#[verifier::external_body]
fn fake_bic() -> (text: String)
    ensures
        text@.len() > 0,
{
    fake::Fake::fake(&fake::faker::finance::raw::Bic(fake::locales::EN))
}

/// Calls the generator `finance::Isin` of the crate `fake` with the English
/// locale. The text is never empty: it writes a country code, nine characters
/// and a check digit. Nothing else is claimed of it.
#[verifier::external_body]
fn fake_isin() -> (text: String)
    ensures
        text@.len() > 0,
{
    fake::Fake::fake(&fake::faker::finance::raw::Isin(fake::locales::EN))
}

/// Calls the generator `internet::DomainSuffix` of the crate `fake` with the
/// English locale. The text is never empty: it picks an entry of a table of
/// the crate, and no entry is empty. Nothing else is claimed of it.
#[verifier::external_body]
fn fake_domain_suffix() -> (text: String)
    ensures
        text@.len() > 0,
{
    fake::Fake::fake(&fake::faker::internet::raw::DomainSuffix(fake::locales::EN))
}

/// Calls the generator `internet::FreeEmail` of the crate `fake` with the
/// English locale. The text is never empty: it writes a name, an `@` and a
/// provider. Nothing else is claimed of it.
#[verifier::external_body]
fn fake_free_email() -> (text: String)
    ensures
        text@.len() > 0,
{
    fake::Fake::fake(&fake::faker::internet::raw::FreeEmail(fake::locales::EN))
}

/// Calls the generator `internet::FreeEmailProvider` of the crate `fake` with
/// the English locale. The text is never empty: it picks an entry of a table
/// of the crate, and no entry is empty. Nothing else is claimed of it.
#[verifier::external_body]
fn fake_free_email_provider() -> (text: String)
    ensures
        text@.len() > 0,
{
    fake::Fake::fake(&fake::faker::internet::raw::FreeEmailProvider(fake::locales::EN))
}

/// Calls the generator `internet::IP` of the crate `fake` with the English
/// locale. The text is never empty: it writes four numbers with `.` between
/// them. Nothing else is claimed of it.
#[verifier::external_body]
fn fake_ip() -> (text: String)
    ensures
        text@.len() > 0,
{
    fake::Fake::fake(&fake::faker::internet::raw::IP(fake::locales::EN))
}

/// Calls the generator `internet::IPv4` of the crate `fake` with the English
/// locale. The text is never empty: it writes four numbers with `.` between
/// them. Nothing else is claimed of it.
#[verifier::external_body]
fn fake_ipv4() -> (text: String)
    ensures
        text@.len() > 0,
{
    fake::Fake::fake(&fake::faker::internet::raw::IPv4(fake::locales::EN))
}

/// Calls the generator `internet::IPv6` of the crate `fake` with the English
/// locale. The text is never empty: it writes eight numbers with `:` between
/// them. Nothing else is claimed of it.
#[verifier::external_body]
fn fake_ipv6() -> (text: String)
    ensures
        text@.len() > 0,
{
    fake::Fake::fake(&fake::faker::internet::raw::IPv6(fake::locales::EN))
}

/// Calls the generator `internet::MACAddress` of the crate `fake` with the
/// English locale. The text is never empty: it writes six numbers with `:`
/// between them. Nothing else is claimed of it.
#[verifier::external_body]
fn fake_mac_address() -> (text: String)
    ensures
        text@.len() > 0,
{
    fake::Fake::fake(&fake::faker::internet::raw::MACAddress(fake::locales::EN))
}

/// Calls the generator `internet::SafeEmail` of the crate `fake` with the
/// English locale. The text is never empty: it writes a name and `@example.`
/// with a domain. Nothing else is claimed of it.
#[verifier::external_body]
fn fake_safe_email() -> (text: String)
    ensures
        text@.len() > 0,
{
    fake::Fake::fake(&fake::faker::internet::raw::SafeEmail(fake::locales::EN))
}

/// Calls the generator `internet::UserAgent` of the crate `fake` with the
/// English locale. The text is never empty: it picks an entry of a table of
/// the crate, and no entry is empty. Nothing else is claimed of it.
#[verifier::external_body]
fn fake_user_agent() -> (text: String)
    ensures
        text@.len() > 0,
{
    fake::Fake::fake(&fake::faker::internet::raw::UserAgent(fake::locales::EN))
}

/// Calls the generator `internet::Username` of the crate `fake` with the
/// English locale. The text is never empty: it writes a first name of a table
/// without an empty entry, alone or beside a word or a number. Nothing else is
/// claimed of it.
#[verifier::external_body]
fn fake_username() -> (text: String)
    ensures
        text@.len() > 0,
{
    fake::Fake::fake(&fake::faker::internet::raw::Username(fake::locales::EN))
}

/// Calls the generator `job::Field` of the crate `fake` with the English
/// locale. The text is never empty: it picks an entry of a table of the crate,
/// and no entry is empty. Nothing else is claimed of it.
#[verifier::external_body]
fn fake_field() -> (text: String)
    ensures
        text@.len() > 0,
{
    fake::Fake::fake(&fake::faker::job::raw::Field(fake::locales::EN))
}

/// Calls the generator `job::Position` of the crate `fake` with the English
/// locale. The text is never empty: it picks an entry of a table of the crate,
/// and no entry is empty. Nothing else is claimed of it.
#[verifier::external_body]
fn fake_position() -> (text: String)
    ensures
        text@.len() > 0,
{
    fake::Fake::fake(&fake::faker::job::raw::Position(fake::locales::EN))
}

/// Calls the generator `job::Seniority` of the crate `fake` with the English
/// locale. The text is never empty: it picks an entry of a table of the crate,
/// and no entry is empty. Nothing else is claimed of it.
#[verifier::external_body]
fn fake_seniority() -> (text: String)
    ensures
        text@.len() > 0,
{
    fake::Fake::fake(&fake::faker::job::raw::Seniority(fake::locales::EN))
}

/// Calls the generator `job::Title` of the crate `fake` with the English
/// locale. The text is never empty: it fills the places of a template that is
/// not empty. Nothing else is claimed of it.
#[verifier::external_body]
fn fake_job_title() -> (text: String)
    ensures
        text@.len() > 0,
{
    fake::Fake::fake(&fake::faker::job::raw::Title(fake::locales::EN))
}

/// Calls the generator `name::FirstName` of the crate `fake` with the English
/// locale. The text is never empty: it picks an entry of a table of the crate,
/// and no entry is empty. Nothing else is claimed of it.
#[verifier::external_body]
fn fake_first_name() -> (text: String)
    ensures
        text@.len() > 0,
{
    fake::Fake::fake(&fake::faker::name::raw::FirstName(fake::locales::EN))
}

/// Calls the generator `name::LastName` of the crate `fake` with the English
/// locale. The text is never empty: it picks an entry of a table of the crate,
/// and no entry is empty. Nothing else is claimed of it.
#[verifier::external_body]
fn fake_last_name() -> (text: String)
    ensures
        text@.len() > 0,
{
    fake::Fake::fake(&fake::faker::name::raw::LastName(fake::locales::EN))
}

/// Calls the generator `name::Name` of the crate `fake` with the English
/// locale. The text is never empty: it fills the places of a template that is
/// not empty. Nothing else is claimed of it.
#[verifier::external_body]
fn fake_name() -> (text: String)
    ensures
        text@.len() > 0,
{
    fake::Fake::fake(&fake::faker::name::raw::Name(fake::locales::EN))
}

/// Calls the generator `name::NameWithTitle` of the crate `fake` with the
/// English locale. The text is never empty: it fills the places of a template
/// that is not empty. Nothing else is claimed of it.
#[verifier::external_body]
fn fake_name_with_title() -> (text: String)
    ensures
        text@.len() > 0,
{
    fake::Fake::fake(&fake::faker::name::raw::NameWithTitle(fake::locales::EN))
}

/// Calls the generator `name::Suffix` of the crate `fake` with the English
/// locale. The text is never empty: it picks an entry of a table of the crate,
/// and no entry is empty. Nothing else is claimed of it.
#[verifier::external_body]
fn fake_suffix() -> (text: String)
    ensures
        text@.len() > 0,
{
    fake::Fake::fake(&fake::faker::name::raw::Suffix(fake::locales::EN))
}

/// Calls the generator `name::Title` of the crate `fake` with the English
/// locale. The text is never empty: it picks an entry of a table of the crate,
/// and no entry is empty. Nothing else is claimed of it.
#[verifier::external_body]
fn fake_title() -> (text: String)
    ensures
        text@.len() > 0,
{
    fake::Fake::fake(&fake::faker::name::raw::Title(fake::locales::EN))
}

/// Calls the generator `phone_number::CellNumber` of the crate `fake` with the
/// English locale. The text is never empty: it writes digits into a format
/// that is not empty. Nothing else is claimed of it.
#[verifier::external_body]
fn fake_cell_number() -> (text: String)
    ensures
        text@.len() > 0,
{
    fake::Fake::fake(&fake::faker::phone_number::raw::CellNumber(fake::locales::EN))
}

/// Calls the generator `phone_number::PhoneNumber` of the crate `fake` with
/// the English locale. The text is never empty: it writes digits into a format
/// that is not empty. Nothing else is claimed of it.
#[verifier::external_body]
fn fake_phone_number() -> (text: String)
    ensures
        text@.len() > 0,
{
    fake::Fake::fake(&fake::faker::phone_number::raw::PhoneNumber(fake::locales::EN))
}

/// Whether `attr` is the name of a generator of the catalogue.
pub open spec fn is_fake_attr(attr: Seq<char>) -> bool {
    ||| attr == "digit"@
    ||| attr == "password"@
    ||| attr == "building_number"@
    ||| attr == "city_name"@
    ||| attr == "city_prefix"@
    ||| attr == "city_suffix"@
    ||| attr == "country_code"@
    ||| attr == "latitude"@
    ||| attr == "longitude"@
    ||| attr == "post_code"@
    ||| attr == "secondary_address"@
    ||| attr == "secondary_address_type"@
    ||| attr == "state_abbr"@
    ||| attr == "state_name"@
    ||| attr == "street_name"@
    ||| attr == "street_suffix"@
    ||| attr == "time_zone"@
    ||| attr == "zip_code"@
    ||| attr == "isbn"@
    ||| attr == "isbn10"@
    ||| attr == "isbn13"@
    ||| attr == "bs"@
    ||| attr == "bs_adj"@
    ||| attr == "bs_noun"@
    ||| attr == "bs_verb"@
    ||| attr == "buzzword"@
    ||| attr == "buzzword_middle"@
    ||| attr == "buzzword_tail"@
    ||| attr == "catch_phrase"@
    ||| attr == "company_name"@
    ||| attr == "company_suffix"@
    ||| attr == "industry"@
    ||| attr == "profession"@
    ||| attr == "credit_card_number"@
    ||| attr == "currency_code"@
    ||| attr == "currency_name"@
    ||| attr == "currency_symbol"@
    ||| attr == "dir_path"@
    ||| attr == "file_extension"@
    ||| attr == "file_name"@
    ||| attr == "file_path"@
    ||| attr == "mime_type"@
    ||| attr == "semver"@
    ||| attr == "semver_stable"@
    ||| attr == "semver_unstable"@
    ||| attr == "bic"@
    ||| attr == "isin"@
    ||| attr == "domain_suffix"@
    ||| attr == "free_email"@
    ||| attr == "free_email_provider"@
    ||| attr == "ip"@
    ||| attr == "ipv4"@
    ||| attr == "ipv6"@
    ||| attr == "mac_address"@
    ||| attr == "safe_email"@
    ||| attr == "user_agent"@
    ||| attr == "username"@
    ||| attr == "field"@
    ||| attr == "position"@
    ||| attr == "seniority"@
    ||| attr == "job_title"@
    ||| attr == "first_name"@
    ||| attr == "last_name"@
    ||| attr == "name"@
    ||| attr == "name_with_title"@
    ||| attr == "suffix"@
    ||| attr == "title"@
    ||| attr == "cell_number"@
    ||| attr == "phone_number"@
}

/// What holds of every text that the generator named `attr` hands out: it
/// is not empty; that of `digit` is one decimal digit; that of `password`
/// has at least `PASSWORD_MIN` and less than `PASSWORD_MAX` characters.
pub open spec fn is_generated_text(attr: Seq<char>, text: Seq<char>) -> bool {
    &&& text.len() > 0
    &&& attr == "digit"@ ==> text.len() == 1 && is_ascii_digit(text[0])
    &&& attr == "password"@ ==> PASSWORD_MIN <= text.len() < PASSWORD_MAX
}

/// A freshly generated value of the generator named `attr`; `None` if the
/// catalogue has no generator of that name. Every generator hands out a
/// string, of which `is_generated_text` holds.
pub fn get_fake(attr: &str) -> (r: Option<UrlVar>)
    ensures
        r is Some <==> is_fake_attr(attr@),
        r matches Some(value) ==> value matches UrlVar::String(text) && is_generated_text(
            attr@,
            text@,
        ),
{
    proof {
        reveal_strlit("digit");
        reveal_strlit("password");
        assert("digit"@.len() != "password"@.len());
    }
    Some(
        UrlVar::String(
            if attr.eq("digit") {
                fake_digit()
            } else if attr.eq("password") {
                fake_password(PASSWORD_MIN, PASSWORD_MAX)
            } else if attr.eq("building_number") {
                fake_building_number()
            } else if attr.eq("city_name") {
                fake_city_name()
            } else if attr.eq("city_prefix") {
                fake_city_prefix()
            } else if attr.eq("city_suffix") {
                fake_city_suffix()
            } else if attr.eq("country_code") {
                fake_country_code()
            } else if attr.eq("latitude") {
                fake_latitude()
            } else if attr.eq("longitude") {
                fake_longitude()
            } else if attr.eq("post_code") {
                fake_post_code()
            } else if attr.eq("secondary_address") {
                fake_secondary_address()
            } else if attr.eq("secondary_address_type") {
                fake_secondary_address_type()
            } else if attr.eq("state_abbr") {
                fake_state_abbr()
            } else if attr.eq("state_name") {
                fake_state_name()
            } else if attr.eq("street_name") {
                fake_street_name()
            } else if attr.eq("street_suffix") {
                fake_street_suffix()
            } else if attr.eq("time_zone") {
                fake_time_zone()
            } else if attr.eq("zip_code") {
                fake_zip_code()
            } else if attr.eq("isbn") {
                fake_isbn()
            } else if attr.eq("isbn10") {
                fake_isbn10()
            } else if attr.eq("isbn13") {
                fake_isbn13()
            } else if attr.eq("bs") {
                fake_bs()
            } else if attr.eq("bs_adj") {
                fake_bs_adj()
            } else if attr.eq("bs_noun") {
                fake_bs_noun()
            } else if attr.eq("bs_verb") {
                fake_bs_verb()
            } else if attr.eq("buzzword") {
                fake_buzzword()
            } else if attr.eq("buzzword_middle") {
                fake_buzzword_middle()
            } else if attr.eq("buzzword_tail") {
                fake_buzzword_tail()
            } else if attr.eq("catch_phrase") {
                fake_catch_phrase()
            } else if attr.eq("company_name") {
                fake_company_name()
            } else if attr.eq("company_suffix") {
                fake_company_suffix()
            } else if attr.eq("industry") {
                fake_industry()
            } else if attr.eq("profession") {
                fake_profession()
            } else if attr.eq("credit_card_number") {
                fake_credit_card_number()
            } else if attr.eq("currency_code") {
                fake_currency_code()
            } else if attr.eq("currency_name") {
                fake_currency_name()
            } else if attr.eq("currency_symbol") {
                fake_currency_symbol()
            } else if attr.eq("dir_path") {
                fake_dir_path()
            } else if attr.eq("file_extension") {
                fake_file_extension()
            } else if attr.eq("file_name") {
                fake_file_name()
            } else if attr.eq("file_path") {
                fake_file_path()
            } else if attr.eq("mime_type") {
                fake_mime_type()
            } else if attr.eq("semver") {
                fake_semver()
            } else if attr.eq("semver_stable") {
                fake_semver_stable()
            } else if attr.eq("semver_unstable") {
                fake_semver_unstable()
            } else if attr.eq("bic") {
                fake_bic()
            } else if attr.eq("isin") {
                fake_isin()
            } else if attr.eq("domain_suffix") {
                fake_domain_suffix()
            } else if attr.eq("free_email") {
                fake_free_email()
            } else if attr.eq("free_email_provider") {
                fake_free_email_provider()
            } else if attr.eq("ip") {
                fake_ip()
            } else if attr.eq("ipv4") {
                fake_ipv4()
            } else if attr.eq("ipv6") {
                fake_ipv6()
            } else if attr.eq("mac_address") {
                fake_mac_address()
            } else if attr.eq("safe_email") {
                fake_safe_email()
            } else if attr.eq("user_agent") {
                fake_user_agent()
            } else if attr.eq("username") {
                fake_username()
            } else if attr.eq("field") {
                fake_field()
            } else if attr.eq("position") {
                fake_position()
            } else if attr.eq("seniority") {
                fake_seniority()
            } else if attr.eq("job_title") {
                fake_job_title()
            } else if attr.eq("first_name") {
                fake_first_name()
            } else if attr.eq("last_name") {
                fake_last_name()
            } else if attr.eq("name") {
                fake_name()
            } else if attr.eq("name_with_title") {
                fake_name_with_title()
            } else if attr.eq("suffix") {
                fake_suffix()
            } else if attr.eq("title") {
                fake_title()
            } else if attr.eq("cell_number") {
                fake_cell_number()
            } else if attr.eq("phone_number") {
                fake_phone_number()
            } else {
                return None;
            },
        ),
    )
}

} // verus!
