//! Names and addresses: the file name under which an image is stored, and the
//! addresses of the gallery's listing and detail pages.

use vstd::prelude::*;
use crate::text::{decimal, hex, hex_string, push_decimal, push_hex};

verus! {

/// The listing address up to the cache-defeating parameter.
pub const LISTING_URL_HEAD: &'static str = "https://www.dpm.org.cn/searchs/royalb.html?";

/// The listing address behind the cache-defeating parameter: the category
/// and the paging.
pub const LISTING_URL_TAIL: &'static str =
    "&category_id=624&p=1&pagesize=24&is_pc=0&is_wap=0&is_calendar=0&is_four_k=0";

/// A detail page's address up to the id.
pub const DETAIL_URL_HEAD: &'static str = "https://www.dpm.org.cn/light/";

/// A detail page's address behind the id.
pub const DETAIL_URL_TAIL: &'static str = ".html";

/// The hash that std's `DefaultHasher`, as `DefaultHasher::new()` makes it,
/// gives for a string.
pub uninterp spec fn str_hash(text: Seq<char>) -> u64;

/// Hashes `text` with `std::hash::BuildHasher::hash_one` on the default
/// builder of `DefaultHasher`: a fresh hasher is fed the string and asked for
/// its value. Every hasher made that way is the same, so the value depends
/// on the string alone; the contract gives it its name.
#[verifier::external_body]
pub(crate) fn default_hash(text: &str) -> (hash: u64)
    ensures
        hash == str_hash(text@),
{
    std::hash::BuildHasher::hash_one(
        &std::hash::BuildHasherDefault::<std::collections::hash_map::DefaultHasher>::default(),
        text,
    )
}

/// The address of a listing page; `nonce` is the parameter that defeats
/// caching.
pub open spec fn listing_address(nonce: Seq<char>) -> Seq<char> {
    LISTING_URL_HEAD@ + nonce + LISTING_URL_TAIL@
}

/// The address of the detail page with the given id.
pub open spec fn detail_address(id: Seq<char>) -> Seq<char> {
    DETAIL_URL_HEAD@ + id + DETAIL_URL_TAIL@
}

/// The name of the file for an image whose source hashes to `hash`, stored at
/// time `now`.
pub open spec fn file_name(hash: u64, now: int) -> Seq<char> {
    "wallpaper_"@ + hex(hash as nat) + "_"@ + decimal(now) + ".jpg"@
}

/// The address of a listing page with `nonce` as its cache-defeating
/// parameter.
pub fn listing_url(nonce: &str) -> (url: String)
    ensures
        url@ == listing_address(nonce@),
{
    let mut url = LISTING_URL_HEAD.to_owned();
    url.append(nonce);
    url.append(LISTING_URL_TAIL);
    url
}

/// The address of the detail page with the given id.
pub fn detail_url(id: &str) -> (url: String)
    ensures
        url@ == detail_address(id@),
{
    let mut url = DETAIL_URL_HEAD.to_owned();
    url.append(id);
    url.append(DETAIL_URL_TAIL);
    url
}

/// The hash of a source address, in hexadecimal.
pub fn hash_url(url: &str) -> (digest: String)
    ensures
        digest@ == hex(str_hash(url@) as nat),
{
    hex_string(default_hash(url))
}

/// The file name for a source that hashes to `hash`, stored at time `now`.
pub fn file_name_for(hash: u64, now: i64) -> (name: String)
    ensures
        name@ == file_name(hash, now as int),
{
    let mut name = "wallpaper_".to_owned();
    push_hex(&mut name, hash);
    name.append("_");
    push_decimal(&mut name, now);
    name.append(".jpg");
    name
}

/// The file name for an image from `source_url`, stored at time `now`: it
/// is made of the hash of the source and of the time.
pub fn wallpaper_file_name(source_url: &str, now: i64) -> (name: String)
    ensures
        name@ == file_name(str_hash(source_url@), now as int),
{
    file_name_for(default_hash(source_url), now)
}

} // verus!
