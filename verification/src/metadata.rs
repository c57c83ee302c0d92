//! The provenance marker and the license marker: their fixed names inside
//! the target directory and their exact contents. Writing them, and checking
//! for the provenance marker, is the caller's filesystem work; everything
//! about what is written is decided and verified here.

use vstd::prelude::*;
use crate::archive::spec_join;
use crate::bytes::push_all;

verus! {

/// The hidden marker file recording installation provenance: `.mcmpi`.
pub open spec fn spec_metadata_file_name() -> Seq<u8> {
    seq![
        ('.' as u8),
        ('m' as u8),
        ('c' as u8),
        ('m' as u8),
        ('p' as u8),
        ('i' as u8),
    ]
}

/// The license marker file: `eula.txt`.
pub open spec fn spec_license_file_name() -> Seq<u8> {
    seq![
        ('e' as u8),
        ('u' as u8),
        ('l' as u8),
        ('a' as u8),
        ('.' as u8),
        ('t' as u8),
        ('x' as u8),
        ('t' as u8),
    ]
}

/// The fixed license-acceptance content: `eula=true`.
pub open spec fn spec_license_content() -> Seq<u8> {
    seq![
        ('e' as u8),
        ('u' as u8),
        ('l' as u8),
        ('a' as u8),
        ('=' as u8),
        ('t' as u8),
        ('r' as u8),
        ('u' as u8),
        ('e' as u8),
    ]
}

/// Where the provenance marker lives: the metadata file name under `target`.
pub fn metadata_path(target: &Vec<u8>) -> (r: Vec<u8>)
    ensures
        r@ == spec_join(target@, spec_metadata_file_name()),
{
    let mut r: Vec<u8> = Vec::new();
    push_all(&mut r, target);
    r.push('/' as u8);
    r.push('.' as u8);
    r.push('m' as u8);
    r.push('c' as u8);
    r.push('m' as u8);
    r.push('p' as u8);
    r.push('i' as u8);
    assert(r@ =~= spec_join(target@, spec_metadata_file_name()));
    r
}

/// Where the license marker lives: the license file name under `target`.
pub fn license_path(target: &Vec<u8>) -> (r: Vec<u8>)
    ensures
        r@ == spec_join(target@, spec_license_file_name()),
{
    let mut r: Vec<u8> = Vec::new();
    push_all(&mut r, target);
    r.push('/' as u8);
    r.push('e' as u8);
    r.push('u' as u8);
    r.push('l' as u8);
    r.push('a' as u8);
    r.push('.' as u8);
    r.push('t' as u8);
    r.push('x' as u8);
    r.push('t' as u8);
    assert(r@ =~= spec_join(target@, spec_license_file_name()));
    r
}

/// The license marker's content.
pub fn license_content() -> (r: Vec<u8>)
    ensures
        r@ == spec_license_content(),
{
    let mut r: Vec<u8> = Vec::new();
    r.push('e' as u8);
    r.push('u' as u8);
    r.push('l' as u8);
    r.push('a' as u8);
    r.push('=' as u8);
    r.push('t' as u8);
    r.push('r' as u8);
    r.push('u' as u8);
    r.push('e' as u8);
    assert(r@ =~= spec_license_content());
    r
}

/// The `Name: ` label opening the marker's first line.
pub open spec fn spec_name_label() -> Seq<u8> {
    seq![('N' as u8), ('a' as u8), ('m' as u8), ('e' as u8), (':' as u8), (' ' as u8)]
}

/// The `\nDownload: ` label opening the marker's second line.
pub open spec fn spec_download_label() -> Seq<u8> {
    seq![
        ('\n' as u8),
        ('D' as u8),
        ('o' as u8),
        ('w' as u8),
        ('n' as u8),
        ('l' as u8),
        ('o' as u8),
        ('a' as u8),
        ('d' as u8),
        (':' as u8),
        (' ' as u8),
    ]
}

/// The `\nDate: ` label opening the marker's third line.
pub open spec fn spec_date_label() -> Seq<u8> {
    seq![
        ('\n' as u8),
        ('D' as u8),
        ('a' as u8),
        ('t' as u8),
        ('e' as u8),
        (':' as u8),
        (' ' as u8),
    ]
}

/// The provenance marker's three lines: the archive's name, the (decoded)
/// source URL, and the timestamp the marker was written at.
pub open spec fn spec_metadata_content(name: Seq<u8>, url: Seq<u8>, stamp: Seq<u8>) -> Seq<u8> {
    spec_name_label() + name + spec_download_label() + url + spec_date_label() + stamp
}

/// Build the provenance marker's content for this run.
pub fn metadata_content(name: &Vec<u8>, url: &Vec<u8>, stamp: &Vec<u8>) -> (r: Vec<u8>)
    ensures
        r@ == spec_metadata_content(name@, url@, stamp@),
{
    let mut r: Vec<u8> = Vec::new();
    r.push('N' as u8);
    r.push('a' as u8);
    r.push('m' as u8);
    r.push('e' as u8);
    r.push(':' as u8);
    r.push(' ' as u8);
    push_all(&mut r, name);
    r.push('\n' as u8);
    r.push('D' as u8);
    r.push('o' as u8);
    r.push('w' as u8);
    r.push('n' as u8);
    r.push('l' as u8);
    r.push('o' as u8);
    r.push('a' as u8);
    r.push('d' as u8);
    r.push(':' as u8);
    r.push(' ' as u8);
    push_all(&mut r, url);
    r.push('\n' as u8);
    r.push('D' as u8);
    r.push('a' as u8);
    r.push('t' as u8);
    r.push('e' as u8);
    r.push(':' as u8);
    r.push(' ' as u8);
    push_all(&mut r, stamp);
    assert(r@ =~= spec_metadata_content(name@, url@, stamp@));
    r
}

/// Relies on `chrono::Local::now` and `DateTime::to_rfc2822`: the current
/// local time rendered in the marker's fixed human-readable format, which is
/// never empty. The result depends on the clock, so nothing more is promised
/// of its value; `to_rfc2822` panics only when the system clock lies outside
/// years 0 to 9999.
#[verifier::external_body]
fn current_timestamp() -> (r: Vec<u8>)
    ensures
        r@.len() > 0,
{
    chrono::Local::now().to_rfc2822().into_bytes()
}

/// The provenance marker's content for this run, stamped with the local time
/// the call was made at: the three labelled lines for some non-empty
/// timestamp.
pub fn metadata_content_now(name: &Vec<u8>, url: &Vec<u8>) -> (r: Vec<u8>)
    ensures
        exists|stamp: Seq<u8>|
            stamp.len() > 0 && r@ == spec_metadata_content(name@, url@, stamp),
{
    let stamp = current_timestamp();
    let r = metadata_content(name, url, &stamp);
    proof {
        assert(stamp@.len() > 0 && r@ == spec_metadata_content(name@, url@, stamp@));
    }
    r
}

} // verus!
