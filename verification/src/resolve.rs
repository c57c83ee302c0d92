//! Derives the archive file name and the target directory name from the
//! source URL (or an explicit override), normalizing the small set of
//! percent-encoded characters that commonly appear in file names.

use vstd::prelude::*;
use crate::error::InstallError;
use crate::request::InstallRequest;
use crate::bytes::copy_range;
use crate::bytes::push_all;

verus! {

/// The literal character a `%2X` escape decodes to, for the handled subset
/// (space, parentheses, `!`, `#`, `$`); `None` for every other third byte.
pub open spec fn token_literal(d: u8) -> Option<u8> {
    if d == ('0' as u8) {
        Some((' ' as u8))
    } else if d == ('9' as u8) {
        Some((')' as u8))
    } else if d == ('8' as u8) {
        Some(('(' as u8))
    } else if d == ('1' as u8) {
        Some(('!' as u8))
    } else if d == ('3' as u8) {
        Some(('#' as u8))
    } else if d == ('4' as u8) {
        Some(('$' as u8))
    } else {
        None
    }
}

/// `s` begins with one of the handled `%2X` escapes.
pub open spec fn starts_with_token(s: Seq<u8>) -> bool {
    &&& s.len() >= 3
    &&& s[0] == ('%' as u8)
    &&& s[1] == ('2' as u8)
    &&& token_literal(s[2]) is Some
}

/// The decoded form of `s`: each handled escape becomes its literal
/// character, every other byte is kept as it is. Escapes never overlap, so a
/// single left-to-right pass settles the result.
pub open spec fn spec_decode(s: Seq<u8>) -> Seq<u8>
    decreases s.len(),
{
    if s.len() == 0 {
        Seq::empty()
    } else if starts_with_token(s) {
        seq![token_literal(s[2]).unwrap()] + spec_decode(s.skip(3))
    } else {
        seq![s[0]] + spec_decode(s.skip(1))
    }
}

fn decode_digit(d: u8) -> (r: Option<u8>)
    ensures
        r == token_literal(d),
{
    if d == ('0' as u8) {
        Some((' ' as u8))
    } else if d == ('9' as u8) {
        Some((')' as u8))
    } else if d == ('8' as u8) {
        Some(('(' as u8))
    } else if d == ('1' as u8) {
        Some(('!' as u8))
    } else if d == ('3' as u8) {
        Some(('#' as u8))
    } else if d == ('4' as u8) {
        Some(('$' as u8))
    } else {
        None
    }
}

/// Decode the handled percent-escapes of `url`, leaving every other byte
/// (including unhandled escapes) untouched.
pub fn decode_url(url: &Vec<u8>) -> (r: Vec<u8>)
    ensures
        r@ == spec_decode(url@),
{
    let mut out: Vec<u8> = Vec::new();
    let mut i: usize = 0;
    proof {
        assert(url@.skip(0) =~= url@);
        assert(Seq::<u8>::empty() + spec_decode(url@) =~= spec_decode(url@));
    }
    while i < url.len()
        invariant
            i <= url.len(),
            spec_decode(url@) == out@ + spec_decode(url@.skip(i as int)),
        decreases url.len() - i,
    {
        let ghost s = url@.skip(i as int);
        assert(s[0] == url@[i as int]);
        let c = url[i];
        let mut consumed_token = false;
        if c == ('%' as u8) && url.len() - i > 2 && url[i + 1] == ('2' as u8) {
            assert(s[1] == url@[i as int + 1] && s[2] == url@[i as int + 2]);
            match decode_digit(url[i + 2]) {
                Some(lit) => {
                    proof {
                        assert(starts_with_token(s));
                        assert(s.skip(3) =~= url@.skip(i as int + 3));
                        assert(out@ + (seq![lit] + spec_decode(s.skip(3))) =~= out@.push(lit)
                            + spec_decode(url@.skip(i as int + 3)));
                    }
                    out.push(lit);
                    i = i + 3;
                    consumed_token = true;
                },
                None => {
                },
            }
        }
        if !consumed_token {
            proof {
                assert(!starts_with_token(s));
                assert(s.skip(1) =~= url@.skip(i as int + 1));
                assert(out@ + (seq![s[0]] + spec_decode(s.skip(1))) =~= out@.push(url@[i as int])
                    + spec_decode(url@.skip(i as int + 1)));
            }
            out.push(c);
            i = i + 1;
        }
    }
    assert(url@.skip(url@.len() as int) =~= Seq::<u8>::empty());
    assert(out@ + Seq::<u8>::empty() =~= out@);
    out
}

/// A decoded literal can never begin or continue an escape: it is not `%`,
/// not `2`, and not one of the escape's digit bytes.
proof fn lemma_literal_not_escape(d: u8)
    requires
        token_literal(d) is Some,
    ensures
        token_literal(d).unwrap() != ('%' as u8),
        token_literal(d).unwrap() != ('2' as u8),
        token_literal(token_literal(d).unwrap()) is None,
{
}

/// Encoded and literal forms are interchangeable: a URL holding a handled
/// escape decodes to exactly what the same URL with the escape's literal
/// character in its place decodes to.
pub proof fn lemma_decode_escape_equivalent(a: Seq<u8>, b: Seq<u8>, d: u8)
    requires
        token_literal(d) is Some,
    ensures
        spec_decode(a + seq![('%' as u8), ('2' as u8), d] + b) == spec_decode(
            a + seq![token_literal(d).unwrap()] + b,
        ),
    decreases a.len(),
{
    let enc = seq![('%' as u8), ('2' as u8), d];
    let lit = token_literal(d).unwrap();
    let s1 = a + enc + b;
    let s2 = a + seq![lit] + b;
    lemma_literal_not_escape(d);
    if a.len() == 0 {
        assert(s1[0] == ('%' as u8) && s1[1] == ('2' as u8) && s1[2] == d);
        assert(starts_with_token(s1));
        assert(s1.skip(3) =~= b);
        assert(s2[0] == lit);
        assert(!starts_with_token(s2));
        assert(s2.skip(1) =~= b);
        assert(spec_decode(s1) == seq![lit] + spec_decode(b));
        assert(spec_decode(s2) == seq![lit] + spec_decode(b));
    } else if a.len() >= 3 {
        assert(s1[0] == a[0] && s1[1] == a[1] && s1[2] == a[2]);
        assert(s2[0] == a[0] && s2[1] == a[1] && s2[2] == a[2]);
        assert(starts_with_token(s1) == starts_with_token(s2));
        if starts_with_token(s1) {
            assert(s1.skip(3) =~= a.skip(3) + enc + b);
            assert(s2.skip(3) =~= a.skip(3) + seq![lit] + b);
            lemma_decode_escape_equivalent(a.skip(3), b, d);
            assert(spec_decode(s1) == seq![token_literal(a[2]).unwrap()] + spec_decode(
                a.skip(3) + enc + b,
            ));
            assert(spec_decode(s2) == seq![token_literal(a[2]).unwrap()] + spec_decode(
                a.skip(3) + seq![lit] + b,
            ));
        } else {
            assert(s1.skip(1) =~= a.skip(1) + enc + b);
            assert(s2.skip(1) =~= a.skip(1) + seq![lit] + b);
            lemma_decode_escape_equivalent(a.skip(1), b, d);
        }
    } else {
        // one or two leading bytes: neither string can start with an escape,
        // because the byte after `a` is `%` on one side and the literal on
        // the other, and neither fits the escape shape there.
        if a.len() == 2 {
            assert(s1[2] == ('%' as u8));
            assert(!starts_with_token(s1));
            assert(s2[2] == lit);
            assert(!starts_with_token(s2));
        } else {
            assert(s1[1] == ('%' as u8));
            assert(!starts_with_token(s1));
            if s2.len() >= 3 {
                assert(s2[1] == lit);
            }
            assert(!starts_with_token(s2));
        }
        assert(s1[0] == a[0] && s2[0] == a[0]);
        assert(s1.skip(1) =~= a.skip(1) + enc + b);
        assert(s2.skip(1) =~= a.skip(1) + seq![lit] + b);
        lemma_decode_escape_equivalent(a.skip(1), b, d);
    }
}

/// The resolver cannot tell an escaped URL from its literal form: both
/// derive the same install name, so equivalent URLs resolve to the same
/// target directory and archive names.
pub proof fn lemma_resolver_escape_equivalent(a: Seq<u8>, b: Seq<u8>, d: u8)
    requires
        token_literal(d) is Some,
    ensures
        spec_derived_name(a + seq![('%' as u8), ('2' as u8), d] + b) == spec_derived_name(
            a + seq![token_literal(d).unwrap()] + b,
        ),
{
    lemma_decode_escape_equivalent(a, b, d);
}

/// The largest index of `s` holding byte `c`, or `-1` when `c` does not occur.
pub open spec fn last_byte_at(s: Seq<u8>, c: u8) -> int
    decreases s.len(),
{
    if s.len() == 0 {
        -1
    } else if s.last() == c {
        s.len() - 1
    } else {
        last_byte_at(s.drop_last(), c)
    }
}

/// What `last_byte_at` returns: an in-range index holding `c` with nothing
/// equal to `c` after it, or `-1` when `c` is absent.
pub proof fn lemma_last_byte_at(s: Seq<u8>, c: u8)
    ensures
        -1 <= last_byte_at(s, c) < s.len(),
        last_byte_at(s, c) >= 0 ==> s[last_byte_at(s, c)] == c,
        forall|i: int| last_byte_at(s, c) < i < s.len() ==> s[i] != c,
    decreases s.len(),
{
    if s.len() > 0 && s.last() != c {
        lemma_last_byte_at(s.drop_last(), c);
        assert forall|i: int| last_byte_at(s, c) < i < s.len() implies s[i] != c by {
            if i < s.len() - 1 {
                assert(s.drop_last()[i] == s[i]);
            }
        }
    }
}

/// Scan for the last occurrence of `c` in `s`.
pub fn rfind_byte(s: &Vec<u8>, c: u8) -> (r: Option<usize>)
    ensures
        match r {
            Some(i) => i as int == last_byte_at(s@, c),
            None => last_byte_at(s@, c) == -1,
        },
{
    proof {
        lemma_last_byte_at(s@, c);
    }
    let mut j: usize = s.len();
    while j > 0
        invariant
            j <= s.len(),
            -1 <= last_byte_at(s@, c) < s@.len(),
            last_byte_at(s@, c) >= 0 ==> s@[last_byte_at(s@, c)] == c,
            forall|i: int| j <= i < s@.len() ==> s@[i] != c,
        decreases j,
    {
        if s[j - 1] == c {
            proof {
                lemma_last_byte_at(s@, c);
                assert(last_byte_at(s@, c) >= j - 1);
            }
            return Some(j - 1);
        }
        j = j - 1;
    }
    None
}

/// The final path segment of `s`: everything after the last `/`, the whole of
/// `s` when it has none.
pub open spec fn spec_base_name(s: Seq<u8>) -> Seq<u8> {
    s.subrange(last_byte_at(s, ('/' as u8)) + 1, s.len() as int)
}

/// `b` with its final extension stripped: everything before the last `.`,
/// the whole of `b` when it has none.
pub open spec fn spec_stem(b: Seq<u8>) -> Seq<u8> {
    if last_byte_at(b, ('.' as u8)) < 0 {
        b
    } else {
        b.subrange(0, last_byte_at(b, ('.' as u8)))
    }
}

/// The URL-derived install name: the decoded URL's final path segment with
/// its extension stripped.
pub open spec fn spec_derived_name(url: Seq<u8>) -> Seq<u8> {
    spec_stem(spec_base_name(spec_decode(url)))
}

/// Derive the install name from an already decoded URL or path: the final
/// path segment, extension stripped. `None` exactly when that name is empty
/// (the path is empty or ends in `/`, or the segment is only an extension).
pub fn extract_filename(path: &Vec<u8>) -> (r: Option<Vec<u8>>)
    ensures
        match r {
            Some(v) => v@ == spec_stem(spec_base_name(path@)) && v@.len() > 0,
            None => spec_stem(spec_base_name(path@)).len() == 0,
        },
{
    proof {
        lemma_last_byte_at(path@, ('/' as u8));
    }
    let n = path.len();
    let seg_start: usize = match rfind_byte(path, ('/' as u8)) {
        Some(i) => {
            proof {
                lemma_last_byte_at(path@, ('/' as u8));
            }
            i + 1
        },
        None => 0,
    };
    let base = copy_range(path, seg_start, n);
    proof {
        lemma_last_byte_at(base@, ('.' as u8));
    }
    let name = match rfind_byte(&base, ('.' as u8)) {
        Some(d) => copy_range(&base, 0, d),
        None => base,
    };
    if name.len() == 0 {
        None
    } else {
        Some(name)
    }
}

/// The fixed `.zip` suffix every archive file name carries.
pub open spec fn zip_suffix() -> Seq<u8> {
    seq![('.' as u8), ('z' as u8), ('i' as u8), ('p' as u8)]
}

/// The pair of names one run works with, derived once from the request.
pub struct ResolvedPaths {
    /// Where the fetched archive is stored: the target name plus `.zip`.
    pub archive_file_name: Vec<u8>,
    /// Where the archive's contents are installed.
    pub target_directory_name: Vec<u8>,
}

impl ResolvedPaths {
    /// The invariant `resolve` establishes: a non-empty target name, and an
    /// archive name that is exactly the target name with the zip suffix.
    pub open spec fn wf(&self) -> bool {
        &&& self.target_directory_name@.len() > 0
        &&& self.archive_file_name@ == self.target_directory_name@ + zip_suffix()
    }
}

/// The target name a request resolves to: the override when one is given,
/// else the URL-derived name.
pub open spec fn spec_target_name(req: InstallRequest) -> Seq<u8> {
    match req.output_directory_override {
        Some(o) => o@,
        None => spec_derived_name(req.source_url@),
    }
}

/// Resolve a request into its archive and target names. Succeeds exactly when
/// the resolved target name is non-empty; an empty name (a URL with no final
/// segment, or an empty override) is rejected before any further work.
pub fn resolve(req: &InstallRequest) -> (r: Result<ResolvedPaths, InstallError>)
    ensures
        match r {
            Ok(p) => {
                &&& p.wf()
                &&& p.target_directory_name@ == spec_target_name(*req)
                &&& spec_target_name(*req).len() > 0
            },
            Err(e) => e == InstallError::NameExtraction && spec_target_name(*req).len() == 0,
        },
{
    let name: Vec<u8> = match &req.output_directory_override {
        Some(o) => {
            let mut copy: Vec<u8> = Vec::new();
            push_all(&mut copy, o);
            assert(copy@ =~= o@);
            copy
        },
        None => {
            let decoded = decode_url(&req.source_url);
            match extract_filename(&decoded) {
                Some(n) => n,
                None => {
                    return Err(InstallError::NameExtraction);
                },
            }
        },
    };
    if name.len() == 0 {
        return Err(InstallError::NameExtraction);
    }
    let mut archive: Vec<u8> = Vec::new();
    push_all(&mut archive, &name);
    archive.push(('.' as u8));
    archive.push(('z' as u8));
    archive.push(('i' as u8));
    archive.push(('p' as u8));
    assert(archive@ =~= name@ + zip_suffix());
    Ok(ResolvedPaths { archive_file_name: archive, target_directory_name: name })
}

} // verus!
