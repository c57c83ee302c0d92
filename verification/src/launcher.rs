//! Launching the installed server in a detached session: the fixed-priority
//! choice of launch script, the session's name, and the exact shell command
//! the session is handed. Probing for the session tool and spawning it are
//! the caller's process work.

use vstd::prelude::*;
use crate::error::InstallError;
use crate::bytes::push_all;

verus! {

/// The primary launch-script candidate: `start.sh`.
pub open spec fn spec_primary_script() -> Seq<u8> {
    seq![
        ('s' as u8),
        ('t' as u8),
        ('a' as u8),
        ('r' as u8),
        ('t' as u8),
        ('.' as u8),
        ('s' as u8),
        ('h' as u8),
    ]
}

/// The fallback launch-script candidate: `launch.sh`.
pub open spec fn spec_fallback_script() -> Seq<u8> {
    seq![
        ('l' as u8),
        ('a' as u8),
        ('u' as u8),
        ('n' as u8),
        ('c' as u8),
        ('h' as u8),
        ('.' as u8),
        ('s' as u8),
        ('h' as u8),
    ]
}

/// Choose the launch script in fixed priority order from what exists in the
/// target directory: the primary name wins, the fallback is taken only when
/// the primary is absent, and neither existing is the launch-script error.
pub fn pick_launch_script(primary_exists: bool, fallback_exists: bool) -> (r: Result<
    Vec<u8>,
    InstallError,
>)
    ensures
        match r {
            Ok(s) => (primary_exists && s@ == spec_primary_script()) || (!primary_exists
                && fallback_exists && s@ == spec_fallback_script()),
            Err(e) => e == InstallError::LaunchScriptMissing && !primary_exists
                && !fallback_exists,
        },
{
    if primary_exists {
        let mut s: Vec<u8> = Vec::new();
        s.push('s' as u8);
        s.push('t' as u8);
        s.push('a' as u8);
        s.push('r' as u8);
        s.push('t' as u8);
        s.push('.' as u8);
        s.push('s' as u8);
        s.push('h' as u8);
        assert(s@ =~= spec_primary_script());
        Ok(s)
    } else if fallback_exists {
        let mut s: Vec<u8> = Vec::new();
        s.push('l' as u8);
        s.push('a' as u8);
        s.push('u' as u8);
        s.push('n' as u8);
        s.push('c' as u8);
        s.push('h' as u8);
        s.push('.' as u8);
        s.push('s' as u8);
        s.push('h' as u8);
        assert(s@ =~= spec_fallback_script());
        Ok(s)
    } else {
        Err(InstallError::LaunchScriptMissing)
    }
}

/// The decimal digits of `n`, most significant first.
pub open spec fn spec_decimal(n: nat) -> Seq<u8>
    decreases n,
{
    if n < 10 {
        seq![(('0' as u8) + n) as u8]
    } else {
        spec_decimal(n / 10) + seq![(('0' as u8) + n % 10) as u8]
    }
}

/// Append the decimal digits of `n` to `out`.
pub fn push_decimal(n: u32, out: &mut Vec<u8>)
    ensures
        final(out)@ == old(out)@ + spec_decimal(n as nat),
    decreases n,
{
    if n >= 10 {
        push_decimal(n / 10, out);
    }
    let d: u8 = (n % 10) as u8;
    out.push(('0' as u8) + d);
    assert(out@ =~= old(out)@ + spec_decimal(n as nat));
}

/// The session-name prefix `mcmpi-`.
pub open spec fn spec_session_prefix() -> Seq<u8> {
    seq![('m' as u8), ('c' as u8), ('m' as u8), ('p' as u8), ('i' as u8), ('-' as u8)]
}

/// The session name a suffix decides: the fixed prefix and the suffix's
/// decimal digits. Distinct suffixes give distinct names, so the random
/// suffix keeps concurrent sessions from silently merging.
pub open spec fn spec_session_name(n: nat) -> Seq<u8> {
    spec_session_prefix() + spec_decimal(n)
}

/// The decimal rendering determines its value: equal digit strings come from
/// equal numbers.
proof fn lemma_decimal_injective(m: nat, n: nat)
    requires
        spec_decimal(m) == spec_decimal(n),
    ensures
        m == n,
    decreases m,
{
    lemma_decimal_shape(m);
    lemma_decimal_shape(n);
    if m < 10 && n < 10 {
        assert(spec_decimal(m)[0] == (('0' as u8) + m) as u8);
        assert(spec_decimal(n)[0] == (('0' as u8) + n) as u8);
        assert((('0' as u8) + m) as u8 == ('0' as u8) + m);
        assert((('0' as u8) + n) as u8 == ('0' as u8) + n);
    } else if m >= 10 && n >= 10 {
        assert(m % 10 < 10 && n % 10 < 10) by (nonlinear_arith);
        assert(spec_decimal(m).last() == (('0' as u8) + m % 10) as u8);
        assert(spec_decimal(n).last() == (('0' as u8) + n % 10) as u8);
        assert((('0' as u8) + m % 10) as u8 == ('0' as u8) + m % 10);
        assert((('0' as u8) + n % 10) as u8 == ('0' as u8) + n % 10);
        assert(m % 10 == n % 10);
        assert(spec_decimal(m).drop_last() =~= spec_decimal(m / 10));
        assert(spec_decimal(n).drop_last() =~= spec_decimal(n / 10));
        lemma_decimal_injective(m / 10, n / 10);
        assert(m == 10 * (m / 10) + m % 10) by (nonlinear_arith);
        assert(n == 10 * (n / 10) + n % 10) by (nonlinear_arith);
    } else {
        assert(spec_decimal(m).len() == spec_decimal(n).len());
        assert(false);
    }
}

/// A number below ten renders as one digit, a larger one as its leading
/// digits followed by one more.
proof fn lemma_decimal_shape(n: nat)
    ensures
        n < 10 ==> spec_decimal(n).len() == 1,
        n >= 10 ==> spec_decimal(n).len() >= 2,
    decreases n,
{
    if n >= 10 {
        lemma_decimal_shape(n / 10);
    }
}

/// Session names never collide: distinct suffixes give distinct names, so
/// two runs handed different random values can never silently share one
/// session.
pub proof fn lemma_session_names_distinct(m: nat, n: nat)
    requires
        m != n,
    ensures
        spec_session_name(m) != spec_session_name(n),
{
    if spec_session_name(m) == spec_session_name(n) {
        assert(spec_session_prefix().len() == 6);
        assert(spec_decimal(m) =~= spec_decimal(n)) by {
            assert(spec_decimal(m).len() == spec_session_name(m).len() - 6);
            assert(spec_decimal(n).len() == spec_session_name(n).len() - 6);
            assert forall|i: int| 0 <= i < spec_decimal(m).len() implies spec_decimal(m)[i]
                == spec_decimal(n)[i] by {
                assert(spec_session_name(m)[i + 6] == spec_decimal(m)[i]);
                assert(spec_session_name(n)[i + 6] == spec_decimal(n)[i]);
            }
        }
        lemma_decimal_injective(m, n);
    }
}

/// Build the session name for a given suffix.
pub fn session_name(n: u32) -> (r: Vec<u8>)
    ensures
        r@ == spec_session_name(n as nat),
{
    let mut r: Vec<u8> = Vec::new();
    r.push('m' as u8);
    r.push('c' as u8);
    r.push('m' as u8);
    r.push('p' as u8);
    r.push('i' as u8);
    r.push('-' as u8);
    assert(r@ =~= spec_session_prefix());
    push_decimal(n, &mut r);
    r
}

/// Relies on `rand::random`: a 32-bit value from the thread-local generator.
/// The result is random, so nothing is promised of its value.
#[verifier::external_body]
fn random_suffix() -> u32 {
    rand::random::<u32>()
}

/// A session name for this run: the fixed prefix with a random decimal
/// suffix.
pub fn fresh_session_name() -> (r: Vec<u8>)
    ensures
        exists|n: nat| r@ == spec_session_name(n),
{
    let n = random_suffix();
    let r = session_name(n);
    proof {
        assert(r@ == spec_session_name(n as nat));
    }
    r
}

/// The shell command the detached session is handed, exactly as the
/// installer has always issued it: change into the target directory, mark
/// the chosen script executable, and run it; the trailing backslash-n wakes
/// the session's line reader.
pub open spec fn spec_launch_command(dir: Seq<u8>, script: Seq<u8>) -> Seq<u8> {
    seq![('c' as u8), ('d' as u8), (' ' as u8)] + dir + seq![
        ('&' as u8),
        ('&' as u8),
        ('c' as u8),
        ('h' as u8),
        ('m' as u8),
        ('o' as u8),
        ('d' as u8),
        (' ' as u8),
        ('+' as u8),
        ('x' as u8),
        (' ' as u8),
        ('.' as u8),
        ('/' as u8),
    ] + script + seq![('&' as u8), ('&' as u8), ('.' as u8), ('/' as u8)] + script + seq![
        ('\\' as u8),
        ('n' as u8),
    ]
}

/// Build the session's shell command.
pub fn launch_command(dir: &Vec<u8>, script: &Vec<u8>) -> (r: Vec<u8>)
    ensures
        r@ == spec_launch_command(dir@, script@),
{
    let mut r: Vec<u8> = Vec::new();
    r.push('c' as u8);
    r.push('d' as u8);
    r.push(' ' as u8);
    push_all(&mut r, dir);
    r.push('&' as u8);
    r.push('&' as u8);
    r.push('c' as u8);
    r.push('h' as u8);
    r.push('m' as u8);
    r.push('o' as u8);
    r.push('d' as u8);
    r.push(' ' as u8);
    r.push('+' as u8);
    r.push('x' as u8);
    r.push(' ' as u8);
    r.push('.' as u8);
    r.push('/' as u8);
    push_all(&mut r, script);
    r.push('&' as u8);
    r.push('&' as u8);
    r.push('.' as u8);
    r.push('/' as u8);
    push_all(&mut r, script);
    r.push('\\' as u8);
    r.push('n' as u8);
    assert(r@ =~= spec_launch_command(dir@, script@));
    r
}

} // verus!
