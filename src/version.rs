use vstd::prelude::*;
use crate::text::{lemma_split_on_join, lemma_split_on_single, split_on, split_chars, to_chars, from_chars, chars_equal, trim, trim_chars};

verus! {

/// Why a version string could not be bumped.
#[derive(Debug, Clone, Copy, PartialEq, Eq)]
pub enum VersionError {
    /// The version does not read as `MAJOR.MINOR.PATCH[-suffix]`.
    InvalidVersionFormat,
    /// The bump kind is none of `major`, `minor`, `patch`.
    UnknownBumpType,
}

/// Which component of a semantic version is incremented.
#[derive(Debug, Clone, Copy, PartialEq, Eq)]
pub enum BumpKind {
    Major,
    Minor,
    Patch,
}

/// Whether `c` is an ASCII decimal digit.
pub open spec fn is_digit(c: char) -> bool {
    '0' <= c && c <= '9'
}

/// The value of an ASCII digit.
pub open spec fn digit_value(c: char) -> nat {
    (c as int - '0' as int) as nat
}

/// The character that writes the digit `d`.
pub open spec fn digit_char(d: nat) -> char {
    seq!['0', '1', '2', '3', '4', '5', '6', '7', '8', '9'][d as int]
}

/// The number written by a sequence of decimal digits (most significant first).
pub open spec fn digits_value(s: Seq<char>) -> nat
    decreases s.len(),
{
    if s.len() == 0 {
        0
    } else {
        digits_value(s.drop_last()) * 10 + digit_value(s.last())
    }
}

/// A non-empty run of digits whose value fits in `u32`, read as that value.
pub open spec fn parse_digits(s: Seq<char>) -> Option<nat> {
    if s.len() > 0 && (forall|i: int| 0 <= i < s.len() ==> is_digit(#[trigger] s[i]))
        && digits_value(s) <= u32::MAX {
        Some(digits_value(s))
    } else {
        None
    }
}

/// A component parses as a `u32` does: an optional leading `+`, then a non-empty run of
/// digits whose value fits in `u32`.
pub open spec fn parse_component(s: Seq<char>) -> Option<nat> {
    if s.len() > 0 && s[0] == '+' {
        parse_digits(s.drop_first())
    } else {
        parse_digits(s)
    }
}

/// The decimal writing of `n`, without leading zeros.
pub open spec fn decimal(n: nat) -> Seq<char>
    decreases n,
{
    if n < 10 {
        seq![digit_char(n)]
    } else {
        decimal(n / 10).push(digit_char(n % 10))
    }
}

/// Everything before the first `-`, or the whole string when it holds none.
pub open spec fn strip_suffix(s: Seq<char>) -> Seq<char>
    decreases s.len(),
{
    if s.len() == 0 {
        s
    } else if s[0] == '-' {
        Seq::empty()
    } else {
        seq![s[0]] + strip_suffix(s.drop_first())
    }
}

/// The three numeric components of a version, once its suffix is dropped.
pub open spec fn version_triple(v: Seq<char>) -> Option<(nat, nat, nat)> {
    let f = split_on(strip_suffix(v), '.');
    if f.len() == 3 && parse_component(f[0]) is Some && parse_component(f[1]) is Some
        && parse_component(f[2]) is Some {
        Some((parse_component(f[0])->0, parse_component(f[1])->0, parse_component(f[2])->0))
    } else {
        None
    }
}

/// The version that a bump of the given kind makes of the components `(a, b, c)`.
pub open spec fn bumped(t: (nat, nat, nat), kind: BumpKind) -> Seq<char> {
    match kind {
        BumpKind::Major => decimal(t.0 + 1) + "."@ + decimal(0) + "."@ + decimal(0),
        BumpKind::Minor => decimal(t.0) + "."@ + decimal(t.1 + 1) + "."@ + decimal(0),
        BumpKind::Patch => decimal(t.0) + "."@ + decimal(t.1) + "."@ + decimal(t.2 + 1),
    }
}

/// The bump kind named by `s`, if any.
pub open spec fn bump_kind_of(s: Seq<char>) -> Option<BumpKind> {
    if s == "major"@ {
        Some(BumpKind::Major)
    } else if s == "minor"@ {
        Some(BumpKind::Minor)
    } else if s == "patch"@ {
        Some(BumpKind::Patch)
    } else {
        None
    }
}

/// What `bump_semantic_version` returns on `v` and `kind`.
pub open spec fn bump_result(v: Seq<char>, kind: Seq<char>) -> Result<Seq<char>, VersionError> {
    match version_triple(v) {
        None => Err(VersionError::InvalidVersionFormat),
        Some(t) => match bump_kind_of(kind) {
            None => Err(VersionError::UnknownBumpType),
            Some(k) => Ok(bumped(t, k)),
        },
    }
}

proof fn lemma_digits_value_grows(s: Seq<char>, i: int, j: int)
    requires
        0 <= i <= j <= s.len(),
    ensures
        digits_value(s.take(i)) <= digits_value(s.take(j)),
    decreases j - i,
{
    if i < j {
        lemma_digits_value_grows(s, i, j - 1);
        assert(s.take(j).drop_last() =~= s.take(j - 1));
    }
}

fn digit_char_of(d: u64) -> (r: char)
    requires
        d < 10,
    ensures
        r == digit_char(d as nat),
{
    match d {
        0 => '0',
        1 => '1',
        2 => '2',
        3 => '3',
        4 => '4',
        5 => '5',
        6 => '6',
        7 => '7',
        8 => '8',
        _ => '9',
    }
}

/// Appends the decimal writing of `n`.
fn push_decimal(out: &mut Vec<char>, n: u64)
    ensures
        final(out)@ == old(out)@ + decimal(n as nat),
    decreases n,
{
    if n >= 10 {
        push_decimal(out, n / 10);
    }
    out.push(digit_char_of(n % 10));
    assert(final(out)@ =~= old(out)@ + decimal(n as nat));
}

/// Reads a version component as a number that fits in `u32`.
fn parse_component_exec(s: &Vec<char>) -> (r: Option<u64>)
    ensures
        r matches Some(x) ==> parse_component(s@) == Some(x as nat),
        r is None ==> parse_component(s@) is None,
{
    if s.len() > 0 && s[0] == '+' {
        let mut rest: Vec<char> = Vec::new();
        let mut i: usize = 1;
        while i < s.len()
            invariant
                1 <= i <= s.len(),
                rest@ == s@.subrange(1, i as int),
            decreases s.len() - i,
        {
            rest.push(s[i]);
            assert(rest@ =~= s@.subrange(1, i + 1));
            i = i + 1;
        }
        assert(rest@ =~= s@.drop_first());
        parse_digits_exec(&rest)
    } else {
        parse_digits_exec(s)
    }
}

/// Reads a run of digits as a number that fits in `u32`.
fn parse_digits_exec(s: &Vec<char>) -> (r: Option<u64>)
    ensures
        r matches Some(x) ==> parse_digits(s@) == Some(x as nat),
        r is None ==> parse_digits(s@) is None,
{
    if s.len() == 0 {
        return None;
    }
    let mut acc: u64 = 0;
    let mut i: usize = 0;
    while i < s.len()
        invariant
            0 <= i <= s.len(),
            acc as nat == digits_value(s@.take(i as int)),
            acc <= u32::MAX,
            forall|k: int| 0 <= k < i ==> is_digit(#[trigger] s@[k]),
        decreases s.len() - i,
    {
        let c = s[i];
        if !('0' <= c && c <= '9') {
            return None;
        }
        let d = (c as u32 - '0' as u32) as u64;
        assert(s@.take(i + 1).drop_last() =~= s@.take(i as int));
        acc = acc * 10 + d;
        i = i + 1;
        if acc > u32::MAX as u64 {
            proof {
                lemma_digits_value_grows(s@, i as int, s.len() as int);
                assert(s@.take(s.len() as int) =~= s@);
            }
            return None;
        }
    }
    assert(s@.take(s.len() as int) =~= s@);
    Some(acc)
}

proof fn lemma_strip_suffix(s: Seq<char>, k: int)
    requires
        0 <= k <= s.len(),
        forall|j: int| 0 <= j < k ==> s[j] != '-',
        k == s.len() || s[k] == '-',
    ensures
        strip_suffix(s) == s.take(k),
    decreases s.len(),
{
    if s.len() > 0 && k > 0 {
        lemma_strip_suffix(s.drop_first(), k - 1);
        assert(s.take(k) =~= seq![s[0]] + s.drop_first().take(k - 1));
    } else {
        assert(s.take(k) =~= Seq::<char>::empty());
    }
}

/// The characters before the first `-`.
fn strip_suffix_exec(s: &Vec<char>) -> (r: Vec<char>)
    ensures
        r@ == strip_suffix(s@),
{
    let mut out: Vec<char> = Vec::new();
    let mut i: usize = 0;
    while i < s.len() && s[i] != '-'
        invariant
            0 <= i <= s.len(),
            out@ == s@.take(i as int),
            forall|j: int| 0 <= j < i ==> s@[j] != '-',
        decreases s.len() - i,
    {
        out.push(s[i]);
        assert(out@ =~= s@.take(i + 1));
        i = i + 1;
    }
    proof {
        lemma_strip_suffix(s@, i as int);
    }
    out
}

/// Reads a bump kind: `major`, `minor` or `patch`.
pub fn parse_bump_kind(s: &str) -> (r: Option<BumpKind>)
    ensures
        r == bump_kind_of(s@),
{
    let c = to_chars(s);
    let major = to_chars("major");
    let minor = to_chars("minor");
    let patch = to_chars("patch");
    proof {
        reveal_strlit("major");
        reveal_strlit("minor");
        reveal_strlit("patch");
    }
    if chars_equal(&c, &major) {
        Some(BumpKind::Major)
    } else if chars_equal(&c, &minor) {
        Some(BumpKind::Minor)
    } else if chars_equal(&c, &patch) {
        Some(BumpKind::Patch)
    } else {
        None
    }
}

/// Bumps `version` (`MAJOR.MINOR.PATCH`, with an optional `-suffix` that is dropped)
/// by `bump_type`, one of `major`, `minor`, `patch`.
pub fn bump_semantic_version(version: &str, bump_type: &str) -> (r: Result<String, VersionError>)
    ensures
        r matches Ok(s) ==> bump_result(version@, bump_type@) == Ok::<Seq<char>, VersionError>(s@),
        r matches Err(e) ==> bump_result(version@, bump_type@) == Err::<Seq<char>, VersionError>(e),
{
    let chars = to_chars(version);
    let base = strip_suffix_exec(&chars);
    let parts = split_chars(&base, '.');
    if parts.len() != 3 {
        return Err(VersionError::InvalidVersionFormat);
    }
    let major = match parse_component_exec(&parts[0]) {
        Some(x) => x,
        None => return Err(VersionError::InvalidVersionFormat),
    };
    let minor = match parse_component_exec(&parts[1]) {
        Some(x) => x,
        None => return Err(VersionError::InvalidVersionFormat),
    };
    let patch = match parse_component_exec(&parts[2]) {
        Some(x) => x,
        None => return Err(VersionError::InvalidVersionFormat),
    };
    let kind = match parse_bump_kind(bump_type) {
        Some(k) => k,
        None => return Err(VersionError::UnknownBumpType),
    };
    let (a, b, c) = match kind {
        BumpKind::Major => (major + 1, 0u64, 0u64),
        BumpKind::Minor => (major, minor + 1, 0u64),
        BumpKind::Patch => (major, minor, patch + 1),
    };
    let mut out: Vec<char> = Vec::new();
    push_decimal(&mut out, a);
    out.push('.');
    push_decimal(&mut out, b);
    out.push('.');
    push_decimal(&mut out, c);
    proof {
        reveal_strlit(".");
        assert(out@ =~= bumped((major as nat, minor as nat, patch as nat), kind));
    }
    Ok(from_chars(&out))
}

/// Whether a `==` starts at index `k` of `s`.
pub open spec fn eqeq_at(s: Seq<char>, k: int) -> bool {
    0 <= k && k + 1 < s.len() && s[k] == '=' && s[k + 1] == '='
}

/// Whether `k` is where the first `==` of `s` starts.
pub open spec fn first_eqeq(s: Seq<char>, k: int) -> bool {
    eqeq_at(s, k) && forall|j: int| 0 <= j < k ==> !eqeq_at(s, j)
}

/// A specifier `name` or `name==version`, split at the first `==`: the trimmed name,
/// and the text after the `==` when there is some.
pub open spec fn spec_parts(s: Seq<char>) -> (Seq<char>, Option<Seq<char>>) {
    if exists|k: int| first_eqeq(s, k) {
        let k = choose|k: int| first_eqeq(s, k);
        let rest = s.skip(k + 2);
        (trim(s.take(k)), if rest.len() > 0 { Some(rest) } else { None })
    } else {
        (trim(s), None)
    }
}

/// Splits a package specifier into its name and its pinned version, if any.
pub fn parse_spec(input: &str) -> (r: (String, Option<String>))
    ensures
        r.0@ == spec_parts(input@).0,
        r.1 is Some <==> spec_parts(input@).1 is Some,
        r.1 matches Some(v) ==> spec_parts(input@).1 == Some(v@),
{
    let s = to_chars(input);
    let n = s.len();
    let mut k: usize = 0;
    while k < n && k + 1 < n && !(s[k] == '=' && s[k + 1] == '=')
        invariant
            0 <= k <= n,
            n == s.len(),
            forall|j: int| 0 <= j < k ==> !eqeq_at(s@, j),
        decreases n - k,
    {
        k = k + 1;
    }
    if k < n && k + 1 < n {
        assert(first_eqeq(s@, k as int));
        let ghost kk = choose|k: int| first_eqeq(s@, k);
        assert(kk == k as int) by {
            if kk < k {
            } else if kk > k {
                assert(!eqeq_at(s@, k as int));
            }
        }
        let name = trim_chars(&s, 0, k);
        assert(s@.subrange(0, k as int) =~= s@.take(k as int));
        let mut rest: Vec<char> = Vec::new();
        let mut i: usize = k + 2;
        while i < n
            invariant
                k + 2 <= i <= n,
                n == s.len(),
                rest@ == s@.subrange(k + 2, i as int),
            decreases n - i,
        {
            rest.push(s[i]);
            assert(rest@ =~= s@.subrange(k + 2, i + 1));
            i = i + 1;
        }
        assert(rest@ =~= s@.skip(k + 2));
        let version = if rest.len() > 0 {
            Some(from_chars(&rest))
        } else {
            None
        };
        (from_chars(&name), version)
    } else {
        assert(!exists|j: int| first_eqeq(s@, j)) by {
            if exists|j: int| first_eqeq(s@, j) {
                let j = choose|j: int| first_eqeq(s@, j);
                assert(eqeq_at(s@, j));
            }
        }
        let name = trim_chars(&s, 0, n);
        assert(s@.subrange(0, n as int) =~= s@);
        (from_chars(&name), None)
    }
}

proof fn lemma_decimal(n: nat)
    ensures
        decimal(n).len() > 0,
        forall|i: int| 0 <= i < decimal(n).len() ==> is_digit(#[trigger] decimal(n)[i]),
        digits_value(decimal(n)) == n,
    decreases n,
{
    let d = n % 10;
    assert(is_digit(digit_char(d)) && digit_value(digit_char(d)) == d) by {
        if d == 0 {} else if d == 1 {} else if d == 2 {} else if d == 3 {} else if d == 4 {}
        else if d == 5 {} else if d == 6 {} else if d == 7 {} else if d == 8 {} else {}
    }
    if n >= 10 {
        lemma_decimal(n / 10);
        let s = decimal(n);
        assert(s.drop_last() =~= decimal(n / 10));
        assert(s.last() == digit_char(d));
        vstd::arithmetic::div_mod::lemma_fundamental_div_mod(n as int, 10);
        assert(digits_value(s) == digits_value(decimal(n / 10)) * 10 + d);
        assert forall|i: int| 0 <= i < s.len() implies is_digit(#[trigger] s[i]) by {
            if i < s.len() - 1 {
                assert(s[i] == decimal(n / 10)[i]);
            }
        }
    } else {
        assert(decimal(n).drop_last() =~= Seq::<char>::empty());
        assert(digits_value(Seq::<char>::empty()) == 0);
        assert(decimal(n).last() == digit_char(d));
    }
}

proof fn lemma_strip_suffix_none(s: Seq<char>)
    requires
        forall|i: int| 0 <= i < s.len() ==> s[i] != '-',
    ensures
        strip_suffix(s) == s,
    decreases s.len(),
{
    if s.len() > 0 {
        lemma_strip_suffix_none(s.drop_first());
        assert(seq![s[0]] + s.drop_first() =~= s);
    }
}

/// The version `a.b.c` written out.
pub open spec fn written(t: (nat, nat, nat)) -> Seq<char> {
    decimal(t.0) + "."@ + decimal(t.1) + "."@ + decimal(t.2)
}

/// What a bump of the given kind makes of the components.
pub open spec fn bumped_triple(t: (nat, nat, nat), kind: BumpKind) -> (nat, nat, nat) {
    match kind {
        BumpKind::Major => (t.0 + 1, 0, 0),
        BumpKind::Minor => (t.0, t.1 + 1, 0),
        BumpKind::Patch => (t.0, t.1, t.2 + 1),
    }
}

/// A version written out from components that fit in `u32` reads back as those components.
pub proof fn lemma_written_reads_back(t: (nat, nat, nat))
    requires
        t.0 <= u32::MAX,
        t.1 <= u32::MAX,
        t.2 <= u32::MAX,
    ensures
        version_triple(written(t)) == Some(t),
{
    reveal_strlit(".");
    let (a, b, c) = (decimal(t.0), decimal(t.1), decimal(t.2));
    lemma_decimal(t.0);
    lemma_decimal(t.1);
    lemma_decimal(t.2);
    let w = written(t);
    assert(w =~= a + seq!['.'] + b + seq!['.'] + c);
    assert forall|i: int| 0 <= i < a.len() implies a[i] != '.' && a[i] != '-' by {
        assert(is_digit(a[i]));
    }
    assert forall|i: int| 0 <= i < b.len() implies b[i] != '.' && b[i] != '-' by {
        assert(is_digit(b[i]));
    }
    assert forall|i: int| 0 <= i < c.len() implies c[i] != '.' && c[i] != '-' by {
        assert(is_digit(c[i]));
    }
    assert forall|i: int| 0 <= i < w.len() implies w[i] != '-' by {
        if i < a.len() {
            assert(w[i] == a[i]);
        } else if i == a.len() {
        } else if i < a.len() + 1 + b.len() {
            assert(w[i] == b[i - a.len() - 1]);
        } else if i == a.len() + 1 + b.len() {
        } else {
            assert(w[i] == c[i - a.len() - 2 - b.len()]);
        }
    }
    lemma_strip_suffix_none(w);
    lemma_split_on_single(a, '.');
    lemma_split_on_join(a, b, '.');
    lemma_split_on_join(a + seq!['.'] + b, c, '.');
    assert(split_on(w, '.') =~= seq![a, b, c]);
}

/// A bump of a well-formed version changes only the component it names, by one, resets
/// those after it, and drops the suffix: the result reads back as the bumped components.
pub proof fn lemma_bump_round_trip(v: Seq<char>, kind: Seq<char>)
    requires
        version_triple(v) is Some,
        bump_kind_of(kind) is Some,
        bumped_triple(version_triple(v)->0, bump_kind_of(kind)->0).0 <= u32::MAX,
        bumped_triple(version_triple(v)->0, bump_kind_of(kind)->0).1 <= u32::MAX,
        bumped_triple(version_triple(v)->0, bump_kind_of(kind)->0).2 <= u32::MAX,
    ensures
        bump_result(v, kind) is Ok,
        bump_result(v, kind)->Ok_0 == written(
            bumped_triple(version_triple(v)->0, bump_kind_of(kind)->0),
        ),
        version_triple(bump_result(v, kind)->Ok_0) == Some(
            bumped_triple(version_triple(v)->0, bump_kind_of(kind)->0),
        ),
{
    let t = version_triple(v)->0;
    let k = bump_kind_of(kind)->0;
    assert(decimal(0) == seq!['0']);
    assert(bumped(t, k) == written(bumped_triple(t, k)));
    lemma_written_reads_back(bumped_triple(t, k));
}

/// Bumping the patch of a well-formed version keeps its major and minor, adds one to
/// its patch and drops its suffix.
pub proof fn lemma_bump_patch(v: Seq<char>)
    requires
        version_triple(v) is Some,
        (version_triple(v)->0).2 < u32::MAX,
    ensures
        bump_result(v, "patch"@) == Ok::<Seq<char>, VersionError>(
            written(bumped_triple(version_triple(v)->0, BumpKind::Patch)),
        ),
        version_triple(bump_result(v, "patch"@)->Ok_0) == Some(
            bumped_triple(version_triple(v)->0, BumpKind::Patch),
        ),
{
    reveal_strlit("patch");
    reveal_strlit("major");
    reveal_strlit("minor");
    assert("patch"@ != "major"@) by {
        assert("patch"@[0] != "major"@[0]);
    }
    assert("patch"@ != "minor"@) by {
        assert("patch"@[0] != "minor"@[0]);
    }
    assert(bump_kind_of("patch"@) == Some(BumpKind::Patch));
    lemma_bump_round_trip(v, "patch"@);
}

} // verus!
