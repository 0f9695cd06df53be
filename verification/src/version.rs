//! Type-safe schema version for `.shapes/` stores: a parsed
//! `major.minor.patch` triple with numeric ordering.

use vstd::prelude::*;
use crate::issues::append_str;
use crate::text::{chars_of, dec, digit_char, owned, u64_to_string};
use vstd::string::*;

verus! {

/// Why a decimal component failed to parse (mirrors the kinds of
/// `std::num::IntErrorKind` that an unsigned parse can produce).
#[derive(Debug, Clone, Copy, PartialEq, Eq, Structural)]
pub enum IntErrorKind {
    /// The component was empty.
    Empty,
    /// The component contained a character that is not a decimal digit.
    InvalidDigit,
    /// The component's value does not fit in a `u32`.
    PosOverflow,
}

/// Errors returned when parsing a [`StoreVersion`] from a string.
#[derive(Debug, Clone, PartialEq, Eq)]
pub enum StoreVersionParseError {
    /// The input did not contain exactly three dot-separated components.
    InvalidShape {
        /// The raw input that failed to parse.
        input: String,
    },
    /// One of the components was not a valid non-negative integer.
    InvalidComponent {
        /// The raw input that failed to parse.
        input: String,
        /// Which component failed: `major`, `minor`, or `patch`.
        component: &'static str,
        /// Why the component failed to parse.
        kind: IntErrorKind,
    },
}

/// A parsed `major.minor.patch` store schema version. Ordering is
/// lexicographic over `(major, minor, patch)`, numerically per component.
#[derive(Debug, Clone, Copy, PartialEq, Eq, Structural, PartialOrd, Ord, Hash)]
pub struct StoreVersion {
    /// Major version component.
    pub major: u32,
    /// Minor version component.
    pub minor: u32,
    /// Patch version component.
    pub patch: u32,
}

/// Abstract outcome of a version parse: the triple, or which error arose.
pub enum VersionParse {
    /// Parsed successfully.
    Parsed(u32, u32, u32),
    /// Wrong number of dot-separated components.
    BadShape,
    /// The component at `index` (0 = major, 1 = minor, 2 = patch) failed.
    BadComponent(int, IntErrorKind),
}

/// Whether `c` is an ASCII decimal digit.
pub open spec fn is_digit(c: char) -> bool {
    '0' <= c && c <= '9'
}

/// The numeric value of an ASCII digit.
pub open spec fn digit_value(c: char) -> nat {
    (c as int - 48) as nat
}

/// Left-to-right decimal accumulation as `u32::from_str` performs it:
/// the first non-digit is reported, and any prefix value above
/// `u32::MAX` is an overflow.
pub open spec fn parse_digits(d: Seq<char>, acc: nat) -> Result<nat, IntErrorKind>
    decreases d.len(),
{
    if d.len() == 0 {
        Ok(acc)
    } else if !is_digit(d[0]) {
        Err(IntErrorKind::InvalidDigit)
    } else if acc * 10 + digit_value(d[0]) > u32::MAX {
        Err(IntErrorKind::PosOverflow)
    } else {
        parse_digits(d.drop_first(), acc * 10 + digit_value(d[0]))
    }
}

/// The result `str::parse::<u32>` gives on `s`: an optional leading `+`,
/// then at least one decimal digit.
pub open spec fn parse_u32_spec(s: Seq<char>) -> Result<nat, IntErrorKind> {
    if s.len() == 0 {
        Err(IntErrorKind::Empty)
    } else if s.len() == 1 && (s[0] == '+' || s[0] == '-') {
        Err(IntErrorKind::InvalidDigit)
    } else if s[0] == '+' {
        parse_digits(s.drop_first(), 0)
    } else {
        parse_digits(s, 0)
    }
}

/// Splits `s` at every occurrence of `sep` (as `str::split` does: `n`
/// separators give `n + 1` pieces, empty pieces included).
pub open spec fn split_on(s: Seq<char>, sep: char) -> Seq<Seq<char>>
    decreases s.len(),
{
    if s.len() == 0 {
        seq![Seq::<char>::empty()]
    } else {
        let p = split_on(s.drop_last(), sep);
        if s.last() == sep {
            p.push(Seq::<char>::empty())
        } else {
            p.update(p.len() - 1, p.last().push(s.last()))
        }
    }
}

/// Every split has at least one piece.
pub proof fn lemma_split_nonempty(s: Seq<char>, sep: char)
    ensures
        split_on(s, sep).len() >= 1,
    decreases s.len(),
{
    if s.len() > 0 {
        lemma_split_nonempty(s.drop_last(), sep);
    }
}

/// The outcome of parsing `s` as a store version: parse the first
/// three dot-separated components in order, then reject leftovers.
pub open spec fn parse_version_spec(s: Seq<char>) -> VersionParse {
    let parts = split_on(s, '.');
    match parse_u32_spec(parts[0]) {
        Err(k) => VersionParse::BadComponent(0, k),
        Ok(major) => if parts.len() < 2 {
            VersionParse::BadShape
        } else {
            match parse_u32_spec(parts[1]) {
                Err(k) => VersionParse::BadComponent(1, k),
                Ok(minor) => if parts.len() < 3 {
                    VersionParse::BadShape
                } else {
                    match parse_u32_spec(parts[2]) {
                        Err(k) => VersionParse::BadComponent(2, k),
                        Ok(patch) => if parts.len() > 3 {
                            VersionParse::BadShape
                        } else {
                            VersionParse::Parsed(major as u32, minor as u32, patch as u32)
                        },
                    }
                },
            }
        },
    }
}

/// The name of component `i` in error reports.
pub open spec fn component_name(i: int) -> Seq<char> {
    if i == 0 {
        "major"@
    } else if i == 1 {
        "minor"@
    } else {
        "patch"@
    }
}

/// How an exec parse result relates to the abstract outcome on `input`.
pub open spec fn parse_result_matches(
    input: Seq<char>,
    r: Result<StoreVersion, StoreVersionParseError>,
) -> bool {
    match (parse_version_spec(input), r) {
        (VersionParse::Parsed(a, b, c), Ok(v)) => v.major == a && v.minor == b && v.patch == c,
        (VersionParse::BadShape, Err(StoreVersionParseError::InvalidShape { input: i })) => i@
            == input,
        (
            VersionParse::BadComponent(n, k),
            Err(StoreVersionParseError::InvalidComponent { input: i, component, kind }),
        ) => i@ == input && component@ == component_name(n) && kind == k,
        _ => false,
    }
}

/// `major.minor.patch` rendering of a version.
pub open spec fn version_text(v: StoreVersion) -> Seq<char> {
    dec(v.major as nat) + "."@ + dec(v.minor as nat) + "."@ + dec(v.patch as nat)
}

/// Strict lexicographic order on versions.
pub open spec fn version_lt(a: StoreVersion, b: StoreVersion) -> bool {
    a.major < b.major || (a.major == b.major && (a.minor < b.minor || (a.minor == b.minor
        && a.patch < b.patch)))
}

/// Parses a `u32` from decimal characters, as `str::parse::<u32>` does.
pub fn parse_u32(s: &Vec<char>) -> (r: Result<u32, IntErrorKind>)
    ensures
        match (r, parse_u32_spec(s@)) {
            (Ok(v), Ok(n)) => v == n,
            (Err(k), Err(k2)) => k == k2,
            _ => false,
        },
{
    if s.len() == 0 {
        return Err(IntErrorKind::Empty);
    }
    if s.len() == 1 && (s[0] == '+' || s[0] == '-') {
        return Err(IntErrorKind::InvalidDigit);
    }
    let start: usize = if s[0] == '+' { 1 } else { 0 };
    let ghost d = if s@[0] == '+' { s@.drop_first() } else { s@ };
    assert(d =~= s@.skip(start as int));
    assert(s@.skip(0) =~= s@);
    let mut acc: u32 = 0;
    let mut i: usize = start;
    while i < s.len()
        invariant
            start <= i <= s.len(),
            d =~= s@.skip(start as int),
            parse_u32_spec(s@) == parse_digits(d, 0),
            parse_digits(d, 0) == parse_digits(s@.skip(i as int), acc as nat),
        decreases s.len() - i,
    {
        let c = s[i];
        assert(s@.skip(i as int)[0] == c);
        if !('0' <= c && c <= '9') {
            return Err(IntErrorKind::InvalidDigit);
        }
        let dv: u32 = (c as u32) - 48;
        assert(dv == digit_value(c));
        if acc > 429496729 || (acc == 429496729 && dv > 5) {
            assert(acc * 10 + digit_value(c) > u32::MAX) by (nonlinear_arith)
                requires
                    acc > 429496729 || (acc == 429496729 && dv > 5),
                    dv == digit_value(c),
            ;
            return Err(IntErrorKind::PosOverflow);
        }
        assert(acc * 10 + dv <= u32::MAX) by (nonlinear_arith)
            requires
                acc <= 429496729,
                acc < 429496729 || dv <= 5,
                dv <= 9,
        ;
        assert(s@.skip(i as int).drop_first() =~= s@.skip((i + 1) as int));
        acc = acc * 10 + dv;
        i = i + 1;
    }
    assert(s@.skip(i as int).len() == 0);
    Ok(acc)
}

/// Splits a character vector at every `sep`.
pub fn split_chars(s: &Vec<char>, sep: char) -> (parts: Vec<Vec<char>>)
    ensures
        parts@.len() == split_on(s@, sep).len(),
        forall|i: int| 0 <= i < parts@.len() ==> #[trigger] parts@[i]@ == split_on(s@, sep)[i],
{
    let mut parts: Vec<Vec<char>> = Vec::new();
    parts.push(Vec::new());
    let mut i: usize = 0;
    assert(s@.take(0) =~= Seq::<char>::empty());
    while i < s.len()
        invariant
            i <= s.len(),
            parts@.len() == split_on(s@.take(i as int), sep).len(),
            parts@.len() >= 1,
            forall|j: int|
                0 <= j < parts@.len() ==> #[trigger] parts@[j]@ == split_on(
                    s@.take(i as int),
                    sep,
                )[j],
        decreases s.len() - i,
    {
        let c = s[i];
        let ghost prev = s@.take(i as int);
        assert(s@.take((i + 1) as int).drop_last() =~= prev);
        assert(s@.take((i + 1) as int).last() == c);
        if c == sep {
            parts.push(Vec::new());
        } else {
            let last = parts.len() - 1;
            let mut piece = parts.pop().unwrap();
            piece.push(c);
            parts.push(piece);
            assert(parts@.len() == split_on(prev, sep).len());
            assert forall|j: int| 0 <= j < parts@.len() implies #[trigger] parts@[j]@
                == split_on(s@.take((i + 1) as int), sep)[j] by {
                if j == last {
                } else {
                }
            }
        }
        i = i + 1;
    }
    assert(s@.take(s.len() as int) =~= s@);
    parts
}

impl StoreVersion {
    /// Constructs a [`StoreVersion`] from its three components.
    pub fn new(major: u32, minor: u32, patch: u32) -> (r: Self)
        ensures
            r.major == major,
            r.minor == minor,
            r.patch == patch,
    {
        StoreVersion { major, minor, patch }
    }

    /// Parses `major.minor.patch`. Each component is parsed as
    /// `str::parse::<u32>` would; a missing or extra component is an
    /// [`StoreVersionParseError::InvalidShape`].
    pub fn parse(s: &str) -> (r: Result<StoreVersion, StoreVersionParseError>)
        ensures
            parse_result_matches(s@, r),
    {
        let chars = chars_of(s);
        let parts = split_chars(&chars, '.');
        proof {
            lemma_split_nonempty(s@, '.');
        }
        let major = match parse_u32(&parts[0]) {
            Ok(v) => v,
            Err(kind) => {
                return Err(
                    StoreVersionParseError::InvalidComponent {
                        input: owned(s),
                        component: "major",
                        kind,
                    },
                );
            },
        };
        if parts.len() < 2 {
            return Err(StoreVersionParseError::InvalidShape { input: owned(s) });
        }
        let minor = match parse_u32(&parts[1]) {
            Ok(v) => v,
            Err(kind) => {
                return Err(
                    StoreVersionParseError::InvalidComponent {
                        input: owned(s),
                        component: "minor",
                        kind,
                    },
                );
            },
        };
        if parts.len() < 3 {
            return Err(StoreVersionParseError::InvalidShape { input: owned(s) });
        }
        let patch = match parse_u32(&parts[2]) {
            Ok(v) => v,
            Err(kind) => {
                return Err(
                    StoreVersionParseError::InvalidComponent {
                        input: owned(s),
                        component: "patch",
                        kind,
                    },
                );
            },
        };
        if parts.len() > 3 {
            return Err(StoreVersionParseError::InvalidShape { input: owned(s) });
        }
        Ok(StoreVersion::new(major, minor, patch))
    }

    /// Renders the version as `major.minor.patch`.
    pub fn to_string(&self) -> (r: String)
        ensures
            r@ == version_text(*self),
    {
        let mut r = u64_to_string(self.major as u64);
        r.append(".");
        let m = u64_to_string(self.minor as u64);
        r.append(m.as_str());
        r.append(".");
        let p = u64_to_string(self.patch as u64);
        r.append(p.as_str());
        r
    }

    /// Whether `self` orders strictly before `other`.
    pub fn is_older_than(&self, other: &StoreVersion) -> (r: bool)
        ensures
            r == version_lt(*self, *other),
    {
        self.major < other.major || (self.major == other.major && (self.minor < other.minor || (
        self.minor == other.minor && self.patch < other.patch)))
    }
}

impl std::str::FromStr for StoreVersion {
    type Err = StoreVersionParseError;

    fn from_str(s: &str) -> (r: Result<Self, Self::Err>)
        ensures
            parse_result_matches(s@, r),
    {
        StoreVersion::parse(s)
    }
}

/// The store schema version this library reads and writes.
pub fn current_store_version() -> (r: StoreVersion)
    ensures
        r.major == 0 && r.minor == 2 && r.patch == 0,
{
    StoreVersion::new(0, 2, 0)
}

/// The description of an integer parse failure, as `ParseIntError`
/// renders it.
pub open spec fn int_error_text(k: IntErrorKind) -> Seq<char> {
    match k {
        IntErrorKind::Empty => "cannot parse integer from empty string"@,
        IntErrorKind::InvalidDigit => "invalid digit found in string"@,
        IntErrorKind::PosOverflow => "number too large to fit in target type"@,
    }
}

/// The message of a version parse failure.
pub open spec fn parse_error_text(e: StoreVersionParseError) -> Seq<char> {
    match e {
        StoreVersionParseError::InvalidShape { input } => "invalid store version '"@ + input@
            + "': expected three dot-separated components (major.minor.patch)"@,
        StoreVersionParseError::InvalidComponent { input, component, kind } => "invalid store version '"@
            + input@ + "': "@ + component@ + " component is not a number ("@ + int_error_text(kind) + ")"@,
    }
}

impl StoreVersionParseError {
    /// The error message.
    pub fn message(&self) -> (r: String)
        ensures
            r@ == parse_error_text(*self),
    {
        proof {
            reveal_strlit("invalid store version '");
            reveal_strlit("': expected three dot-separated components (major.minor.patch)");
            reveal_strlit("': ");
            reveal_strlit(" component is not a number (");
            reveal_strlit(")");
            reveal_strlit("cannot parse integer from empty string");
            reveal_strlit("invalid digit found in string");
            reveal_strlit("number too large to fit in target type");
        }
        match self {
            StoreVersionParseError::InvalidShape { input } => {
                let mut m = owned("invalid store version '");
                append_str(&mut m, input.as_str());
                append_str(&mut m, "': expected three dot-separated components (major.minor.patch)");
                m
            },
            StoreVersionParseError::InvalidComponent { input, component, kind } => {
                let mut m = owned("invalid store version '");
                append_str(&mut m, input.as_str());
                append_str(&mut m, "': ");
                append_str(&mut m, component);
                append_str(&mut m, " component is not a number (");
                match kind {
                    IntErrorKind::Empty => append_str(&mut m, "cannot parse integer from empty string"),
                    IntErrorKind::InvalidDigit => append_str(&mut m, "invalid digit found in string"),
                    IntErrorKind::PosOverflow => append_str(&mut m, "number too large to fit in target type"),
                }
                append_str(&mut m, ")");
                m
            },
        }
    }
}

/// Every character of a decimal rendering is a digit, and it is never
/// empty.
pub proof fn lemma_dec_digits(n: nat)
    ensures
        dec(n).len() >= 1,
        forall|i: int| 0 <= i < dec(n).len() ==> is_digit(#[trigger] dec(n)[i]),
    decreases n,
{
    if n >= 10 {
        lemma_dec_digits(n / 10);
        let d = (n % 10) as nat;
        assert(is_digit(digit_char(d)));
        assert forall|i: int| 0 <= i < dec(n).len() implies is_digit(#[trigger] dec(n)[i]) by {
            if i < dec(n / 10).len() {
                assert(dec(n)[i] == dec(n / 10)[i]);
            }
        }
    }
}

/// One more digit after a successful parse shifts the value by ten.
proof fn lemma_parse_digits_push(s: Seq<char>, c: char, acc: nat, m: nat)
    requires
        parse_digits(s, acc) == Ok::<nat, IntErrorKind>(m),
        is_digit(c),
        m * 10 + digit_value(c) <= u32::MAX,
    ensures
        parse_digits(s.push(c), acc) == Ok::<nat, IntErrorKind>(m * 10 + digit_value(c)),
    decreases s.len(),
{
    if s.len() == 0 {
        reveal_with_fuel(parse_digits, 2);
        assert(seq![c].drop_first() =~= Seq::<char>::empty());
        assert(s.push(c) =~= seq![c]);
        assert(m == acc);
    } else {
        assert(s.push(c).drop_first() =~= s.drop_first().push(c));
        assert(s.push(c)[0] == s[0]);
        lemma_parse_digits_push(s.drop_first(), c, acc * 10 + digit_value(s[0]), m);
    }
}

/// The decimal rendering of a `u32` value parses back to it.
pub proof fn lemma_parse_dec(n: nat)
    requires
        n <= u32::MAX,
    ensures
        parse_digits(dec(n), 0) == Ok::<nat, IntErrorKind>(n),
    decreases n,
{
    if n < 10 {
        reveal_with_fuel(parse_digits, 2);
        assert(digit_value(digit_char(n)) == n);
        assert(seq![digit_char(n)].drop_first() =~= Seq::<char>::empty());
    } else {
        let q = n / 10;
        let r = (n % 10) as nat;
        assert(q * 10 + r == n) by (nonlinear_arith)
            requires
                q == n / 10,
                r == n % 10,
        ;
        lemma_parse_dec(q);
        assert(digit_value(digit_char(r)) == r);
        lemma_parse_digits_push(dec(q), digit_char(r), 0, q);
    }
}

/// Appending characters other than `sep` extends the last piece.
proof fn lemma_split_extend(p: Seq<char>, y: Seq<char>, sep: char)
    requires
        !y.contains(sep),
    ensures
        split_on(p + y, sep) == split_on(p, sep).update(
            split_on(p, sep).len() - 1,
            split_on(p, sep).last() + y,
        ),
    decreases y.len(),
{
    lemma_split_nonempty(p, sep);
    if y.len() == 0 {
        assert(p + y =~= p);
        assert(split_on(p, sep).last() + y =~= split_on(p, sep).last());
        assert(split_on(p, sep).update(split_on(p, sep).len() - 1, split_on(p, sep).last())
            =~= split_on(p, sep));
    } else {
        let y2 = y.drop_last();
        assert(!y2.contains(sep)) by {
            if y2.contains(sep) {
                let k = choose|k: int| 0 <= k < y2.len() && y2[k] == sep;
                assert(y[k] == sep);
            }
        }
        lemma_split_extend(p, y2, sep);
        assert((p + y).drop_last() =~= p + y2);
        assert((p + y).last() == y.last());
        assert(y.last() != sep) by {
            assert(y[y.len() - 1] == y.last());
        }
        assert(split_on(p, sep).last() + y =~= (split_on(p, sep).last() + y2).push(y.last()));
        assert(split_on(p + y, sep) =~= split_on(p, sep).update(
            split_on(p, sep).len() - 1,
            split_on(p, sep).last() + y,
        ));
    }
}

/// A separator followed by a separator-free tail adds the tail as a
/// new piece.
proof fn lemma_split_sep(x: Seq<char>, y: Seq<char>, sep: char)
    requires
        !y.contains(sep),
    ensures
        split_on(x + seq![sep] + y, sep) == split_on(x, sep).push(y),
{
    let p = x + seq![sep];
    assert(p.drop_last() =~= x);
    assert(split_on(p, sep) == split_on(x, sep).push(Seq::<char>::empty()));
    lemma_split_extend(p, y, sep);
    assert(Seq::<char>::empty() + y =~= y);
    assert(split_on(p, sep).update(split_on(p, sep).len() - 1, split_on(p, sep).last() + y)
        =~= split_on(x, sep).push(y));
}

/// A decimal rendering holds no dot.
proof fn lemma_dec_no_dot(n: nat)
    ensures
        !dec(n).contains('.'),
{
    lemma_dec_digits(n);
    if dec(n).contains('.') {
        let k = choose|k: int| 0 <= k < dec(n).len() && dec(n)[k] == '.';
        assert(is_digit(dec(n)[k]));
    }
}

/// The decimal rendering of a component parses as `str::parse::<u32>`
/// would.
proof fn lemma_parse_component(n: nat)
    requires
        n <= u32::MAX,
    ensures
        parse_u32_spec(dec(n)) == Ok::<nat, IntErrorKind>(n),
{
    lemma_dec_digits(n);
    lemma_parse_dec(n);
    assert(is_digit(dec(n)[0]));
}

/// Rendering a version and parsing the text gives the version back.
pub proof fn law_version_text_roundtrip(v: StoreVersion)
    ensures
        parse_version_spec(version_text(v)) == VersionParse::Parsed(v.major, v.minor, v.patch),
{
    reveal_strlit(".");
    let a = dec(v.major as nat);
    let b = dec(v.minor as nat);
    let c = dec(v.patch as nat);
    lemma_dec_no_dot(v.major as nat);
    lemma_dec_no_dot(v.minor as nat);
    lemma_dec_no_dot(v.patch as nat);
    assert(version_text(v) =~= (a + seq!['.'] + b) + seq!['.'] + c);
    lemma_split_extend(Seq::<char>::empty(), a, '.');
    assert(Seq::<char>::empty() + a =~= a);
    assert(split_on(a, '.') =~= seq![a]);
    lemma_split_sep(a, b, '.');
    lemma_split_sep(a + seq!['.'] + b, c, '.');
    let parts = split_on(version_text(v), '.');
    assert(parts =~= seq![a, b, c]);
    lemma_parse_component(v.major as nat);
    lemma_parse_component(v.minor as nat);
    lemma_parse_component(v.patch as nat);
}

} // verus!
