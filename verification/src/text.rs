//! Text helpers: decimal rendering, substring search, Windows path file names
//! and UTF-16 decoding.
use vstd::prelude::*;
use vstd::string::*;

verus! {

/// The character of a decimal digit `d` (`0 <= d < 10`).
pub open spec fn digit_char(d: int) -> char {
    (d + 48) as char
}

/// The decimal rendering of a natural number, without sign or leading zeros.
pub open spec fn decimal(n: nat) -> Seq<char>
    decreases n,
{
    if n < 10 {
        seq![digit_char(n as int)]
    } else {
        decimal(n / 10).push(digit_char((n % 10) as int))
    }
}

/// The decimal rendering of an integer, with a leading `-` when it is negative.
pub open spec fn signed_decimal(n: int) -> Seq<char> {
    if n < 0 {
        seq!['-'] + decimal((-n) as nat)
    } else {
        decimal(n as nat)
    }
}

proof fn lemma_decimal_len(n: nat)
    ensures
        decimal(n).len() >= 1,
        n >= 10 ==> decimal(n).len() >= 2,
    decreases n,
{
    if n >= 10 {
        lemma_decimal_len(n / 10);
    }
}

/// Different numbers have different decimal renderings.
pub proof fn lemma_decimal_injective(a: nat, b: nat)
    requires
        decimal(a) == decimal(b),
    ensures
        a == b,
    decreases a,
{
    lemma_decimal_len(a);
    lemma_decimal_len(b);
    if a < 10 && b < 10 {
        assert(decimal(a)[0] == digit_char(a as int));
        assert(decimal(b)[0] == digit_char(b as int));
        assert(digit_char(a as int) as int == a + 48);
        assert(digit_char(b as int) as int == b + 48);
    } else if a >= 10 && b >= 10 {
        let da = decimal(a);
        let db = decimal(b);
        assert(da.last() == digit_char((a % 10) as int));
        assert(db.last() == digit_char((b % 10) as int));
        assert(digit_char((a % 10) as int) as int == a % 10 + 48);
        assert(digit_char((b % 10) as int) as int == b % 10 + 48);
        assert(da.drop_last() =~= decimal(a / 10));
        assert(db.drop_last() =~= decimal(b / 10));
        lemma_decimal_injective(a / 10, b / 10);
    } else {
        assert(decimal(a).len() != decimal(b).len());
    }
}

/// `pat` occurs in `s` as a contiguous run of characters.
pub open spec fn contains_seq(s: Seq<char>, pat: Seq<char>) -> bool {
    exists|i: int| 0 <= i && i + pat.len() <= s.len() && #[trigger] s.subrange(i, i + pat.len()) == pat
}

/// The index just past the last `\` of `s`, or 0 where `s` has none.
pub open spec fn file_name_start(s: Seq<char>) -> int
    decreases s.len(),
{
    if s.len() == 0 {
        0
    } else if s.last() == '\\' {
        s.len() as int
    } else {
        file_name_start(s.drop_last())
    }
}

/// The last `\`-separated component of a Windows path.
pub open spec fn file_name_of(s: Seq<char>) -> Seq<char> {
    s.subrange(file_name_start(s), s.len() as int)
}

proof fn lemma_file_name_start_bounds(s: Seq<char>)
    ensures
        0 <= file_name_start(s) <= s.len(),
        file_name_start(s) == 0 || s[file_name_start(s) - 1] == '\\',
        forall|k: int| file_name_start(s) <= k < s.len() ==> s[k] != '\\',
    decreases s.len(),
{
    if s.len() > 0 && s.last() != '\\' {
        lemma_file_name_start_bounds(s.drop_last());
        assert forall|k: int| file_name_start(s) <= k < s.len() implies s[k] != '\\' by {
            if k < s.len() - 1 {
                assert(s.drop_last()[k] == s[k]);
            }
        }
    }
}

/// The file name of a path is the part after its last `\`: it holds no `\`,
/// and what precedes it is empty or ends with `\`.
pub proof fn lemma_file_name_is_last_component(s: Seq<char>)
    ensures
        !file_name_of(s).contains('\\'),
        s == s.subrange(0, file_name_start(s)) + file_name_of(s),
        file_name_start(s) == 0 || s.subrange(0, file_name_start(s)).last() == '\\',
{
    lemma_file_name_start_bounds(s);
    let k = file_name_start(s);
    assert(s =~= s.subrange(0, k) + file_name_of(s));
    if file_name_of(s).contains('\\') {
        let j = choose|j: int| 0 <= j < file_name_of(s).len() && file_name_of(s)[j] == '\\';
        assert(s[k + j] == '\\');
    }
}

pub open spec fn is_high_surrogate(u: u16) -> bool {
    0xD800 <= u <= 0xDBFF
}

pub open spec fn is_low_surrogate(u: u16) -> bool {
    0xDC00 <= u <= 0xDFFF
}

/// UTF-16 decoding where every unpaired surrogate becomes U+FFFD.
pub open spec fn utf16_lossy(units: Seq<u16>) -> Seq<char>
    decreases units.len(),
{
    if units.len() == 0 {
        seq![]
    } else if units.len() >= 2 && is_high_surrogate(units[0]) && is_low_surrogate(units[1]) {
        seq![(0x10000 + (units[0] - 0xD800) * 0x400 + (units[1] - 0xDC00)) as char]
            + utf16_lossy(units.skip(2))
    } else if is_high_surrogate(units[0]) || is_low_surrogate(units[0]) {
        seq!['\u{FFFD}'] + utf16_lossy(units.skip(1))
    } else {
        seq![units[0] as char] + utf16_lossy(units.skip(1))
    }
}

/// Decodes UTF-16 code units, replacing each unpaired surrogate with U+FFFD
/// (`String::from_utf16_lossy`; the contract restates the decoding that the
/// standard library documents).
#[verifier::external_body]
fn utf16_lossy_text(units: &[u16]) -> (s: String)
    ensures
        s@ == utf16_lossy(units@),
{
    String::from_utf16_lossy(units)
}

/// Decodes the first `length` code units of `buffer`.
pub fn decode_wide(buffer: &[u16], length: usize) -> (s: String)
    requires
        length <= buffer@.len(),
    ensures
        s@ == utf16_lossy(buffer@.subrange(0, length as int)),
{
    let units = vstd::slice::slice_subrange(buffer, 0, length);
    utf16_lossy_text(units)
}

fn digit_text(d: u64) -> (s: &'static str)
    requires
        d < 10,
    ensures
        s@ == seq![digit_char(d as int)],
{
    match d {
        0 => {
            proof { reveal_strlit("0"); }
            "0"
        },
        1 => {
            proof { reveal_strlit("1"); }
            "1"
        },
        2 => {
            proof { reveal_strlit("2"); }
            "2"
        },
        3 => {
            proof { reveal_strlit("3"); }
            "3"
        },
        4 => {
            proof { reveal_strlit("4"); }
            "4"
        },
        5 => {
            proof { reveal_strlit("5"); }
            "5"
        },
        6 => {
            proof { reveal_strlit("6"); }
            "6"
        },
        7 => {
            proof { reveal_strlit("7"); }
            "7"
        },
        8 => {
            proof { reveal_strlit("8"); }
            "8"
        },
        _ => {
            proof { reveal_strlit("9"); }
            "9"
        },
    }
}

/// Appends the decimal rendering of `n` to `out`.
pub fn append_decimal(out: &mut String, n: u64)
    ensures
        final(out)@ == old(out)@ + decimal(n as nat),
    decreases n,
{
    let ghost start = out@;
    if n >= 10 {
        append_decimal(out, n / 10);
    }
    out.append(digit_text(n % 10));
    proof {
        if n >= 10 {
            assert(start + decimal((n / 10) as nat) + seq![digit_char((n % 10) as int)] =~= start
                + decimal(n as nat));
        } else {
            assert(start + seq![digit_char((n % 10) as int)] =~= start + decimal(n as nat));
        }
    }
}

/// Appends the decimal rendering of `n`, with a `-` for a negative number.
pub fn append_signed_decimal(out: &mut String, n: i64)
    ensures
        final(out)@ == old(out)@ + signed_decimal(n as int),
{
    let ghost start = out@;
    if n < 0 {
        proof { reveal_strlit("-"); }
        out.append("-");
        let magnitude: u64 = if n == i64::MIN {
            0x8000_0000_0000_0000u64
        } else {
            (-n) as u64
        };
        append_decimal(out, magnitude);
        assert(start + seq!['-'] + decimal(magnitude as nat) =~= start + signed_decimal(n as int));
    } else {
        append_decimal(out, n as u64);
    }
}

/// The decimal rendering of `n`.
pub fn decimal_text(n: u64) -> (s: String)
    ensures
        s@ == decimal(n as nat),
{
    let mut s = String::new();
    append_decimal(&mut s, n);
    assert(s@ =~= decimal(n as nat));
    s
}

/// `pat` occurs in `s`.
pub fn contains_text(s: &str, pat: &str) -> (b: bool)
    ensures
        b == contains_seq(s@, pat@),
{
    let n = s.unicode_len();
    let m = pat.unicode_len();
    if m > n {
        return false;
    }
    let mut i: usize = 0;
    while i <= n - m
        invariant
            n == s@.len(),
            m == pat@.len(),
            m <= n,
            i <= n - m + 1,
            forall|k: int| 0 <= k < i ==> #[trigger] s@.subrange(k, k + m) != pat@,
        decreases n - i,
    {
        let mut j: usize = 0;
        let mut same = true;
        while j < m
            invariant
                n == s@.len(),
                m == pat@.len(),
                i + m <= n,
                j <= m,
                same == (forall|k: int| 0 <= k < j ==> #[trigger] s@[i + k] == pat@[k]),
            decreases m - j,
        {
            if s.get_char(i + j) != pat.get_char(j) {
                same = false;
            }
            j = j + 1;
        }
        if same {
            assert forall|k: int| 0 <= k < m implies s@.subrange(i as int, i + m)[k] == pat@[k] by {
                assert(s@[i + k] == pat@[k]);
            }
            assert(s@.subrange(i as int, i + m) =~= pat@);
            return true;
        }
        assert(s@.subrange(i as int, i + m) != pat@) by {
            let k = choose|k: int| 0 <= k < m && s@[i + k] != pat@[k];
            assert(s@.subrange(i as int, i + m)[k] == s@[i + k]);
        }
        i = i + 1;
    }
    assert forall|k: int| 0 <= k && k + pat@.len() <= s@.len() implies #[trigger] s@.subrange(
        k,
        k + pat@.len(),
    ) != pat@ by {
        assert(k < i);
    }
    false
}

/// The last `\`-separated component of `path`.
pub fn path_file_name(path: &str) -> (name: String)
    ensures
        name@ == file_name_of(path@),
{
    let n = path.unicode_len();
    let mut i: usize = n;
    assert(path@.subrange(0, n as int) =~= path@);
    loop
        invariant
            n == path@.len(),
            i <= n,
            file_name_start(path@) == file_name_start(path@.subrange(0, i as int)),
        ensures
            n == path@.len(),
            i <= n,
            file_name_start(path@) == file_name_start(path@.subrange(0, i as int)),
            i == 0 || path@[i - 1] == '\\',
        decreases i,
    {
        if i == 0 {
            break;
        }
        assert(path@.subrange(0, i as int).drop_last() =~= path@.subrange(0, i - 1));
        if path.get_char(i - 1) == '\\' {
            break;
        }
        i = i - 1;
    }
    proof {
        if i == 0 {
            assert(path@.subrange(0, 0).len() == 0);
        } else {
            assert(path@.subrange(0, i as int).last() == path@[i - 1]);
        }
    }
    String::from_str(path.substring_char(i, n))
}

} // verus!
