use vstd::prelude::*;
use vstd::string::StrSliceExecFns;
use vstd::string::StringExecFns;

verus! {

/// Character-wise string comparison, so that contracts can speak of the
/// views of both sides.
pub fn str_eq(a: &str, b: &str) -> (r: bool)
    ensures
        r == (a@ == b@),
{
    let alen = a.unicode_len();
    let blen = b.unicode_len();
    if alen != blen {
        proof {
            assert(a@ != b@) by {
                assert(a@.len() != b@.len());
            }
        }
        return false;
    }
    let mut i: usize = 0;
    while i < alen
        invariant
            alen == a@.len(),
            alen == b@.len(),
            0 <= i <= alen,
            forall|j: int| 0 <= j < i ==> a@[j] == b@[j],
        decreases alen - i,
    {
        if a.get_char(i) != b.get_char(i) {
            return false;
        }
        i += 1;
    }
    proof {
        assert(a@ =~= b@);
    }
    true
}

/// The decimal digit characters, least significant last, of a nonnegative
/// number.
pub open spec fn spec_nat_digits(n: nat) -> Seq<char>
    decreases n,
{
    if n < 10 {
        seq![spec_digit_char(n)]
    } else {
        spec_nat_digits(n / 10) + seq![spec_digit_char(n % 10)]
    }
}

/// The character for a single decimal digit.
pub open spec fn spec_digit_char(d: nat) -> char {
    if d == 0 {
        '0'
    } else if d == 1 {
        '1'
    } else if d == 2 {
        '2'
    } else if d == 3 {
        '3'
    } else if d == 4 {
        '4'
    } else if d == 5 {
        '5'
    } else if d == 6 {
        '6'
    } else if d == 7 {
        '7'
    } else if d == 8 {
        '8'
    } else {
        '9'
    }
}

/// The decimal rendering of a signed number: a minus sign for negatives,
/// then the digits of its magnitude.
pub open spec fn spec_int_string(n: int) -> Seq<char> {
    if n < 0 {
        seq!['-'] + spec_nat_digits((-n) as nat)
    } else {
        spec_nat_digits(n as nat)
    }
}

fn digit_str(d: u128) -> (r: &'static str)
    requires
        d < 10,
    ensures
        r@ =~= seq![spec_digit_char(d as nat)],
{
    proof {
        reveal_strlit("0");
        reveal_strlit("1");
        reveal_strlit("2");
        reveal_strlit("3");
        reveal_strlit("4");
        reveal_strlit("5");
        reveal_strlit("6");
        reveal_strlit("7");
        reveal_strlit("8");
        reveal_strlit("9");
    }
    if d == 0 {
        "0"
    } else if d == 1 {
        "1"
    } else if d == 2 {
        "2"
    } else if d == 3 {
        "3"
    } else if d == 4 {
        "4"
    } else if d == 5 {
        "5"
    } else if d == 6 {
        "6"
    } else if d == 7 {
        "7"
    } else if d == 8 {
        "8"
    } else {
        "9"
    }
}

fn nat_to_string(m: u128) -> (r: String)
    ensures
        r@ == spec_nat_digits(m as nat),
    decreases m,
{
    if m < 10 {
        String::from_str(digit_str(m))
    } else {
        let prefix = nat_to_string(m / 10);
        prefix.concat(digit_str(m % 10))
    }
}

/// Render a signed number in decimal.
pub fn int_to_string(n: i128) -> (r: String)
    ensures
        r@ == spec_int_string(n as int),
{
    if n < 0 {
        let magnitude: u128 = ((-(n + 1)) as u128) + 1;
        proof {
            assert(magnitude as int == -(n as int));
        }
        let s = String::from_str("-");
        proof {
            reveal_strlit("-");
            assert(s@ =~= seq!['-']);
        }
        s.concat(nat_to_string(magnitude).as_str())
    } else {
        nat_to_string(n as u128)
    }
}

/// The width, in bytes, of one character's UTF-8 encoding.
pub open spec fn spec_utf8_width(c: char) -> int {
    if (c as u32) < 0x80 {
        1
    } else if (c as u32) < 0x800 {
        2
    } else if (c as u32) < 0x10000 {
        3
    } else {
        4
    }
}

/// The byte length of a text's UTF-8 encoding: the sum of its characters'
/// widths.
pub open spec fn spec_utf8_len(s: Seq<char>) -> int
    decreases s.len(),
{
    if s.len() == 0 {
        0
    } else {
        spec_utf8_width(s[0]) + spec_utf8_len(s.subrange(1, s.len() as int))
    }
}

/// The byte length of a text's UTF-8 encoding.
pub fn utf8_len(s: &str) -> (r: u128)
    ensures
        r as int == spec_utf8_len(s@),
        r <= 4 * s@.len(),
        r as int <= 4 * usize::MAX,
{
    let n = s.unicode_len();
    let mut total: u128 = 0;
    let mut i: usize = 0;
    proof {
        assert(s@.subrange(0, n as int) =~= s@);
        lemma_utf8_len_nonneg(s@);
    }
    while i < n
        invariant
            n == s@.len(),
            0 <= i <= n,
            total <= 4 * i,
            total + spec_utf8_len(s@.subrange(i as int, n as int)) == spec_utf8_len(s@),
            spec_utf8_len(s@.subrange(i as int, n as int)) >= 0,
        decreases n - i,
    {
        proof {
            let rest = s@.subrange(i as int, n as int);
            assert(rest.subrange(1, rest.len() as int) =~= s@.subrange(i + 1, n as int));
            assert(rest[0] == s@[i as int]);
            lemma_utf8_len_nonneg(s@.subrange(i + 1, n as int));
        }
        let c = s.get_char(i);
        let width: u128 = if (c as u32) < 0x80 {
            1
        } else if (c as u32) < 0x800 {
            2
        } else if (c as u32) < 0x10000 {
            3
        } else {
            4
        };
        total = total + width;
        i += 1;
    }
    proof {
        assert(s@.subrange(n as int, n as int) =~= Seq::<char>::empty());
    }
    total
}

/// A UTF-8 byte length is never negative.
pub proof fn lemma_utf8_len_nonneg(s: Seq<char>)
    ensures
        spec_utf8_len(s) >= 0,
    decreases s.len(),
{
    if s.len() > 0 {
        lemma_utf8_len_nonneg(s.subrange(1, s.len() as int));
    }
}

/// Lexicographic order on texts, by code point; a prefix comes before its
/// extensions.
pub open spec fn spec_str_le(a: Seq<char>, b: Seq<char>) -> bool
    decreases a.len(),
{
    if a.len() == 0 {
        true
    } else if b.len() == 0 {
        false
    } else if (a[0] as u32) < (b[0] as u32) {
        true
    } else if (a[0] as u32) > (b[0] as u32) {
        false
    } else {
        spec_str_le(a.subrange(1, a.len() as int), b.subrange(1, b.len() as int))
    }
}

/// The order is total: two texts compare one way or the other.
pub proof fn lemma_str_le_total(a: Seq<char>, b: Seq<char>)
    ensures
        spec_str_le(a, b) || spec_str_le(b, a),
    decreases a.len(),
{
    if a.len() > 0 && b.len() > 0 && (a[0] as u32) == (b[0] as u32) {
        lemma_str_le_total(a.subrange(1, a.len() as int), b.subrange(1, b.len() as int));
    }
}

proof fn lemma_char_eq_from_u32(x: char, y: char)
    requires
        x as u32 == y as u32,
    ensures
        x == y,
{
}

/// The order is antisymmetric: texts that compare both ways are equal.
pub proof fn lemma_str_le_antisym(a: Seq<char>, b: Seq<char>)
    requires
        spec_str_le(a, b),
        spec_str_le(b, a),
    ensures
        a == b,
    decreases a.len(),
{
    if a.len() > 0 && b.len() > 0 {
        assert((a[0] as u32) == (b[0] as u32));
        lemma_char_eq_from_u32(a[0], b[0]);
        lemma_str_le_antisym(a.subrange(1, a.len() as int), b.subrange(1, b.len() as int));
        assert(a =~= seq![a[0]] + a.subrange(1, a.len() as int));
        assert(b =~= seq![b[0]] + b.subrange(1, b.len() as int));
    } else {
        assert(a =~= b);
    }
}

/// Compare two texts lexicographically.
pub fn str_le(a: &str, b: &str) -> (r: bool)
    ensures
        r == spec_str_le(a@, b@),
{
    let an = a.unicode_len();
    let bn = b.unicode_len();
    let mut i: usize = 0;
    proof {
        assert(a@.subrange(0, an as int) =~= a@);
        assert(b@.subrange(0, bn as int) =~= b@);
    }
    loop
        invariant
            an == a@.len(),
            bn == b@.len(),
            0 <= i <= an,
            i <= bn,
            spec_str_le(a@, b@) == spec_str_le(
                a@.subrange(i as int, an as int),
                b@.subrange(i as int, bn as int),
            ),
        decreases an - i,
    {
        if i == an {
            proof {
                assert(a@.subrange(i as int, an as int) =~= Seq::<char>::empty());
            }
            return true;
        }
        if i == bn {
            proof {
                assert(b@.subrange(i as int, bn as int) =~= Seq::<char>::empty());
                assert(a@.subrange(i as int, an as int).len() > 0);
            }
            return false;
        }
        let ca = a.get_char(i);
        let cb = b.get_char(i);
        proof {
            let ra = a@.subrange(i as int, an as int);
            let rb = b@.subrange(i as int, bn as int);
            assert(ra[0] == a@[i as int]);
            assert(rb[0] == b@[i as int]);
            assert(ra.subrange(1, ra.len() as int) =~= a@.subrange(i + 1, an as int));
            assert(rb.subrange(1, rb.len() as int) =~= b@.subrange(i + 1, bn as int));
        }
        if (ca as u32) < (cb as u32) {
            return true;
        }
        if (ca as u32) > (cb as u32) {
            return false;
        }
        i += 1;
    }
}

/// The concatenation of `parts` with `sep` between neighbours.
pub open spec fn spec_join(parts: Seq<Seq<char>>, sep: Seq<char>) -> Seq<char>
    decreases parts.len(),
{
    if parts.len() == 0 {
        Seq::empty()
    } else if parts.len() == 1 {
        parts[0]
    } else {
        parts[0] + sep + spec_join(parts.drop_first(), sep)
    }
}

/// The views of a list of strings.
pub open spec fn strs_view(s: Seq<String>) -> Seq<Seq<char>> {
    Seq::new(s.len(), |i: int| s[i]@)
}

/// Joining one more part appends a separator and the part.
pub proof fn lemma_spec_join_push(parts: Seq<Seq<char>>, sep: Seq<char>, x: Seq<char>)
    requires
        parts.len() >= 1,
    ensures
        spec_join(parts.push(x), sep) == spec_join(parts, sep) + sep + x,
    decreases parts.len(),
{
    if parts.len() == 1 {
        assert(parts.push(x).drop_first() =~= seq![x]);
        assert(spec_join(parts.push(x), sep) == parts[0] + sep + spec_join(seq![x], sep));
        assert(spec_join(seq![x], sep) == x);
        assert(spec_join(parts, sep) == parts[0]);
    } else {
        assert(parts.push(x).drop_first() =~= parts.drop_first().push(x));
        lemma_spec_join_push(parts.drop_first(), sep, x);
        assert(spec_join(parts.push(x), sep) == parts[0] + sep + spec_join(
            parts.drop_first().push(x),
            sep,
        ));
        assert((parts[0] + sep + (spec_join(parts.drop_first(), sep) + sep + x)) =~= ((parts[0]
            + sep + spec_join(parts.drop_first(), sep)) + sep + x));
    }
}

/// Join a list of strings with a separator between neighbours.
pub fn join_strings(parts: &Vec<String>, sep: &str) -> (r: String)
    ensures
        r@ == spec_join(strs_view(parts@), sep@),
{
    let mut acc = String::new();
    if parts.len() == 0 {
        return acc;
    }
    acc.append(parts[0].as_str());
    let mut i: usize = 1;
    proof {
        assert(strs_view(parts@.subrange(0, 1)) =~= seq![parts@[0]@]);
        assert(spec_join(seq![parts@[0]@], sep@) == parts@[0]@);
    }
    while i < parts.len()
        invariant
            1 <= i <= parts@.len(),
            acc@ == spec_join(strs_view(parts@.subrange(0, i as int)), sep@),
        decreases parts@.len() - i,
    {
        acc.append(sep);
        acc.append(parts[i].as_str());
        proof {
            let pre = strs_view(parts@.subrange(0, i as int));
            assert(pre.len() == i);
            lemma_spec_join_push(pre, sep@, parts@[i as int]@);
            assert(strs_view(parts@.subrange(0, i + 1)) =~= pre.push(parts@[i as int]@));
        }
        i += 1;
    }
    proof {
        assert(parts@.subrange(0, parts@.len() as int) =~= parts@);
    }
    acc
}

} // verus!
