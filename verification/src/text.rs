use vstd::prelude::*;

verus! {

/// The character of a decimal digit `d` (`0 <= d < 10`).
pub open spec fn digit_char(d: nat) -> char {
    (('0' as int) + d) as char
}

/// The decimal rendering of `n`, most significant digit first, without
/// leading zeros (`0` is rendered as a single `0`).
pub open spec fn decimal(n: nat) -> Seq<char>
    decreases n,
{
    if n < 10 {
        seq![digit_char(n)]
    } else {
        decimal(n / 10).push(digit_char(n % 10))
    }
}

/// The value of a base-10 numeral, each character standing for its
/// distance from `'0'`.
pub open spec fn numeral_value(s: Seq<char>) -> int
    decreases s.len(),
{
    if s.len() == 0 {
        0
    } else {
        10 * numeral_value(s.drop_last()) + ((s.last() as int) - ('0' as int))
    }
}

/// Whether `c` is one of `'0'` to `'9'`.
pub open spec fn is_decimal_digit(c: char) -> bool {
    ('0' as int) <= (c as int) <= ('9' as int)
}

/// `decimal(n)` is the base-10 numeral of `n`: it is made of decimal digits,
/// read back as a numeral it gives `n`, and it has no leading zero.
pub proof fn lemma_decimal_is_base_ten(n: nat)
    ensures
        decimal(n).len() >= 1,
        forall|i: int| 0 <= i < decimal(n).len() ==> is_decimal_digit(#[trigger] decimal(n)[i]),
        numeral_value(decimal(n)) == n,
        decimal(n)[0] == '0' ==> n == 0,
        n == 0 ==> decimal(n) == seq!['0'],
    decreases n,
{
    if n < 10 {
        assert(decimal(n) == seq![digit_char(n)]);
        assert(seq![digit_char(n)].drop_last() =~= Seq::<char>::empty());
        assert(numeral_value(Seq::<char>::empty()) == 0);
    } else {
        lemma_decimal_is_base_ten(n / 10);
        let prefix = decimal(n / 10);
        let d = digit_char(n % 10);
        assert(decimal(n) == prefix.push(d));
        assert(prefix.push(d).drop_last() =~= prefix);
        assert(prefix.push(d)[0] == prefix[0]);
        assert(forall|i: int| 0 <= i < prefix.len() ==> prefix.push(d)[i] == prefix[i]);
        assert(n == 10 * (n / 10) + n % 10);
    }
}

fn digit_str(d: u32) -> (s: &'static str)
    requires
        d < 10,
    ensures
        s@ == seq![digit_char(d as nat)],
{
    if d == 0 {
        proof { reveal_strlit("0"); }
        "0"
    } else if d == 1 {
        proof { reveal_strlit("1"); }
        "1"
    } else if d == 2 {
        proof { reveal_strlit("2"); }
        "2"
    } else if d == 3 {
        proof { reveal_strlit("3"); }
        "3"
    } else if d == 4 {
        proof { reveal_strlit("4"); }
        "4"
    } else if d == 5 {
        proof { reveal_strlit("5"); }
        "5"
    } else if d == 6 {
        proof { reveal_strlit("6"); }
        "6"
    } else if d == 7 {
        proof { reveal_strlit("7"); }
        "7"
    } else if d == 8 {
        proof { reveal_strlit("8"); }
        "8"
    } else {
        proof { reveal_strlit("9"); }
        "9"
    }
}

/// Appends the decimal rendering of `n` to `out`.
pub fn push_decimal(out: &mut String, n: u32)
    ensures
        final(out)@ == old(out)@ + decimal(n as nat),
    decreases n,
{
    if n >= 10 {
        push_decimal(out, n / 10);
    }
    out.append(digit_str(n % 10));
    assert(decimal(n as nat) =~= if n < 10 {
        seq![digit_char(n as nat)]
    } else {
        decimal((n / 10) as nat).push(digit_char((n % 10) as nat))
    });
}

/// `base` joined with the relative path `rel`, as `PathBuf::join` does on
/// Unix: a separator is put between them unless `base` is empty or already
/// ends with one.
pub open spec fn joined_path(base: Seq<char>, rel: Seq<char>) -> Seq<char> {
    if base.len() == 0 {
        rel
    } else if base.last() == '/' {
        base + rel
    } else {
        base + seq!['/'] + rel
    }
}

/// Joining keeps `base` in front and `rel` at the end, with exactly one
/// `'/'` between them when `base` is not empty.
pub proof fn lemma_joined_path(base: Seq<char>, rel: Seq<char>)
    ensures
        joined_path(base, rel).take(base.len() as int) == base,
        joined_path(base, rel).skip(joined_path(base, rel).len() - rel.len()) == rel,
        base.len() == 0 ==> joined_path(base, rel) == rel,
        base.len() > 0 && base.last() == '/' ==> joined_path(base, rel).len() == base.len() + rel.len(),
        base.len() > 0 && base.last() != '/' ==> joined_path(base, rel).len() == base.len() + rel.len() + 1
            && joined_path(base, rel)[base.len() as int] == '/',
{
    let j = joined_path(base, rel);
    if base.len() == 0 {
        assert(j.take(0) =~= base);
        assert(j.skip(0) =~= rel);
    } else if base.last() == '/' {
        assert(j.take(base.len() as int) =~= base);
        assert(j.skip(j.len() - rel.len()) =~= rel);
    } else {
        assert(j.take(base.len() as int) =~= base);
        assert(j.skip(j.len() - rel.len()) =~= rel);
    }
}

/// Joins the relative path `rel` onto `base`.
pub fn join_path(base: &str, rel: &str) -> (joined: String)
    requires
        rel@.len() > 0,
        rel@[0] != '/',
    ensures
        joined@ == joined_path(base@, rel@),
{
    let mut joined = String::from_str(base);
    let n = base.unicode_len();
    if n > 0 && base.get_char(n - 1) != '/' {
        proof { reveal_strlit("/"); }
        joined.append("/");
    }
    joined.append(rel);
    joined
}

} // verus!
