//! Staged module file names.
//!
//! Before each load the canonical module file is copied to a uniquely named
//! staged path, so the OS loader never maps the same path twice and the
//! canonical file can be rebuilt while older mappings stay valid.  The name
//! has the form `lib_{group}.plugin.{counter}`, where the counter comes from
//! the manager's monotonic load counter.  This module renders the name and
//! proves that distinct counters always yield distinct names.

use vstd::prelude::*;

verus! {

/// The decimal digit character for `d` (`d < 10`).
pub open spec fn digit_char(d: nat) -> char {
    if d == 0 {
        '0'
    } else if d == 1 {
        '1'
    } else if d == 2 {
        '2'
    } else if d == 3 {
        '3'
    } else if d == 4 {
        '4'
    } else if d == 5 {
        '5'
    } else if d == 6 {
        '6'
    } else if d == 7 {
        '7'
    } else if d == 8 {
        '8'
    } else {
        '9'
    }
}

/// The numeric value of a decimal digit character; 10 for any other character.
pub open spec fn digit_value(c: char) -> nat {
    if c == '0' {
        0
    } else if c == '1' {
        1
    } else if c == '2' {
        2
    } else if c == '3' {
        3
    } else if c == '4' {
        4
    } else if c == '5' {
        5
    } else if c == '6' {
        6
    } else if c == '7' {
        7
    } else if c == '8' {
        8
    } else if c == '9' {
        9
    } else {
        10
    }
}

/// The decimal rendering of `n`, most significant digit first, no leading
/// zeros (except for `n == 0` itself).
pub open spec fn dec_digits(n: nat) -> Seq<char>
    decreases n,
{
    if n < 10 {
        seq![digit_char(n)]
    } else {
        dec_digits(n / 10).push(digit_char(n % 10))
    }
}

/// The number denoted by a sequence of decimal digit characters.
pub open spec fn dec_value(s: Seq<char>) -> nat
    decreases s.len(),
{
    if s.len() == 0 {
        0
    } else {
        dec_value(s.drop_last()) * 10 + digit_value(s.last())
    }
}

/// Reading back the decimal rendering of `n` yields `n` again.
pub proof fn lemma_dec_digits_value(n: nat)
    ensures
        dec_value(dec_digits(n)) == n,
    decreases n,
{
    if n < 10 {
        let s = dec_digits(n);
        assert(s.drop_last() =~= Seq::<char>::empty());
        assert(s.last() == digit_char(n));
        assert(digit_value(digit_char(n)) == n);
        assert(dec_value(s) == dec_value(s.drop_last()) * 10 + digit_value(s.last()));
        assert(dec_value(Seq::<char>::empty()) == 0);
        assert(dec_value(s) == n);
    } else {
        lemma_dec_digits_value(n / 10);
        vstd::arithmetic::div_mod::lemma_fundamental_div_mod(n as int, 10);
        let prefix = dec_digits(n / 10);
        let s = prefix.push(digit_char(n % 10));
        assert(s.drop_last() =~= prefix);
        assert(digit_value(digit_char(n % 10)) == n % 10);
        assert(dec_value(s) == (n / 10) * 10 + n % 10);
    }
}

/// Decimal rendering is injective: distinct numbers render differently.
pub proof fn lemma_dec_digits_injective(a: nat, b: nat)
    requires
        dec_digits(a) == dec_digits(b),
    ensures
        a == b,
{
    lemma_dec_digits_value(a);
    lemma_dec_digits_value(b);
}

/// The staged file name for one load attempt of `group` under counter `n`:
/// `lib_{group}.plugin.{n}`.
pub open spec fn staged_name(group: Seq<char>, n: nat) -> Seq<char> {
    "lib_"@ + group + ".plugin."@ + dec_digits(n)
}

/// Two load attempts of the same group under distinct counter values are
/// staged under distinct file names.
pub proof fn lemma_staged_names_distinct(group: Seq<char>, c1: nat, c2: nat)
    requires
        c1 != c2,
    ensures
        staged_name(group, c1) != staged_name(group, c2),
{
    let head = "lib_"@ + group + ".plugin."@;
    let s1 = staged_name(group, c1);
    let s2 = staged_name(group, c2);
    assert(s1 =~= head + dec_digits(c1));
    assert(s2 =~= head + dec_digits(c2));
    if s1 == s2 {
        assert((head + dec_digits(c1)).skip(head.len() as int) =~= dec_digits(c1));
        assert((head + dec_digits(c2)).skip(head.len() as int) =~= dec_digits(c2));
        lemma_dec_digits_injective(c1, c2);
    }
}

/// Staged paths inherit the distinctness of staged names: for the same
/// group and staging directory, distinct counter values yield distinct
/// staged paths, so no two load attempts ever reuse a path.
pub proof fn lemma_staged_paths_distinct(dir: Seq<char>, group: Seq<char>, c1: nat, c2: nat)
    requires
        c1 != c2,
    ensures
        staged_path(dir, group, c1) != staged_path(dir, group, c2),
{
    let head = dir + "/"@ + "lib_"@ + group + ".plugin."@;
    let s1 = staged_path(dir, group, c1);
    let s2 = staged_path(dir, group, c2);
    assert(s1 =~= head + dec_digits(c1));
    assert(s2 =~= head + dec_digits(c2));
    if s1 == s2 {
        assert((head + dec_digits(c1)).skip(head.len() as int) =~= dec_digits(c1));
        assert((head + dec_digits(c2)).skip(head.len() as int) =~= dec_digits(c2));
        lemma_dec_digits_injective(c1, c2);
    }
}

/// One decimal digit as a string slice.
fn digit_str(d: u64) -> (r: &'static str)
    requires
        d < 10,
    ensures
        r@ =~= seq![digit_char(d as nat)],
{
    proof {
        reveal_strlit("0");
        reveal_strlit("1");
        reveal_strlit("2");
        reveal_strlit("3");
        reveal_strlit("4");
        reveal_strlit("5");
        reveal_strlit("6");
        reveal_strlit("7");
        reveal_strlit("8");
        reveal_strlit("9");
    }
    if d == 0 {
        "0"
    } else if d == 1 {
        "1"
    } else if d == 2 {
        "2"
    } else if d == 3 {
        "3"
    } else if d == 4 {
        "4"
    } else if d == 5 {
        "5"
    } else if d == 6 {
        "6"
    } else if d == 7 {
        "7"
    } else if d == 8 {
        "8"
    } else {
        "9"
    }
}

/// Renders `n` in decimal.
pub fn u64_to_dec(n: u64) -> (s: String)
    ensures
        s@ == dec_digits(n as nat),
    decreases n,
{
    if n < 10 {
        String::from_str(digit_str(n))
    } else {
        let mut s = u64_to_dec(n / 10);
        s.append(digit_str(n % 10));
        proof {
            assert(dec_digits(n as nat) =~= dec_digits(n as nat / 10) + seq![
                digit_char(n as nat % 10),
            ]);
        }
        s
    }
}

/// Renders the staged file name `lib_{group}.plugin.{counter}`.
pub fn staged_lib_name(group_name: &String, counter: u64) -> (r: String)
    ensures
        r@ == staged_name(group_name@, counter as nat),
{
    let mut s = String::from_str("lib_");
    s.append(group_name.as_str());
    s.append(".plugin.");
    let digits = u64_to_dec(counter);
    s.append(digits.as_str());
    proof {
        assert(s@ =~= staged_name(group_name@, counter as nat));
    }
    s
}

/// The staged path: the staging directory, a separator, and the staged name.
pub open spec fn staged_path(dir: Seq<char>, group: Seq<char>, n: nat) -> Seq<char> {
    dir + "/"@ + staged_name(group, n)
}

/// Renders the full staged path `{temp_dir}/lib_{group}.plugin.{counter}`.
pub fn staged_lib_path(temp_dir: &String, group_name: &String, counter: u64) -> (r: String)
    ensures
        r@ == staged_path(temp_dir@, group_name@, counter as nat),
{
    let mut s = temp_dir.clone();
    s.append("/");
    let name = staged_lib_name(group_name, counter);
    s.append(name.as_str());
    proof {
        assert(s@ =~= staged_path(temp_dir@, group_name@, counter as nat));
    }
    s
}

} // verus!
